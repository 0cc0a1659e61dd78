//! The whole admin page, from its sections. Everything it shows is passed
//! in, and every interpolated string goes through `esc`.
use vstd::prelude::*;
use crate::admin::apply::{QuietHours, Units};
use crate::admin::page::{head, head_text, FantasyRow, Notice, BRAND};
use crate::admin::display::{display_section, display_text, DisplayValues};
use crate::admin::fantasy::{fantasy_section, fantasy_text, spotlight_section, spotlight_text, weather_section, weather_text, FantasyFound, SpotlightSwitches};
use crate::admin::sections::{favorites_section, favorites_text, leagues_section, leagues_text, notice_html, notice_text, password_section, takeovers_section, takeovers_text, time_section, time_text, PASSWORD_FIXED, PASSWORD_FORM};
use crate::admin::status::{feeds_section, feeds_text, status_section, status_text, FeedRow, LeagueHealth, PlayRow};
use crate::tv_output::Status;
use crate::admin::widgets::{slots_text, widget_slots, widgets_section, widgets_text, WidgetKindChoice};
use crate::admin::look::{look_section, look_text, test_takeovers_section, test_takeovers_text, words_fields, words_fields_text, LookValues, WordsLimits};
use crate::config::WidgetLayout;
use crate::admin::team_art::{team_art_section, team_art_text, TeamArtRow};
use crate::hub::policy::TakeoverPolicy;

verus! {

/// Everything the admin page shows.
pub struct AdminView {
    /// Logged in over the network (shows "Log out").
    pub remote: bool,
    pub notice: Notice,
    /// The followed leagues' ids, in ticker order.
    pub followed: Vec<String>,
    /// The supported leagues as (id, name).
    pub leagues: Vec<(String, String)>,
    /// Teams that can be picked as favorites: (id, league id, name).
    pub teams: Vec<(String, String, String)>,
    pub favorites: Vec<String>,
    pub takeovers: TakeoverPolicy,
    pub spotlight: SpotlightSwitches,
    pub spotlight_game: Option<String>,
    /// Today's games, for "watch a game": (id, "NFL · KC at BUF · Q3 4:26").
    pub games: Vec<(String, String)>,
    /// The weather location's name.
    pub place: Option<String>,
    pub units: Units,
    pub weather_ticker: bool,
    pub weather_alerts: bool,
    pub time_zone: Option<String>,
    /// Time zone names for the picker.
    pub zones: Vec<String>,
    pub quiet_hours: Option<QuietHours>,
    /// Team colors and logos the person added, in team id order.
    pub team_art: Vec<TeamArtRow>,
    pub fantasy: Vec<FantasyRow>,
    /// A fantasy account's leagues, after "Find leagues".
    pub fantasy_found: Option<FantasyFound>,
    /// Feeds (no tokens).
    pub feeds: Vec<FeedRow>,
    /// Now, in milliseconds since the epoch.
    pub now: i64,
    /// This server's address as the browser sees it, for the feed example.
    pub host: String,
    /// The password was set on this page, so it can be changed here.
    pub can_change_password: bool,
    pub health: Vec<LeagueHealth>,
    /// The latest plays, newest first.
    pub plays: Vec<PlayRow>,
    pub widget_layout: WidgetLayout,
    /// The widget kinds, with their labels and options.
    pub widget_kinds: Vec<WidgetKindChoice>,
    /// The saved widgets, as (kind id, option).
    pub widgets: Vec<(String, Option<String>)>,
    /// The kinds shown in slots without a saved widget: game of the day,
    /// scores and standings.
    pub widget_fill: (String, String, String),
    /// What the "Look" section shows of the themes.
    pub look: LookValues,
    /// Team logos from the scores service.
    pub provider_logos: bool,
    /// The display settings, the fractional values and the LED color as
    /// the text they print as.
    pub display: DisplayValues,
    /// What the TV output helper last did, when it's installed.
    pub tv_output: Option<Status>,
    pub show_odds: bool,
    /// The plays that take words, and the limits on words and LED art.
    pub words: WordsLimits,
    /// Teams playing today, favorites first, for test takeovers:
    /// (id, "NFL · Buffalo Blizzard").
    pub playing: Vec<(String, String)>,
    /// The kinds of test takeover, as (id, label).
    pub test_kinds: Vec<(String, String)>,
}

pub const LOGOUT: &'static str =
    "<form method=\"post\" action=\"/logout\" class=\"logout\"><button>Log out</button></form>";

pub const MAIN_START: &'static str = "</header><main>";

pub const SETTINGS_START: &'static str = "<form method=\"post\" action=\"/admin\" id=\"settings\">";

pub const SETTINGS_END: &'static str =
    "<div class=\"actions\"><button type=\"submit\" class=\"primary\">Save</button></div></form>";

/// The settings form: leagues, favorites, takeovers, widgets, look,
/// spotlight, display, weather and time, and the Save button.
pub open spec fn settings_text(v: AdminView) -> Seq<char> {
    SETTINGS_START@ + leagues_text(v.followed@, v.leagues@) + favorites_text(
        v.followed@,
        v.leagues@,
        v.teams@,
        v.favorites@,
    ) + takeovers_text(v.takeovers) + widgets_text(
        v.widget_layout,
        slots_text(v.widget_kinds@, v.widgets@, seq![v.widget_fill.0, v.widget_fill.1, v.widget_fill.2], 3),
    ) + look_text(v.look, v.provider_logos) + spotlight_text(
        v.spotlight,
        v.spotlight_game,
        v.games@,
    ) + display_text(v.display, v.tv_output, v.show_odds) + weather_text(v.place, v.units, v.weather_ticker, v.weather_alerts) + time_text(
        v.time_zone,
        v.zones@,
        v.quiet_hours,
    ) + SETTINGS_END@
}

/// The admin page: the head, the notice, the settings form, then the
/// sections with their own forms (team art, test takeovers, fantasy,
/// feeds, password) and the status.
pub open spec fn admin_page_text(v: AdminView) -> Seq<char> {
    head_text("Marqueet admin"@) + BRAND@ + (if v.remote {
        LOGOUT@
    } else {
        Seq::empty()
    }) + MAIN_START@ + notice_text(v.notice) + settings_text(v) + team_art_text(
        v.team_art@,
        v.leagues@,
        v.teams@,
        words_fields_text(v.words),
    ) + test_takeovers_text(v.playing@, v.test_kinds@) + fantasy_text(v.fantasy@, v.fantasy_found) + feeds_text(
        v.feeds@,
        v.now,
        v.notice,
        v.host@,
    ) + (if v.can_change_password {
        PASSWORD_FORM@
    } else {
        PASSWORD_FIXED@
    }) + status_text(v.health@, v.leagues@, v.now, v.plays@)
}

/// Whether `p` occurs in `t`.
pub open spec fn occurs(t: Seq<char>, p: Seq<char>) -> bool {
    exists|i: int| 0 <= i && i + p.len() <= t.len() && #[trigger] t.subrange(i, i + p.len()) == p
}

/// Text put between two others still occurs in the whole.
proof fn lemma_occurs_between(a: Seq<char>, m: Seq<char>, c: Seq<char>, p: Seq<char>, o: int)
    requires
        0 <= o,
        o + p.len() <= m.len(),
        m.subrange(o, o + p.len()) == p,
    ensures
        occurs(a + m + c, p),
{
    let t = a + m + c;
    let i = a.len() + o;
    assert(t.subrange(i, i + p.len()) =~= m.subrange(o, o + p.len()));
}

/// Where the two password sections name what they name.
proof fn lemma_password_texts()
    ensures
        PASSWORD_FORM@.len() >= 90,
        PASSWORD_FORM@.subrange(66, 90) == "action=\"/admin/password\""@,
        PASSWORD_FIXED@.len() >= 144,
        PASSWORD_FIXED@.subrange(121, 144) == "MARQUEET_ADMIN_PASSWORD"@,
{
    reveal_strlit("action=\"/admin/password\"");
    reveal_strlit("MARQUEET_ADMIN_PASSWORD");
    reveal_strlit(
        "<section id=\"password\"><h2>Admin password</h2><form method=\"post\" action=\"/admin/password\" class=\"narrow\">\
     <label>Current password <input type=\"password\" name=\"current\" autocomplete=\"current-password\" required></label>\
     <label>New password <input type=\"password\" name=\"password\" autocomplete=\"new-password\" minlength=\"8\" maxlength=\"128\" required></label>\
     <label>New password again <input type=\"password\" name=\"confirm\" autocomplete=\"new-password\" minlength=\"8\" maxlength=\"128\" required></label>\
     <p class=\"hint\">8 to 128 characters. Everyone else who is logged in will have to log in again.</p>\
     <div class=\"actions\"><button>Change password</button></div></form></section>",
    );
    reveal_strlit(
        "<section id=\"password\"><h2>Admin password</h2><p class=\"hint\">This device's password comes from its configuration \
     (<code>MARQUEET_ADMIN_PASSWORD</code>), so change it there.</p></section>",
    );
    assert(PASSWORD_FORM@.subrange(66, 90) =~= "action=\"/admin/password\""@);
    assert(PASSWORD_FIXED@.subrange(121, 144) =~= "MARQUEET_ADMIN_PASSWORD"@);
}

/// The page offers the password form, posting to the password address,
/// when the password was set on this page; else it says the password
/// comes from the configuration (`MARQUEET_ADMIN_PASSWORD`).
#[verifier::spinoff_prover]
#[verifier::rlimit(60)]
pub proof fn law_password_section_follows_its_origin(v: AdminView)
    ensures
        v.can_change_password ==> occurs(admin_page_text(v), "action=\"/admin/password\""@),
        !v.can_change_password ==> occurs(admin_page_text(v), "MARQUEET_ADMIN_PASSWORD"@),
{
    let before = head_text("Marqueet admin"@) + BRAND@ + (if v.remote {
        LOGOUT@
    } else {
        Seq::empty()
    }) + MAIN_START@ + notice_text(v.notice) + settings_text(v) + team_art_text(
        v.team_art@,
        v.leagues@,
        v.teams@,
        words_fields_text(v.words),
    ) + test_takeovers_text(v.playing@, v.test_kinds@) + fantasy_text(v.fantasy@, v.fantasy_found) + feeds_text(
        v.feeds@,
        v.now,
        v.notice,
        v.host@,
    );
    let after = status_text(v.health@, v.leagues@, v.now, v.plays@);
    lemma_password_texts();
    if v.can_change_password {
        assert(admin_page_text(v) == before + PASSWORD_FORM@ + after);
        lemma_occurs_between(before, PASSWORD_FORM@, after, "action=\"/admin/password\""@, 66);
    } else {
        assert(admin_page_text(v) == before + PASSWORD_FIXED@ + after);
        lemma_occurs_between(before, PASSWORD_FIXED@, after, "MARQUEET_ADMIN_PASSWORD"@, 121);
    }
}

fn settings_form(v: &AdminView) -> (h: String)
    ensures
        h@ == settings_text(*v),
{
    let mut h = SETTINGS_START.to_owned();
    h.append(leagues_section(&v.followed, &v.leagues).as_str());
    h.append(favorites_section(&v.followed, &v.leagues, &v.teams, &v.favorites).as_str());
    h.append(takeovers_section(v.takeovers).as_str());
    let slots = widget_slots(&v.widget_kinds, &v.widgets, &v.widget_fill.0, &v.widget_fill.1, &v.widget_fill.2);
    h.append(widgets_section(v.widget_layout, slots.as_str()).as_str());
    h.append(look_section(&v.look, v.provider_logos).as_str());
    h.append(spotlight_section(v.spotlight, &v.spotlight_game, &v.games).as_str());
    h.append(display_section(&v.display, &v.tv_output, v.show_odds).as_str());
    h.append(weather_section(&v.place, v.units, v.weather_ticker, v.weather_alerts).as_str());
    h.append(time_section(&v.time_zone, &v.zones, v.quiet_hours).as_str());
    h.append(SETTINGS_END);
    assert(h@ =~= settings_text(*v));
    h
}

/// The admin page as plain server-rendered HTML.
pub fn render(v: &AdminView) -> (h: String)
    ensures
        h@ == admin_page_text(*v),
{
    let mut h = head("Marqueet admin");
    h.append(BRAND);
    if v.remote {
        h.append(LOGOUT);
    }
    h.append(MAIN_START);
    h.append(notice_html(&v.notice).as_str());
    h.append(settings_form(v).as_str());
    let words = words_fields(&v.words);
    h.append(team_art_section(&v.team_art, &v.leagues, &v.teams, words.as_str()).as_str());
    h.append(test_takeovers_section(&v.playing, &v.test_kinds).as_str());
    h.append(fantasy_section(&v.fantasy, &v.fantasy_found).as_str());
    h.append(feeds_section(&v.feeds, v.now, &v.notice, v.host.as_str()).as_str());
    h.append(password_section(v.can_change_password));
    h.append(status_section(&v.health, &v.leagues, v.now, &v.plays).as_str());
    assert(h@ =~= admin_page_text(*v));
    h
}

} // verus!
