//! Parts of the admin page's settings form that show plain settings: the
//! notice at the top, the followed leagues and their order, the favorite
//! teams, the takeover choice, and the time zone with night mode.
use vstd::prelude::*;
use crate::admin::apply::QuietHours;
use crate::admin::page::{checked, esc, escaped, selected, Notice};
use crate::admin::picker::{favs_view, groups_view, picker_text, team_picker, TeamGroups};
use crate::config::str_eq;
use crate::hub::policy::TakeoverPolicy;
use crate::text::{dec, push_dec, string_views};

verus! {

// ---------------------------------------------------------------------------
// The notice
// ---------------------------------------------------------------------------

pub const SAVED: &'static str = "<p class=\"notice ok\" role=\"status\">Saved. The display updates in a moment.</p>";

pub const NOT_SAVED: &'static str = "<p class=\"notice err\" role=\"alert\">Not saved: ";

pub const NOTICE_CLOSE: &'static str = "</p>";

pub const TOKEN_START: &'static str = "<p class=\"notice ok\" role=\"status\">The token for <b>";

pub const TOKEN_MID: &'static str = "</b> is <code class=\"token\">";

pub const TOKEN_END: &'static str =
    "</code>. Copy it now: it isn't shown again (make a new one if you lose it).</p>";

pub const TESTED: &'static str =
    "<p class=\"notice ok\" role=\"status\">Playing on the screen now (it takes a few seconds).</p>";

pub const PASSWORD_CHANGED: &'static str =
    "<p class=\"notice ok\" role=\"status\">Password changed. Everyone else who was logged in has to \
     log in again.</p>";

/// The notice at the top of the admin page.
pub open spec fn notice_text(n: Notice) -> Seq<char> {
    match n {
        Notice::Nothing => Seq::empty(),
        Notice::Saved => SAVED@,
        Notice::Error(e) => NOT_SAVED@ + escaped(e@) + NOTICE_CLOSE@,
        Notice::NewToken { feed, token } => TOKEN_START@ + escaped(feed@) + TOKEN_MID@ + escaped(token@)
            + TOKEN_END@,
        Notice::PasswordChanged => PASSWORD_CHANGED@,
        Notice::Tested => TESTED@,
    }
}

/// The notice at the top of the admin page: saved, an error, a feed's new
/// token (shown this once), a test takeover playing, or a changed password.
pub fn notice_html(n: &Notice) -> (h: String)
    ensures
        h@ == notice_text(*n),
{
    match n {
        Notice::Nothing => String::new(),
        Notice::Saved => SAVED.to_owned(),
        Notice::Error(e) => {
            let mut h = NOT_SAVED.to_owned();
            h.append(esc(e.as_str()).as_str());
            h.append(NOTICE_CLOSE);
            h
        },
        Notice::NewToken { feed, token } => {
            let mut h = TOKEN_START.to_owned();
            h.append(esc(feed.as_str()).as_str());
            h.append(TOKEN_MID);
            h.append(esc(token.as_str()).as_str());
            h.append(TOKEN_END);
            h
        },
        Notice::PasswordChanged => PASSWORD_CHANGED.to_owned(),
        Notice::Tested => TESTED.to_owned(),
    }
}

// ---------------------------------------------------------------------------
// Takeovers
// ---------------------------------------------------------------------------

pub const TAKEOVERS_START: &'static str = "<section><h2>Big-play takeovers</h2><div class=\"choices\">";

pub const TAKEOVERS_END: &'static str = "</div></section>";

/// One takeover choice.
pub open spec fn takeover_choice(value: Seq<char>, on: bool, label: Seq<char>) -> Seq<char> {
    "<label><input type=\"radio\" name=\"takeovers\" value=\""@ + value + "\""@ + (if on {
        " checked"@
    } else {
        ""@
    }) + "> "@ + label + "</label>"@
}

/// The takeover choices, with the current one checked.
pub open spec fn takeovers_text(p: TakeoverPolicy) -> Seq<char> {
    TAKEOVERS_START@ + takeover_choice("all"@, p == TakeoverPolicy::All, "Every touchdown, home run and goal"@)
        + takeover_choice(
        "favorites"@,
        p == TakeoverPolicy::Favorites,
        "Favorites only (others flash the ticker)"@,
    ) + takeover_choice("off"@, p == TakeoverPolicy::Off, "Off (just flash the ticker)"@) + TAKEOVERS_END@
}

fn push_takeover_choice(h: &mut String, value: &str, on: bool, label: &str)
    ensures
        final(h)@ == old(h)@ + takeover_choice(value@, on, label@),
{
    h.append("<label><input type=\"radio\" name=\"takeovers\" value=\"");
    h.append(value);
    h.append("\"");
    h.append(checked(on));
    h.append("> ");
    h.append(label);
    h.append("</label>");
    assert(final(h)@ =~= old(h)@ + takeover_choice(value@, on, label@));
}

/// "Big-play takeovers": every one, favorites only, or off.
pub fn takeovers_section(p: TakeoverPolicy) -> (h: String)
    ensures
        h@ == takeovers_text(p),
{
    let mut h = TAKEOVERS_START.to_owned();
    push_takeover_choice(&mut h, "all", p == TakeoverPolicy::All, "Every touchdown, home run and goal");
    push_takeover_choice(&mut h, "favorites", p == TakeoverPolicy::Favorites, "Favorites only (others flash the ticker)");
    push_takeover_choice(&mut h, "off", p == TakeoverPolicy::Off, "Off (just flash the ticker)");
    h.append(TAKEOVERS_END);
    assert(h@ =~= takeovers_text(p));
    h
}

// ---------------------------------------------------------------------------
// Time zone and night mode
// ---------------------------------------------------------------------------

pub const TIME_START: &'static str =
    "<section><h2>Time</h2><label class=\"wide\">Time zone \
     <input name=\"time_zone\" list=\"zones\" value=\"";

pub const TIME_ZONES: &'static str =
    "\" placeholder=\"Your town's (or the device's)\" \
     autocomplete=\"off\" spellcheck=\"false\"></label><datalist id=\"zones\">";

pub const ZONES_END: &'static str = "</datalist>";

pub const NIGHT_START: &'static str =
    "<h3>Night mode</h3><div class=\"row\">\
     <label><input type=\"checkbox\" name=\"quiet_enabled\"";

pub const NIGHT_LOOK: &'static str =
    "> Night mode</label>\
     <label>Screen <select name=\"quiet_look\" aria-label=\"Night mode screen\">\
     <option value=\"dim\"";

pub const NIGHT_BLACK: &'static str = ">Dim</option><option value=\"black\"";

pub const NIGHT_FROM: &'static str = ">Black</option></select></label>\
     <label>from <input type=\"time\" name=\"quiet_from\" value=\"";

pub const NIGHT_TO: &'static str = "\"></label>\
     <label>to <input type=\"time\" name=\"quiet_to\" value=\"";

pub const NIGHT_END: &'static str = "\"></label></div></section>";

/// A number with at least two digits.
pub open spec fn two_digits(n: u32) -> Seq<char> {
    if n < 10 {
        "0"@ + dec(n as nat)
    } else {
        dec(n as nat)
    }
}

/// A time as "HH:MM".
pub open spec fn hh_mm_text(t: (u32, u32)) -> Seq<char> {
    two_digits(t.0) + ":"@ + two_digits(t.1)
}

/// The zone suggestions.
pub open spec fn zones_text(zones: Seq<String>) -> Seq<char>
    decreases zones.len(),
{
    if zones.len() == 0 {
        Seq::empty()
    } else {
        zones_text(zones.drop_last()) + "<option value=\""@ + escaped(zones.last()@) + "\">"@
    }
}

/// The time zone field and night mode: on when there are quiet hours,
/// "Dim" chosen unless they go black, and their times (23:00 to 07:00 when
/// there are none).
pub open spec fn time_text(time_zone: Option<String>, zones: Seq<String>, quiet: Option<QuietHours>) -> Seq<char> {
    TIME_START@ + escaped(
        match time_zone {
            Some(z) => z@,
            None => Seq::empty(),
        },
    ) + TIME_ZONES@ + zones_text(zones) + ZONES_END@ + NIGHT_START@ + (if quiet is Some {
        " checked"@
    } else {
        ""@
    }) + NIGHT_LOOK@ + (if quiet is None || quiet->0.dim {
        " selected"@
    } else {
        ""@
    }) + NIGHT_BLACK@ + (if quiet is Some && !quiet->0.dim {
        " selected"@
    } else {
        ""@
    }) + NIGHT_FROM@ + (match quiet {
        Some(q) => hh_mm_text(q.from),
        None => "23:00"@,
    }) + NIGHT_TO@ + (match quiet {
        Some(q) => hh_mm_text(q.to),
        None => "07:00"@,
    }) + NIGHT_END@
}

fn push_two_digits(h: &mut String, n: u32)
    ensures
        final(h)@ == old(h)@ + two_digits(n),
{
    if n < 10 {
        h.append("0");
    }
    push_dec(h, n as u64);
    assert(final(h)@ =~= old(h)@ + two_digits(n));
}

fn push_hh_mm(h: &mut String, t: (u32, u32))
    ensures
        final(h)@ == old(h)@ + hh_mm_text(t),
{
    push_two_digits(h, t.0);
    h.append(":");
    push_two_digits(h, t.1);
    assert(final(h)@ =~= old(h)@ + hh_mm_text(t));
}

/// "Time": the time zone with suggestions, and night mode.
pub fn time_section(time_zone: &Option<String>, zones: &Vec<String>, quiet: Option<QuietHours>) -> (h: String)
    ensures
        h@ == time_text(*time_zone, zones@, quiet),
{
    let mut h = TIME_START.to_owned();
    let z = match time_zone {
        Some(z) => esc(z.as_str()),
        None => String::new(),
    };
    h.append(z.as_str());
    h.append(TIME_ZONES);
    let ghost before = h@;
    let mut i: usize = 0;
    while i < zones.len()
        invariant
            i <= zones@.len(),
            h@ == before + zones_text(zones@.take(i as int)),
        decreases zones@.len() - i,
    {
        assert(zones@.take(i + 1).drop_last() =~= zones@.take(i as int));
        assert(zones@.take(i + 1).last() == zones@[i as int]);
        h.append("<option value=\"");
        h.append(esc(zones[i].as_str()).as_str());
        h.append("\">");
        assert(h@ =~= before + zones_text(zones@.take(i + 1)));
        i = i + 1;
    }
    assert(zones@.take(zones@.len() as int) =~= zones@);
    h.append(ZONES_END);
    h.append(NIGHT_START);
    h.append(checked(quiet.is_some()));
    h.append(NIGHT_LOOK);
    let dim = match quiet {
        Some(q) => q.dim,
        None => true,
    };
    h.append(selected(dim));
    h.append(NIGHT_BLACK);
    let black = match quiet {
        Some(q) => !q.dim,
        None => false,
    };
    h.append(selected(black));
    h.append(NIGHT_FROM);
    match quiet {
        Some(q) => push_hh_mm(&mut h, q.from),
        None => h.append("23:00"),
    }
    h.append(NIGHT_TO);
    match quiet {
        Some(q) => push_hh_mm(&mut h, q.to),
        None => h.append("07:00"),
    }
    h.append(NIGHT_END);
    assert(h@ =~= time_text(*time_zone, zones@, quiet));
    h
}

// ---------------------------------------------------------------------------
// Leagues
// ---------------------------------------------------------------------------

pub const LEAGUES_START: &'static str =
    "<section><h2>Leagues</h2><p class=\"hint\">Tick the leagues to follow. Drag (or use the numbers) \
     to set the ticker order.</p><ol class=\"leagues\" id=\"leagues\">";

pub const LEAGUES_END: &'static str = "</ol></section>";

/// The first league (id, name) with id `id`.
pub open spec fn league_with(leagues: Seq<(String, String)>, id: Seq<char>) -> Option<(String, String)>
    decreases leagues.len(),
{
    if leagues.len() == 0 {
        None
    } else {
        match league_with(leagues.drop_last(), id) {
            Some(l) => Some(l),
            None => if leagues.last().0@ == id {
                Some(leagues.last())
            } else {
                None
            },
        }
    }
}

/// The followed leagues that are known, in the followed order.
pub open spec fn known_leagues(followed: Seq<String>, leagues: Seq<(String, String)>) -> Seq<(String, String)>
    decreases followed.len(),
{
    if followed.len() == 0 {
        Seq::empty()
    } else {
        known_leagues(followed.drop_last(), leagues) + match league_with(leagues, followed.last()@) {
            Some(l) => seq![l],
            None => Seq::empty(),
        }
    }
}

/// The leagues not followed, in their own order.
pub open spec fn other_leagues(leagues: Seq<(String, String)>, followed: Seq<String>) -> Seq<(String, String)>
    decreases leagues.len(),
{
    if leagues.len() == 0 {
        Seq::empty()
    } else {
        other_leagues(leagues.drop_last(), followed) + if string_views(followed).contains(leagues.last().0@) {
            Seq::empty()
        } else {
            seq![leagues.last()]
        }
    }
}

/// One league's row: its checkbox and its place in the order.
pub open spec fn league_item(n: nat, l: (String, String), on: bool) -> Seq<char> {
    "<li><span class=\"grip\" aria-hidden=\"true\">⋮⋮</span><label><input type=\"checkbox\" name=\"league\" value=\""@
        + escaped(l.0@) + "\""@ + (if on {
        " checked"@
    } else {
        ""@
    }) + "> "@ + escaped(l.1@) + "</label><input class=\"order\" type=\"number\" name=\"order_"@ + escaped(l.0@)
        + "\" value=\""@ + dec(n) + "\" min=\"1\" aria-label=\"Order for "@ + escaped(l.1@) + "\"></li>"@
}

/// The rows, numbered from one.
pub open spec fn league_items(ls: Seq<(String, String)>, followed: Seq<String>) -> Seq<char>
    decreases ls.len(),
{
    if ls.len() == 0 {
        Seq::empty()
    } else {
        league_items(ls.drop_last(), followed) + league_item(
            ls.len(),
            ls.last(),
            string_views(followed).contains(ls.last().0@),
        )
    }
}

/// "Leagues": the followed ones first, in ticker order, then the rest.
pub open spec fn leagues_text(followed: Seq<String>, leagues: Seq<(String, String)>) -> Seq<char> {
    LEAGUES_START@ + league_items(known_leagues(followed, leagues) + other_leagues(leagues, followed), followed)
        + LEAGUES_END@
}

pub fn contains_id(v: &Vec<String>, s: &String) -> (r: bool)
    ensures
        r == string_views(v@).contains(s@),
{
    let mut i: usize = 0;
    while i < v.len()
        invariant
            i <= v@.len(),
            forall|j: int| 0 <= j < i ==> string_views(v@)[j] != s@,
        decreases v@.len() - i,
    {
        if str_eq(v[i].as_str(), s.as_str()) {
            assert(string_views(v@)[i as int] == s@);
            return true;
        }
        i = i + 1;
    }
    false
}

pub fn find_league(leagues: &Vec<(String, String)>, id: &String) -> (r: Option<usize>)
    ensures
        match r {
            Some(i) => i < leagues@.len() && league_with(leagues@, id@) == Some(leagues@[i as int]),
            None => league_with(leagues@, id@) is None,
        },
{
    let mut i: usize = 0;
    while i < leagues.len()
        invariant
            i <= leagues@.len(),
            league_with(leagues@.take(i as int), id@) is None,
        decreases leagues@.len() - i,
    {
        assert(leagues@.take(i + 1).drop_last() =~= leagues@.take(i as int));
        if str_eq(leagues[i].0.as_str(), id.as_str()) {
            assert(league_with(leagues@.take(i + 1), id@) == Some(leagues@[i as int]));
            proof {
                lemma_league_with_prefix(leagues@, i as int + 1, id@);
            }
            return Some(i);
        }
        i = i + 1;
    }
    assert(leagues@.take(leagues@.len() as int) =~= leagues@);
    None
}

proof fn lemma_league_with_prefix(s: Seq<(String, String)>, n: int, id: Seq<char>)
    requires
        0 <= n <= s.len(),
        league_with(s.take(n), id) is Some,
    ensures
        league_with(s, id) == league_with(s.take(n), id),
    decreases s.len() - n,
{
    if n < s.len() {
        assert(s.take(n + 1).drop_last() =~= s.take(n));
        lemma_league_with_prefix(s, n + 1, id);
    } else {
        assert(s.take(n) =~= s);
    }
}

fn push_league_item(h: &mut String, l: &(String, String), n: u64, on: bool)
    ensures
        final(h)@ == old(h)@ + league_item(n as nat, *l, on),
{
    let id = esc(l.0.as_str());
    let name = esc(l.1.as_str());
    h.append("<li><span class=\"grip\" aria-hidden=\"true\">⋮⋮</span><label><input type=\"checkbox\" name=\"league\" value=\"");
    h.append(id.as_str());
    h.append("\"");
    h.append(checked(on));
    h.append("> ");
    h.append(name.as_str());
    h.append("</label><input class=\"order\" type=\"number\" name=\"order_");
    h.append(id.as_str());
    h.append("\" value=\"");
    push_dec(h, n);
    h.append("\" min=\"1\" aria-label=\"Order for ");
    h.append(name.as_str());
    h.append("\"></li>");
    assert(final(h)@ =~= old(h)@ + league_item(n as nat, *l, on));
}

/// "Leagues": a checkbox and an order field per league, the followed ones
/// first in ticker order, then the rest; `leagues` are the supported ones
/// as (id, name).
pub fn leagues_section(followed: &Vec<String>, leagues: &Vec<(String, String)>) -> (h: String)
    ensures
        h@ == leagues_text(followed@, leagues@),
{
    let ghost lv = leagues@;
    let mut ordered: Vec<usize> = Vec::new();
    let mut i: usize = 0;
    while i < followed.len()
        invariant
            i <= followed@.len(),
            lv == leagues@,
            forall|q: int| 0 <= q < ordered@.len() ==> ordered@[q] < lv.len(),
            ordered@.map_values(|x: usize| lv[x as int]) == known_leagues(followed@.take(i as int), lv),
        decreases followed@.len() - i,
    {
        assert(followed@.take(i + 1).drop_last() =~= followed@.take(i as int));
        assert(followed@.take(i + 1).last() == followed@[i as int]);
        let ghost before = ordered@;
        match find_league(leagues, &followed[i]) {
            Some(k) => {
                ordered.push(k);
            },
            None => {},
        }
        assert(ordered@.map_values(|x: usize| lv[x as int]) =~= known_leagues(followed@.take(i + 1), lv));
        i = i + 1;
    }
    assert(followed@.take(followed@.len() as int) =~= followed@);
    let ghost known = known_leagues(followed@, lv);
    let mut k: usize = 0;
    while k < leagues.len()
        invariant
            k <= leagues@.len(),
            lv == leagues@,
            known == known_leagues(followed@, lv),
            forall|q: int| 0 <= q < ordered@.len() ==> ordered@[q] < lv.len(),
            ordered@.map_values(|x: usize| lv[x as int]) == known + other_leagues(lv.take(k as int), followed@),
        decreases leagues@.len() - k,
    {
        assert(lv.take(k + 1).drop_last() =~= lv.take(k as int));
        assert(lv.take(k + 1).last() == lv[k as int]);
        let ghost before = ordered@;
        let ghost prev = known + other_leagues(lv.take(k as int), followed@);
        if !contains_id(followed, &leagues[k].0) {
            ordered.push(k);
            assert(ordered@.map_values(|x: usize| lv[x as int]) =~= before.map_values(|x: usize| lv[x as int]).push(
                lv[k as int],
            ));
            assert(other_leagues(lv.take(k + 1), followed@) =~= other_leagues(lv.take(k as int), followed@).push(
                lv[k as int],
            ));
        } else {
            assert(other_leagues(lv.take(k + 1), followed@) =~= other_leagues(lv.take(k as int), followed@));
        }
        assert(ordered@.map_values(|x: usize| lv[x as int]) =~= known + other_leagues(lv.take(k + 1), followed@));
        k = k + 1;
    }
    assert(lv.take(lv.len() as int) =~= lv);
    let ghost ov = ordered@.map_values(|x: usize| lv[x as int]);
    let mut h = LEAGUES_START.to_owned();
    let ghost start = h@;
    let mut j: usize = 0;
    while j < ordered.len()
        invariant
            j <= ordered@.len(),
            lv == leagues@,
            ov == ordered@.map_values(|x: usize| lv[x as int]),
            forall|q: int| 0 <= q < ordered@.len() ==> ordered@[q] < lv.len(),
            h@ == start + league_items(ov.take(j as int), followed@),
        decreases ordered@.len() - j,
    {
        assert(ov.take(j + 1).drop_last() =~= ov.take(j as int));
        assert(ov.take(j + 1).last() == ov[j as int]);
        let l = &leagues[ordered[j]];
        assert(*l == ov[j as int]);
        let on = contains_id(followed, &l.0);
        push_league_item(&mut h, l, j as u64 + 1, on);
        assert(h@ =~= start + league_items(ov.take(j + 1), followed@));
        j = j + 1;
    }
    assert(ov.take(ov.len() as int) =~= ov);
    h.append(LEAGUES_END);
    h
}

// ---------------------------------------------------------------------------
// Favorite teams
// ---------------------------------------------------------------------------

pub const FAVORITES_START: &'static str =
    "<section><h2>Favorite teams</h2><p class=\"hint\">Pick your teams: their games come first, their \
     standings ride on the ticker, and their big plays can take over the screen. Every team in the leagues \
     you follow is here (a minute after you add a league).</p>";

pub const NO_TEAMS: &'static str =
    "<p class=\"empty\">No games loaded yet. Check back once the scoreboard has data.</p>";

pub const SECTION_END: &'static str = "</section>";

pub const OTHER_FAVORITES: &'static str = "Other saved favorites";

/// A league's name, or its id when it isn't known.
pub open spec fn league_name(leagues: Seq<(String, String)>, id: Seq<char>) -> Seq<char> {
    match league_with(leagues, id) {
        Some(l) => l.1@,
        None => id,
    }
}

/// The teams of league `league` as (id, name), in order; `teams` are
/// (id, league, name).
pub open spec fn teams_in(teams: Seq<(String, String, String)>, league: Seq<char>) -> Seq<(Seq<char>, Seq<char>)>
    decreases teams.len(),
{
    if teams.len() == 0 {
        Seq::empty()
    } else {
        teams_in(teams.drop_last(), league) + if teams.last().1@ == league {
            seq![(teams.last().0@, teams.last().2@)]
        } else {
            Seq::empty()
        }
    }
}

/// A group per followed league that has teams, named by the league.
pub open spec fn league_groups(
    followed: Seq<String>,
    leagues: Seq<(String, String)>,
    teams: Seq<(String, String, String)>,
) -> Seq<(Seq<char>, Seq<(Seq<char>, Seq<char>)>)>
    decreases followed.len(),
{
    if followed.len() == 0 {
        Seq::empty()
    } else {
        let id = followed.last()@;
        league_groups(followed.drop_last(), leagues, teams) + if teams_in(teams, id).len() > 0 {
            seq![(league_name(leagues, id), teams_in(teams, id))]
        } else {
            Seq::empty()
        }
    }
}

/// Whether some team has id `id`.
pub open spec fn is_team(teams: Seq<(String, String, String)>, id: Seq<char>) -> bool {
    exists|i: int| 0 <= i < teams.len() && #[trigger] teams[i].0@ == id
}

/// Favorites that aren't among the teams (their league isn't followed, or
/// not loaded yet), each shown by its id.
pub open spec fn offstage(favorites: Seq<String>, teams: Seq<(String, String, String)>) -> Seq<
    (Seq<char>, Seq<char>),
>
    decreases favorites.len(),
{
    if favorites.len() == 0 {
        Seq::empty()
    } else {
        let f = favorites.last()@;
        offstage(favorites.drop_last(), teams) + if is_team(teams, f) {
            Seq::empty()
        } else {
            seq![(f, f)]
        }
    }
}

/// The picker's groups: the followed leagues' teams, then saved favorites
/// from elsewhere.
pub open spec fn favorite_groups(
    followed: Seq<String>,
    leagues: Seq<(String, String)>,
    teams: Seq<(String, String, String)>,
    favorites: Seq<String>,
) -> Seq<(Seq<char>, Seq<(Seq<char>, Seq<char>)>)> {
    let off = offstage(favorites, teams);
    league_groups(followed, leagues, teams) + if off.len() > 0 {
        seq![(OTHER_FAVORITES@, off)]
    } else {
        Seq::empty()
    }
}

/// "Favorite teams": the team picker, or a note while no teams are known.
pub open spec fn favorites_text(
    followed: Seq<String>,
    leagues: Seq<(String, String)>,
    teams: Seq<(String, String, String)>,
    favorites: Seq<String>,
) -> Seq<char> {
    let g = favorite_groups(followed, leagues, teams, favorites);
    FAVORITES_START@ + (if g.len() > 0 {
        picker_text(g, favs_view(favorites))
    } else {
        NO_TEAMS@
    }) + SECTION_END@
}

fn teams_of(teams: &Vec<(String, String, String)>, league: &String) -> (r: Vec<(String, String)>)
    ensures
        r@.map_values(|t: (String, String)| (t.0@, t.1@)) == teams_in(teams@, league@),
{
    let mut r: Vec<(String, String)> = Vec::new();
    let mut i: usize = 0;
    while i < teams.len()
        invariant
            i <= teams@.len(),
            r@.map_values(|t: (String, String)| (t.0@, t.1@)) == teams_in(teams@.take(i as int), league@),
        decreases teams@.len() - i,
    {
        assert(teams@.take(i + 1).drop_last() =~= teams@.take(i as int));
        assert(teams@.take(i + 1).last() == teams@[i as int]);
        let ghost before = r@;
        if str_eq(teams[i].1.as_str(), league.as_str()) {
            r.push((teams[i].0.clone(), teams[i].2.clone()));
        }
        assert(r@.map_values(|t: (String, String)| (t.0@, t.1@)) =~= teams_in(teams@.take(i + 1), league@));
        i = i + 1;
    }
    assert(teams@.take(teams@.len() as int) =~= teams@);
    r
}

fn any_team(teams: &Vec<(String, String, String)>, id: &String) -> (b: bool)
    ensures
        b == is_team(teams@, id@),
{
    let mut i: usize = 0;
    while i < teams.len()
        invariant
            i <= teams@.len(),
            forall|j: int| 0 <= j < i ==> teams@[j].0@ != id@,
        decreases teams@.len() - i,
    {
        if str_eq(teams[i].0.as_str(), id.as_str()) {
            assert(teams@[i as int].0@ == id@);
            return true;
        }
        i = i + 1;
    }
    false
}

/// The team picker's groups for the favorites.
fn favorite_groups_exec(
    followed: &Vec<String>,
    leagues: &Vec<(String, String)>,
    teams: &Vec<(String, String, String)>,
    favorites: &Vec<String>,
) -> (g: TeamGroups)
    ensures
        groups_view(g@) == favorite_groups(followed@, leagues@, teams@, favorites@),
{
    let mut g: TeamGroups = Vec::new();
    let mut i: usize = 0;
    while i < followed.len()
        invariant
            i <= followed@.len(),
            groups_view(g@) == league_groups(followed@.take(i as int), leagues@, teams@),
        decreases followed@.len() - i,
    {
        assert(followed@.take(i + 1).drop_last() =~= followed@.take(i as int));
        assert(followed@.take(i + 1).last() == followed@[i as int]);
        let ghost before = g@;
        let ts = teams_of(teams, &followed[i]);
        if ts.len() > 0 {
            let name = match find_league(leagues, &followed[i]) {
                Some(k) => leagues[k].1.clone(),
                None => followed[i].clone(),
            };
            g.push((name, ts));
            assert(groups_view(g@) =~= groups_view(before).push(
                (league_name(leagues@, followed@[i as int]@), teams_in(teams@, followed@[i as int]@)),
            ));
        }
        assert(groups_view(g@) =~= league_groups(followed@.take(i + 1), leagues@, teams@));
        i = i + 1;
    }
    assert(followed@.take(followed@.len() as int) =~= followed@);
    let ghost lg = groups_view(g@);
    let mut off: Vec<(String, String)> = Vec::new();
    let mut k: usize = 0;
    while k < favorites.len()
        invariant
            k <= favorites@.len(),
            groups_view(g@) == lg,
            off@.map_values(|t: (String, String)| (t.0@, t.1@)) == offstage(favorites@.take(k as int), teams@),
        decreases favorites@.len() - k,
    {
        assert(favorites@.take(k + 1).drop_last() =~= favorites@.take(k as int));
        assert(favorites@.take(k + 1).last() == favorites@[k as int]);
        let ghost before = off@;
        if !any_team(teams, &favorites[k]) {
            off.push((favorites[k].clone(), favorites[k].clone()));
        }
        assert(off@.map_values(|t: (String, String)| (t.0@, t.1@)) =~= offstage(favorites@.take(k + 1), teams@));
        k = k + 1;
    }
    assert(favorites@.take(favorites@.len() as int) =~= favorites@);
    if off.len() > 0 {
        let ghost before = g@;
        let ghost ov = off@.map_values(|t: (String, String)| (t.0@, t.1@));
        g.push((OTHER_FAVORITES.to_owned(), off));
        assert(groups_view(g@) =~= groups_view(before).push((OTHER_FAVORITES@, ov)));
    }
    assert(groups_view(g@) =~= favorite_groups(followed@, leagues@, teams@, favorites@));
    g
}

/// "Favorite teams": every team in the followed leagues (`teams` as
/// (id, league id, name), `leagues` as (id, name)), plus saved favorites
/// from leagues no longer followed, which stay ticked.
pub fn favorites_section(
    followed: &Vec<String>,
    leagues: &Vec<(String, String)>,
    teams: &Vec<(String, String, String)>,
    favorites: &Vec<String>,
) -> (h: String)
    ensures
        h@ == favorites_text(followed@, leagues@, teams@, favorites@),
{
    let g = favorite_groups_exec(followed, leagues, teams, favorites);
    let mut h = FAVORITES_START.to_owned();
    if g.len() > 0 {
        let p = team_picker(&g, favorites.as_slice());
        h.append(p.as_str());
    } else {
        h.append(NO_TEAMS);
    }
    h.append(SECTION_END);
    h
}

// ---------------------------------------------------------------------------
// Admin password
// ---------------------------------------------------------------------------

pub const PASSWORD_FORM: &'static str =
    "<section id=\"password\"><h2>Admin password</h2><form method=\"post\" action=\"/admin/password\" class=\"narrow\">\
     <label>Current password <input type=\"password\" name=\"current\" autocomplete=\"current-password\" required></label>\
     <label>New password <input type=\"password\" name=\"password\" autocomplete=\"new-password\" minlength=\"8\" maxlength=\"128\" required></label>\
     <label>New password again <input type=\"password\" name=\"confirm\" autocomplete=\"new-password\" minlength=\"8\" maxlength=\"128\" required></label>\
     <p class=\"hint\">8 to 128 characters. Everyone else who is logged in will have to log in again.</p>\
     <div class=\"actions\"><button>Change password</button></div></form></section>";

pub const PASSWORD_FIXED: &'static str =
    "<section id=\"password\"><h2>Admin password</h2><p class=\"hint\">This device's password comes from its configuration \
     (<code>MARQUEET_ADMIN_PASSWORD</code>), so change it there.</p></section>";

/// "Admin password": a form to change it when it was set on this page, else
/// where it comes from.
pub fn password_section(can_change: bool) -> (h: &'static str)
    ensures
        h@ == (if can_change {
            PASSWORD_FORM@
        } else {
            PASSWORD_FIXED@
        }),
{
    if can_change {
        PASSWORD_FORM
    } else {
        PASSWORD_FIXED
    }
}


/// " checked" when on.
pub open spec fn checked_text(on: bool) -> Seq<char> {
    if on {
        " checked"@
    } else {
        ""@
    }
}

/// " selected" when on.
pub open spec fn selected_text(on: bool) -> Seq<char> {
    if on {
        " selected"@
    } else {
        ""@
    }
}

/// An optional text, or nothing.
pub open spec fn or_empty(s: Option<String>) -> Seq<char> {
    match s {
        Some(t) => t@,
        None => Seq::empty(),
    }
}

} // verus!
