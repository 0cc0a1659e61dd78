//! The admin page's spotlight, weather and fantasy sections.
use vstd::prelude::*;
use crate::admin::page::{checked, esc, escaped, selected, FantasyRow};
use crate::admin::sections::{checked_text, selected_text, or_empty, SECTION_END};
use crate::config::str_eq;
use crate::text::{dec, push_dec};

verus! {

// ---------------------------------------------------------------------------
// Spotlight
// ---------------------------------------------------------------------------

/// The spotlight switches: automatic, primetime football, my teams, and
/// the play tracker.
#[derive(Clone, Copy, Debug, PartialEq, Eq, Structural)]
pub struct SpotlightSwitches {
    pub auto: bool,
    pub primetime: bool,
    pub favorites: bool,
    pub tracker: bool,
}

pub const SPOT_START: &'static str =
    "<section id=\"spotlight\"><h2>Spotlight</h2><p class=\"hint\">One game fills the bottom of the \
     screen: the big score, down and distance, the last play and the game's stats. The ticker keeps \
     running.</p>\
     <div class=\"choices\"><label><input type=\"checkbox\" name=\"spotlight_auto\"";

pub const SPOT_PRIMETIME: &'static str = "> Automatically, \
     when only one game is on</label>\
     <label><input type=\"checkbox\" name=\"spotlight_primetime\"";

pub const SPOT_FAVORITES: &'static str = "> Primetime football: the only \
     game on in its league (like Thursday night), even with other sports on</label>\
     <label><input type=\"checkbox\" name=\"spotlight_favorites\"";

pub const SPOT_TRACKER: &'static str = "> When one of my teams is playing, \
     even with other games on</label>\
     <label><input type=\"checkbox\" name=\"spotlight_tracker\"";

pub const SPOT_GAMES: &'static str = "> The live play tracker: baseball's at-bat \
     (pitch by pitch) and football's drive (it takes turns with the stats)</label></div>\
     <label class=\"wide\">Watch a game <select name=\"spotlight_game\" aria-label=\"Watch a game\">\
     <option value=\"\">No, just automatic</option>";

pub const SPOT_GONE: &'static str = "\" selected>A game that's no longer on</option>";

pub const SPOT_END: &'static str = "</select></label></section>";

/// Today's games as options, the watched one selected.
pub open spec fn game_options(games: Seq<(String, String)>, game: Option<String>) -> Seq<char>
    decreases games.len(),
{
    if games.len() == 0 {
        Seq::empty()
    } else {
        let g = games.last();
        game_options(games.drop_last(), game) + "<option value=\""@ + escaped(g.0@) + "\""@ + selected_text(
            game matches Some(x) && x@ == g.0@,
        ) + ">"@ + escaped(g.1@) + "</option>"@
    }
}

/// Whether one of today's games has id `id`.
pub open spec fn is_game(games: Seq<(String, String)>, id: Seq<char>) -> bool {
    exists|i: int| 0 <= i < games.len() && #[trigger] games[i].0@ == id
}

/// "Spotlight": the switches, and a game to watch among today's (`games`
/// as (id, label)); a watched game that's no longer on stays selected.
pub open spec fn spotlight_text(s: SpotlightSwitches, game: Option<String>, games: Seq<(String, String)>) -> Seq<
    char,
> {
    SPOT_START@ + checked_text(s.auto) + SPOT_PRIMETIME@ + checked_text(s.primetime) + SPOT_FAVORITES@
        + checked_text(s.favorites) + SPOT_TRACKER@ + checked_text(s.tracker) + SPOT_GAMES@ + game_options(
        games,
        game,
    ) + (match game {
        Some(id) => if is_game(games, id@) {
            Seq::empty()
        } else {
            "<option value=\""@ + escaped(id@) + SPOT_GONE@
        },
        None => Seq::empty(),
    }) + SPOT_END@
}

fn any_game(games: &Vec<(String, String)>, id: &String) -> (b: bool)
    ensures
        b == is_game(games@, id@),
{
    let mut i: usize = 0;
    while i < games.len()
        invariant
            i <= games@.len(),
            forall|j: int| 0 <= j < i ==> games@[j].0@ != id@,
        decreases games@.len() - i,
    {
        if str_eq(games[i].0.as_str(), id.as_str()) {
            assert(games@[i as int].0@ == id@);
            return true;
        }
        i = i + 1;
    }
    false
}

/// "Spotlight" for the admin page.
pub fn spotlight_section(s: SpotlightSwitches, game: &Option<String>, games: &Vec<(String, String)>) -> (h: String)
    ensures
        h@ == spotlight_text(s, *game, games@),
{
    let mut h = SPOT_START.to_owned();
    h.append(checked(s.auto));
    h.append(SPOT_PRIMETIME);
    h.append(checked(s.primetime));
    h.append(SPOT_FAVORITES);
    h.append(checked(s.favorites));
    h.append(SPOT_TRACKER);
    h.append(checked(s.tracker));
    h.append(SPOT_GAMES);
    let ghost start = h@;
    let mut i: usize = 0;
    while i < games.len()
        invariant
            i <= games@.len(),
            h@ == start + game_options(games@.take(i as int), *game),
        decreases games@.len() - i,
    {
        assert(games@.take(i + 1).drop_last() =~= games@.take(i as int));
        assert(games@.take(i + 1).last() == games@[i as int]);
        let on = match game {
            Some(x) => str_eq(x.as_str(), games[i].0.as_str()),
            None => false,
        };
        h.append("<option value=\"");
        h.append(esc(games[i].0.as_str()).as_str());
        h.append("\"");
        h.append(selected(on));
        h.append(">");
        h.append(esc(games[i].1.as_str()).as_str());
        h.append("</option>");
        assert(h@ =~= start + game_options(games@.take(i + 1), *game));
        i = i + 1;
    }
    assert(games@.take(games@.len() as int) =~= games@);
    let ghost mid = h@;
    match game {
        Some(id) => {
            if !any_game(games, id) {
                h.append("<option value=\"");
                h.append(esc(id.as_str()).as_str());
                h.append(SPOT_GONE);
            }
        },
        None => {},
    }
    h.append(SPOT_END);
    assert(h@ =~= spotlight_text(s, *game, games@));
    h
}

// ---------------------------------------------------------------------------
// Weather
// ---------------------------------------------------------------------------

pub const WEATHER_START: &'static str =
    "<section><h2>Weather</h2><p class=\"hint\">For the weather widget. Forecasts come from \
     <a href=\"https://open-meteo.com\">Open-Meteo</a> (CC BY 4.0); the location is sent to them only \
     while the weather is on screen (ticker or widget).</p>\
     <label class=\"wide\">Location <input name=\"location\" value=\"";

pub const WEATHER_UNITS: &'static str = "\" \
     placeholder=\"City, or latitude, longitude\" autocomplete=\"off\"></label>\
     <div class=\"choices inline\">\
     <label><input type=\"radio\" name=\"units\" value=\"fahrenheit\"";

pub const WEATHER_CELSIUS: &'static str = "> °F, mph</label>\
     <label><input type=\"radio\" name=\"units\" value=\"celsius\"";

pub const WEATHER_TICKER: &'static str = "> °C, km/h</label></div>\
     <div class=\"choices\"><label><input type=\"checkbox\" name=\"weather_ticker\"";

pub const WEATHER_ALERTS: &'static str = "> \
     Show the weather in the ticker (with a heads-up when rain or snow is coming)</label>\
     <label><input type=\"checkbox\" name=\"weather_alerts\"";

pub const WEATHER_END: &'static str = "> Severe weather alerts (US only, from the \
     National Weather Service): on the ticker while in effect, and warnings take over the screen</label></div></section>";

/// "Weather": the location's name (if one is set), the units, and the
/// ticker and alert switches.
pub open spec fn weather_text(
    place: Option<String>,
    units: crate::admin::apply::Units,
    ticker: bool,
    alerts: bool,
) -> Seq<char> {
    WEATHER_START@ + escaped(or_empty(place)) + WEATHER_UNITS@ + checked_text(
        units == crate::admin::apply::Units::Fahrenheit,
    ) + WEATHER_CELSIUS@ + checked_text(units == crate::admin::apply::Units::Celsius) + WEATHER_TICKER@
        + checked_text(ticker) + WEATHER_ALERTS@ + checked_text(alerts) + WEATHER_END@
}

/// "Weather" for the admin page; `place` is the location's name.
pub fn weather_section(place: &Option<String>, units: crate::admin::apply::Units, ticker: bool, alerts: bool) -> (h:
    String)
    ensures
        h@ == weather_text(*place, units, ticker, alerts),
{
    let mut h = WEATHER_START.to_owned();
    match place {
        Some(p) => h.append(esc(p.as_str()).as_str()),
        None => {
            assert(escaped(or_empty(*place)) =~= Seq::<char>::empty());
        },
    }
    h.append(WEATHER_UNITS);
    h.append(checked(units == crate::admin::apply::Units::Fahrenheit));
    h.append(WEATHER_CELSIUS);
    h.append(checked(units == crate::admin::apply::Units::Celsius));
    h.append(WEATHER_TICKER);
    h.append(checked(ticker));
    h.append(WEATHER_ALERTS);
    h.append(checked(alerts));
    h.append(WEATHER_END);
    assert(h@ =~= weather_text(*place, units, ticker, alerts));
    h
}

// ---------------------------------------------------------------------------
// Fantasy
// ---------------------------------------------------------------------------

/// A team of a fantasy league found by "Find leagues": its roster, its name
/// and its owner's account.
#[derive(Clone, Debug)]
pub struct FantasyTeamChoice {
    pub roster_id: u32,
    pub name: String,
    pub owner_id: Option<String>,
}

/// A fantasy league found by "Find leagues", with its teams.
#[derive(Clone, Debug)]
pub struct FantasyLeagueChoice {
    pub id: String,
    pub name: String,
    pub teams: Vec<FantasyTeamChoice>,
}

/// A fantasy account and its leagues, after "Find leagues".
#[derive(Clone, Debug)]
pub struct FantasyFound {
    pub user_id: String,
    pub display_name: String,
    pub leagues: Vec<FantasyLeagueChoice>,
}

pub const FANTASY_START: &'static str =
    "<section id=\"fantasy\"><h2>Fantasy</h2><p class=\"hint\">Follow your Sleeper teams: your matchup \
     lives on the ticker, and a touchdown by one of your starters says so on the screen.</p>";

pub const FANTASY_TABLE: &'static str =
    "<table class=\"feeds\"><thead><tr><th>League</th><th>Team</th><th>This week</th><th></th></tr></thead><tbody>";

pub const FIND_START: &'static str =
    "<form method=\"post\" action=\"/admin/fantasy/find\" class=\"row new-feed\"><label>Sleeper username \
     <input name=\"username\" required value=\"";

pub const FIND_END: &'static str =
    "\" autocomplete=\"off\" spellcheck=\"false\"></label>\
     <button>Find leagues</button></form>";

pub const FOLLOW_START: &'static str =
    "<form method=\"post\" action=\"/admin/fantasy/add\" class=\"row new-feed\">\
     <input type=\"hidden\" name=\"league_id\" value=\"";

pub const FOLLOW_NAME: &'static str = "\"><input type=\"hidden\" name=\"league\" value=\"";

pub const FOLLOW_LABEL: &'static str = "\"><label><strong>";

pub const FOLLOW_SELECT: &'static str = "</strong> <select name=\"roster_id\">";

pub const FOLLOW_END: &'static str = "</select></label><button>Follow</button></form>";

/// A followed team's row, with a button to stop following it.
pub open spec fn fantasy_row(f: FantasyRow) -> Seq<char> {
    "<tr><td>"@ + escaped(f.league@) + "</td><td>"@ + escaped(f.team@) + "</td><td>"@ + escaped(f.status@)
        + "</td><td><form method=\"post\" action=\"/admin/fantasy/remove\"><input type=\"hidden\" name=\"league_id\" value=\""@
        + escaped(f.league_id@) + "\"><input type=\"hidden\" name=\"roster_id\" value=\""@ + dec(f.roster_id as nat)
        + "\"><button>Remove</button></form></td></tr>"@
}

/// The followed teams' rows.
pub open spec fn fantasy_rows(fs: Seq<FantasyRow>) -> Seq<char>
    decreases fs.len(),
{
    if fs.len() == 0 {
        Seq::empty()
    } else {
        fantasy_rows(fs.drop_last()) + fantasy_row(fs.last())
    }
}

/// A league's teams as options, the account's own one selected.
pub open spec fn team_options(ts: Seq<FantasyTeamChoice>, user: Seq<char>) -> Seq<char>
    decreases ts.len(),
{
    if ts.len() == 0 {
        Seq::empty()
    } else {
        let t = ts.last();
        team_options(ts.drop_last(), user) + "<option value=\""@ + dec(t.roster_id as nat) + "\""@ + selected_text(
            t.owner_id matches Some(o) && o@ == user,
        ) + ">"@ + escaped(t.name@) + "</option>"@
    }
}

/// A found league's form to follow one of its teams.
pub open spec fn follow_form(l: FantasyLeagueChoice, user: Seq<char>) -> Seq<char> {
    FOLLOW_START@ + escaped(l.id@) + FOLLOW_NAME@ + escaped(l.name@) + FOLLOW_LABEL@ + escaped(l.name@)
        + FOLLOW_SELECT@ + team_options(l.teams@, user) + FOLLOW_END@
}

/// The found leagues' forms.
pub open spec fn follow_forms(ls: Seq<FantasyLeagueChoice>, user: Seq<char>) -> Seq<char>
    decreases ls.len(),
{
    if ls.len() == 0 {
        Seq::empty()
    } else {
        follow_forms(ls.drop_last(), user) + follow_form(ls.last(), user)
    }
}

/// What "Find leagues" found: its leagues' forms, or that there are none.
pub open spec fn found_text(found: Option<FantasyFound>) -> Seq<char> {
    match found {
        None => Seq::empty(),
        Some(f) => (if f.leagues@.len() == 0 {
            "<p class=\"empty\">"@ + escaped(f.display_name@) + " has no leagues this season.</p>"@
        } else {
            Seq::empty()
        }) + follow_forms(f.leagues@, f.user_id@),
    }
}

/// "Fantasy": the followed teams, the account search, and what it found.
pub open spec fn fantasy_text(rows: Seq<FantasyRow>, found: Option<FantasyFound>) -> Seq<char> {
    FANTASY_START@ + (if rows.len() > 0 {
        FANTASY_TABLE@ + fantasy_rows(rows) + "</tbody></table>"@
    } else {
        Seq::empty()
    }) + FIND_START@ + escaped(
        match found {
            Some(f) => f.display_name@,
            None => Seq::empty(),
        },
    ) + FIND_END@ + found_text(found) + SECTION_END@
}

fn push_fantasy_row(h: &mut String, f: &FantasyRow)
    ensures
        final(h)@ == old(h)@ + fantasy_row(*f),
{
    h.append("<tr><td>");
    h.append(esc(f.league.as_str()).as_str());
    h.append("</td><td>");
    h.append(esc(f.team.as_str()).as_str());
    h.append("</td><td>");
    h.append(esc(f.status.as_str()).as_str());
    h.append("</td><td><form method=\"post\" action=\"/admin/fantasy/remove\"><input type=\"hidden\" name=\"league_id\" value=\"");
    h.append(esc(f.league_id.as_str()).as_str());
    h.append("\"><input type=\"hidden\" name=\"roster_id\" value=\"");
    push_dec(h, f.roster_id as u64);
    h.append("\"><button>Remove</button></form></td></tr>");
    assert(final(h)@ =~= old(h)@ + fantasy_row(*f));
}

fn push_team_option(h: &mut String, t: &FantasyTeamChoice, user: &String)
    ensures
        final(h)@ == old(h)@ + "<option value=\""@ + dec(t.roster_id as nat) + "\""@ + selected_text(
            t.owner_id matches Some(o) && o@ == user@,
        ) + ">"@ + escaped(t.name@) + "</option>"@,
{
    let mine = match &t.owner_id {
        Some(o) => str_eq(o.as_str(), user.as_str()),
        None => false,
    };
    h.append("<option value=\"");
    push_dec(h, t.roster_id as u64);
    h.append("\"");
    h.append(selected(mine));
    h.append(">");
    h.append(esc(t.name.as_str()).as_str());
    h.append("</option>");
    assert(final(h)@ =~= old(h)@ + "<option value=\""@ + dec(t.roster_id as nat) + "\""@ + selected_text(
        t.owner_id matches Some(o) && o@ == user@,
    ) + ">"@ + escaped(t.name@) + "</option>"@);
}

fn push_follow_form(h: &mut String, l: &FantasyLeagueChoice, user: &String)
    ensures
        final(h)@ == old(h)@ + follow_form(*l, user@),
{
    h.append(FOLLOW_START);
    h.append(esc(l.id.as_str()).as_str());
    h.append(FOLLOW_NAME);
    let name = esc(l.name.as_str());
    h.append(name.as_str());
    h.append(FOLLOW_LABEL);
    h.append(name.as_str());
    h.append(FOLLOW_SELECT);
    let ghost start = h@;
    let mut i: usize = 0;
    while i < l.teams.len()
        invariant
            i <= l.teams@.len(),
            h@ == start + team_options(l.teams@.take(i as int), user@),
        decreases l.teams@.len() - i,
    {
        assert(l.teams@.take(i + 1).drop_last() =~= l.teams@.take(i as int));
        assert(l.teams@.take(i + 1).last() == l.teams@[i as int]);
        push_team_option(h, &l.teams[i], user);
        assert(h@ =~= start + team_options(l.teams@.take(i + 1), user@));
        i = i + 1;
    }
    assert(l.teams@.take(l.teams@.len() as int) =~= l.teams@);
    h.append(FOLLOW_END);
    assert(final(h)@ =~= old(h)@ + follow_form(*l, user@));
}

fn push_fantasy_table(h: &mut String, rows: &Vec<FantasyRow>)
    ensures
        final(h)@ == old(h)@ + (if rows@.len() > 0 {
            FANTASY_TABLE@ + fantasy_rows(rows@) + "</tbody></table>"@
        } else {
            Seq::empty()
        }),
{
    if rows.len() > 0 {
        h.append(FANTASY_TABLE);
        let ghost start = h@;
        let mut i: usize = 0;
        while i < rows.len()
            invariant
                i <= rows@.len(),
                h@ == start + fantasy_rows(rows@.take(i as int)),
            decreases rows@.len() - i,
        {
            assert(rows@.take(i + 1).drop_last() =~= rows@.take(i as int));
            assert(rows@.take(i + 1).last() == rows@[i as int]);
            push_fantasy_row(h, &rows[i]);
            i = i + 1;
        }
        assert(rows@.take(rows@.len() as int) =~= rows@);
        h.append("</tbody></table>");
        assert(final(h)@ =~= old(h)@ + FANTASY_TABLE@ + fantasy_rows(rows@) + "</tbody></table>"@);
    } else {
        assert(final(h)@ =~= old(h)@ + Seq::<char>::empty());
    }
}

fn push_found(h: &mut String, found: &Option<FantasyFound>)
    ensures
        final(h)@ == old(h)@ + found_text(*found),
{
    match found {
        None => {
            assert(final(h)@ =~= old(h)@ + found_text(*found));
        },
        Some(f) => {
            if f.leagues.len() == 0 {
                h.append("<p class=\"empty\">");
                h.append(esc(f.display_name.as_str()).as_str());
                h.append(" has no leagues this season.</p>");
            }
            let ghost start = h@;
            let mut k: usize = 0;
            while k < f.leagues.len()
                invariant
                    k <= f.leagues@.len(),
                    h@ == start + follow_forms(f.leagues@.take(k as int), f.user_id@),
                decreases f.leagues@.len() - k,
            {
                assert(f.leagues@.take(k + 1).drop_last() =~= f.leagues@.take(k as int));
                assert(f.leagues@.take(k + 1).last() == f.leagues@[k as int]);
                push_follow_form(h, &f.leagues[k], &f.user_id);
                k = k + 1;
            }
            assert(f.leagues@.take(f.leagues@.len() as int) =~= f.leagues@);
            assert(final(h)@ =~= old(h)@ + found_text(*found));
        },
    }
}

/// "Fantasy" for the admin page: the followed teams, the account search,
/// and, after a search, a form per league found.
pub fn fantasy_section(rows: &Vec<FantasyRow>, found: &Option<FantasyFound>) -> (h: String)
    ensures
        h@ == fantasy_text(rows@, *found),
{
    let mut h = FANTASY_START.to_owned();
    push_fantasy_table(&mut h, rows);
    h.append(FIND_START);
    match found {
        Some(f) => h.append(esc(f.display_name.as_str()).as_str()),
        None => {
            assert(escaped(Seq::<char>::empty()) =~= Seq::<char>::empty());
        },
    }
    h.append(FIND_END);
    push_found(&mut h, found);
    h.append(SECTION_END);
    assert(h@ =~= fantasy_text(rows@, *found));
    h
}

} // verus!
