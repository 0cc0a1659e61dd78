//! The admin page's "Your team colors and logos" section: what the person
//! added, a form to add or change one team, and team pack import/export.
//! It has its own forms (uploads), so it sits outside the settings form.
use vstd::prelude::*;
use vstd::utf8::encode_utf8;
use crate::admin::page::{esc, escaped};
use crate::config::str_eq;
use crate::text::{dec, push_dec};

verus! {

/// One team's art as the section lists it.
#[derive(Clone, Debug)]
pub struct TeamArtRow {
    /// The team's id.
    pub team: String,
    /// The team's name.
    pub label: String,
    /// Whether a logo was added.
    pub logo: bool,
    /// Own colors, as color codes ("#rrggbb"): the main one and maybe a
    /// second; none when the scores' colors are used.
    pub colors: Option<(String, Option<String>)>,
    /// The headlines of the team's own takeover words, in order.
    pub headlines: Vec<String>,
    /// LED art: width, height and number of frames.
    pub art: Option<(u32, u32, usize)>,
}

// ---------------------------------------------------------------------------
// What `form_urlencoded::byte_serialize` writes
// ---------------------------------------------------------------------------

/// Bytes that the form encoding keeps as they are.
pub open spec fn byte_unchanged(b: u8) -> bool {
    b == 0x2a || b == 0x2d || b == 0x2e || (0x30 <= b <= 0x39) || (0x41 <= b <= 0x5a) || b == 0x5f || (0x61
        <= b <= 0x7a)
}

/// An uppercase hex digit.
pub open spec fn hex_upper(d: nat) -> char {
    if d < 10 {
        ((d + 48) as u8) as char
    } else {
        ((d + 55) as u8) as char
    }
}

/// What one byte becomes: itself, `+` for a space, else `%` and two
/// uppercase hex digits.
pub open spec fn form_byte(b: u8) -> Seq<char> {
    if byte_unchanged(b) {
        seq![b as char]
    } else if b == 0x20 {
        seq!['+']
    } else {
        seq!['%', hex_upper((b / 16) as nat), hex_upper((b % 16) as nat)]
    }
}

/// The `application/x-www-form-urlencoded` byte serialization of `bytes`.
pub open spec fn form_serialized(bytes: Seq<u8>) -> Seq<char>
    decreases bytes.len(),
{
    if bytes.len() == 0 {
        Seq::empty()
    } else {
        form_serialized(bytes.drop_last()) + form_byte(bytes.last())
    }
}

/// `form_urlencoded::byte_serialize(bytes).collect::<String>()`. The crate
/// keeps `*`, `-`, `.`, `_`, digits and ASCII letters, writes a space as
/// `+` and every other byte as `%` with two uppercase hex digits (from
/// `percent_encoding::percent_encode_byte`).
#[verifier::external_body]
fn byte_serialize(bytes: &[u8]) -> (r: String)
    ensures
        r@ == form_serialized(bytes@),
{
    form_urlencoded::byte_serialize(bytes).collect::<String>()
}

// ---------------------------------------------------------------------------
// The section's text
// ---------------------------------------------------------------------------

pub const INTRO: &'static str =
    "<section id=\"teams\"><h2>Your team colors and logos</h2><p class=\"hint\">Marqueet doesn't come \
     with any team logos. If you have images you're allowed to use, add them here: they show next to the \
     team on the ticker and in the widgets, and stay on this device. Colors set here replace the ones from \
     the scores everywhere.</p>";

pub const TABLE_START: &'static str =
    "<table class=\"feeds team-art\"><thead><tr><th>Logo</th><th>Team</th><th>Colors</th><th></th></tr></thead><tbody>";

pub const TABLE_END: &'static str = "</tbody></table>";

pub const LOGO_START: &'static str = "<img src=\"/admin/teams/logo?team=";

pub const LOGO_END: &'static str = "\" alt=\"\" width=\"40\" height=\"40\">";

pub const NO_LOGO: &'static str = "–";

pub const FROM_SCORES: &'static str = "From the scores";

pub const SWATCH_START: &'static str = "<input type=\"color\" value=\"";

pub const SWATCH_MID: &'static str = "\" disabled aria-label=\"";

pub const SWATCH_END: &'static str = "\">";

pub const WORDS_BREAK: &'static str = "<br>";

pub const WORDS_SEP: &'static str = " · ";

pub const ROW_START: &'static str = "<tr><td>";

pub const ROW_LABEL: &'static str = "</td><td>";

pub const ROW_COLORS: &'static str = "</td><td class=\"swatches\">";

pub const ROW_REMOVE: &'static str =
    "</td><td><form method=\"post\" action=\"/admin/teams/remove\"><input type=\"hidden\" name=\"team\" value=\"";

pub const ROW_END: &'static str = "\"><button>Remove</button></form></td></tr>";

pub const FORM_START: &'static str =
    "<form method=\"post\" action=\"/admin/teams\" enctype=\"multipart/form-data\" class=\"team-form\">\
     <label class=\"wide\">Team <select name=\"team\" required><option value=\"\">Pick a team…</option>";

pub const GROUP_START: &'static str = "<optgroup label=\"";

pub const GROUP_END: &'static str = "\">";

pub const OPTION_START: &'static str = "<option value=\"";

pub const OPTION_MID: &'static str = "\">";

pub const OPTION_END: &'static str = "</option>";

pub const GROUP_CLOSE: &'static str = "</optgroup>";

pub const FORM_MID: &'static str =
    "</select></label>\
     <div class=\"row\"><label><input type=\"checkbox\" name=\"custom_colors\"> Use my colors</label>\
     <label>Main <input type=\"color\" name=\"primary\" value=\"#c8102e\"></label>\
     <label>Second <input type=\"color\" name=\"secondary\" value=\"#ffffff\"></label></div>\
     <label class=\"wide\">Logo <input type=\"file\" name=\"logo\" accept=\"image/png\"></label>\
     <p class=\"hint\">A PNG, ideally square with a see-through background. It's shrunk to fit.</p>\
     <div class=\"row\"><label><input type=\"checkbox\" name=\"remove_logo\"> Remove this team's logo</label></div>";

pub const FORM_END: &'static str =
    "<div class=\"row\"><button class=\"primary\">Save team</button></div></form>\
     <h3>Team packs</h3><p class=\"hint\">One file with colors and logos for many teams, to move them \
     between devices or share with friends. <a href=\"/admin/teams/pack.json?all=1\">Download a blank pack</a> \
     listing every team you follow, fill it in, and import it; or <a href=\"/admin/teams/pack.json\">download \
     yours</a>.</p>\
     <form method=\"post\" action=\"/admin/teams/import\" enctype=\"multipart/form-data\" class=\"row\">\
     <label>Team pack <input type=\"file\" name=\"pack\" accept=\"application/json,.json\" required></label>\
     <button>Import</button></form></section>";

/// A color swatch for a color code.
pub open spec fn swatch(c: Seq<char>) -> Seq<char> {
    SWATCH_START@ + c + SWATCH_MID@ + c + SWATCH_END@
}

/// The colors cell before any words: the swatches, or "From the scores".
pub open spec fn colors_text(colors: Option<(String, Option<String>)>) -> Seq<char> {
    match colors {
        None => FROM_SCORES@,
        Some((p, s)) => swatch(p@) + match s {
            Some(x) => swatch(x@),
            None => Seq::empty(),
        },
    }
}

/// The headlines, escaped.
pub open spec fn escaped_all(ws: Seq<String>) -> Seq<Seq<char>>
    decreases ws.len(),
{
    if ws.len() == 0 {
        Seq::empty()
    } else {
        escaped_all(ws.drop_last()).push(escaped(ws.last()@))
    }
}

/// What LED art the team has, as words: "LED art 32x16, still" or
/// "LED art 32x16, 4 frames".
pub open spec fn art_words(art: Option<(u32, u32, usize)>) -> Seq<Seq<char>> {
    match art {
        None => Seq::empty(),
        Some((w, h, f)) => seq![
            "LED art "@ + dec(w as nat) + "x"@ + dec(h as nat) + ", "@ + (if f > 1 {
                dec(f as nat) + " frames"@
            } else {
                "still"@
            }),
        ],
    }
}

/// Texts joined with `sep` between them.
pub open spec fn joined(ws: Seq<Seq<char>>, sep: Seq<char>) -> Seq<char>
    decreases ws.len(),
{
    if ws.len() == 0 {
        Seq::empty()
    } else if ws.len() == 1 {
        ws[0]
    } else {
        joined(ws.drop_last(), sep) + sep + ws.last()
    }
}

/// The words shown under a team's colors.
pub open spec fn row_words(r: TeamArtRow) -> Seq<Seq<char>> {
    escaped_all(r.headlines@) + art_words(r.art)
}

/// Words after a line break, when there are any.
pub open spec fn words_tail(ws: Seq<Seq<char>>) -> Seq<char> {
    if ws.len() == 0 {
        Seq::empty()
    } else {
        WORDS_BREAK@ + joined(ws, WORDS_SEP@)
    }
}

/// The colors cell: the swatches, then the words after a line break.
pub open spec fn colors_cell(r: TeamArtRow) -> Seq<char> {
    colors_text(r.colors) + words_tail(row_words(r))
}

/// The logo cell: the logo, fetched by the team's id (form-encoded, then
/// escaped), or a dash.
pub open spec fn logo_cell(r: TeamArtRow) -> Seq<char> {
    if r.logo {
        LOGO_START@ + escaped(form_serialized(encode_utf8(r.team@))) + LOGO_END@
    } else {
        NO_LOGO@
    }
}

/// One team's table row, with a button to remove its art.
pub open spec fn row_text(r: TeamArtRow) -> Seq<char> {
    ROW_START@ + logo_cell(r) + ROW_LABEL@ + escaped(r.label@) + ROW_COLORS@ + colors_cell(r) + ROW_REMOVE@
        + escaped(r.team@) + ROW_END@
}

/// The rows, in order.
pub open spec fn rows_text(rows: Seq<TeamArtRow>) -> Seq<char>
    decreases rows.len(),
{
    if rows.len() == 0 {
        Seq::empty()
    } else {
        rows_text(rows.drop_last()) + row_text(rows.last())
    }
}

/// The options for the teams of league `league`, in order.
pub open spec fn options_text(teams: Seq<(String, String, String)>, league: Seq<char>) -> Seq<char>
    decreases teams.len(),
{
    if teams.len() == 0 {
        Seq::empty()
    } else {
        let t = teams.last();
        options_text(teams.drop_last(), league) + if t.1@ == league {
            OPTION_START@ + escaped(t.0@) + OPTION_MID@ + escaped(t.2@) + OPTION_END@
        } else {
            Seq::empty()
        }
    }
}

/// Whether some team is in league `league`.
pub open spec fn has_teams(teams: Seq<(String, String, String)>, league: Seq<char>) -> bool {
    exists|i: int| 0 <= i < teams.len() && #[trigger] teams[i].1@ == league
}

/// A group of options per league (in the leagues' order) that has teams.
pub open spec fn groups_text(leagues: Seq<(String, String)>, teams: Seq<(String, String, String)>) -> Seq<char>
    decreases leagues.len(),
{
    if leagues.len() == 0 {
        Seq::empty()
    } else {
        let l = leagues.last();
        groups_text(leagues.drop_last(), teams) + if has_teams(teams, l.0@) {
            GROUP_START@ + escaped(l.1@) + GROUP_END@ + options_text(teams, l.0@) + GROUP_CLOSE@
        } else {
            Seq::empty()
        }
    }
}

/// The whole section.
pub open spec fn team_art_text(
    rows: Seq<TeamArtRow>,
    leagues: Seq<(String, String)>,
    teams: Seq<(String, String, String)>,
    words_fields: Seq<char>,
) -> Seq<char> {
    INTRO@ + (if rows.len() == 0 {
        Seq::empty()
    } else {
        TABLE_START@ + rows_text(rows) + TABLE_END@
    }) + FORM_START@ + groups_text(leagues, teams) + FORM_MID@ + words_fields + FORM_END@
}

// ---------------------------------------------------------------------------
// Building it
// ---------------------------------------------------------------------------

fn push_swatch(h: &mut String, c: &String)
    ensures
        final(h)@ == old(h)@ + swatch(c@),
{
    h.append(SWATCH_START);
    h.append(c.as_str());
    h.append(SWATCH_MID);
    h.append(c.as_str());
    h.append(SWATCH_END);
    assert(final(h)@ =~= old(h)@ + swatch(c@));
}

fn push_art_words(h: &mut String, w: u32, hgt: u32, f: usize)
    ensures
        final(h)@ == old(h)@ + art_words(Some((w, hgt, f)))[0],
{
    h.append("LED art ");
    push_dec(h, w as u64);
    h.append("x");
    push_dec(h, hgt as u64);
    h.append(", ");
    if f > 1 {
        push_dec(h, f as u64);
        h.append(" frames");
    } else {
        h.append("still");
    }
    assert(final(h)@ =~= old(h)@ + art_words(Some((w, hgt, f)))[0]);
}

proof fn lemma_words_tail_push(ws: Seq<Seq<char>>, w: Seq<char>)
    ensures
        words_tail(ws.push(w)) == words_tail(ws) + (if ws.len() == 0 {
            WORDS_BREAK@
        } else {
            WORDS_SEP@
        }) + w,
{
    assert(ws.push(w).drop_last() =~= ws);
    if ws.len() == 0 {
        assert(words_tail(ws.push(w)) =~= WORDS_BREAK@ + w);
        assert(words_tail(ws) =~= Seq::<char>::empty());
    } else {
        assert(words_tail(ws.push(w)) =~= words_tail(ws) + WORDS_SEP@ + w);
    }
}

/// The swatches, or "From the scores".
fn push_colors_text(h: &mut String, colors: &Option<(String, Option<String>)>)
    ensures
        final(h)@ == old(h)@ + colors_text(*colors),
{
    match colors {
        None => {
            h.append(FROM_SCORES);
        },
        Some((p, s)) => {
            push_swatch(h, p);
            match s {
                Some(x) => push_swatch(h, x),
                None => {},
            }
        },
    }
    assert(final(h)@ =~= old(h)@ + colors_text(*colors));
}

/// The escaped headlines after a line break, when there are any.
fn push_headlines(h: &mut String, hs: &Vec<String>)
    ensures
        final(h)@ == old(h)@ + words_tail(escaped_all(hs@)),
        escaped_all(hs@).len() == hs@.len(),
{
    let mut i: usize = 0;
    assert(hs@.take(0) =~= Seq::<String>::empty());
    while i < hs.len()
        invariant
            i <= hs@.len(),
            h@ == old(h)@ + words_tail(escaped_all(hs@.take(i as int))),
            escaped_all(hs@.take(i as int)).len() == i,
        decreases hs@.len() - i,
    {
        let ghost prev = escaped_all(hs@.take(i as int));
        assert(hs@.take(i + 1).drop_last() =~= hs@.take(i as int));
        assert(escaped_all(hs@.take(i + 1)) == prev.push(escaped(hs@[i as int]@)));
        proof {
            lemma_words_tail_push(prev, escaped(hs@[i as int]@));
        }
        if i == 0 {
            h.append(WORDS_BREAK);
        } else {
            h.append(WORDS_SEP);
        }
        let e = esc(hs[i].as_str());
        h.append(e.as_str());
        assert(h@ =~= old(h)@ + words_tail(escaped_all(hs@.take(i + 1))));
        i = i + 1;
    }
    assert(hs@.take(hs@.len() as int) =~= hs@);
}

/// The colors cell of a row.
fn push_colors_cell(h: &mut String, r: &TeamArtRow)
    ensures
        final(h)@ == old(h)@ + colors_cell(*r),
{
    push_colors_text(h, &r.colors);
    let ghost mid = h@;
    push_headlines(h, &r.headlines);
    let ghost hs = escaped_all(r.headlines@);
    match r.art {
        None => {
            assert(row_words(*r) =~= hs);
        },
        Some((w, hgt, f)) => {
            let ghost a = art_words(r.art)[0];
            assert(row_words(*r) =~= hs.push(a));
            proof {
                lemma_words_tail_push(hs, a);
            }
            if r.headlines.len() == 0 {
                h.append(WORDS_BREAK);
            } else {
                h.append(WORDS_SEP);
            }
            push_art_words(h, w, hgt, f);
        },
    }
    assert(h@ =~= old(h)@ + colors_cell(*r));
}

/// One row of the table.
fn push_row(h: &mut String, r: &TeamArtRow)
    ensures
        final(h)@ == old(h)@ + row_text(*r),
{
    h.append(ROW_START);
    if r.logo {
        h.append(LOGO_START);
        let code = byte_serialize(r.team.as_str().as_bytes());
        let e = esc(code.as_str());
        h.append(e.as_str());
        h.append(LOGO_END);
    } else {
        h.append(NO_LOGO);
    }
    assert(h@ =~= old(h)@ + ROW_START@ + logo_cell(*r));
    h.append(ROW_LABEL);
    let l = esc(r.label.as_str());
    h.append(l.as_str());
    h.append(ROW_COLORS);
    let ghost mid = h@;
    push_colors_cell(h, r);
    h.append(ROW_REMOVE);
    let t = esc(r.team.as_str());
    h.append(t.as_str());
    h.append(ROW_END);
    assert(h@ =~= old(h)@ + row_text(*r));
}

/// Whether a team in `teams` is in league `league`.
fn any_in_league(teams: &Vec<(String, String, String)>, league: &String) -> (b: bool)
    ensures
        b == has_teams(teams@, league@),
{
    let mut i: usize = 0;
    while i < teams.len()
        invariant
            i <= teams@.len(),
            forall|j: int| 0 <= j < i ==> teams@[j].1@ != league@,
        decreases teams@.len() - i,
    {
        if str_eq(teams[i].1.as_str(), league.as_str()) {
            assert(teams@[i as int].1@ == league@);
            return true;
        }
        i = i + 1;
    }
    false
}

/// The options for one league.
fn push_options(h: &mut String, teams: &Vec<(String, String, String)>, league: &String)
    ensures
        final(h)@ == old(h)@ + options_text(teams@, league@),
{
    let mut i: usize = 0;
    while i < teams.len()
        invariant
            i <= teams@.len(),
            h@ == old(h)@ + options_text(teams@.take(i as int), league@),
        decreases teams@.len() - i,
    {
        assert(teams@.take(i + 1).drop_last() =~= teams@.take(i as int));
        assert(teams@.take(i + 1).last() == teams@[i as int]);
        if str_eq(teams[i].1.as_str(), league.as_str()) {
            h.append(OPTION_START);
            let a = esc(teams[i].0.as_str());
            h.append(a.as_str());
            h.append(OPTION_MID);
            let b = esc(teams[i].2.as_str());
            h.append(b.as_str());
            h.append(OPTION_END);
        }
        assert(h@ =~= old(h)@ + options_text(teams@.take(i + 1), league@));
        i = i + 1;
    }
    assert(teams@.take(teams@.len() as int) =~= teams@);
}

/// "Your team colors and logos" for the admin page. `rows` is the art the
/// person added, in team id order; `leagues` the supported leagues as
/// (id, name); `teams` the teams that can be picked as (id, league id,
/// name); `words_fields` the takeover words and LED art fields of the team
/// form, which come from the list of plays kept with the team art.
pub fn team_art_section(
    rows: &Vec<TeamArtRow>,
    leagues: &Vec<(String, String)>,
    teams: &Vec<(String, String, String)>,
    words_fields: &str,
) -> (h: String)
    ensures
        h@ == team_art_text(rows@, leagues@, teams@, words_fields@),
{
    let mut h = INTRO.to_owned();
    if rows.len() > 0 {
        h.append(TABLE_START);
        let ghost start = h@;
        let mut i: usize = 0;
        while i < rows.len()
            invariant
                i <= rows@.len(),
                h@ == start + rows_text(rows@.take(i as int)),
            decreases rows@.len() - i,
        {
            assert(rows@.take(i + 1).drop_last() =~= rows@.take(i as int));
            assert(rows@.take(i + 1).last() == rows@[i as int]);
            push_row(&mut h, &rows[i]);
            assert(h@ =~= start + rows_text(rows@.take(i + 1)));
            i = i + 1;
        }
        assert(rows@.take(rows@.len() as int) =~= rows@);
        h.append(TABLE_END);
    }
    assert(h@ =~= INTRO@ + (if rows@.len() == 0 {
        Seq::empty()
    } else {
        TABLE_START@ + rows_text(rows@) + TABLE_END@
    }));
    h.append(FORM_START);
    let ghost before = h@;
    let mut k: usize = 0;
    while k < leagues.len()
        invariant
            k <= leagues@.len(),
            h@ == before + groups_text(leagues@.take(k as int), teams@),
        decreases leagues@.len() - k,
    {
        assert(leagues@.take(k + 1).drop_last() =~= leagues@.take(k as int));
        assert(leagues@.take(k + 1).last() == leagues@[k as int]);
        if any_in_league(teams, &leagues[k].0) {
            h.append(GROUP_START);
            let n = esc(leagues[k].1.as_str());
            h.append(n.as_str());
            h.append(GROUP_END);
            push_options(&mut h, teams, &leagues[k].0);
            h.append(GROUP_CLOSE);
        }
        assert(h@ =~= before + groups_text(leagues@.take(k + 1), teams@));
        k = k + 1;
    }
    assert(leagues@.take(leagues@.len() as int) =~= leagues@);
    h.append(FORM_MID);
    h.append(words_fields);
    h.append(FORM_END);
    assert(h@ =~= team_art_text(rows@, leagues@, teams@, words_fields@));
    h
}

} // verus!
