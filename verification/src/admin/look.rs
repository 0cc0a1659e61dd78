//! The admin page's sections that show what comes with the themes, the
//! team art and the test takeovers: the "Look" section, the team form's
//! takeover words and LED art fields, and "Test a takeover". The looks,
//! colors, plays, limits and kinds are handed in as plain values.
use vstd::prelude::*;
use crate::admin::page::{checked, esc, escaped};
use crate::admin::sections::checked_text;
use crate::config::str_eq;
use crate::text::{dec, push_dec};

verus! {

// ---------------------------------------------------------------------------
// Test a takeover
// ---------------------------------------------------------------------------

pub const TEST_START: &'static str =
    "<section id=\"test-takeover\"><h2>Test a takeover</h2><p class=\"hint\">See what a big play or a \
     warning looks like on your screen. Each one replays the last real one of its kind, or makes one up \
     from today's games; pick a team to see it score.</p>\
     <form method=\"post\" action=\"/admin/takeover/test\"><label class=\"wide\">Team \
     <select name=\"team\" aria-label=\"Team\"><option value=\"\">Automatic</option>";

pub const TEST_KINDS: &'static str = "</select></label><div class=\"row\">";

pub const TEST_END: &'static str = "</div></form></section>";

/// Options for the teams playing today, as (id, label).
pub open spec fn playing_options(ps: Seq<(String, String)>) -> Seq<char>
    decreases ps.len(),
{
    if ps.len() == 0 {
        Seq::empty()
    } else {
        playing_options(ps.drop_last()) + "<option value=\""@ + escaped(ps.last().0@) + "\">"@ + escaped(
            ps.last().1@,
        ) + "</option>"@
    }
}

/// A button per kind of test takeover, as (id, label).
pub open spec fn kind_buttons(ks: Seq<(String, String)>) -> Seq<char>
    decreases ks.len(),
{
    if ks.len() == 0 {
        Seq::empty()
    } else {
        kind_buttons(ks.drop_last()) + "<button name=\"kind\" value=\""@ + ks.last().0@ + "\">"@ + ks.last().1@
            + "</button>"@
    }
}

/// "Test a takeover": a team among those playing today (favorites first),
/// and a button per kind.
pub open spec fn test_takeovers_text(playing: Seq<(String, String)>, kinds: Seq<(String, String)>) -> Seq<char> {
    TEST_START@ + playing_options(playing) + TEST_KINDS@ + kind_buttons(kinds) + TEST_END@
}

/// "Test a takeover" for the admin page: `playing` the teams playing today
/// as (id, label), `kinds` the kinds of test takeover as (id, label).
pub fn test_takeovers_section(playing: &Vec<(String, String)>, kinds: &Vec<(String, String)>) -> (h: String)
    ensures
        h@ == test_takeovers_text(playing@, kinds@),
{
    let mut h = TEST_START.to_owned();
    let ghost a = h@;
    let mut i: usize = 0;
    while i < playing.len()
        invariant
            i <= playing@.len(),
            h@ == a + playing_options(playing@.take(i as int)),
        decreases playing@.len() - i,
    {
        assert(playing@.take(i + 1).drop_last() =~= playing@.take(i as int));
        assert(playing@.take(i + 1).last() == playing@[i as int]);
        h.append("<option value=\"");
        h.append(esc(playing[i].0.as_str()).as_str());
        h.append("\">");
        h.append(esc(playing[i].1.as_str()).as_str());
        h.append("</option>");
        assert(h@ =~= a + playing_options(playing@.take(i + 1)));
        i = i + 1;
    }
    assert(playing@.take(playing@.len() as int) =~= playing@);
    h.append(TEST_KINDS);
    let ghost b = h@;
    let mut k: usize = 0;
    while k < kinds.len()
        invariant
            k <= kinds@.len(),
            h@ == b + kind_buttons(kinds@.take(k as int)),
        decreases kinds@.len() - k,
    {
        assert(kinds@.take(k + 1).drop_last() =~= kinds@.take(k as int));
        assert(kinds@.take(k + 1).last() == kinds@[k as int]);
        h.append("<button name=\"kind\" value=\"");
        h.append(kinds[k].0.as_str());
        h.append("\">");
        h.append(kinds[k].1.as_str());
        h.append("</button>");
        assert(h@ =~= b + kind_buttons(kinds@.take(k + 1)));
        k = k + 1;
    }
    assert(kinds@.take(kinds@.len() as int) =~= kinds@);
    h.append(TEST_END);
    h
}

// ---------------------------------------------------------------------------
// Takeover words and LED art
// ---------------------------------------------------------------------------

/// What the team form's words and art fields show: the plays that take
/// words, as (id, label, usual headline), and the limits on words and art.
#[derive(Clone, Debug)]
pub struct WordsLimits {
    pub plays: Vec<(String, String, String)>,
    pub headline_max: u64,
    pub line_max: u64,
    pub art_max_w: u64,
    pub art_max_h: u64,
    pub art_max_frames: u64,
    pub frame_ms_min: u64,
    pub frame_ms_max: u64,
    pub frame_ms_default: u64,
}

pub const WORDS_START: &'static str =
    "<details class=\"words\"><summary>Takeover words and LED art</summary><p class=\"hint\">Your own words when this \
     team scores, in place of the usual one (\"KINGDOM TD!\" instead of \"TOUCHDOWN\"), and an optional second \
     line shown under it. Leave a play blank to keep what's there. Try it with <a href=\"#test-takeover\">Test \
     a takeover</a>.</p><div class=\"grid\">";

pub const WORDS_REMOVE: &'static str =
    "</div><label><input type=\"checkbox\" name=\"remove_words\"> Remove this team's words</label>";

pub const ART_A: &'static str =
    "<h4>LED art</h4><p class=\"hint\">Your own picture or animation in lights, for this team's takeovers. \
     One light per pixel, so draw small: at most ";

pub const ART_B: &'static str =
    " (pixel-art tools like Piskel or Aseprite are \
     ideal). A PNG for a still, an animated GIF, or a PNG strip with the frames side by side.</p>\
     <div class=\"grid\"><label class=\"wide\">Art <input type=\"file\" name=\"art\" \
     accept=\"image/png,image/gif\"></label>\
     <label>Frames in a PNG strip <input type=\"number\" name=\"art_frames\" value=\"1\" min=\"1\" \
     max=\"";

pub const ART_C: &'static str = "\"></label>\
     <label>Speed (ms per frame; a GIF has its own) <input type=\"number\" name=\"art_ms\" min=\"";

pub const ART_D: &'static str = "\" \
     max=\"";

pub const ART_E: &'static str = "\" placeholder=\"";

pub const ART_F: &'static str = "\"></label>\
     <label>Where <select name=\"art_placement\"><option value=\"above\">Above the words</option>\
     <option value=\"intro\">On its own first, then the words</option>\
     <option value=\"behind\">In the background, behind the words</option></select></label></div>\
     <label><input type=\"checkbox\" name=\"remove_art\"> Remove this team's art</label></details>";

/// One play's headline and second-line fields.
pub open spec fn play_fields(p: (String, String, String), headline_max: u64, line_max: u64) -> Seq<char> {
    "<label>"@ + p.1@ + " <input name=\"words_"@ + p.0@ + "\" maxlength=\""@ + dec(headline_max as nat)
        + "\" placeholder=\""@ + p.2@
        + "\" autocomplete=\"off\"></label><label>Second line <input name=\"words_"@ + p.0@ + "_line\" maxlength=\""@
        + dec(line_max as nat) + "\" autocomplete=\"off\"></label>"@
}

/// The plays' fields, in order.
pub open spec fn plays_fields(ps: Seq<(String, String, String)>, headline_max: u64, line_max: u64) -> Seq<char>
    decreases ps.len(),
{
    if ps.len() == 0 {
        Seq::empty()
    } else {
        plays_fields(ps.drop_last(), headline_max, line_max) + play_fields(ps.last(), headline_max, line_max)
    }
}

/// The team form's takeover words and LED art fields.
pub open spec fn words_fields_text(w: WordsLimits) -> Seq<char> {
    WORDS_START@ + plays_fields(w.plays@, w.headline_max, w.line_max) + WORDS_REMOVE@ + ART_A@ + dec(
        w.art_max_w as nat,
    ) + "x"@ + dec(w.art_max_h as nat) + ART_B@ + dec(w.art_max_frames as nat) + ART_C@ + dec(
        w.frame_ms_min as nat,
    ) + ART_D@ + dec(w.frame_ms_max as nat) + ART_E@ + dec(w.frame_ms_default as nat) + ART_F@
}

fn push_play_fields(h: &mut String, p: &(String, String, String), headline_max: u64, line_max: u64)
    ensures
        final(h)@ == old(h)@ + play_fields(*p, headline_max, line_max),
{
    h.append("<label>");
    h.append(p.1.as_str());
    h.append(" <input name=\"words_");
    h.append(p.0.as_str());
    h.append("\" maxlength=\"");
    push_dec(h, headline_max);
    h.append("\" placeholder=\"");
    h.append(p.2.as_str());
    h.append("\" autocomplete=\"off\"></label><label>Second line <input name=\"words_");
    h.append(p.0.as_str());
    h.append("_line\" maxlength=\"");
    push_dec(h, line_max);
    h.append("\" autocomplete=\"off\"></label>");
    assert(final(h)@ =~= old(h)@ + play_fields(*p, headline_max, line_max));
}

/// The team form's takeover words and LED art fields.
pub fn words_fields(w: &WordsLimits) -> (h: String)
    ensures
        h@ == words_fields_text(*w),
{
    let mut h = WORDS_START.to_owned();
    let ghost a = h@;
    let mut i: usize = 0;
    while i < w.plays.len()
        invariant
            i <= w.plays@.len(),
            h@ == a + plays_fields(w.plays@.take(i as int), w.headline_max, w.line_max),
        decreases w.plays@.len() - i,
    {
        assert(w.plays@.take(i + 1).drop_last() =~= w.plays@.take(i as int));
        assert(w.plays@.take(i + 1).last() == w.plays@[i as int]);
        push_play_fields(&mut h, &w.plays[i], w.headline_max, w.line_max);
        i = i + 1;
    }
    assert(w.plays@.take(w.plays@.len() as int) =~= w.plays@);
    h.append(WORDS_REMOVE);
    h.append(ART_A);
    push_dec(&mut h, w.art_max_w);
    h.append("x");
    push_dec(&mut h, w.art_max_h);
    h.append(ART_B);
    push_dec(&mut h, w.art_max_frames);
    h.append(ART_C);
    push_dec(&mut h, w.frame_ms_min);
    h.append(ART_D);
    push_dec(&mut h, w.frame_ms_max);
    h.append(ART_E);
    push_dec(&mut h, w.frame_ms_default);
    h.append(ART_F);
    assert(h@ =~= words_fields_text(*w));
    h
}

// ---------------------------------------------------------------------------
// Look
// ---------------------------------------------------------------------------

/// What the "Look" section shows of the themes: every look as (id, label,
/// blurb), the current look's id, whether it uses each team's colors and
/// is a look's own colors (not changed), its colors as (role, label, color
/// code), the pairs of colors that may be hard to read, and its code.
#[derive(Clone, Debug)]
pub struct LookValues {
    pub styles: Vec<(String, String, String)>,
    pub style: String,
    pub team_colors: bool,
    pub preset: bool,
    pub roles: Vec<(String, String, String)>,
    pub hard_to_read: Vec<(String, String)>,
    pub code: String,
}

pub const LOOK_START: &'static str =
    "<section id=\"look\"><h2>Look</h2><p class=\"hint\">How the crawl and widgets look. The ticker \
     stays LED in every look. Save to see it on the screen.</p><div class=\"themes\">";

pub const LOOK_TEAM_COLORS: &'static str =
    "</div><div class=\"choices\"><label><input type=\"checkbox\" name=\"team_colors\"";

pub const LOOK_LOGOS: &'static str = "> \
     Use each team's colors (off: everything stays in the look's own colors)</label>\
     <label><input type=\"checkbox\" name=\"provider_logos\"";

pub const LOOK_CUSTOM: &'static str = "> Show team logos from ESPN, the scores \
     service</label></div><p class=\"hint\">Off by default. When on, Marqueet downloads the logos of the \
     teams playing today from ESPN and shows them on the ticker and widgets. The logos belong to the \
     teams; logos you add yourself (below) always win.</p>\
     <details class=\"custom\"";

pub const LOOK_SUMMARY: &'static str = "><summary>Make your own colors</summary>\
     <p class=\"hint\">Change any color, then save. Picking a different look above starts over \
     from that look's colors.</p>";

pub const LOOK_CURRENT: &'static str =
    "<img class=\"current\" src=\"/admin/theme/current.svg\" alt=\"Your colors\" width=\"320\" height=\"180\">";

pub const LOOK_SHARE: &'static str =
    "<div class=\"choices\"><label><input type=\"checkbox\" name=\"theme_reset\"> Go back to the look's own colors</label></div>\
     <h3>Share</h3><p class=\"hint\">Copy this code to share your look, or paste someone else's and save.</p>\
     <label class=\"wide\">Your code <input class=\"code\" readonly value=\"";

pub const LOOK_END: &'static str =
    "\" aria-label=\"Your theme code\"></label>\
     <label class=\"wide\">Use a code <input class=\"code\" name=\"theme_code\" placeholder=\"broadcast:0c131b,…\" \
     autocomplete=\"off\" spellcheck=\"false\"></label></details></section>";

/// Each look's choice, the current one checked.
pub open spec fn style_choices(ss: Seq<(String, String, String)>, cur: Seq<char>) -> Seq<char>
    decreases ss.len(),
{
    if ss.len() == 0 {
        Seq::empty()
    } else {
        let st = ss.last();
        style_choices(ss.drop_last(), cur)
            + "<label class=\"theme-choice\"><input type=\"radio\" name=\"theme_style\" value=\""@ + st.0@ + "\""@
            + checked_text(st.0@ == cur) + "><img src=\"/admin/theme/"@ + st.0@
            + ".svg\" alt=\"\" width=\"320\" height=\"180\"><strong>"@ + st.1@ + "</strong><small>"@ + st.2@
            + "</small></label>"@
    }
}

/// A color field per role.
pub open spec fn role_fields(rs: Seq<(String, String, String)>) -> Seq<char>
    decreases rs.len(),
{
    if rs.len() == 0 {
        Seq::empty()
    } else {
        let r = rs.last();
        role_fields(rs.drop_last()) + "<label><input type=\"color\" name=\"color_"@ + r.0@ + "\" value=\""@ + r.2@
            + "\"> "@ + r.1@ + "</label>"@
    }
}

/// A warning per pair of colors that may be hard to read.
pub open spec fn warnings(ws: Seq<(String, String)>) -> Seq<char>
    decreases ws.len(),
{
    if ws.len() == 0 {
        Seq::empty()
    } else {
        warnings(ws.drop_last()) + "<p class=\"warn\">"@ + ws.last().0@ + " on "@ + ws.last().1@
            + " may be hard to read from across the room.</p>"@
    }
}

/// "Look": the looks, team colors and provider logos, and the look's own
/// colors to change (open when they were changed), with its code to share.
pub open spec fn look_text(l: LookValues, provider_logos: bool) -> Seq<char> {
    LOOK_START@ + style_choices(l.styles@, l.style@) + LOOK_TEAM_COLORS@ + checked_text(l.team_colors)
        + LOOK_LOGOS@ + checked_text(provider_logos) + LOOK_CUSTOM@ + (if l.preset {
        ""@
    } else {
        " open"@
    }) + LOOK_SUMMARY@ + (if l.preset {
        Seq::empty()
    } else {
        LOOK_CURRENT@
    }) + "<div class=\"grid colors\">"@ + role_fields(l.roles@) + "</div>"@ + warnings(l.hard_to_read@)
        + LOOK_SHARE@ + escaped(l.code@) + LOOK_END@
}

fn push_style_choices(h: &mut String, ss: &Vec<(String, String, String)>, cur: &String)
    ensures
        final(h)@ == old(h)@ + style_choices(ss@, cur@),
{
    let mut i: usize = 0;
    while i < ss.len()
        invariant
            i <= ss@.len(),
            h@ == old(h)@ + style_choices(ss@.take(i as int), cur@),
        decreases ss@.len() - i,
    {
        assert(ss@.take(i + 1).drop_last() =~= ss@.take(i as int));
        assert(ss@.take(i + 1).last() == ss@[i as int]);
        let st = &ss[i];
        h.append("<label class=\"theme-choice\"><input type=\"radio\" name=\"theme_style\" value=\"");
        h.append(st.0.as_str());
        h.append("\"");
        h.append(checked(str_eq(st.0.as_str(), cur.as_str())));
        h.append("><img src=\"/admin/theme/");
        h.append(st.0.as_str());
        h.append(".svg\" alt=\"\" width=\"320\" height=\"180\"><strong>");
        h.append(st.1.as_str());
        h.append("</strong><small>");
        h.append(st.2.as_str());
        h.append("</small></label>");
        assert(h@ =~= old(h)@ + style_choices(ss@.take(i + 1), cur@));
        i = i + 1;
    }
    assert(ss@.take(ss@.len() as int) =~= ss@);
}

fn push_role_fields(h: &mut String, rs: &Vec<(String, String, String)>)
    ensures
        final(h)@ == old(h)@ + role_fields(rs@),
{
    let mut i: usize = 0;
    while i < rs.len()
        invariant
            i <= rs@.len(),
            h@ == old(h)@ + role_fields(rs@.take(i as int)),
        decreases rs@.len() - i,
    {
        assert(rs@.take(i + 1).drop_last() =~= rs@.take(i as int));
        assert(rs@.take(i + 1).last() == rs@[i as int]);
        h.append("<label><input type=\"color\" name=\"color_");
        h.append(rs[i].0.as_str());
        h.append("\" value=\"");
        h.append(rs[i].2.as_str());
        h.append("\"> ");
        h.append(rs[i].1.as_str());
        h.append("</label>");
        assert(h@ =~= old(h)@ + role_fields(rs@.take(i + 1)));
        i = i + 1;
    }
    assert(rs@.take(rs@.len() as int) =~= rs@);
}

fn push_warnings(h: &mut String, ws: &Vec<(String, String)>)
    ensures
        final(h)@ == old(h)@ + warnings(ws@),
{
    let mut i: usize = 0;
    while i < ws.len()
        invariant
            i <= ws@.len(),
            h@ == old(h)@ + warnings(ws@.take(i as int)),
        decreases ws@.len() - i,
    {
        assert(ws@.take(i + 1).drop_last() =~= ws@.take(i as int));
        assert(ws@.take(i + 1).last() == ws@[i as int]);
        h.append("<p class=\"warn\">");
        h.append(ws[i].0.as_str());
        h.append(" on ");
        h.append(ws[i].1.as_str());
        h.append(" may be hard to read from across the room.</p>");
        assert(h@ =~= old(h)@ + warnings(ws@.take(i + 1)));
        i = i + 1;
    }
    assert(ws@.take(ws@.len() as int) =~= ws@);
}

/// "Look" for the admin page.
pub fn look_section(l: &LookValues, provider_logos: bool) -> (h: String)
    ensures
        h@ == look_text(*l, provider_logos),
{
    let mut h = LOOK_START.to_owned();
    push_style_choices(&mut h, &l.styles, &l.style);
    h.append(LOOK_TEAM_COLORS);
    h.append(checked(l.team_colors));
    h.append(LOOK_LOGOS);
    h.append(checked(provider_logos));
    h.append(LOOK_CUSTOM);
    h.append(if l.preset {
        ""
    } else {
        " open"
    });
    h.append(LOOK_SUMMARY);
    if !l.preset {
        h.append(LOOK_CURRENT);
    }
    h.append("<div class=\"grid colors\">");
    push_role_fields(&mut h, &l.roles);
    h.append("</div>");
    push_warnings(&mut h, &l.hard_to_read);
    h.append(LOOK_SHARE);
    h.append(esc(l.code.as_str()).as_str());
    h.append(LOOK_END);
    assert(h@ =~= look_text(*l, provider_logos));
    h
}

} // verus!
