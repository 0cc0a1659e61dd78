//! The admin page's "Display" section: the ticker's look, the scroll mode,
//! the resolution and frame rate, and what the TV is getting.
use vstd::prelude::*;
use crate::admin::page::{checked, esc, escaped, selected};
use crate::admin::sections::{checked_text, selected_text, contains_id};
use crate::config::{Resolution, ScrollMode};
use crate::text::{dec, push_dec, string_views};
use crate::tv_output::{describe, description, Status};
use crate::admin::team_art::joined;

verus! {

// ---------------------------------------------------------------------------
// Display
// ---------------------------------------------------------------------------

/// The display settings the "Display" section shows. The fractional values
/// and the LED color come as the text they print as.
#[derive(Clone, Debug)]
pub struct DisplayValues {
    pub ticker_ratio: String,
    pub led_color: String,
    pub ticker_rows: u32,
    pub ticker_speed: String,
    pub crawl_speed: String,
    pub glow: String,
    pub flicker: String,
    pub scroll_mode: ScrollMode,
    pub resolution: Resolution,
    pub max_fps: u16,
}

pub const DISPLAY_START: &'static str =
    "<section><h2>Display</h2><div class=\"grid\">\
     <label class=\"wide\">Ticker size: how much of the screen the ticker and crawl take (the widgets get \
     the rest) <input type=\"range\" name=\"ticker_ratio\" value=\"";

pub const DISPLAY_COLOR: &'static str = "\" min=\"0.25\" max=\"0.6\" step=\"0.01\" \
     aria-label=\"Ticker size\"></label>\
     <label>LED color <input type=\"color\" name=\"led_color\" value=\"";

pub const DISPLAY_ROWS: &'static str = "\"></label>\
     <label>Ticker rows <input type=\"number\" name=\"ticker_rows\" value=\"";

pub const DISPLAY_SPEED: &'static str = "\" min=\"9\" max=\"48\"></label>\
     <label>Ticker speed <input type=\"number\" name=\"ticker_speed\" value=\"";

pub const DISPLAY_CRAWL: &'static str = "\" min=\"1\" max=\"200\" step=\"any\"></label>\
     <label>Crawl speed <input type=\"number\" name=\"crawl_speed\" value=\"";

pub const DISPLAY_GLOW: &'static str = "\" min=\"1\" max=\"200\" step=\"any\"></label>\
     <label>Glow <input type=\"range\" name=\"glow\" value=\"";

pub const DISPLAY_FLICKER: &'static str = "\" min=\"0\" max=\"2\" step=\"0.05\"></label>\
     <label>Flicker <input type=\"range\" name=\"flicker\" value=\"";

pub const DISPLAY_STEPPED: &'static str = "\" min=\"0\" max=\"1\" step=\"0.05\"></label>\
     </div><div class=\"choices inline\">\
     <label><input type=\"radio\" name=\"scroll_mode\" value=\"stepped\"";

pub const DISPLAY_SMOOTH: &'static str = "> Stepped (like a real sign)</label>\
     <label><input type=\"radio\" name=\"scroll_mode\" value=\"smooth\"";

pub const DISPLAY_SCREEN: &'static str = "> Smooth</label></div>\
     <h3>Screen</h3><div class=\"row\"><label>Resolution <select name=\"resolution\" aria-label=\"Resolution\">";

pub const DISPLAY_FPS60: &'static str = "</select>\
     </label><label><input type=\"radio\" name=\"max_fps\" value=\"60\"";

pub const DISPLAY_FPS30: &'static str = "> 60 frames a second (smoothest)</label>\
     <label><input type=\"radio\" name=\"max_fps\" value=\"30\"";

pub const DISPLAY_HINT: &'static str = "> 30 (cooler)</label></div>\
     <p class=\"hint\">A Raspberry Pi 4 can't fill a 4K TV smoothly: Automatic draws at 1080p and scales it up. \
     Pick a lower resolution if scrolling stutters.</p>";

pub const DISPLAY_ODDS: &'static str =
    "<div class=\"choices\"><label><input type=\"checkbox\" name=\"show_odds\"";

pub const DISPLAY_END: &'static str = "> Show betting lines (the spread \
     and over/under, like a broadcast)</label></div><p class=\"hint\">Off by default. For information only: \
     with upcoming games in the crawl and in the spotlight. Marqueet doesn't link to sportsbooks or take \
     bets.</p></section>";

/// A resolution's label.
pub open spec fn resolution_label(r: Resolution) -> Seq<char> {
    match r {
        Resolution::Auto => "Automatic (1080p on a 4K TV)"@,
        Resolution::Native => "The screen's own"@,
        Resolution::P2160 => "4K (2160p)"@,
        Resolution::P1440 => "1440p"@,
        Resolution::P1080 => "1080p"@,
        Resolution::P720 => "720p"@,
    }
}

/// One resolution's option.
pub open spec fn resolution_option(r: Resolution, cur: Resolution) -> Seq<char> {
    "<option value=\""@ + crate::config::resolution_id(r) + "\""@ + selected_text(r == cur) + ">"@
        + resolution_label(r) + "</option>"@
}

/// The resolutions' options, in the order they're offered, the current
/// one selected.
pub open spec fn resolution_options(cur: Resolution) -> Seq<char> {
    resolution_option(Resolution::Auto, cur) + resolution_option(Resolution::P2160, cur) + resolution_option(
        Resolution::P1440,
        cur,
    ) + resolution_option(Resolution::P1080, cur) + resolution_option(Resolution::P720, cur) + resolution_option(
        Resolution::Native,
        cur,
    )
}

/// The TV's modes described, each description once, in order.
pub open spec fn mode_sizes(modes: Seq<String>) -> Seq<Seq<char>>
    decreases modes.len(),
{
    if modes.len() == 0 {
        Seq::empty()
    } else {
        let prev = mode_sizes(modes.drop_last());
        let d = description(modes.last()@);
        if prev.contains(d) {
            prev
        } else {
            prev.push(d)
        }
    }
}

/// What the TV output helper did, when it's installed.
pub open spec fn tv_hint(tv: Option<Status>) -> Seq<char> {
    match tv {
        Some(t) => "<p class=\"hint\">Your TV is getting "@ + escaped(description(t.applied@)) + ". It offers: "@
            + escaped(joined(mode_sizes(t.modes@), ", "@)) + ".</p>"@,
        None => Seq::empty(),
    }
}

/// "Display": the ticker's size, color, rows, speeds, glow and flicker,
/// the scroll mode, the resolution and frame rate (with what the TV is
/// getting), and betting lines.
pub open spec fn display_text(d: DisplayValues, tv: Option<Status>, show_odds: bool) -> Seq<char> {
    DISPLAY_START@ + d.ticker_ratio@ + DISPLAY_COLOR@ + d.led_color@ + DISPLAY_ROWS@ + dec(d.ticker_rows as nat)
        + DISPLAY_SPEED@ + d.ticker_speed@ + DISPLAY_CRAWL@ + d.crawl_speed@ + DISPLAY_GLOW@ + d.glow@
        + DISPLAY_FLICKER@ + d.flicker@ + DISPLAY_STEPPED@ + checked_text(d.scroll_mode == ScrollMode::Stepped)
        + DISPLAY_SMOOTH@ + checked_text(d.scroll_mode == ScrollMode::Smooth) + DISPLAY_SCREEN@
        + resolution_options(d.resolution) + DISPLAY_FPS60@ + checked_text(d.max_fps >= 60)
        + DISPLAY_FPS30@ + checked_text(d.max_fps < 60) + DISPLAY_HINT@ + tv_hint(tv) + DISPLAY_ODDS@
        + checked_text(show_odds) + DISPLAY_END@
}

fn push_resolution_option(h: &mut String, r: Resolution, cur: Resolution)
    ensures
        final(h)@ == old(h)@ + resolution_option(r, cur),
{
    h.append("<option value=\"");
    h.append(r.id());
    h.append("\"");
    h.append(selected(r == cur));
    h.append(">");
    h.append(r.label());
    h.append("</option>");
    assert(final(h)@ =~= old(h)@ + resolution_option(r, cur));
}

fn push_resolution_options(h: &mut String, cur: Resolution)
    ensures
        final(h)@ == old(h)@ + resolution_options(cur),
{
    push_resolution_option(h, Resolution::Auto, cur);
    push_resolution_option(h, Resolution::P2160, cur);
    push_resolution_option(h, Resolution::P1440, cur);
    push_resolution_option(h, Resolution::P1080, cur);
    push_resolution_option(h, Resolution::P720, cur);
    push_resolution_option(h, Resolution::Native, cur);
    assert(final(h)@ =~= old(h)@ + resolution_options(cur));
}

fn push_tv_hint(h: &mut String, tv: &Option<Status>)
    ensures
        final(h)@ == old(h)@ + tv_hint(*tv),
{
    match tv {
        None => {
            assert(final(h)@ =~= old(h)@ + tv_hint(*tv));
        },
        Some(t) => {
            let mut sizes: Vec<String> = Vec::new();
            let mut i: usize = 0;
            while i < t.modes.len()
                invariant
                    i <= t.modes@.len(),
                    string_views(sizes@) == mode_sizes(t.modes@.take(i as int)),
                decreases t.modes@.len() - i,
            {
                assert(t.modes@.take(i + 1).drop_last() =~= t.modes@.take(i as int));
                assert(t.modes@.take(i + 1).last() == t.modes@[i as int]);
                let d = describe(t.modes[i].as_str());
                if !contains_id(&sizes, &d) {
                    let ghost before = sizes@;
                    sizes.push(d);
                    assert(string_views(sizes@) =~= string_views(before).push(d@));
                }
                i = i + 1;
            }
            assert(t.modes@.take(t.modes@.len() as int) =~= t.modes@);
            let mut joined_sizes = String::new();
            let mut k: usize = 0;
            while k < sizes.len()
                invariant
                    k <= sizes@.len(),
                    joined_sizes@ == joined(string_views(sizes@).take(k as int), ", "@),
                decreases sizes@.len() - k,
            {
                let ghost ws = string_views(sizes@);
                assert(ws.take(k + 1).drop_last() =~= ws.take(k as int));
                assert(ws.take(k + 1).last() == sizes@[k as int]@);
                if k > 0 {
                    joined_sizes.append(", ");
                }
                joined_sizes.append(sizes[k].as_str());
                assert(k == 0 ==> ws.take(k + 1) =~= seq![sizes@[k as int]@]);
                assert(joined_sizes@ =~= joined(ws.take(k + 1), ", "@));
                k = k + 1;
            }
            assert(string_views(sizes@).take(sizes@.len() as int) =~= string_views(sizes@));
            h.append("<p class=\"hint\">Your TV is getting ");
            h.append(esc(describe(t.applied.as_str()).as_str()).as_str());
            h.append(". It offers: ");
            h.append(esc(joined_sizes.as_str()).as_str());
            h.append(".</p>");
            assert(final(h)@ =~= old(h)@ + tv_hint(*tv));
        },
    }
}

/// "Display" for the admin page; `tv` is what the TV output helper last
/// did, when it's installed.
pub fn display_section(d: &DisplayValues, tv: &Option<Status>, show_odds: bool) -> (h: String)
    ensures
        h@ == display_text(*d, *tv, show_odds),
{
    let mut h = DISPLAY_START.to_owned();
    h.append(d.ticker_ratio.as_str());
    h.append(DISPLAY_COLOR);
    h.append(d.led_color.as_str());
    h.append(DISPLAY_ROWS);
    push_dec(&mut h, d.ticker_rows as u64);
    h.append(DISPLAY_SPEED);
    h.append(d.ticker_speed.as_str());
    h.append(DISPLAY_CRAWL);
    h.append(d.crawl_speed.as_str());
    h.append(DISPLAY_GLOW);
    h.append(d.glow.as_str());
    h.append(DISPLAY_FLICKER);
    h.append(d.flicker.as_str());
    h.append(DISPLAY_STEPPED);
    h.append(checked(d.scroll_mode == ScrollMode::Stepped));
    h.append(DISPLAY_SMOOTH);
    h.append(checked(d.scroll_mode == ScrollMode::Smooth));
    h.append(DISPLAY_SCREEN);
    push_resolution_options(&mut h, d.resolution);
    h.append(DISPLAY_FPS60);
    h.append(checked(d.max_fps >= 60));
    h.append(DISPLAY_FPS30);
    h.append(checked(d.max_fps < 60));
    h.append(DISPLAY_HINT);
    push_tv_hint(&mut h, tv);
    h.append(DISPLAY_ODDS);
    h.append(checked(show_odds));
    h.append(DISPLAY_END);
    assert(h@ =~= display_text(*d, *tv, show_odds));
    h
}
} // verus!
