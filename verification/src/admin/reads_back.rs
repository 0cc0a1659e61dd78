//! The settings form reads back as the settings it shows: when a
//! submission carries each control with the value the page gives it for
//! some settings, applying it gives those settings back, whatever the
//! current ones are. And a field the form doesn't read changes nothing,
//! wherever it is sent.
use vstd::prelude::*;
use crate::admin::apply::{
    applied, entry_le, kind_id, kind_with_id, layout_result, league_entries,
    leagues_result, non_empty, option_key, applied_rest, order_key, position, quiet_result, resolution_result,
    scroll_result, slot_key, slot_value, slot_values, slots_result, sorted_entries, takeovers_result,
    trimmed_non_empty, units_result, all_slots_sent, non_empty_field, SettingsView, Units, QuietHours,
};
use crate::admin::form::{all_values, field_value, hh_mm, number_value};
use crate::admin::sections::{hh_mm_text, two_digits};
use crate::config::{law_layout_ids_round_trip, law_resolution_ids_round_trip, layout_id, layout_slots, resolution_id, ScrollMode};
use crate::hub::policy::TakeoverPolicy;
use crate::text::{
    dec, is_whitespace, lemma_dec_reads_back, parse_signed, parse_unsigned, trim,
    trim_end, trim_start, unsigned_body,
};

verus! {

/// The value a takeover policy's radio button sends.
pub open spec fn takeover_id(p: TakeoverPolicy) -> Seq<char> {
    match p {
        TakeoverPolicy::All => "all"@,
        TakeoverPolicy::Favorites => "favorites"@,
        TakeoverPolicy::Off => "off"@,
    }
}

/// The value a scroll mode's option sends.
pub open spec fn scroll_id(m: ScrollMode) -> Seq<char> {
    match m {
        ScrollMode::Stepped => "stepped"@,
        ScrollMode::Smooth => "smooth"@,
    }
}

/// The value a weather unit's option sends.
pub open spec fn units_id(u: Units) -> Seq<char> {
    match u {
        Units::Fahrenheit => "fahrenheit"@,
        Units::Celsius => "celsius"@,
    }
}

/// An optional text as a field sends it: empty for none.
pub open spec fn opt_text(o: Option<Seq<char>>) -> Seq<char> {
    match o {
        Some(t) => t,
        None => Seq::empty(),
    }
}

/// A checkbox as a browser sends it: "on" when ticked, nothing otherwise.
pub open spec fn box_sent(pairs: Seq<(Seq<char>, Seq<char>)>, key: Seq<char>, on: bool) -> bool {
    if on {
        field_value(pairs, key) == Some("on"@)
    } else {
        field_value(pairs, key) is None
    }
}

/// Whether the submission carries every control of the settings form with
/// the value the page gives it for `s`: the followed leagues ticked and
/// numbered from one in ticker order, the favorites ticked, the chosen
/// takeover policy, layout, scroll mode, resolution and units, each slot's
/// widget and its option (empty for none), the sizes and rates in decimal,
/// the switches ticked or not, the watched game and the time zone (empty
/// for none), and quiet hours when on: "on", their look ("dim" or
/// "black") and their times as HH:MM.
pub open spec fn form_says(pairs: Seq<(Seq<char>, Seq<char>)>, s: SettingsView) -> bool {
    &&& all_values(pairs, "league"@) == s.leagues
    &&& forall|i: int|
        0 <= i < s.leagues.len() ==> field_value(pairs, order_key(#[trigger] s.leagues[i])) == Some(
            dec((i + 1) as nat),
        )
    &&& all_values(pairs, "favorite"@) == s.favorites
    &&& field_value(pairs, "takeovers"@) == Some(takeover_id(s.takeovers))
    &&& field_value(pairs, "widget_layout"@) == Some(layout_id(s.widget_layout))
    &&& forall|i: int|
        0 <= i < s.widgets.len() ==> {
            &&& field_value(pairs, slot_key(i as nat)) == Some(kind_id((#[trigger] s.widgets[i]).0))
            &&& field_value(pairs, option_key(i as nat, s.widgets[i].0)) == Some(opt_text(s.widgets[i].1))
        }
    &&& field_value(pairs, "scroll_mode"@) == Some(scroll_id(s.scroll_mode))
    &&& field_value(pairs, "ticker_rows"@) == Some(dec(s.ticker_rows as nat))
    &&& field_value(pairs, "resolution"@) == Some(resolution_id(s.resolution))
    &&& field_value(pairs, "max_fps"@) == Some(dec(s.max_fps as nat))
    &&& box_sent(pairs, "provider_logos"@, s.provider_logos)
    &&& box_sent(pairs, "show_odds"@, s.show_odds)
    &&& box_sent(pairs, "spotlight_auto"@, s.spotlight_auto)
    &&& box_sent(pairs, "spotlight_favorites"@, s.spotlight_favorites)
    &&& box_sent(pairs, "spotlight_primetime"@, s.spotlight_primetime)
    &&& box_sent(pairs, "spotlight_tracker"@, s.spotlight_tracker)
    &&& box_sent(pairs, "weather_ticker"@, s.weather_ticker)
    &&& box_sent(pairs, "weather_alerts"@, s.weather_alerts)
    &&& field_value(pairs, "spotlight_game"@) == Some(opt_text(s.spotlight_game))
    &&& field_value(pairs, "units"@) == Some(units_id(s.units))
    &&& field_value(pairs, "time_zone"@) == Some(opt_text(s.time_zone))
    &&& match s.quiet_hours {
        None => field_value(pairs, "quiet_enabled"@) is None,
        Some(q) => {
            &&& field_value(pairs, "quiet_enabled"@) == Some("on"@)
            &&& field_value(pairs, "quiet_look"@) == Some(
                if q.dim {
                    "dim"@
                } else {
                    "black"@
                },
            )
            &&& field_value(pairs, "quiet_from"@) == Some(hh_mm_text(q.from))
            &&& field_value(pairs, "quiet_to"@) == Some(hh_mm_text(q.to))
        },
    }
}

/// Settings as applying the form leaves them: at least one followed
/// league, each supported; favorites and the watched game not empty; a
/// widget for each slot of the layout, with trimmed, non-empty options;
/// the rows within 9 to 48 and the rate 30 or 60; and a time zone, trimmed.
pub open spec fn in_range(s: SettingsView, supported: Seq<Seq<char>>) -> bool {
    &&& 0 < s.leagues.len() < i64::MAX
    &&& forall|i: int| 0 <= i < s.leagues.len() ==> position(supported, #[trigger] s.leagues[i]) is Some
    &&& forall|i: int| 0 <= i < s.favorites.len() ==> (#[trigger] s.favorites[i]).len() > 0
    &&& s.widgets.len() == layout_slots(s.widget_layout)
    &&& forall|i: int|
        0 <= i < s.widgets.len() ==> match (#[trigger] s.widgets[i]).1 {
            Some(o) => o.len() > 0 && trim(o) == o,
            None => true,
        }
    &&& 9 <= s.ticker_rows <= 48
    &&& (s.max_fps == 30 || s.max_fps == 60)
    &&& match s.spotlight_game {
        Some(g) => g.len() > 0,
        None => true,
    }
    &&& match s.time_zone {
        Some(z) => trim(z) == z,
        None => false,
    }
}

/// Whether the time parser reads each quiet-hours time back from its
/// HH:MM text.
pub open spec fn times_read_back(q: Option<QuietHours>) -> bool {
    match q {
        Some(q) => hh_mm(hh_mm_text(q.from)) == Some(q.from) && hh_mm(hh_mm_text(q.to)) == Some(q.to),
        None => true,
    }
}

/// Text that neither starts nor ends with a blank is its own trim.
proof fn lemma_trim_unchanged(s: Seq<char>)
    requires
        s.len() > 0,
        !is_whitespace(s[0]),
        !is_whitespace(s.last()),
    ensures
        trim(s) == s,
{
    assert(trim_start(s) == s);
    assert(trim_end(s) == s);
}

/// A number in decimal: trimmed already, and read back as itself.
proof fn lemma_dec_number(n: nat)
    ensures
        dec(n).len() > 0,
        trim(dec(n)) == dec(n),
        unsigned_body(dec(n)) == dec(n),
        n <= u32::MAX ==> parse_unsigned(dec(n), u32::MAX as nat) == Some(n),
        n <= u16::MAX ==> parse_unsigned(dec(n), u16::MAX as nat) == Some(n),
        n <= i64::MAX ==> parse_signed(dec(n), i64::MIN as int, i64::MAX as int) == Some(n as int),
{
    lemma_dec_reads_back(n);
    let d = dec(n);
    assert('0' <= d[0] <= '9');
    assert('0' <= d[d.len() - 1] <= '9');
    lemma_trim_unchanged(d);
}

/// Each number field sent in decimal reads back.
proof fn lemma_number_fields(pairs: Seq<(Seq<char>, Seq<char>)>, key: Seq<char>, n: nat)
    requires
        field_value(pairs, key) == Some(dec(n)),
    ensures
        n <= u32::MAX ==> forall|c: u32| number_value::<u32>(pairs, key, c) == Ok::<u32, Seq<char>>(n as u32),
        n <= u16::MAX ==> forall|c: u16| number_value::<u16>(pairs, key, c) == Ok::<u16, Seq<char>>(n as u16),
        n <= i64::MAX ==> forall|c: i64| number_value::<i64>(pairs, key, c) == Ok::<i64, Seq<char>>(n as i64),
{
    lemma_dec_number(n);
}

/// An HH:MM text is trimmed already.
proof fn lemma_time_text_trimmed(t: (u32, u32))
    ensures
        trim(hh_mm_text(t)) == hh_mm_text(t),
{
    reveal_strlit("0");
    reveal_strlit(":");
    lemma_dec_reads_back(t.0 as nat);
    lemma_dec_reads_back(t.1 as nat);
    let h = two_digits(t.0);
    let m = two_digits(t.1);
    let s = hh_mm_text(t);
    assert(s == h + ":"@ + m);
    assert(h.len() > 0 && m.len() > 0);
    assert('0' <= h[0] <= '9') by {
        if t.0 >= 10 {
            assert(h[0] == dec(t.0 as nat)[0]);
        }
    }
    assert('0' <= m[m.len() - 1] <= '9') by {
        if t.1 < 10 {
            assert(m[m.len() - 1] == dec(t.1 as nat)[0]);
        }
    }
    assert(s[0] == h[0]);
    assert(s.last() == m[m.len() - 1]);
    lemma_trim_unchanged(s);
}

/// Entries whose orders rise are sorted already.
proof fn lemma_sorted_rising(es: Seq<(i64, int, Seq<char>)>)
    requires
        forall|i: int, j: int| 0 <= i < j < es.len() ==> es[i].0 < es[j].0,
    ensures
        sorted_entries(es) == es,
    decreases es.len(),
{
    if es.len() > 0 {
        let init = es.drop_last();
        lemma_sorted_rising(init);
        if init.len() > 0 {
            assert(entry_le(init.last(), es.last()));
        }
        assert(init.push(es.last()) =~= es);
    }
}

/// The entries the followed leagues give: each with its place in the
/// ticker, counted from one, its place among the supported leagues and
/// its id.
pub open spec fn rising_entries(ls: Seq<Seq<char>>, supported: Seq<Seq<char>>) -> Seq<(i64, int, Seq<char>)> {
    Seq::new(ls.len(), |i: int| (((i + 1) as i64), position(supported, ls[i])->0, ls[i]))
}

/// The first `n` followed leagues give their rising entries.
proof fn lemma_league_entries_rising(
    supported: Seq<Seq<char>>,
    pairs: Seq<(Seq<char>, Seq<char>)>,
    ls: Seq<Seq<char>>,
    n: int,
)
    requires
        0 <= n <= ls.len() < i64::MAX,
        forall|i: int| 0 <= i < ls.len() ==> position(supported, #[trigger] ls[i]) is Some,
        forall|i: int|
            0 <= i < ls.len() ==> field_value(pairs, order_key(#[trigger] ls[i])) == Some(dec((i + 1) as nat)),
    ensures
        league_entries(ls.take(n), supported, pairs) == Ok::<Seq<(i64, int, Seq<char>)>, Seq<char>>(
            rising_entries(ls.take(n), supported),
        ),
    decreases n,
{
    if n == 0 {
        assert(ls.take(0) =~= Seq::<Seq<char>>::empty());
        assert(rising_entries(ls.take(0), supported) =~= Seq::<(i64, int, Seq<char>)>::empty());
    } else {
        lemma_league_entries_rising(supported, pairs, ls, n - 1);
        let ids = ls.take(n);
        assert(ids.drop_last() =~= ls.take(n - 1));
        assert(ids.last() == ls[n - 1]);
        lemma_number_fields(pairs, order_key(ls[n - 1]), n as nat);
        assert(number_value::<i64>(pairs, order_key(ls[n - 1]), i64::MAX) == Ok::<i64, Seq<char>>(n as i64));
        assert(rising_entries(ids, supported) =~= rising_entries(ls.take(n - 1), supported).push(
            ((n as i64), position(supported, ls[n - 1])->0, ls[n - 1]),
        ));
    }
}

/// The followed leagues, numbered from one, read back in ticker order.
proof fn lemma_leagues_read_back(supported: Seq<Seq<char>>, pairs: Seq<(Seq<char>, Seq<char>)>, ls: Seq<Seq<char>>)
    requires
        0 < ls.len() < i64::MAX,
        forall|i: int| 0 <= i < ls.len() ==> position(supported, #[trigger] ls[i]) is Some,
        all_values(pairs, "league"@) == ls,
        forall|i: int|
            0 <= i < ls.len() ==> field_value(pairs, order_key(#[trigger] ls[i])) == Some(dec((i + 1) as nat)),
    ensures
        leagues_result(supported, pairs) == Ok::<Seq<Seq<char>>, Seq<char>>(ls),
{
    lemma_league_entries_rising(supported, pairs, ls, ls.len() as int);
    assert(ls.take(ls.len() as int) =~= ls);
    let es = rising_entries(ls, supported);
    lemma_sorted_rising(es);
    assert(es.map_values(|e: (i64, int, Seq<char>)| e.2) =~= ls);
}

/// Each widget kind's id reads back as that kind.
proof fn lemma_kind_ids(k: crate::cli::WidgetKind)
    ensures
        kind_with_id(kind_id(k)) == Some(k),
{
    reveal_strlit("game_of_the_day");
    reveal_strlit("scores");
    reveal_strlit("standings");
    reveal_strlit("weather");
    reveal_strlit("fantasy");
    reveal_strlit("bracket");
    assert("game_of_the_day"@.len() == 15 && "scores"@.len() == 6 && "standings"@.len() == 9);
    assert("weather"@.len() == 7 && "fantasy"@.len() == 7 && "bracket"@.len() == 7);
    assert("weather"@[0] != "fantasy"@[0] && "weather"@[0] != "bracket"@[0] && "fantasy"@[0] != "bracket"@[0]);
}

/// Each slot's widget and option read back.
proof fn lemma_slots_read_back(
    pairs: Seq<(Seq<char>, Seq<char>)>,
    ws: Seq<(crate::cli::WidgetKind, Option<Seq<char>>)>,
)
    requires
        forall|i: int|
            0 <= i < ws.len() ==> {
                &&& field_value(pairs, slot_key(i as nat)) == Some(kind_id((#[trigger] ws[i]).0))
                &&& field_value(pairs, option_key(i as nat, ws[i].0)) == Some(opt_text(ws[i].1))
            },
        forall|i: int|
            0 <= i < ws.len() ==> match (#[trigger] ws[i]).1 {
                Some(o) => o.len() > 0 && trim(o) == o,
                None => true,
            },
    ensures
        all_slots_sent(pairs, ws.len()),
        slot_values(pairs, ws.len()) == Ok::<Seq<(crate::cli::WidgetKind, Option<Seq<char>>)>, Seq<char>>(ws),
{
    assert forall|i: nat| i < ws.len() implies #[trigger] field_value(pairs, slot_key(i)) is Some by {
        assert(field_value(pairs, slot_key(i as int as nat)) == Some(kind_id(ws[i as int].0)));
    }
    lemma_slot_values_prefix(pairs, ws, ws.len());
    assert(ws.take(ws.len() as int) =~= ws);
}

/// The first `n` slots read back.
proof fn lemma_slot_values_prefix(
    pairs: Seq<(Seq<char>, Seq<char>)>,
    ws: Seq<(crate::cli::WidgetKind, Option<Seq<char>>)>,
    n: nat,
)
    requires
        n <= ws.len(),
        forall|i: int|
            0 <= i < ws.len() ==> {
                &&& field_value(pairs, slot_key(i as nat)) == Some(kind_id((#[trigger] ws[i]).0))
                &&& field_value(pairs, option_key(i as nat, ws[i].0)) == Some(opt_text(ws[i].1))
            },
        forall|i: int|
            0 <= i < ws.len() ==> match (#[trigger] ws[i]).1 {
                Some(o) => o.len() > 0 && trim(o) == o,
                None => true,
            },
    ensures
        slot_values(pairs, n) == Ok::<Seq<(crate::cli::WidgetKind, Option<Seq<char>>)>, Seq<char>>(
            ws.take(n as int),
        ),
    decreases n,
{
    if n == 0 {
        assert(ws.take(0) =~= Seq::<(crate::cli::WidgetKind, Option<Seq<char>>)>::empty());
    } else {
        let k = (n - 1) as nat;
        lemma_slot_values_prefix(pairs, ws, k);
        let w = ws[k as int];
        assert(field_value(pairs, slot_key(k)) == Some(kind_id(w.0)));
        assert(field_value(pairs, option_key(k, w.0)) == Some(opt_text(w.1)));
        lemma_kind_ids(w.0);
        match w.1 {
            Some(o) => {},
            None => {
                assert(trim(Seq::<char>::empty()) =~= Seq::<char>::empty());
            },
        }
        assert(trimmed_non_empty(field_value(pairs, option_key(k, w.0))) == w.1);
        assert(slot_value(pairs, k) == Ok::<(crate::cli::WidgetKind, Option<Seq<char>>), Seq<char>>(w));
        assert(ws.take(n as int) =~= ws.take(k as int).push(w));
    }
}

/// Ticked favorites, none of them empty, are kept as they are.
proof fn lemma_non_empty_keeps(vs: Seq<Seq<char>>)
    requires
        forall|i: int| 0 <= i < vs.len() ==> (#[trigger] vs[i]).len() > 0,
    ensures
        non_empty(vs) == vs,
    decreases vs.len(),
{
    if vs.len() > 0 {
        lemma_non_empty_keeps(vs.drop_last());
        assert(vs.drop_last().push(vs.last()) =~= vs);
    }
}

/// The choices the form sends by name read back as what they name.
proof fn lemma_choices(s: SettingsView, pairs: Seq<(Seq<char>, Seq<char>)>, cur: SettingsView)
    requires
        field_value(pairs, "takeovers"@) == Some(takeover_id(s.takeovers)),
        field_value(pairs, "widget_layout"@) == Some(layout_id(s.widget_layout)),
        field_value(pairs, "scroll_mode"@) == Some(scroll_id(s.scroll_mode)),
        field_value(pairs, "resolution"@) == Some(resolution_id(s.resolution)),
        field_value(pairs, "units"@) == Some(units_id(s.units)),
    ensures
        takeovers_result(pairs, cur.takeovers) == Ok::<TakeoverPolicy, Seq<char>>(s.takeovers),
        layout_result(pairs, cur.widget_layout) == Ok::<crate::config::WidgetLayout, Seq<char>>(s.widget_layout),
        scroll_result(pairs, cur.scroll_mode) == Ok::<ScrollMode, Seq<char>>(s.scroll_mode),
        resolution_result(pairs, cur.resolution) == Ok::<crate::config::Resolution, Seq<char>>(s.resolution),
        units_result(pairs, cur.units) == Ok::<Units, Seq<char>>(s.units),
{
    reveal_strlit("all");
    reveal_strlit("favorites");
    reveal_strlit("off");
    reveal_strlit("stepped");
    reveal_strlit("smooth");
    reveal_strlit("fahrenheit");
    reveal_strlit("celsius");
    assert("all"@.len() == 3 && "favorites"@.len() == 9 && "off"@.len() == 3 && "all"@[0] != "off"@[0]);
    assert("stepped"@.len() == 7 && "smooth"@.len() == 6);
    assert("fahrenheit"@.len() == 10 && "celsius"@.len() == 7);
    law_layout_ids_round_trip(s.widget_layout, layout_id(s.widget_layout));
    law_resolution_ids_round_trip(s.resolution, resolution_id(s.resolution));
}

/// Quiet hours read back: off when "quiet_enabled" isn't sent, else their
/// look and their times, where the time parser reads each time back.
proof fn lemma_quiet_read_back(s: SettingsView, pairs: Seq<(Seq<char>, Seq<char>)>)
    requires
        form_says(pairs, s),
        times_read_back(s.quiet_hours),
    ensures
        quiet_result(pairs) == Ok::<Option<QuietHours>, Seq<char>>(s.quiet_hours),
{
    reveal_strlit("on");
    reveal_strlit("dim");
    reveal_strlit("black");
    assert("dim"@.len() == 3 && "black"@.len() == 5);
    match s.quiet_hours {
        None => {},
        Some(q) => {
            lemma_time_text_trimmed(q.from);
            lemma_time_text_trimmed(q.to);
        },
    }
}

/// Submitting the settings form as the page shows it gives back the
/// settings it shows: for settings as applying the form leaves them (with
/// a time zone), any submission that carries every control with the value
/// the page gives it for them applies, from any current settings, to
/// exactly those settings, where the time parser reads each quiet-hours
/// time back from its HH:MM text.
pub proof fn law_form_reads_back(
    cur: SettingsView,
    supported: Seq<Seq<char>>,
    s: SettingsView,
    pairs: Seq<(Seq<char>, Seq<char>)>,
)
    requires
        in_range(s, supported),
        form_says(pairs, s),
    ensures
        times_read_back(s.quiet_hours) ==> applied(cur, supported, pairs) == Ok::<SettingsView, Seq<char>>(s),
{
    lemma_leagues_read_back(supported, pairs, s.leagues);
    lemma_choices(s, pairs, cur);
    lemma_slots_read_back(pairs, s.widgets);
    lemma_non_empty_keeps(s.favorites);
    lemma_number_fields(pairs, "ticker_rows"@, s.ticker_rows as nat);
    lemma_number_fields(pairs, "max_fps"@, s.max_fps as nat);
    assert(number_value::<u32>(pairs, "ticker_rows"@, cur.ticker_rows) == Ok::<u32, Seq<char>>(s.ticker_rows));
    assert(number_value::<u16>(pairs, "max_fps"@, cur.max_fps) == Ok::<u16, Seq<char>>(s.max_fps));
    reveal_strlit("on");
    reveal_strlit("");
    if times_read_back(s.quiet_hours) {
        lemma_quiet_read_back(s, pairs);
        let r = applied(cur, supported, pairs);
        assert(r is Ok);
        let t = r->Ok_0;
        assert(t.leagues == s.leagues);
        assert(t.favorites == s.favorites);
        assert(t.widgets == s.widgets);
        assert(t.spotlight_game == s.spotlight_game);
        assert(t.time_zone == s.time_zone);
        assert(t == s);
    }
}

// ---------------------------------------------------------------------------
// Fields that aren't read
// ---------------------------------------------------------------------------

/// Whether applying the form reads the field `k`: one of its named
/// fields, or a league's order (`order_...`) or a widget field
/// (`widget_...`).
pub open spec fn read_key(k: Seq<char>) -> bool {
    ||| k == "league"@ ||| k == "favorite"@ ||| k == "takeovers"@ ||| k == "scroll_mode"@
    ||| k == "ticker_rows"@ ||| k == "resolution"@ ||| k == "max_fps"@ ||| k == "provider_logos"@
    ||| k == "show_odds"@ ||| k == "spotlight_auto"@ ||| k == "spotlight_favorites"@
    ||| k == "spotlight_primetime"@ ||| k == "spotlight_tracker"@ ||| k == "spotlight_game"@
    ||| k == "weather_ticker"@ ||| k == "weather_alerts"@ ||| k == "units"@ ||| k == "time_zone"@
    ||| k == "quiet_enabled"@ ||| k == "quiet_from"@ ||| k == "quiet_to"@ ||| k == "quiet_look"@
    ||| (k.len() >= 6 && k.take(6) == "order_"@)
    ||| (k.len() >= 7 && k.take(7) == "widget_"@)
}

/// A pair put anywhere changes no other name's first value.
proof fn lemma_field_insert(pairs: Seq<(Seq<char>, Seq<char>)>, i: int, p: (Seq<char>, Seq<char>), key: Seq<char>)
    requires
        0 <= i <= pairs.len(),
        p.0 != key,
    ensures
        field_value(pairs.insert(i, p), key) == field_value(pairs, key),
    decreases pairs.len(),
{
    let q = pairs.insert(i, p);
    if i == 0 {
        assert(q.drop_first() =~= pairs);
    } else {
        assert(q[0] == pairs[0]);
        if pairs[0].0 != key {
            assert(q.drop_first() =~= pairs.drop_first().insert(i - 1, p));
            lemma_field_insert(pairs.drop_first(), i - 1, p, key);
        }
    }
}

/// A pair put anywhere changes no other name's values.
proof fn lemma_all_insert(pairs: Seq<(Seq<char>, Seq<char>)>, i: int, p: (Seq<char>, Seq<char>), key: Seq<char>)
    requires
        0 <= i <= pairs.len(),
        p.0 != key,
    ensures
        all_values(pairs.insert(i, p), key) == all_values(pairs, key),
    decreases pairs.len(),
{
    let q = pairs.insert(i, p);
    if i == pairs.len() {
        assert(q.drop_last() =~= pairs);
    } else {
        assert(q.last() == pairs.last());
        assert(q.drop_last() =~= pairs.drop_last().insert(i, p));
        lemma_all_insert(pairs.drop_last(), i, p, key);
    }
}

/// The checked leagues' entries only read their order fields.
proof fn lemma_entries_same(
    ids: Seq<Seq<char>>,
    supported: Seq<Seq<char>>,
    a: Seq<(Seq<char>, Seq<char>)>,
    b: Seq<(Seq<char>, Seq<char>)>,
)
    requires
        forall|id: Seq<char>| #[trigger] field_value(a, order_key(id)) == field_value(b, order_key(id)),
    ensures
        league_entries(ids, supported, a) == league_entries(ids, supported, b),
    decreases ids.len(),
{
    if ids.len() > 0 {
        lemma_entries_same(ids.drop_last(), supported, a, b);
        assert(field_value(a, order_key(ids.last())) == field_value(b, order_key(ids.last())));
    }
}

/// The slots only read the widget fields.
proof fn lemma_slots_same(a: Seq<(Seq<char>, Seq<char>)>, b: Seq<(Seq<char>, Seq<char>)>, n: nat)
    requires
        forall|i: nat| #[trigger] field_value(a, slot_key(i)) == field_value(b, slot_key(i)),
        forall|i: nat, w: crate::cli::WidgetKind| #[trigger] field_value(a, option_key(i, w)) == field_value(b, option_key(i, w)),
    ensures
        slot_values(a, n) == slot_values(b, n),
    decreases n,
{
    if n > 0 {
        lemma_slots_same(a, b, (n - 1) as nat);
        assert(field_value(a, slot_key((n - 1) as nat)) == field_value(b, slot_key((n - 1) as nat)));
    }
}

/// Two submissions that agree on every field the form reads apply alike.
#[verifier::rlimit(50)]
proof fn lemma_applied_same(
    cur: SettingsView,
    supported: Seq<Seq<char>>,
    a: Seq<(Seq<char>, Seq<char>)>,
    b: Seq<(Seq<char>, Seq<char>)>,
)
    requires
        leagues_result(supported, a) == leagues_result(supported, b),
        all_values(a, "favorite"@) == all_values(b, "favorite"@),
        field_value(a, "takeovers"@) == field_value(b, "takeovers"@),
        field_value(a, "widget_layout"@) == field_value(b, "widget_layout"@),
        forall|l: crate::config::WidgetLayout, c: Seq<(crate::cli::WidgetKind, Option<Seq<char>>)>|
            #[trigger] slots_result(a, l, c) == slots_result(b, l, c),
        field_value(a, "scroll_mode"@) == field_value(b, "scroll_mode"@),
        field_value(a, "ticker_rows"@) == field_value(b, "ticker_rows"@),
        field_value(a, "resolution"@) == field_value(b, "resolution"@),
        field_value(a, "max_fps"@) == field_value(b, "max_fps"@),
        field_value(a, "provider_logos"@) == field_value(b, "provider_logos"@),
        field_value(a, "show_odds"@) == field_value(b, "show_odds"@),
        field_value(a, "spotlight_auto"@) == field_value(b, "spotlight_auto"@),
        field_value(a, "spotlight_favorites"@) == field_value(b, "spotlight_favorites"@),
        field_value(a, "spotlight_primetime"@) == field_value(b, "spotlight_primetime"@),
        field_value(a, "spotlight_tracker"@) == field_value(b, "spotlight_tracker"@),
        field_value(a, "spotlight_game"@) == field_value(b, "spotlight_game"@),
        field_value(a, "weather_ticker"@) == field_value(b, "weather_ticker"@),
        field_value(a, "weather_alerts"@) == field_value(b, "weather_alerts"@),
        field_value(a, "units"@) == field_value(b, "units"@),
        field_value(a, "time_zone"@) == field_value(b, "time_zone"@),
        field_value(a, "quiet_enabled"@) == field_value(b, "quiet_enabled"@),
        field_value(a, "quiet_from"@) == field_value(b, "quiet_from"@),
        field_value(a, "quiet_to"@) == field_value(b, "quiet_to"@),
        field_value(a, "quiet_look"@) == field_value(b, "quiet_look"@),
    ensures
        applied(cur, supported, a) == applied(cur, supported, b),
{
    assert(layout_result(a, cur.widget_layout) == layout_result(b, cur.widget_layout));
    assert(takeovers_result(a, cur.takeovers) == takeovers_result(b, cur.takeovers));
    assert(quiet_result(a) == quiet_result(b));
    assert(scroll_result(a, cur.scroll_mode) == scroll_result(b, cur.scroll_mode));
    assert(resolution_result(a, cur.resolution) == resolution_result(b, cur.resolution));
    assert(units_result(a, cur.units) == units_result(b, cur.units));
    assert(number_value::<u32>(a, "ticker_rows"@, cur.ticker_rows) == number_value::<u32>(b, "ticker_rows"@, cur.ticker_rows));
    assert(number_value::<u16>(a, "max_fps"@, cur.max_fps) == number_value::<u16>(b, "max_fps"@, cur.max_fps));
    assert(non_empty_field(a, "spotlight_game"@) == non_empty_field(b, "spotlight_game"@));
    assert forall|lg: Seq<Seq<char>>, t: TakeoverPolicy, l: crate::config::WidgetLayout, w: Seq<(crate::cli::WidgetKind, Option<Seq<char>>)>|
        #[trigger] applied_rest(cur, a, lg, t, l, w) == applied_rest(cur, b, lg, t, l, w) by {}
}

/// Applying the form ignores the fields it doesn't read: a field whose
/// name is none of the names it reads, sent anywhere among the others,
/// leaves the outcome as it was, settings or error.
pub proof fn law_unread_fields_are_ignored(
    cur: SettingsView,
    supported: Seq<Seq<char>>,
    pairs: Seq<(Seq<char>, Seq<char>)>,
    i: int,
    k: Seq<char>,
    v: Seq<char>,
)
    requires
        0 <= i <= pairs.len(),
        !read_key(k),
    ensures
        applied(cur, supported, pairs.insert(i, (k, v))) == applied(cur, supported, pairs),
{
    let q = pairs.insert(i, (k, v));
    reveal_strlit("order_");
    reveal_strlit("widget_");
    assert forall|key: Seq<char>| key != k implies #[trigger] field_value(q, key) == field_value(pairs, key) by {
        lemma_field_insert(pairs, i, (k, v), key);
    }
    assert forall|key: Seq<char>| key != k implies #[trigger] all_values(q, key) == all_values(pairs, key) by {
        lemma_all_insert(pairs, i, (k, v), key);
    }
    assert forall|id: Seq<char>| #[trigger] field_value(q, order_key(id)) == field_value(pairs, order_key(id)) by {
        assert(order_key(id).take(6) =~= "order_"@);
    }
    assert forall|j: nat| #[trigger] field_value(q, slot_key(j)) == field_value(pairs, slot_key(j)) by {
        assert(slot_key(j).take(7) =~= "widget_"@);
    }
    assert forall|j: nat, w: crate::cli::WidgetKind| #[trigger] field_value(q, option_key(j, w)) == field_value(
        pairs,
        option_key(j, w),
    ) by {
        assert(option_key(j, w).take(7) =~= "widget_"@);
    }
    let ids = all_values(pairs, "league"@);
    assert(all_values(q, "league"@) == ids);
    lemma_entries_same(ids, supported, q, pairs);
    assert(leagues_result(supported, q) == leagues_result(supported, pairs));
    reveal_strlit("widget_layout");
    assert("widget_layout"@.take(7) =~= "widget_"@);
    assert(k != "widget_layout"@);
    assert forall|n: nat| #[trigger] all_slots_sent(q, n) == all_slots_sent(pairs, n) by {
        if all_slots_sent(pairs, n) {
            assert forall|j: nat| j < n implies #[trigger] field_value(q, slot_key(j)) is Some by {
                assert(field_value(pairs, slot_key(j)) is Some);
            }
        }
        if all_slots_sent(q, n) {
            assert forall|j: nat| j < n implies #[trigger] field_value(pairs, slot_key(j)) is Some by {
                assert(field_value(q, slot_key(j)) is Some);
            }
        }
    }
    assert forall|n: nat| #[trigger] slot_values(q, n) == slot_values(pairs, n) by {
        lemma_slots_same(q, pairs, n);
    }
    assert forall|l: crate::config::WidgetLayout, c: Seq<(crate::cli::WidgetKind, Option<Seq<char>>)>|
        #[trigger] slots_result(q, l, c) == slots_result(pairs, l, c) by {
        assert(all_slots_sent(q, layout_slots(l)) == all_slots_sent(pairs, layout_slots(l)));
        assert(slot_values(q, layout_slots(l)) == slot_values(pairs, layout_slots(l)));
    }
    lemma_applied_same(cur, supported, q, pairs);
}

} // verus!
