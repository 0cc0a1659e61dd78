//! The admin form applied to the settings it shows: the followed leagues
//! and their order, favorites, the takeover policy, the widget layout and
//! the widget in each of its slots, the scroll mode, sizes and rates, the
//! resolution, the switches, weather units, the time zone and quiet hours.
//! Unknown fields are ignored; the first bad value is reported.
//!
//! The rest of the form belongs to settings this library doesn't hold: the
//! look (themes and colors per kind), the LED color, and the fractional
//! values (speeds, ticker size, glow, flicker).
use vstd::prelude::*;
use crate::admin::form::{all, all_values, field, field_value, number, number_value, pair_views, time, time_value, hh_mm};
use crate::cli::WidgetKind;
use crate::config::{str_eq, layout_slots, layout_with_id, resolution_with_id, Resolution, ScrollMode, WidgetLayout};
use crate::hub::policy::TakeoverPolicy;
use crate::text::{chars_of, debug_quoted, debug_text, dec, push_dec, string_of, string_views, trim, trimmed};

verus! {

// ---------------------------------------------------------------------------
// Leagues
// ---------------------------------------------------------------------------

/// The first position of `id` among `supported`.
pub open spec fn position(supported: Seq<Seq<char>>, id: Seq<char>) -> Option<int>
    decreases supported.len(),
{
    if supported.len() == 0 {
        None
    } else {
        match position(supported.drop_last(), id) {
            Some(p) => Some(p),
            None => if supported.last() == id {
                Some(supported.len() - 1)
            } else {
                None
            },
        }
    }
}

/// The name of a league's order field.
pub open spec fn order_key(id: Seq<char>) -> Seq<char> {
    "order_"@ + id
}

/// Each checked league as (its order field, its place among the supported
/// leagues, its id), or the first problem: a league that isn't supported,
/// or an order that isn't a number. A league without an order goes last.
pub open spec fn league_entries(
    ids: Seq<Seq<char>>,
    supported: Seq<Seq<char>>,
    pairs: Seq<(Seq<char>, Seq<char>)>,
) -> Result<Seq<(i64, int, Seq<char>)>, Seq<char>>
    decreases ids.len(),
{
    if ids.len() == 0 {
        Ok(Seq::empty())
    } else {
        match league_entries(ids.drop_last(), supported, pairs) {
            Err(e) => Err(e),
            Ok(es) => {
                let id = ids.last();
                match position(supported, id) {
                    None => Err("unknown league "@ + debug_text(id)),
                    Some(p) => match number_value::<i64>(pairs, order_key(id), i64::MAX) {
                        Err(e) => Err(e),
                        Ok(o) => Ok(es.push((o, p, id))),
                    },
                }
            },
        }
    }
}

/// Whether entry `a` sorts no later than `b`: by order, then by place.
pub open spec fn entry_le(a: (i64, int, Seq<char>), b: (i64, int, Seq<char>)) -> bool {
    a.0 < b.0 || (a.0 == b.0 && a.1 <= b.1)
}

/// `x` put into the sorted `s`, after the entries that sort no later.
pub open spec fn insert_entry(s: Seq<(i64, int, Seq<char>)>, x: (i64, int, Seq<char>)) -> Seq<
    (i64, int, Seq<char>),
>
    decreases s.len(),
{
    if s.len() == 0 {
        seq![x]
    } else if entry_le(s.last(), x) {
        s.push(x)
    } else {
        insert_entry(s.drop_last(), x).push(s.last())
    }
}

/// The entries sorted by order, then by place among the supported leagues.
pub open spec fn sorted_entries(s: Seq<(i64, int, Seq<char>)>) -> Seq<(i64, int, Seq<char>)>
    decreases s.len(),
{
    if s.len() == 0 {
        Seq::empty()
    } else {
        insert_entry(sorted_entries(s.drop_last()), s.last())
    }
}

/// The followed leagues the form asks for: the checked `league` values,
/// ordered by their `order_<id>` fields (then as the supported leagues are
/// listed), or the first problem, or "pick at least one league".
pub open spec fn leagues_result(supported: Seq<Seq<char>>, pairs: Seq<(Seq<char>, Seq<char>)>) -> Result<
    Seq<Seq<char>>,
    Seq<char>,
> {
    match league_entries(all_values(pairs, "league"@), supported, pairs) {
        Err(e) => Err(e),
        Ok(es) => if es.len() == 0 {
            Err("pick at least one league"@)
        } else {
            Ok(sorted_entries(es).map_values(|e: (i64, int, Seq<char>)| e.2))
        },
    }
}

/// The entries as characters.
pub open spec fn entry_views(v: Seq<(i64, usize, String)>) -> Seq<(i64, int, Seq<char>)> {
    v.map_values(|e: (i64, usize, String)| (e.0, e.1 as int, e.2@))
}

fn position_exec(supported: &Vec<String>, id: &str) -> (r: Option<usize>)
    ensures
        match r {
            Some(p) => position(string_views(supported@), id@) == Some(p as int),
            None => position(string_views(supported@), id@) is None,
        },
{
    let ghost sv = string_views(supported@);
    let mut i: usize = 0;
    while i < supported.len()
        invariant
            i <= supported@.len(),
            sv == string_views(supported@),
            position(sv.take(i as int), id@) is None,
        decreases supported@.len() - i,
    {
        assert(sv.take(i + 1).drop_last() =~= sv.take(i as int));
        if str_eq(supported[i].as_str(), id) {
            assert(position(sv.take(i + 1), id@) == Some(i as int));
            proof {
                lemma_position_prefix(sv, i as int + 1);
            }
            return Some(i);
        }
        i = i + 1;
    }
    assert(sv.take(supported@.len() as int) =~= sv);
    None
}

/// A position found in a prefix is the position in the whole.
proof fn lemma_position_prefix(s: Seq<Seq<char>>, n: int)
    requires
        0 <= n <= s.len(),
    ensures
        forall|id: Seq<char>| #[trigger] position(s.take(n), id) is Some ==> position(s, id) == position(s.take(n), id),
    decreases s.len() - n,
{
    if n < s.len() {
        lemma_position_prefix(s, n + 1);
        assert forall|id: Seq<char>| #[trigger] position(s.take(n), id) is Some implies position(s.take(n + 1), id)
            == position(s.take(n), id) by {
            assert(s.take(n + 1).drop_last() =~= s.take(n));
        }
    } else {
        assert(s.take(n) =~= s);
    }
}

/// Puts `x` into the sorted entries.
fn insert_sorted(v: &mut Vec<(i64, usize, String)>, x: (i64, usize, String))
    ensures
        entry_views(final(v)@) == insert_entry(entry_views(old(v)@), (x.0, x.1 as int, x.2@)),
    decreases old(v)@.len(),
{
    let ghost xv = (x.0, x.1 as int, x.2@);
    let ghost before = entry_views(v@);
    if v.len() == 0 {
        v.push(x);
        assert(entry_views(v@) =~= seq![xv]);
        return;
    }
    let n = v.len();
    let le = v[n - 1].0 < x.0 || (v[n - 1].0 == x.0 && v[n - 1].1 <= x.1);
    assert(before.last() == (v@[n - 1].0, v@[n - 1].1 as int, v@[n - 1].2@));
    if le {
        v.push(x);
        assert(entry_views(v@) =~= before.push(xv));
    } else {
        let last = v.pop().unwrap();
        assert(entry_views(v@) =~= before.drop_last());
        let ghost lv = (last.0, last.1 as int, last.2@);
        assert(lv == before.last());
        insert_sorted(v, x);
        let ghost mid = v@;
        v.push(last);
        assert(entry_views(v@) =~= entry_views(mid).push(lv));
    }
}

/// The followed leagues the form asks for.
pub fn read_leagues(supported: &Vec<String>, pairs: &[(String, String)]) -> (r: Result<Vec<String>, String>)
    ensures
        match r {
            Ok(ls) => leagues_result(string_views(supported@), pair_views(pairs@)) == Ok::<
                Seq<Seq<char>>,
                Seq<char>,
            >(string_views(ls@)),
            Err(e) => leagues_result(string_views(supported@), pair_views(pairs@)) == Err::<
                Seq<Seq<char>>,
                Seq<char>,
            >(e@),
        },
{
    let ghost sv = string_views(supported@);
    let ghost pv = pair_views(pairs@);
    let ids = all(pairs, "league");
    let ghost idv = ids@.map_values(|v: &str| v@);
    let mut entries: Vec<(i64, usize, String)> = Vec::new();
    let mut i: usize = 0;
    assert(idv.take(0) =~= Seq::<Seq<char>>::empty());
    assert(entry_views(entries@) =~= Seq::<(i64, int, Seq<char>)>::empty());
    while i < ids.len()
        invariant
            i <= ids@.len(),
            idv == ids@.map_values(|v: &str| v@),
            idv == all_values(pv, "league"@),
            sv == string_views(supported@),
            pv == pair_views(pairs@),
            league_entries(idv.take(i as int), sv, pv) == Ok::<Seq<(i64, int, Seq<char>)>, Seq<char>>(
                entry_views(entries@),
            ),
        decreases ids@.len() - i,
    {
        let id = ids[i];
        assert(idv.take(i + 1).drop_last() =~= idv.take(i as int));
        assert(idv.take(i + 1).last() == id@);
        let pos = match position_exec(supported, id) {
            Some(p) => p,
            None => {
                let mut m = "unknown league ".to_owned();
                m.append(debug_quoted(id).as_str());
                proof {
                    lemma_league_entries_err(idv, sv, pv, i as int + 1);
                }
                return Err(m);
            },
        };
        let mut key = "order_".to_owned();
        key.append(id);
        assert(key@ == order_key(id@));
        let order = match number(pairs, key.as_str(), i64::MAX) {
            Ok(o) => o,
            Err(e) => {
                proof {
                    lemma_league_entries_err(idv, sv, pv, i as int + 1);
                }
                return Err(e);
            },
        };
        let ghost before = entries@;
        entries.push((order, pos, id.to_owned()));
        assert(entry_views(entries@) =~= entry_views(before).push((order, pos as int, id@)));
        i = i + 1;
    }
    assert(idv.take(ids@.len() as int) =~= idv);
    if entries.len() == 0 {
        return Err("pick at least one league".to_owned());
    }
    let mut sorted: Vec<(i64, usize, String)> = Vec::new();
    let mut k: usize = 0;
    while k < entries.len()
        invariant
            k <= entries@.len(),
            entry_views(sorted@) == sorted_entries(entry_views(entries@).take(k as int)),
        decreases entries@.len() - k,
    {
        let ghost ev = entry_views(entries@);
        assert(ev.take(k + 1).drop_last() =~= ev.take(k as int));
        assert(ev.take(k + 1).last() == ev[k as int]);
        let e = (entries[k].0, entries[k].1, entries[k].2.clone());
        insert_sorted(&mut sorted, e);
        k = k + 1;
    }
    assert(entry_views(entries@).take(entries@.len() as int) =~= entry_views(entries@));
    let mut out: Vec<String> = Vec::new();
    let mut j: usize = 0;
    while j < sorted.len()
        invariant
            j <= sorted@.len(),
            string_views(out@) == entry_views(sorted@).take(j as int).map_values(|e: (i64, int, Seq<char>)| e.2),
        decreases sorted@.len() - j,
    {
        let ghost before = out@;
        let name = sorted[j].2.clone();
        assert(entry_views(sorted@)[j as int].2 == name@);
        out.push(name);
        assert(string_views(out@) =~= string_views(before).push(name@));
        assert(entry_views(sorted@).take(j + 1).map_values(|e: (i64, int, Seq<char>)| e.2) =~= entry_views(
            sorted@,
        ).take(j as int).map_values(|e: (i64, int, Seq<char>)| e.2).push(name@));
        assert(string_views(out@) =~= entry_views(sorted@).take(j + 1).map_values(
            |e: (i64, int, Seq<char>)| e.2,
        ));
        j = j + 1;
    }
    assert(entry_views(sorted@).take(sorted@.len() as int) =~= entry_views(sorted@));
    Ok(out)
}

/// Once a prefix of the checked leagues has a problem, so do all of them.
proof fn lemma_league_entries_err(
    ids: Seq<Seq<char>>,
    supported: Seq<Seq<char>>,
    pairs: Seq<(Seq<char>, Seq<char>)>,
    n: int,
)
    requires
        0 <= n <= ids.len(),
        league_entries(ids.take(n), supported, pairs) is Err,
    ensures
        league_entries(ids, supported, pairs) == league_entries(ids.take(n), supported, pairs),
    decreases ids.len() - n,
{
    if n < ids.len() {
        assert(ids.take(n + 1).drop_last() =~= ids.take(n));
        lemma_league_entries_err(ids, supported, pairs, n + 1);
    } else {
        assert(ids.take(n) =~= ids);
    }
}

// ---------------------------------------------------------------------------
// The settings the form changes
// ---------------------------------------------------------------------------

/// Temperature units for the weather.
#[derive(Clone, Copy, Debug, PartialEq, Eq, Structural)]
pub enum Units {
    Fahrenheit,
    Celsius,
}

/// Quiet hours: from and to as (hour, minute), and whether the screen dims
/// (rather than going dark).
#[derive(Clone, Copy, Debug, PartialEq, Eq)]
pub struct QuietHours {
    pub from: (u32, u32),
    pub to: (u32, u32),
    pub dim: bool,
}

/// The settings that the admin form reads and writes, as plain values.
#[derive(Clone, Debug)]
pub struct FormSettings {
    pub leagues: Vec<String>,
    pub favorites: Vec<String>,
    pub takeovers: TakeoverPolicy,
    pub widget_layout: WidgetLayout,
    /// A widget per slot of the layout: its kind and its option.
    pub widgets: Vec<(WidgetKind, Option<String>)>,
    pub scroll_mode: ScrollMode,
    pub ticker_rows: u32,
    pub resolution: Resolution,
    pub max_fps: u16,
    pub provider_logos: bool,
    pub show_odds: bool,
    pub spotlight_auto: bool,
    pub spotlight_favorites: bool,
    pub spotlight_primetime: bool,
    pub spotlight_tracker: bool,
    pub spotlight_game: Option<String>,
    pub weather_ticker: bool,
    pub weather_alerts: bool,
    pub units: Units,
    pub time_zone: Option<String>,
    pub quiet_hours: Option<QuietHours>,
}

/// [`FormSettings`] with its texts as characters.
pub struct SettingsView {
    pub leagues: Seq<Seq<char>>,
    pub favorites: Seq<Seq<char>>,
    pub takeovers: TakeoverPolicy,
    pub widget_layout: WidgetLayout,
    pub widgets: Seq<(WidgetKind, Option<Seq<char>>)>,
    pub scroll_mode: ScrollMode,
    pub ticker_rows: u32,
    pub resolution: Resolution,
    pub max_fps: u16,
    pub provider_logos: bool,
    pub show_odds: bool,
    pub spotlight_auto: bool,
    pub spotlight_favorites: bool,
    pub spotlight_primetime: bool,
    pub spotlight_tracker: bool,
    pub spotlight_game: Option<Seq<char>>,
    pub weather_ticker: bool,
    pub weather_alerts: bool,
    pub units: Units,
    pub time_zone: Option<Seq<char>>,
    pub quiet_hours: Option<QuietHours>,
}

/// The widgets with their options as characters.
pub open spec fn widget_views(ws: Seq<(WidgetKind, Option<String>)>) -> Seq<(WidgetKind, Option<Seq<char>>)> {
    ws.map_values(|w: (WidgetKind, Option<String>)| (w.0, opt_chars(w.1)))
}

/// An optional text as characters.
pub open spec fn opt_chars(s: Option<String>) -> Option<Seq<char>> {
    match s {
        Some(t) => Some(t@),
        None => None,
    }
}

impl View for FormSettings {
    type V = SettingsView;

    open spec fn view(&self) -> SettingsView {
        SettingsView {
            leagues: string_views(self.leagues@),
            favorites: string_views(self.favorites@),
            takeovers: self.takeovers,
            widget_layout: self.widget_layout,
            widgets: widget_views(self.widgets@),
            scroll_mode: self.scroll_mode,
            ticker_rows: self.ticker_rows,
            resolution: self.resolution,
            max_fps: self.max_fps,
            provider_logos: self.provider_logos,
            show_odds: self.show_odds,
            spotlight_auto: self.spotlight_auto,
            spotlight_favorites: self.spotlight_favorites,
            spotlight_primetime: self.spotlight_primetime,
            spotlight_tracker: self.spotlight_tracker,
            spotlight_game: opt_chars(self.spotlight_game),
            weather_ticker: self.weather_ticker,
            weather_alerts: self.weather_alerts,
            units: self.units,
            time_zone: opt_chars(self.time_zone),
            quiet_hours: self.quiet_hours,
        }
    }
}

// ---------------------------------------------------------------------------
// Reading each field
// ---------------------------------------------------------------------------

/// The non-empty values among `vs`, in order.
pub open spec fn non_empty(vs: Seq<Seq<char>>) -> Seq<Seq<char>>
    decreases vs.len(),
{
    if vs.len() == 0 {
        Seq::empty()
    } else if vs.last().len() == 0 {
        non_empty(vs.drop_last())
    } else {
        non_empty(vs.drop_last()).push(vs.last())
    }
}

/// The takeover policy: kept when the field is absent.
pub open spec fn takeovers_result(pairs: Seq<(Seq<char>, Seq<char>)>, cur: TakeoverPolicy) -> Result<
    TakeoverPolicy,
    Seq<char>,
> {
    match field_value(pairs, "takeovers"@) {
        None => Ok(cur),
        Some(v) => if v == "all"@ {
            Ok(TakeoverPolicy::All)
        } else if v == "favorites"@ {
            Ok(TakeoverPolicy::Favorites)
        } else if v == "off"@ {
            Ok(TakeoverPolicy::Off)
        } else {
            Err("unknown takeover setting "@ + debug_text(v))
        },
    }
}

/// The widget layout: kept when the field is absent.
pub open spec fn layout_result(pairs: Seq<(Seq<char>, Seq<char>)>, cur: WidgetLayout) -> Result<
    WidgetLayout,
    Seq<char>,
> {
    match field_value(pairs, "widget_layout"@) {
        None => Ok(cur),
        Some(v) => match layout_with_id(v) {
            Some(l) => Ok(l),
            None => Err("unknown layout "@ + debug_text(v)),
        },
    }
}

/// The scroll mode: kept when the field is absent.
pub open spec fn scroll_result(pairs: Seq<(Seq<char>, Seq<char>)>, cur: ScrollMode) -> Result<
    ScrollMode,
    Seq<char>,
> {
    match field_value(pairs, "scroll_mode"@) {
        None => Ok(cur),
        Some(v) => if v == "stepped"@ {
            Ok(ScrollMode::Stepped)
        } else if v == "smooth"@ {
            Ok(ScrollMode::Smooth)
        } else {
            Err("unknown scroll mode "@ + debug_text(v))
        },
    }
}

/// The resolution: kept when the field is absent.
pub open spec fn resolution_result(pairs: Seq<(Seq<char>, Seq<char>)>, cur: Resolution) -> Result<
    Resolution,
    Seq<char>,
> {
    match field_value(pairs, "resolution"@) {
        None => Ok(cur),
        Some(v) => match resolution_with_id(v) {
            Some(r) => Ok(r),
            None => Err("unknown resolution "@ + debug_text(v)),
        },
    }
}

/// The weather units: kept when the field is absent.
pub open spec fn units_result(pairs: Seq<(Seq<char>, Seq<char>)>, cur: Units) -> Result<Units, Seq<char>> {
    match field_value(pairs, "units"@) {
        None => Ok(cur),
        Some(v) => if v == "fahrenheit"@ {
            Ok(Units::Fahrenheit)
        } else if v == "celsius"@ {
            Ok(Units::Celsius)
        } else {
            Err("unknown units "@ + debug_text(v))
        },
    }
}

/// A checkbox: on exactly when it was sent as "on".
pub open spec fn switch(pairs: Seq<(Seq<char>, Seq<char>)>, key: Seq<char>) -> bool {
    field_value(pairs, key) == Some("on"@)
}

/// A field's value, when it was sent and isn't empty.
pub open spec fn non_empty_field(pairs: Seq<(Seq<char>, Seq<char>)>, key: Seq<char>) -> Option<Seq<char>> {
    match field_value(pairs, key) {
        Some(v) => if v.len() > 0 {
            Some(v)
        } else {
            None
        },
        None => None,
    }
}

/// A field's value, or `default` when it wasn't sent.
pub open spec fn field_or(pairs: Seq<(Seq<char>, Seq<char>)>, key: Seq<char>, default: Seq<char>) -> Seq<char> {
    match field_value(pairs, key) {
        Some(v) => v,
        None => default,
    }
}

/// The id a widget kind is sent under.
pub open spec fn kind_id(k: WidgetKind) -> Seq<char> {
    match k {
        WidgetKind::GameOfTheDay => "game_of_the_day"@,
        WidgetKind::Scores => "scores"@,
        WidgetKind::Standings => "standings"@,
        WidgetKind::Weather => "weather"@,
        WidgetKind::Fantasy => "fantasy"@,
        WidgetKind::Bracket => "bracket"@,
    }
}

/// The widget kind sent as `v`, if any.
pub open spec fn kind_with_id(v: Seq<char>) -> Option<WidgetKind> {
    if v == "game_of_the_day"@ {
        Some(WidgetKind::GameOfTheDay)
    } else if v == "scores"@ {
        Some(WidgetKind::Scores)
    } else if v == "standings"@ {
        Some(WidgetKind::Standings)
    } else if v == "weather"@ {
        Some(WidgetKind::Weather)
    } else if v == "fantasy"@ {
        Some(WidgetKind::Fantasy)
    } else if v == "bracket"@ {
        Some(WidgetKind::Bracket)
    } else {
        None
    }
}

/// The field of slot `i`'s widget.
pub open spec fn slot_key(i: nat) -> Seq<char> {
    "widget_"@ + dec(i)
}

/// The field of slot `i`'s option for kind `k`.
pub open spec fn option_key(i: nat, k: WidgetKind) -> Seq<char> {
    "widget_"@ + dec(i) + "_"@ + kind_id(k)
}

/// A field's trimmed value, when it was sent and isn't blank.
pub open spec fn trimmed_non_empty(v: Option<Seq<char>>) -> Option<Seq<char>> {
    match v {
        Some(o) => if trim(o).len() > 0 {
            Some(trim(o))
        } else {
            None
        },
        None => None,
    }
}

/// Slot `i`'s widget, once its field was sent: the kind (or "unknown
/// widget" and the text), with the option sent for that kind.
pub open spec fn slot_value(pairs: Seq<(Seq<char>, Seq<char>)>, i: nat) -> Result<
    (WidgetKind, Option<Seq<char>>),
    Seq<char>,
> {
    let v = field_value(pairs, slot_key(i))->0;
    match kind_with_id(v) {
        None => Err("unknown widget "@ + debug_text(v)),
        Some(k) => Ok((k, trimmed_non_empty(field_value(pairs, option_key(i, k))))),
    }
}

/// The first `n` slots' widgets, or the first one's problem.
pub open spec fn slot_values(pairs: Seq<(Seq<char>, Seq<char>)>, n: nat) -> Result<
    Seq<(WidgetKind, Option<Seq<char>>)>,
    Seq<char>,
>
    decreases n,
{
    if n == 0 {
        Ok(Seq::empty())
    } else {
        match slot_values(pairs, (n - 1) as nat) {
            Err(e) => Err(e),
            Ok(ws) => match slot_value(pairs, (n - 1) as nat) {
                Err(e) => Err(e),
                Ok(w) => Ok(ws.push(w)),
            },
        }
    }
}

/// Whether every one of the first `n` slots was sent.
pub open spec fn all_slots_sent(pairs: Seq<(Seq<char>, Seq<char>)>, n: nat) -> bool {
    forall|i: nat| i < n ==> #[trigger] field_value(pairs, slot_key(i)) is Some
}

/// The widgets: one per slot of the layout when every slot was sent (the
/// form has a select for every possible slot; extra ones are ignored),
/// else the current ones.
pub open spec fn slots_result(
    pairs: Seq<(Seq<char>, Seq<char>)>,
    layout: WidgetLayout,
    cur: Seq<(WidgetKind, Option<Seq<char>>)>,
) -> Result<Seq<(WidgetKind, Option<Seq<char>>)>, Seq<char>> {
    if all_slots_sent(pairs, layout_slots(layout)) {
        slot_values(pairs, layout_slots(layout))
    } else {
        Ok(cur)
    }
}

/// Quiet hours: none unless "quiet_enabled" is on; then from and to (23:00
/// and 07:00 when not sent), and whether the look is "dim".
pub open spec fn quiet_result(pairs: Seq<(Seq<char>, Seq<char>)>) -> Result<Option<QuietHours>, Seq<char>> {
    if switch(pairs, "quiet_enabled"@) {
        let f = field_or(pairs, "quiet_from"@, "23:00"@);
        let t = field_or(pairs, "quiet_to"@, "07:00"@);
        match time_value(f, hh_mm(trim(f))) {
            Err(e) => Err(e),
            Ok(from) => match time_value(t, hh_mm(trim(t))) {
                Err(e) => Err(e),
                Ok(to) => Ok(
                    Some(QuietHours { from, to, dim: field_value(pairs, "quiet_look"@) == Some("dim"@) }),
                ),
            },
        }
    } else {
        Ok(None)
    }
}

/// Ticker rows kept within 9 to 48.
pub open spec fn rows_clamped(n: u32) -> u32 {
    if n < 9 {
        9
    } else if n > 48 {
        48
    } else {
        n
    }
}

/// The frame rate as one of the two supported: 30 or 60.
pub open spec fn fps_clamped(n: u16) -> u16 {
    if n <= 30 {
        30
    } else {
        60
    }
}

/// The settings after the form: each field in turn, the first bad value
/// ending it with its error; then the sizes kept within their ranges and
/// the time zone trimmed.
pub open spec fn applied(
    cur: SettingsView,
    supported: Seq<Seq<char>>,
    pairs: Seq<(Seq<char>, Seq<char>)>,
) -> Result<SettingsView, Seq<char>> {
    match leagues_result(supported, pairs) {
        Err(e) => Err(e),
        Ok(leagues) => match takeovers_result(pairs, cur.takeovers) {
            Err(e) => Err(e),
            Ok(takeovers) => match layout_result(pairs, cur.widget_layout) {
                Err(e) => Err(e),
                Ok(widget_layout) => match slots_result(pairs, widget_layout, cur.widgets) {
                    Err(e) => Err(e),
                    Ok(widgets) => applied_rest(cur, pairs, leagues, takeovers, widget_layout, widgets),
                },
            },
        },
    }
}

/// The rest of the form, once the leagues, takeovers, layout and widgets
/// were read.
pub open spec fn applied_rest(
    cur: SettingsView,
    pairs: Seq<(Seq<char>, Seq<char>)>,
    leagues: Seq<Seq<char>>,
    takeovers: TakeoverPolicy,
    widget_layout: WidgetLayout,
    widgets: Seq<(WidgetKind, Option<Seq<char>>)>,
) -> Result<SettingsView, Seq<char>> {
    match scroll_result(pairs, cur.scroll_mode) {
                    Err(e) => Err(e),
                    Ok(scroll_mode) => match number_value::<u32>(pairs, "ticker_rows"@, cur.ticker_rows) {
                        Err(e) => Err(e),
                        Ok(rows) => match resolution_result(pairs, cur.resolution) {
                            Err(e) => Err(e),
                            Ok(resolution) => match number_value::<u16>(pairs, "max_fps"@, cur.max_fps) {
                                Err(e) => Err(e),
                                Ok(fps) => match units_result(pairs, cur.units) {
                                    Err(e) => Err(e),
                                    Ok(units) => match quiet_result(pairs) {
                                        Err(e) => Err(e),
                                        Ok(quiet_hours) => Ok(
                                            SettingsView {
                                                leagues,
                                                favorites: non_empty(all_values(pairs, "favorite"@)),
                                                takeovers,
                                                widget_layout,
                                                widgets,
                                                scroll_mode,
                                                ticker_rows: rows_clamped(rows),
                                                resolution,
                                                max_fps: fps_clamped(fps),
                                                provider_logos: switch(pairs, "provider_logos"@),
                                                show_odds: switch(pairs, "show_odds"@),
                                                spotlight_auto: switch(pairs, "spotlight_auto"@),
                                                spotlight_favorites: switch(pairs, "spotlight_favorites"@),
                                                spotlight_primetime: switch(pairs, "spotlight_primetime"@),
                                                spotlight_tracker: switch(pairs, "spotlight_tracker"@),
                                                spotlight_game: non_empty_field(pairs, "spotlight_game"@),
                                                weather_ticker: switch(pairs, "weather_ticker"@),
                                                weather_alerts: switch(pairs, "weather_alerts"@),
                                                units,
                                                time_zone: match field_value(pairs, "time_zone"@) {
                                                    Some(v) => Some(trim(v)),
                                                    None => match cur.time_zone {
                                                        Some(z) => Some(trim(z)),
                                                        None => None,
                                                    },
                                                },
                                                quiet_hours,
                                            },
                                        ),
                                    },
                                },
                            },
                        },
                    },
    }
}

// ---------------------------------------------------------------------------
// Applying the form
// ---------------------------------------------------------------------------

/// Whether an outcome is the one a spec gives, with its error as text.
pub open spec fn same_result<T>(r: Result<T, String>, s: Result<T, Seq<char>>) -> bool {
    match r {
        Ok(x) => s == Ok::<T, Seq<char>>(x),
        Err(e) => s == Err::<T, Seq<char>>(e@),
    }
}

/// `s` trimmed.
fn trimmed_text(s: &str) -> (r: String)
    ensures
        r@ == trim(s@),
{
    string_of(&trimmed(&chars_of(s)))
}

/// `prefix` and `v` quoted as an error.
fn unknown(prefix: &str, v: &str) -> (m: String)
    ensures
        m@ == prefix@ + debug_text(v@),
{
    let mut m = prefix.to_owned();
    m.append(debug_quoted(v).as_str());
    m
}

fn read_takeovers(pairs: &[(String, String)], cur: TakeoverPolicy) -> (r: Result<TakeoverPolicy, String>)
    ensures
        same_result(r, takeovers_result(pair_views(pairs@), cur)),
{
    match field(pairs, "takeovers") {
        None => Ok(cur),
        Some(v) => if str_eq(v, "all") {
            Ok(TakeoverPolicy::All)
        } else if str_eq(v, "favorites") {
            Ok(TakeoverPolicy::Favorites)
        } else if str_eq(v, "off") {
            Ok(TakeoverPolicy::Off)
        } else {
            Err(unknown("unknown takeover setting ", v))
        },
    }
}

fn read_layout(pairs: &[(String, String)], cur: WidgetLayout) -> (r: Result<WidgetLayout, String>)
    ensures
        same_result(r, layout_result(pair_views(pairs@), cur)),
{
    match field(pairs, "widget_layout") {
        None => Ok(cur),
        Some(v) => match WidgetLayout::from_id(v) {
            Some(l) => Ok(l),
            None => Err(unknown("unknown layout ", v)),
        },
    }
}

fn read_scroll(pairs: &[(String, String)], cur: ScrollMode) -> (r: Result<ScrollMode, String>)
    ensures
        same_result(r, scroll_result(pair_views(pairs@), cur)),
{
    match field(pairs, "scroll_mode") {
        None => Ok(cur),
        Some(v) => if str_eq(v, "stepped") {
            Ok(ScrollMode::Stepped)
        } else if str_eq(v, "smooth") {
            Ok(ScrollMode::Smooth)
        } else {
            Err(unknown("unknown scroll mode ", v))
        },
    }
}

fn read_resolution(pairs: &[(String, String)], cur: Resolution) -> (r: Result<Resolution, String>)
    ensures
        same_result(r, resolution_result(pair_views(pairs@), cur)),
{
    match field(pairs, "resolution") {
        None => Ok(cur),
        Some(v) => match Resolution::from_id(v) {
            Some(x) => Ok(x),
            None => Err(unknown("unknown resolution ", v)),
        },
    }
}

fn read_units(pairs: &[(String, String)], cur: Units) -> (r: Result<Units, String>)
    ensures
        same_result(r, units_result(pair_views(pairs@), cur)),
{
    match field(pairs, "units") {
        None => Ok(cur),
        Some(v) => if str_eq(v, "fahrenheit") {
            Ok(Units::Fahrenheit)
        } else if str_eq(v, "celsius") {
            Ok(Units::Celsius)
        } else {
            Err(unknown("unknown units ", v))
        },
    }
}

fn read_switch(pairs: &[(String, String)], key: &str) -> (b: bool)
    ensures
        b == switch(pair_views(pairs@), key@),
{
    match field(pairs, key) {
        Some(v) => str_eq(v, "on"),
        None => false,
    }
}

fn read_non_empty_field(pairs: &[(String, String)], key: &str) -> (r: Option<String>)
    ensures
        opt_chars(r) == non_empty_field(pair_views(pairs@), key@),
{
    match field(pairs, key) {
        Some(v) => if !v.is_empty() {
            Some(v.to_owned())
        } else {
            None
        },
        None => None,
    }
}

fn read_favorites(pairs: &[(String, String)]) -> (r: Vec<String>)
    ensures
        string_views(r@) == non_empty(all_values(pair_views(pairs@), "favorite"@)),
{
    let vs = all(pairs, "favorite");
    let ghost vv = vs@.map_values(|v: &str| v@);
    let mut r: Vec<String> = Vec::new();
    let mut i: usize = 0;
    assert(vv.take(0) =~= Seq::<Seq<char>>::empty());
    assert(string_views(r@) =~= Seq::<Seq<char>>::empty());
    while i < vs.len()
        invariant
            i <= vs@.len(),
            vv == vs@.map_values(|v: &str| v@),
            string_views(r@) == non_empty(vv.take(i as int)),
        decreases vs@.len() - i,
    {
        assert(vv.take(i + 1).drop_last() =~= vv.take(i as int));
        assert(vv.take(i + 1).last() == vs@[i as int]@);
        let v = vs[i];
        if !v.is_empty() {
            let ghost before = r@;
            r.push(v.to_owned());
            assert(string_views(r@) =~= string_views(before).push(v@));
        }
        i = i + 1;
    }
    assert(vv.take(vs@.len() as int) =~= vv);
    r
}

fn read_quiet(pairs: &[(String, String)]) -> (r: Result<Option<QuietHours>, String>)
    ensures
        same_result(r, quiet_result(pair_views(pairs@))),
{
    if !read_switch(pairs, "quiet_enabled") {
        return Ok(None);
    }
    let f = match field(pairs, "quiet_from") {
        Some(v) => v,
        None => "23:00",
    };
    let t = match field(pairs, "quiet_to") {
        Some(v) => v,
        None => "07:00",
    };
    let from = match time(f) {
        Ok(x) => x,
        Err(e) => return Err(e),
    };
    let to = match time(t) {
        Ok(x) => x,
        Err(e) => return Err(e),
    };
    let dim = match field(pairs, "quiet_look") {
        Some(v) => str_eq(v, "dim"),
        None => false,
    };
    Ok(Some(QuietHours { from, to, dim }))
}

fn kind_id_exec(k: WidgetKind) -> (s: &'static str)
    ensures
        s@ == kind_id(k),
{
    match k {
        WidgetKind::GameOfTheDay => "game_of_the_day",
        WidgetKind::Scores => "scores",
        WidgetKind::Standings => "standings",
        WidgetKind::Weather => "weather",
        WidgetKind::Fantasy => "fantasy",
        WidgetKind::Bracket => "bracket",
    }
}

fn kind_with_id_exec(v: &str) -> (r: Option<WidgetKind>)
    ensures
        r == kind_with_id(v@),
{
    if str_eq(v, "game_of_the_day") {
        Some(WidgetKind::GameOfTheDay)
    } else if str_eq(v, "scores") {
        Some(WidgetKind::Scores)
    } else if str_eq(v, "standings") {
        Some(WidgetKind::Standings)
    } else if str_eq(v, "weather") {
        Some(WidgetKind::Weather)
    } else if str_eq(v, "fantasy") {
        Some(WidgetKind::Fantasy)
    } else if str_eq(v, "bracket") {
        Some(WidgetKind::Bracket)
    } else {
        None
    }
}

fn slot_key_exec(i: usize) -> (k: String)
    ensures
        k@ == slot_key(i as nat),
{
    let mut k = "widget_".to_owned();
    push_dec(&mut k, i as u64);
    k
}

/// Slot `i`'s widget, once its field was sent.
fn read_slot(pairs: &[(String, String)], i: usize) -> (r: Result<(WidgetKind, Option<String>), String>)
    requires
        field_value(pair_views(pairs@), slot_key(i as nat)) is Some,
    ensures
        match r {
            Ok(w) => slot_value(pair_views(pairs@), i as nat) == Ok::<(WidgetKind, Option<Seq<char>>), Seq<char>>(
                (w.0, opt_chars(w.1)),
            ),
            Err(e) => slot_value(pair_views(pairs@), i as nat) == Err::<(WidgetKind, Option<Seq<char>>), Seq<char>>(
                e@,
            ),
        },
{
    let key = slot_key_exec(i);
    let v = match field(pairs, key.as_str()) {
        Some(v) => v,
        None => return Err(String::new()),
    };
    let k = match kind_with_id_exec(v) {
        Some(k) => k,
        None => return Err(unknown("unknown widget ", v)),
    };
    let mut okey = key;
    okey.append("_");
    okey.append(kind_id_exec(k));
    assert(okey@ == option_key(i as nat, k));
    let option = match field(pairs, okey.as_str()) {
        Some(o) => {
            let t = trimmed_text(o);
            if !t.as_str().is_empty() {
                Some(t)
            } else {
                None
            }
        },
        None => None,
    };
    Ok((k, option))
}

/// The widgets after the form, for a layout of `n` slots.
fn read_slots(pairs: &[(String, String)], n: usize, cur: &Vec<(WidgetKind, Option<String>)>) -> (r: Result<
    Vec<(WidgetKind, Option<String>)>,
    String,
>)
    requires
        n <= 3,
    ensures
        match r {
            Ok(ws) => (if all_slots_sent(pair_views(pairs@), n as nat) {
                slot_values(pair_views(pairs@), n as nat)
            } else {
                Ok(widget_views(cur@))
            }) == Ok::<Seq<(WidgetKind, Option<Seq<char>>)>, Seq<char>>(widget_views(ws@)),
            Err(e) => (if all_slots_sent(pair_views(pairs@), n as nat) {
                slot_values(pair_views(pairs@), n as nat)
            } else {
                Ok(widget_views(cur@))
            }) == Err::<Seq<(WidgetKind, Option<Seq<char>>)>, Seq<char>>(e@),
        },
{
    let ghost pv = pair_views(pairs@);
    let mut i: usize = 0;
    let mut all = true;
    while i < n
        invariant
            i <= n <= 3,
            pv == pair_views(pairs@),
            all == (forall|j: nat| j < i ==> #[trigger] field_value(pv, slot_key(j)) is Some),
        decreases n - i,
    {
        let key = slot_key_exec(i);
        if field(pairs, key.as_str()).is_none() {
            all = false;
        }
        i = i + 1;
    }
    if !all {
        let mut out: Vec<(WidgetKind, Option<String>)> = Vec::new();
        let mut k: usize = 0;
        while k < cur.len()
            invariant
                k <= cur@.len(),
                widget_views(out@) == widget_views(cur@.take(k as int)),
            decreases cur@.len() - k,
        {
            let o = match &cur[k].1 {
                Some(x) => Some(x.clone()),
                None => None,
            };
            let ghost before = out@;
            assert(opt_chars(o) == opt_chars(cur@[k as int].1));
            out.push((cur[k].0, o));
            assert(cur@.take(k + 1) =~= cur@.take(k as int).push(cur@[k as int]));
            assert(widget_views(out@) =~= widget_views(before).push((cur@[k as int].0, opt_chars(cur@[k as int].1))));
            assert(widget_views(out@) =~= widget_views(cur@.take(k + 1)));
            k = k + 1;
        }
        assert(cur@.take(cur@.len() as int) =~= cur@);
        return Ok(out);
    }
    let mut ws: Vec<(WidgetKind, Option<String>)> = Vec::new();
    let mut j: usize = 0;
    assert(widget_views(ws@) =~= Seq::<(WidgetKind, Option<Seq<char>>)>::empty());
    while j < n
        invariant
            j <= n <= 3,
            pv == pair_views(pairs@),
            all_slots_sent(pv, n as nat),
            slot_values(pv, j as nat) == Ok::<Seq<(WidgetKind, Option<Seq<char>>)>, Seq<char>>(widget_views(ws@)),
        decreases n - j,
    {
        assert(field_value(pv, slot_key(j as nat)) is Some);
        match read_slot(pairs, j) {
            Ok(w) => {
                let ghost before = ws@;
                ws.push(w);
                assert(widget_views(ws@) =~= widget_views(before).push((w.0, opt_chars(w.1))));
            },
            Err(e) => {
                proof {
                    lemma_slot_values_err(pv, j as nat + 1, n as nat);
                }
                return Err(e);
            },
        }
        j = j + 1;
    }
    Ok(ws)
}

/// Once a slot has a problem, the slots after it don't change the answer.
proof fn lemma_slot_values_err(pairs: Seq<(Seq<char>, Seq<char>)>, k: nat, n: nat)
    requires
        k <= n,
        slot_values(pairs, k) is Err,
    ensures
        slot_values(pairs, n) == slot_values(pairs, k),
    decreases n - k,
{
    if k < n {
        lemma_slot_values_err(pairs, k + 1, n);
    }
}

/// The rest of the form, once the leagues, takeovers, layout and widgets
/// were read.
fn apply_rest(
    current: &FormSettings,
    pairs: &[(String, String)],
    leagues: Vec<String>,
    takeovers: TakeoverPolicy,
    widget_layout: WidgetLayout,
    widgets: Vec<(WidgetKind, Option<String>)>,
) -> (r: Result<FormSettings, String>)
    ensures
        match r {
            Ok(s) => applied_rest(
                current@,
                pair_views(pairs@),
                string_views(leagues@),
                takeovers,
                widget_layout,
                widget_views(widgets@),
            ) == Ok::<SettingsView, Seq<char>>(s@),
            Err(e) => applied_rest(
                current@,
                pair_views(pairs@),
                string_views(leagues@),
                takeovers,
                widget_layout,
                widget_views(widgets@),
            ) == Err::<SettingsView, Seq<char>>(e@),
        },
{
    let scroll_mode = match read_scroll(pairs, current.scroll_mode) {
        Ok(x) => x,
        Err(e) => return Err(e),
    };
    let rows = match number(pairs, "ticker_rows", current.ticker_rows) {
        Ok(x) => x,
        Err(e) => return Err(e),
    };
    let resolution = match read_resolution(pairs, current.resolution) {
        Ok(x) => x,
        Err(e) => return Err(e),
    };
    let fps = match number(pairs, "max_fps", current.max_fps) {
        Ok(x) => x,
        Err(e) => return Err(e),
    };
    let units = match read_units(pairs, current.units) {
        Ok(x) => x,
        Err(e) => return Err(e),
    };
    let quiet_hours = match read_quiet(pairs) {
        Ok(x) => x,
        Err(e) => return Err(e),
    };
    let time_zone = match field(pairs, "time_zone") {
        Some(v) => Some(trimmed_text(v)),
        None => match &current.time_zone {
            Some(z) => Some(trimmed_text(z.as_str())),
            None => None,
        },
    };
    let ticker_rows = if rows < 9 {
        9
    } else if rows > 48 {
        48
    } else {
        rows
    };
    let max_fps: u16 = if fps <= 30 {
        30
    } else {
        60
    };
    let s = FormSettings {
        leagues,
        favorites: read_favorites(pairs),
        takeovers,
        widget_layout,
        widgets,
        scroll_mode,
        ticker_rows,
        resolution,
        max_fps,
        provider_logos: read_switch(pairs, "provider_logos"),
        show_odds: read_switch(pairs, "show_odds"),
        spotlight_auto: read_switch(pairs, "spotlight_auto"),
        spotlight_favorites: read_switch(pairs, "spotlight_favorites"),
        spotlight_primetime: read_switch(pairs, "spotlight_primetime"),
        spotlight_tracker: read_switch(pairs, "spotlight_tracker"),
        spotlight_game: read_non_empty_field(pairs, "spotlight_game"),
        weather_ticker: read_switch(pairs, "weather_ticker"),
        weather_alerts: read_switch(pairs, "weather_alerts"),
        units,
        time_zone,
        quiet_hours,
    };
    Ok(s)
}

/// The settings after applying the submitted form to `current`. Leagues
/// are the checked `league` values (each one supported), ordered by their
/// `order_<id>` fields; favorites the non-empty `favorite` values; a widget
/// per slot of the layout, when every slot's `widget_<i>` was sent, with
/// its option from `widget_<i>_<kind>`; choices
/// and numbers replace what's there when sent, and a bad one is reported
/// (the first, in the form's order); checkboxes are on when sent as "on";
/// the ticker's rows are kept within 9 to 48, the frame rate at 30 or
/// 60, and the time zone trimmed. Unknown fields are ignored.
#[verifier::rlimit(60)]
pub fn apply(current: &FormSettings, supported: &Vec<String>, pairs: &[(String, String)]) -> (r: Result<
    FormSettings,
    String,
>)
    ensures
        match r {
            Ok(s) => applied(current@, string_views(supported@), pair_views(pairs@)) == Ok::<
                SettingsView,
                Seq<char>,
            >(s@),
            Err(e) => applied(current@, string_views(supported@), pair_views(pairs@)) == Err::<
                SettingsView,
                Seq<char>,
            >(e@),
        },
{
    let leagues = match read_leagues(supported, pairs) {
        Ok(l) => l,
        Err(e) => return Err(e),
    };
    let takeovers = match read_takeovers(pairs, current.takeovers) {
        Ok(x) => x,
        Err(e) => return Err(e),
    };
    let widget_layout = match read_layout(pairs, current.widget_layout) {
        Ok(x) => x,
        Err(e) => return Err(e),
    };
    let widgets = match read_slots(pairs, widget_layout.slots(), &current.widgets) {
        Ok(x) => x,
        Err(e) => return Err(e),
    };
    apply_rest(current, pairs, leagues, takeovers, widget_layout, widgets)
}

} // verus!
