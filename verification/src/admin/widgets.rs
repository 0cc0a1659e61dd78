//! The admin page's "Widgets" section: a choice of layout, then a widget
//! per slot. The slot boxes follow the chosen layout with CSS alone;
//! dragging one onto another swaps them (admin.js). The widget kinds, with
//! their labels and options, are handed in as plain values.
use vstd::prelude::*;
use crate::admin::page::{checked, esc, escaped, selected};
use crate::admin::sections::checked_text;
use crate::config::{layout_id, layout_slots, WidgetLayout};
use crate::text::{dec, push_dec};

verus! {

pub const WIDGETS_START: &'static str = "<section class=\"widgets\"><h2>Widgets</h2><div class=\"layouts\">";

pub const SLOTS_START: &'static str =
    "</div><p class=\"hint js-only\">Drag a slot onto another to swap them.</p><div class=\"slots\" id=\"slots\">";

pub const WIDGETS_END: &'static str = "</div></section>";

/// A layout's label.
pub open spec fn layout_label(l: WidgetLayout) -> Seq<char> {
    match l {
        WidgetLayout::WideLeft => "Wide left"@,
        WidgetLayout::WideRight => "Wide right"@,
        WidgetLayout::Even => "Halves"@,
        WidgetLayout::Three => "Three"@,
        WidgetLayout::Single => "Single"@,
    }
}

/// A small picture of `n` slots.
pub open spec fn minis(n: nat) -> Seq<char>
    decreases n,
{
    if n == 0 {
        Seq::empty()
    } else {
        minis((n - 1) as nat) + "<i></i>"@
    }
}

/// One layout's choice, with a picture of its slots.
pub open spec fn layout_choice(l: WidgetLayout, cur: WidgetLayout) -> Seq<char> {
    "<label class=\"layout-choice\"><input type=\"radio\" name=\"widget_layout\" value=\""@ + layout_id(l) + "\""@
        + checked_text(l == cur) + "><span class=\"mini mini-"@ + layout_id(l) + "\">"@ + minis(layout_slots(l))
        + "</span>"@ + layout_label(l) + "</label>"@
}

/// "Widgets": the layouts, the current one checked, then the slots.
pub open spec fn widgets_text(cur: WidgetLayout, slots_html: Seq<char>) -> Seq<char> {
    WIDGETS_START@ + layout_choice(WidgetLayout::WideLeft, cur) + layout_choice(WidgetLayout::WideRight, cur)
        + layout_choice(WidgetLayout::Even, cur) + layout_choice(WidgetLayout::Three, cur) + layout_choice(
        WidgetLayout::Single,
        cur,
    ) + SLOTS_START@ + slots_html + WIDGETS_END@
}

fn push_layout_choice(h: &mut String, l: WidgetLayout, cur: WidgetLayout)
    ensures
        final(h)@ == old(h)@ + layout_choice(l, cur),
{
    h.append("<label class=\"layout-choice\"><input type=\"radio\" name=\"widget_layout\" value=\"");
    h.append(l.id());
    h.append("\"");
    h.append(checked(l == cur));
    h.append("><span class=\"mini mini-");
    h.append(l.id());
    h.append("\">");
    let ghost start = h@;
    let n = l.slots();
    let mut i: usize = 0;
    while i < n
        invariant
            i <= n,
            h@ == start + minis(i as nat),
        decreases n - i,
    {
        h.append("<i></i>");
        i = i + 1;
    }
    h.append("</span>");
    h.append(l.label());
    h.append("</label>");
    assert(final(h)@ =~= old(h)@ + layout_choice(l, cur));
}

/// "Widgets" for the admin page, with the slots' selects as `slots_html`.
pub fn widgets_section(cur: WidgetLayout, slots_html: &str) -> (h: String)
    ensures
        h@ == widgets_text(cur, slots_html@),
{
    let mut h = WIDGETS_START.to_owned();
    push_layout_choice(&mut h, WidgetLayout::WideLeft, cur);
    push_layout_choice(&mut h, WidgetLayout::WideRight, cur);
    push_layout_choice(&mut h, WidgetLayout::Even, cur);
    push_layout_choice(&mut h, WidgetLayout::Three, cur);
    push_layout_choice(&mut h, WidgetLayout::Single, cur);
    h.append(SLOTS_START);
    h.append(slots_html);
    h.append(WIDGETS_END);
    assert(h@ =~= widgets_text(cur, slots_html@));
    h
}

// ---------------------------------------------------------------------------
// The slots
// ---------------------------------------------------------------------------

/// A widget kind as the slots offer it: its id, its label, and its options
/// as (value, label) (none for a kind without options).
#[derive(Clone, Debug)]
pub struct WidgetKindChoice {
    pub id: String,
    pub label: String,
    pub options: Vec<(String, String)>,
}

/// The most slots any layout has.
pub const MOST_SLOTS: usize = 3;

/// The widget in slot `i`: the saved one, else the default for that slot
/// (game of the day, scores, standings in turn), as (kind id, option).
pub open spec fn slot_widget(
    saved: Seq<(String, Option<String>)>,
    fill: Seq<String>,
    i: int,
) -> (Seq<char>, Option<Seq<char>>) {
    if i < saved.len() {
        (saved[i].0@, match saved[i].1 {
            Some(o) => Some(o@),
            None => None,
        })
    } else {
        (fill[i % 3]@, None)
    }
}

/// " selected" when on.
pub open spec fn sel(on: bool) -> Seq<char> {
    if on {
        " selected"@
    } else {
        ""@
    }
}

/// The kind select's options, the slot's kind selected.
pub open spec fn kind_options(ks: Seq<WidgetKindChoice>, cur: Seq<char>) -> Seq<char>
    decreases ks.len(),
{
    if ks.len() == 0 {
        Seq::empty()
    } else {
        let k = ks.last();
        kind_options(ks.drop_last(), cur) + "<option value=\""@ + k.id@ + "\""@ + sel(k.id@ == cur) + ">"@ + k.label@
            + "</option>"@
    }
}

/// A kind's options, `chosen` selected.
pub open spec fn option_items(os: Seq<(String, String)>, chosen: Option<Seq<char>>) -> Seq<char>
    decreases os.len(),
{
    if os.len() == 0 {
        Seq::empty()
    } else {
        let o = os.last();
        option_items(os.drop_last(), chosen) + "<option value=\""@ + escaped(o.0@) + "\""@ + sel(
            chosen == Some(o.0@),
        ) + ">"@ + escaped(o.1@) + "</option>"@
    }
}

/// The option selects of slot `slot` (shown by CSS for the chosen kind),
/// one per kind with options; the slot's own option selected for its kind.
pub open spec fn option_selects(ks: Seq<WidgetKindChoice>, slot: nat, w: (Seq<char>, Option<Seq<char>>)) -> Seq<
    char,
>
    decreases ks.len(),
{
    if ks.len() == 0 {
        Seq::empty()
    } else {
        let k = ks.last();
        option_selects(ks.drop_last(), slot, w) + if k.options@.len() == 0 {
            Seq::empty()
        } else {
            "<select class=\"opt opt-"@ + k.id@ + "\" name=\"widget_"@ + dec(slot) + "_"@ + k.id@
                + "\" aria-label=\"Slot "@ + dec(slot + 1) + " "@ + k.label@ + "\">"@ + option_items(
                k.options@,
                if k.id@ == w.0 {
                    w.1
                } else {
                    None
                },
            ) + "</select>"@
        }
    }
}

/// One slot: its kind select and its option selects.
pub open spec fn slot_text(ks: Seq<WidgetKindChoice>, slot: nat, w: (Seq<char>, Option<Seq<char>>)) -> Seq<char> {
    "<div class=\"slot\"><span>Slot "@ + dec(slot + 1) + "</span><select class=\"kind\" name=\"widget_"@ + dec(slot)
        + "\" aria-label=\"Slot "@ + dec(slot + 1) + " widget\">"@ + kind_options(ks, w.0) + "</select>"@
        + option_selects(ks, slot, w) + "</div>"@
}

/// The first `n` slots.
pub open spec fn slots_text(
    ks: Seq<WidgetKindChoice>,
    saved: Seq<(String, Option<String>)>,
    fill: Seq<String>,
    n: nat,
) -> Seq<char>
    decreases n,
{
    if n == 0 {
        Seq::empty()
    } else {
        slots_text(ks, saved, fill, (n - 1) as nat) + slot_text(ks, (n - 1) as nat, slot_widget(saved, fill, n - 1))
    }
}

fn push_kind_options(h: &mut String, ks: &Vec<WidgetKindChoice>, cur: &String)
    ensures
        final(h)@ == old(h)@ + kind_options(ks@, cur@),
{
    let mut i: usize = 0;
    while i < ks.len()
        invariant
            i <= ks@.len(),
            h@ == old(h)@ + kind_options(ks@.take(i as int), cur@),
        decreases ks@.len() - i,
    {
        assert(ks@.take(i + 1).drop_last() =~= ks@.take(i as int));
        assert(ks@.take(i + 1).last() == ks@[i as int]);
        h.append("<option value=\"");
        h.append(ks[i].id.as_str());
        h.append("\"");
        h.append(selected(str_eq_strings(&ks[i].id, cur)));
        h.append(">");
        h.append(ks[i].label.as_str());
        h.append("</option>");
        assert(h@ =~= old(h)@ + kind_options(ks@.take(i + 1), cur@));
        i = i + 1;
    }
    assert(ks@.take(ks@.len() as int) =~= ks@);
}

fn str_eq_strings(a: &String, b: &String) -> (r: bool)
    ensures
        r == (a@ == b@),
{
    crate::config::str_eq(a.as_str(), b.as_str())
}

fn push_option_items(h: &mut String, os: &Vec<(String, String)>, chosen: &Option<String>)
    ensures
        final(h)@ == old(h)@ + option_items(os@, match chosen {
            Some(c) => Some(c@),
            None => None,
        }),
{
    let ghost cv = match chosen {
        Some(c) => Some(c@),
        None => None::<Seq<char>>,
    };
    let mut i: usize = 0;
    while i < os.len()
        invariant
            i <= os@.len(),
            cv == (match chosen {
                Some(c) => Some(c@),
                None => None::<Seq<char>>,
            }),
            h@ == old(h)@ + option_items(os@.take(i as int), cv),
        decreases os@.len() - i,
    {
        assert(os@.take(i + 1).drop_last() =~= os@.take(i as int));
        assert(os@.take(i + 1).last() == os@[i as int]);
        let on = match chosen {
            Some(c) => str_eq_strings(c, &os[i].0),
            None => false,
        };
        h.append("<option value=\"");
        h.append(esc(os[i].0.as_str()).as_str());
        h.append("\"");
        h.append(selected(on));
        h.append(">");
        h.append(esc(os[i].1.as_str()).as_str());
        h.append("</option>");
        assert(h@ =~= old(h)@ + option_items(os@.take(i + 1), cv));
        i = i + 1;
    }
    assert(os@.take(os@.len() as int) =~= os@);
}

fn push_option_select(h: &mut String, k: &WidgetKindChoice, slot: usize, kind: &String, option: &Option<String>)
    requires
        slot < MOST_SLOTS,
    ensures
        final(h)@ == old(h)@ + (if k.options@.len() == 0 {
            Seq::empty()
        } else {
            "<select class=\"opt opt-"@ + k.id@ + "\" name=\"widget_"@ + dec(slot as nat) + "_"@ + k.id@
                + "\" aria-label=\"Slot "@ + dec(slot as nat + 1) + " "@ + k.label@ + "\">"@ + option_items(
                k.options@,
                if k.id@ == kind@ {
                    match option {
                        Some(o) => Some(o@),
                        None => None,
                    }
                } else {
                    None
                },
            ) + "</select>"@
        }),
{
    if k.options.len() == 0 {
        assert(final(h)@ =~= old(h)@ + Seq::<char>::empty());
        return;
    }
    h.append("<select class=\"opt opt-");
    h.append(k.id.as_str());
    h.append("\" name=\"widget_");
    push_dec(h, slot as u64);
    h.append("_");
    h.append(k.id.as_str());
    h.append("\" aria-label=\"Slot ");
    push_dec(h, slot as u64 + 1);
    h.append(" ");
    h.append(k.label.as_str());
    h.append("\">");
    if str_eq_strings(&k.id, kind) {
        push_option_items(h, &k.options, option);
    } else {
        push_option_items(h, &k.options, &None);
    }
    h.append("</select>");
    assert(final(h)@ =~= old(h)@ + "<select class=\"opt opt-"@ + k.id@ + "\" name=\"widget_"@ + dec(slot as nat) + "_"@
        + k.id@ + "\" aria-label=\"Slot "@ + dec(slot as nat + 1) + " "@ + k.label@ + "\">"@ + option_items(
        k.options@,
        if k.id@ == kind@ {
            match option {
                Some(o) => Some(o@),
                None => None,
            }
        } else {
            None
        },
    ) + "</select>"@);
}

fn push_slot(h: &mut String, ks: &Vec<WidgetKindChoice>, slot: usize, kind: &String, option: &Option<String>)
    requires
        slot < MOST_SLOTS,
    ensures
        final(h)@ == old(h)@ + slot_text(ks@, slot as nat, (kind@, match option {
            Some(o) => Some(o@),
            None => None,
        })),
{
    let ghost w = (kind@, match option {
        Some(o) => Some(o@),
        None => None::<Seq<char>>,
    });
    h.append("<div class=\"slot\"><span>Slot ");
    push_dec(h, slot as u64 + 1);
    h.append("</span><select class=\"kind\" name=\"widget_");
    push_dec(h, slot as u64);
    h.append("\" aria-label=\"Slot ");
    push_dec(h, slot as u64 + 1);
    h.append(" widget\">");
    push_kind_options(h, ks, kind);
    h.append("</select>");
    let ghost mid = h@;
    let mut i: usize = 0;
    while i < ks.len()
        invariant
            i <= ks@.len(),
            slot < MOST_SLOTS,
            w == (kind@, match option {
                Some(o) => Some(o@),
                None => None::<Seq<char>>,
            }),
            h@ == mid + option_selects(ks@.take(i as int), slot as nat, w),
        decreases ks@.len() - i,
    {
        assert(ks@.take(i + 1).drop_last() =~= ks@.take(i as int));
        assert(ks@.take(i + 1).last() == ks@[i as int]);
        push_option_select(h, &ks[i], slot, kind, option);
        assert(h@ =~= mid + option_selects(ks@.take(i + 1), slot as nat, w));
        i = i + 1;
    }
    assert(ks@.take(ks@.len() as int) =~= ks@);
    h.append("</div>");
    assert(final(h)@ =~= old(h)@ + slot_text(ks@, slot as nat, w));
}

/// The widget slots, three of them (as many as the widest layout has):
/// each with a select of the widget kinds and, per kind with options, a
/// select of its options. `saved` are the saved widgets as (kind id,
/// option); slots past them show `fill0`, `fill1`, `fill2` (game of the
/// day, scores, standings) in turn.
pub fn widget_slots(
    kinds: &Vec<WidgetKindChoice>,
    saved: &Vec<(String, Option<String>)>,
    fill0: &String,
    fill1: &String,
    fill2: &String,
) -> (h: String)
    ensures
        h@ == slots_text(kinds@, saved@, seq![*fill0, *fill1, *fill2], MOST_SLOTS as nat),
{
    let ghost fill = seq![*fill0, *fill1, *fill2];
    let mut h = String::new();
    let mut slot: usize = 0;
    while slot < MOST_SLOTS
        invariant
            slot <= MOST_SLOTS,
            fill == seq![*fill0, *fill1, *fill2],
            h@ == slots_text(kinds@, saved@, fill, slot as nat),
        decreases MOST_SLOTS - slot,
    {
        let none: Option<String> = None;
        let (kind, option) = if slot < saved.len() {
            (&saved[slot].0, &saved[slot].1)
        } else if slot == 0 {
            (fill0, &none)
        } else if slot == 1 {
            (fill1, &none)
        } else {
            (fill2, &none)
        };
        assert((kind@, match *option {
            Some(o) => Some(o@),
            None => None::<Seq<char>>,
        }) == slot_widget(saved@, fill, slot as int));
        push_slot(&mut h, kinds, slot, kind, option);
        slot = slot + 1;
    }
    h
}

} // verus!
