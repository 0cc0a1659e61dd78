//! User-facing display settings: the scroll style, how the widget area is
//! split into slots, and the resolution the display draws at.

use vstd::prelude::*;
use crate::text::{all_digits, chars_eq, chars_of, dec, digit_value, digits_value, push_dec};

verus! {

/// Whether two texts are the same characters.
pub fn str_eq(a: &str, b: &str) -> (r: bool)
    ensures
        r == (a@ == b@),
{
    let x = chars_of(a);
    let y = chars_of(b);
    chars_eq(&x, &y)
}

#[derive(Clone, Copy, Debug, PartialEq, Eq, Structural)]
pub enum ScrollMode {
    /// Content jumps one LED column at a time, like a real sign.
    Stepped,
    /// LEDs cross-fade between columns for smoother motion.
    Smooth,
}

impl Default for ScrollMode {
    fn default() -> (m: ScrollMode)
        ensures
            m == ScrollMode::Stepped,
    {
        ScrollMode::Stepped
    }
}

/// How the widget area is split into slots.
#[derive(Clone, Copy, Debug, PartialEq, Eq, Structural)]
pub enum WidgetLayout {
    /// A big slot on the left, a smaller one on the right.
    WideLeft,
    /// A smaller slot on the left, a big one on the right.
    WideRight,
    /// Two equal halves.
    Even,
    /// Three equal columns.
    Three,
    /// One slot across the whole width.
    Single,
}

impl Default for WidgetLayout {
    fn default() -> (l: WidgetLayout)
        ensures
            l == WidgetLayout::WideLeft,
    {
        WidgetLayout::WideLeft
    }
}

/// The number of slots a layout has: two for the two-way splits, three for
/// three columns, one for a single slot.
pub open spec fn layout_slots(l: WidgetLayout) -> nat {
    match l {
        WidgetLayout::WideLeft | WidgetLayout::WideRight | WidgetLayout::Even => 2,
        WidgetLayout::Three => 3,
        WidgetLayout::Single => 1,
    }
}

/// The slots' widths, left to right, in 24ths of the widget area: a wide
/// slot takes five eighths and a narrow one three, halves and thirds take
/// equal shares, and a single slot the whole width.
pub open spec fn slot_widths(l: WidgetLayout) -> Seq<nat> {
    match l {
        WidgetLayout::WideLeft => seq![15, 9],
        WidgetLayout::WideRight => seq![9, 15],
        WidgetLayout::Even => seq![12, 12],
        WidgetLayout::Three => seq![8, 8, 8],
        WidgetLayout::Single => seq![24],
    }
}

/// The sum of `s`.
pub open spec fn total(s: Seq<nat>) -> nat
    decreases s.len(),
{
    if s.len() == 0 {
        0
    } else {
        total(s.drop_last()) + s.last()
    }
}

/// A layout has one slot per width it splits the widget area into; the
/// widths fill the area, none is empty, and the two wide-and-narrow
/// layouts are mirror images of each other.
pub proof fn law_one_slot_per_width(l: WidgetLayout)
    ensures
        layout_slots(l) == slot_widths(l).len(),
        total(slot_widths(l)) == 24,
        forall|i: int| 0 <= i < slot_widths(l).len() ==> #[trigger] slot_widths(l)[i] > 0,
        slot_widths(WidgetLayout::WideRight) == slot_widths(WidgetLayout::WideLeft).reverse(),
{
    reveal_with_fuel(total, 4);
    let w = slot_widths(l);
    assert(w.len() >= 1);
    if w.len() >= 2 {
        assert(w.drop_last().len() >= 1);
    }
    assert(seq![15nat, 9nat].reverse() =~= seq![9nat, 15nat]);
    match l {
        WidgetLayout::Three => {
            assert(w.drop_last() =~= seq![8nat, 8nat]);
            assert(w.drop_last().drop_last() =~= seq![8nat]);
            assert(w.drop_last().drop_last().drop_last() =~= Seq::<nat>::empty());
        },
        WidgetLayout::Single => {
            assert(w.drop_last() =~= Seq::<nat>::empty());
        },
        _ => {
            assert(w.drop_last() =~= seq![w[0]]);
            assert(w.drop_last().drop_last() =~= Seq::<nat>::empty());
        },
    }
}

/// The id a layout is saved and sent under.
pub open spec fn layout_id(l: WidgetLayout) -> Seq<char> {
    match l {
        WidgetLayout::WideLeft => "wide_left"@,
        WidgetLayout::WideRight => "wide_right"@,
        WidgetLayout::Even => "even"@,
        WidgetLayout::Three => "three"@,
        WidgetLayout::Single => "single"@,
    }
}

/// The layout whose id is `id`, if any.
pub open spec fn layout_with_id(id: Seq<char>) -> Option<WidgetLayout> {
    if id == "wide_left"@ {
        Some(WidgetLayout::WideLeft)
    } else if id == "wide_right"@ {
        Some(WidgetLayout::WideRight)
    } else if id == "even"@ {
        Some(WidgetLayout::Even)
    } else if id == "three"@ {
        Some(WidgetLayout::Three)
    } else if id == "single"@ {
        Some(WidgetLayout::Single)
    } else {
        None
    }
}

/// Each layout's id reads back as that layout, and an id names only the
/// layout it belongs to.
pub proof fn law_layout_ids_round_trip(l: WidgetLayout, id: Seq<char>)
    ensures
        layout_with_id(layout_id(l)) == Some(l),
        layout_with_id(id) == Some(l) ==> id == layout_id(l),
{
    reveal_strlit("wide_left");
    reveal_strlit("wide_right");
    reveal_strlit("even");
    reveal_strlit("three");
    reveal_strlit("single");
    assert("wide_left"@.len() == 9 && "wide_right"@.len() == 10 && "even"@.len() == 4);
    assert("three"@.len() == 5 && "single"@.len() == 6);
}

impl WidgetLayout {
    pub const ALL: [WidgetLayout; 5] = [
        WidgetLayout::WideLeft,
        WidgetLayout::WideRight,
        WidgetLayout::Even,
        WidgetLayout::Three,
        WidgetLayout::Single,
    ];

    /// The number of slots, left to right.
    pub fn slots(self) -> (n: usize)
        ensures
            n == layout_slots(self),
    {
        match self {
            WidgetLayout::WideLeft | WidgetLayout::WideRight | WidgetLayout::Even => 2,
            WidgetLayout::Three => 3,
            WidgetLayout::Single => 1,
        }
    }

    pub fn id(self) -> (s: &'static str)
        ensures
            s@ == layout_id(self),
    {
        match self {
            WidgetLayout::WideLeft => "wide_left",
            WidgetLayout::WideRight => "wide_right",
            WidgetLayout::Even => "even",
            WidgetLayout::Three => "three",
            WidgetLayout::Single => "single",
        }
    }

    pub fn label(self) -> (s: &'static str)
        ensures
            s@ == match self {
                WidgetLayout::WideLeft => "Wide left"@,
                WidgetLayout::WideRight => "Wide right"@,
                WidgetLayout::Even => "Halves"@,
                WidgetLayout::Three => "Three"@,
                WidgetLayout::Single => "Single"@,
            },
    {
        match self {
            WidgetLayout::WideLeft => "Wide left",
            WidgetLayout::WideRight => "Wide right",
            WidgetLayout::Even => "Halves",
            WidgetLayout::Three => "Three",
            WidgetLayout::Single => "Single",
        }
    }

    /// The layout with this id, if any.
    pub fn from_id(id: &str) -> (r: Option<WidgetLayout>)
        ensures
            r == layout_with_id(id@),
    {
        if str_eq(id, "wide_left") {
            Some(WidgetLayout::WideLeft)
        } else if str_eq(id, "wide_right") {
            Some(WidgetLayout::WideRight)
        } else if str_eq(id, "even") {
            Some(WidgetLayout::Even)
        } else if str_eq(id, "three") {
            Some(WidgetLayout::Three)
        } else if str_eq(id, "single") {
            Some(WidgetLayout::Single)
        } else {
            None
        }
    }
}

/// The resolution the display draws at.
#[derive(Clone, Copy, Debug, PartialEq, Eq, Structural)]
pub enum Resolution {
    /// The screen's own, but no more than 1080p (4K TVs get 1080p).
    Auto,
    /// The screen's own, whatever it is.
    Native,
    P2160,
    P1440,
    P1080,
    P720,
}

impl Default for Resolution {
    fn default() -> (r: Resolution)
        ensures
            r == Resolution::Auto,
    {
        Resolution::Auto
    }
}

/// The id a resolution is saved and sent under.
pub open spec fn resolution_id(r: Resolution) -> Seq<char> {
    match r {
        Resolution::Auto => "auto"@,
        Resolution::Native => "native"@,
        Resolution::P2160 => "2160p"@,
        Resolution::P1440 => "1440p"@,
        Resolution::P1080 => "1080p"@,
        Resolution::P720 => "720p"@,
    }
}

/// The resolution whose id is `id`, if any.
pub open spec fn resolution_with_id(id: Seq<char>) -> Option<Resolution> {
    if id == "auto"@ {
        Some(Resolution::Auto)
    } else if id == "2160p"@ {
        Some(Resolution::P2160)
    } else if id == "1440p"@ {
        Some(Resolution::P1440)
    } else if id == "1080p"@ {
        Some(Resolution::P1080)
    } else if id == "720p"@ {
        Some(Resolution::P720)
    } else if id == "native"@ {
        Some(Resolution::Native)
    } else {
        None
    }
}

/// The tallest drawing height, or `None` for the screen's own.
pub open spec fn height_limit(r: Resolution) -> Option<u32> {
    match r {
        Resolution::Auto | Resolution::P1080 => Some(1080),
        Resolution::Native => None,
        Resolution::P2160 => Some(2160),
        Resolution::P1440 => Some(1440),
        Resolution::P720 => Some(720),
    }
}

/// The screen size a resolution asks the TV for (none for the screen's
/// own).
pub open spec fn mode_size(r: Resolution) -> Option<Seq<char>> {
    match r {
        Resolution::Native => None,
        Resolution::P2160 => Some("3840x2160"@),
        Resolution::P1440 => Some("2560x1440"@),
        Resolution::Auto | Resolution::P1080 => Some("1920x1080"@),
        Resolution::P720 => Some("1280x720"@),
    }
}

/// The TV output mode for a resolution at `max_fps`: "native" for the
/// screen's own, else the size, "@" and the rate in decimal.
pub open spec fn tv_mode_text(r: Resolution, max_fps: u16) -> Seq<char> {
    match mode_size(r) {
        None => "native"@,
        Some(size) => size + "@"@ + dec(max_fps as nat),
    }
}

/// Each resolution's id reads back as that resolution, and an id names
/// only the resolution it belongs to.
pub proof fn law_resolution_ids_round_trip(r: Resolution, id: Seq<char>)
    ensures
        resolution_with_id(resolution_id(r)) == Some(r),
        resolution_with_id(id) == Some(r) ==> id == resolution_id(r),
{
    reveal_strlit("auto");
    reveal_strlit("native");
    reveal_strlit("2160p");
    reveal_strlit("1440p");
    reveal_strlit("1080p");
    reveal_strlit("720p");
    assert("auto"@.len() == 4 && "native"@.len() == 6 && "720p"@.len() == 4);
    assert("2160p"@.len() == 5 && "1440p"@.len() == 5 && "1080p"@.len() == 5);
    assert("auto"@[0] != "720p"@[0]);
    assert("2160p"@[0] != "1440p"@[0] && "2160p"@[0] != "1080p"@[0] && "1440p"@[1] != "1080p"@[1]);
}

/// Automatic draws at 1080p at most and asks the TV for the same mode as
/// 1080p; only the screen's own resolution has no height limit, and it is
/// the one that asks for "native".
pub proof fn law_automatic_is_1080p(fps: u16, r: Resolution)
    ensures
        height_limit(Resolution::Auto) == Some(1080u32),
        height_limit(Resolution::Auto) == height_limit(Resolution::P1080),
        tv_mode_text(Resolution::Auto, fps) == tv_mode_text(Resolution::P1080, fps),
        height_limit(r) is None <==> r == Resolution::Native,
        mode_size(r) is None <==> height_limit(r) is None,
{
}

/// The drawing height a fixed resolution allows is the height it is named
/// for and the height of the mode it asks the TV for: the number its id
/// writes before the "p", and the number after the "x" in its mode size.
/// Only the screen's own resolution has no limit.
pub proof fn law_height_limit_is_the_mode_height(r: Resolution)
    ensures
        r != Resolution::Native <==> height_limit(r) is Some,
        r != Resolution::Auto && r != Resolution::Native ==> ({
            let id = resolution_id(r);
            &&& id.len() > 1 && id.last() == 'p'
            &&& all_digits(id.drop_last())
            &&& height_limit(r) == Some(digits_value(id.drop_last()) as u32)
        }),
        height_limit(r) matches Some(h) ==> exists|j: int|
            {
                &&& 1 <= j <= mode_size(r)->0.len()
                &&& mode_size(r)->0[j - 1] == 'x'
                &&& all_digits(mode_size(r)->0.skip(j))
                &&& #[trigger] digits_value(mode_size(r)->0.skip(j)) == h
            },
{
    reveal_strlit("2160p");
    reveal_strlit("1440p");
    reveal_strlit("1080p");
    reveal_strlit("720p");
    reveal_strlit("3840x2160");
    reveal_strlit("2560x1440");
    reveal_strlit("1920x1080");
    reveal_strlit("1280x720");
    reveal_with_fuel(digits_value, 5);
    match r {
        Resolution::P2160 => {
            assert("2160p"@.drop_last() =~= seq!['2', '1', '6', '0']);
            assert(digits_value(seq!['2', '1', '6', '0']) == 2160) by {
                lemma_four_digits('2', '1', '6', '0');
            }
            let sz = "3840x2160"@;
            assert(sz.skip(5) =~= seq!['2', '1', '6', '0']);
            assert(sz[4] == 'x');
            assert(all_digits(sz.skip(5)));
            assert(digits_value(sz.skip(5)) == 2160);
            assert(mode_size(r)->0 == sz);
            assert(all_digits(mode_size(r)->0.skip(5)) && digits_value(mode_size(r)->0.skip(5)) == 2160);
        },
        Resolution::P1440 => {
            assert("1440p"@.drop_last() =~= seq!['1', '4', '4', '0']);
            assert(digits_value(seq!['1', '4', '4', '0']) == 1440) by {
                lemma_four_digits('1', '4', '4', '0');
            }
            let sz = "2560x1440"@;
            assert(sz.skip(5) =~= seq!['1', '4', '4', '0']);
            assert(sz[4] == 'x');
            assert(all_digits(sz.skip(5)));
            assert(digits_value(sz.skip(5)) == 1440);
            assert(mode_size(r)->0 == sz);
            assert(all_digits(mode_size(r)->0.skip(5)) && digits_value(mode_size(r)->0.skip(5)) == 1440);
        },
        Resolution::P1080 | Resolution::Auto => {
            assert("1080p"@.drop_last() =~= seq!['1', '0', '8', '0']);
            assert(digits_value(seq!['1', '0', '8', '0']) == 1080) by {
                lemma_four_digits('1', '0', '8', '0');
            }
            let sz = "1920x1080"@;
            assert(sz.skip(5) =~= seq!['1', '0', '8', '0']);
            assert(sz[4] == 'x');
            assert(all_digits(sz.skip(5)));
            assert(digits_value(sz.skip(5)) == 1080);
            assert(mode_size(r)->0 == sz);
            assert(all_digits(mode_size(r)->0.skip(5)) && digits_value(mode_size(r)->0.skip(5)) == 1080);
        },
        Resolution::P720 => {
            assert("720p"@.drop_last() =~= seq!['7', '2', '0']);
            let d = seq!['7', '2', '0'];
            assert(d.drop_last() =~= seq!['7', '2']);
            assert(d.drop_last().drop_last() =~= seq!['7']);
            assert(d.drop_last().drop_last().drop_last() =~= Seq::<char>::empty());
            assert(digits_value(d) == 720);
            let sz = "1280x720"@;
            assert(sz.skip(5) =~= d);
            assert(sz[4] == 'x');
            assert(all_digits(sz.skip(5)));
            assert(digits_value(sz.skip(5)) == 720);
            assert(mode_size(r)->0 == sz);
            assert(all_digits(mode_size(r)->0.skip(5)) && digits_value(mode_size(r)->0.skip(5)) == 720);
        },
        Resolution::Native => {},
    }
}

/// Four decimal digits read as their number.
proof fn lemma_four_digits(a: char, b: char, c: char, d: char)
    ensures
        digits_value(seq![a, b, c, d]) == ((digit_value(a) * 10 + digit_value(b)) * 10 + digit_value(c)) * 10
            + digit_value(d),
{
    let s = seq![a, b, c, d];
    assert(seq![a].drop_last() =~= Seq::<char>::empty());
    assert(digits_value(Seq::<char>::empty()) == 0);
    assert(seq![a].last() == a);
    assert(digits_value(seq![a]) == digits_value(seq![a].drop_last()) * 10 + digit_value(a));
    assert(digits_value(seq![a]) == digit_value(a));
    assert(seq![a, b].drop_last() =~= seq![a]);
    assert(digits_value(seq![a, b]) == digit_value(a) * 10 + digit_value(b));
    assert(seq![a, b, c].drop_last() =~= seq![a, b]);
    assert(digits_value(seq![a, b, c]) == digits_value(seq![a, b]) * 10 + digit_value(c));
    assert(s.drop_last() =~= seq![a, b, c]);
    assert(digits_value(s) == digits_value(seq![a, b, c]) * 10 + digit_value(d));
}

impl Resolution {
    pub const ALL: [Resolution; 6] = [
        Resolution::Auto,
        Resolution::P2160,
        Resolution::P1440,
        Resolution::P1080,
        Resolution::P720,
        Resolution::Native,
    ];

    pub fn id(self) -> (s: &'static str)
        ensures
            s@ == resolution_id(self),
    {
        match self {
            Resolution::Auto => "auto",
            Resolution::Native => "native",
            Resolution::P2160 => "2160p",
            Resolution::P1440 => "1440p",
            Resolution::P1080 => "1080p",
            Resolution::P720 => "720p",
        }
    }

    pub fn label(self) -> (s: &'static str)
        ensures
            s@ == match self {
                Resolution::Auto => "Automatic (1080p on a 4K TV)"@,
                Resolution::Native => "The screen's own"@,
                Resolution::P2160 => "4K (2160p)"@,
                Resolution::P1440 => "1440p"@,
                Resolution::P1080 => "1080p"@,
                Resolution::P720 => "720p"@,
            },
    {
        match self {
            Resolution::Auto => "Automatic (1080p on a 4K TV)",
            Resolution::Native => "The screen's own",
            Resolution::P2160 => "4K (2160p)",
            Resolution::P1440 => "1440p",
            Resolution::P1080 => "1080p",
            Resolution::P720 => "720p",
        }
    }

    /// The resolution with this id, if any.
    pub fn from_id(id: &str) -> (r: Option<Resolution>)
        ensures
            r == resolution_with_id(id@),
    {
        if str_eq(id, "auto") {
            Some(Resolution::Auto)
        } else if str_eq(id, "2160p") {
            Some(Resolution::P2160)
        } else if str_eq(id, "1440p") {
            Some(Resolution::P1440)
        } else if str_eq(id, "1080p") {
            Some(Resolution::P1080)
        } else if str_eq(id, "720p") {
            Some(Resolution::P720)
        } else if str_eq(id, "native") {
            Some(Resolution::Native)
        } else {
            None
        }
    }

    /// The TV output mode to ask the screen manager for: "1920x1080@60",
    /// or "native" for the screen's own. Automatic asks for 1080p.
    pub fn tv_mode(self, max_fps: u16) -> (s: String)
        ensures
            s@ == tv_mode_text(self, max_fps),
    {
        let size = match self {
            Resolution::Native => return "native".to_owned(),
            Resolution::P2160 => "3840x2160",
            Resolution::P1440 => "2560x1440",
            Resolution::Auto | Resolution::P1080 => "1920x1080",
            Resolution::P720 => "1280x720",
        };
        let mut s = size.to_owned();
        s.append("@");
        push_dec(&mut s, max_fps as u64);
        s
    }

    /// The tallest drawing height, or `None` for the screen's own.
    pub fn max_height(self) -> (h: Option<u32>)
        ensures
            h == height_limit(self),
    {
        match self {
            Resolution::Auto | Resolution::P1080 => Some(1080),
            Resolution::Native => None,
            Resolution::P2160 => Some(2160),
            Resolution::P1440 => Some(1440),
            Resolution::P720 => Some(720),
        }
    }
}

} // verus!
