//! The display's command-line values: window sizes, scripted scores, and
//! the layout and widget names.

use vstd::prelude::*;
use crate::config::{WidgetLayout, layout_with_id};
use crate::text::{
    chars_eq, copy_range, chars_of, debug_quoted, debug_text, digits_value, find_last, last_index,
    lemma_last_index, parse_unsigned, parse_unsigned_range, string_of_range, trim, trim_bounds,
    unsigned_body,
};

verus! {

/// A side of a game.
#[derive(Clone, Copy, Debug, PartialEq, Eq, Structural)]
pub enum HomeAway {
    Home,
    Away,
}

/// The first position of `x` or `X` in `s`, if any.
pub open spec fn size_separator(s: Seq<char>) -> Option<int>
    decreases s.len(),
{
    if s.len() == 0 {
        None
    } else if s[0] == 'x' || s[0] == 'X' {
        Some(0)
    } else {
        match size_separator(s.drop_first()) {
            Some(i) => Some(i + 1),
            None => None,
        }
    }
}

proof fn lemma_size_separator(s: Seq<char>)
    ensures
        match size_separator(s) {
            Some(i) => 0 <= i < s.len() && (s[i] == 'x' || s[i] == 'X') && forall|j: int|
                0 <= j < i ==> s[j] != 'x' && s[j] != 'X',
            None => forall|j: int| 0 <= j < s.len() ==> s[j] != 'x' && s[j] != 'X',
        },
    decreases s.len(),
{
    if s.len() > 0 && s[0] != 'x' && s[0] != 'X' {
        lemma_size_separator(s.drop_first());
        assert forall|j: int| 1 <= j < s.len() implies s[j] == s.drop_first()[j - 1] by {}
    }
}

/// A window size `WIDTHxHEIGHT` (or `X`), each side trimmed and read as a
/// whole number: 320 to 8192 wide and 240 to 8192 high.
pub open spec fn size_spec(s: Seq<char>) -> Result<(u32, u32), Seq<char>> {
    match size_separator(s) {
        None => Err("expected WIDTHxHEIGHT, e.g. 1366x768"@),
        Some(i) => match parse_unsigned(trim(s.take(i)), u32::MAX as nat) {
            None => Err("bad width"@),
            Some(w) => match parse_unsigned(trim(s.skip(i + 1)), u32::MAX as nat) {
                None => Err("bad height"@),
                Some(h) => if 320 <= w <= 8192 && 240 <= h <= 8192 {
                    Ok((w as u32, h as u32))
                } else {
                    Err("size out of range"@)
                },
            },
        },
    }
}

/// The text's result as a value, its error as characters.
pub open spec fn result_view<T>(r: Result<T, String>) -> Result<T, Seq<char>> {
    match r {
        Ok(v) => Ok(v),
        Err(e) => Err(e@),
    }
}

fn err<T>(msg: &str) -> (r: Result<T, String>)
    ensures
        result_view(r) == Err::<T, Seq<char>>(msg@),
{
    Err(msg.to_owned())
}

/// Reads a window size such as "1366x768".
pub fn parse_size(s: &str) -> (r: Result<(u32, u32), String>)
    ensures
        result_view(r) == size_spec(s@),
{
    let v = chars_of(s);
    proof {
        lemma_size_separator(v@);
    }
    let mut i: usize = 0;
    while i < v.len() && v[i] != 'x' && v[i] != 'X'
        invariant
            i <= v@.len(),
            forall|j: int| 0 <= j < i ==> v@[j] != 'x' && v@[j] != 'X',
        decreases v@.len() - i,
    {
        i = i + 1;
    }
    if i == v.len() {
        return err("expected WIDTHxHEIGHT, e.g. 1366x768");
    }
    assert(size_separator(v@) == Some(i as int));
    let (a, b) = trim_bounds(&v, 0, i);
    assert(v@.take(i as int) =~= v@.subrange(0, i as int));
    let w = match parse_unsigned_range(&v, a, b, 0xffff_ffff) {
        Some(w) => w as u32,
        None => return err("bad width"),
    };
    let (c, d) = trim_bounds(&v, i + 1, v.len());
    assert(v@.skip(i + 1) =~= v@.subrange(i + 1, v@.len() as int));
    let h = match parse_unsigned_range(&v, c, d, 0xffff_ffff) {
        Some(h) => h as u32,
        None => return err("bad height"),
    };
    if !(320 <= w && w <= 8192) || !(240 <= h && h <= 8192) {
        return err("size out of range");
    }
    Ok((w, h))
}

/// A scripted score `GAME_ID:home|away:POINTS`, split at its last two
/// colons (the game id may hold colons of its own).
pub open spec fn score_spec(s: Seq<char>) -> Result<(Seq<char>, HomeAway, u16), Seq<char>> {
    match last_index(s, ':') {
        None => Err("expected GAME_ID:home|away:POINTS, e.g. mock:nfl:1:home:7"@),
        Some(j) => match last_index(s.take(j), ':') {
            None => Err("expected GAME_ID:home|away:POINTS, e.g. mock:nfl:1:home:7"@),
            Some(i) => {
                let side = s.subrange(i + 1, j);
                if side != "home"@ && side != "away"@ {
                    Err("side must be home or away"@)
                } else {
                    match parse_unsigned(s.skip(j + 1), u16::MAX as nat) {
                        None => Err("points must be a whole number"@),
                        Some(p) => Ok(
                            (
                                s.take(i),
                                if side == "home"@ {
                                    HomeAway::Home
                                } else {
                                    HomeAway::Away
                                },
                                p as u16,
                            ),
                        ),
                    }
                }
            },
        },
    }
}

/// The result of reading a score, with the id as characters.
pub open spec fn score_view(r: Result<(String, HomeAway, u16), String>) -> Result<
    (Seq<char>, HomeAway, u16),
    Seq<char>,
> {
    match r {
        Ok((id, side, p)) => Ok((id@, side, p)),
        Err(e) => Err(e@),
    }
}

/// Reads a scripted score such as "mock:nfl:1:home:7".
pub fn parse_score(s: &str) -> (r: Result<(String, HomeAway, u16), String>)
    ensures
        score_view(r) == score_spec(s@),
{
    let v = chars_of(s);
    assert(v@.take(v@.len() as int) =~= v@);
    let j = match find_last(&v, v.len(), ':') {
        Some(j) => j,
        None => return err("expected GAME_ID:home|away:POINTS, e.g. mock:nfl:1:home:7"),
    };
    proof {
        lemma_last_index(v@, ':');
    }
    let i = match find_last(&v, j, ':') {
        Some(i) => i,
        None => return err("expected GAME_ID:home|away:POINTS, e.g. mock:nfl:1:home:7"),
    };
    proof {
        lemma_last_index(v@.take(j as int), ':');
    }
    let side_chars = copy_range(&v, i + 1, j);
    let side = if chars_eq(&side_chars, &chars_of("home")) {
        HomeAway::Home
    } else if chars_eq(&side_chars, &chars_of("away")) {
        HomeAway::Away
    } else {
        return err("side must be home or away");
    };
    assert(v@.skip(j + 1) =~= v@.subrange(j + 1, v@.len() as int));
    let points = match parse_unsigned_range(&v, j + 1, v.len(), 0xffff) {
        Some(p) => p as u16,
        None => return err("points must be a whole number"),
    };
    assert(v@.take(i as int) =~= v@.subrange(0, i as int));
    Ok((string_of_range(&v, 0, i), side, points))
}

/// Reads a widget layout name (trimmed).
pub fn parse_layout(s: &str) -> (r: Result<WidgetLayout, String>)
    ensures
        result_view(r) == match layout_with_id(trim(s@)) {
            Some(l) => Ok(l),
            None => Err("expected wide_left, wide_right, even, three or single"@),
        },
{
    let v = chars_of(s);
    let (a, b) = trim_bounds(&v, 0, v.len());
    assert(v@.subrange(0, v@.len() as int) =~= v@);
    let t = string_of_range(&v, a, b);
    match WidgetLayout::from_id(t.as_str()) {
        Some(l) => Ok(l),
        None => err("expected wide_left, wide_right, even, three or single"),
    }
}

/// A kind of widget for a slot.
#[derive(Clone, Copy, Debug, PartialEq, Eq, Structural)]
pub enum WidgetKind {
    GameOfTheDay,
    Scores,
    Standings,
    Weather,
    Fantasy,
    Bracket,
}

/// The widget a command-line name (trimmed) stands for.
pub open spec fn widget_named(t: Seq<char>) -> Option<WidgetKind> {
    if t == "game_of_the_day"@ || t == "gotd"@ {
        Some(WidgetKind::GameOfTheDay)
    } else if t == "scores"@ {
        Some(WidgetKind::Scores)
    } else if t == "standings"@ {
        Some(WidgetKind::Standings)
    } else if t == "weather"@ {
        Some(WidgetKind::Weather)
    } else if t == "fantasy"@ {
        Some(WidgetKind::Fantasy)
    } else if t == "bracket"@ {
        Some(WidgetKind::Bracket)
    } else {
        None
    }
}

/// Reads a widget name: the kinds' names (or "gotd" for game of the day),
/// else an error naming what was given and the choices.
pub fn parse_widget(s: &str) -> (r: Result<WidgetKind, String>)
    ensures
        result_view(r) == match widget_named(trim(s@)) {
            Some(k) => Ok(k),
            None => Err(
                "unknown widget "@ + debug_text(trim(s@))
                    + " (game_of_the_day, scores, standings, weather, fantasy, bracket)"@,
            ),
        },
{
    let v = chars_of(s);
    let (a, b) = trim_bounds(&v, 0, v.len());
    assert(v@.subrange(0, v@.len() as int) =~= v@);
    let t = copy_range(&v, a, b);
    if chars_eq(&t, &chars_of("game_of_the_day")) || chars_eq(&t, &chars_of("gotd")) {
        Ok(WidgetKind::GameOfTheDay)
    } else if chars_eq(&t, &chars_of("scores")) {
        Ok(WidgetKind::Scores)
    } else if chars_eq(&t, &chars_of("standings")) {
        Ok(WidgetKind::Standings)
    } else if chars_eq(&t, &chars_of("weather")) {
        Ok(WidgetKind::Weather)
    } else if chars_eq(&t, &chars_of("fantasy")) {
        Ok(WidgetKind::Fantasy)
    } else if chars_eq(&t, &chars_of("bracket")) {
        Ok(WidgetKind::Bracket)
    } else {
        let other = string_of_range(&v, a, b);
        let mut m = "unknown widget ".to_owned();
        m.append(debug_quoted(other.as_str()).as_str());
        m.append(" (game_of_the_day, scores, standings, weather, fantasy, bracket)");
        Err(m)
    }
}

} // verus!
