//! Reads the admin form (`application/x-www-form-urlencoded` pairs): a
//! field's value, every value sent under one name, and numbers.

use chrono::Timelike;
use vstd::prelude::*;
use crate::config::str_eq;
use crate::text::{
    chars_of, debug_quoted, debug_text, parse_i64_range, parse_signed, parse_unsigned,
    parse_unsigned_range, string_of, string_of_range, trim, trim_bounds, trimmed,
};

verus! {

/// The pairs as (name, value) characters.
pub open spec fn pair_views(pairs: Seq<(String, String)>) -> Seq<(Seq<char>, Seq<char>)> {
    pairs.map_values(|p: (String, String)| (p.0@, p.1@))
}

/// The value of the first pair named `key`, if any.
pub open spec fn field_value(pairs: Seq<(Seq<char>, Seq<char>)>, key: Seq<char>) -> Option<Seq<char>>
    decreases pairs.len(),
{
    if pairs.len() == 0 {
        None
    } else if pairs[0].0 == key {
        Some(pairs[0].1)
    } else {
        field_value(pairs.drop_first(), key)
    }
}

/// The values of every pair named `key`, in order.
pub open spec fn all_values(pairs: Seq<(Seq<char>, Seq<char>)>, key: Seq<char>) -> Seq<Seq<char>>
    decreases pairs.len(),
{
    if pairs.len() == 0 {
        Seq::empty()
    } else if pairs.last().0 == key {
        all_values(pairs.drop_last(), key).push(pairs.last().1)
    } else {
        all_values(pairs.drop_last(), key)
    }
}

/// The value of the first pair named `key`.
pub fn field<'a>(pairs: &'a [(String, String)], key: &str) -> (r: Option<&'a str>)
    ensures
        match r {
            Some(v) => field_value(pair_views(pairs@), key@) == Some(v@),
            None => field_value(pair_views(pairs@), key@) is None,
        },
{
    let k = key.to_owned();
    let mut i: usize = 0;
    assert(pair_views(pairs@).skip(0) =~= pair_views(pairs@));
    while i < pairs.len()
        invariant
            i <= pairs@.len(),
            k@ == key@,
            field_value(pair_views(pairs@), key@) == field_value(pair_views(pairs@).skip(i as int), key@),
        decreases pairs@.len() - i,
    {
        assert(pair_views(pairs@).skip(i as int).drop_first() =~= pair_views(pairs@).skip(i + 1));
        assert(pair_views(pairs@).skip(i as int)[0] == (pairs@[i as int].0@, pairs@[i as int].1@));
        if pairs[i].0 == k {
            return Some(pairs[i].1.as_str());
        }
        i = i + 1;
    }
    None
}

/// The values of every pair named `key`, in order.
pub fn all<'a>(pairs: &'a [(String, String)], key: &str) -> (r: Vec<&'a str>)
    ensures
        r@.map_values(|v: &str| v@) == all_values(pair_views(pairs@), key@),
{
    let k = key.to_owned();
    let mut r: Vec<&'a str> = Vec::new();
    let mut i: usize = 0;
    while i < pairs.len()
        invariant
            i <= pairs@.len(),
            k@ == key@,
            r@.map_values(|v: &str| v@) == all_values(pair_views(pairs@).take(i as int), key@),
        decreases pairs@.len() - i,
    {
        assert(pair_views(pairs@).take(i + 1).drop_last() =~= pair_views(pairs@).take(i as int));
        assert(pair_views(pairs@).take(i + 1).last() == (pairs@[i as int].0@, pairs@[i as int].1@));
        if pairs[i].0 == k {
            let ghost before = r@;
            r.push(pairs[i].1.as_str());
            assert(r@.map_values(|v: &str| v@) =~= before.map_values(|v: &str| v@).push(pairs@[i as int].1@));
        }
        i = i + 1;
    }
    assert(pair_views(pairs@).take(pairs@.len() as int) =~= pair_views(pairs@));
    r
}

/// A whole number type the admin form reads, as `FromStr` reads it.
pub trait FormNumber: Sized + Copy {
    /// The number `s` writes, if it is one of this type.
    spec fn parsed(s: Seq<char>) -> Option<Self>;

    /// Reads `v[lo..hi]`.
    fn parse_chars(v: &Vec<char>, lo: usize, hi: usize) -> (r: Option<Self>)
        requires
            lo <= hi <= v@.len(),
        ensures
            r == Self::parsed(v@.subrange(lo as int, hi as int)),
    ;
}

impl FormNumber for u16 {
    open spec fn parsed(s: Seq<char>) -> Option<u16> {
        match parse_unsigned(s, u16::MAX as nat) {
            Some(n) => Some(n as u16),
            None => None,
        }
    }

    fn parse_chars(v: &Vec<char>, lo: usize, hi: usize) -> (r: Option<u16>) {
        match parse_unsigned_range(v, lo, hi, 0xffff) {
            Some(n) => Some(n as u16),
            None => None,
        }
    }
}

impl FormNumber for u32 {
    open spec fn parsed(s: Seq<char>) -> Option<u32> {
        match parse_unsigned(s, u32::MAX as nat) {
            Some(n) => Some(n as u32),
            None => None,
        }
    }

    fn parse_chars(v: &Vec<char>, lo: usize, hi: usize) -> (r: Option<u32>) {
        match parse_unsigned_range(v, lo, hi, 0xffff_ffff) {
            Some(n) => Some(n as u32),
            None => None,
        }
    }
}

impl FormNumber for i64 {
    open spec fn parsed(s: Seq<char>) -> Option<i64> {
        match parse_signed(s, i64::MIN as int, i64::MAX as int) {
            Some(n) => Some(n as i64),
            None => None,
        }
    }

    fn parse_chars(v: &Vec<char>, lo: usize, hi: usize) -> (r: Option<i64>) {
        parse_i64_range(v, lo, hi)
    }
}

/// A number field: `current` when it's absent or blank, else the trimmed
/// value read as a number, or an error naming the field and the value.
pub open spec fn number_value<T: FormNumber>(
    pairs: Seq<(Seq<char>, Seq<char>)>,
    key: Seq<char>,
    current: T,
) -> Result<T, Seq<char>> {
    match field_value(pairs, key) {
        None => Ok(current),
        Some(v) => if trim(v).len() == 0 {
            Ok(current)
        } else {
            match T::parsed(trim(v)) {
                Some(n) => Ok(n),
                None => Err(key + ": "@ + debug_text(trim(v)) + " is not a number"@),
            }
        },
    }
}

/// Reads the number field `key`, keeping `current` when it's absent or
/// blank.
pub fn number<T: FormNumber>(pairs: &[(String, String)], key: &str, current: T) -> (r: Result<
    T,
    String,
>)
    ensures
        match r {
            Ok(n) => number_value(pair_views(pairs@), key@, current) == Ok::<T, Seq<char>>(n),
            Err(e) => number_value(pair_views(pairs@), key@, current) == Err::<T, Seq<char>>(e@),
        },
{
    let v = match field(pairs, key) {
        None => return Ok(current),
        Some(v) => chars_of(v),
    };
    let (a, b) = trim_bounds(&v, 0, v.len());
    assert(v@.subrange(0, v@.len() as int) =~= v@);
    if a == b {
        return Ok(current);
    }
    match T::parse_chars(&v, a, b) {
        Some(n) => Ok(n),
        None => {
            let t = string_of_range(&v, a, b);
            let mut m = key.to_owned();
            m.append(": ");
            m.append(debug_quoted(t.as_str()).as_str());
            m.append(" is not a number");
            Err(m)
        },
    }
}

/// What to do with the weather location field, with `P` the place it
/// names by coordinates.
pub enum LocationChange<P> {
    Keep,
    Clear,
    SetTo(P),
    /// A place name to look up.
    Lookup(String),
}

/// The location field's trimmed text, when it was sent.
pub open spec fn location_value(pairs: Seq<(Seq<char>, Seq<char>)>) -> Option<Seq<char>> {
    match field_value(pairs, "location"@) {
        Some(v) => Some(trim(v)),
        None => None,
    }
}

/// The location field's trimmed text, when it was sent.
pub fn location_text(pairs: &[(String, String)]) -> (r: Option<String>)
    ensures
        match r {
            Some(t) => location_value(pair_views(pairs@)) == Some(t@),
            None => location_value(pair_views(pairs@)) is None,
        },
{
    match field(pairs, "location") {
        None => None,
        Some(v) => Some(string_of(&trimmed(&chars_of(v)))),
    }
}

/// Reads the `location` field: absent or the current place's name keeps
/// it, blank clears it, coordinates set it directly, anything else is
/// looked up. `coordinates` is the place the field's trimmed text gives
/// as "lat, lon", when it is one.
pub fn location<P>(pairs: &[(String, String)], current_name: Option<&str>, coordinates: Option<P>) -> (r:
    LocationChange<P>)
    ensures
        match location_value(pair_views(pairs@)) {
            None => r is Keep,
            Some(v) => if v.len() == 0 {
                r is Clear
            } else if current_name is Some && current_name->0@ == v {
                r is Keep
            } else {
                match coordinates {
                    Some(p) => r == LocationChange::SetTo(p),
                    None => r matches LocationChange::Lookup(t) && t@ == v,
                }
            },
        },
{
    let t = match field(pairs, "location") {
        None => return LocationChange::Keep,
        Some(v) => trimmed(&chars_of(v)),
    };
    if t.len() == 0 {
        return LocationChange::Clear;
    }
    let v = string_of(&t);
    if let Some(name) = current_name {
        if str_eq(name, v.as_str()) {
            return LocationChange::Keep;
        }
    }
    match coordinates {
        Some(p) => LocationChange::SetTo(p),
        None => LocationChange::Lookup(v),
    }
}

/// The hour and minute that `chrono::NaiveTime::parse_from_str` reads from
/// a text with the format `"%H:%M"`, or none when it reads no time.
pub uninterp spec fn hh_mm(s: Seq<char>) -> Option<(u32, u32)>;

/// `chrono::NaiveTime::parse_from_str(s, "%H:%M")`, as hour and minute.
/// Which texts chrono's format parser accepts is not restated: the result
/// is named [`hh_mm`] of the text. chrono documents the hour as 0 to 23 and
/// the minute as 0 to 59, and that is stated.
#[verifier::external_body]
fn parse_hh_mm(s: &str) -> (r: Option<(u32, u32)>)
    ensures
        r == hh_mm(s@),
        r matches Some((h, m)) ==> h < 24 && m < 60,
{
    chrono::NaiveTime::parse_from_str(s, "%H:%M").ok().map(|t| (t.hour(), t.minute()))
}

/// A quiet-hours field: the time read from its trimmed text, or an error
/// quoting the text as it was sent.
pub open spec fn time_value(v: Seq<char>, parsed: Option<(u32, u32)>) -> Result<(u32, u32), Seq<char>> {
    match parsed {
        Some(t) => Ok(t),
        None => Err(debug_text(v) + " is not a time (HH:MM)"@),
    }
}

/// The answer for the time field `v` once its trimmed text has been read
/// as `parsed`.
pub fn time_from(v: &str, parsed: Option<(u32, u32)>) -> (r: Result<(u32, u32), String>)
    ensures
        match r {
            Ok(t) => time_value(v@, parsed) == Ok::<(u32, u32), Seq<char>>(t),
            Err(e) => time_value(v@, parsed) == Err::<(u32, u32), Seq<char>>(e@),
        },
{
    match parsed {
        Some(t) => Ok(t),
        None => {
            let mut m = debug_quoted(v);
            m.append(" is not a time (HH:MM)");
            Err(m)
        },
    }
}

/// Reads a quiet-hours time ("HH:MM", surrounding blanks ignored) as hour
/// and minute.
pub fn time(v: &str) -> (r: Result<(u32, u32), String>)
    ensures
        match r {
            Ok(t) => time_value(v@, hh_mm(trim(v@))) == Ok::<(u32, u32), Seq<char>>(t),
            Err(e) => time_value(v@, hh_mm(trim(v@))) == Err::<(u32, u32), Seq<char>>(e@),
        },
{
    let c = chars_of(v);
    let (a, b) = trim_bounds(&c, 0, c.len());
    assert(c@.subrange(0, c@.len() as int) =~= c@);
    let t = string_of_range(&c, a, b);
    let parsed = parse_hh_mm(t.as_str());
    time_from(v, parsed)
}

} // verus!
