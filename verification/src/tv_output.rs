//! The TV's output mode. Marqueet runs confined and can't change the
//! screen's mode itself, so it writes the mode it wants (from the admin
//! page's resolution and frame rate) into its data folder, where a small
//! helper outside the snap applies the closest mode the TV offers and writes
//! back what it did. This module holds the formats of those two files; the
//! reading and writing stand with the program.

use vstd::prelude::*;
use crate::config::{Resolution, tv_mode_text};
use crate::text::{
    char_views, chars_eq, chars_of, copy_range, find_char, push_char, push_range, split, split_chars, string_of,
    string_of_range, string_views, trim, trim_bounds, trimmed, starts_at, lemma_trim_trimmed, lemma_split_pieces,
};

verus! {

/// What the helper last did: the mode applied and the modes the TV offers.
#[derive(Clone, Debug, PartialEq, Eq)]
pub struct Status {
    pub applied: String,
    pub modes: Vec<String>,
}

/// The value of `key` on one status line: the line, trimmed, is `key`,
/// `=` and the value.
pub open spec fn line_value(line: Seq<char>, key: Seq<char>) -> Option<Seq<char>> {
    let t = trim(line);
    if t.len() > key.len() && t.take(key.len() as int) == key && t[key.len() as int] == '=' {
        Some(t.skip(key.len() as int + 1))
    } else {
        None
    }
}

/// The value of `key` on the first line that has one.
pub open spec fn first_value(lines: Seq<Seq<char>>, key: Seq<char>) -> Option<Seq<char>>
    decreases lines.len(),
{
    if lines.len() == 0 {
        None
    } else {
        match line_value(lines[0], key) {
            Some(v) => Some(v),
            None => first_value(lines.drop_first(), key),
        }
    }
}

/// The trimmed, non-empty pieces of a comma list.
pub open spec fn list_items(pieces: Seq<Seq<char>>) -> Seq<Seq<char>>
    decreases pieces.len(),
{
    if pieces.len() == 0 {
        Seq::empty()
    } else if trim(pieces.last()).len() == 0 {
        list_items(pieces.drop_last())
    } else {
        list_items(pieces.drop_last()).push(trim(pieces.last()))
    }
}

/// The helper's status file read as (applied mode, offered modes): the
/// `applied=` line's value, trimmed, which must not be empty, and the
/// `modes=` line's comma list (none without that line).
pub open spec fn status_of(text: Seq<char>) -> Option<(Seq<char>, Seq<Seq<char>>)> {
    let lines = split(text, '\n');
    match first_value(lines, "applied"@) {
        None => None,
        Some(a) => if trim(a).len() == 0 {
            None
        } else {
            Some(
                (
                    trim(a),
                    match first_value(lines, "modes"@) {
                        Some(m) => list_items(split(m, ',')),
                        None => Seq::empty(),
                    },
                ),
            )
        },
    }
}

/// The value of `key` on one line, as a position in the line.
fn line_value_at(line: &Vec<char>, key: &Vec<char>) -> (r: Option<(usize, usize)>)
    ensures
        match r {
            Some((a, b)) => a <= b <= line@.len() && line_value(line@, key@) == Some(
                line@.subrange(a as int, b as int),
            ),
            None => line_value(line@, key@) is None,
        },
{
    let (a, b) = trim_bounds(line, 0, line.len());
    let ghost t = line@.subrange(a as int, b as int);
    assert(line@.subrange(0, line@.len() as int) =~= line@);
    if b - a > key.len() && starts_at(line, a, key) && line[a + key.len()] == '=' {
        assert(t.take(key@.len() as int) =~= line@.subrange(a as int, a + key@.len()));
        assert(t.skip(key@.len() as int + 1) =~= line@.subrange(a + key@.len() + 1, b as int));
        Some((a + key.len() + 1, b))
    } else {
        proof {
            if t.len() > key@.len() && t.take(key@.len() as int) == key@ {
                assert(t.take(key@.len() as int) =~= line@.subrange(a as int, a + key@.len()));
                assert(t[key@.len() as int] == line@[a + key@.len()]);
            }
        }
        None
    }
}

/// The value of `key` on the first line that has one.
fn find_value(lines: &Vec<Vec<char>>, key: &Vec<char>) -> (r: Option<Vec<char>>)
    ensures
        match r {
            Some(v) => first_value(char_views(lines@), key@) == Some(v@),
            None => first_value(char_views(lines@), key@) is None,
        },
{
    let mut i: usize = 0;
    assert(char_views(lines@).skip(0) =~= char_views(lines@));
    while i < lines.len()
        invariant
            i <= lines@.len(),
            first_value(char_views(lines@), key@) == first_value(char_views(lines@).skip(i as int), key@),
        decreases lines@.len() - i,
    {
        let ghost rest = char_views(lines@).skip(i as int);
        assert(rest[0] == lines@[i as int]@);
        assert(rest.drop_first() =~= char_views(lines@).skip(i + 1));
        match line_value_at(&lines[i], key) {
            Some((a, b)) => {
                let v = copy_range(&lines[i], a, b);
                return Some(v);
            },
            None => {},
        }
        i = i + 1;
    }
    None
}

/// The trimmed, non-empty items of a comma list.
fn items(v: &Vec<char>) -> (r: Vec<String>)
    ensures
        string_views(r@) == list_items(split(v@, ',')),
{
    let pieces = split_chars(v, ',');
    let mut r: Vec<String> = Vec::new();
    let mut i: usize = 0;
    while i < pieces.len()
        invariant
            i <= pieces@.len(),
            char_views(pieces@) == split(v@, ','),
            string_views(r@) == list_items(char_views(pieces@).take(i as int)),
        decreases pieces@.len() - i,
    {
        let ghost pre = char_views(pieces@).take(i as int);
        assert(char_views(pieces@).take(i + 1).drop_last() =~= pre);
        assert(char_views(pieces@).take(i + 1).last() == pieces@[i as int]@);
        let (a, b) = trim_bounds(&pieces[i], 0, pieces[i].len());
        assert(pieces@[i as int]@.subrange(0, pieces@[i as int]@.len() as int) =~= pieces@[i as int]@);
        if a < b {
            let item = string_of_range(&pieces[i], a, b);
            let ghost before = r@;
            r.push(item);
            assert(string_views(r@) =~= string_views(before).push(item@));
        }
        i = i + 1;
    }
    assert(char_views(pieces@).take(pieces@.len() as int) =~= char_views(pieces@));
    r
}

/// Reads `applied=1920x1080@60.0` and `modes=3840x2160@30.0,...` lines.
pub fn parse(text: &str) -> (r: Option<Status>)
    ensures
        match r {
            Some(s) => status_of(text@) == Some((s.applied@, string_views(s.modes@))),
            None => status_of(text@) is None,
        },
{
    let chars = chars_of(text);
    let lines = split_chars(&chars, '\n');
    let applied_key = chars_of("applied");
    let modes_key = chars_of("modes");
    let applied = match find_value(&lines, &applied_key) {
        Some(a) => a,
        None => return None,
    };
    let applied = trimmed(&applied);
    if applied.len() == 0 {
        return None;
    }
    let modes = match find_value(&lines, &modes_key) {
        Some(m) => items(&m),
        None => {
            let e: Vec<String> = Vec::new();
            assert(string_views(e@) =~= Seq::<Seq<char>>::empty());
            e
        },
    };
    Some(Status { applied: string_of(&applied), modes })
}

/// What to write to the request file for `resolution` at `max_fps`, given
/// what the file holds now (if it could be read): nothing when it already
/// asks for that mode (trimmed), else the mode and a line end.
pub fn request_text(current: Option<&str>, resolution: Resolution, max_fps: u16) -> (r: Option<
    String,
>)
    ensures
        r is None <==> (match current {
            Some(c) => trim(c@) == tv_mode_text(resolution, max_fps),
            None => false,
        }),
        r matches Some(t) ==> t@ == tv_mode_text(resolution, max_fps).push('\n'),
{
    let want = resolution.tv_mode(max_fps);
    if let Some(now) = current {
        let now = trimmed(&chars_of(now));
        let w = chars_of(want.as_str());
        if chars_eq(&now, &w) {
            return None;
        }
    }
    let mut t = want;
    push_char(&mut t, '\n');
    Some(t)
}

/// "1920x1080@60.0" as "1920×1080 at 60 Hz": the size with `×` for each
/// `x`, and the rate without its trailing `.0`s.
pub open spec fn description(mode: Seq<char>) -> Seq<char> {
    match first_index(mode, '@') {
        Some(i) => replace_char(mode.take(i), 'x', '×') + " at "@ + strip_all_suffix(
            mode.skip(i + 1),
            ".0"@,
        ) + " Hz"@,
        None => mode,
    }
}

/// The first position of `c` in `s`, if any.
pub open spec fn first_index(s: Seq<char>, c: char) -> Option<int>
    decreases s.len(),
{
    if s.len() == 0 {
        None
    } else if s[0] == c {
        Some(0)
    } else {
        match first_index(s.drop_first(), c) {
            Some(i) => Some(i + 1),
            None => None,
        }
    }
}

/// `s` with every `from` replaced by `to`.
pub open spec fn replace_char(s: Seq<char>, from: char, to: char) -> Seq<char> {
    s.map_values(|c: char| if c == from { to } else { c })
}

/// `s` with `suffix` taken off its end as many times as it's there, as
/// `str::trim_end_matches` does.
pub open spec fn strip_all_suffix(s: Seq<char>, suffix: Seq<char>) -> Seq<char>
    decreases s.len(),
{
    if suffix.len() > 0 && s.len() >= suffix.len() && s.skip(s.len() - suffix.len()) == suffix {
        strip_all_suffix(s.take(s.len() - suffix.len()), suffix)
    } else {
        s
    }
}

proof fn lemma_first_index(s: Seq<char>, c: char)
    ensures
        match first_index(s, c) {
            Some(i) => 0 <= i < s.len() && s[i] == c && forall|j: int| 0 <= j < i ==> s[j] != c,
            None => forall|j: int| 0 <= j < s.len() ==> s[j] != c,
        },
    decreases s.len(),
{
    if s.len() > 0 && s[0] != c {
        lemma_first_index(s.drop_first(), c);
        assert forall|j: int| 1 <= j < s.len() implies s[j] == s.drop_first()[j - 1] by {}
    }
}

proof fn lemma_first_index_at(s: Seq<char>, c: char, i: int)
    requires
        0 <= i < s.len(),
        s[i] == c,
        forall|j: int| 0 <= j < i ==> s[j] != c,
    ensures
        first_index(s, c) == Some(i),
{
    lemma_first_index(s, c);
}

/// "1920x1080@60.0" as "1920×1080 at 60 Hz".
pub fn describe(mode: &str) -> (r: String)
    ensures
        r@ == description(mode@),
{
    let v = chars_of(mode);
    proof {
        lemma_first_index(v@, '@');
    }
    match find_char(&v, 0, '@') {
        Some(i) => {
            proof {
                lemma_first_index_at(v@, '@', i as int);
            }
            let n = v.len();
            let mut out = String::new();
            let mut k: usize = 0;
            while k < i
                invariant
                    n == v@.len(),
                    k <= i < v@.len(),
                    out@ == replace_char(v@.take(k as int), 'x', '×'),
                decreases i - k,
            {
                let c = v[k];
                push_char(&mut out, if c == 'x' { '×' } else { c });
                assert(replace_char(v@.take(k + 1), 'x', '×') =~= replace_char(v@.take(k as int), 'x', '×').push(if c == 'x' { '×' } else { c }));
                k = k + 1;
            }
            out.append(" at ");
            let end = strip_suffix_end(&v, i + 1, v.len());
            push_range(&mut out, &v, i + 1, end);
            out.append(" Hz");
            assert(v@.skip(i + 1) =~= v@.subrange(i + 1, v@.len() as int));
            out
        },
        None => {
            let out = string_of(&v);
            out
        },
    }
}

/// The end of `v[lo..hi]` once every trailing ".0" is taken off.
fn strip_suffix_end(v: &Vec<char>, lo: usize, hi: usize) -> (end: usize)
    requires
        lo <= hi <= v@.len(),
    ensures
        lo <= end <= hi,
        v@.subrange(lo as int, end as int) == strip_all_suffix(v@.subrange(lo as int, hi as int), ".0"@),
{
    proof {
        reveal_strlit(".0");
    }
    let mut end = hi;
    while end - lo >= 2 && v[end - 2] == '.' && v[end - 1] == '0'
        invariant
            lo <= end <= hi <= v@.len(),
            strip_all_suffix(v@.subrange(lo as int, hi as int), ".0"@) == strip_all_suffix(
                v@.subrange(lo as int, end as int),
                ".0"@,
            ),
        decreases end - lo,
    {
        let ghost s = v@.subrange(lo as int, end as int);
        proof {
            reveal_strlit(".0");
        }
        assert(s.skip(s.len() - 2) =~= ".0"@);
        assert(s.take(s.len() - 2) =~= v@.subrange(lo as int, end - 2));
        end = end - 2;
    }
    proof {
        let s = v@.subrange(lo as int, end as int);
        if s.len() >= 2 && s.skip(s.len() - 2) == ".0"@ {
            assert(s.skip(s.len() - 2)[0] == v@[end - 2]);
            assert(s.skip(s.len() - 2)[1] == v@[end - 1]);
        }
    }
    end
}

/// Every item of a comma list is trimmed, not empty, and holds no comma.
proof fn lemma_list_items(pieces: Seq<Seq<char>>)
    requires
        forall|i: int, j: int| 0 <= i < pieces.len() && 0 <= j < pieces[i].len() ==> #[trigger] pieces[i][j] != ',',
    ensures
        forall|i: int| 0 <= i < list_items(pieces).len() ==> clean_item(#[trigger] list_items(pieces)[i]),
    decreases pieces.len(),
{
    if pieces.len() > 0 {
        let d = pieces.drop_last();
        assert forall|i: int, j: int| 0 <= i < d.len() && 0 <= j < d[i].len() implies #[trigger] d[i][j] != ',' by {
            assert(d[i] == pieces[i]);
        }
        lemma_list_items(d);
        let rest = list_items(d);
        let p = pieces.last();
        lemma_trim_trimmed(p);
        let t = trim(p);
        assert forall|j: int| 0 <= j < t.len() implies t[j] != ',' by {
            let k = choose|k: int| 0 <= k < p.len() && p[k] == t[j];
            assert(pieces[pieces.len() - 1][k] == p[k]);
        }
        let l = list_items(pieces);
        assert forall|i: int| 0 <= i < l.len() implies clean_item(#[trigger] l[i]) by {
            if i < rest.len() {
                assert(l[i] == rest[i]);
            } else {
                assert(l[i] == t);
            }
        }
    }
}

/// A mode as the status reads it: trimmed, not empty, and without commas.
pub open spec fn clean_item(m: Seq<char>) -> bool {
    m.len() > 0 && trim(m) == m && forall|j: int| 0 <= j < m.len() ==> m[j] != ','
}

/// A status that reads at all has a mode applied, trimmed and not empty,
/// and offered modes that are each trimmed, not empty and without commas.
pub proof fn law_status_items_are_clean(text: Seq<char>)
    ensures
        status_of(text) matches Some((a, ms)) ==> a.len() > 0 && trim(a) == a && forall|i: int|
            0 <= i < ms.len() ==> clean_item(#[trigger] ms[i]),
{
    let lines = split(text, '\n');
    if let Some(a) = first_value(lines, "applied"@) {
        lemma_trim_trimmed(a);
    }
    if let Some(m) = first_value(lines, "modes"@) {
        lemma_split_pieces(m, ',');
        lemma_list_items(split(m, ','));
    }
}

} // verus!
