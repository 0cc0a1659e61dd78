//! The admin page's pure parts: the HTML it builds, the form values it
//! reads, and the small texts its handlers answer with.

pub mod apply;
pub mod form;
pub mod look;
pub mod page;
pub mod picker;
pub mod render;
pub mod sections;
pub mod status;
pub mod widgets;
pub mod display;
pub mod fantasy;
pub mod team_art;
pub mod reads_back;

use vstd::prelude::*;
use crate::admin::form::{field_value, pair_views};
use crate::text::{chars_of, dec, push_dec, string_of_range, trim, trim_bounds};

verus! {

/// The (name, value) pairs that `form_urlencoded::parse` reads from a
/// request body: the body split at each `&` (empty pieces skipped), each
/// piece at its first `=`, both sides with `+` and percent escapes decoded
/// and invalid UTF-8 replaced.
pub uninterp spec fn urlencoded_pairs(body: Seq<u8>) -> Seq<(Seq<char>, Seq<char>)>;

/// `form_urlencoded::parse(body).into_owned().collect()`: the form's pairs,
/// in order. The decoding is the crate's; what comes back is named
/// [`urlencoded_pairs`] of the body.
#[verifier::external_body]
pub(crate) fn pairs(body: &[u8]) -> (r: Vec<(String, String)>)
    ensures
        pair_views(r@) == urlencoded_pairs(body@),
{
    form_urlencoded::parse(body).into_owned().collect()
}

/// A field's trimmed value among decoded pairs, or empty when there is no
/// such field.
pub open spec fn trimmed_field_value(pairs: Seq<(Seq<char>, Seq<char>)>, key: Seq<char>) -> Seq<char> {
    match field_value(pairs, key) {
        Some(v) => trim(v),
        None => Seq::empty(),
    }
}

/// A form field's trimmed value, or empty when the body has no such field.
pub open spec fn body_field(body: Seq<u8>, key: Seq<char>) -> Seq<char> {
    trimmed_field_value(urlencoded_pairs(body), key)
}

/// The first field `key` among decoded form pairs, trimmed, or empty.
pub fn trimmed_field(pairs: &[(String, String)], key: &str) -> (r: String)
    ensures
        r@ == trimmed_field_value(pair_views(pairs@), key@),
{
    match crate::admin::form::field(pairs, key) {
        Some(v) => {
            let c = chars_of(v);
            let (a, b) = trim_bounds(&c, 0, c.len());
            assert(c@.subrange(0, c@.len() as int) =~= c@);
            string_of_range(&c, a, b)
        },
        None => String::new(),
    }
}

/// The first field `key` in a form body, trimmed, or empty.
pub fn field(body: &[u8], key: &str) -> (r: String)
    ensures
        r@ == body_field(body@, key@),
{
    let p = pairs(body);
    trimmed_field(p.as_slice(), key)
}

/// "Too many tries" with how long to wait, rounded up to a whole second.
pub open spec fn too_many_text(secs: u64, nanos: u32) -> Seq<char> {
    let s: nat = (secs + (if nanos > 0 {
        1int
    } else {
        0int
    })) as nat;
    "Too many tries. Wait "@ + dec(s) + " second"@ + (if s == 1 {
        ""@
    } else {
        "s"@
    }) + " and try again."@
}

/// "Too many tries" for a wait of `secs` seconds and `nanos` more
/// nanoseconds, rounded up to a whole second.
pub fn too_many(secs: u64, nanos: u32) -> (r: String)
    requires
        nanos > 0 ==> secs < u64::MAX,
    ensures
        r@ == too_many_text(secs, nanos),
{
    let s = secs + if nanos > 0 {
        1
    } else {
        0
    };
    let mut r = "Too many tries. Wait ".to_owned();
    push_dec(&mut r, s);
    r.append(" second");
    r.append(if s == 1 {
        ""
    } else {
        "s"
    });
    r.append(" and try again.");
    r
}

} // verus!
