//! The admin page's plain server-rendered HTML: the shared page head, the
//! login and first-boot setup pages, and the escape helper every
//! interpolated string goes through.

use vstd::prelude::*;
use crate::text::{chars_of, dec, push_dec};

verus! {

/// A followed fantasy team on the admin page.
#[derive(Clone, Debug)]
pub struct FantasyRow {
    pub league_id: String,
    pub roster_id: u32,
    pub league: String,
    pub team: String,
    /// "Week 3: 100.8 to 127.1", or why not.
    pub status: String,
}

#[derive(Clone, Debug, PartialEq, Eq)]
pub enum Notice {
    /// No notice.
    Nothing,
    Saved,
    Error(String),
    /// A feed's new token, shown this once.
    NewToken { feed: String, token: String },
    PasswordChanged,
    /// A test takeover was sent to the screen.
    Tested,
}

/// What one character becomes in HTML element content and quoted
/// attribute values.
pub open spec fn esc_char(c: char) -> Seq<char> {
    if c == '&' {
        "&amp;"@
    } else if c == '<' {
        "&lt;"@
    } else if c == '>' {
        "&gt;"@
    } else if c == '"' {
        "&quot;"@
    } else if c == '\'' {
        "&#39;"@
    } else {
        seq![c]
    }
}

/// `s` with each character escaped.
pub open spec fn escaped(s: Seq<char>) -> Seq<char>
    decreases s.len(),
{
    if s.len() == 0 {
        Seq::empty()
    } else {
        escaped(s.drop_last()) + esc_char(s.last())
    }
}

/// Escapes text for HTML element content and quoted attribute values.
pub fn esc(s: &str) -> (out: String)
    ensures
        out@ == escaped(s@),
{
    let v = chars_of(s);
    let mut out = String::new();
    let mut i: usize = 0;
    while i < v.len()
        invariant
            i <= v@.len(),
            out@ == escaped(v@.take(i as int)),
        decreases v@.len() - i,
    {
        let c = v[i];
        assert(v@.take(i + 1).drop_last() =~= v@.take(i as int));
        if c == '&' {
            out.append("&amp;");
        } else if c == '<' {
            out.append("&lt;");
        } else if c == '>' {
            out.append("&gt;");
        } else if c == '"' {
            out.append("&quot;");
        } else if c == '\'' {
            out.append("&#39;");
        } else {
            crate::text::push_char(&mut out, c);
            assert(out@ =~= escaped(v@.take(i as int)) + seq![c]);
        }
        i = i + 1;
    }
    assert(v@.take(v@.len() as int) =~= v@);
    out
}

/// The characters that would start markup or end a quoted attribute.
pub open spec fn is_markup(c: char) -> bool {
    c == '<' || c == '>' || c == '"' || c == '\''
}

/// Escaped text holds no markup characters, and text with none of the five
/// special characters is left as it is.
pub proof fn law_escaped_text_is_inert(s: Seq<char>)
    ensures
        forall|i: int| 0 <= i < escaped(s).len() ==> !is_markup(#[trigger] escaped(s)[i]),
        (forall|i: int| 0 <= i < s.len() ==> !is_markup(#[trigger] s[i]) && s[i] != '&')
            ==> escaped(s) == s,
    decreases s.len(),
{
    reveal_strlit("&amp;");
    reveal_strlit("&lt;");
    reveal_strlit("&gt;");
    reveal_strlit("&quot;");
    reveal_strlit("&#39;");
    if s.len() > 0 {
        law_escaped_text_is_inert(s.drop_last());
        let p = escaped(s.drop_last());
        let e = esc_char(s.last());
        assert forall|i: int| 0 <= i < e.len() implies !is_markup(#[trigger] e[i]) by {}
        assert forall|i: int| 0 <= i < escaped(s).len() implies !is_markup(#[trigger] escaped(s)[i]) by {
            if i < p.len() {
                assert(escaped(s)[i] == p[i]);
            } else {
                assert(escaped(s)[i] == e[i - p.len()]);
            }
        }
        if forall|i: int| 0 <= i < s.len() ==> !is_markup(#[trigger] s[i]) && s[i] != '&' {
            assert(!is_markup(s[s.len() - 1]) && s[s.len() - 1] != '&');
            assert forall|i: int| 0 <= i < s.drop_last().len() implies !is_markup(
                #[trigger] s.drop_last()[i],
            ) && s.drop_last()[i] != '&' by {
                assert(s.drop_last()[i] == s[i]);
            }
            assert(escaped(s) =~= s);
        }
    }
}

/// Whether `t` starts with `p`.
pub open spec fn starts(t: Seq<char>, p: Seq<char>) -> bool {
    p.len() <= t.len() && t.subrange(0, p.len() as int) == p
}

/// Whether one of the five entities starts at position `i` of `t`.
pub open spec fn entity_at(t: Seq<char>, i: int) -> bool {
    let r = t.subrange(i, t.len() as int);
    starts(r, "&amp;"@) || starts(r, "&lt;"@) || starts(r, "&gt;"@) || starts(r, "&quot;"@) || starts(r, "&#39;"@)
}

/// Escaped text read back: each entity, left to right, becomes its
/// character again; any other character stays.
pub open spec fn unescaped(t: Seq<char>) -> Seq<char>
    decreases t.len(),
{
    if t.len() == 0 {
        Seq::empty()
    } else if t.len() >= 5 && starts(t, "&amp;"@) {
        seq!['&'] + unescaped(t.subrange(5, t.len() as int))
    } else if t.len() >= 4 && starts(t, "&lt;"@) {
        seq!['<'] + unescaped(t.subrange(4, t.len() as int))
    } else if t.len() >= 4 && starts(t, "&gt;"@) {
        seq!['>'] + unescaped(t.subrange(4, t.len() as int))
    } else if t.len() >= 6 && starts(t, "&quot;"@) {
        seq!['"'] + unescaped(t.subrange(6, t.len() as int))
    } else if t.len() >= 5 && starts(t, "&#39;"@) {
        seq!['\''] + unescaped(t.subrange(5, t.len() as int))
    } else {
        seq![t[0]] + unescaped(t.subrange(1, t.len() as int))
    }
}

/// Escaping goes piece by piece: the escape of two texts one after the
/// other is their escapes one after the other.
pub proof fn law_escaping_splits(a: Seq<char>, b: Seq<char>)
    ensures
        escaped(a + b) == escaped(a) + escaped(b),
    decreases b.len(),
{
    if b.len() == 0 {
        assert(a + b =~= a);
        assert(escaped(a) + escaped(b) =~= escaped(a));
    } else {
        law_escaping_splits(a, b.drop_last());
        assert((a + b).drop_last() =~= a + b.drop_last());
        assert((a + b).last() == b.last());
        assert(escaped(a + b) =~= escaped(a) + escaped(b));
    }
}

proof fn lemma_not_starts(t: Seq<char>, p: Seq<char>, k: int)
    requires
        0 <= k < p.len(),
        k < t.len(),
        t[k] != p[k],
    ensures
        !starts(t, p),
{
    if starts(t, p) {
        assert(t.subrange(0, p.len() as int)[k] == t[k]);
    }
}

proof fn lemma_unescape_char(c: char, rest: Seq<char>)
    ensures
        unescaped(esc_char(c) + rest) == seq![c] + unescaped(rest),
{
    reveal_strlit("&amp;");
    reveal_strlit("&lt;");
    reveal_strlit("&gt;");
    reveal_strlit("&quot;");
    reveal_strlit("&#39;");
    let t = esc_char(c) + rest;
    let e = esc_char(c);
    assert(t.subrange(e.len() as int, t.len() as int) =~= rest);
    assert(t.subrange(0, e.len() as int) =~= e);
    if c == '&' {
        assert(starts(t, "&amp;"@));
    } else if c == '<' {
        lemma_not_starts(t, "&amp;"@, 1);
        assert(starts(t, "&lt;"@));
    } else if c == '>' {
        lemma_not_starts(t, "&amp;"@, 1);
        lemma_not_starts(t, "&lt;"@, 1);
        assert(starts(t, "&gt;"@));
    } else if c == '"' {
        lemma_not_starts(t, "&amp;"@, 1);
        lemma_not_starts(t, "&lt;"@, 1);
        lemma_not_starts(t, "&gt;"@, 1);
        assert(starts(t, "&quot;"@));
    } else if c == '\'' {
        lemma_not_starts(t, "&amp;"@, 1);
        lemma_not_starts(t, "&lt;"@, 1);
        lemma_not_starts(t, "&gt;"@, 1);
        lemma_not_starts(t, "&quot;"@, 1);
        assert(starts(t, "&#39;"@));
    } else {
        assert(t[0] == c);
        lemma_not_starts(t, "&amp;"@, 0);
        lemma_not_starts(t, "&lt;"@, 0);
        lemma_not_starts(t, "&gt;"@, 0);
        lemma_not_starts(t, "&quot;"@, 0);
        lemma_not_starts(t, "&#39;"@, 0);
    }
}

/// Escaping loses nothing: reading the entities back gives the text.
pub proof fn law_escaping_reads_back(s: Seq<char>)
    ensures
        unescaped(escaped(s)) == s,
    decreases s.len(),
{
    if s.len() > 0 {
        let c = s[0];
        let rest = s.subrange(1, s.len() as int);
        assert(s =~= seq![c] + rest);
        law_escaping_splits(seq![c], rest);
        assert(seq![c].drop_last() =~= Seq::<char>::empty());
        assert(seq![c].last() == c);
        assert(escaped(Seq::<char>::empty()) =~= Seq::<char>::empty());
        assert(escaped(seq![c]) =~= esc_char(c));
        lemma_unescape_char(c, escaped(rest));
        law_escaping_reads_back(rest);
    }
}

proof fn lemma_starts_longer(r: Seq<char>, q: Seq<char>, e: Seq<char>)
    requires
        starts(r, e),
        r.len() <= q.len(),
        forall|k: int| 0 <= k < r.len() ==> q[k] == r[k],
    ensures
        starts(q, e),
{
    assert(q.subrange(0, e.len() as int) =~= r.subrange(0, e.len() as int));
}

proof fn lemma_entity_kept(p: Seq<char>, x: Seq<char>, i: int)
    requires
        0 <= i < p.len(),
        entity_at(p, i),
    ensures
        entity_at(p + x, i),
{
    let r = p.subrange(i, p.len() as int);
    let q = (p + x).subrange(i, (p + x).len() as int);
    assert forall|k: int| 0 <= k < r.len() implies q[k] == r[k] by {}
    if starts(r, "&amp;"@) {
        lemma_starts_longer(r, q, "&amp;"@);
    } else if starts(r, "&lt;"@) {
        lemma_starts_longer(r, q, "&lt;"@);
    } else if starts(r, "&gt;"@) {
        lemma_starts_longer(r, q, "&gt;"@);
    } else if starts(r, "&quot;"@) {
        lemma_starts_longer(r, q, "&quot;"@);
    } else {
        lemma_starts_longer(r, q, "&#39;"@);
    }
}

/// Every `&` in escaped text begins one of the five entities.
pub proof fn law_ampersands_begin_entities(s: Seq<char>)
    ensures
        forall|i: int| 0 <= i < escaped(s).len() && #[trigger] escaped(s)[i] == '&' ==> entity_at(escaped(s), i),
    decreases s.len(),
{
    reveal_strlit("&amp;");
    reveal_strlit("&lt;");
    reveal_strlit("&gt;");
    reveal_strlit("&quot;");
    reveal_strlit("&#39;");
    if s.len() > 0 {
        law_ampersands_begin_entities(s.drop_last());
        let p = escaped(s.drop_last());
        let e = esc_char(s.last());
        let t = escaped(s);
        assert(t == p + e);
        assert forall|i: int| 0 <= i < t.len() && #[trigger] t[i] == '&' implies entity_at(t, i) by {
            if i < p.len() {
                assert(p[i] == t[i]);
                lemma_entity_kept(p, e, i);
            } else {
                let k = i - p.len();
                assert(e[k] == t[i]);
                let r = t.subrange(i, t.len() as int);
                assert(k == 0);
                assert(r =~= e);
                assert(r.subrange(0, e.len() as int) =~= e);
            }
        }
    }
}

pub fn checked(on: bool) -> (s: &'static str)
    ensures
        s@ == (if on {
            " checked"@
        } else {
            ""@
        }),
{
    if on {
        " checked"
    } else {
        ""
    }
}

pub fn selected(on: bool) -> (s: &'static str)
    ensures
        s@ == (if on {
            " selected"@
        } else {
            ""@
        }),
{
    if on {
        " selected"
    } else {
        ""
    }
}

/// The page start up to the title.
pub const HEAD_START: &'static str = "<!doctype html><html lang=\"en\"><head><meta charset=\"utf-8\">\
     <meta name=\"viewport\" content=\"width=device-width, initial-scale=1\">\
     <title>";

/// The page start after the title.
pub const HEAD_END: &'static str = "</title><link rel=\"stylesheet\" href=\"/admin/admin.css\">\
     <script src=\"/admin/admin.js\" defer></script></head><body>";

pub const BRAND: &'static str =
    "<header class=\"top\"><span class=\"brand\">MARQUEET</span><span class=\"sub\">admin</span>";

/// The start of every admin page, with `title` escaped.
pub open spec fn head_text(title: Seq<char>) -> Seq<char> {
    HEAD_START@ + escaped(title) + HEAD_END@
}

pub fn head(title: &str) -> (h: String)
    ensures
        h@ == head_text(title@),
{
    let mut h = HEAD_START.to_owned();
    h.append(esc(title).as_str());
    h.append(HEAD_END);
    h
}

pub const LOGIN_FORM: &'static str =
    "</header><main class=\"narrow\"><form method=\"post\" action=\"/login\"><h2>Log in</h2>";

pub const LOGIN_REST: &'static str =
    "<label>Admin password <input type=\"password\" name=\"password\" autocomplete=\"current-password\" \
     autofocus required></label><div class=\"actions\"><button class=\"primary\">Log in</button></div>\
     </form></main></body></html>";

pub const NOTICE_START: &'static str = "<p class=\"notice err\" role=\"alert\">";

pub const NOTICE_END: &'static str = "</p>";

/// An error notice with `message` escaped, or nothing.
pub open spec fn notice_text(error: Option<Seq<char>>) -> Seq<char> {
    match error {
        Some(e) => NOTICE_START@ + escaped(e) + NOTICE_END@,
        None => Seq::empty(),
    }
}

/// The characters of an optional text.
pub open spec fn opt_view(s: Option<&str>) -> Option<Seq<char>> {
    match s {
        Some(t) => Some(t@),
        None => None,
    }
}

/// The login page, with an error notice when there is one.
pub open spec fn login_text(error: Option<Seq<char>>) -> Seq<char> {
    head_text("Marqueet login"@) + BRAND@ + LOGIN_FORM@ + notice_text(error) + LOGIN_REST@
}

fn push_notice(h: &mut String, error: Option<&str>)
    ensures
        final(h)@ == old(h)@ + notice_text(opt_view(error)),
{
    if let Some(e) = error {
        h.append(NOTICE_START);
        h.append(esc(e).as_str());
        h.append(NOTICE_END);
    } else {
        assert(old(h)@ + notice_text(opt_view(error)) =~= old(h)@);
    }
}

/// The login page, saying "Wrong password." after a failed try.
pub fn login(error: bool) -> (h: String)
    ensures
        h@ == login_text(if error {
            Some("Wrong password."@)
        } else {
            None
        }),
{
    login_page(if error {
        Some("Wrong password.")
    } else {
        None
    })
}

/// The login page with a message (e.g. "Too many tries").
pub fn login_message(message: &str) -> (h: String)
    ensures
        h@ == login_text(Some(message@)),
{
    login_page(Some(message))
}

fn login_page(error: Option<&str>) -> (h: String)
    ensures
        h@ == login_text(opt_view(error)),
{
    let mut h = head("Marqueet login");
    h.append(BRAND);
    h.append(LOGIN_FORM);
    push_notice(&mut h, error);
    h.append(LOGIN_REST);
    h
}

pub const SETUP_FORM: &'static str =
    "</header><main class=\"narrow\"><form method=\"post\" action=\"/setup\"><h2>Set up Marqueet</h2>\
     <p class=\"hint\">Enter the 6-digit code shown on the Marqueet screen, then choose the password \
     you'll use to manage it from this and other devices.</p>";

pub const SETUP_REST: &'static str =
    "<label>Code from the screen <input name=\"code\" inputmode=\"numeric\" pattern=\"[0-9]{6}\" \
     maxlength=\"6\" autocomplete=\"one-time-code\" autofocus required></label>\
     <label>New admin password <input type=\"password\" name=\"password\" minlength=\"8\" maxlength=\"128\" \
     autocomplete=\"new-password\" required></label>\
     <label>Password again <input type=\"password\" name=\"confirm\" minlength=\"8\" maxlength=\"128\" \
     autocomplete=\"new-password\" required></label>\
     <div class=\"actions\"><button class=\"primary\">Set up</button></div></form></main></body></html>";

/// The first-boot page, with an error notice when there is one.
pub open spec fn setup_text(error: Option<Seq<char>>) -> Seq<char> {
    head_text("Set up Marqueet"@) + BRAND@ + SETUP_FORM@ + notice_text(error) + SETUP_REST@
}

/// First boot: the code from the screen and a new admin password.
pub fn setup(error: Option<&str>) -> (h: String)
    ensures
        h@ == setup_text(opt_view(error)),
{
    let mut h = head("Set up Marqueet");
    h.append(BRAND);
    h.append(SETUP_FORM);
    push_notice(&mut h, error);
    h.append(SETUP_REST);
    h
}

/// Whether `t` ends with `p`.
pub open spec fn ends(t: Seq<char>, p: Seq<char>) -> bool {
    p.len() <= t.len() && t.subrange(t.len() - p.len(), t.len() as int) == p
}

/// A message is the only difference between the login pages: the page
/// with one is the plain page with the escaped message, as an error
/// notice, put right after the "Log in" heading.
pub proof fn law_login_notice_follows_heading(m: Seq<char>)
    ensures
        exists|a: Seq<char>, b: Seq<char>|
            {
                &&& login_text(None) == a + b
                &&& login_text(Some(m)) == a + NOTICE_START@ + escaped(m) + NOTICE_END@ + b
                &&& ends(a, "<h2>Log in</h2>"@)
            },
{
    let a = head_text("Marqueet login"@) + BRAND@ + LOGIN_FORM@;
    let b = LOGIN_REST@;
    assert(login_text(None) =~= a + b);
    assert(login_text(Some(m)) =~= a + NOTICE_START@ + escaped(m) + NOTICE_END@ + b);
    reveal_strlit("</header><main class=\"narrow\"><form method=\"post\" action=\"/login\"><h2>Log in</h2>");
    reveal_strlit("<h2>Log in</h2>");
    assert(a.subrange(a.len() - 15, a.len() as int) =~= "<h2>Log in</h2>"@);
}

/// An error is the only difference between the setup pages: the page with
/// one is the plain page with the escaped error, as a notice, put between
/// the hint and the code field; the plain page posts to the setup address
/// and holds no notice.
pub proof fn law_setup_notice_follows_hint(e: Seq<char>)
    ensures
        exists|a: Seq<char>, b: Seq<char>|
            {
                &&& setup_text(None) == a + b
                &&& setup_text(Some(e)) == a + NOTICE_START@ + escaped(e) + NOTICE_END@ + b
                &&& ends(a, "</p>"@)
                &&& starts(b, "<label>Code"@)
            },
{
    let a = head_text("Set up Marqueet"@) + BRAND@ + SETUP_FORM@;
    let b = SETUP_REST@;
    assert(setup_text(None) =~= a + b);
    assert(setup_text(Some(e)) =~= a + NOTICE_START@ + escaped(e) + NOTICE_END@ + b);
    reveal_strlit(
        "</header><main class=\"narrow\"><form method=\"post\" action=\"/setup\"><h2>Set up Marqueet</h2>\
     <p class=\"hint\">Enter the 6-digit code shown on the Marqueet screen, then choose the password \
     you'll use to manage it from this and other devices.</p>",
    );
    reveal_strlit(
        "<label>Code from the screen <input name=\"code\" inputmode=\"numeric\" pattern=\"[0-9]{6}\" \
     maxlength=\"6\" autocomplete=\"one-time-code\" autofocus required></label>\
     <label>New admin password <input type=\"password\" name=\"password\" minlength=\"8\" maxlength=\"128\" \
     autocomplete=\"new-password\" required></label>\
     <label>Password again <input type=\"password\" name=\"confirm\" minlength=\"8\" maxlength=\"128\" \
     autocomplete=\"new-password\" required></label>\
     <div class=\"actions\"><button class=\"primary\">Set up</button></div></form></main></body></html>",
    );
    reveal_strlit("</p>");
    reveal_strlit("<label>Code");
    assert(a.subrange(a.len() - 4, a.len() as int) =~= "</p>"@);
    assert(b.subrange(0, 11) =~= "<label>Code"@);
}

/// Whole seconds from `t_ms` to `now_ms` (milliseconds since the epoch),
/// and none when `t` is later than now.
pub open spec fn elapsed_secs(t_ms: i64, now_ms: i64) -> int {
    if now_ms - t_ms <= 0 {
        0
    } else {
        (now_ms - t_ms) / 1000
    }
}

/// How long ago `t` was: in seconds under a minute, in whole minutes under
/// an hour, else in whole hours.
pub open spec fn ago_text(t_ms: i64, now_ms: i64) -> Seq<char> {
    let s = elapsed_secs(t_ms, now_ms);
    if s < 60 {
        dec(s as nat) + "s ago"@
    } else if s < 3600 {
        dec((s / 60) as nat) + "m ago"@
    } else {
        dec((s / 3600) as nat) + "h ago"@
    }
}

/// "42s ago", "5m ago" or "3h ago": how long ago `t_ms` was at `now_ms`
/// (both in milliseconds since the epoch).
pub fn ago(t_ms: i64, now_ms: i64) -> (r: String)
    ensures
        r@ == ago_text(t_ms, now_ms),
{
    let d: i128 = now_ms as i128 - t_ms as i128;
    let s: u64 = if d <= 0 {
        0
    } else {
        (d / 1000) as u64
    };
    assert(s == elapsed_secs(t_ms, now_ms));
    let mut r = String::new();
    if s < 60 {
        push_dec(&mut r, s);
        r.append("s ago");
    } else if s < 3600 {
        push_dec(&mut r, s / 60);
        r.append("m ago");
    } else {
        push_dec(&mut r, s / 3600);
        r.append("h ago");
    }
    r
}

} // verus!
