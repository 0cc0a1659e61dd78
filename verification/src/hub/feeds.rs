//! Feed API tokens. Each feed has a Bearer token, made when the feed is and
//! shown once; only its SHA-256 is kept ([`hash_token`]), so a copy of the
//! database doesn't give the tokens away. Tokens are 256 random bits, so a
//! plain hash is enough (no salt or stretching).

use vstd::prelude::*;
use vstd::utf8::{encode_utf8, encode_utf8_decode_utf8};
use crate::keyed::{key_index, lemma_key_at, lemma_key_index, lemma_upsert, lookup, unique_keys, upsert};
use crate::text::{
    chars_of, debug_quoted, debug_text, hex, lemma_text_le_total, lemma_text_le_transitive, push_hex,
    sorted_texts, string_views, text_le, text_le_exec,
};

verus! {

/// Most feeds a device will hold.
pub const MAX_FEEDS: usize = 20;

/// The SHA-256 digest of some bytes.
pub uninterp spec fn sha256(data: Seq<u8>) -> Seq<u8>;

/// `ring::digest::digest(&SHA256, data)`: the digest's 32 bytes. The
/// digest itself is ring's; it is named [`sha256`] of the data.
#[verifier::external_body]
fn sha256_digest(data: &[u8]) -> (r: Vec<u8>)
    ensures
        r@ == sha256(data@),
        r@.len() == 32,
{
    ring::digest::digest(&ring::digest::SHA256, data).as_ref().to_vec()
}

/// What's stored for a feed token: "sha256:" and the SHA-256 of its UTF-8
/// bytes in lowercase hex.
pub open spec fn hashed(token: Seq<char>) -> Seq<char> {
    "sha256:"@ + hex(sha256(encode_utf8(token)))
}

/// What's stored for a feed token.
pub fn hash_token(token: &str) -> (h: String)
    ensures
        h@ == hashed(token@),
{
    let digest = sha256_digest(token.as_bytes());
    let mut h = "sha256:".to_owned();
    push_hex(&mut h, &digest);
    h
}

/// Whether `s` is a stored hash (it starts with "sha256:").
pub open spec fn is_hash(s: Seq<char>) -> bool {
    s.len() >= 7 && s.take(7) == "sha256:"@
}

/// What a stored value becomes when loaded: a hash stays, a token kept in
/// the clear by an older version is hashed.
pub open spec fn kept_hash(value: Seq<char>) -> Seq<char> {
    if is_hash(value) {
        value
    } else {
        hashed(value)
    }
}

/// The table that stored (name, value) pairs load into: each name once,
/// the last pair for it winning, every value a hash.
pub open spec fn loaded(stored: Seq<(Seq<char>, Seq<char>)>) -> Seq<(Seq<char>, Seq<char>)>
    decreases stored.len(),
{
    if stored.len() == 0 {
        Seq::empty()
    } else {
        upsert(loaded(stored.drop_last()), stored.last().0, kept_hash(stored.last().1))
    }
}

/// The (name, hash) pairs to save back: the tokens that were kept in the
/// clear, in order.
pub open spec fn rehashed(stored: Seq<(Seq<char>, Seq<char>)>) -> Seq<(Seq<char>, Seq<char>)>
    decreases stored.len(),
{
    if stored.len() == 0 {
        Seq::empty()
    } else if is_hash(stored.last().1) {
        rehashed(stored.drop_last())
    } else {
        rehashed(stored.drop_last()).push((stored.last().0, hashed(stored.last().1)))
    }
}

/// The feeds' names, in table order.
pub open spec fn feed_keys(table: Seq<(Seq<char>, Seq<char>)>) -> Seq<Seq<char>> {
    table.map_values(|e: (Seq<char>, Seq<char>)| e.0)
}

/// Whether `token` is the token of the feed `name` in `table`.
pub open spec fn token_accepted(table: Seq<(Seq<char>, Seq<char>)>, name: Seq<char>, token: Seq<char>) -> bool {
    lookup(table, name) == Some(hashed(token))
}

/// A feed name: 1 to 32 of a-z, 0-9, `-` and `_`.
pub open spec fn valid_name(name: Seq<char>) -> bool {
    &&& 1 <= name.len() <= 32
    &&& forall|i: int|
        0 <= i < name.len() ==> {
            let c = #[trigger] name[i];
            ('a' <= c <= 'z') || ('0' <= c <= '9') || c == '-' || c == '_'
        }
}

/// Whether `name` can name a feed.
pub fn is_valid_name(name: &str) -> (b: bool)
    ensures
        b == valid_name(name@),
{
    let v = chars_of(name);
    if v.len() < 1 || v.len() > 32 {
        return false;
    }
    let mut i: usize = 0;
    while i < v.len()
        invariant
            i <= v@.len(),
            v@ == name@,
            forall|j: int|
                0 <= j < i ==> {
                    let c = #[trigger] v@[j];
                    ('a' <= c <= 'z') || ('0' <= c <= '9') || c == '-' || c == '_'
                },
        decreases v@.len() - i,
    {
        let c = v[i];
        if !(('a' <= c && c <= 'z') || ('0' <= c && c <= '9') || c == '-' || c == '_') {
            assert(v@[i as int] == c);
            return false;
        }
        i = i + 1;
    }
    true
}

/// Compares two byte strings without stopping at the first difference.
pub fn ct_eq(a: &[u8], b: &[u8]) -> (r: bool)
    ensures
        r == (a@ == b@),
{
    if a.len() != b.len() {
        return false;
    }
    let mut acc: u8 = 0;
    let mut i: usize = 0;
    assert(a@.take(0) =~= b@.take(0));
    while i < a.len()
        invariant
            i <= a@.len() == b@.len(),
            (acc == 0) == (a@.take(i as int) == b@.take(i as int)),
        decreases a@.len() - i,
    {
        let x = a[i];
        let y = b[i];
        let next = acc | (x ^ y);
        assert((next == 0) == (acc == 0 && x == y)) by (bit_vector)
            requires
                next == acc | (x ^ y),
        ;
        proof {
            assert(a@.take(i + 1) == a@.take(i as int).push(x));
            assert(b@.take(i + 1) == b@.take(i as int).push(y));
            if a@.take(i + 1) == b@.take(i + 1) {
                assert(a@.take(i + 1).drop_last() == a@.take(i as int));
                assert(b@.take(i + 1).drop_last() == b@.take(i as int));
                assert(a@.take(i + 1).last() == x);
            }
        }
        acc = next;
        i = i + 1;
    }
    assert(a@.take(a@.len() as int) =~= a@);
    assert(b@.take(b@.len() as int) =~= b@);
    acc == 0
}

/// The table without `key`.
pub open spec fn without<V>(entries: Seq<(Seq<char>, V)>, key: Seq<char>) -> Seq<(Seq<char>, V)> {
    match key_index(entries, key) {
        Some(i) => entries.remove(i),
        None => entries,
    }
}

proof fn lemma_without<V>(entries: Seq<(Seq<char>, V)>, key: Seq<char>)
    requires
        unique_keys(entries),
    ensures
        unique_keys(without(entries, key)),
        lookup(without(entries, key), key) is None,
        forall|k: Seq<char>| k != key ==> lookup(#[trigger] without(entries, key), k) == lookup(entries, k),
{
    lemma_key_index(entries, key);
    let w = without(entries, key);
    match key_index(entries, key) {
        Some(i) => {
            assert forall|j: int| 0 <= j < w.len() implies w[j] == entries[if j < i { j } else { j + 1 }] by {}
            assert(unique_keys(w));
            lemma_key_index(w, key);
            assert forall|k: Seq<char>| k != key implies lookup(w, k) == lookup(entries, k) by {
                lemma_key_index(entries, k);
                match key_index(entries, k) {
                    Some(j) => {
                        lemma_key_at(w, k, if j < i { j } else { j - 1 });
                    },
                    None => {
                        lemma_key_index(w, k);
                    },
                }
            }
        },
        None => {},
    }
}

/// Feed tokens' hashes, by feed name.
pub struct FeedTokens {
    tokens: Vec<(String, String)>,
}

/// (name, hash) pairs as characters.
pub open spec fn table_view(v: Seq<(String, String)>) -> Seq<(Seq<char>, Seq<char>)> {
    v.map_values(|e: (String, String)| (e.0@, e.1@))
}

/// Where the feed `name` is in the table.
fn find_name(v: &Vec<(String, String)>, name: &String) -> (r: Option<usize>)
    ensures
        match r {
            Some(i) => key_index(table_view(v@), name@) == Some(i as int),
            None => key_index(table_view(v@), name@) is None,
        },
{
    let mut found: Option<usize> = None;
    let mut i: usize = 0;
    while i < v.len()
        invariant
            i <= v@.len(),
            match found {
                Some(j) => key_index(table_view(v@).take(i as int), name@) == Some(j as int),
                None => key_index(table_view(v@).take(i as int), name@) is None,
            },
        decreases v@.len() - i,
    {
        assert(table_view(v@).take(i + 1).drop_last() =~= table_view(v@).take(i as int));
        if v[i].0 == *name {
            found = Some(i);
        }
        i = i + 1;
    }
    assert(table_view(v@).take(v@.len() as int) =~= table_view(v@));
    found
}

/// Sets `name`'s hash in the table, in place when it's there, else at the
/// end.
fn set_hash(v: &mut Vec<(String, String)>, name: String, hash: String)
    ensures
        table_view(final(v)@) == upsert(table_view(old(v)@), name@, hash@),
{
    let ghost k = name@;
    let ghost h = hash@;
    let r = find_name(v, &name);
    proof {
        lemma_key_index(table_view(v@), k);
    }
    match r {
        Some(i) => {
            v.set(i, (name, hash));
            assert(table_view(v@) =~= table_view(old(v)@).update(i as int, (k, h)));
        },
        None => {
            v.push((name, hash));
            assert(table_view(v@) =~= table_view(old(v)@).push((k, h)));
        },
    }
}

/// The error's text, if there is one.
pub open spec fn err_text<T>(r: Result<T, String>) -> Option<Seq<char>> {
    match r {
        Ok(_) => None,
        Err(e) => Some(e@),
    }
}

/// An error text: `before` and the name quoted.
fn quoted_error(before: &str, name: &str) -> (e: String)
    ensures
        e@ == before@ + debug_text(name@),
{
    let mut e = before.to_owned();
    e.append(debug_quoted(name).as_str());
    e
}

/// An error text: `before`, the name quoted, then `after`.
fn named_error(before: &str, name: &str, after: &str) -> (e: String)
    ensures
        e@ == before@ + debug_text(name@) + after@,
{
    let mut e = before.to_owned();
    e.append(debug_quoted(name).as_str());
    e.append(after);
    e
}

impl View for FeedTokens {
    type V = Seq<(Seq<char>, Seq<char>)>;

    closed spec fn view(&self) -> Seq<(Seq<char>, Seq<char>)> {
        table_view(self.tokens@)
    }
}

impl FeedTokens {
    /// Each feed is there once.
    #[verifier::type_invariant]
    spec fn well_formed(self) -> bool {
        unique_keys(table_view(self.tokens@))
    }

    /// Sets `name`'s stored hash.
    fn set(&mut self, name: String, hash: String)
        requires
            unique_keys(upsert(old(self)@, name@, hash@)),
        ensures
            final(self)@ == upsert(old(self)@, name@, hash@),
    {
        let mut tokens: Vec<(String, String)> = Vec::new();
        std::mem::swap(&mut tokens, &mut self.tokens);
        set_hash(&mut tokens, name, hash);
        self.tokens = tokens;
    }

    /// No feeds.
    pub fn new() -> (t: Self)
        ensures
            t@.len() == 0,
    {
        let t = FeedTokens { tokens: Vec::new() };
        assert(t@ =~= Seq::<(Seq<char>, Seq<char>)>::empty());
        t
    }

    /// How many feeds there are.
    pub fn len(&self) -> (n: usize)
        ensures
            n == self@.len(),
    {
        self.tokens.len()
    }

    /// Creates a feed with `token` (freshly made by the caller, `None` when
    /// that failed) and returns the token. Refused for a bad name, a name
    /// already taken, or past [`MAX_FEEDS`].
    pub fn create_feed(&mut self, name: &str, token: Option<String>) -> (r: Result<String, String>)
        ensures
            !valid_name(name@) ==> err_text(r) == Some("feed name "@ + debug_text(name@)
                + ": use 1-32 of a-z, 0-9, - and _"@),
            valid_name(name@) && lookup(old(self)@, name@) is Some ==> err_text(r) == Some("a feed called "@ + debug_text(name@) + " already exists"@),
            valid_name(name@) && lookup(old(self)@, name@) is None && old(self)@.len() >= MAX_FEEDS
                ==> err_text(r) == Some("at most 20 feeds"@),
            valid_name(name@) && lookup(old(self)@, name@) is None && old(self)@.len() < MAX_FEEDS
                && token is None ==> err_text(r) == Some("couldn't generate a token"@),
            r is Ok <==> valid_name(name@) && lookup(old(self)@, name@) is None && old(self)@.len()
                < MAX_FEEDS && token is Some,
            r matches Ok(t) ==> token == Some(t) && final(self)@ == upsert(
                old(self)@,
                name@,
                hashed(t@),
            ),
            r is Err ==> final(self)@ == old(self)@,
    {
        proof {
            use_type_invariant(&*self);
        }
        if !is_valid_name(name) {
            return Err(named_error("feed name ", name, ": use 1-32 of a-z, 0-9, - and _"));
        }
        let key = name.to_owned();
        let found = find_name(&self.tokens, &key);
        proof {
            lemma_key_index(self@, name@);
        }
        if found.is_some() {
            return Err(named_error("a feed called ", name, " already exists"));
        }
        if self.tokens.len() >= MAX_FEEDS {
            return Err("at most 20 feeds".to_owned());
        }
        let token = match token {
            Some(t) => t,
            None => return Err("couldn't generate a token".to_owned()),
        };
        let hash = hash_token(token.as_str());
        proof {
            lemma_upsert(self@, name@, hash@);
        }
        self.set(key, hash);
        Ok(token)
    }

    /// Replaces a feed's token with `token` (freshly made by the caller,
    /// `None` when that failed): the old one stops working. Returns the new
    /// one.
    pub fn new_feed_token(&mut self, name: &str, token: Option<String>) -> (r: Result<String, String>)
        ensures
            lookup(old(self)@, name@) is None ==> err_text(r) == Some("no feed called "@
                + debug_text(name@)),
            lookup(old(self)@, name@) is Some && token is None ==> err_text(r) == Some("couldn't generate a token"@),
            r is Ok <==> lookup(old(self)@, name@) is Some && token is Some,
            r matches Ok(t) ==> token == Some(t) && final(self)@ == upsert(
                old(self)@,
                name@,
                hashed(t@),
            ),
            r is Err ==> final(self)@ == old(self)@,
    {
        proof {
            use_type_invariant(&*self);
        }
        let key = name.to_owned();
        let found = find_name(&self.tokens, &key);
        proof {
            lemma_key_index(self@, name@);
        }
        if found.is_none() {
            return Err(quoted_error("no feed called ", name));
        }
        let token = match token {
            Some(t) => t,
            None => return Err("couldn't generate a token".to_owned()),
        };
        let hash = hash_token(token.as_str());
        proof {
            lemma_upsert(self@, name@, hash@);
        }
        self.set(key, hash);
        Ok(token)
    }

    /// Deletes a feed and its token.
    pub fn revoke_feed(&mut self, name: &str) -> (r: Result<(), String>)
        ensures
            r is Ok <==> lookup(old(self)@, name@) is Some,
            r is Err ==> err_text(r) == Some("no feed called "@ + debug_text(name@)),
            final(self)@ == without(old(self)@, name@),
    {
        proof {
            use_type_invariant(&*self);
        }
        let key = name.to_owned();
        let found = find_name(&self.tokens, &key);
        proof {
            lemma_key_index(self@, name@);
            lemma_without(self@, name@);
        }
        match found {
            Some(i) => {
                let ghost before = self.tokens@;
                let mut tokens: Vec<(String, String)> = Vec::new();
                std::mem::swap(&mut tokens, &mut self.tokens);
                tokens.remove(i);
                assert(table_view(tokens@) =~= table_view(before).remove(i as int));
                self.tokens = tokens;
                Ok(())
            },
            None => Err(quoted_error("no feed called ", name)),
        }
    }

    /// Feed names, sorted.
    pub fn feed_names(&self) -> (r: Vec<String>)
        ensures
            sorted_texts(string_views(r@)),
            string_views(r@).to_multiset() == feed_keys(self@).to_multiset(),
    {
        proof {
            use_type_invariant(&*self);
        }
        broadcast use vstd::seq_lib::group_to_multiset_ensures;

        let mut out: Vec<String> = Vec::new();
        let mut i: usize = 0;
        assert(feed_keys(self@).take(0) =~= Seq::<Seq<char>>::empty());
        assert(string_views(out@) =~= Seq::<Seq<char>>::empty());
        while i < self.tokens.len()
            invariant
                i <= self.tokens@.len(),
                self@ == table_view(self.tokens@),
                sorted_texts(string_views(out@)),
                string_views(out@).to_multiset() == feed_keys(self@).take(i as int).to_multiset(),
            decreases self.tokens@.len() - i,
        {
            let name = self.tokens[i].0.clone();
            let x = chars_of(name.as_str());
            let ghost sv = string_views(out@);
            let mut p: usize = 0;
            while p < out.len() && text_le_exec(&chars_of(out[p].as_str()), &x)
                invariant
                    p <= out@.len(),
                    sv == string_views(out@),
                    x@ == name@,
                    forall|j: int| 0 <= j < p ==> text_le(#[trigger] sv[j], x@),
                decreases out@.len() - p,
            {
                p = p + 1;
            }
            proof {
                if p < out@.len() {
                    lemma_text_le_total(sv[p as int], x@);
                    assert forall|j: int| p <= j < sv.len() implies text_le(x@, #[trigger] sv[j]) by {
                        if j > p {
                            lemma_text_le_transitive(x@, sv[p as int], sv[j]);
                        }
                    }
                }
            }
            let ghost nv = name@;
            out.insert(p, name);
            proof {
                assert(string_views(out@) =~= sv.insert(p as int, nv));
                vstd::seq_lib::to_multiset_insert(sv, p as int, nv);
                vstd::seq_lib::to_multiset_build(feed_keys(self@).take(i as int), nv);
                let ns = string_views(out@);
                assert forall|a: int, b: int| 0 <= a < b < ns.len() implies text_le(
                    #[trigger] ns[a],
                    #[trigger] ns[b],
                ) by {
                    if a < p && b < p {
                        assert(ns[a] == sv[a] && ns[b] == sv[b]);
                    } else if a < p && b == p {
                    } else if a < p && b > p {
                        assert(ns[a] == sv[a] && ns[b] == sv[b - 1]);
                        lemma_text_le_transitive(sv[a], x@, sv[b - 1]);
                    } else if a == p {
                        assert(ns[b] == sv[b - 1]);
                    } else {
                        assert(ns[a] == sv[a - 1] && ns[b] == sv[b - 1]);
                    }
                }
                assert(feed_keys(self@).take(i + 1) =~= feed_keys(self@).take(i as int).push(nv));
            }
            i = i + 1;
        }
        assert(feed_keys(self@).take(self.tokens@.len() as int) =~= feed_keys(self@));
        out
    }

    /// True when `token` is `name`'s token.
    pub fn feed_authorized(&self, name: &str, token: &str) -> (b: bool)
        ensures
            b == token_accepted(self@, name@, token@),
    {
        proof {
            use_type_invariant(&*self);
        }
        let hash = hash_token(token);
        let key = name.to_owned();
        let found = find_name(&self.tokens, &key);
        proof {
            lemma_key_index(self@, name@);
        }
        match found {
            Some(i) => {
                let stored = &self.tokens[i].1;
                let same = ct_eq(stored.as_str().as_bytes(), hash.as_str().as_bytes());
                proof {
                    encode_utf8_decode_utf8(stored@);
                    encode_utf8_decode_utf8(hash@);
                }
                same
            },
            None => false,
        }
    }
}

/// Feed tokens from the database, hashing any token kept in the clear by
/// an older version: the table, and the (name, hash) pairs to save back.
pub fn load_feed_tokens(stored: Vec<(String, String)>) -> (r: (FeedTokens, Vec<(String, String)>))
    ensures
        r.0@ == loaded(table_view(stored@)),
        table_view(r.1@) == rehashed(table_view(stored@)),
{
    let mut table = FeedTokens::new();
    let mut save: Vec<(String, String)> = Vec::new();
    let mut i: usize = 0;
    let prefix = chars_of("sha256:");
    assert(table_view(save@) =~= rehashed(table_view(stored@).take(0)));
    assert(table@ =~= loaded(table_view(stored@).take(0)));
    while i < stored.len()
        invariant
            i <= stored@.len(),
            prefix@ == "sha256:"@,
            table@ == loaded(table_view(stored@).take(i as int)),
            table_view(save@) == rehashed(table_view(stored@).take(i as int)),
        decreases stored@.len() - i,
    {
        let ghost pre = table_view(stored@).take(i as int);
        assert(table_view(stored@).take(i + 1).drop_last() =~= pre);
        assert(table_view(stored@).take(i + 1).last() == (stored@[i as int].0@, stored@[i as int].1@));
        let name = stored[i].0.clone();
        let value = &stored[i].1;
        let v = chars_of(value.as_str());
        let is_hash_now = v.len() >= 7 && crate::text::starts_at(&v, 0, &prefix);
        proof {
            reveal_strlit("sha256:");
            if v@.len() >= 7 {
                assert(v@.subrange(0, 7) =~= v@.take(7));
            }
        }
        let hash = if is_hash_now {
            value.clone()
        } else {
            let h = hash_token(value.as_str());
            let ghost before = save@;
            save.push((name.clone(), h.clone()));
            assert(table_view(save@) =~= table_view(before).push((name@, h@)));
            h
        };
        proof {
            use_type_invariant(&table);
            lemma_upsert(table@, name@, hash@);
        }
        table.set(name, hash);
        i = i + 1;
    }
    assert(table_view(stored@).take(stored@.len() as int) =~= table_view(stored@));
    (table, save)
}

/// A feed's token opens that feed and no other: after a feed gets the hash
/// of `token` (made, or given a new token), `token` is accepted for it, and
/// any other token only if it hashes the same; other feeds keep what they
/// accepted. A revoked feed accepts nothing.
pub proof fn law_a_token_opens_its_feed(
    table: Seq<(Seq<char>, Seq<char>)>,
    name: Seq<char>,
    token: Seq<char>,
    other: Seq<char>,
    any: Seq<char>,
)
    requires
        unique_keys(table),
    ensures
        token_accepted(upsert(table, name, hashed(token)), name, token),
        token_accepted(upsert(table, name, hashed(token)), name, any) <==> hashed(any) == hashed(token),
        other != name ==> token_accepted(upsert(table, name, hashed(token)), other, any)
            == token_accepted(table, other, any),
        !token_accepted(without(table, name), name, any),
        other != name ==> token_accepted(without(table, name), other, any) == token_accepted(
            table,
            other,
            any,
        ),
{
    lemma_upsert(table, name, hashed(token));
    lemma_without(table, name);
}

/// Loaded feed tokens are all hashes, and a token an older version kept in
/// the clear still opens its feed: for each name, the table holds the hash
/// of the last value stored for it (the value itself when it already was a
/// hash).
pub proof fn law_tokens_are_kept_hashed(stored: Seq<(Seq<char>, Seq<char>)>, name: Seq<char>)
    ensures
        unique_keys(loaded(stored)),
        forall|k: Seq<char>|
            #[trigger] lookup(loaded(stored), k) is Some ==> is_hash(lookup(loaded(stored), k)->0),
        lookup(loaded(stored), name) == match lookup(stored, name) {
            Some(v) => Some(kept_hash(v)),
            None => None,
        },
        lookup(stored, name) is Some && !is_hash(lookup(stored, name)->0) ==> token_accepted(
            loaded(stored),
            name,
            lookup(stored, name)->0,
        ),
    decreases stored.len(),
{
    reveal_strlit("sha256:");
    if stored.len() > 0 {
        let rest = stored.drop_last();
        law_tokens_are_kept_hashed(rest, name);
        let (k, v) = stored.last();
        lemma_upsert(loaded(rest), k, kept_hash(v));
        assert forall|key: Seq<char>| #[trigger] lookup(loaded(stored), key) is Some implies is_hash(
            lookup(loaded(stored), key)->0,
        ) by {
            if key != k {
                law_tokens_are_kept_hashed(rest, key);
            } else {
                let h = kept_hash(v);
                if !is_hash(v) {
                    assert(h.take(7) =~= "sha256:"@);
                }
            }
        }
        lemma_key_index(stored, name);
        lemma_key_index(rest, name);
        if name != k {
            assert(key_index(stored, name) == key_index(rest, name));
            if let Some(i) = key_index(rest, name) {
                assert(stored[i] == rest[i]);
            }
        }
    } else {
        assert(loaded(stored) =~= Seq::<(Seq<char>, Seq<char>)>::empty());
    }
}

/// What is saved back holds no token in the clear: every value in it is a
/// hash, the hash of a value that was stored in the clear, for the same
/// feed.
pub proof fn law_saved_back_values_are_hashes(stored: Seq<(Seq<char>, Seq<char>)>)
    ensures
        forall|i: int| 0 <= i < rehashed(stored).len() ==> is_hash(#[trigger] rehashed(stored)[i].1),
        forall|i: int|
            0 <= i < rehashed(stored).len() ==> exists|j: int|
                0 <= j < stored.len() && !is_hash(stored[j].1) && #[trigger] rehashed(stored)[i] == (
                    stored[j].0,
                    hashed(stored[j].1),
                ),
    decreases stored.len(),
{
    reveal_strlit("sha256:");
    if stored.len() > 0 {
        let rest = stored.drop_last();
        law_saved_back_values_are_hashes(rest);
        let r = rehashed(stored);
        let n = rehashed(rest).len();
        assert forall|i: int| 0 <= i < r.len() implies is_hash(#[trigger] r[i].1) by {
            if i == n && !is_hash(stored.last().1) {
                assert(hashed(stored.last().1).take(7) =~= "sha256:"@);
            } else {
                assert(r[i] == rehashed(rest)[i]);
            }
        }
        assert forall|i: int| 0 <= i < r.len() implies exists|j: int|
            0 <= j < stored.len() && !is_hash(stored[j].1) && #[trigger] r[i] == (stored[j].0, hashed(stored[j].1)) by {
            if i == n && !is_hash(stored.last().1) {
                assert(stored[stored.len() - 1] == stored.last());
            } else {
                assert(r[i] == rehashed(rest)[i]);
                let j = choose|j: int|
                    0 <= j < rest.len() && !is_hash(rest[j].1) && #[trigger] rehashed(rest)[i] == (rest[j].0, hashed(rest[j].1));
                assert(stored[j] == rest[j]);
            }
        }
    }
}

} // verus!
