//! Recently sent alerts, for dedupe and the alert list.
//!
//! Game alert ids are `<game>:<kind>:<away>-<home>`, so a score that's taken
//! back and quickly given again (a review) isn't announced twice. But after
//! a score comes off (a disallowed goal), a real score later that lands on
//! the same numbers must still be announced: an id sent before the game's
//! last correction may be sent again once [`REPEAT_AFTER_MS`] has passed.
//!
//! Times are milliseconds since the Unix epoch.

use vstd::prelude::*;
use crate::keyed::{
    find_key, key_index, keyed, lemma_drop_first, lemma_key_index, lemma_upsert, lookup, unique_keys,
    upsert, upsert_exec,
};

verus! {

/// Most alert ids remembered; the oldest is forgotten past this.
pub const SEEN_CAP: usize = 1000;

/// Most alerts kept for the alert list.
pub const RECENT_CAP: usize = 50;

/// A corrected score given back within this long (ten minutes) is the same
/// moment.
pub const REPEAT_AFTER_MS: i64 = 600_000;

// ---------------------------------------------------------------------------
// The history
// ---------------------------------------------------------------------------

/// Recently sent alerts (of type `A`), what was sent when, and the last
/// score correction per game.
pub struct AlertHistory<A> {
    /// Each alert id sent, in the order first sent, with when it was last
    /// sent.
    seen: Vec<(String, i64)>,
    /// The most recent alerts, newest first.
    recent: Vec<A>,
    /// The last score correction per game id.
    corrected: Vec<(String, i64)>,
}

/// An alert history as values.
pub struct HistoryView<A> {
    pub seen: Seq<(Seq<char>, i64)>,
    pub recent: Seq<A>,
    pub corrected: Seq<(Seq<char>, i64)>,
}

impl<A> View for AlertHistory<A> {
    type V = HistoryView<A>;

    closed spec fn view(&self) -> HistoryView<A> {
        HistoryView { seen: keyed(self.seen@), recent: self.recent@, corrected: keyed(self.corrected@) }
    }
}

/// Whether `game` had a score correction after `sent`.
pub open spec fn corrected_since<A>(h: HistoryView<A>, game: Option<Seq<char>>, sent: i64) -> bool {
    match game {
        Some(g) => match lookup(h.corrected, g) {
            Some(c) => c > sent,
            None => false,
        },
        None => false,
    }
}

/// Whether an alert with this id (about `game`, if any) is announced at
/// `now`: always the first time; again only when its game had a
/// correction since it was last sent and ten minutes have passed.
pub open spec fn may_send<A>(h: HistoryView<A>, id: Seq<char>, game: Option<Seq<char>>, now: i64) -> bool {
    match lookup(h.seen, id) {
        None => true,
        Some(sent) => corrected_since(h, game, sent) && now - sent >= REPEAT_AFTER_MS,
    }
}

/// The first `n` of `s`, or all of it when shorter.
pub open spec fn at_most<T>(s: Seq<T>, n: nat) -> Seq<T> {
    if s.len() > n {
        s.take(n as int)
    } else {
        s
    }
}

/// The history after sending `alert` (id `id`) at `now`: its id is stamped
/// (the oldest id forgotten past [`SEEN_CAP`]), the correction list is
/// emptied once it's past [`SEEN_CAP`], and the alert goes first in the
/// recent list, which keeps [`RECENT_CAP`].
pub open spec fn sent<A>(h: HistoryView<A>, id: Seq<char>, alert: A, now: i64) -> HistoryView<A> {
    let seen = upsert(h.seen, id, now);
    HistoryView {
        seen: if seen.len() > SEEN_CAP {
            seen.drop_first()
        } else {
            seen
        },
        recent: at_most(seq![alert] + h.recent, RECENT_CAP as nat),
        corrected: if h.corrected.len() > SEEN_CAP {
            Seq::empty()
        } else {
            h.corrected
        },
    }
}

/// Ids are not repeated and the lists stay within their caps.
pub open spec fn history_well_formed<A>(h: HistoryView<A>) -> bool {
    &&& unique_keys(h.seen)
    &&& unique_keys(h.corrected)
    &&& h.seen.len() <= SEEN_CAP
    &&& h.recent.len() <= RECENT_CAP
}

/// Once an alert is sent, its id is remembered with the time it went out,
/// so the same id is announced again only when its game's score was
/// corrected after that time and ten minutes have passed; other ids keep
/// what they had (the oldest one may be forgotten at the cap).
pub proof fn law_sent_alert_is_remembered<A>(
    h: HistoryView<A>,
    id: Seq<char>,
    alert: A,
    now: i64,
    game: Option<Seq<char>>,
    later: i64,
)
    requires
        history_well_formed(h),
    ensures
        history_well_formed(sent(h, id, alert, now)),
        lookup(sent(h, id, alert, now).seen, id) == Some(now),
        may_send(sent(h, id, alert, now), id, game, later) == (corrected_since(
            sent(h, id, alert, now),
            game,
            now,
        ) && later - now >= REPEAT_AFTER_MS),
        sent(h, id, alert, now).recent[0] == alert,
{
    lemma_upsert(h.seen, id, now);
    lemma_key_index(h.seen, id);
    let u = upsert(h.seen, id, now);
    if u.len() > SEEN_CAP {
        lemma_drop_first(u);
        lemma_key_index(u, id);
        assert(u.last().0 == id);
        assert(u[0].0 != id);
    }
    let h1 = sent(h, id, alert, now);
    assert(h1.recent[0] == alert);
}

/// Sending an alert puts it at the head of the recent list and moves every
/// earlier entry one place down, in order; the list grows by one until it
/// holds [`RECENT_CAP`], and after that only the oldest entry drops out.
pub proof fn law_recent_list_shifts_down<A>(h: HistoryView<A>, id: Seq<char>, alert: A, now: i64)
    requires
        history_well_formed(h),
    ensures
        ({
            let r = sent(h, id, alert, now).recent;
            &&& r.len() == if h.recent.len() < RECENT_CAP {
                (h.recent.len() + 1) as int
            } else {
                RECENT_CAP as int
            }
            &&& r[0] == alert
            &&& forall|i: int| 0 <= i < r.len() - 1 ==> #[trigger] r[i + 1] == h.recent[i]
        }),
{
    let r = sent(h, id, alert, now).recent;
    let all = seq![alert] + h.recent;
    assert forall|i: int| 0 <= i < r.len() - 1 implies #[trigger] r[i + 1] == h.recent[i] by {
        assert(r[i + 1] == all[i + 1]);
    }
}

/// A correction in a game after one of its alerts went out lets that alert's
/// id be announced again once ten minutes have passed since it was sent,
/// while a correction in another game doesn't.
pub proof fn law_correction_reopens_its_game<A>(
    h: HistoryView<A>,
    id: Seq<char>,
    game: Seq<char>,
    corrected_at: i64,
    other: Seq<char>,
    later: i64,
)
    requires
        history_well_formed(h),
        lookup(h.seen, id) is Some,
        corrected_at > lookup(h.seen, id)->0,
        later - lookup(h.seen, id)->0 >= REPEAT_AFTER_MS,
        other != game,
    ensures
        ({
            let h2 = HistoryView { corrected: upsert(h.corrected, game, corrected_at), ..h };
            &&& history_well_formed(h2)
            &&& may_send(h2, id, Some(game), later)
            &&& may_send(h2, id, Some(other), later) == may_send(h, id, Some(other), later)
            &&& !may_send(h2, id, None, later)
        }),
{
    lemma_upsert(h.corrected, game, corrected_at);
}

impl<A> AlertHistory<A> {
    /// Ids are not repeated and the lists stay within their caps.
    #[verifier::type_invariant]
    spec fn well_formed(self) -> bool {
        history_well_formed(self@)
    }

    /// An empty history.
    pub fn new() -> (h: Self)
        ensures
            h@.seen.len() == 0,
            h@.recent.len() == 0,
            h@.corrected.len() == 0,
    {
        AlertHistory { seen: Vec::new(), recent: Vec::new(), corrected: Vec::new() }
    }

    /// Records `alert` (id `id`; about `game`, if it's about one); false if
    /// it was already sent.
    pub fn insert(&mut self, id: &str, alert: A, game: Option<&str>, now: i64) -> (fresh: bool)
        ensures
            history_well_formed(old(self)@),
            history_well_formed(final(self)@),
            fresh == may_send(old(self)@, id@, option_view(game), now),
            fresh ==> final(self)@ == sent(old(self)@, id@, alert, now),
            !fresh ==> final(self)@ == old(self)@,
    {
        proof {
            use_type_invariant(&*self);
        }
        let key = id.to_owned();
        let j = find_key(&self.seen, &key);
        proof {
            lemma_key_index(self@.seen, id@);
        }
        match j {
            Some(j) => {
                let sent_at = self.seen[j].1;
                let corrected_since = match game {
                    Some(g) => {
                        let gk = g.to_owned();
                        let c = find_key(&self.corrected, &gk);
                        proof {
                            lemma_key_index(self@.corrected, g@);
                        }
                        match c {
                            Some(c) => self.corrected[c].1 > sent_at,
                            None => false,
                        }
                    },
                    None => false,
                };
                if !(corrected_since && (now as i128) - (sent_at as i128) >= REPEAT_AFTER_MS as i128) {
                    return false;
                }
            },
            None => {},
        }
        let ghost h0 = self@;
        proof {
            lemma_upsert(h0.seen, key@, now);
        }
        let mut seen: Vec<(String, i64)> = Vec::new();
        std::mem::swap(&mut seen, &mut self.seen);
        upsert_exec(&mut seen, key, now);
        if seen.len() > SEEN_CAP {
            proof {
                lemma_drop_first(keyed(seen@));
            }
            let ghost before = seen@;
            seen.remove(0);
            assert(keyed(seen@) =~= keyed(before).drop_first());
        }
        let mut corrected: Vec<(String, i64)> = Vec::new();
        std::mem::swap(&mut corrected, &mut self.corrected);
        if corrected.len() > SEEN_CAP {
            corrected.clear();
            assert(keyed(corrected@) =~= Seq::<(Seq<char>, i64)>::empty());
        }
        let mut recent: Vec<A> = Vec::new();
        std::mem::swap(&mut recent, &mut self.recent);
        let ghost a = alert;
        recent.insert(0, alert);
        recent.truncate(RECENT_CAP);
        proof {
            assert(keyed(seen@) =~= sent(h0, id@, a, now).seen);
            assert(recent@ =~= sent(h0, id@, a, now).recent);
            assert(keyed(corrected@) =~= sent(h0, id@, a, now).corrected);
        }
        self.seen = seen;
        self.corrected = corrected;
        self.recent = recent;
        true
    }

    /// A score in `game` went down at `now`.
    pub fn correction(&mut self, game: &str, now: i64)
        ensures
            final(self)@.seen == old(self)@.seen,
            final(self)@.recent == old(self)@.recent,
            final(self)@.corrected == upsert(old(self)@.corrected, game@, now),
    {
        proof {
            use_type_invariant(&*self);
        }
        let key = game.to_owned();
        proof {
            lemma_upsert(self@.corrected, key@, now);
        }
        let mut corrected: Vec<(String, i64)> = Vec::new();
        std::mem::swap(&mut corrected, &mut self.corrected);
        upsert_exec(&mut corrected, key, now);
        self.corrected = corrected;
    }

    /// The most recent alerts, newest first.
    pub fn recent(&self) -> (r: &Vec<A>)
        ensures
            r@ == self@.recent,
    {
        &self.recent
    }
}

/// The characters of an optional text.
pub open spec fn option_view(s: Option<&str>) -> Option<Seq<char>> {
    match s {
        Some(t) => Some(t@),
        None => None,
    }
}

} // verus!
