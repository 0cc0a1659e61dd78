//! Which alerts may take over the screen, and the feed API's rate limits.
//!
//! Times are milliseconds since the Unix epoch.

use vstd::prelude::*;
use crate::keyed::{find_key, keyed, lemma_key_index, lemma_upsert, lookup, unique_keys, upsert, upsert_exec};

verus! {

/// Which big plays take over the screen.
#[derive(Clone, Copy, Debug, PartialEq, Eq, Structural)]
pub enum TakeoverPolicy {
    All,
    Favorites,
    Off,
}

/// How loudly an alert is shown: a flash in the ticker, or a takeover of
/// the widget area.
#[derive(Clone, Copy, Debug, PartialEq, Eq, Structural)]
pub enum AlertLevel {
    Flash,
    Takeover,
}

/// Whether a big play may take over: always, never, or (favorites only)
/// when the scoring team is a favorite or the play is by one of my fantasy
/// starters.
pub open spec fn takeover_allowed(policy: TakeoverPolicy, scorer_is_favorite: bool, my_starter: bool) -> bool {
    match policy {
        TakeoverPolicy::All => true,
        TakeoverPolicy::Off => false,
        TakeoverPolicy::Favorites => my_starter || scorer_is_favorite,
    }
}

/// What the takeover policy decides of an alert: how it is shown, and the
/// takeover content (words, art, colors) it carries, of whatever type the
/// caller keeps that in.
#[derive(Clone, Debug, PartialEq, Eq)]
pub struct Shown<T> {
    pub level: AlertLevel,
    pub takeover: Option<T>,
}

/// The alert as a ticker flash: no takeover content is left.
pub open spec fn as_flash<T>() -> Shown<T> {
    Shown { level: AlertLevel::Flash, takeover: None }
}

/// Applies the takeover policy to a game alert: big plays by non-favorites
/// (or all, when takeovers are off) are downgraded to a ticker flash and
/// lose their takeover content. A play by one of my fantasy starters counts
/// as a favorite's. `scorer_is_favorite` is false when no side scored.
pub fn apply_takeover_policy<T>(
    alert: Shown<T>,
    policy: TakeoverPolicy,
    scorer_is_favorite: bool,
    my_starter: bool,
) -> (r: Shown<T>)
    ensures
        r == (if alert.level == AlertLevel::Takeover && !takeover_allowed(
            policy,
            scorer_is_favorite,
            my_starter,
        ) {
            as_flash::<T>()
        } else {
            alert
        }),
{
    if alert.level != AlertLevel::Takeover {
        return alert;
    }
    let allowed = match policy {
        TakeoverPolicy::All => true,
        TakeoverPolicy::Off => false,
        TakeoverPolicy::Favorites => my_starter || scorer_is_favorite,
    };
    if !allowed {
        Shown { level: AlertLevel::Flash, takeover: None }
    } else {
        alert
    }
}

/// A non-game alert (weather, feeds): with takeovers off it's shown as a
/// flash, without its takeover content.
pub fn non_game_level<T>(alert: Shown<T>, policy: TakeoverPolicy) -> (r: Shown<T>)
    ensures
        r == (if policy == TakeoverPolicy::Off {
            as_flash::<T>()
        } else {
            alert
        }),
{
    if policy == TakeoverPolicy::Off {
        Shown { level: AlertLevel::Flash, takeover: None }
    } else {
        alert
    }
}

/// With takeovers off nothing takes over, whatever the alert; with all,
/// a game's takeover stays one; with favorites only, a game's takeover
/// stays one exactly when a favorite scored or my starter made the play.
pub proof fn law_takeovers_follow_the_policy(level: AlertLevel, favorite: bool, mine: bool)
    ensures
        ({
            let game_off = if level == AlertLevel::Takeover && !takeover_allowed(
                TakeoverPolicy::Off,
                favorite,
                mine,
            ) {
                AlertLevel::Flash
            } else {
                level
            };
            game_off == AlertLevel::Flash
        }),
        takeover_allowed(TakeoverPolicy::All, favorite, mine),
        takeover_allowed(TakeoverPolicy::Favorites, favorite, mine) == (favorite || mine),
{
}

/// Why a feed post or alert wasn't taken.
#[derive(Debug, PartialEq, Eq)]
pub enum FeedError {
    Invalid(String),
    /// Too soon after the last one; retry after this many seconds.
    TooSoon(i64),
}

/// Least time between alerts from one feed.
pub const FEED_ALERT_GAP_MS: i64 = 5_000;

/// Least time between two content posts to one feed: each one makes the
/// display draw and upload the ticker again.
pub const FEED_POST_GAP_MS: i64 = 2_000;

/// Least time between two takeovers from one feed.
pub const FEED_TAKEOVER_GAP_MS: i64 = 30_000;

/// Whole seconds until `since + gap`, at least one.
pub open spec fn wait_secs(since: int, gap: int, now: int) -> int {
    let d = (since + gap - now) / 1000;
    if d < 1 {
        1
    } else {
        d
    }
}

fn wait(since: i64, gap: i64, now: i64) -> (w: i64)
    requires
        0 < since + gap - now,
        0 <= gap <= FEED_TAKEOVER_GAP_MS,
    ensures
        w == wait_secs(since as int, gap as int, now as int),
{
    let x: i128 = since as i128 + gap as i128 - now as i128;
    let d: i128 = x / 1000;
    assert(d <= x) by (nonlinear_arith)
        requires
            d == x / 1000,
            x > 0,
    ;
    if d < 1 {
        1
    } else {
        assert(d <= i64::MAX) by (nonlinear_arith)
            requires
                d == x / 1000,
                x <= 2 * 0x8000_0000_0000_0000 + 30_000,
        ;
        d as i64
    }
}

/// When a content post from a feed whose last post was at `last` is
/// refused at `now`: within [`FEED_POST_GAP_MS`] of it, with the seconds to
/// wait.
pub open spec fn post_refusal(last: Option<i64>, now: i64) -> Option<int> {
    match last {
        Some(t) => if now - t < FEED_POST_GAP_MS {
            Some(wait_secs(t as int, FEED_POST_GAP_MS as int, now as int))
        } else {
            None
        },
        None => None,
    }
}

/// What a feed's last alert and last takeover become after an alert at
/// `now` (a takeover when `takeover`), or the seconds to wait when it's
/// refused: within [`FEED_ALERT_GAP_MS`] of the last alert, or a takeover
/// within [`FEED_TAKEOVER_GAP_MS`] of the last takeover.
pub open spec fn alert_outcome(last: Option<(i64, Option<i64>)>, takeover: bool, now: i64) -> Result<
    (i64, Option<i64>),
    int,
> {
    match last {
        None => Ok((now, if takeover {
            Some(now)
        } else {
            None
        })),
        Some((a, t)) => if now - a < FEED_ALERT_GAP_MS {
            Err(wait_secs(a as int, FEED_ALERT_GAP_MS as int, now as int))
        } else if takeover && t is Some && now - t->0 < FEED_TAKEOVER_GAP_MS {
            Err(wait_secs(t->0 as int, FEED_TAKEOVER_GAP_MS as int, now as int))
        } else {
            Ok((now, if takeover {
                Some(now)
            } else {
                t
            }))
        },
    }
}

/// Per feed: when its content was last replaced, and its last alert and
/// last takeover.
pub struct FeedLimits {
    posts: Vec<(String, i64)>,
    alerts: Vec<(String, (i64, Option<i64>))>,
}

/// The feed limits as values.
pub struct LimitsView {
    pub posts: Seq<(Seq<char>, i64)>,
    pub alerts: Seq<(Seq<char>, (i64, Option<i64>))>,
}

impl View for FeedLimits {
    type V = LimitsView;

    closed spec fn view(&self) -> LimitsView {
        LimitsView { posts: keyed(self.posts@), alerts: keyed(self.alerts@) }
    }
}

impl FeedLimits {
    /// Each feed is there once in each list.
    #[verifier::type_invariant]
    spec fn well_formed(self) -> bool {
        unique_keys(keyed(self.posts@)) && unique_keys(keyed(self.alerts@))
    }

    /// No posts or alerts yet.
    pub fn new() -> (l: Self)
        ensures
            l@.posts.len() == 0,
            l@.alerts.len() == 0,
    {
        let l = FeedLimits { posts: Vec::new(), alerts: Vec::new() };
        assert(l@.posts =~= Seq::<(Seq<char>, i64)>::empty());
        assert(l@.alerts =~= Seq::<(Seq<char>, (i64, Option<i64>))>::empty());
        l
    }

    /// Takes a content post to `name` at `now`, at most once every
    /// [`FEED_POST_GAP_MS`].
    pub fn check_post(&mut self, name: &str, now: i64) -> (r: Result<(), FeedError>)
        ensures
            match post_refusal(lookup(old(self)@.posts, name@), now) {
                Some(w) => r == Err::<(), FeedError>(FeedError::TooSoon(w as i64)) && final(self)@
                    == old(self)@,
                None => r is Ok && final(self)@.posts == upsert(old(self)@.posts, name@, now)
                    && final(self)@.alerts == old(self)@.alerts,
            },
    {
        proof {
            use_type_invariant(&*self);
        }
        let key = name.to_owned();
        let found = find_key(&self.posts, &key);
        proof {
            lemma_key_index(self@.posts, name@);
        }
        if let Some(i) = found {
            let last = self.posts[i].1;
            if (now as i128) - (last as i128) < FEED_POST_GAP_MS as i128 {
                return Err(FeedError::TooSoon(wait(last, FEED_POST_GAP_MS, now)));
            }
        }
        proof {
            lemma_upsert(self@.posts, name@, now);
        }
        let mut posts: Vec<(String, i64)> = Vec::new();
        std::mem::swap(&mut posts, &mut self.posts);
        upsert_exec(&mut posts, key, now);
        self.posts = posts;
        Ok(())
    }

    /// Takes an alert from `name` at `now` (a takeover when `takeover`),
    /// within its rate limits.
    pub fn check_alert(&mut self, name: &str, takeover: bool, now: i64) -> (r: Result<(), FeedError>)
        ensures
            match alert_outcome(lookup(old(self)@.alerts, name@), takeover, now) {
                Err(w) => r == Err::<(), FeedError>(FeedError::TooSoon(w as i64)) && final(self)@
                    == old(self)@,
                Ok(e) => r is Ok && final(self)@.alerts == upsert(old(self)@.alerts, name@, e)
                    && final(self)@.posts == old(self)@.posts,
            },
    {
        proof {
            use_type_invariant(&*self);
        }
        let key = name.to_owned();
        let found = find_key(&self.alerts, &key);
        proof {
            lemma_key_index(self@.alerts, name@);
        }
        let entry = match found {
            None => (now, if takeover {
                Some(now)
            } else {
                None
            }),
            Some(i) => {
                let (last, last_takeover) = self.alerts[i].1;
                if (now as i128) - (last as i128) < FEED_ALERT_GAP_MS as i128 {
                    return Err(FeedError::TooSoon(wait(last, FEED_ALERT_GAP_MS, now)));
                }
                if takeover {
                    if let Some(t) = last_takeover {
                        if (now as i128) - (t as i128) < FEED_TAKEOVER_GAP_MS as i128 {
                            return Err(FeedError::TooSoon(wait(t, FEED_TAKEOVER_GAP_MS, now)));
                        }
                    }
                }
                (now, if takeover {
                    Some(now)
                } else {
                    last_takeover
                })
            },
        };
        proof {
            lemma_upsert(self@.alerts, name@, entry);
        }
        let mut alerts: Vec<(String, (i64, Option<i64>))> = Vec::new();
        std::mem::swap(&mut alerts, &mut self.alerts);
        upsert_exec(&mut alerts, key, entry);
        self.alerts = alerts;
        Ok(())
    }
}

/// After a feed's post is taken at `now`, another post to it is refused
/// until [`FEED_POST_GAP_MS`] has passed and taken from then on; other
/// feeds' limits are unchanged.
pub proof fn law_posts_are_spaced(
    posts: Seq<(Seq<char>, i64)>,
    name: Seq<char>,
    now: i64,
    later: i64,
    other: Seq<char>,
)
    requires
        unique_keys(posts),
        post_refusal(lookup(posts, name), now) is None,
        now <= later,
    ensures
        post_refusal(lookup(upsert(posts, name, now), name), later) is Some <==> later - now
            < FEED_POST_GAP_MS,
        other != name ==> lookup(upsert(posts, name, now), other) == lookup(posts, other),
{
    lemma_upsert(posts, name, now);
}

/// After a feed's alert is taken at `now`, its next alert is refused within
/// [`FEED_ALERT_GAP_MS`]; after a takeover, its next takeover is refused
/// within [`FEED_TAKEOVER_GAP_MS`] too, while a flash is taken once the
/// alert gap has passed.
pub proof fn law_alerts_are_spaced(
    alerts: Seq<(Seq<char>, (i64, Option<i64>))>,
    name: Seq<char>,
    takeover: bool,
    now: i64,
    next_takeover: bool,
    later: i64,
)
    requires
        unique_keys(alerts),
        alert_outcome(lookup(alerts, name), takeover, now) is Ok,
        now <= later,
    ensures
        ({
            let after = upsert(alerts, name, alert_outcome(lookup(alerts, name), takeover, now)->Ok_0);
            &&& later - now < FEED_ALERT_GAP_MS ==> alert_outcome(
                lookup(after, name),
                next_takeover,
                later,
            ) is Err
            &&& takeover && next_takeover && later - now < FEED_TAKEOVER_GAP_MS ==> alert_outcome(
                lookup(after, name),
                next_takeover,
                later,
            ) is Err
            &&& later - now >= FEED_ALERT_GAP_MS && !next_takeover ==> alert_outcome(
                lookup(after, name),
                next_takeover,
                later,
            ) is Ok
        }),
{
    lemma_upsert(alerts, name, alert_outcome(lookup(alerts, name), takeover, now)->Ok_0);
}

} // verus!
