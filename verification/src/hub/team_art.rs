//! The limits on team colors, logos and LED takeover art people add: which
//! teams have art, and which of them have LED takeover art. The art itself
//! is kept by the caller.

use vstd::prelude::*;
use crate::keyed::{find_key, key_index, keyed, lemma_key_index, lemma_upsert, lookup, unique_keys, upsert, upsert_exec};
use crate::text::{dec, push_dec};

verus! {

/// Most teams with custom colors or logos. At 128 px, all their logos are
/// about 16 MB for each display to receive, in chunks.
pub const MAX_TEAM_ART: usize = 250;

/// Teams with LED takeover art, at most (art can be up to about 1 MB each).
pub const MAX_ART_TEAMS: usize = 32;

/// The entries whose team isn't in `current` (each counted, repeats too).
pub open spec fn count_new(current: Seq<(Seq<char>, bool)>, entries: Seq<(Seq<char>, bool)>) -> nat
    decreases entries.len(),
{
    if entries.len() == 0 {
        0
    } else {
        count_new(current, entries.drop_last()) + (if key_index(current, entries.last().0) is None {
            1nat
        } else {
            0nat
        })
    }
}

/// The entries with LED art.
pub open spec fn count_art(entries: Seq<(Seq<char>, bool)>) -> nat
    decreases entries.len(),
{
    if entries.len() == 0 {
        0
    } else {
        count_art(entries.drop_last()) + (if entries.last().1 {
            1nat
        } else {
            0nat
        })
    }
}

/// The teams in `current` with LED art that `entries` doesn't replace.
pub open spec fn count_art_kept(current: Seq<(Seq<char>, bool)>, entries: Seq<(Seq<char>, bool)>) -> nat
    decreases current.len(),
{
    if current.len() == 0 {
        0
    } else {
        count_art_kept(current.drop_last(), entries) + (if current.last().1 && key_index(
            entries,
            current.last().0,
        ) is None {
            1nat
        } else {
            0nat
        })
    }
}

/// Why adding `entries` to `current` is refused, if it is: past
/// [`MAX_TEAM_ART`] teams, or past [`MAX_ART_TEAMS`] teams with LED art.
pub open spec fn art_refusal(current: Seq<(Seq<char>, bool)>, entries: Seq<(Seq<char>, bool)>) -> Option<
    Seq<char>,
> {
    let teams = current.len() + count_new(current, entries);
    let with_art = count_art_kept(current, entries) + count_art(entries);
    if teams > MAX_TEAM_ART {
        Some(
            "Marqueet keeps colors and logos for up to 250 teams; that would make "@ + dec(teams)
                + ". Remove some first."@,
        )
    } else if with_art > MAX_ART_TEAMS {
        Some(
            "Marqueet keeps LED takeover art for up to 32 teams; that would make "@ + dec(with_art)
                + ". Remove some first."@,
        )
    } else {
        None
    }
}

/// The table after adding `entries` in order, a later entry for a team
/// replacing an earlier one.
pub open spec fn added(current: Seq<(Seq<char>, bool)>, entries: Seq<(Seq<char>, bool)>) -> Seq<
    (Seq<char>, bool),
>
    decreases entries.len(),
{
    if entries.len() == 0 {
        current
    } else {
        upsert(added(current, entries.drop_last()), entries.last().0, entries.last().1)
    }
}

/// The teams with art, and whether each has LED takeover art.
pub struct TeamArtTable {
    teams: Vec<(String, bool)>,
}

impl View for TeamArtTable {
    type V = Seq<(Seq<char>, bool)>;

    closed spec fn view(&self) -> Seq<(Seq<char>, bool)> {
        keyed(self.teams@)
    }
}

impl TeamArtTable {
    /// Each team is there once, and no more than [`MAX_TEAM_ART`] teams
    /// have art.
    #[verifier::type_invariant]
    spec fn well_formed(self) -> bool {
        unique_keys(keyed(self.teams@)) && self.teams@.len() <= MAX_TEAM_ART
    }


    /// No team art.
    pub fn new() -> (t: Self)
        ensures
            t@.len() == 0,
    {
        let t = TeamArtTable { teams: Vec::new() };
        assert(t@ =~= Seq::<(Seq<char>, bool)>::empty());
        t
    }

    /// How many teams have art.
    pub fn len(&self) -> (n: usize)
        ensures
            n == self@.len(),
    {
        self.teams.len()
    }

    /// Adds or replaces art for teams (`(team, has LED art)`). Refused when
    /// it would go past [`MAX_TEAM_ART`] teams or [`MAX_ART_TEAMS`] teams
    /// with LED art.
    pub fn set_team_art(&mut self, entries: &Vec<(String, bool)>) -> (r: Result<(), String>)
        requires
            old(self)@.len() + entries@.len() <= usize::MAX,
        ensures
            unique_keys(final(self)@),
            final(self)@.len() <= MAX_TEAM_ART,
            match art_refusal(old(self)@, keyed(entries@)) {
                Some(e) => r matches Err(m) && m@ == e && final(self)@ == old(self)@,
                None => r is Ok && final(self)@ == added(old(self)@, keyed(entries@)),
            },
    {
        proof {
            use_type_invariant(&*self);
        }
        let ghost cur = self@;
        let ghost es = keyed(entries@);
        let mut new: usize = 0;
        let mut with_art: usize = 0;
        let mut i: usize = 0;
        while i < entries.len()
            invariant
                i <= entries@.len(),
                cur == self@,
                es == keyed(entries@),
                cur.len() <= MAX_TEAM_ART,
                new == count_new(cur, es.take(i as int)),
                with_art == count_art(es.take(i as int)),
                new <= i,
                with_art <= i,
            decreases entries@.len() - i,
        {
            assert(es.take(i + 1).drop_last() =~= es.take(i as int));
            let found = find_key(&self.teams, &entries[i].0);
            if found.is_none() {
                new = new + 1;
            }
            if entries[i].1 {
                with_art = with_art + 1;
            }
            i = i + 1;
        }
        assert(es.take(entries@.len() as int) =~= es);
        let mut kept: usize = 0;
        let mut j: usize = 0;
        while j < self.teams.len()
            invariant
                j <= self.teams@.len(),
                cur == self@,
                es == keyed(entries@),
                kept == count_art_kept(cur.take(j as int), es),
                kept <= j,
                new <= entries@.len(),
                with_art <= entries@.len(),
                cur.len() + entries@.len() <= usize::MAX,
            decreases self.teams@.len() - j,
        {
            assert(cur.take(j + 1).drop_last() =~= cur.take(j as int));
            if self.teams[j].1 && find_key(entries, &self.teams[j].0).is_none() {
                kept = kept + 1;
            }
            j = j + 1;
        }
        assert(cur.take(self.teams@.len() as int) =~= cur);
        let teams = self.teams.len() + new;
        if teams > MAX_TEAM_ART {
            let mut m = "Marqueet keeps colors and logos for up to 250 teams; that would make ".to_owned();
            push_dec(&mut m, teams as u64);
            m.append(". Remove some first.");
            return Err(m);
        }
        let art = kept + with_art;
        if art > MAX_ART_TEAMS {
            let mut m = "Marqueet keeps LED takeover art for up to 32 teams; that would make ".to_owned();
            push_dec(&mut m, art as u64);
            m.append(". Remove some first.");
            return Err(m);
        }
        let mut teams: Vec<(String, bool)> = Vec::new();
        std::mem::swap(&mut teams, &mut self.teams);
        let mut k: usize = 0;
        assert(added(cur, es.take(0)) =~= cur);
        while k < entries.len()
            invariant
                k <= entries@.len(),
                es == keyed(entries@),
                cur.len() + count_new(cur, es) <= MAX_TEAM_ART,
                unique_keys(keyed(teams@)),
                keyed(teams@) == added(cur, es.take(k as int)),
                keyed(teams@).len() <= cur.len() + count_new(cur, es.take(k as int)),
            decreases entries@.len() - k,
        {
            assert(es.take(k + 1).drop_last() =~= es.take(k as int));
            proof {
                lemma_upsert(keyed(teams@), es[k as int].0, es[k as int].1);
                lemma_count_new_added(cur, es.take(k as int), es[k as int].0);
                lemma_count_new_prefix(cur, es, k as int + 1);
            }
            let name = entries[k].0.clone();
            upsert_exec(&mut teams, name, entries[k].1);
            k = k + 1;
        }
        assert(es.take(entries@.len() as int) =~= es);
        self.teams = teams;
        Ok(())
    }

    /// Forgets a team's art.
    pub fn remove_team_art(&mut self, team: &str)
        ensures
            unique_keys(final(self)@),
            lookup(final(self)@, team@) is None,
            forall|k: Seq<char>| k != team@ ==> lookup(#[trigger] final(self)@, k) == lookup(old(self)@, k),
            final(self)@.len() <= old(self)@.len(),
    {
        proof {
            use_type_invariant(&*self);
        }
        let key = team.to_owned();
        let found = find_key(&self.teams, &key);
        proof {
            lemma_key_index(self@, team@);
        }
        if let Some(i) = found {
            let ghost before = self@;
            let mut teams: Vec<(String, bool)> = Vec::new();
            std::mem::swap(&mut teams, &mut self.teams);
            assert(keyed(teams@) == before);
            teams.remove(i);
            let ghost after = keyed(teams@);
            assert(after =~= before.remove(i as int));
            proof {
                assert forall|a: int, b: int| 0 <= a < b < after.len() implies #[trigger] after[a].0
                    != #[trigger] after[b].0 by {
                    let a2 = if a < i { a } else { a + 1 };
                    let b2 = if b < i { b } else { b + 1 };
                    assert(after[a] == before[a2] && after[b] == before[b2]);
                }
                lemma_key_index(after, team@);
                assert forall|k: Seq<char>| k != team@ implies #[trigger] lookup(after, k) == lookup(before, k) by {
                    lemma_key_index(before, k);
                    lemma_key_index(after, k);
                    if let Some(j) = key_index(before, k) {
                        assert(after[if j < i { j } else { j - 1 }] == before[j]);
                        crate::keyed::lemma_key_at(after, k, if j < i { j } else { j - 1 });
                    } else {
                        if let Some(j) = key_index(after, k) {
                            assert(after[j] == before[if j < i { j } else { j + 1 }]);
                        }
                    }
                }
            }
            self.teams = teams;
        }
    }
}

/// Counting LED art while leaving out one team that has an entry.
proof fn lemma_count_art_kept_one(cur: Seq<(Seq<char>, bool)>, k: Seq<char>, flag: bool)
    requires
        unique_keys(cur),
    ensures
        count_art_kept(cur, seq![(k, flag)]) + (if lookup(cur, k) == Some(true) {
            1nat
        } else {
            0nat
        }) == count_art(cur),
    decreases cur.len(),
{
    reveal_with_fuel(key_index, 2);
    if cur.len() > 0 {
        let d = cur.drop_last();
        assert(unique_keys(d)) by {
            assert forall|a: int, b: int| 0 <= a < b < d.len() implies #[trigger] d[a].0 != #[trigger] d[b].0 by {
                assert(d[a] == cur[a] && d[b] == cur[b]);
            }
        }
        lemma_count_art_kept_one(d, k, flag);
        lemma_key_index(cur, k);
        lemma_key_index(d, k);
        if cur.last().0 == k {
            assert forall|j: int| 0 <= j < d.len() implies d[j].0 != k by {
                assert(d[j] == cur[j]);
            }
        } else {
            if let Some(j) = key_index(d, k) {
                assert(cur[j] == d[j]);
                crate::keyed::lemma_key_at(cur, k, j);
            }
        }
    }
}

/// Replacing the art of a team that already has some is never refused (as
/// long as the table is within its limits and the team keeps or drops its
/// LED art); a new team is refused once [`MAX_TEAM_ART`] teams have art.
pub proof fn law_replacing_a_team_is_fine(cur: Seq<(Seq<char>, bool)>, team: Seq<char>, art: bool)
    requires
        unique_keys(cur),
        cur.len() <= MAX_TEAM_ART,
        count_art(cur) <= MAX_ART_TEAMS,
    ensures
        lookup(cur, team) is Some && (art ==> lookup(cur, team) == Some(true)) ==> art_refusal(
            cur,
            seq![(team, art)],
        ) is None,
        lookup(cur, team) is None && cur.len() == MAX_TEAM_ART ==> art_refusal(
            cur,
            seq![(team, art)],
        ) is Some,
{
    reveal_with_fuel(count_new, 2);
    reveal_with_fuel(count_art, 2);
    lemma_count_art_kept_one(cur, team, art);
    let e = seq![(team, art)];
    assert(e.drop_last() =~= Seq::<(Seq<char>, bool)>::empty());
}

/// Adding a team not yet in the table adds one to the count of new
/// entries.
proof fn lemma_count_new_added(cur: Seq<(Seq<char>, bool)>, es: Seq<(Seq<char>, bool)>, k: Seq<char>)
    requires
        unique_keys(added(cur, es)),
    ensures
        key_index(added(cur, es), k) is None ==> key_index(cur, k) is None,
    decreases es.len(),
{
    lemma_added_keeps(cur, es, k);
}

/// A team in the table stays there when more is added.
proof fn lemma_added_keeps(cur: Seq<(Seq<char>, bool)>, es: Seq<(Seq<char>, bool)>, k: Seq<char>)
    ensures
        key_index(cur, k) is Some ==> key_index(added(cur, es), k) is Some,
    decreases es.len(),
{
    if es.len() > 0 {
        lemma_added_keeps(cur, es.drop_last(), k);
        let a = added(cur, es.drop_last());
        lemma_key_index(a, k);
        lemma_key_index(a, es.last().0);
        let u = added(cur, es);
        if key_index(a, k) is Some {
            lemma_key_index(u, k);
            let i = key_index(a, k)->0;
            match key_index(a, es.last().0) {
                Some(j) => {
                    assert(u[i].0 == k);
                },
                None => {
                    assert(u[i] == a[i]);
                },
            }
        }
    }
}

/// The count of new entries only grows with more entries.
proof fn lemma_count_new_prefix(cur: Seq<(Seq<char>, bool)>, es: Seq<(Seq<char>, bool)>, n: int)
    requires
        0 <= n <= es.len(),
    ensures
        count_new(cur, es.take(n)) <= count_new(cur, es),
    decreases es.len(),
{
    if n < es.len() {
        assert(es.drop_last().take(n) =~= es.take(n));
        lemma_count_new_prefix(cur, es.drop_last(), n);
    } else {
        assert(es.take(n) =~= es);
    }
}

} // verus!
