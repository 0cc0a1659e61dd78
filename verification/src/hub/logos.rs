//! Which provider logos to download: those of teams in today's games that
//! aren't cached yet and haven't failed before, each team once, within the
//! cache's room. The downloads themselves happen elsewhere.
use vstd::prelude::*;
use crate::admin::form::pair_views;
use crate::config::str_eq;
use crate::text::string_views;

verus! {

/// Most provider logos kept.
pub const MAX_PROVIDER_LOGOS: usize = 400;

/// The teams as (id, logo link) characters.
pub open spec fn team_views(teams: Seq<(String, Option<String>)>) -> Seq<(Seq<char>, Option<Seq<char>>)> {
    teams.map_values(
        |t: (String, Option<String>)|
            (
                t.0@,
                match t.1 {
                    Some(u) => Some(u@),
                    None => None,
                },
            ),
    )
}

/// The teams' ids.
pub open spec fn team_ids(teams: Seq<(Seq<char>, Option<Seq<char>>)>) -> Seq<Seq<char>> {
    teams.map_values(|t: (Seq<char>, Option<Seq<char>>)| t.0)
}

/// Every team worth a download, in order: not cached, not failed before,
/// not listed earlier, and with a logo link.
pub open spec fn new_logos(
    teams: Seq<(Seq<char>, Option<Seq<char>>)>,
    have: Seq<Seq<char>>,
    failed: Seq<Seq<char>>,
) -> Seq<(Seq<char>, Seq<char>)>
    decreases teams.len(),
{
    if teams.len() == 0 {
        Seq::empty()
    } else {
        let prev = teams.drop_last();
        let t = teams.last();
        let rest = new_logos(prev, have, failed);
        if !have.contains(t.0) && !failed.contains(t.0) && !team_ids(prev).contains(t.0) {
            match t.1 {
                Some(u) => rest.push((t.0, u)),
                None => rest,
            }
        } else {
            rest
        }
    }
}

/// The first `n` of `s` (all of it when it's shorter).
pub open spec fn at_most<A>(s: Seq<A>, n: nat) -> Seq<A> {
    if s.len() <= n {
        s
    } else {
        s.take(n as int)
    }
}

/// The logos to download: the new ones, as many as fit in `cap` beside the
/// `have` already cached.
pub open spec fn wanted(
    teams: Seq<(Seq<char>, Option<Seq<char>>)>,
    have: Seq<Seq<char>>,
    failed: Seq<Seq<char>>,
    cap: nat,
) -> Seq<(Seq<char>, Seq<char>)> {
    at_most(new_logos(teams, have, failed), if have.len() < cap { (cap - have.len()) as nat } else { 0 })
}

/// What the new logos hold: teams not cached and not failed, each id once,
/// each with a logo link that the team was listed with.
proof fn lemma_new_logos(
    teams: Seq<(Seq<char>, Option<Seq<char>>)>,
    have: Seq<Seq<char>>,
    failed: Seq<Seq<char>>,
)
    ensures
        ({
            let r = new_logos(teams, have, failed);
            &&& forall|i: int| 0 <= i < r.len() ==> !have.contains(#[trigger] r[i].0) && !failed.contains(r[i].0)
            &&& forall|i: int, j: int| 0 <= i < j < r.len() ==> #[trigger] r[i].0 != #[trigger] r[j].0
            &&& forall|i: int|
                #![trigger r[i]]
                0 <= i < r.len() ==> exists|k: int|
                    0 <= k < teams.len() && #[trigger] teams[k] == (r[i].0, Some(r[i].1))
        }),
    decreases teams.len(),
{
    if teams.len() > 0 {
        let prev = teams.drop_last();
        let t = teams.last();
        lemma_new_logos(prev, have, failed);
        let rest = new_logos(prev, have, failed);
        let r = new_logos(teams, have, failed);
        assert forall|i: int| #![trigger rest[i]] 0 <= i < rest.len() implies exists|k: int|
            0 <= k < teams.len() && #[trigger] teams[k] == (rest[i].0, Some(rest[i].1)) by {
            let k = choose|k: int| 0 <= k < prev.len() && #[trigger] prev[k] == (rest[i].0, Some(rest[i].1));
            assert(teams[k] == prev[k]);
        }
        if r.len() > rest.len() {
            assert(r == rest.push((t.0, t.1->0)));
            assert(teams[teams.len() - 1] == (t.0, Some(t.1->0)));
            assert forall|i: int| 0 <= i < rest.len() implies rest[i].0 != t.0 by {
                let k = choose|k: int| 0 <= k < prev.len() && #[trigger] prev[k] == (rest[i].0, Some(rest[i].1));
                assert(team_ids(prev)[k] == rest[i].0);
            }
        }
    }
}

/// A team listed with a link, not cached, not failed and not listed
/// earlier is among the new logos.
proof fn lemma_new_logos_complete(
    teams: Seq<(Seq<char>, Option<Seq<char>>)>,
    have: Seq<Seq<char>>,
    failed: Seq<Seq<char>>,
    k: int,
)
    requires
        0 <= k < teams.len(),
        teams[k].1 is Some,
        !have.contains(teams[k].0),
        !failed.contains(teams[k].0),
        !team_ids(teams.take(k)).contains(teams[k].0),
    ensures
        new_logos(teams, have, failed).contains((teams[k].0, teams[k].1->0)),
    decreases teams.len(),
{
    let prev = teams.drop_last();
    let rest = new_logos(prev, have, failed);
    if k == teams.len() - 1 {
        assert(teams.take(k) =~= prev);
        let r = new_logos(teams, have, failed);
        assert(r == rest.push((teams[k].0, teams[k].1->0)));
        assert(r[rest.len() as int] == (teams[k].0, teams[k].1->0));
    } else {
        assert(prev.take(k) =~= teams.take(k));
        assert(prev[k] == teams[k]);
        lemma_new_logos_complete(prev, have, failed, k);
        let j = choose|j: int| 0 <= j < rest.len() && rest[j] == (teams[k].0, teams[k].1->0);
        let r = new_logos(teams, have, failed);
        assert(r[j] == rest[j]);
    }
}

/// The logos to download are for teams that aren't cached and haven't
/// failed, each team once, each with a link it was listed with, and no
/// more than fit in the cache's room beside those already cached.
pub proof fn law_wanted_logos_are_new(
    teams: Seq<(Seq<char>, Option<Seq<char>>)>,
    have: Seq<Seq<char>>,
    failed: Seq<Seq<char>>,
    cap: nat,
)
    ensures
        ({
            let r = wanted(teams, have, failed, cap);
            &&& have.len() + r.len() <= cap || r.len() == 0
            &&& forall|k: int|
                0 <= k < teams.len() && (#[trigger] teams[k]).1 is Some && !have.contains(teams[k].0)
                    && !failed.contains(teams[k].0) && !team_ids(teams.take(k)).contains(teams[k].0)
                    ==> r.contains((teams[k].0, teams[k].1->0)) || have.len() + r.len() >= cap
            &&& forall|i: int| 0 <= i < r.len() ==> !have.contains(#[trigger] r[i].0) && !failed.contains(r[i].0)
            &&& forall|i: int, j: int| 0 <= i < j < r.len() ==> #[trigger] r[i].0 != #[trigger] r[j].0
            &&& forall|i: int|
                #![trigger r[i]]
                0 <= i < r.len() ==> exists|k: int|
                    0 <= k < teams.len() && #[trigger] teams[k] == (r[i].0, Some(r[i].1))
        }),
{
    lemma_new_logos(teams, have, failed);
    let n = new_logos(teams, have, failed);
    let r = wanted(teams, have, failed, cap);
    assert forall|i: int| 0 <= i < r.len() implies r[i] == n[i] by {}
    assert forall|k: int|
        0 <= k < teams.len() && (#[trigger] teams[k]).1 is Some && !have.contains(teams[k].0)
            && !failed.contains(teams[k].0) && !team_ids(teams.take(k)).contains(teams[k].0)
            implies r.contains((teams[k].0, teams[k].1->0)) || have.len() + r.len() >= cap by {
        lemma_new_logos_complete(teams, have, failed, k);
        if r.len() == n.len() {
            assert(r =~= n);
        }
    }
}

/// Whether `s` is among `v`.
fn contains_text(v: &Vec<String>, s: &String) -> (r: bool)
    ensures
        r == string_views(v@).contains(s@),
{
    let mut i: usize = 0;
    while i < v.len()
        invariant
            i <= v@.len(),
            forall|j: int| 0 <= j < i ==> string_views(v@)[j] != s@,
        decreases v@.len() - i,
    {
        if str_eq(v[i].as_str(), s.as_str()) {
            assert(string_views(v@)[i as int] == s@);
            return true;
        }
        i = i + 1;
    }
    false
}

/// Whether a team before position `i` has the id `id`.
fn listed_before(teams: &Vec<(String, Option<String>)>, i: usize, id: &String) -> (r: bool)
    requires
        i <= teams@.len(),
    ensures
        r == team_ids(team_views(teams@).take(i as int)).contains(id@),
{
    let ghost ids = team_ids(team_views(teams@).take(i as int));
    let mut k: usize = 0;
    while k < i
        invariant
            k <= i <= teams@.len(),
            ids == team_ids(team_views(teams@).take(i as int)),
            ids.len() == i,
            forall|j: int| 0 <= j < k ==> ids[j] != id@,
        decreases i - k,
    {
        assert(ids[k as int] == teams@[k as int].0@);
        if str_eq(teams[k].0.as_str(), id.as_str()) {
            return true;
        }
        k = k + 1;
    }
    false
}

/// The logos to download for today's teams (each game's away and home
/// team, in order, with its logo link if the provider has one): teams not
/// among `have` (cached) or `failed`, each once, and no more than `cap`
/// logos cached in all.
pub fn wanted_logos(
    teams: &Vec<(String, Option<String>)>,
    have: &Vec<String>,
    failed: &Vec<String>,
    cap: usize,
) -> (r: Vec<(String, String)>)
    ensures
        pair_views(r@) == wanted(team_views(teams@), string_views(have@), string_views(failed@), cap as nat),
{
    let room: usize = if have.len() < cap {
        cap - have.len()
    } else {
        0
    };
    let ghost tv = team_views(teams@);
    let ghost hv = string_views(have@);
    let ghost fv = string_views(failed@);
    let mut out: Vec<(String, String)> = Vec::new();
    let mut i: usize = 0;
    while i < teams.len()
        invariant
            i <= teams@.len(),
            tv == team_views(teams@),
            hv == string_views(have@),
            fv == string_views(failed@),
            pair_views(out@) == at_most(new_logos(tv.take(i as int), hv, fv), room as nat),
            out@.len() <= room,
        decreases teams@.len() - i,
    {
        let ghost before = new_logos(tv.take(i as int), hv, fv);
        assert(tv.take(i + 1).drop_last() =~= tv.take(i as int));
        assert(tv.take(i + 1).last() == tv[i as int]);
        let id = &teams[i].0;
        let fresh = !contains_text(have, id) && !contains_text(failed, id) && !listed_before(teams, i, id);
        if fresh {
            match &teams[i].1 {
                Some(url) => {
                    assert(new_logos(tv.take(i + 1), hv, fv) == before.push((id@, url@)));
                    if out.len() < room {
                        let ghost old_out = out@;
                        out.push((id.clone(), url.clone()));
                        assert(pair_views(out@) =~= pair_views(old_out).push((id@, url@)));
                        assert(before.len() == old_out.len());
                        assert(before.push((id@, url@)).len() <= room);
                    } else {
                        assert(before.len() >= room);
                        assert(at_most(before.push((id@, url@)), room as nat) =~= at_most(before, room as nat));
                    }
                },
                None => {
                    assert(new_logos(tv.take(i + 1), hv, fv) == before);
                },
            }
        } else {
            assert(new_logos(tv.take(i + 1), hv, fv) == before);
        }
        i = i + 1;
    }
    assert(tv.take(teams@.len() as int) =~= tv);
    out
}

} // verus!
