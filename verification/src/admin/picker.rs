//! The team picker (admin page and welcome steps): the picks as tags on
//! top, one search across every league, and each league folded with a
//! count. The checkboxes named `favorite` are what's submitted; admin.js
//! keeps the tags and counts current and runs the search, and without
//! scripting the tags are labels that toggle their checkbox.

use vstd::prelude::*;
use crate::admin::page::{checked, esc, escaped};
use crate::text::{dec, push_dec};

verus! {

/// A league's teams for the picker: (league name, [(team id, team name)]).
pub type TeamGroups = Vec<(String, Vec<(String, String)>)>;

/// The groups as characters.
pub open spec fn groups_view(g: Seq<(String, Vec<(String, String)>)>) -> Seq<
    (Seq<char>, Seq<(Seq<char>, Seq<char>)>),
> {
    g.map_values(
        |e: (String, Vec<(String, String)>)|
            (e.0@, e.1@.map_values(|t: (String, String)| (t.0@, t.1@))),
    )
}

/// Every team in order as (league, id, name).
pub open spec fn flat(groups: Seq<(Seq<char>, Seq<(Seq<char>, Seq<char>)>)>) -> Seq<
    (Seq<char>, Seq<char>, Seq<char>),
>
    decreases groups.len(),
{
    if groups.len() == 0 {
        Seq::empty()
    } else {
        flat(groups.drop_last()) + groups.last().1.map_values(
            |t: (Seq<char>, Seq<char>)| (groups.last().0, t.0, t.1),
        )
    }
}

/// Position `i` is where its team first appears.
pub open spec fn first_at(f: Seq<(Seq<char>, Seq<char>, Seq<char>)>, i: int) -> bool {
    forall|j: int| 0 <= j < i ==> #[trigger] f[j].1 != f[i].1
}

/// How many teams first appear before position `i`.
pub open spec fn firsts_before(f: Seq<(Seq<char>, Seq<char>, Seq<char>)>, i: int) -> nat
    decreases i,
{
    if i <= 0 {
        0
    } else {
        firsts_before(f, i - 1) + (if first_at(f, i - 1) {
            1nat
        } else {
            0nat
        })
    }
}

/// The element id of the checkbox for the team first at `i`: "fav-1" for
/// the first team, "fav-2" for the next new one, and so on.
pub open spec fn dom_id(f: Seq<(Seq<char>, Seq<char>, Seq<char>)>, i: int) -> Seq<char> {
    "fav-"@ + dec(firsts_before(f, i) + 1)
}

/// The tag for a picked team, first at `i`.
pub open spec fn chip(f: Seq<(Seq<char>, Seq<char>, Seq<char>)>, i: int) -> Seq<char> {
    "<label class=\"chip\" for=\""@ + dom_id(f, i) + "\">"@ + escaped(f[i].2) + " <small>"@
        + escaped(f[i].0) + "</small> <span aria-hidden=\"true\">✕</span></label>"@
}

/// The tags for the picked teams among the first `k` positions, each team
/// once.
pub open spec fn chips(f: Seq<(Seq<char>, Seq<char>, Seq<char>)>, favs: Seq<Seq<char>>, k: int) -> Seq<char>
    decreases k,
{
    if k <= 0 {
        Seq::empty()
    } else {
        chips(f, favs, k - 1) + (if first_at(f, k - 1) && favs.contains(f[k - 1].1) {
            chip(f, k - 1)
        } else {
            Seq::empty()
        })
    }
}

/// The checkbox for the team first at `p`.
pub open spec fn team_box(f: Seq<(Seq<char>, Seq<char>, Seq<char>)>, favs: Seq<Seq<char>>, p: int) -> Seq<char> {
    "<label class=\"team\"><input type=\"checkbox\" name=\"favorite\" id=\""@ + dom_id(f, p)
        + "\" value=\""@ + escaped(f[p].1) + "\" data-league=\""@ + escaped(f[p].0) + "\""@ + (
    if favs.contains(f[p].1) {
        " checked"@
    } else {
        ""@
    }) + "> "@ + escaped(f[p].2) + "</label>"@
}

/// The checkboxes for positions `lo..k`, one for each team where it first
/// appears.
pub open spec fn boxes(f: Seq<(Seq<char>, Seq<char>, Seq<char>)>, favs: Seq<Seq<char>>, lo: int, k: int) -> Seq<char>
    decreases k - lo,
{
    if k <= lo {
        Seq::empty()
    } else {
        boxes(f, favs, lo, k - 1) + (if first_at(f, k - 1) {
            team_box(f, favs, k - 1)
        } else {
            Seq::empty()
        })
    }
}

/// How many of `teams` are picked (a team listed twice counts twice).
pub open spec fn picked_count(teams: Seq<(Seq<char>, Seq<char>)>, favs: Seq<Seq<char>>) -> nat
    decreases teams.len(),
{
    if teams.len() == 0 {
        0
    } else {
        picked_count(teams.drop_last(), favs) + (if favs.contains(teams.last().0) {
            1nat
        } else {
            0nat
        })
    }
}

pub const SECTION_START: &'static str = "<details class=\"teams\"><summary>";

pub const LOADING: &'static str =
    "<p class=\"empty\">Still loading these teams: refresh this page in a minute.</p>";

/// One league's folded section, its teams starting at position `o`.
pub open spec fn section(
    f: Seq<(Seq<char>, Seq<char>, Seq<char>)>,
    favs: Seq<Seq<char>>,
    league: Seq<char>,
    teams: Seq<(Seq<char>, Seq<char>)>,
    o: int,
) -> Seq<char> {
    let total = dec(teams.len()) + " teams"@;
    let n = picked_count(teams, favs);
    SECTION_START@ + escaped(league) + "<span class=\"count\" data-total=\""@ + total + "\">"@ + (if n
        > 0 {
        dec(n) + " picked"@
    } else {
        total
    }) + "</span></summary><div>"@ + (if teams.len() == 0 {
        LOADING@
    } else {
        Seq::empty()
    }) + boxes(f, favs, o, o + teams.len()) + "</div></details>"@
}

/// The sections of the first `m` groups.
pub open spec fn sections(
    groups: Seq<(Seq<char>, Seq<(Seq<char>, Seq<char>)>)>,
    favs: Seq<Seq<char>>,
    m: int,
) -> Seq<char>
    decreases m,
{
    if m <= 0 {
        Seq::empty()
    } else {
        sections(groups, favs, m - 1) + section(
            flat(groups),
            favs,
            groups[m - 1].0,
            groups[m - 1].1,
            flat(groups.take(m - 1)).len() as int,
        )
    }
}

pub const PICKER_START: &'static str = "<div class=\"picker\"><div class=\"picked\" aria-live=\"polite\">";

pub const NONE_PICKED: &'static str = "<p class=\"picked-empty\">No teams picked yet.</p>";

pub const SEARCH: &'static str =
    "</div><input type=\"search\" class=\"team-search js-only\" placeholder=\"Search all teams, e.g. Buffalo\" \
     aria-label=\"Search all teams\" autocomplete=\"off\">\
     <p class=\"search-empty js-only\" hidden>No team matches that.</p>";

/// The whole picker.
pub open spec fn picker_text(groups: Seq<(Seq<char>, Seq<(Seq<char>, Seq<char>)>)>, favs: Seq<Seq<char>>) -> Seq<char> {
    let f = flat(groups);
    PICKER_START@ + (if exists|i: int| 0 <= i < f.len() && favs.contains(#[trigger] f[i].1) {
        Seq::empty()
    } else {
        NONE_PICKED@
    }) + chips(f, favs, f.len() as int) + SEARCH@ + sections(groups, favs, groups.len() as int)
        + "</div>"@
}

proof fn lemma_first_exists(f: Seq<(Seq<char>, Seq<char>, Seq<char>)>, i: int) -> (p: int)
    requires
        0 <= i < f.len(),
    ensures
        0 <= p <= i,
        first_at(f, p),
        f[p].1 == f[i].1,
    decreases i,
{
    if first_at(f, i) {
        i
    } else {
        let j = choose|j: int| 0 <= j < i && #[trigger] f[j].1 == f[i].1;
        lemma_first_exists(f, j)
    }
}

proof fn lemma_firsts_grow(f: Seq<(Seq<char>, Seq<char>, Seq<char>)>, p: int, q: int)
    requires
        0 <= p < q,
        first_at(f, p),
    ensures
        firsts_before(f, p) < firsts_before(f, q),
    decreases q,
{
    if q > p + 1 {
        lemma_firsts_grow(f, p, q - 1);
    }
}

proof fn lemma_firsts_unique(f: Seq<(Seq<char>, Seq<char>, Seq<char>)>, p: int, q: int)
    requires
        0 <= p < f.len(),
        0 <= q < f.len(),
        first_at(f, p),
        first_at(f, q),
        f[p].1 == f[q].1,
    ensures
        p == q,
{
    if p < q {
        assert(f[p].1 != f[q].1);
    } else if q < p {
        assert(f[q].1 != f[p].1);
    }
}

proof fn lemma_dom_ids_differ(f: Seq<(Seq<char>, Seq<char>, Seq<char>)>, p: int, q: int)
    requires
        0 <= p < q,
        first_at(f, p),
    ensures
        dom_id(f, p) != dom_id(f, q),
{
    lemma_firsts_grow(f, p, q);
    crate::text::lemma_dec_injective((firsts_before(f, p) + 1) as nat, (firsts_before(f, q) + 1) as nat);
    reveal_strlit("fav-");
    assert(dom_id(f, p).skip(4) =~= dec((firsts_before(f, p) + 1) as nat));
    assert(dom_id(f, q).skip(4) =~= dec((firsts_before(f, q) + 1) as nat));
}

/// Every team listed gets exactly one checkbox (at its first appearance,
/// even when it's in two leagues) and, when picked, exactly one tag; the
/// checkboxes' element ids are all different.
pub proof fn law_one_checkbox_per_team(f: Seq<(Seq<char>, Seq<char>, Seq<char>)>, i: int, p: int, q: int)
    requires
        0 <= i < f.len(),
        0 <= p < f.len(),
        0 <= q < f.len(),
    ensures
        exists|r: int| 0 <= r <= i && first_at(f, r) && #[trigger] f[r].1 == f[i].1,
        first_at(f, p) && first_at(f, q) && f[p].1 == f[q].1 ==> p == q,
        p != q && first_at(f, p) && first_at(f, q) ==> dom_id(f, p) != dom_id(f, q),
{
    let r = lemma_first_exists(f, i);
    if first_at(f, p) && first_at(f, q) {
        if f[p].1 == f[q].1 {
            lemma_firsts_unique(f, p, q);
        }
        if p < q {
            lemma_dom_ids_differ(f, p, q);
        } else if q < p {
            lemma_dom_ids_differ(f, q, p);
        }
    }
}

/// The flattened teams as characters.
pub open spec fn flat_view(v: Seq<(String, String, String)>) -> Seq<(Seq<char>, Seq<char>, Seq<char>)> {
    v.map_values(|e: (String, String, String)| (e.0@, e.1@, e.2@))
}

/// The favorites as characters.
pub open spec fn favs_view(v: Seq<String>) -> Seq<Seq<char>> {
    v.map_values(|s: String| s@)
}

proof fn lemma_flat_step(g: Seq<(Seq<char>, Seq<(Seq<char>, Seq<char>)>)>, i: int)
    requires
        0 <= i < g.len(),
    ensures
        flat(g.take(i + 1)) == flat(g.take(i)) + g[i].1.map_values(
            |t: (Seq<char>, Seq<char>)| (g[i].0, t.0, t.1),
        ),
{
    assert(g.take(i + 1).drop_last() =~= g.take(i));
    assert(g.take(i + 1).last() == g[i]);
}

/// Whether `id` is one of the favorites.
fn is_favorite(favorites: &[String], id: &String) -> (r: bool)
    ensures
        r == favs_view(favorites@).contains(id@),
{
    let mut i: usize = 0;
    while i < favorites.len()
        invariant
            i <= favorites@.len(),
            forall|j: int| 0 <= j < i ==> favs_view(favorites@)[j] != id@,
        decreases favorites@.len() - i,
    {
        if favorites[i] == *id {
            assert(favs_view(favorites@)[i as int] == id@);
            return true;
        }
        i = i + 1;
    }
    false
}

/// The team picker for `groups`, with `favorites` ticked: the picks as
/// tags on top, one search across every league, and each league folded
/// with a count.
pub fn team_picker(groups: &TeamGroups, favorites: &[String]) -> (h: String)
    ensures
        h@ == picker_text(groups_view(groups@), favs_view(favorites@)),
{
    let ghost g = groups_view(groups@);
    let ghost favs = favs_view(favorites@);
    // Every team in order, and where each league's teams start.
    let mut f: Vec<(String, String, String)> = Vec::new();
    let mut starts: Vec<usize> = Vec::new();
    let mut gi: usize = 0;
    assert(g.take(0) =~= Seq::<(Seq<char>, Seq<(Seq<char>, Seq<char>)>)>::empty());
    assert(flat_view(f@) =~= flat(g.take(0)));
    while gi < groups.len()
        invariant
            gi <= groups@.len(),
            g == groups_view(groups@),
            flat_view(f@) == flat(g.take(gi as int)),
            starts@.len() == gi,
            forall|k: int| 0 <= k < gi ==> #[trigger] starts@[k] == flat(g.take(k)).len(),
        decreases groups@.len() - gi,
    {
        let ghost before = flat_view(f@);
        starts.push(f.len());
        let league = &groups[gi].0;
        let teams = &groups[gi].1;
        let ghost tv = g[gi as int].1;
        assert(tv == teams@.map_values(|t: (String, String)| (t.0@, t.1@)));
        let mut ti: usize = 0;
        while ti < teams.len()
            invariant
                ti <= teams@.len(),
                gi < groups@.len(),
                g == groups_view(groups@),
                tv == g[gi as int].1,
                tv.len() == teams@.len(),
                forall|k: int| 0 <= k < teams@.len() ==> #[trigger] tv[k] == (teams@[k].0@, teams@[k].1@),
                league@ == g[gi as int].0,
                flat_view(f@) == before + tv.take(ti as int).map_values(
                    |t: (Seq<char>, Seq<char>)| (g[gi as int].0, t.0, t.1),
                ),
            decreases teams@.len() - ti,
        {
            let ghost prev = f@;
            f.push((league.clone(), teams[ti].0.clone(), teams[ti].1.clone()));
            assert(flat_view(f@) =~= flat_view(prev).push((league@, teams@[ti as int].0@, teams@[ti as int].1@)));
            assert(tv.take(ti + 1) =~= tv.take(ti as int).push(tv[ti as int]));
            assert(flat_view(f@) =~= before + tv.take(ti + 1).map_values(
                |t: (Seq<char>, Seq<char>)| (g[gi as int].0, t.0, t.1),
            ));
            ti = ti + 1;
        }
        proof {
            lemma_flat_step(g, gi as int);
            assert(tv.take(tv.len() as int) =~= tv);
        }
        gi = gi + 1;
    }
    assert(g.take(groups@.len() as int) =~= g);
    let ghost ff = flat(g);
    assert(flat_view(f@) == ff);
    // For each position: a favorite? the team's first appearance? its
    // checkbox number?
    let mut fav: Vec<bool> = Vec::new();
    let mut first: Vec<bool> = Vec::new();
    let mut nums: Vec<u64> = Vec::new();
    let mut count: u64 = 0;
    let mut p: usize = 0;
    while p < f.len()
        invariant
            p <= f@.len(),
            flat_view(f@) == ff,
            favs == favs_view(favorites@),
            fav@.len() == p && first@.len() == p && nums@.len() == p,
            forall|q: int| 0 <= q < p ==> #[trigger] fav@[q] == favs.contains(ff[q].1),
            forall|q: int| 0 <= q < p ==> #[trigger] first@[q] == first_at(ff, q),
            forall|q: int| 0 <= q < p ==> #[trigger] nums@[q] == firsts_before(ff, q) + 1,
            count == firsts_before(ff, p as int),
            count <= p,
        decreases f@.len() - p,
    {
        fav.push(is_favorite(favorites, &f[p].1));
        let mut j: usize = 0;
        let mut new = true;
        while j < p
            invariant
                j <= p < f@.len(),
                flat_view(f@) == ff,
                new == forall|k: int| 0 <= k < j ==> #[trigger] ff[k].1 != ff[p as int].1,
            decreases p - j,
        {
            assert(ff[j as int].1 == f@[j as int].1@ && ff[p as int].1 == f@[p as int].1@);
            if f[j].1 == f[p].1 {
                new = false;
            }
            j = j + 1;
        }
        first.push(new);
        nums.push(count + 1);
        if new {
            count = count + 1;
        }
        p = p + 1;
    }
    // The tags.
    let mut h = PICKER_START.to_owned();
    let mut any = false;
    let mut q: usize = 0;
    while q < f.len()
        invariant
            q <= f@.len() == fav@.len(),
            forall|r: int| 0 <= r < fav@.len() ==> #[trigger] fav@[r] == favs.contains(ff[r].1),
            flat_view(f@) == ff,
            any == exists|i: int| 0 <= i < q && favs.contains(#[trigger] ff[i].1),
        decreases f@.len() - q,
    {
        if fav[q] {
            any = true;
        }
        q = q + 1;
    }
    if !any {
        h.append(NONE_PICKED);
    }
    let ghost head = h@;
    let mut k: usize = 0;
    while k < f.len()
        invariant
            k <= f@.len() == fav@.len() == first@.len() == nums@.len(),
            flat_view(f@) == ff,
            forall|q: int| 0 <= q < f@.len() ==> #[trigger] fav@[q] == favs.contains(ff[q].1),
            forall|q: int| 0 <= q < f@.len() ==> #[trigger] first@[q] == first_at(ff, q),
            forall|q: int| 0 <= q < f@.len() ==> #[trigger] nums@[q] == firsts_before(ff, q) + 1,
            h@ == head + chips(ff, favs, k as int),
        decreases f@.len() - k,
    {
        if first[k] && fav[k] {
            let ghost pre = h@;
            h.append("<label class=\"chip\" for=\"fav-");
            push_dec(&mut h, nums[k]);
            h.append("\">");
            h.append(esc(f[k].2.as_str()).as_str());
            h.append(" <small>");
            h.append(esc(f[k].0.as_str()).as_str());
            h.append("</small> <span aria-hidden=\"true\">✕</span></label>");
            proof {
                reveal_strlit("<label class=\"chip\" for=\"fav-");
                reveal_strlit("<label class=\"chip\" for=\"");
                reveal_strlit("fav-");
                assert("<label class=\"chip\" for=\"fav-"@ =~= "<label class=\"chip\" for=\""@ + "fav-"@);
                assert(h@ =~= pre + chip(ff, k as int));
            }
        }
        k = k + 1;
    }
    h.append(SEARCH);
    // The leagues.
    let ghost mid = h@;
    let mut m: usize = 0;
    assert(sections(g, favs, 0) =~= Seq::<char>::empty());
    assert(facts_match(ff, favs, fav@, first@, nums@));
    while m < groups.len()
        invariant
            m <= groups@.len() == starts@.len(),
            g == groups_view(groups@),
            ff == flat(g),
            flat_view(f@) == ff,
            facts_match(ff, favs, fav@, first@, nums@),
            forall|k: int| 0 <= k < groups@.len() ==> #[trigger] starts@[k] == flat(g.take(k)).len(),
            h@ == mid + sections(g, favs, m as int),
            favs == favs_view(favorites@),
        decreases groups@.len() - m,
    {
        proof {
            lemma_section_bounds(g, m as int);
        }
        let ghost pre = h@;
        let league = &groups[m].0;
        let teams = &groups[m].1;
        let ghost tv = g[m as int].1;
        assert(tv == teams@.map_values(|t: (String, String)| (t.0@, t.1@)));
        let o = starts[m];
        assert(o as int + teams@.len() <= f@.len());
        let text = section_text(&f, &fav, &first, &nums, favorites, league, teams, o);
        h.append(text.as_str());
        proof {
            assert(h@ =~= pre + section(ff, favs, g[m as int].0, tv, o as int));
        }
        m = m + 1;
    }
    h.append("</div>");
    assert(h@ =~= picker_text(g, favs));
    h
}

/// Whether the per-position facts match the flattened teams.
pub open spec fn facts_match(
    ff: Seq<(Seq<char>, Seq<char>, Seq<char>)>,
    favs: Seq<Seq<char>>,
    fav: Seq<bool>,
    first: Seq<bool>,
    nums: Seq<u64>,
) -> bool {
    &&& ff.len() == fav.len() == first.len() == nums.len()
    &&& forall|q: int| 0 <= q < ff.len() ==> #[trigger] fav[q] == favs.contains(ff[q].1)
    &&& forall|q: int| 0 <= q < ff.len() ==> #[trigger] first[q] == first_at(ff, q)
    &&& forall|q: int| 0 <= q < ff.len() ==> #[trigger] nums[q] == firsts_before(ff, q) + 1
}

/// One league's section, its teams starting at position `o` of `f`.
fn section_text(
    f: &Vec<(String, String, String)>,
    fav: &Vec<bool>,
    first: &Vec<bool>,
    nums: &Vec<u64>,
    favorites: &[String],
    league: &String,
    teams: &Vec<(String, String)>,
    o: usize,
) -> (h: String)
    requires
        facts_match(flat_view(f@), favs_view(favorites@), fav@, first@, nums@),
        o + teams@.len() <= f@.len(),
    ensures
        h@ == section(
            flat_view(f@),
            favs_view(favorites@),
            league@,
            teams@.map_values(|t: (String, String)| (t.0@, t.1@)),
            o as int,
        ),
{
    let ghost ff = flat_view(f@);
    let ghost favs = favs_view(favorites@);
    let ghost tv = teams@.map_values(|t: (String, String)| (t.0@, t.1@));
    let mut h = SECTION_START.to_owned();
    h.append(esc(league.as_str()).as_str());
    h.append("<span class=\"count\" data-total=\"");
    push_dec(&mut h, teams.len() as u64);
    h.append(" teams");
    h.append("\">");
    let ghost summary_start = h@;
    let n = picked_in(teams, favorites);
    if n > 0 {
        push_dec(&mut h, n as u64);
        h.append(" picked");
    } else {
        push_dec(&mut h, teams.len() as u64);
        h.append(" teams");
    }
    let ghost count_text = if n > 0 {
        dec(n as nat) + " picked"@
    } else {
        dec(teams@.len()) + " teams"@
    };
    assert(h@ =~= summary_start + count_text);
    h.append("</span></summary><div>");
    if teams.len() == 0 {
        h.append(LOADING);
    }
    let ghost total = dec(teams@.len()) + " teams"@;
    assert(h@ =~= SECTION_START@ + escaped(league@) + "<span class=\"count\" data-total=\""@ + total
        + "\">"@ + count_text + "</span></summary><div>"@ + (if teams@.len() == 0 {
        LOADING@
    } else {
        Seq::empty()
    }));
    let flen = f.len();
    assert(o + teams@.len() <= flen);
    push_boxes(&mut h, f, fav, first, nums, favorites, o, o + teams.len());
    h.append("</div></details>");
    assert(picked_count(tv, favs) == n);
    assert(h@ =~= section(ff, favs, league@, tv, o as int));
    h
}

/// Appends the checkboxes for positions `lo..hi`.
fn push_boxes(
    h: &mut String,
    f: &Vec<(String, String, String)>,
    fav: &Vec<bool>,
    first: &Vec<bool>,
    nums: &Vec<u64>,
    favorites: &[String],
    lo: usize,
    hi: usize,
)
    requires
        facts_match(flat_view(f@), favs_view(favorites@), fav@, first@, nums@),
        lo <= hi <= f@.len(),
    ensures
        final(h)@ == old(h)@ + boxes(flat_view(f@), favs_view(favorites@), lo as int, hi as int),
{
    let ghost ff = flat_view(f@);
    let ghost favs = favs_view(favorites@);
    let mut b = lo;
    while b < hi
        invariant
            lo <= b <= hi <= f@.len(),
            ff == flat_view(f@),
            favs == favs_view(favorites@),
            facts_match(ff, favs, fav@, first@, nums@),
            h@ == old(h)@ + boxes(ff, favs, lo as int, b as int),
        decreases hi - b,
    {
        if first[b] {
            let ghost pre_box = h@;
            h.append("<label class=\"team\"><input type=\"checkbox\" name=\"favorite\" id=\"fav-");
            push_dec(h, nums[b]);
            h.append("\" value=\"");
            h.append(esc(f[b].1.as_str()).as_str());
            h.append("\" data-league=\"");
            h.append(esc(f[b].0.as_str()).as_str());
            h.append("\"");
            h.append(checked(fav[b]));
            h.append("> ");
            h.append(esc(f[b].2.as_str()).as_str());
            h.append("</label>");
            proof {
                reveal_strlit("<label class=\"team\"><input type=\"checkbox\" name=\"favorite\" id=\"fav-");
                reveal_strlit("<label class=\"team\"><input type=\"checkbox\" name=\"favorite\" id=\"");
                reveal_strlit("fav-");
                assert("<label class=\"team\"><input type=\"checkbox\" name=\"favorite\" id=\"fav-"@
                    =~= "<label class=\"team\"><input type=\"checkbox\" name=\"favorite\" id=\""@
                    + "fav-"@);
                assert(h@ =~= pre_box + team_box(ff, favs, b as int));
            }
        }
        b = b + 1;
    }
}

/// The positions of group `m` lie within the flattened teams.
proof fn lemma_section_bounds(g: Seq<(Seq<char>, Seq<(Seq<char>, Seq<char>)>)>, m: int)
    requires
        0 <= m < g.len(),
    ensures
        flat(g.take(m)).len() + g[m].1.len() <= flat(g).len(),
        forall|t: int|
            0 <= t < g[m].1.len() ==> flat(g)[flat(g.take(m)).len() + t] == (
                g[m].0,
                g[m].1[t].0,
                g[m].1[t].1,
            ),
    decreases g.len(),
{
    if m == g.len() - 1 {
        assert(g.take(m) =~= g.drop_last());
    } else {
        lemma_section_bounds(g.drop_last(), m);
        assert(g.drop_last().take(m) =~= g.take(m));
        assert(g.drop_last()[m] == g[m]);
    }
}

/// How many of `teams` are favorites.
fn picked_in(teams: &Vec<(String, String)>, favorites: &[String]) -> (n: usize)
    ensures
        n == picked_count(teams@.map_values(|t: (String, String)| (t.0@, t.1@)), favs_view(favorites@)),
        n <= teams@.len(),
{
    let ghost tv = teams@.map_values(|t: (String, String)| (t.0@, t.1@));
    let mut n: usize = 0;
    let mut i: usize = 0;
    while i < teams.len()
        invariant
            i <= teams@.len(),
            tv == teams@.map_values(|t: (String, String)| (t.0@, t.1@)),
            n == picked_count(tv.take(i as int), favs_view(favorites@)),
            n <= i,
        decreases teams@.len() - i,
    {
        assert(tv.take(i + 1).drop_last() =~= tv.take(i as int));
        if is_favorite(favorites, &teams[i].0) {
            n = n + 1;
        }
        i = i + 1;
    }
    assert(tv.take(teams@.len() as int) =~= tv);
    n
}

} // verus!
