//! Shallow (depth-limited) fetches: the commit graph that `git rev-list
//! --parents` prints, the commits within a requested depth, the boundary
//! commits the client must treat as shallow, and the shallow-info section.

use vstd::prelude::*;
use crate::pkt_line::{PktLine, PktView, spec_text_payload};
use crate::protocol::v2::{ShallowRequest, ShallowView, V2Error};
use crate::text::{
    append_chars, chars_eq, chars_of, copy_string, cvs, insert_sorted, lines,
    int_text, spec_int_text, spec_lines, spec_split_whitespace, split_whitespace, strictly_sorted,
    string_chars, string_of, svs,
};

verus! {

// ── The commit graph ─────────────────────────────────────────────────────

/// Parents of commits, as `git rev-list --parents` lists them: one entry per
/// line, the commit first.
pub struct CommitGraph {
    pub entries: Vec<(String, Vec<String>)>,
}

/// The views of graph entries.
pub open spec fn entries_view(es: Seq<(String, Vec<String>)>) -> Seq<(Seq<char>, Seq<Seq<char>>)> {
    es.map_values(|e: (String, Vec<String>)| (e.0@, svs(e.1@)))
}

/// The map from commit to parents that a sequence of entries builds when each
/// entry is inserted in turn (a later entry for a commit replaces an earlier).
pub open spec fn graph_map(es: Seq<(Seq<char>, Seq<Seq<char>>)>) -> Map<Seq<char>, Seq<Seq<char>>>
    decreases es.len(),
{
    if es.len() == 0 {
        Map::empty()
    } else {
        graph_map(es.drop_last()).insert(es.last().0, es.last().1)
    }
}

impl View for CommitGraph {
    type V = Map<Seq<char>, Seq<Seq<char>>>;

    open spec fn view(&self) -> Map<Seq<char>, Seq<Seq<char>>> {
        graph_map(entries_view(self.entries@))
    }
}

/// The entries of the output of `git rev-list --parents`: for every line
/// with at least one field, the first field and the remaining ones.
pub open spec fn spec_graph_entries(lines: Seq<Seq<char>>) -> Seq<(Seq<char>, Seq<Seq<char>>)>
    decreases lines.len(),
{
    if lines.len() == 0 {
        Seq::empty()
    } else {
        let fields = spec_split_whitespace(lines.last());
        let init = spec_graph_entries(lines.drop_last());
        if fields.len() > 0 {
            init.push((fields[0], fields.drop_first()))
        } else {
            init
        }
    }
}

impl CommitGraph {
    /// The graph printed by `git rev-list --parents`.
    pub fn parse(output: &String) -> (g: CommitGraph)
        ensures
            entries_view(g.entries@) == spec_graph_entries(spec_lines(output@)),
    {
        let ls = lines(string_chars(output).as_slice());
        let ghost lv = svs(ls@);
        let mut entries: Vec<(String, Vec<String>)> = Vec::new();
        let mut i: usize = 0;
        assert(lv.take(0) =~= Seq::<Seq<char>>::empty());
        while i < ls.len()
            invariant
                i <= ls@.len(),
                lv == svs(ls@),
                entries_view(entries@) == spec_graph_entries(lv.take(i as int)),
            decreases ls@.len() - i,
        {
            let fields = split_whitespace(string_chars(&ls[i]).as_slice());
            proof {
                assert(lv.take(i + 1).drop_last() =~= lv.take(i as int));
                assert(lv.take(i + 1).last() == ls@[i as int]@);
            }
            if fields.len() > 0 {
                let oid = string_of(fields[0].as_slice());
                let mut parents: Vec<String> = Vec::new();
                let mut j: usize = 1;
                while j < fields.len()
                    invariant
                        1 <= j <= fields@.len(),
                        svs(parents@) == cvs(fields@).subrange(1, j as int),
                    decreases fields@.len() - j,
                {
                    let ghost before = svs(parents@);
                    parents.push(string_of(fields[j].as_slice()));
                    assert(svs(parents@) =~= before.push(fields@[j as int]@));
                    assert(cvs(fields@).subrange(1, j + 1) =~= cvs(fields@).subrange(1, j as int).push(fields@[j as int]@));
                    j = j + 1;
                }
                assert(cvs(fields@).subrange(1, fields@.len() as int) =~= cvs(fields@).drop_first());
                let ghost before = entries_view(entries@);
                let ghost e = (oid@, svs(parents@));
                entries.push((oid, parents));
                assert(entries_view(entries@) =~= before.push(e));
            }
            i = i + 1;
        }
        assert(lv.take(ls@.len() as int) =~= lv);
        CommitGraph { entries }
    }

    /// The parents of a commit, if the graph lists it.
    pub fn parents(&self, oid: &String) -> (r: Option<&Vec<String>>)
        ensures
            r matches Some(ps) ==> self@.contains_key(oid@) && self@[oid@] == svs(ps@),
            r is None ==> !self@.contains_key(oid@),
    {
        let ghost es = entries_view(self.entries@);
        let key = string_chars(oid);
        let mut j: usize = self.entries.len();
        assert(es.take(j as int) =~= es);
        while j > 0
            invariant
                j <= self.entries@.len(),
                es == entries_view(self.entries@),
                key@ == oid@,
                graph_map(es).contains_key(oid@) == graph_map(es.take(j as int)).contains_key(oid@),
                graph_map(es).contains_key(oid@) ==> graph_map(es)[oid@] == graph_map(es.take(j as int))[oid@],
            decreases j,
        {
            let k = j - 1;
            let e = &self.entries[k];
            proof {
                assert(es.take(j as int).drop_last() =~= es.take(k as int));
                assert(es.take(j as int).last() == (e.0@, svs(e.1@)));
            }
            if chars_eq(string_chars(&e.0).as_slice(), key.as_slice()) {
                return Some(&e.1);
            }
            j = k;
        }
        None
    }
}

// ── Commits within a depth, and boundaries ───────────────────────────────

/// The parents that the graph lists for the commits of `s`.
pub open spec fn parents_of(g: Map<Seq<char>, Seq<Seq<char>>>, s: Set<Seq<char>>) -> Set<Seq<char>> {
    Set::new(
        |p: Seq<char>| exists|c: Seq<char>| #[trigger] s.contains(c) && g.contains_key(c) && g[c].contains(p),
    )
}

/// The commits reached from `starts` by following parents at most `n` times.
pub open spec fn reach(g: Map<Seq<char>, Seq<Seq<char>>>, starts: Set<Seq<char>>, n: nat) -> Set<Seq<char>>
    decreases n,
{
    if n == 0 {
        starts
    } else {
        let r = reach(g, starts, (n - 1) as nat);
        r.union(parents_of(g, r))
    }
}

/// The commits within `depth` of the starts. The starts are at depth 1, or
/// at depth 0 when the depth is relative to them (a client's current shallow
/// boundaries).
pub open spec fn depth_included(
    g: Map<Seq<char>, Seq<Seq<char>>>,
    starts: Seq<Seq<char>>,
    depth: nat,
    relative: bool,
) -> Set<Seq<char>> {
    if relative {
        reach(g, starts.to_set(), depth)
    } else if depth == 0 {
        Set::empty()
    } else {
        reach(g, starts.to_set(), (depth - 1) as nat)
    }
}

/// A commit is a boundary of the included commits when the graph lists it
/// with a parent that is not included.
pub open spec fn is_boundary(g: Map<Seq<char>, Seq<Seq<char>>>, included: Set<Seq<char>>, c: Seq<char>) -> bool {
    g.contains_key(c) && exists|p: Seq<char>| #[trigger] g[c].contains(p) && !included.contains(p)
}

/// The boundaries among the included commits.
pub open spec fn boundary_set(g: Map<Seq<char>, Seq<Seq<char>>>, included: Set<Seq<char>>) -> Set<Seq<char>> {
    included.filter(|c: Seq<char>| is_boundary(g, included, c))
}

/// Whether some string of `v` is missing from `set`.
fn any_missing(v: &[String], set: &[String]) -> (r: bool)
    ensures
        r == exists|p: Seq<char>| #[trigger] svs(v@).contains(p) && !svs(set@).contains(p),
{
    let mut i: usize = 0;
    while i < v.len()
        invariant
            i <= v@.len(),
            forall|k: int| 0 <= k < i ==> svs(set@).contains(#[trigger] svs(v@)[k]),
        decreases v@.len() - i,
    {
        if !contains_string(set, &v[i]) {
            assert(svs(v@).contains(v@[i as int]@)) by {
                assert(svs(v@)[i as int] == v@[i as int]@);
            }
            return true;
        }
        assert(svs(v@)[i as int] == v@[i as int]@);
        i = i + 1;
    }
    assert forall|p: Seq<char>| #[trigger] svs(v@).contains(p) implies svs(set@).contains(p) by {
        let k = choose|k: int| 0 <= k < svs(v@).len() && svs(v@)[k] == p;
    }
    false
}

/// The boundaries among the included commits: those the graph lists with a
/// parent that is not included, in increasing order.
pub fn find_boundaries(graph: &CommitGraph, included: &[String]) -> (b: Vec<String>)
    ensures
        strictly_sorted(svs(b@)),
        svs(b@).to_set() == boundary_set(graph@, svs(included@).to_set()),
{
    let ghost g = graph@;
    let ghost inc = svs(included@);
    let mut out: Vec<String> = Vec::new();
    let mut i: usize = 0;
    assert(svs(out@).to_set() =~= Set::<Seq<char>>::empty());
    while i < included.len()
        invariant
            i <= included@.len(),
            g == graph@,
            inc == svs(included@),
            strictly_sorted(svs(out@)),
            forall|c: Seq<char>|
                #[trigger] svs(out@).to_set().contains(c) <==> (inc.take(i as int).contains(c)
                    && is_boundary(g, inc.to_set(), c)),
        decreases included@.len() - i,
    {
        let c = &included[i];
        let ghost cv = c@;
        proof {
            assert(inc[i as int] == cv);
            assert(inc.take(i + 1) =~= inc.take(i as int).push(cv));
        }
        let boundary = match graph.parents(c) {
            Some(ps) => {
                let missing = any_missing(ps.as_slice(), included);
                proof {
                    if missing {
                        let p = choose|p: Seq<char>| #[trigger] svs(ps@).contains(p) && !inc.contains(p);
                        assert(g[cv].contains(p) && !inc.to_set().contains(p));
                    } else {
                        assert forall|p: Seq<char>| #[trigger] g[cv].contains(p) implies inc.to_set().contains(p) by {
                            assert(svs(ps@).contains(p));
                        }
                    }
                }
                missing
            },
            None => false,
        };
        assert(boundary == is_boundary(g, inc.to_set(), cv));
        let ghost before = svs(out@);
        if boundary {
            insert_sorted(&mut out, copy_string(c));
        }
        proof {
            if boundary {
                assert(svs(out@).to_set() == before.to_set().insert(cv));
            } else {
                assert(svs(out@) == before);
            }
            assert(inc.take(i + 1)[i as int] == cv);
            assert forall|e: Seq<char>|
                #[trigger] svs(out@).to_set().contains(e) <==> (inc.take(i + 1).contains(e)
                    && is_boundary(g, inc.to_set(), e)) by {
                if inc.take(i as int).contains(e) {
                    let k = choose|k: int| 0 <= k < i && #[trigger] inc.take(i as int)[k] == e;
                    assert(inc.take(i + 1)[k] == e);
                }
                if inc.take(i + 1).contains(e) && e != cv {
                    let k = choose|k: int| 0 <= k < i + 1 && #[trigger] inc.take(i + 1)[k] == e;
                    assert(inc.take(i as int)[k] == e);
                }
            }
        }
        i = i + 1;
    }
    assert(inc.take(inc.len() as int) =~= inc);
    assert(svs(out@).to_set() =~= boundary_set(g, inc.to_set()));
    out
}

/// The parents of the commits of a sequence extended by one commit.
proof fn lemma_parents_of_push(g: Map<Seq<char>, Seq<Seq<char>>>, f: Seq<Seq<char>>, x: Seq<char>)
    ensures
        parents_of(g, f.push(x).to_set()) == parents_of(g, f.to_set()).union(
            if g.contains_key(x) {
                g[x].to_set()
            } else {
                Set::empty()
            },
        ),
{
    let lhs = parents_of(g, f.push(x).to_set());
    let rhs = parents_of(g, f.to_set()).union(
        if g.contains_key(x) {
            g[x].to_set()
        } else {
            Set::empty()
        },
    );
    assert forall|p: Seq<char>| lhs.contains(p) implies rhs.contains(p) by {
        let c = choose|c: Seq<char>| #[trigger] f.push(x).to_set().contains(c) && g.contains_key(c) && g[c].contains(p);
        if c != x {
            let k = choose|k: int| 0 <= k < f.push(x).len() && f.push(x)[k] == c;
            assert(f[k] == c);
            assert(f.to_set().contains(c));
        }
    }
    assert forall|p: Seq<char>| rhs.contains(p) implies lhs.contains(p) by {
        if parents_of(g, f.to_set()).contains(p) {
            let c = choose|c: Seq<char>| #[trigger] f.to_set().contains(c) && g.contains_key(c) && g[c].contains(p);
            let k = choose|k: int| 0 <= k < f.len() && f[k] == c;
            assert(f.push(x)[k] == c);
            assert(f.push(x).to_set().contains(c));
        } else {
            assert(f.push(x)[f.len() as int] == x);
            assert(f.push(x).to_set().contains(x));
        }
    }
    assert(lhs =~= rhs);
}

/// One more step of the search adds only the parents of the commits first
/// reached in the last step, when the commits reached before have their
/// parents among those reached now.
proof fn lemma_reach_step(
    g: Map<Seq<char>, Seq<Seq<char>>>,
    starts: Set<Seq<char>>,
    n: nat,
    prev: Set<Seq<char>>,
)
    requires
        prev.subset_of(reach(g, starts, n)),
        parents_of(g, prev).subset_of(reach(g, starts, n)),
    ensures
        reach(g, starts, n + 1) == reach(g, starts, n).union(
            parents_of(g, reach(g, starts, n).difference(prev)),
        ),
{
    let r = reach(g, starts, n);
    let f = r.difference(prev);
    assert(reach(g, starts, n + 1) == r.union(parents_of(g, r)));
    assert forall|p: Seq<char>| parents_of(g, r).contains(p) implies r.union(parents_of(g, f)).contains(p) by {
        let c = choose|c: Seq<char>| #[trigger] r.contains(c) && g.contains_key(c) && g[c].contains(p);
        if prev.contains(c) {
            assert(parents_of(g, prev).contains(p));
        } else {
            assert(f.contains(c));
        }
    }
    assert forall|p: Seq<char>| parents_of(g, f).contains(p) implies parents_of(g, r).contains(p) by {
        let c = choose|c: Seq<char>| #[trigger] f.contains(c) && g.contains_key(c) && g[c].contains(p);
        assert(r.contains(c));
    }
    assert(r.union(parents_of(g, r)) =~= r.union(parents_of(g, f)));
}

/// Once a step adds nothing, the search has reached all it ever will.
proof fn lemma_reach_fixed(g: Map<Seq<char>, Seq<Seq<char>>>, starts: Set<Seq<char>>, n: nat, m: nat)
    requires
        n <= m,
        parents_of(g, reach(g, starts, n)).subset_of(reach(g, starts, n)),
    ensures
        reach(g, starts, m) == reach(g, starts, n),
    decreases m - n,
{
    if m > n {
        lemma_reach_fixed(g, starts, n, (m - 1) as nat);
        let r = reach(g, starts, n);
        assert(r.union(parents_of(g, r)) =~= r);
    }
}

/// The commits reached from the starts by following parents at most `steps`
/// times.
fn reach_commits(graph: &CommitGraph, starts: &[String], steps: u32) -> (inc: Vec<String>)
    ensures
        svs(inc@).to_set() == reach(graph@, svs(starts@).to_set(), steps as nat),
{
    let ghost g = graph@;
    let ghost s0 = svs(starts@).to_set();
    let mut included: Vec<String> = Vec::new();
    push_all(&mut included, starts);
    let mut frontier: Vec<String> = Vec::new();
    push_all(&mut frontier, starts);
    let ghost mut prev: Set<Seq<char>> = Set::empty();
    proof {
        assert(svs(included@) =~= svs(starts@));
        assert(svs(frontier@) =~= svs(starts@));
        assert(s0.difference(prev) =~= s0);
        assert(parents_of(g, prev) =~= Set::<Seq<char>>::empty());
    }
    let mut level: u32 = 0;
    while level < steps
        invariant
            level <= steps,
            g == graph@,
            s0 == svs(starts@).to_set(),
            svs(included@).to_set() == reach(g, s0, level as nat),
            svs(frontier@).to_set() == reach(g, s0, level as nat).difference(prev),
            prev.subset_of(reach(g, s0, level as nat)),
            parents_of(g, prev).subset_of(reach(g, s0, level as nat)),
        decreases steps - level,
    {
        let ghost r = reach(g, s0, level as nat);
        if frontier.len() == 0 {
            proof {
                assert(svs(frontier@).to_set() =~= Set::<Seq<char>>::empty());
                assert(r =~= prev) by {
                    assert forall|c: Seq<char>| r.contains(c) implies prev.contains(c) by {
                        if !prev.contains(c) {
                            assert(r.difference(prev).contains(c));
                        }
                    }
                }
                lemma_reach_fixed(g, s0, level as nat, steps as nat);
            }
            return included;
        }
        let mut next: Vec<String> = Vec::new();
        let mut j: usize = 0;
        proof {
            assert(svs(frontier@).take(0).to_set() =~= Set::<Seq<char>>::empty());
            assert(parents_of(g, Set::<Seq<char>>::empty()) =~= Set::<Seq<char>>::empty());
            assert(r.union(Set::<Seq<char>>::empty()) =~= r);
            assert(svs(next@).to_set() =~= Set::<Seq<char>>::empty());
            assert(r.difference(r) =~= Set::<Seq<char>>::empty());
        }
        while j < frontier.len()
            invariant
                j <= frontier@.len(),
                g == graph@,
                r == reach(g, s0, level as nat),
                svs(included@).to_set() == r.union(parents_of(g, svs(frontier@).take(j as int).to_set())),
                svs(next@).to_set() == svs(included@).to_set().difference(r),
            decreases frontier@.len() - j,
        {
            let ghost fj = svs(frontier@).take(j as int);
            let ghost x = frontier@[j as int]@;
            proof {
                assert(svs(frontier@).take(j + 1) =~= fj.push(x));
                lemma_parents_of_push(g, fj, x);
            }
            match graph.parents(&frontier[j]) {
                Some(ps) => {
                    let ghost base = r.union(parents_of(g, fj.to_set()));
                    let mut k: usize = 0;
                    assert(svs(ps@).take(0).to_set() =~= Set::<Seq<char>>::empty());
                    assert(base.union(Set::<Seq<char>>::empty()) =~= base);
                    while k < ps.len()
                        invariant
                            k <= ps@.len(),
                            base.union(svs(ps@).take(k as int).to_set()) == svs(included@).to_set(),
                            r.subset_of(base),
                            svs(next@).to_set() == svs(included@).to_set().difference(r),
                        decreases ps@.len() - k,
                    {
                        let ghost pk = ps@[k as int]@;
                        let ghost inc_before = svs(included@);
                        let ghost next_before = svs(next@);
                        assert(svs(ps@).take(k + 1) =~= svs(ps@).take(k as int).push(pk));
                        proof {
                            svs(ps@).take(k as int).lemma_push_to_set_commute(pk);
                        }
                        if !contains_string(included.as_slice(), &ps[k]) {
                            assert(!inc_before.to_set().contains(pk));
                            assert(!r.contains(pk));
                            included.push(copy_string(&ps[k]));
                            next.push(copy_string(&ps[k]));
                            assert(svs(included@) =~= inc_before.push(pk));
                            assert(svs(next@) =~= next_before.push(pk));
                            proof {
                                inc_before.lemma_push_to_set_commute(pk);
                                next_before.lemma_push_to_set_commute(pk);
                            }
                            assert(svs(next@).to_set() =~= svs(included@).to_set().difference(r));
                        } else {
                            assert(inc_before.to_set().contains(pk));
                        }
                        assert(base.union(svs(ps@).take(k + 1).to_set()) =~= svs(included@).to_set());
                        k = k + 1;
                    }
                    assert(svs(ps@).take(ps@.len() as int) =~= svs(ps@));
                    assert(r.union(parents_of(g, fj.push(x).to_set())) =~= base.union(svs(ps@).to_set()));
                },
                None => {
                    assert(r.union(parents_of(g, fj.push(x).to_set())) =~= r.union(parents_of(g, fj.to_set())));
                },
            }
            j = j + 1;
        }
        proof {
            assert(svs(frontier@).take(frontier@.len() as int) =~= svs(frontier@));
            lemma_reach_step(g, s0, level as nat, prev);
            prev = r;
        }
        frontier = next;
        level = level + 1;
    }
    included
}

/// The boundaries of a fetch whose depth counts from the starts (or, when
/// relative, from the client's current boundaries). Without a starting
/// commit there is nothing to count from.
pub fn compute_depth_boundaries(graph: &CommitGraph, starts: &[String], depth: u32, relative: bool) -> (r: Result<Vec<String>, V2Error>)
    ensures
        starts@.len() == 0 <==> r == Err::<Vec<String>, V2Error>(V2Error::NoStartingCommit),
        r matches Ok(b) ==> strictly_sorted(svs(b@)) && svs(b@).to_set() == boundary_set(
            graph@,
            depth_included(graph@, svs(starts@), depth as nat, relative),
        ),
{
    if starts.len() == 0 {
        return Err(V2Error::NoStartingCommit);
    }
    let included: Vec<String> = if relative {
        reach_commits(graph, starts, depth)
    } else if depth == 0 {
        let none: Vec<String> = Vec::new();
        assert(svs(none@).to_set() =~= Set::<Seq<char>>::empty());
        none
    } else {
        reach_commits(graph, starts, depth - 1)
    };
    Ok(find_boundaries(graph, included.as_slice()))
}

/// The boundaries of a fetch limited by age or by excluded revisions: the
/// graph then holds exactly the commits to send.
pub fn compute_filtered_boundaries(graph: &CommitGraph) -> (b: Vec<String>)
    ensures
        strictly_sorted(svs(b@)),
        svs(b@).to_set() == boundary_set(graph@, graph@.dom()),
{
    let mut keys: Vec<String> = Vec::new();
    let mut i: usize = 0;
    let ghost es = entries_view(graph.entries@);
    assert(svs(keys@).to_set() =~= graph_map(es.take(0)).dom());
    while i < graph.entries.len()
        invariant
            i <= graph.entries@.len(),
            es == entries_view(graph.entries@),
            svs(keys@).to_set() == graph_map(es.take(i as int)).dom(),
        decreases graph.entries@.len() - i,
    {
        let ghost before = svs(keys@);
        keys.push(copy_string(&graph.entries[i].0));
        proof {
            assert(es.take(i + 1).drop_last() =~= es.take(i as int));
            assert(svs(keys@) =~= before.push(graph.entries@[i as int].0@));
            assert(es.take(i + 1).last().0 == graph.entries@[i as int].0@);
            before.lemma_push_to_set_commute(graph.entries@[i as int].0@);
            assert(svs(keys@).to_set() =~= graph_map(es.take(i + 1)).dom());
        }
        i = i + 1;
    }
    assert(es.take(es.len() as int) =~= es);
    find_boundaries(graph, keys.as_slice())
}

// ── Shallow updates ──────────────────────────────────────────────────────

/// Whether a fetch request changes the depth of the client's history.
pub open spec fn spec_changes_depth(r: ShallowView) -> bool {
    r.deepen is Some || r.deepen_since is Some || r.deepen_not.len() > 0
}

/// Whether a fetch request changes the depth of the client's history.
pub fn changes_depth(r: &ShallowRequest) -> (b: bool)
    ensures
        b == spec_changes_depth(r@),
{
    r.deepen.is_some() || r.deepen_since.is_some() || r.deepen_not.len() > 0
}

/// Whether a string occurs in a sequence of strings.
pub fn contains_string(v: &[String], s: &String) -> (r: bool)
    ensures
        r == svs(v@).contains(s@),
{
    let key = string_chars(s);
    let mut i: usize = 0;
    while i < v.len()
        invariant
            i <= v@.len(),
            key@ == s@,
            forall|k: int| 0 <= k < i ==> svs(v@)[k] != s@,
        decreases v@.len() - i,
    {
        if chars_eq(string_chars(&v[i]).as_slice(), key.as_slice()) {
            assert(svs(v@)[i as int] == s@);
            return true;
        }
        i = i + 1;
    }
    false
}

/// How the boundaries of a depth-changing fetch are found in its commit graph.
#[derive(Clone, Copy, Debug, PartialEq, Eq, Structural)]
pub enum BoundaryRule {
    /// Commits within a depth of the starts (see `depth_included`).
    Depth { depth: u32, relative: bool },
    /// The graph holds exactly the commits to send (an age limit or
    /// excluded revisions).
    Filtered,
}

/// The commit graph that a depth-changing fetch needs, and how its
/// boundaries are found in it.
pub struct GraphQuery {
    pub starts: Vec<String>,
    pub max_age: Option<i64>,
    pub excluded: Vec<String>,
    pub rule: BoundaryRule,
}

/// The abstract value of a graph query.
pub struct QueryView {
    pub starts: Seq<Seq<char>>,
    pub max_age: Option<i64>,
    pub excluded: Seq<Seq<char>>,
    pub rule: BoundaryRule,
}

impl View for GraphQuery {
    type V = QueryView;

    open spec fn view(&self) -> QueryView {
        QueryView {
            starts: svs(self.starts@),
            max_age: self.max_age,
            excluded: svs(self.excluded@),
            rule: self.rule,
        }
    }
}

/// The graph query of a fetch request: none when the request keeps the
/// depth; the client's boundaries for a relative depth (which needs some);
/// the wants for an absolute depth (which needs some); the wants with the age
/// limit and the excluded revisions otherwise.
pub open spec fn spec_plan_shallow_update(wants: Seq<Seq<char>>, r: ShallowView) -> Result<Option<QueryView>, V2Error> {
    if !spec_changes_depth(r) {
        Ok(None)
    } else {
        match r.deepen {
            Some(d) => if r.deepen_relative {
                if r.shallows.len() == 0 {
                    Err(V2Error::RelativeWithoutShallow)
                } else {
                    Ok(
                        Some(
                            QueryView {
                                starts: r.shallows,
                                max_age: None,
                                excluded: Seq::empty(),
                                rule: BoundaryRule::Depth { depth: d, relative: true },
                            },
                        ),
                    )
                }
            } else if wants.len() == 0 {
                Err(V2Error::NoStartingCommit)
            } else {
                Ok(
                    Some(
                        QueryView {
                            starts: wants,
                            max_age: None,
                            excluded: Seq::empty(),
                            rule: BoundaryRule::Depth { depth: d, relative: false },
                        },
                    ),
                )
            },
            None => Ok(
                Some(
                    QueryView {
                        starts: wants,
                        max_age: r.deepen_since,
                        excluded: r.deepen_not,
                        rule: BoundaryRule::Filtered,
                    },
                ),
            ),
        }
    }
}

/// What a fetch request's depth arguments ask for:
/// - any of `deepen`, `deepen-since` or `deepen-not` changes the client's
///   depth, and with none of them nothing is planned;
/// - without `deepen`, the history since `deepen-since` (if given) and short
///   of the `deepen-not` revisions is planned from the wants, as a filtered
///   query whose age limit is exactly the `deepen-since` time;
/// - `deepen <d>` without `deepen-relative` plans the commits within depth
///   `d` of the wants, with no age limit and nothing excluded.
pub proof fn lemma_depth_arguments_plan_the_query(wants: Seq<Seq<char>>, r: ShallowView)
    ensures
        r.deepen is Some ==> spec_changes_depth(r),
        r.deepen_since is Some ==> spec_changes_depth(r),
        r.deepen_not.len() > 0 ==> spec_changes_depth(r),
        (r.deepen is None && r.deepen_since is None && r.deepen_not.len() == 0) ==> !spec_changes_depth(r)
            && spec_plan_shallow_update(wants, r) == Ok::<Option<QueryView>, V2Error>(None),
        r.deepen is None && (r.deepen_since is Some || r.deepen_not.len() > 0) ==> spec_plan_shallow_update(wants, r)
            == Ok::<Option<QueryView>, V2Error>(
            Some(QueryView { starts: wants, max_age: r.deepen_since, excluded: r.deepen_not, rule: BoundaryRule::Filtered }),
        ),
        r.deepen is None ==> forall|t: i64|
            r.deepen_since == Some(t) ==> (spec_plan_shallow_update(wants, r) matches Ok(Some(q)) && q.max_age == Some(t)),
        forall|d: u32| r.deepen == Some(d) && !r.deepen_relative && wants.len() > 0 ==> #[trigger] spec_plan_shallow_update(wants, r)
            == Ok::<Option<QueryView>, V2Error>(
            Some(
                QueryView {
                    starts: wants,
                    max_age: None,
                    excluded: Seq::empty(),
                    rule: BoundaryRule::Depth { depth: d, relative: false },
                },
            ),
        ),
{
}

/// Copy a slice of strings.
fn copy_strings(v: &[String]) -> (r: Vec<String>)
    ensures
        svs(r@) == svs(v@),
{
    let mut r: Vec<String> = Vec::new();
    push_all(&mut r, v);
    assert(svs(r@) =~= svs(v@));
    r
}

/// Decide which commit graph a fetch request needs for its shallow update.
pub fn plan_shallow_update(wants: &[String], request: &ShallowRequest) -> (r: Result<Option<GraphQuery>, V2Error>)
    ensures
        (match r {
            Ok(Some(q)) => Ok(Some(q@)),
            Ok(None) => Ok(None),
            Err(e) => Err(e),
        }) == spec_plan_shallow_update(svs(wants@), request@),
{
    if !changes_depth(request) {
        return Ok(None);
    }
    match request.deepen {
        Some(depth) => {
            if request.deepen_relative {
                if request.shallows.len() == 0 {
                    return Err(V2Error::RelativeWithoutShallow);
                }
                let q = GraphQuery {
                    starts: copy_strings(request.shallows.as_slice()),
                    max_age: None,
                    excluded: Vec::new(),
                    rule: BoundaryRule::Depth { depth, relative: true },
                };
                assert(q@.excluded =~= Seq::<Seq<char>>::empty());
                Ok(Some(q))
            } else {
                if wants.len() == 0 {
                    return Err(V2Error::NoStartingCommit);
                }
                let q = GraphQuery {
                    starts: copy_strings(wants),
                    max_age: None,
                    excluded: Vec::new(),
                    rule: BoundaryRule::Depth { depth, relative: false },
                };
                assert(q@.excluded =~= Seq::<Seq<char>>::empty());
                Ok(Some(q))
            }
        },
        None => Ok(
            Some(
                GraphQuery {
                    starts: copy_strings(wants),
                    max_age: request.deepen_since,
                    excluded: copy_strings(request.deepen_not.as_slice()),
                    rule: BoundaryRule::Filtered,
                },
            ),
        ),
    }
}

impl GraphQuery {
    /// The arguments of the `git rev-list --parents` run that loads the graph.
    pub fn rev_list_args(&self) -> (args: Vec<String>)
        ensures
            svs(args@) == spec_rev_list_args(self@.starts, self@.max_age, self@.excluded),
    {
        rev_list_args(self.starts.as_slice(), self.max_age, self.excluded.as_slice())
    }

    /// The boundaries of the query's fetch in the graph it loaded.
    pub fn boundaries(&self, graph: &CommitGraph) -> (r: Result<Vec<String>, V2Error>)
        ensures
            (self@.rule is Depth && self@.starts.len() == 0) <==> r == Err::<Vec<String>, V2Error>(
                V2Error::NoStartingCommit,
            ),
            r matches Ok(b) ==> strictly_sorted(svs(b@)) && svs(b@).to_set() == boundary_set(
                graph@,
                match self@.rule {
                    BoundaryRule::Depth { depth, relative } => depth_included(
                        graph@,
                        self@.starts,
                        depth as nat,
                        relative,
                    ),
                    BoundaryRule::Filtered => graph@.dom(),
                },
            ),
    {
        match self.rule {
            BoundaryRule::Depth { depth, relative } => compute_depth_boundaries(
                graph,
                self.starts.as_slice(),
                depth,
                relative,
            ),
            BoundaryRule::Filtered => Ok(compute_filtered_boundaries(graph)),
        }
    }
}

/// `<prefix><s>` for each string `s` of `v` that `other` does not hold, in
/// order.
pub open spec fn marked_lines(prefix: Seq<char>, v: Seq<Seq<char>>, other: Seq<Seq<char>>) -> Seq<Seq<char>>
    decreases v.len(),
{
    if v.len() == 0 {
        Seq::empty()
    } else {
        let init = marked_lines(prefix, v.drop_last(), other);
        if other.contains(v.last()) {
            init
        } else {
            init.push(prefix + v.last())
        }
    }
}

/// Append `<prefix><s>` for each string `s` of `v` that `other` does not hold.
fn push_marked_lines(out: &mut Vec<String>, prefix: &str, v: &[String], other: &[String])
    ensures
        svs(final(out)@) == svs(old(out)@) + marked_lines(prefix@, svs(v@), svs(other@)),
{
    let ghost start = svs(out@);
    let ghost vv = svs(v@);
    let ghost ov = svs(other@);
    let mut i: usize = 0;
    assert(vv.take(0) =~= Seq::<Seq<char>>::empty());
    assert(start + Seq::<Seq<char>>::empty() =~= start);
    while i < v.len()
        invariant
            i <= v@.len(),
            vv == svs(v@),
            ov == svs(other@),
            svs(out@) == start + marked_lines(prefix@, vv.take(i as int), ov),
        decreases v@.len() - i,
    {
        proof {
            assert(vv.take(i + 1).drop_last() =~= vv.take(i as int));
            assert(vv.take(i + 1).last() == v@[i as int]@);
        }
        if !contains_string(other, &v[i]) {
            let mut line = chars_of(prefix);
            append_chars(&mut line, string_chars(&v[i]).as_slice());
            let ghost before = svs(out@);
            out.push(string_of(line.as_slice()));
            assert(svs(out@) =~= before.push(line@));
        }
        i = i + 1;
    }
    assert(vv.take(v@.len() as int) =~= vv);
}

/// The shallow-info lines of an update: `shallow` for each new boundary, then
/// `unshallow` for each old boundary that is no longer one.
pub open spec fn spec_shallow_response_lines(boundaries: Seq<Seq<char>>, old: Seq<Seq<char>>) -> Seq<Seq<char>> {
    marked_lines("shallow "@, boundaries, old) + marked_lines("unshallow "@, old, boundaries)
}

/// A line `<prefix><s>` is among the marked lines exactly when `s` is in
/// `v` and not in `other`; every marked line starts with the prefix.
proof fn lemma_marked_lines(prefix: Seq<char>, v: Seq<Seq<char>>, other: Seq<Seq<char>>, s: Seq<char>)
    ensures
        marked_lines(prefix, v, other).contains(prefix + s) <==> (v.contains(s) && !other.contains(s)),
        forall|i: int| 0 <= i < marked_lines(prefix, v, other).len() ==> prefix.is_prefix_of(
            #[trigger] marked_lines(prefix, v, other)[i],
        ),
    decreases v.len(),
{
    if v.len() > 0 {
        let init = v.drop_last();
        lemma_marked_lines(prefix, init, other, s);
        let ml = marked_lines(prefix, init, other);
        assert(v =~= init.push(v.last()));
        if (prefix + s) == (prefix + v.last()) {
            assert(s =~= (prefix + s).skip(prefix.len() as int));
            assert(v.last() =~= (prefix + v.last()).skip(prefix.len() as int));
        }
        if v.contains(s) && !init.contains(s) {
            assert(s == v.last()) by {
                let k = choose|k: int| 0 <= k < v.len() && v[k] == s;
                if k < v.len() - 1 {
                    assert(init[k] == s);
                }
            }
        }
        if init.contains(s) {
            let k = choose|k: int| 0 <= k < init.len() && init[k] == s;
            assert(v[k] == s);
        }
        if !other.contains(v.last()) {
            let nl = ml.push(prefix + v.last());
            assert(nl[ml.len() as int] == prefix + v.last());
            assert forall|i: int| 0 <= i < nl.len() implies prefix.is_prefix_of(#[trigger] nl[i]) by {
                if i < ml.len() {
                    assert(nl[i] == ml[i]);
                } else {
                    assert((prefix + v.last()).subrange(0, prefix.len() as int) =~= prefix);
                }
            }
            if nl.contains(prefix + s) {
                let k = choose|k: int| 0 <= k < nl.len() && nl[k] == prefix + s;
                if k < ml.len() {
                    assert(ml[k] == prefix + s);
                }
            }
            if ml.contains(prefix + s) {
                let k = choose|k: int| 0 <= k < ml.len() && ml[k] == prefix + s;
                assert(nl[k] == prefix + s);
            }
        }
    }
}

/// The client's shallow boundaries after it applies shallow-info lines:
/// those named by `shallow` lines are added, those named by `unshallow`
/// lines removed.
pub open spec fn apply_shallow_info(current: Set<Seq<char>>, lines: Seq<Seq<char>>) -> Set<Seq<char>> {
    current.union(Set::new(|s: Seq<char>| lines.contains("shallow "@ + s))).difference(
        Set::new(|s: Seq<char>| lines.contains("unshallow "@ + s)),
    )
}

/// A client whose shallow boundaries were `old` holds exactly the new
/// boundaries once it applies the shallow-info lines of the update.
pub proof fn lemma_shallow_info_applies(boundaries: Seq<Seq<char>>, old: Seq<Seq<char>>)
    ensures
        apply_shallow_info(old.to_set(), spec_shallow_response_lines(boundaries, old)) == boundaries.to_set(),
{
    reveal_strlit("shallow ");
    reveal_strlit("unshallow ");
    let sh = marked_lines("shallow "@, boundaries, old);
    let un = marked_lines("unshallow "@, old, boundaries);
    let lines = sh + un;
    let result = apply_shallow_info(old.to_set(), lines);
    assert forall|s: Seq<char>| #[trigger] result.contains(s) <==> boundaries.to_set().contains(s) by {
        lemma_marked_lines("shallow "@, boundaries, old, s);
        lemma_marked_lines("unshallow "@, old, boundaries, s);
        // No `shallow` line is an `unshallow` line and the other way round:
        // they differ in their first character.
        if un.contains("shallow "@ + s) {
            let k = choose|k: int| 0 <= k < un.len() && un[k] == "shallow "@ + s;
            assert("unshallow "@.is_prefix_of(un[k]));
            assert(un[k].subrange(0, 10)[0] == un[k][0]);
            assert(un[k][0] == 'u');
            assert(("shallow "@ + s)[0] == 's');
        }
        if sh.contains("unshallow "@ + s) {
            let k = choose|k: int| 0 <= k < sh.len() && sh[k] == "unshallow "@ + s;
            assert("shallow "@.is_prefix_of(sh[k]));
            assert(sh[k].subrange(0, 8)[0] == sh[k][0]);
            assert(sh[k][0] == 's');
            assert(("unshallow "@ + s)[0] == 'u');
        }
        if lines.contains("shallow "@ + s) {
            let k = choose|k: int| 0 <= k < lines.len() && lines[k] == "shallow "@ + s;
            if k < sh.len() {
                assert(sh[k] == lines[k]);
            } else {
                assert(un[k - sh.len()] == lines[k]);
            }
        }
        if lines.contains("unshallow "@ + s) {
            let k = choose|k: int| 0 <= k < lines.len() && lines[k] == "unshallow "@ + s;
            if k < sh.len() {
                assert(sh[k] == lines[k]);
            } else {
                assert(un[k - sh.len()] == lines[k]);
            }
        }
        if sh.contains("shallow "@ + s) {
            let k = choose|k: int| 0 <= k < sh.len() && sh[k] == "shallow "@ + s;
            assert(lines[k] == sh[k]);
        }
        if un.contains("unshallow "@ + s) {
            let k = choose|k: int| 0 <= k < un.len() && un[k] == "unshallow "@ + s;
            assert(lines[sh.len() + k] == un[k]);
        }
    }
    assert(result =~= boundaries.to_set());
}

/// The boundaries of a depth-changing fetch and the shallow-info lines that
/// tell the client about them.
pub struct ShallowUpdate {
    pub boundaries: Vec<String>,
    pub response_lines: Vec<String>,
}

/// Build the shallow update for the new boundaries, given the client's
/// current ones.
pub fn shallow_update(boundaries: Vec<String>, old: &[String]) -> (u: ShallowUpdate)
    ensures
        svs(u.boundaries@) == svs(boundaries@),
        svs(u.response_lines@) == spec_shallow_response_lines(svs(boundaries@), svs(old@)),
{
    let mut response_lines: Vec<String> = Vec::new();
    assert(svs(response_lines@) =~= Seq::<Seq<char>>::empty());
    push_marked_lines(&mut response_lines, "shallow ", boundaries.as_slice(), old);
    push_marked_lines(&mut response_lines, "unshallow ", old, boundaries.as_slice());
    ShallowUpdate { boundaries, response_lines }
}

/// The shallow-info section: the section header, the lines and a delimiter,
/// or nothing when there are no lines.
pub open spec fn spec_shallow_info(lines: Seq<Seq<char>>) -> Seq<PktView> {
    if lines.len() == 0 {
        Seq::empty()
    } else {
        seq![PktView::Data(spec_text_payload("shallow-info"@))] + lines.map_values(
            |l: Seq<char>| PktView::Data(spec_text_payload(l)),
        ) + seq![PktView::Delim]
    }
}

/// Build the shallow-info section of a fetch response.
pub fn shallow_info(update: &ShallowUpdate) -> (out: Vec<PktLine>)
    ensures
        out@.map_values(|p: PktLine| p@) == spec_shallow_info(svs(update.response_lines@)),
{
    let mut out: Vec<PktLine> = Vec::new();
    if update.response_lines.len() == 0 {
        assert(out@.map_values(|p: PktLine| p@) =~= Seq::<PktView>::empty());
        return out;
    }
    let ghost lv = svs(update.response_lines@);
    let ghost body = lv.map_values(|l: Seq<char>| PktView::Data(spec_text_payload(l)));
    let ghost head = seq![PktView::Data(spec_text_payload("shallow-info"@))];
    out.push(PktLine::text("shallow-info"));
    let mut i: usize = 0;
    assert(out@.map_values(|p: PktLine| p@) =~= head + body.take(0));
    while i < update.response_lines.len()
        invariant
            i <= update.response_lines@.len(),
            lv == svs(update.response_lines@),
            body == lv.map_values(|l: Seq<char>| PktView::Data(spec_text_payload(l))),
            out@.map_values(|p: PktLine| p@) == head + body.take(i as int),
        decreases update.response_lines@.len() - i,
    {
        let pkt = PktLine::text(update.response_lines[i].as_str());
        let ghost before = out@.map_values(|p: PktLine| p@);
        let ghost pv = pkt@;
        out.push(pkt);
        assert(out@.map_values(|p: PktLine| p@) =~= before.push(pv));
        assert(body.take(i + 1) =~= body.take(i as int).push(body[i as int]));
        i = i + 1;
    }
    assert(body.take(lv.len() as int) =~= body);
    let ghost before = out@.map_values(|p: PktLine| p@);
    out.push(PktLine::Delim);
    assert(out@.map_values(|p: PktLine| p@) =~= spec_shallow_info(lv));
    out
}

// ── Commands for git ─────────────────────────────────────────────────────

/// Arguments of the `git rev-list` run that loads the commit graph.
pub open spec fn spec_rev_list_args(starts: Seq<Seq<char>>, max_age: Option<i64>, excluded: Seq<Seq<char>>) -> Seq<Seq<char>> {
    let head = seq!["rev-list"@, "--parents"@];
    let with_age = match max_age {
        Some(t) => head.push("--max-age="@ + spec_int_text(t as int)),
        None => head,
    };
    let with_starts = with_age + starts;
    if excluded.len() > 0 {
        with_starts.push("--not"@) + excluded
    } else {
        with_starts
    }
}

fn push_all(out: &mut Vec<String>, v: &[String])
    ensures
        svs(final(out)@) == svs(old(out)@) + svs(v@),
{
    let mut i: usize = 0;
    let ghost start = svs(out@);
    assert(svs(v@).take(0) =~= Seq::<Seq<char>>::empty());
    assert(start + Seq::<Seq<char>>::empty() =~= start);
    while i < v.len()
        invariant
            i <= v@.len(),
            svs(out@) == start + svs(v@).take(i as int),
        decreases v@.len() - i,
    {
        let ghost before = svs(out@);
        out.push(string_of(string_chars(&v[i]).as_slice()));
        assert(svs(out@) =~= before.push(v@[i as int]@));
        assert(svs(v@).take(i + 1) =~= svs(v@).take(i as int).push(v@[i as int]@));
        i = i + 1;
    }
    assert(svs(v@).take(v@.len() as int) =~= svs(v@));
}

fn push_str(out: &mut Vec<String>, s: &str)
    ensures
        svs(final(out)@) == svs(old(out)@).push(s@),
{
    let ghost before = svs(out@);
    out.push(String::from_str(s));
    assert(svs(out@) =~= before.push(s@));
}

/// Build the arguments of the `git rev-list --parents` run.
pub fn rev_list_args(starts: &[String], max_age: Option<i64>, excluded: &[String]) -> (args: Vec<String>)
    ensures
        svs(args@) == spec_rev_list_args(svs(starts@), max_age, svs(excluded@)),
{
    let mut args: Vec<String> = Vec::new();
    assert(svs(args@) =~= Seq::<Seq<char>>::empty());
    push_str(&mut args, "rev-list");
    push_str(&mut args, "--parents");
    match max_age {
        Some(t) => {
            let mut a = chars_of("--max-age=");
            append_chars(&mut a, int_text(t).as_slice());
            let ghost before = svs(args@);
            args.push(string_of(a.as_slice()));
            assert(svs(args@) =~= before.push(a@));
        },
        None => {},
    }
    push_all(&mut args, starts);
    if excluded.len() > 0 {
        push_str(&mut args, "--not");
        push_all(&mut args, excluded);
    }
    assert(svs(args@) =~= spec_rev_list_args(svs(starts@), max_age, svs(excluded@)));
    args
}

/// The revision list that `git pack-objects --revs` reads: `--shallow <b>`
/// for each boundary of a depth change, then the wants, then `^<have>` for
/// each have unless the depth changes (a shallow client's haves must not
/// exclude history it does not have).
pub open spec fn spec_pack_objects_input(
    boundaries: Option<Seq<Seq<char>>>,
    wants: Seq<Seq<char>>,
    haves: Seq<Seq<char>>,
) -> Seq<char> {
    match boundaries {
        Some(bs) => joined_lines("--shallow "@, bs) + joined_lines(Seq::empty(), wants),
        None => joined_lines(Seq::empty(), wants) + joined_lines("^"@, haves),
    }
}

/// `<prefix><s>\n` for each string, concatenated.
pub open spec fn joined_lines(prefix: Seq<char>, v: Seq<Seq<char>>) -> Seq<char>
    decreases v.len(),
{
    if v.len() == 0 {
        Seq::empty()
    } else {
        joined_lines(prefix, v.drop_last()) + prefix + v.last() + seq!['\n']
    }
}

fn append_joined(out: &mut Vec<char>, prefix: &str, v: &[String])
    ensures
        final(out)@ == old(out)@ + joined_lines(prefix@, svs(v@)),
{
    let ghost start = out@;
    let ghost vv = svs(v@);
    let pc = chars_of(prefix);
    let mut i: usize = 0;
    assert(vv.take(0) =~= Seq::<Seq<char>>::empty());
    assert(start + Seq::<char>::empty() =~= start);
    while i < v.len()
        invariant
            i <= v@.len(),
            vv == svs(v@),
            pc@ == prefix@,
            out@ == start + joined_lines(prefix@, vv.take(i as int)),
        decreases v@.len() - i,
    {
        proof {
            assert(vv.take(i + 1).drop_last() =~= vv.take(i as int));
            assert(vv.take(i + 1).last() == v@[i as int]@);
        }
        let ghost before = out@;
        append_chars(out, pc.as_slice());
        append_chars(out, string_chars(&v[i]).as_slice());
        out.push('\n');
        assert(out@ =~= start + (joined_lines(prefix@, vv.take(i as int)) + prefix@ + v@[i as int]@ + seq!['\n']));
        i = i + 1;
    }
    assert(vv.take(v@.len() as int) =~= vv);
}

/// Build the revision list for `git pack-objects --revs`.
pub fn pack_objects_input(update: Option<&ShallowUpdate>, wants: &[String], haves: &[String]) -> (input: String)
    ensures
        input@ == spec_pack_objects_input(
            match update {
                Some(u) => Some(svs(u.boundaries@)),
                None => None,
            },
            svs(wants@),
            svs(haves@),
        ),
{
    let mut out: Vec<char> = Vec::new();
    proof {
        reveal_strlit("");
        assert(""@ =~= Seq::<char>::empty());
    }
    match update {
        Some(u) => {
            append_joined(&mut out, "--shallow ", u.boundaries.as_slice());
            assert(out@ =~= joined_lines("--shallow "@, svs(u.boundaries@)));
            append_joined(&mut out, "", wants);
        },
        None => {
            append_joined(&mut out, "", wants);
            assert(out@ =~= joined_lines(Seq::empty(), svs(wants@)));
            append_joined(&mut out, "^", haves);
        },
    }
    string_of(out.as_slice())
}

/// Arguments of `git pack-objects`: `--shallow` when there are boundaries,
/// `--filter=<spec>` when a filter was asked for.
pub open spec fn spec_pack_objects_args(has_boundaries: bool, filter: Option<Seq<char>>) -> Seq<Seq<char>> {
    let base = seq!["pack-objects"@, "--revs"@, "--stdout"@, "--thin"@];
    let with_shallow = if has_boundaries {
        base.push("--shallow"@)
    } else {
        base
    };
    match filter {
        Some(f) => with_shallow.push("--filter="@ + f),
        None => with_shallow,
    }
}

/// Build the arguments of `git pack-objects`.
pub fn pack_objects_args(update: Option<&ShallowUpdate>, filter: Option<&String>) -> (args: Vec<String>)
    ensures
        svs(args@) == spec_pack_objects_args(
            match update {
                Some(u) => u.boundaries@.len() > 0,
                None => false,
            },
            match filter {
                Some(f) => Some(f@),
                None => None,
            },
        ),
{
    let mut args: Vec<String> = Vec::new();
    assert(svs(args@) =~= Seq::<Seq<char>>::empty());
    push_str(&mut args, "pack-objects");
    push_str(&mut args, "--revs");
    push_str(&mut args, "--stdout");
    push_str(&mut args, "--thin");
    let has_boundaries = match update {
        Some(u) => u.boundaries.len() > 0,
        None => false,
    };
    if has_boundaries {
        push_str(&mut args, "--shallow");
    }
    match filter {
        Some(f) => {
            let mut a = chars_of("--filter=");
            append_chars(&mut a, string_chars(f).as_slice());
            let ghost before = svs(args@);
            args.push(string_of(a.as_slice()));
            assert(svs(args@) =~= before.push(a@));
        },
        None => {},
    }
    assert(svs(args@) =~= spec_pack_objects_args(has_boundaries, match filter {
        Some(f) => Some(f@),
        None => None,
    }));
    args
}

} // verus!
