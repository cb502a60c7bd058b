//! Story dependencies: "blocker blocks blocked" edges between stories, and the
//! rule that keeps the dependency graph free of cycles.
use vstd::prelude::*;
use crate::errors::HarnessError;

verus! {

/// One edge of the dependency graph: `blocker` must finish before `blocked`.
pub struct StoryDependencyRecord {
    pub blocker: String,
    pub blocked: String,
}

/// There is an edge `a -> b` in `edges`.
pub open spec fn step(edges: Seq<StoryDependencyRecord>, a: Seq<char>, b: Seq<char>) -> bool {
    exists|i: int| 0 <= i < edges.len() && edges[i].blocker@ == a && edges[i].blocked@ == b
}

/// There is a path of at most `n` edges (and at least one) from `a` to `b`.
pub open spec fn reach_in(
    edges: Seq<StoryDependencyRecord>,
    a: Seq<char>,
    b: Seq<char>,
    n: nat,
) -> bool
    decreases n,
{
    n > 0 && (step(edges, a, b) || exists|x: Seq<char>|
        step(edges, a, x) && reach_in(edges, x, b, (n - 1) as nat))
}

/// `b` can be reached from `a` by following one or more edges.
pub open spec fn reachable(edges: Seq<StoryDependencyRecord>, a: Seq<char>, b: Seq<char>) -> bool {
    exists|n: nat| reach_in(edges, a, b, n)
}

/// No story can reach itself.
pub open spec fn acyclic(edges: Seq<StoryDependencyRecord>) -> bool {
    forall|a: Seq<char>| !reachable(edges, a, a)
}

/// The edge `a -> b` is present.
pub open spec fn has_edge(edges: Seq<StoryDependencyRecord>, a: Seq<char>, b: Seq<char>) -> bool {
    step(edges, a, b)
}

proof fn lemma_reach_mono(edges: Seq<StoryDependencyRecord>, a: Seq<char>, b: Seq<char>, n: nat, m: nat)
    requires
        reach_in(edges, a, b, n),
        n <= m,
    ensures
        reach_in(edges, a, b, m),
    decreases n,
{
    if !step(edges, a, b) {
        let x = choose|x: Seq<char>| step(edges, a, x) && reach_in(edges, x, b, (n - 1) as nat);
        lemma_reach_mono(edges, x, b, (n - 1) as nat, (m - 1) as nat);
    }
}

/// Paths compose.
pub proof fn lemma_reach_trans(
    edges: Seq<StoryDependencyRecord>,
    a: Seq<char>,
    b: Seq<char>,
    c: Seq<char>,
    n: nat,
    m: nat,
)
    requires
        reach_in(edges, a, b, n),
        reach_in(edges, b, c, m),
    ensures
        reach_in(edges, a, c, n + m),
    decreases n,
{
    if step(edges, a, b) {
        lemma_reach_mono(edges, b, c, m, (n + m - 1) as nat);
        assert(step(edges, a, b) && reach_in(edges, b, c, (n + m - 1) as nat));
    } else {
        let x = choose|x: Seq<char>| step(edges, a, x) && reach_in(edges, x, b, (n - 1) as nat);
        lemma_reach_trans(edges, x, b, c, (n - 1) as nat, m);
        assert(step(edges, a, x) && reach_in(edges, x, c, (n + m - 1) as nat));
    }
}

proof fn lemma_step_push(
    edges: Seq<StoryDependencyRecord>,
    e: StoryDependencyRecord,
    a: Seq<char>,
    b: Seq<char>,
)
    ensures
        step(edges.push(e), a, b) <==> (step(edges, a, b) || (e.blocker@ == a && e.blocked@ == b)),
{
    let ne = edges.push(e);
    if step(ne, a, b) {
        let i = choose|i: int| 0 <= i < ne.len() && ne[i].blocker@ == a && ne[i].blocked@ == b;
        if i < edges.len() {
            assert(edges[i] == ne[i]);
        }
    }
    if step(edges, a, b) {
        let i = choose|i: int|
            0 <= i < edges.len() && edges[i].blocker@ == a && edges[i].blocked@ == b;
        assert(ne[i] == edges[i]);
    }
    if e.blocker@ == a && e.blocked@ == b {
        assert(ne[edges.len() as int] == e);
    }
}

/// A path in the graph with the new edge `e` either is a path of the old graph,
/// or runs from `u` to `e.blocker` and from `e.blocked` to `v` in the old graph.
proof fn lemma_reach_push(
    edges: Seq<StoryDependencyRecord>,
    e: StoryDependencyRecord,
    u: Seq<char>,
    v: Seq<char>,
    n: nat,
)
    requires
        reach_in(edges.push(e), u, v, n),
        e.blocker@ != e.blocked@,
        !reachable(edges, e.blocked@, e.blocker@),
    ensures
        reachable(edges, u, v) || ((u == e.blocker@ || reachable(edges, u, e.blocker@)) && (v
            == e.blocked@ || reachable(edges, e.blocked@, v))),
    decreases n,
{
    let ne = edges.push(e);
    let a = e.blocker@;
    let b = e.blocked@;
    if step(ne, u, v) {
        lemma_step_push(edges, e, u, v);
        if step(edges, u, v) {
            assert(reach_in(edges, u, v, 1));
        }
    } else {
        let x = choose|x: Seq<char>| step(ne, u, x) && reach_in(ne, x, v, (n - 1) as nat);
        lemma_step_push(edges, e, u, x);
        lemma_reach_push(edges, e, x, v, (n - 1) as nat);
        if step(edges, u, x) {
            assert(reach_in(edges, u, x, 1));
            if reachable(edges, x, v) {
                let k = choose|k: nat| reach_in(edges, x, v, k);
                lemma_reach_trans(edges, u, x, v, 1, k);
            } else if x == a {
            } else {
                let k = choose|k: nat| reach_in(edges, x, a, k);
                lemma_reach_trans(edges, u, x, a, 1, k);
            }
        } else {
            // the first edge is the new one: u == a, x == b
            assert(u == a && x == b);
            if !reachable(edges, x, v) {
                assert(x == a || reachable(edges, x, a));
            }
        }
    }
}

/// Adding an edge `blocker -> blocked` between two different stories, where
/// `blocked` cannot already reach `blocker`, keeps an acyclic graph acyclic.
pub proof fn lemma_add_keeps_acyclic(edges: Seq<StoryDependencyRecord>, e: StoryDependencyRecord)
    requires
        acyclic(edges),
        e.blocker@ != e.blocked@,
        !reachable(edges, e.blocked@, e.blocker@),
    ensures
        acyclic(edges.push(e)),
{
    let a = e.blocker@;
    let b = e.blocked@;
    assert forall|x: Seq<char>| !reachable(edges.push(e), x, x) by {
        if reachable(edges.push(e), x, x) {
            let n = choose|n: nat| reach_in(edges.push(e), x, x, n);
            lemma_reach_push(edges, e, x, x, n);
            if !reachable(edges, x, x) {
                // x reaches (or is) a, and b reaches (or is) x: so b reaches a.
                if x == a {
                    assert(x != b);
                    assert(reachable(edges, b, x));
                } else if x == b {
                    assert(reachable(edges, x, a));
                } else {
                    let k1 = choose|k: nat| reach_in(edges, b, x, k);
                    let k2 = choose|k: nat| reach_in(edges, x, a, k);
                    lemma_reach_trans(edges, b, x, a, k1, k2);
                }
            }
        }
    }
}


// ---------------------------------------------------------------------------
// Reachability
// ---------------------------------------------------------------------------

/// The number of `false` entries of `s`.
pub open spec fn count_false(s: Seq<bool>) -> nat
    decreases s.len(),
{
    if s.len() == 0 {
        0
    } else {
        count_false(s.drop_last()) + if s.last() {
            0nat
        } else {
            1nat
        }
    }
}

proof fn lemma_count_false_update(s: Seq<bool>, i: int)
    requires
        0 <= i < s.len(),
        !s[i],
    ensures
        count_false(s.update(i, true)) + 1 == count_false(s),
    decreases s.len(),
{
    let t = s.update(i, true);
    if i == s.len() - 1 {
        assert(t.drop_last() == s.drop_last());
    } else {
        assert(t.drop_last() == s.drop_last().update(i, true));
        lemma_count_false_update(s.drop_last(), i);
    }
}

/// `u` is `from`, or the target of an edge already marked.
pub open spec fn reached(
    edges: Seq<StoryDependencyRecord>,
    from: Seq<char>,
    mark: Seq<bool>,
    u: Seq<char>,
) -> bool {
    u == from || exists|j: int| 0 <= j < mark.len() && mark[j] && edges[j].blocked@ == u
}

/// Every marked edge leads to a story reachable from `from`.
pub open spec fn marks_sound(
    edges: Seq<StoryDependencyRecord>,
    from: Seq<char>,
    mark: Seq<bool>,
) -> bool {
    &&& mark.len() == edges.len()
    &&& forall|j: int| 0 <= j < mark.len() && mark[j] ==> reachable(edges, from, #[trigger] edges[j].blocked@)
}

/// No unmarked edge starts at a reached story.
pub open spec fn marks_closed(
    edges: Seq<StoryDependencyRecord>,
    from: Seq<char>,
    mark: Seq<bool>,
) -> bool {
    forall|i: int| 0 <= i < mark.len() && !mark[i] ==> !reached(edges, from, mark, #[trigger] edges[i].blocker@)
}

proof fn lemma_closed_complete(
    edges: Seq<StoryDependencyRecord>,
    from: Seq<char>,
    mark: Seq<bool>,
    u: Seq<char>,
    v: Seq<char>,
    n: nat,
)
    requires
        mark.len() == edges.len(),
        marks_closed(edges, from, mark),
        reached(edges, from, mark, u),
        reach_in(edges, u, v, n),
    ensures
        exists|j: int| 0 <= j < mark.len() && mark[j] && edges[j].blocked@ == v,
    decreases n,
{
    if step(edges, u, v) {
        let i = choose|i: int| 0 <= i < edges.len() && edges[i].blocker@ == u && edges[i].blocked@ == v;
        assert(mark[i]);
    } else {
        let x = choose|x: Seq<char>| step(edges, u, x) && reach_in(edges, x, v, (n - 1) as nat);
        let i = choose|i: int| 0 <= i < edges.len() && edges[i].blocker@ == u && edges[i].blocked@ == x;
        assert(mark[i]);
        assert(reached(edges, from, mark, x));
        lemma_closed_complete(edges, from, mark, x, v, (n - 1) as nat);
    }
}

/// Whether `node` is `from` or the target of a marked edge.
fn is_reached(edges: &Vec<StoryDependencyRecord>, from: &String, mark: &Vec<bool>, node: &String) -> (b: bool)
    requires
        mark@.len() == edges@.len(),
    ensures
        b == reached(edges@, from@, mark@, node@),
{
    if *node == *from {
        return true;
    }
    let mut j: usize = 0;
    while j < mark.len()
        invariant
            mark@.len() == edges@.len(),
            j <= mark@.len(),
            node@ != from@,
            forall|k: int| 0 <= k < j ==> !(mark@[k] && edges@[k].blocked@ == node@),
        decreases mark@.len() - j,
    {
        if mark[j] && edges[j].blocked == *node {
            return true;
        }
        j = j + 1;
    }
    false
}

/// Whether `to` can be reached from `from` by following dependency edges
/// (one or more of them).
pub fn dependency_path_exists(edges: &Vec<StoryDependencyRecord>, from: &str, to: &str) -> (b: bool)
    ensures
        b == reachable(edges@, from@, to@),
{
    let from_s: String = from.to_owned();
    let to_s: String = to.to_owned();
    let n = edges.len();
    let mut mark: Vec<bool> = Vec::new();
    while mark.len() < n
        invariant
            n == edges@.len(),
            mark@.len() <= n,
            forall|k: int| 0 <= k < mark@.len() ==> !mark@[k],
        decreases n - mark@.len(),
    {
        mark.push(false);
    }
    loop
        invariant
            n == edges@.len(),
            from_s@ == from@,
            to_s@ == to@,
            marks_sound(edges@, from_s@, mark@),
        ensures
            from_s@ == from@,
            to_s@ == to@,
            marks_sound(edges@, from_s@, mark@),
            marks_closed(edges@, from_s@, mark@),
        decreases count_false(mark@),
    {
        let ghost start = mark@;
        let mut changed = false;
        let mut i: usize = 0;
        while i < n
            invariant
                n == edges@.len(),
                i <= n,
                marks_sound(edges@, from_s@, mark@),
                changed ==> count_false(mark@) < count_false(start),
                !changed ==> mark@ == start,
                !changed ==> forall|k: int| 0 <= k < i && !mark@[k] ==> !reached(edges@, from_s@, mark@, #[trigger] edges@[k].blocker@),
            decreases n - i,
        {
            if !mark[i] && is_reached(edges, &from_s, &mark, &edges[i].blocker) {
                let ghost before = mark@;
                proof {
                    let src = edges@[i as int].blocker@;
                    let dst = edges@[i as int].blocked@;
                    assert(step(edges@, src, dst));
                    assert(reach_in(edges@, src, dst, 1));
                    if src == from_s@ {
                    } else {
                        let j = choose|j: int| 0 <= j < before.len() && before[j] && edges@[j].blocked@ == src;
                        assert(reachable(edges@, from_s@, edges@[j].blocked@));
                        let k = choose|k: nat| reach_in(edges@, from_s@, src, k);
                        lemma_reach_trans(edges@, from_s@, src, dst, k, 1);
                    }
                    assert(reachable(edges@, from_s@, dst));
                    lemma_count_false_update(before, i as int);
                }
                mark.set(i, true);
                changed = true;
            }
            i = i + 1;
        }
        if !changed {
            break;
        }
    }
    let mut j: usize = 0;
    while j < n
        invariant
            n == edges@.len(),
            j <= n,
            marks_sound(edges@, from_s@, mark@),
            from_s@ == from@,
            to_s@ == to@,
            forall|k: int| 0 <= k < j ==> !(mark@[k] && edges@[k].blocked@ == to_s@),
        decreases n - j,
    {
        if mark[j] && edges[j].blocked == to_s {
            assert(reachable(edges@, from_s@, edges@[j as int].blocked@));
            return true;
        }
        j = j + 1;
    }
    proof {
        if reachable(edges@, from_s@, to_s@) {
            let k = choose|k: nat| reach_in(edges@, from_s@, to_s@, k);
            lemma_closed_complete(edges@, from_s@, mark@, from_s@, to_s@, k);
        }
    }
    false
}


/// Whether the edge `blocker -> blocked` is already present.
pub fn has_dependency(edges: &Vec<StoryDependencyRecord>, blocker: &str, blocked: &str) -> (b: bool)
    ensures
        b == has_edge(edges@, blocker@, blocked@),
{
    let a: String = blocker.to_owned();
    let c: String = blocked.to_owned();
    let mut i: usize = 0;
    while i < edges.len()
        invariant
            i <= edges@.len(),
            a@ == blocker@,
            c@ == blocked@,
            forall|k: int| 0 <= k < i ==> !(edges@[k].blocker@ == a@ && edges@[k].blocked@ == c@),
        decreases edges@.len() - i,
    {
        if edges[i].blocker == a && edges[i].blocked == c {
            return true;
        }
        i = i + 1;
    }
    false
}

/// Decides a request to add `blocker -> blocked`, given the current edges and
/// whether each story exists. `Ok(changed)` says whether the edge is new.
/// The checks run in this order: self-dependency, unknown blocker, unknown
/// blocked story, cycle.
pub fn plan_dependency_add(
    edges: &Vec<StoryDependencyRecord>,
    blocker: &str,
    blocked: &str,
    blocker_exists: bool,
    blocked_exists: bool,
) -> (r: Result<bool, HarnessError>)
    ensures
        blocker@ == blocked@ ==> (r matches Err(HarnessError::StoryDependencySelf(s)) && s@ == blocker@),
        blocker@ != blocked@ && !blocker_exists ==> (r matches Err(HarnessError::StoryNotFound(s)) && s@ == blocker@),
        blocker@ != blocked@ && blocker_exists && !blocked_exists ==> (r matches Err(HarnessError::StoryNotFound(s)) && s@ == blocked@),
        blocker@ != blocked@ && blocker_exists && blocked_exists && reachable(edges@, blocked@, blocker@)
            ==> (r matches Err(HarnessError::StoryDependencyCycle(a, b)) && a@ == blocker@ && b@ == blocked@),
        blocker@ != blocked@ && blocker_exists && blocked_exists && !reachable(edges@, blocked@, blocker@)
            ==> r == Ok::<bool, HarnessError>(!has_edge(edges@, blocker@, blocked@)),
        // a granted edge keeps an acyclic graph acyclic
        r is Ok && acyclic(edges@) ==> forall|e: StoryDependencyRecord|
            e.blocker@ == blocker@ && e.blocked@ == blocked@ ==> #[trigger] acyclic(edges@.push(e)),
{
    let a: String = blocker.to_owned();
    let c: String = blocked.to_owned();
    if a == c {
        return Err(HarnessError::StoryDependencySelf(a));
    }
    if !blocker_exists {
        return Err(HarnessError::StoryNotFound(a));
    }
    if !blocked_exists {
        return Err(HarnessError::StoryNotFound(c));
    }
    if dependency_path_exists(edges, blocked, blocker) {
        return Err(HarnessError::StoryDependencyCycle(a, c));
    }
    proof {
        assert forall|e: StoryDependencyRecord|
            e.blocker@ == blocker@ && e.blocked@ == blocked@ && acyclic(edges@) implies #[trigger] acyclic(edges@.push(e)) by {
            lemma_add_keeps_acyclic(edges@, e);
        }
    }
    Ok(!has_dependency(edges, blocker, blocked))
}

} // verus!
