//! Dependency graphs over process indices: depth-first search that either
//! finds a dependency cycle or lays the processes out in start order.
//!
//! A graph is a list of rows, one for each process in declaration order; row
//! `u` lists the processes that `u` depends on, each by its index. An index
//! that is no process of the graph stands for a dependency that is not
//! declared: nothing is known of it, and the search passes it over.

use vstd::prelude::*;

verus! {

/// The graph that a list of rows stands for.
pub open spec fn graph_of(rows: Seq<Vec<usize>>) -> Seq<Seq<usize>> {
    Seq::new(rows.len(), |u: int| rows[u]@)
}

/// Whether every dependency that the graph names is one of its processes.
pub open spec fn closed_graph(g: Seq<Seq<usize>>) -> bool {
    &&& g.len() <= usize::MAX
    &&& forall|u: int, k: int|
        0 <= u < g.len() && 0 <= k < g[u].len() ==> #[trigger] g[u][k] < g.len()
}

/// Whether process `u` names process `v` among its dependencies.
pub open spec fn depends_on(g: Seq<Seq<usize>>, u: int, v: int) -> bool {
    &&& 0 <= u < g.len()
    &&& exists|k: int| 0 <= k < g[u].len() && #[trigger] g[u][k] == v
}

/// Whether each process of `chain` names the next one among its dependencies.
pub open spec fn is_chain(g: Seq<Seq<usize>>, chain: Seq<int>) -> bool {
    &&& chain.len() >= 1
    &&& forall|i: int| 0 <= i < chain.len() - 1 ==> depends_on(g, #[trigger] chain[i], chain[i + 1])
}

/// Whether `to` is `from` itself or one of the processes that `from` depends
/// on, directly or through others.
pub open spec fn reaches(g: Seq<Seq<usize>>, from: int, to: int) -> bool {
    exists|chain: Seq<int>| #[trigger] is_chain(g, chain) && chain.first() == from && chain.last() == to
}

/// Whether some process depends on itself, directly or through others.
pub open spec fn cyclic(g: Seq<Seq<usize>>) -> bool {
    exists|u: int, v: int| #[trigger] depends_on(g, u, v) && reaches(g, v, u)
}

/// Whether `v` stands in `order` before position `p`.
pub open spec fn placed_before(order: Seq<usize>, v: usize, p: int) -> bool {
    exists|q: int| 0 <= q < p && #[trigger] order[q] == v
}

/// Whether every process in `order` stands after all the processes of the
/// graph that it depends on.
pub open spec fn dependencies_first(g: Seq<Seq<usize>>, order: Seq<usize>) -> bool {
    forall|p: int, k: int|
        0 <= p < order.len() && 0 <= k < g[order[p] as int].len() && (#[trigger] g[order[p] as int][k])
            < g.len() ==> placed_before(order, g[order[p] as int][k], p)
}

/// Whether `order` names every process of the graph exactly once.
pub open spec fn names_each_once(g: Seq<Seq<usize>>, order: Seq<usize>) -> bool {
    &&& order.no_duplicates()
    &&& forall|p: int| 0 <= p < order.len() ==> #[trigger] order[p] < g.len()
    &&& forall|u: usize| u < g.len() ==> #[trigger] order.contains(u)
}

/// The order in which a depth-first walk that starts at `node` finishes the
/// processes that are not yet in `done`: each process after its dependencies,
/// the dependencies visited in the order in which they are listed. `fuel`
/// bounds the depth of the walk; the number of processes is enough for a
/// graph without cycles.
pub open spec fn visit(g: Seq<Seq<usize>>, node: usize, done: Seq<usize>, fuel: nat) -> Seq<usize>
    decreases fuel, 0nat,
{
    if fuel == 0 || node >= g.len() || done.contains(node) {
        done
    } else {
        visit_each(g, g[node as int], 0, done, (fuel - 1) as nat).push(node)
    }
}

/// `visit` applied in turn to the processes of `deps` from position `from` on.
pub open spec fn visit_each(
    g: Seq<Seq<usize>>,
    deps: Seq<usize>,
    from: int,
    done: Seq<usize>,
    fuel: nat,
) -> Seq<usize>
    decreases fuel, 1 + deps.len() - from,
{
    if from < 0 || from >= deps.len() {
        done
    } else {
        visit_each(g, deps, from + 1, visit(g, deps[from], done, fuel), fuel)
    }
}

/// `visit` applied in turn to the processes from index `from` on, in
/// declaration order.
pub open spec fn visit_from(g: Seq<Seq<usize>>, from: int, done: Seq<usize>) -> Seq<usize>
    decreases g.len() - from,
{
    if from < 0 || from >= g.len() {
        done
    } else {
        visit_from(g, from + 1, visit(g, from as usize, done, g.len()))
    }
}

/// The start order of a graph without cycles: the order in which a
/// depth-first walk over the processes, taken in declaration order, finishes
/// them.
pub open spec fn depth_first_order(g: Seq<Seq<usize>>) -> Seq<usize> {
    visit_from(g, 0, Seq::empty())
}

/// The number of processes that the search has not reached yet.
pub open spec fn unvisited(visited: Seq<bool>) -> nat
    decreases visited.len(),
{
    if visited.len() == 0 {
        0
    } else {
        unvisited(visited.drop_last()) + if visited.last() { 0nat } else { 1nat }
    }
}

proof fn lemma_unvisited_mark(visited: Seq<bool>, node: int)
    requires
        0 <= node < visited.len(),
        !visited[node],
    ensures
        unvisited(visited.update(node, true)) + 1 == unvisited(visited),
    decreases visited.len(),
{
    let marked = visited.update(node, true);
    if node == visited.len() - 1 {
        assert(marked.drop_last() =~= visited.drop_last());
    } else {
        assert(marked.drop_last() =~= visited.drop_last().update(node, true));
        lemma_unvisited_mark(visited.drop_last(), node);
    }
}

proof fn lemma_unvisited_shrinks(before: Seq<bool>, after: Seq<bool>)
    requires
        before.len() == after.len(),
        forall|i: int| 0 <= i < before.len() && before[i] ==> after[i],
    ensures
        unvisited(after) <= unvisited(before),
    decreases before.len(),
{
    if before.len() > 0 {
        lemma_unvisited_shrinks(before.drop_last(), after.drop_last());
    }
}

proof fn lemma_unvisited_bound(visited: Seq<bool>)
    ensures
        unvisited(visited) <= visited.len(),
    decreases visited.len(),
{
    if visited.len() > 0 {
        lemma_unvisited_bound(visited.drop_last());
    }
}

/// A chain can be continued by one more dependency.
proof fn lemma_reaches_step(g: Seq<Seq<usize>>, from: int, via: int, to: int)
    requires
        reaches(g, from, via),
        depends_on(g, via, to),
    ensures
        reaches(g, from, to),
{
    let chain = choose|chain: Seq<int>| #[trigger]
        is_chain(g, chain) && chain.first() == from && chain.last() == via;
    let longer = chain.push(to);
    assert forall|i: int| 0 <= i < longer.len() - 1 implies depends_on(
        g,
        #[trigger] longer[i],
        longer[i + 1],
    ) by {
        if i < chain.len() - 1 {
            assert(longer[i] == chain[i]);
            assert(longer[i + 1] == chain[i + 1]);
        }
    }
    assert(is_chain(g, longer));
    assert(longer.first() == from && longer.last() == to);
}

/// A chain can be entered through one more dependency at its beginning.
proof fn lemma_reaches_from(g: Seq<Seq<usize>>, from: int, via: int, to: int)
    requires
        depends_on(g, from, via),
        reaches(g, via, to),
    ensures
        reaches(g, from, to),
{
    let chain = choose|chain: Seq<int>| #[trigger]
        is_chain(g, chain) && chain.first() == via && chain.last() == to;
    let longer = seq![from] + chain;
    assert forall|i: int| 0 <= i < longer.len() - 1 implies depends_on(
        g,
        #[trigger] longer[i],
        longer[i + 1],
    ) by {
        if i > 0 {
            assert(longer[i] == chain[i - 1]);
            assert(longer[i + 1] == chain[i - 1 + 1]);
        } else {
            assert(longer[1] == chain[0]);
        }
    }
    assert(is_chain(g, longer));
    assert(longer.first() == from && longer.last() == to);
}

/// Every process reaches itself.
proof fn lemma_reaches_self(g: Seq<Seq<usize>>, node: int)
    ensures
        reaches(g, node, node),
{
    let chain = seq![node];
    assert(is_chain(g, chain));
    assert(chain.first() == node && chain.last() == node);
}

/// The position of `v` in `order`.
spec fn position(order: Seq<usize>, v: usize) -> int {
    choose|q: int| 0 <= q < order.len() && order[q] == v
}

/// Along a chain of dependencies the position in an order that puts
/// dependencies first never rises.
proof fn lemma_chain_descends(g: Seq<Seq<usize>>, order: Seq<usize>, chain: Seq<int>)
    requires
        g.len() <= usize::MAX,
        names_each_once(g, order),
        dependencies_first(g, order),
        is_chain(g, chain),
        0 <= chain.last() < g.len(),
    ensures
        0 <= chain.first() < g.len(),
        position(order, chain.last() as usize) <= position(order, chain.first() as usize),
    decreases chain.len(),
{
    if chain.len() > 1 {
        assert(depends_on(g, chain[chain.len() - 2], chain[chain.len() - 2 + 1]));
        let shorter = chain.drop_last();
        assert forall|i: int| 0 <= i < shorter.len() - 1 implies depends_on(
            g,
            #[trigger] shorter[i],
            shorter[i + 1],
        ) by {
            assert(shorter[i] == chain[i]);
            assert(shorter[i + 1] == chain[i + 1]);
        }
        assert(shorter.last() == chain[chain.len() - 2]);
        lemma_chain_descends(g, order, shorter);
        let u = shorter.last();
        let v = chain.last();
        lemma_dependency_descends(g, order, u, v);
    }
}

/// In an order that puts dependencies first, a dependency stands strictly
/// before the process that names it.
proof fn lemma_dependency_descends(g: Seq<Seq<usize>>, order: Seq<usize>, u: int, v: int)
    requires
        g.len() <= usize::MAX,
        names_each_once(g, order),
        dependencies_first(g, order),
        depends_on(g, u, v),
        0 <= v < g.len(),
    ensures
        position(order, v as usize) < position(order, u as usize),
{
    let k = choose|k: int| 0 <= k < g[u].len() && #[trigger] g[u][k] == v;
    assert(g[u][k] < g.len());
    assert(order.contains(u as usize));
    let p = position(order, u as usize);
    assert(0 <= p < order.len() && order[p] == u as usize);
    assert(placed_before(order, g[order[p] as int][k], p));
    let q = choose|q: int| 0 <= q < p && #[trigger] order[q] == g[order[p] as int][k];
    assert(order.contains(v as usize));
    let pv = position(order, v as usize);
    assert(0 <= pv < order.len() && order[pv] == v as usize);
    assert(pv == q);
}

/// A graph whose processes can be laid out with every dependency first has
/// no cycle.
pub proof fn lemma_ordered_graph_is_acyclic(g: Seq<Seq<usize>>, order: Seq<usize>)
    requires
        g.len() <= usize::MAX,
        names_each_once(g, order),
        dependencies_first(g, order),
    ensures
        !cyclic(g),
{
    if cyclic(g) {
        let (u, v) = choose|u: int, v: int| #[trigger] depends_on(g, u, v) && reaches(g, v, u);
        let chain = choose|chain: Seq<int>| #[trigger]
            is_chain(g, chain) && chain.first() == v && chain.last() == u;
        lemma_chain_descends(g, order, chain);
        lemma_dependency_descends(g, order, u, v);
    }
}

/// The processes on a cycle are processes of the graph.
pub proof fn lemma_cycle_in_graph(g: Seq<Seq<usize>>, dependent: int, dependency: int)
    requires
        depends_on(g, dependent, dependency),
        reaches(g, dependency, dependent),
    ensures
        0 <= dependent < g.len(),
        0 <= dependency < g.len(),
{
    let chain = choose|chain: Seq<int>| #[trigger]
        is_chain(g, chain) && chain.first() == dependency && chain.last() == dependent;
    if chain.len() > 1 {
        assert(depends_on(g, chain[0int], chain[0int + 1]));
    }
}

/// What holds of the marks and of the order between any two steps of the
/// search: the processes in `order` are those that are finished (visited and
/// no longer in progress), none stands there twice, and each stands after its
/// dependencies.
pub open spec fn search_state(
    g: Seq<Seq<usize>>,
    visited: Seq<bool>,
    in_progress: Seq<bool>,
    order: Seq<usize>,
) -> bool {
    &&& g.len() <= usize::MAX
    &&& visited.len() == g.len()
    &&& in_progress.len() == g.len()
    &&& forall|i: int| 0 <= i < g.len() && #[trigger] in_progress[i] ==> visited[i]
    &&& forall|p: int| 0 <= p < order.len() ==> #[trigger] order[p] < g.len()
    &&& order.no_duplicates()
    &&& forall|u: usize|
        u < g.len() ==> (#[trigger] order.contains(u) <==> visited[u as int] && !in_progress[u as int])
    &&& dependencies_first(g, order)
}

/// Whether every process that is in progress reaches `node`.
pub open spec fn on_path_to(g: Seq<Seq<usize>>, in_progress: Seq<bool>, node: int) -> bool {
    forall|x: int| 0 <= x < in_progress.len() && #[trigger] in_progress[x] ==> reaches(g, x, node)
}

/// Depth-first search from `node`, which the search has not reached yet.
///
/// Returns `None` when no cycle was met: everything that `node` depends on is
/// then finished, `node` after it, and `order` has grown by exactly the
/// processes that this walk finished. Returns `Some((dependency, dependent))`
/// when `dependent`, which `node` reaches, names `dependency` while
/// `dependency` is still in progress: the two lie on a cycle.
pub fn depth_first_search(
    rows: &Vec<Vec<usize>>,
    node: usize,
    visited: &mut Vec<bool>,
    in_progress: &mut Vec<bool>,
    order: &mut Vec<usize>,
) -> (found: Option<(usize, usize)>)
    requires
        search_state(graph_of(rows@), old(visited)@, old(in_progress)@, old(order)@),
        node < rows.len(),
        !old(visited)@[node as int],
        on_path_to(graph_of(rows@), old(in_progress)@, node as int),
    ensures
        match found {
            Some((dependency, dependent)) => {
                &&& depends_on(graph_of(rows@), dependent as int, dependency as int)
                &&& reaches(graph_of(rows@), dependency as int, dependent as int)
                &&& reaches(graph_of(rows@), node as int, dependent as int)
            },
            None => {
                &&& search_state(graph_of(rows@), final(visited)@, final(in_progress)@, final(order)@)
                &&& final(in_progress)@ == old(in_progress)@
                &&& forall|i: int|
                    0 <= i < rows.len() && old(visited)@[i] ==> #[trigger] final(visited)@[i]
                &&& final(visited)@[node as int]
                &&& forall|fuel: nat|
                    fuel >= unvisited(old(visited)@) ==> #[trigger] visit(
                        graph_of(rows@),
                        node,
                        old(order)@,
                        fuel,
                    ) == final(order)@
            },
        },
    decreases unvisited(old(visited)@),
{
    let ghost g = graph_of(rows@);
    let ghost before = unvisited(visited@);
    let ghost order_at_entry = order@;
    proof {
        lemma_unvisited_mark(visited@, node as int);
        lemma_reaches_self(g, node as int);
    }
    visited.set(node, true);
    in_progress.set(node, true);
    let deps = &rows[node];
    assert(deps@ == g[node as int]);
    let mut k: usize = 0;
    while k < deps.len()
        invariant
            g == graph_of(rows@),
            node < rows.len(),
            deps@ == g[node as int],
            k <= deps.len(),
            before == unvisited(old(visited)@),
            old(visited)@.len() == rows.len(),
            old(in_progress)@.len() == rows.len(),
            order_at_entry == old(order)@,
            !order_at_entry.contains(node),
            search_state(g, visited@, in_progress@, order@),
            in_progress@ == old(in_progress)@.update(node as int, true),
            visited@[node as int],
            forall|i: int| 0 <= i < rows.len() && old(visited)@[i] ==> #[trigger] visited@[i],
            unvisited(visited@) < before,
            on_path_to(g, in_progress@, node as int),
            forall|j: int| 0 <= j < k && (#[trigger] deps@[j]) < rows.len() ==> order@.contains(deps@[j]),
            forall|fuel: nat|
                fuel + 1 >= before ==> #[trigger] visit_each(g, deps@, k as int, order@, fuel)
                    == visit_each(g, deps@, 0, order_at_entry, fuel),
        decreases deps.len() - k,
    {
        let dependency = deps[k];
        assert(g[node as int][k as int] == dependency);
        assert(depends_on(g, node as int, dependency as int));
        let ghost visited_before = visited@;
        let ghost order_before = order@;
        if dependency >= rows.len() {
            proof {
                assert forall|fuel: nat| fuel + 1 >= before implies #[trigger] visit_each(
                    g,
                    deps@,
                    k + 1,
                    order@,
                    fuel,
                ) == visit_each(g, deps@, 0, order_at_entry, fuel) by {
                    assert(visit(g, dependency, order_before, fuel) == order@);
                    assert(visit_each(g, deps@, k as int, order_before, fuel) == visit_each(
                        g,
                        deps@,
                        k + 1,
                        order@,
                        fuel,
                    ));
                }
            }
        } else if !visited[dependency] {
            proof {
                assert forall|x: int| 0 <= x < in_progress@.len() && #[trigger] in_progress@[x] implies reaches(
                    g,
                    x,
                    dependency as int,
                ) by {
                    lemma_reaches_step(g, x, node as int, dependency as int);
                }
            }
            match depth_first_search(rows, dependency, visited, in_progress, order) {
                Some(cycle) => {
                    proof {
                        lemma_reaches_from(g, node as int, dependency as int, cycle.1 as int);
                    }
                    return Some(cycle);
                },
                None => {},
            }
            proof {
                lemma_unvisited_shrinks(visited_before, visited@);
                assert forall|fuel: nat| fuel + 1 >= before implies #[trigger] visit_each(
                    g,
                    deps@,
                    k + 1,
                    order@,
                    fuel,
                ) == visit_each(g, deps@, 0, order_at_entry, fuel) by {
                    assert(visit(g, dependency, order_before, fuel) == order@);
                    assert(visit_each(g, deps@, k as int, order_before, fuel) == visit_each(
                        g,
                        deps@,
                        k + 1,
                        order@,
                        fuel,
                    ));
                }
                assert forall|j: int| 0 <= j < k + 1 && (#[trigger] deps@[j]) < rows.len() implies order@.contains(
                    deps@[j],
                ) by {
                    if j < k {
                        assert(order_before.contains(deps@[j]));
                    }
                }
            }
        } else if in_progress[dependency] {
            proof {
                lemma_reaches_self(g, node as int);
            }
            return Some((dependency, node));
        } else {
            proof {
                assert(order@.contains(dependency));
                assert forall|fuel: nat| fuel + 1 >= before implies #[trigger] visit_each(
                    g,
                    deps@,
                    k + 1,
                    order@,
                    fuel,
                ) == visit_each(g, deps@, 0, order_at_entry, fuel) by {
                    assert(visit(g, dependency, order_before, fuel) == order@);
                    assert(visit_each(g, deps@, k as int, order_before, fuel) == visit_each(
                        g,
                        deps@,
                        k + 1,
                        order@,
                        fuel,
                    ));
                }
            }
        }
        k = k + 1;
    }
    let ghost order_before = order@;
    in_progress.set(node, false);
    order.push(node);
    proof {
        assert(in_progress@ =~= old(in_progress)@);
        assert(!order_before.contains(node));
        assert forall|u: usize| u < g.len() implies (#[trigger] order@.contains(u) <==> visited@[u as int]
            && !in_progress@[u as int]) by {
            if u == node {
                assert(order@[order_before.len() as int] == node);
            } else {
                if order_before.contains(u) {
                    let q = choose|q: int| 0 <= q < order_before.len() && order_before[q] == u;
                    assert(order@[q] == u);
                }
                if order@.contains(u) {
                    let q = choose|q: int| 0 <= q < order@.len() && order@[q] == u;
                    assert(order_before[q] == u);
                }
            }
        }
        assert forall|p: int, j: int|
            0 <= p < order@.len() && 0 <= j < g[order@[p] as int].len() && (#[trigger] g[order@[p] as int][j])
                < g.len() implies placed_before(order@, g[order@[p] as int][j], p) by {
            if p < order_before.len() {
                assert(order@[p] == order_before[p]);
                assert(placed_before(order_before, g[order_before[p] as int][j], p));
                let q = choose|q: int| 0 <= q < p && #[trigger] order_before[q] == g[order_before[p] as int][j];
                assert(order@[q] == order_before[q]);
            } else {
                assert(order@[p] == node);
                assert(order_before.contains(deps@[j]));
                let q = choose|q: int| 0 <= q < order_before.len() && order_before[q] == deps@[j];
                assert(order@[q] == deps@[j]);
            }
        }
        assert forall|fuel: nat| fuel >= before implies #[trigger] visit(g, node, order_at_entry, fuel)
            == order@ by {
            let less = (fuel - 1) as nat;
            assert(visit_each(g, deps@, deps@.len() as int, order_before, less) == order_before);
            assert(visit_each(g, deps@, k as int, order_before, less) == visit_each(
                g,
                deps@,
                0,
                order_at_entry,
                less,
            ));
        }
    }
    None
}

/// An order that names every process exactly once is as long as the graph.
pub proof fn lemma_each_once_names_all(g: Seq<Seq<usize>>, order: Seq<usize>)
    requires
        g.len() <= usize::MAX,
        names_each_once(g, order),
    ensures
        order.len() == g.len(),
{
    broadcast use vstd::seq_lib::seq_to_set_is_finite;

    let named = order.to_set();
    let all = vstd::set_lib::set_int_range(0, g.len() as int);
    let index = |u: usize| u as int;
    order.unique_seq_to_set();
    vstd::set_lib::lemma_int_range(0, g.len() as int);
    assert(vstd::relations::injective_on(index, named));
    assert(named.map(index) =~= all) by {
        assert forall|i: int| all.contains(i) implies named.map(index).contains(i) by {
            let u = i as usize;
            assert(order.contains(u));
            assert(named.contains(u) && index(u) == i);
        }
        assert forall|i: int| named.map(index).contains(i) implies all.contains(i) by {
            let u = choose|u: usize| named.contains(u) && i == index(u);
            let p = choose|p: int| 0 <= p < order.len() && order[p] == u;
            assert(order[p] < g.len());
        }
    }
    vstd::set_lib::lemma_map_size(named, all, index);
}

/// A list of `len` marks, none of them set.
fn cleared_marks(len: usize) -> (marks: Vec<bool>)
    ensures
        marks@.len() == len,
        forall|i: int| 0 <= i < len ==> !#[trigger] marks@[i],
{
    let mut marks: Vec<bool> = Vec::new();
    while marks.len() < len
        invariant
            marks@.len() <= len,
            forall|i: int| 0 <= i < marks@.len() ==> !#[trigger] marks@[i],
        decreases len - marks@.len(),
    {
        marks.push(false);
    }
    marks
}

/// Lays the processes of a graph out in start order, or finds a cycle.
///
/// Without a cycle the result is `Ok` with the depth-first order of the
/// graph: every process once, each after all the processes of the graph that
/// it depends on, processes that do not depend on one another in declaration
/// order. With a cycle the
/// result is `Err((dependency, dependent))`, two processes on a cycle of
/// which the second names the first.
pub fn order_graph(rows: &Vec<Vec<usize>>) -> (r: Result<Vec<usize>, (usize, usize)>)
    ensures
        r is Ok <==> !cyclic(graph_of(rows@)),
        match r {
            Ok(order) => {
                &&& order@ == depth_first_order(graph_of(rows@))
                &&& order@.len() == rows.len()
                &&& names_each_once(graph_of(rows@), order@)
                &&& dependencies_first(graph_of(rows@), order@)
            },
            Err((dependency, dependent)) => {
                &&& depends_on(graph_of(rows@), dependent as int, dependency as int)
                &&& reaches(graph_of(rows@), dependency as int, dependent as int)
            },
        },
{
    let ghost g = graph_of(rows@);
    let n = rows.len();
    let mut visited = cleared_marks(n);
    let mut in_progress = cleared_marks(n);
    let mut order: Vec<usize> = Vec::new();
    let mut i: usize = 0;
    while i < n
        invariant
            g == graph_of(rows@),
            n == rows.len(),
            i <= n,
            search_state(g, visited@, in_progress@, order@),
            forall|x: int| 0 <= x < n ==> !#[trigger] in_progress@[x],
            forall|j: int| 0 <= j < i ==> #[trigger] visited@[j],
            visit_from(g, i as int, order@) == depth_first_order(g),
        decreases n - i,
    {
        let ghost order_before = order@;
        if !visited[i] {
            proof {
                lemma_unvisited_bound(visited@);
            }
            match depth_first_search(rows, i, &mut visited, &mut in_progress, &mut order) {
                Some(cycle) => {
                    proof {
                        let (dependency, dependent) = cycle;
                        assert(depends_on(g, dependent as int, dependency as int) && reaches(
                            g,
                            dependency as int,
                            dependent as int,
                        ));
                    }
                    return Err(cycle);
                },
                None => {},
            }
            assert(visit(g, i, order_before, g.len()) == order@);
        } else {
            assert(order@.contains(i));
            assert(visit(g, i, order_before, g.len()) == order@);
        }
        i = i + 1;
    }
    proof {
        assert forall|u: usize| u < g.len() implies #[trigger] order@.contains(u) by {
            assert(visited@[u as int]);
        }
        lemma_ordered_graph_is_acyclic(g, order@);
        lemma_each_once_names_all(g, order@);
    }
    Ok(order)
}

} // verus!
