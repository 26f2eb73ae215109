//! Sorting by dependency.

use crate::hir::structs::{mark, set_mark, Visit};
use vstd::prelude::*;

verus! {

/// Which nodes have been seen, and those done, each after what it depends on.
pub ghost struct Walk {
    pub states: Seq<Visit>,
    pub sorted: Seq<usize>,
}

/// A dependency graph: for every node the nodes it depends on.
pub type Graph = Seq<Seq<usize>>;

/// The graph a list of lists stands for.
pub open spec fn graph_of(deps: Seq<Vec<usize>>) -> Graph {
    Seq::new(deps.len(), |i: int| deps[i]@)
}

/// Visits a node depth first. Gives the node at which a cycle closes, if one does.
pub open spec fn visit(graph: Graph, node: usize, walk: Walk, fuel: nat) -> (Walk, Option<usize>)
    decreases fuel, 1nat, 0nat,
{
    if node >= graph.len() || node >= walk.states.len() {
        (walk, None)
    } else {
        match walk.states[node as int] {
            Visit::Visited => (walk, None),
            Visit::Visiting => (walk, Some(node)),
            Visit::Unvisited => if fuel == 0 {
                (walk, Some(node))
            } else {
                let entered = Walk { states: mark(walk.states, node, Visit::Visiting), ..walk };
                match visit_all(graph, graph[node as int], 0, entered, fuel) {
                    (walk, Some(cycle)) => (walk, Some(cycle)),
                    (walk, None) => (
                        Walk {
                            states: mark(walk.states, node, Visit::Visited),
                            sorted: walk.sorted.push(node),
                        },
                        None,
                    ),
                }
            },
        }
    }
}

/// Visits the nodes of a list from position `at` on.
pub open spec fn visit_all(graph: Graph, nodes: Seq<usize>, at: nat, walk: Walk, fuel: nat) -> (
    Walk,
    Option<usize>,
)
    decreases fuel, 0nat, nodes.len() - at,
{
    if at >= nodes.len() || fuel == 0 {
        (walk, None)
    } else {
        match visit(graph, nodes[at as int], walk, (fuel - 1) as nat) {
            (walk, Some(cycle)) => (walk, Some(cycle)),
            (walk, None) => visit_all(graph, nodes, at + 1, walk, fuel),
        }
    }
}

/// Visits all nodes of the graph from `at` on.
pub open spec fn visit_graph(graph: Graph, at: nat, walk: Walk) -> (Walk, Option<usize>)
    decreases graph.len() - at,
{
    if at >= graph.len() {
        (walk, None)
    } else {
        match visit(graph, at as usize, walk, graph.len()) {
            (walk, Some(cycle)) => (walk, Some(cycle)),
            (walk, None) => visit_graph(graph, at + 1, walk),
        }
    }
}

pub open spec fn start_walk(len: nat) -> Walk {
    Walk { states: Seq::new(len, |i: int| Visit::Unvisited), sorted: seq![] }
}

/// The nodes of the graph, each after what it depends on, or a node on a cycle.
pub open spec fn sorted_graph(graph: Graph) -> Result<Seq<usize>, usize> {
    match visit_graph(graph, 0, start_walk(graph.len())) {
        (walk, None) => Ok(walk.sorted),
        (_, Some(cycle)) => Err(cycle),
    }
}

/// Whether one node of the graph depends directly on another.
pub open spec fn depends(graph: Graph, node: usize, on: usize) -> bool {
    node < graph.len() && on < graph.len() && graph[node as int].contains(on)
}

/// Whether `path` follows dependencies.
pub open spec fn is_path(graph: Graph, path: Seq<usize>) -> bool {
    forall|i: int| 0 <= i < path.len() - 1 ==> depends(graph, #[trigger] path[i], path[i + 1])
}

/// Whether a node depends on itself, directly or through others.
pub open spec fn on_cycle(graph: Graph, node: usize) -> bool {
    exists|path: Seq<usize>|
        path.len() >= 2 && path[0] == node && path.last() == node && is_path(graph, path)
}

/// Whether `order` holds every node once, after everything it depends on.
pub open spec fn is_dependency_order(graph: Graph, order: Seq<usize>) -> bool {
    &&& order.no_duplicates()
    &&& forall|node: usize| node < graph.len() <==> order.contains(node)
    &&& after_deps(graph, order)
}

/// Whether everything a node of `order` depends on comes before it.
pub open spec fn after_deps(graph: Graph, order: Seq<usize>) -> bool {
    forall|i: int, on: usize|
        0 <= i < order.len() && #[trigger] depends(graph, order[i], on) ==> order.take(i).contains(
            on,
        )
}

/// The states and the nodes done agree.
spec fn walk_inv(graph: Graph, walk: Walk) -> bool {
    &&& walk.states.len() == graph.len()
    &&& walk.sorted.no_duplicates()
    &&& forall|node: usize|
        walk.sorted.contains(node) <==> node < graph.len() && #[trigger] walk.states[node as int]
            == Visit::Visited
    &&& after_deps(graph, walk.sorted)
}

/// The path of nodes being visited.
spec fn path_inv(graph: Graph, walk: Walk, path: Seq<usize>) -> bool {
    &&& path.no_duplicates()
    &&& is_path(graph, path)
    &&& forall|i: int| 0 <= i < path.len() ==> #[trigger] path[i] < graph.len()
    &&& forall|node: usize|
        node < graph.len() ==> (path.contains(node) <==> #[trigger] walk.states[node as int]
            == Visit::Visiting)
}

/// A path that holds as many nodes as the graph holds them all.
proof fn lemma_full_path(graph: Graph, path: Seq<usize>, node: usize)
    requires
        path.no_duplicates(),
        path.len() >= graph.len(),
        forall|i: int| 0 <= i < path.len() ==> #[trigger] path[i] < graph.len(),
        node < graph.len(),
    ensures
        path.contains(node),
{
    if !path.contains(node) {
        let longer = path.push(node);
        let numbers = longer.map_values(|n: usize| n as int);
        assert(numbers.no_duplicates()) by {
            assert forall|i: int, j: int|
                0 <= i < numbers.len() && 0 <= j < numbers.len() && i != j implies numbers[i]
                != numbers[j] by {
                if i == path.len() {
                    assert(path.contains(path[j]));
                } else if j == path.len() {
                    assert(path.contains(path[i]));
                }
            }
        }
        numbers.unique_seq_to_set();
        let all = vstd::set_lib::set_int_range(0, graph.len() as int);
        vstd::set_lib::lemma_int_range(0, graph.len() as int);
        assert(numbers.to_set().subset_of(all)) by {
            assert forall|n: int| numbers.to_set().contains(n) implies all.contains(n) by {
                let i = choose|i: int| 0 <= i < numbers.len() && numbers[i] == n;
                if i < path.len() {
                    assert(path[i] < graph.len());
                }
            }
        }
        vstd::set_lib::lemma_len_subset(numbers.to_set(), all);
    }
}

/// Closing the path at one of its nodes gives a cycle.
proof fn lemma_close_path(graph: Graph, path: Seq<usize>, node: usize)
    requires
        is_path(graph, path),
        path.len() > 0,
        path.contains(node),
        depends(graph, path.last(), node),
    ensures
        on_cycle(graph, node),
{
    let at = choose|i: int| 0 <= i < path.len() && path[i] == node;
    let cycle = path.skip(at).push(node);
    assert forall|i: int| 0 <= i < cycle.len() - 1 implies depends(
        graph,
        #[trigger] cycle[i],
        cycle[i + 1],
    ) by {
        if at + i < path.len() - 1 {
            assert(depends(graph, path[at + i], path[at + i + 1]));
        }
    }
    assert(cycle[0] == node && cycle.last() == node);
}

proof fn lemma_visit(graph: Graph, node: usize, walk: Walk, fuel: nat, path: Seq<usize>)
    requires
        walk_inv(graph, walk),
        path_inv(graph, walk, path),
        fuel + path.len() == graph.len(),
        path.len() > 0 && node < graph.len() ==> depends(graph, path.last(), node),
        graph.len() <= usize::MAX,
    ensures
        ({
            let (after, cycle) = visit(graph, node, walk, fuel);
            match cycle {
                Some(cycle) => on_cycle(graph, cycle),
                None => {
                    &&& walk_inv(graph, after)
                    &&& path_inv(graph, after, path)
                    &&& node < graph.len() ==> after.states[node as int] == Visit::Visited
                    &&& walk.sorted.is_prefix_of(after.sorted)
                },
            }
        }),
    decreases fuel, 1nat, 0nat,
{
    if node < graph.len() {
        match walk.states[node as int] {
            Visit::Visited => {},
            Visit::Visiting => {
                assert(path.contains(node));
                lemma_close_path(graph, path, node);
            },
            Visit::Unvisited => {
                if fuel == 0 {
                    lemma_full_path(graph, path, node);
                } else {
                    let entered = Walk {
                        states: mark(walk.states, node, Visit::Visiting),
                        ..walk
                    };
                    let deeper = path.push(node);
                    assert(!path.contains(node));
                    assert(path_inv(graph, entered, deeper)) by {
                        assert forall|i: int| 0 <= i < deeper.len() - 1 implies depends(
                            graph,
                            #[trigger] deeper[i],
                            deeper[i + 1],
                        ) by {
                            if i < path.len() - 1 {
                                assert(depends(graph, path[i], path[i + 1]));
                            }
                        }
                        assert forall|n: usize| n < graph.len() implies (deeper.contains(n)
                            <==> #[trigger] entered.states[n as int] == Visit::Visiting) by {
                            if path.contains(n) {
                                let k = choose|k: int| 0 <= k < path.len() && path[k] == n;
                                assert(deeper[k] == n);
                            }
                            assert(deeper[path.len() as int] == node);
                        }
                    }
                    assert(walk_inv(graph, entered)) by {
                        assert forall|n: usize| entered.sorted.contains(n) <==> n < graph.len()
                            && #[trigger] entered.states[n as int] == Visit::Visited by {
                            assert(walk.sorted.contains(n) <==> n < graph.len()
                                && walk.states[n as int] == Visit::Visited);
                        }
                    }
                    lemma_visit_all(graph, graph[node as int], 0, entered, fuel, deeper);
                    let (inner, cycle) = visit_all(
                        graph,
                        graph[node as int],
                        0,
                        entered,
                        fuel,
                    );
                    if cycle is None {
                        let after = Walk {
                            states: mark(inner.states, node, Visit::Visited),
                            sorted: inner.sorted.push(node),
                        };
                        lemma_done(graph, inner, after, node, path);
                    }
                }
            },
        }
    }
}

/// Finishing a node whose dependencies are done keeps everything in order.
proof fn lemma_done(graph: Graph, inner: Walk, after: Walk, node: usize, path: Seq<usize>)
    requires
        node < graph.len(),
        walk_inv(graph, inner),
        path_inv(graph, inner, path.push(node)),
        after == (Walk {
            states: mark(inner.states, node, Visit::Visited),
            sorted: inner.sorted.push(node),
        }),
        forall|k: int|
            0 <= k < graph[node as int].len() && #[trigger] graph[node as int][k] < graph.len()
                ==> inner.states[graph[node as int][k] as int] == Visit::Visited,
    ensures
        walk_inv(graph, after),
        path_inv(graph, after, path),
{
    let deeper = path.push(node);
    assert(deeper[path.len() as int] == node);
    assert(deeper.contains(node));
    assert(inner.states[node as int] == Visit::Visiting);
    assert(!inner.sorted.contains(node));
    assert forall|n: usize| after.sorted.contains(n) <==> n < graph.len()
        && #[trigger] after.states[n as int] == Visit::Visited by {
        assert(inner.sorted.contains(n) <==> n < graph.len() && inner.states[n as int]
            == Visit::Visited);
        if inner.sorted.contains(n) {
            let k = choose|k: int| 0 <= k < inner.sorted.len() && inner.sorted[k] == n;
            assert(after.sorted[k] == n);
        }
        assert(after.sorted[inner.sorted.len() as int] == node);
        if after.sorted.contains(n) && n != node {
            let k = choose|k: int| 0 <= k < after.sorted.len() && after.sorted[k] == n;
            assert(inner.sorted[k] == n);
        }
    }
    assert(after_deps(graph, after.sorted)) by {
        assert forall|i: int, on: usize|
            0 <= i < after.sorted.len() && #[trigger] depends(
                graph,
                after.sorted[i],
                on,
            ) implies after.sorted.take(i).contains(on) by {
            if i < inner.sorted.len() {
                assert(depends(graph, inner.sorted[i], on));
                assert(after.sorted.take(i) =~= inner.sorted.take(i));
            } else {
                let k = choose|k: int|
                    0 <= k < graph[node as int].len() && graph[node as int][k] == on;
                assert(graph[node as int][k] < graph.len());
                assert(inner.states[on as int] == Visit::Visited);
                assert(inner.sorted.contains(on));
                assert(after.sorted.take(i) =~= inner.sorted);
            }
        }
    }
    assert forall|n: usize| n < graph.len() implies (path.contains(n)
        <==> #[trigger] after.states[n as int] == Visit::Visiting) by {
        if path.contains(n) {
            let k = choose|k: int| 0 <= k < path.len() && path[k] == n;
            assert(deeper[k] == n);
            assert(deeper.contains(n));
            assert(n != node) by {
                if n == node {
                    assert(deeper[k] == deeper[path.len() as int]);
                }
            }
        } else if n != node {
            if deeper.contains(n) {
                let k = choose|k: int| 0 <= k < deeper.len() && deeper[k] == n;
                assert(path[k] == n);
            }
            assert(inner.states[n as int] != Visit::Visiting);
        }
    }
    assert forall|i: int| 0 <= i < path.len() - 1 implies depends(
        graph,
        #[trigger] path[i],
        path[i + 1],
    ) by {
        assert(depends(graph, deeper[i], deeper[i + 1]));
    }
    assert(path.no_duplicates()) by {
        assert forall|i: int, j: int|
            0 <= i < path.len() && 0 <= j < path.len() && i != j implies path[i] != path[j] by {
            assert(deeper[i] != deeper[j]);
        }
    }
    assert forall|i: int| 0 <= i < path.len() implies #[trigger] path[i] < graph.len() by {
        assert(deeper[i] < graph.len());
    }
}

proof fn lemma_visit_all(
    graph: Graph,
    nodes: Seq<usize>,
    at: nat,
    walk: Walk,
    fuel: nat,
    path: Seq<usize>,
)
    requires
        walk_inv(graph, walk),
        path_inv(graph, walk, path),
        fuel > 0,
        path.len() > 0,
        path.last() < graph.len(),
        nodes == graph[path.last() as int],
        fuel + path.len() == graph.len() + 1,
        graph.len() <= usize::MAX,
        forall|k: int|
            0 <= k < at && k < nodes.len() && #[trigger] nodes[k] < graph.len()
                ==> walk.states[nodes[k] as int] == Visit::Visited,
    ensures
        ({
            let (after, cycle) = visit_all(graph, nodes, at, walk, fuel);
            match cycle {
                Some(cycle) => on_cycle(graph, cycle),
                None => {
                    &&& walk_inv(graph, after)
                    &&& path_inv(graph, after, path)
                    &&& walk.sorted.is_prefix_of(after.sorted)
                    &&& forall|k: int|
                        0 <= k < nodes.len() && #[trigger] nodes[k] < graph.len()
                            ==> after.states[nodes[k] as int] == Visit::Visited
                },
            }
        }),
    decreases fuel, 0nat, nodes.len() - at,
{
    if at < nodes.len() {
        let node = nodes[at as int];
        if node < graph.len() {
            assert(nodes.contains(node));
        }
        lemma_visit(graph, node, walk, (fuel - 1) as nat, path);
        let (next, cycle) = visit(graph, node, walk, (fuel - 1) as nat);
        if cycle is None {
            assert forall|k: int|
                0 <= k < at + 1 && k < nodes.len() && #[trigger] nodes[k]
                    < graph.len() implies next.states[nodes[k] as int] == Visit::Visited by {
                if k < at {
                    assert(walk.states[nodes[k] as int] == Visit::Visited);
                    assert(walk.sorted.contains(nodes[k]));
                    let p = choose|p: int|
                        0 <= p < walk.sorted.len() && walk.sorted[p] == nodes[k];
                    assert(next.sorted[p] == nodes[k]);
                    assert(next.sorted.contains(nodes[k]));
                }
            }
            lemma_visit_all(graph, nodes, at + 1, next, fuel, path);
        }
    }
}

proof fn lemma_visit_graph(graph: Graph, at: nat, walk: Walk)
    requires
        walk_inv(graph, walk),
        path_inv(graph, walk, seq![]),
        graph.len() <= usize::MAX,
        forall|node: usize|
            node < at && node < graph.len() ==> #[trigger] walk.states[node as int]
                == Visit::Visited,
    ensures
        match visit_graph(graph, at, walk) {
            (_, Some(cycle)) => on_cycle(graph, cycle),
            (after, None) => {
                &&& walk_inv(graph, after)
                &&& forall|node: usize|
                    node < graph.len() ==> #[trigger] after.states[node as int] == Visit::Visited
            },
        },
    decreases graph.len() - at,
{
    if at < graph.len() {
        lemma_visit(graph, at as usize, walk, graph.len(), seq![]);
        let (next, cycle) = visit(graph, at as usize, walk, graph.len());
        if cycle is None {
            assert forall|node: usize|
                node < at + 1 && node < graph.len() implies #[trigger] next.states[node as int]
                == Visit::Visited by {
                if node < at {
                    assert(walk.states[node as int] == Visit::Visited);
                    assert(walk.sorted.contains(node));
                    let p = choose|p: int| 0 <= p < walk.sorted.len() && walk.sorted[p] == node;
                    assert(next.sorted[p] == node);
                    assert(next.sorted.contains(node));
                }
            }
            lemma_visit_graph(graph, at + 1, next);
        }
    }
}

/// Sorting succeeds exactly when nothing depends on itself; it then puts every node once, after
/// everything it depends on. Otherwise it names a node that depends on itself.
pub proof fn lemma_sorted_graph(graph: Graph)
    requires
        graph.len() <= usize::MAX,
    ensures
        match sorted_graph(graph) {
            Ok(order) => is_dependency_order(graph, order) && forall|node: usize|
                !#[trigger] on_cycle(graph, node),
            Err(cycle) => on_cycle(graph, cycle),
        },
{
    let start = start_walk(graph.len());
    assert(walk_inv(graph, start));
    assert(path_inv(graph, start, seq![]));
    lemma_visit_graph(graph, 0, start);
    if let Ok(order) = sorted_graph(graph) {
        assert forall|node: usize| node < graph.len() <==> order.contains(node) by {
            let after = visit_graph(graph, 0, start).0;
            if node < graph.len() {
                assert(after.states[node as int] == Visit::Visited);
            }
        }
        assert forall|node: usize| !#[trigger] on_cycle(graph, node) by {
            if on_cycle(graph, node) {
                let path = choose|path: Seq<usize>|
                    path.len() >= 2 && path[0] == node && path.last() == node && is_path(
                        graph,
                        path,
                    );
                lemma_order_excludes(graph, order, path, path.len() - 1);
                let at = order.index_of(node);
                assert(depends(graph, path[0], path[1]));
                assert(order.contains(node));
                assert(order[order.index_of(path[path.len() - 1])] == node);
            }
        }
    }
}

/// Along a path, positions in a dependency order only go down.
proof fn lemma_order_excludes(graph: Graph, order: Seq<usize>, path: Seq<usize>, upto: int)
    requires
        is_dependency_order(graph, order),
        is_path(graph, path),
        1 <= upto < path.len(),
    ensures
        order.contains(path[0]),
        order.contains(path[upto]),
        order.index_of(path[upto]) < order.index_of(path[0]),
    decreases upto,
{
    let from = upto - 1;
    assert(depends(graph, path[from], path[from + 1]));
    assert(order.contains(path[from]) && order.contains(path[upto]));
    let i = order.index_of(path[from]);
    assert(order[i] == path[from]);
    assert(depends(graph, order[i], path[upto]));
    assert(order.take(i).contains(path[upto]));
    let j = choose|j: int| 0 <= j < order.take(i).len() && order.take(i)[j] == path[upto];
    assert(order[j] == path[upto]);
    assert(order[order.index_of(path[upto])] == path[upto]);
    assert(order.index_of(path[upto]) == j);
    if upto > 1 {
        lemma_order_excludes(graph, order, path, upto - 1);
    } else {
        assert(path[from] == path[0]);
    }
}

fn visit_node(
    deps: &Vec<Vec<usize>>,
    node: usize,
    states: &mut Vec<Visit>,
    sorted: &mut Vec<usize>,
    fuel: usize,
) -> (cycle: Option<usize>)
    ensures
        (
            (Walk { states: final(states)@, sorted: final(sorted)@ }),
            cycle,
        ) == visit(
            graph_of(deps@),
            node,
            (Walk { states: old(states)@, sorted: old(sorted)@ }),
            fuel as nat,
        ),
    decreases fuel, 1nat, 0nat,
{
    if node >= deps.len() || node >= states.len() {
        return None;
    }
    match states[node] {
        Visit::Visited => {
            return None;
        },
        Visit::Visiting => {
            return Some(node);
        },
        Visit::Unvisited => {},
    }
    if fuel == 0 {
        return Some(node);
    }
    set_mark(states, node, Visit::Visiting);
    let cycle = visit_deps(deps, &deps[node], states, sorted, fuel);
    if cycle.is_some() {
        return cycle;
    }
    set_mark(states, node, Visit::Visited);
    sorted.push(node);
    None
}

fn visit_deps(
    deps: &Vec<Vec<usize>>,
    nodes: &Vec<usize>,
    states: &mut Vec<Visit>,
    sorted: &mut Vec<usize>,
    fuel: usize,
) -> (cycle: Option<usize>)
    requires
        fuel > 0,
    ensures
        (
            (Walk { states: final(states)@, sorted: final(sorted)@ }),
            cycle,
        ) == visit_all(
            graph_of(deps@),
            nodes@,
            0,
            (Walk { states: old(states)@, sorted: old(sorted)@ }),
            fuel as nat,
        ),
    decreases fuel, 0nat, nodes@.len() + 1,
{
    let mut i: usize = 0;
    while i < nodes.len()
        invariant
            i <= nodes@.len(),
            fuel > 0,
            visit_all(
                graph_of(deps@),
                nodes@,
                0,
                (Walk { states: old(states)@, sorted: old(sorted)@ }),
                fuel as nat,
            ) == visit_all(
                graph_of(deps@),
                nodes@,
                i as nat,
                (Walk { states: states@, sorted: sorted@ }),
                fuel as nat,
            ),
        decreases nodes@.len() - i,
    {
        let cycle = visit_node(deps, nodes[i], states, sorted, fuel - 1);
        if cycle.is_some() {
            return cycle;
        }
        i += 1;
    }
    None
}

/// Sorts the nodes of a graph so that each comes after everything it depends on, or gives a
/// node that depends on itself.
pub fn topological_sort(deps: &Vec<Vec<usize>>) -> (outcome: Result<Vec<usize>, usize>)
    ensures
        match outcome {
            Ok(order) => {
                &&& sorted_graph(graph_of(deps@)) == Ok::<Seq<usize>, usize>(order@)
                &&& is_dependency_order(graph_of(deps@), order@)
            },
            Err(cycle) => {
                &&& sorted_graph(graph_of(deps@)) == Err::<Seq<usize>, usize>(cycle)
                &&& on_cycle(graph_of(deps@), cycle)
            },
        },
{
    let mut states: Vec<Visit> = Vec::new();
    let mut sorted: Vec<usize> = Vec::new();
    let mut i: usize = 0;
    while i < deps.len()
        invariant
            i <= deps@.len(),
            states@ =~= start_walk(i as nat).states,
        decreases deps@.len() - i,
    {
        states.push(Visit::Unvisited);
        i += 1;
    }
    let ghost graph = graph_of(deps@);
    proof {
        assert(graph.len() <= usize::MAX);
        lemma_sorted_graph(graph);
        assert(states@ =~= start_walk(graph.len()).states);
        assert(sorted@ =~= seq![]);
    }
    let mut i: usize = 0;
    while i < deps.len()
        invariant
            i <= deps@.len(),
            graph == graph_of(deps@),
            visit_graph(graph, 0, start_walk(graph.len())) == visit_graph(
                graph,
                i as nat,
                (Walk { states: states@, sorted: sorted@ }),
            ),
            match sorted_graph(graph) {
                Ok(order) => is_dependency_order(graph, order),
                Err(cycle) => on_cycle(graph, cycle),
            },
        decreases deps@.len() - i,
    {
        if let Some(cycle) = visit_node(deps, i, &mut states, &mut sorted, deps.len()) {
            return Err(cycle);
        }
        i += 1;
    }
    Ok(sorted)
}

} // verus!
