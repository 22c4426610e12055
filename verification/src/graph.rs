//! The linkage graph: every node has at most one link, to the node that it
//! is anchored to. A drawing order lists every node after its anchor.

use vstd::prelude::*;
use vstd::set_lib::{lemma_int_range, lemma_len_subset, lemma_subset_equality, set_int_range};

verus! {

/// Every link leads to a node of the graph.
pub open spec fn links_wf(links: Seq<Option<usize>>) -> bool {
    forall|i: int|
        0 <= i < links.len() ==> match #[trigger] links[i] {
            Some(t) => t < links.len(),
            None => true,
        }
}

/// The node reached from `i` by following `k` links, if the walk gets that far.
pub open spec fn walk(links: Seq<Option<usize>>, i: int, k: nat) -> Option<int>
    decreases k,
{
    if k == 0 {
        if 0 <= i < links.len() {
            Some(i)
        } else {
            None
        }
    } else {
        match walk(links, i, (k - 1) as nat) {
            Some(j) => match links[j] {
                Some(t) => Some(t as int),
                None => None,
            },
            None => None,
        }
    }
}

/// Whether following the links from `i` leads back to `i`.
pub open spec fn on_cycle(links: Seq<Option<usize>>, i: int) -> bool {
    exists|k: nat| k >= 1 && #[trigger] walk(links, i, k) == Some(i)
}

/// Whether some node of the graph lies on a cycle.
pub open spec fn has_cycle(links: Seq<Option<usize>>) -> bool {
    exists|i: int| 0 <= i < links.len() && #[trigger] on_cycle(links, i)
}

/// Whether following the links from `i` leads onto a cycle.
pub open spec fn leads_to_cycle(links: Seq<Option<usize>>, i: int) -> bool {
    exists|k: nat|
        (#[trigger] walk(links, i, k)) is Some && on_cycle(links, walk(links, i, k)->0)
}

/// Whether `node` is the first node on a cycle that following the links
/// from `start` comes to.
pub open spec fn enters_cycle_at(links: Seq<Option<usize>>, start: int, node: int) -> bool {
    exists|k: nat|
        #[trigger] walk(links, start, k) == Some(node) && on_cycle(links, node) && forall|j: nat|
            j < k ==> !on_cycle(links, (#[trigger] walk(links, start, j))->0)
}

/// Whether `node` is where the first node that leads onto a cycle enters it.
pub open spec fn first_cycle_node(links: Seq<Option<usize>>, node: int) -> bool {
    exists|start: int|
        0 <= start < links.len() && #[trigger] enters_cycle_at(links, start, node) && forall|
            s: int,
        |
            0 <= s < start ==> !#[trigger] leads_to_cycle(links, s)
}

/// The nodes from `i` along the links that are not in `done` yet, the
/// farthest first and `i` last. At most `fuel` nodes are followed.
pub open spec fn pending_chain(
    links: Seq<Option<usize>>,
    done: Seq<usize>,
    i: int,
    fuel: nat,
) -> Seq<usize>
    decreases fuel,
{
    if fuel == 0 || !(0 <= i < links.len()) || done.contains(i as usize) {
        Seq::empty()
    } else {
        match links[i] {
            Some(t) => pending_chain(links, done, t as int, (fuel - 1) as nat).push(i as usize),
            None => seq![i as usize],
        }
    }
}

/// The drawing order of the first `k` nodes and of every node that they
/// depend on: the nodes are taken in their own order, and each brings the
/// nodes of its chain that are not drawn yet before itself.
pub open spec fn order_upto(links: Seq<Option<usize>>, k: int) -> Seq<usize>
    decreases k,
{
    if k <= 0 {
        Seq::empty()
    } else {
        let before = order_upto(links, k - 1);
        before + pending_chain(links, before, k - 1, links.len())
    }
}

/// The drawing order of the whole graph.
pub open spec fn drawing_order(links: Seq<Option<usize>>) -> Seq<usize> {
    order_upto(links, links.len() as int)
}

/// Every node of `order` stands after the node that it links to.
pub open spec fn anchors_first(links: Seq<Option<usize>>, order: Seq<usize>) -> bool {
    forall|p: int|
        0 <= p < order.len() ==> match links[#[trigger] order[p] as int] {
            Some(t) => exists|q: int| 0 <= q < p && order[q] == t,
            None => true,
        }
}

/// `order` lists nodes of the graph, none of them twice.
pub open spec fn lists_nodes(links: Seq<Option<usize>>, order: Seq<usize>) -> bool {
    &&& forall|p: int| 0 <= p < order.len() ==> #[trigger] order[p] < links.len()
    &&& order.no_duplicates()
}

/// `order` lists every node of the graph.
pub open spec fn lists_all(links: Seq<Option<usize>>, order: Seq<usize>) -> bool {
    forall|i: usize| i < links.len() ==> #[trigger] order.contains(i)
}

/// Along an order that puts anchors first, a walk of `k` links from the
/// node at position `p` ends at least `k` positions earlier.
pub proof fn lemma_walk_goes_back(links: Seq<Option<usize>>, order: Seq<usize>, p: int, k: nat)
    requires
        lists_nodes(links, order),
        anchors_first(links, order),
        0 <= p < order.len(),
        walk(links, order[p] as int, k) is Some,
    ensures
        exists|q: int| 0 <= q <= p - k && order[q] as int == walk(links, order[p] as int, k)->0,
    decreases k,
{
    if k == 0 {
        assert(order[p] as int == walk(links, order[p] as int, 0)->0);
    } else {
        lemma_walk_goes_back(links, order, p, (k - 1) as nat);
        let q = choose|q: int|
            0 <= q <= p - (k - 1) && order[q] as int == walk(
                links,
                order[p] as int,
                (k - 1) as nat,
            )->0;
        let t = links[order[q] as int]->0;
        assert(exists|r: int| 0 <= r < q && order[r] == t);
        let r = choose|r: int| 0 <= r < q && order[r] == t;
        assert(0 <= r <= p - k && order[r] as int == walk(links, order[p] as int, k)->0);
    }
}

/// A graph that has an order with anchors first, listing every node once,
/// has no cycle.
pub proof fn lemma_ordered_is_acyclic(links: Seq<Option<usize>>, order: Seq<usize>)
    requires
        lists_nodes(links, order),
        lists_all(links, order),
        anchors_first(links, order),
    ensures
        !has_cycle(links),
{
    if has_cycle(links) {
        let i = choose|i: int| 0 <= i < links.len() && #[trigger] on_cycle(links, i);
        let k = choose|k: nat| k >= 1 && #[trigger] walk(links, i, k) == Some(i);
        assert(order.contains(i as usize));
        let p = choose|p: int| 0 <= p < order.len() && order[p] == i as usize;
        lemma_walk_goes_back(links, order, p, k);
        let q = choose|q: int|
            0 <= q <= p - k && order[q] as int == walk(links, order[p] as int, k)->0;
        assert(order[q] == order[p]);
        assert(q != p);
    }
}

/// At most one node is the first cycle node of a graph.
pub proof fn lemma_first_cycle_node_unique(links: Seq<Option<usize>>, a: int, b: int)
    requires
        first_cycle_node(links, a),
        first_cycle_node(links, b),
    ensures
        a == b,
{
    let s1 = choose|start: int|
        0 <= start < links.len() && #[trigger] enters_cycle_at(links, start, a) && forall|s: int|
            0 <= s < start ==> !#[trigger] leads_to_cycle(links, s);
    let s2 = choose|start: int|
        0 <= start < links.len() && #[trigger] enters_cycle_at(links, start, b) && forall|s: int|
            0 <= s < start ==> !#[trigger] leads_to_cycle(links, s);
    let k1 = choose|k: nat|
        #[trigger] walk(links, s1, k) == Some(a) && on_cycle(links, a) && forall|j: nat|
            j < k ==> !on_cycle(links, (#[trigger] walk(links, s1, j))->0);
    let k2 = choose|k: nat|
        #[trigger] walk(links, s2, k) == Some(b) && on_cycle(links, b) && forall|j: nat|
            j < k ==> !on_cycle(links, (#[trigger] walk(links, s2, j))->0);
    assert(leads_to_cycle(links, s1)) by {
        assert(walk(links, s1, k1) is Some && on_cycle(links, walk(links, s1, k1)->0));
    }
    assert(leads_to_cycle(links, s2)) by {
        assert(walk(links, s2, k2) is Some && on_cycle(links, walk(links, s2, k2)->0));
    }
    assert(s1 == s2);
    if k1 < k2 {
        assert(!on_cycle(links, walk(links, s2, k1)->0));
    } else if k2 < k1 {
        assert(!on_cycle(links, walk(links, s1, k2)->0));
    }
}

/// No walk from a node of an order that puts anchors first leads onto a cycle.
pub proof fn lemma_placed_leads_nowhere(links: Seq<Option<usize>>, order: Seq<usize>, p: int)
    requires
        lists_nodes(links, order),
        anchors_first(links, order),
        0 <= p < order.len(),
    ensures
        !leads_to_cycle(links, order[p] as int),
{
    if leads_to_cycle(links, order[p] as int) {
        let k = choose|k: nat|
            (#[trigger] walk(links, order[p] as int, k)) is Some && on_cycle(
                links,
                walk(links, order[p] as int, k)->0,
            );
        lemma_walk_goes_back(links, order, p, k);
        let q = choose|q: int|
            0 <= q <= p - k && order[q] as int == walk(links, order[p] as int, k)->0;
        let u = order[q] as int;
        let c = choose|c: nat| c >= 1 && #[trigger] walk(links, u, c) == Some(u);
        lemma_walk_goes_back(links, order, q, c);
        let r = choose|r: int| 0 <= r <= q - c && order[r] as int == walk(links, u, c)->0;
        assert(order[r] == order[q]);
        assert(r != q);
    }
}

/// Going round a cycle any number of times leads back to where one started.
proof fn lemma_cycle_repeats(links: Seq<Option<usize>>, u: int, c: nat, t: nat)
    requires
        links_wf(links),
        walk(links, u, c) == Some(u),
    ensures
        walk(links, u, c * t) == Some(u),
    decreases t,
{
    if t == 0 {
        assert(c * t == 0) by (nonlinear_arith)
            requires
                t == 0,
        ;
        lemma_walk_in_range(links, u, c);
        assert(0 <= u < links.len()) by {
            lemma_walk_start_in_range(links, u, c);
        }
    } else {
        lemma_cycle_repeats(links, u, c, (t - 1) as nat);
        assert(c * t == c * (t - 1) + c) by (nonlinear_arith)
            requires
                t >= 1,
        ;
        lemma_walk_split(links, u, c * ((t - 1) as nat), c);
    }
}

/// A walk that gets anywhere starts at a node of the graph.
proof fn lemma_walk_start_in_range(links: Seq<Option<usize>>, i: int, k: nat)
    requires
        walk(links, i, k) is Some,
    ensures
        0 <= i < links.len(),
    decreases k,
{
    if k > 0 {
        lemma_walk_start_in_range(links, i, (k - 1) as nat);
    }
}

/// On a chain whose last node links back to its node `p`, every walk from
/// node `p` stays on the part of the chain from `p` on.
proof fn lemma_stays_in_loop(links: Seq<Option<usize>>, chain: Seq<usize>, p: int, t: nat)
    requires
        0 <= p < chain.len(),
        forall|r: int| 0 <= r < chain.len() ==> #[trigger] chain[r] < links.len(),
        forall|r: int|
            0 <= r < chain.len() - 1 ==> links[#[trigger] chain[r] as int] == Some(chain[r + 1]),
        links[chain.last() as int] == Some(chain[p]),
    ensures
        exists|r: int|
            p <= r < chain.len() && walk(links, chain[p] as int, t) == Some(chain[r] as int),
    decreases t,
{
    if t == 0 {
        assert(walk(links, chain[p] as int, 0) == Some(chain[p] as int));
    } else {
        lemma_stays_in_loop(links, chain, p, (t - 1) as nat);
        let r = choose|r: int|
            p <= r < chain.len() && walk(links, chain[p] as int, (t - 1) as nat) == Some(
                chain[r] as int,
            );
        if r == chain.len() - 1 {
            assert(walk(links, chain[p] as int, t) == Some(chain[p] as int));
        } else {
            assert(walk(links, chain[p] as int, t) == Some(chain[r + 1] as int));
        }
    }
}

/// On a chain of distinct nodes that starts at `start` and whose last node
/// links back to its node `p`, no node before `p` is on a cycle.
proof fn lemma_before_loop_not_on_cycle(
    links: Seq<Option<usize>>,
    chain: Seq<usize>,
    start: int,
    p: int,
    j: int,
)
    requires
        links_wf(links),
        0 <= j < p < chain.len(),
        chain.no_duplicates(),
        forall|r: int| 0 <= r < chain.len() ==> #[trigger] chain[r] < links.len(),
        forall|r: int|
            0 <= r < chain.len() - 1 ==> links[#[trigger] chain[r] as int] == Some(chain[r + 1]),
        links[chain.last() as int] == Some(chain[p]),
        forall|q: int|
            0 <= q < chain.len() ==> walk(links, start, q as nat) == Some(
                #[trigger] chain[q] as int,
            ),
    ensures
        !on_cycle(links, chain[j] as int),
{
    let u = chain[j] as int;
    if on_cycle(links, u) {
        let c = choose|c: nat| c >= 1 && #[trigger] walk(links, u, c) == Some(u);
        let t = (p + 1) as nat;
        lemma_cycle_repeats(links, u, c, t);
        let m = c * t;
        assert(m >= t) by (nonlinear_arith)
            requires
                m == c * t,
                c >= 1,
                t >= 0,
        ;
        // The same walk, seen from the start of the chain.
        lemma_walk_split(links, start, j as nat, m);
        assert(walk(links, start, j as nat) == Some(chain[j] as int));
        assert(walk(links, start, (j + m) as nat) == Some(u));
        let beyond = (j + m - p) as nat;
        lemma_walk_split(links, start, p as nat, beyond);
        assert(walk(links, start, p as nat) == Some(chain[p] as int));
        assert(p + beyond == j + m);
        lemma_stays_in_loop(links, chain, p, beyond);
        let r = choose|r: int|
            p <= r < chain.len() && walk(links, chain[p] as int, beyond) == Some(chain[r] as int);
        assert(chain[r] == chain[j]);
    }
}

/// A list of as many different nodes as the graph has holds every node.
proof fn lemma_list_is_full(nodes: Seq<usize>, n: nat, v: usize)
    requires
        nodes.no_duplicates(),
        forall|q: int| 0 <= q < nodes.len() ==> #[trigger] nodes[q] < n,
        nodes.len() == n,
        v < n,
    ensures
        nodes.contains(v),
{
    let ints = Seq::new(nodes.len(), |q: int| nodes[q] as int);
    assert(ints.no_duplicates()) by {
        assert forall|a: int, b: int|
            0 <= a < ints.len() && 0 <= b < ints.len() && a != b implies ints[a] != ints[b] by {
            assert(nodes[a] != nodes[b]);
        }
    }
    ints.unique_seq_to_set();
    lemma_int_range(0, n as int);
    let range = set_int_range(0, n as int);
    assert(ints.to_set().subset_of(range)) by {
        assert forall|x: int| ints.to_set().contains(x) implies range.contains(x) by {
            let q = choose|q: int| 0 <= q < ints.len() && ints[q] == x;
            assert(nodes[q] < n);
        }
    }
    lemma_len_subset(ints.to_set(), range);
    lemma_subset_equality(ints.to_set(), range);
    assert(range.contains(v as int));
    assert(ints.to_set().contains(v as int));
    let q = choose|q: int| 0 <= q < ints.len() && ints[q] == v as int;
    assert(nodes[q] == v);
}

/// A node whose anchor, if it has one, is in an order can follow that order.
proof fn lemma_order_extends(links: Seq<Option<usize>>, order: Seq<usize>, v: usize)
    requires
        lists_nodes(links, order),
        anchors_first(links, order),
        v < links.len(),
        !order.contains(v),
        match links[v as int] {
            Some(t) => order.contains(t),
            None => true,
        },
    ensures
        lists_nodes(links, order.push(v)),
        anchors_first(links, order.push(v)),
{
    let after = order.push(v);
    assert forall|a: int, b: int|
        0 <= a < after.len() && 0 <= b < after.len() && a != b implies after[a] != after[b] by {
        if a < order.len() && b < order.len() {
            assert(order[a] != order[b]);
        } else if a < order.len() {
            assert(order.contains(order[a]));
        } else {
            assert(order.contains(order[b]));
        }
    }
    assert forall|p: int| 0 <= p < after.len() implies #[trigger] after[p] < links.len() by {
        if p < order.len() {
            assert(after[p] == order[p]);
        }
    }
    assert forall|p: int| 0 <= p < after.len() implies match links[#[trigger] after[p] as int] {
        Some(t) => exists|q: int| 0 <= q < p && after[q] == t,
        None => true,
    } by {
        if p < order.len() {
            assert(after[p] == order[p]);
            match links[order[p] as int] {
                Some(t) => {
                    let q = choose|q: int| 0 <= q < p && order[q] == t;
                    assert(after[q] == t);
                },
                None => {},
            }
        } else {
            match links[v as int] {
                Some(t) => {
                    let q = choose|q: int| 0 <= q < order.len() && order[q] == t;
                    assert(after[q] == t);
                },
                None => {},
            }
        }
    }
}

/// Along a chain, `m` links lead from node `j` to node `j + m`.
proof fn lemma_walk_along(links: Seq<Option<usize>>, chain: Seq<usize>, j: int, m: nat)
    requires
        0 <= j,
        j + m < chain.len(),
        forall|r: int| 0 <= r < chain.len() ==> #[trigger] chain[r] < links.len(),
        forall|r: int|
            0 <= r < chain.len() - 1 ==> links[#[trigger] chain[r] as int] == Some(chain[r + 1]),
    ensures
        walk(links, chain[j] as int, m) == Some(chain[j + m] as int),
    decreases m,
{
    if m > 0 {
        lemma_walk_along(links, chain, j, (m - 1) as nat);
    }
}

/// In a graph without a cycle the pending chain of a node can follow what
/// is drawn: it lists new nodes, each after its anchor, and ends with the
/// node itself. `path` holds the nodes that lead to `i`.
proof fn lemma_pending_chain_extends(
    links: Seq<Option<usize>>,
    done: Seq<usize>,
    path: Seq<usize>,
    i: int,
    fuel: nat,
)
    requires
        links_wf(links),
        !has_cycle(links),
        lists_nodes(links, done),
        anchors_first(links, done),
        0 <= i < links.len(),
        links.len() <= usize::MAX,
        path.no_duplicates(),
        forall|q: int| 0 <= q < path.len() ==> #[trigger] path[q] < links.len(),
        forall|q: int|
            0 <= q < path.len() - 1 ==> links[#[trigger] path[q] as int] == Some(path[q + 1]),
        path.len() > 0 ==> links[path.last() as int] == Some(i as usize),
        path.len() + fuel == links.len(),
    ensures
        lists_nodes(links, done + pending_chain(links, done, i, fuel)),
        anchors_first(links, done + pending_chain(links, done, i, fuel)),
        (done + pending_chain(links, done, i, fuel)).contains(i as usize),
        forall|x: usize|
            #[trigger] pending_chain(links, done, i, fuel).contains(x) ==> !done.contains(x)
                && !path.contains(x),
    decreases fuel,
{
    let chain = pending_chain(links, done, i, fuel);
    let node = i as usize;
    if done.contains(node) {
        assert(chain =~= Seq::<usize>::empty());
        assert(done + chain =~= done);
    } else {
        let longer = path.push(node);
        assert(!path.contains(node)) by {
            if path.contains(node) {
                let j = choose|j: int| 0 <= j < path.len() && path[j] == node;
                lemma_walk_along(links, path, j, (path.len() - 1 - j) as nat);
                assert(walk(links, i, (path.len() - j) as nat) == Some(i));
                assert(on_cycle(links, i));
            }
        }
        assert(fuel > 0) by {
            if fuel == 0 {
                lemma_list_is_full(path, links.len(), node);
            }
        }
        match links[i] {
            None => {
                assert(chain =~= seq![node]);
                assert(done + chain =~= done.push(node));
                lemma_order_extends(links, done, node);
                assert(done.push(node)[done.len() as int] == node);
                assert forall|x: usize| #[trigger] chain.contains(x) implies !done.contains(x)
                    && !path.contains(x) by {
                    let q = choose|q: int| 0 <= q < chain.len() && chain[q] == x;
                    assert(x == node);
                }
            },
            Some(t) => {
                assert(longer.no_duplicates()) by {
                    assert forall|a: int, b: int|
                        0 <= a < longer.len() && 0 <= b < longer.len() && a != b implies longer[a]
                        != longer[b] by {
                        if a < path.len() && b < path.len() {
                            assert(path[a] != path[b]);
                        } else if a < path.len() {
                            assert(path.contains(path[a]));
                        } else {
                            assert(path.contains(path[b]));
                        }
                    }
                }
                assert forall|q: int|
                    0 <= q < longer.len() - 1 implies links[#[trigger] longer[q] as int] == Some(
                    longer[q + 1],
                ) by {
                    if q < path.len() - 1 {
                        assert(longer[q] == path[q]);
                        assert(longer[q + 1] == path[q + 1]);
                    } else {
                        assert(longer[q] == path.last());
                    }
                }
                assert forall|q: int| 0 <= q < longer.len() implies #[trigger] longer[q]
                    < links.len() by {
                    if q < path.len() {
                        assert(longer[q] == path[q]);
                    }
                }
                lemma_pending_chain_extends(links, done, longer, t as int, (fuel - 1) as nat);
                let deeper = pending_chain(links, done, t as int, (fuel - 1) as nat);
                assert(chain =~= deeper.push(node));
                assert(done + chain =~= (done + deeper).push(node));
                assert(longer.contains(node)) by {
                    assert(longer[path.len() as int] == node);
                }
                assert(!(done + deeper).contains(node)) by {
                    if (done + deeper).contains(node) {
                        let q = choose|q: int|
                            0 <= q < (done + deeper).len() && (done + deeper)[q] == node;
                        if q < done.len() {
                            assert(done[q] == node);
                        } else {
                            assert(deeper[q - done.len()] == node);
                            assert(deeper.contains(node));
                        }
                    }
                }
                lemma_order_extends(links, done + deeper, node);
                assert((done + deeper).push(node)[(done + deeper).len() as int] == node);
                assert forall|x: usize| #[trigger] chain.contains(x) implies !done.contains(x)
                    && !path.contains(x) by {
                    let q = choose|q: int| 0 <= q < chain.len() && chain[q] == x;
                    if q < deeper.len() {
                        assert(deeper[q] == x);
                        assert(deeper.contains(x));
                        if path.contains(x) {
                            let r = choose|r: int| 0 <= r < path.len() && path[r] == x;
                            assert(longer[r] == x);
                        }
                    }
                }
            },
        }
    }
}

proof fn lemma_order_upto(links: Seq<Option<usize>>, k: int)
    requires
        links_wf(links),
        !has_cycle(links),
        links.len() <= usize::MAX,
        0 <= k <= links.len(),
    ensures
        lists_nodes(links, order_upto(links, k)),
        anchors_first(links, order_upto(links, k)),
        forall|j: usize| j < k ==> #[trigger] order_upto(links, k).contains(j),
    decreases k,
{
    if k > 0 {
        lemma_order_upto(links, k - 1);
        let before = order_upto(links, k - 1);
        let chain = pending_chain(links, before, k - 1, links.len());
        lemma_pending_chain_extends(links, before, Seq::empty(), k - 1, links.len());
        assert forall|j: usize| j < k implies #[trigger] (before + chain).contains(j) by {
            if j < k - 1 {
                assert(before.contains(j));
                let q = choose|q: int| 0 <= q < before.len() && before[q] == j;
                assert((before + chain)[q] == j);
            } else {
                assert(j == (k - 1) as usize);
            }
        }
    }
}

/// The drawing order of a graph without a cycle lists every node once,
/// each after the node that it links to.
pub proof fn lemma_drawing_order_puts_anchors_first(links: Seq<Option<usize>>)
    requires
        links_wf(links),
        !has_cycle(links),
        links.len() <= usize::MAX,
    ensures
        lists_nodes(links, drawing_order(links)),
        lists_all(links, drawing_order(links)),
        anchors_first(links, drawing_order(links)),
{
    lemma_order_upto(links, links.len() as int);
}

/// A walk of `a + b` links is a walk of `a` links followed by one of `b`.
pub proof fn lemma_walk_split(links: Seq<Option<usize>>, i: int, a: nat, b: nat)
    requires
        links_wf(links),
    ensures
        walk(links, i, a + b) == match walk(links, i, a) {
            Some(j) => walk(links, j, b),
            None => None,
        },
    decreases b,
{
    if b == 0 {
        match walk(links, i, a) {
            Some(j) => {
                lemma_walk_in_range(links, i, a);
            },
            None => {},
        }
    } else {
        lemma_walk_split(links, i, a, (b - 1) as nat);
        assert(a + b - 1 == a + (b - 1));
    }
}

/// A walk in a well-formed graph stays in the graph.
pub proof fn lemma_walk_in_range(links: Seq<Option<usize>>, i: int, k: nat)
    requires
        links_wf(links),
    ensures
        match walk(links, i, k) {
            Some(j) => 0 <= j < links.len(),
            None => true,
        },
    decreases k,
{
    if k > 0 {
        lemma_walk_in_range(links, i, (k - 1) as nat);
    }
}

/// The number of zeros in `marks`.
pub open spec fn zeros(marks: Seq<u8>) -> nat
    decreases marks.len(),
{
    if marks.len() == 0 {
        0
    } else {
        zeros(marks.drop_last()) + if marks.last() == 0 {
            1nat
        } else {
            0nat
        }
    }
}

proof fn lemma_zeros_bound(marks: Seq<u8>)
    ensures
        zeros(marks) <= marks.len(),
    decreases marks.len(),
{
    if marks.len() > 0 {
        lemma_zeros_bound(marks.drop_last());
    }
}

proof fn lemma_zeros_update(marks: Seq<u8>, j: int, v: u8)
    requires
        0 <= j < marks.len(),
        marks[j] == 0,
        v != 0,
    ensures
        zeros(marks.update(j, v)) + 1 == zeros(marks),
    decreases marks.len(),
{
    let after = marks.update(j, v);
    if j == marks.len() - 1 {
        assert(after.drop_last() =~= marks.drop_last());
    } else {
        assert(after.drop_last() =~= marks.drop_last().update(j, v));
        lemma_zeros_update(marks.drop_last(), j, v);
    }
}

/// The pending chain of the first node of a chain that ends at a node
/// without a link, or at a link into `done`, is the chain read backwards.
proof fn lemma_chain_reversed(
    links: Seq<Option<usize>>,
    done: Seq<usize>,
    chain: Seq<usize>,
    q: int,
    fuel: nat,
)
    requires
        0 <= q < chain.len(),
        forall|r: int| 0 <= r < chain.len() ==> #[trigger] chain[r] < links.len(),
        forall|r: int| 0 <= r < chain.len() ==> !done.contains(#[trigger] chain[r]),
        forall|r: int|
            0 <= r < chain.len() - 1 ==> links[#[trigger] chain[r] as int] == Some(chain[r + 1]),
        match links[chain.last() as int] {
            Some(t) => done.contains(t),
            None => true,
        },
        fuel >= chain.len() - q,
    ensures
        pending_chain(links, done, chain[q] as int, fuel) == chain.subrange(
            q,
            chain.len() as int,
        ).reverse(),
    decreases chain.len() - q,
{
    let tail = chain.subrange(q, chain.len() as int);
    assert(chain[q] < links.len());
    assert(!done.contains(chain[q]));
    if q == chain.len() - 1 {
        match links[chain[q] as int] {
            Some(t) => {
                assert(pending_chain(links, done, t as int, (fuel - 1) as nat)
                    =~= Seq::<usize>::empty());
                assert(tail.reverse() =~= Seq::<usize>::empty().push(chain[q]));
            },
            None => {
                assert(tail.reverse() =~= seq![chain[q]]);
            },
        }
    } else {
        lemma_chain_reversed(links, done, chain, q + 1, (fuel - 1) as nat);
        let rest = chain.subrange(q + 1, chain.len() as int);
        assert(links[chain[q] as int] == Some(chain[q + 1]));
        assert(tail.reverse() =~= rest.reverse().push(chain[q])) by {
            assert(tail.len() == rest.len() + 1);
            assert forall|k: int| 0 <= k < tail.len() implies tail.reverse()[k]
                == rest.reverse().push(chain[q])[k] by {
                if k < rest.len() {
                    assert(tail.reverse()[k] == tail[tail.len() - 1 - k]);
                    assert(rest.reverse()[k] == rest[rest.len() - 1 - k]);
                }
            }
        }
    }
}

/// Whether the nodes with the mark `mark` are just those of `nodes`.
pub open spec fn marked(marks: Seq<u8>, mark: u8, nodes: Seq<usize>) -> bool {
    forall|j: int|
        0 <= j < marks.len() ==> (#[trigger] marks[j] == mark <==> nodes.contains(j as usize))
}

/// A list without a new node, with that node at its end, has no node twice
/// and holds what it held and the new node.
proof fn lemma_push_fresh(nodes: Seq<usize>, v: usize)
    requires
        nodes.no_duplicates(),
        !nodes.contains(v),
    ensures
        nodes.push(v).no_duplicates(),
        forall|x: usize| #[trigger] nodes.push(v).contains(x) <==> x == v || nodes.contains(x),
{
    let after = nodes.push(v);
    assert forall|a: int, b: int|
        0 <= a < after.len() && 0 <= b < after.len() && a != b implies after[a] != after[b] by {
        if a < nodes.len() && b < nodes.len() {
            assert(nodes[a] != nodes[b]);
        } else if a < nodes.len() {
            assert(nodes.contains(nodes[a]));
        } else {
            assert(nodes.contains(nodes[b]));
        }
    }
    assert forall|x: usize| #[trigger] after.contains(x) <==> x == v || nodes.contains(x) by {
        if after.contains(x) {
            let q = choose|q: int| 0 <= q < after.len() && after[q] == x;
            if q < nodes.len() {
                assert(nodes[q] == x);
            }
        }
        if x == v {
            assert(after[nodes.len() as int] == v);
        }
        if nodes.contains(x) {
            let q = choose|q: int| 0 <= q < nodes.len() && nodes[q] == x;
            assert(after[q] == x);
        }
    }
}

/// A list of different nodes without its last node holds what it held but
/// that node.
proof fn lemma_drop_last(nodes: Seq<usize>)
    requires
        nodes.no_duplicates(),
        nodes.len() > 0,
    ensures
        forall|x: usize|
            #[trigger] nodes.drop_last().contains(x) <==> x != nodes.last() && nodes.contains(x),
{
    let fewer = nodes.drop_last();
    assert forall|x: usize| #[trigger] fewer.contains(x) <==> x != nodes.last() && nodes.contains(
        x,
    ) by {
        if fewer.contains(x) {
            let q = choose|q: int| 0 <= q < fewer.len() && fewer[q] == x;
            assert(nodes[q] == x);
        }
        if x != nodes.last() && nodes.contains(x) {
            let q = choose|q: int| 0 <= q < nodes.len() && nodes[q] == x;
            assert(fewer[q] == x);
        }
    }
}

/// A chain with the node that its last node links to at its end is a chain,
/// and the walk from its first node runs along it.
proof fn lemma_chain_grows(links: Seq<Option<usize>>, chain: Seq<usize>, start: int, next: usize)
    requires
        next < links.len(),
        forall|q: int| 0 <= q < chain.len() ==> #[trigger] chain[q] < links.len(),
        forall|q: int|
            0 <= q < chain.len() - 1 ==> links[#[trigger] chain[q] as int] == Some(chain[q + 1]),
        forall|q: int|
            0 <= q < chain.len() ==> walk(links, start, q as nat) == Some(
                #[trigger] chain[q] as int,
            ),
        chain.len() > 0 ==> links[chain.last() as int] == Some(next),
        walk(links, start, chain.len()) == Some(next as int),
    ensures
        forall|q: int| 0 <= q < chain.len() + 1 ==> #[trigger] chain.push(next)[q] < links.len(),
        forall|q: int|
            0 <= q < chain.len() ==> links[#[trigger] chain.push(next)[q] as int] == Some(
                chain.push(next)[q + 1],
            ),
        forall|q: int|
            0 <= q < chain.len() + 1 ==> walk(links, start, q as nat) == Some(
                #[trigger] chain.push(next)[q] as int,
            ),
{
    let longer = chain.push(next);
    assert forall|q: int| 0 <= q < chain.len() + 1 implies #[trigger] longer[q] < links.len() by {
        if q < chain.len() {
            assert(longer[q] == chain[q]);
        }
    }
    assert forall|q: int| 0 <= q < chain.len() implies links[#[trigger] longer[q] as int] == Some(
        longer[q + 1],
    ) by {
        assert(longer[q] == chain[q]);
        if q < chain.len() - 1 {
            assert(longer[q + 1] == chain[q + 1]);
        }
    }
    assert forall|q: int| 0 <= q < chain.len() + 1 implies walk(links, start, q as nat) == Some(
        #[trigger] longer[q] as int,
    ) by {
        if q < chain.len() {
            assert(longer[q] == chain[q]);
        }
    }
}

/// The node at which a walk comes back to its own chain is the first cycle
/// node of the graph, where no node before the start of the walk leads onto
/// a cycle.
proof fn lemma_cycle_found(
    links: Seq<Option<usize>>,
    done: Seq<usize>,
    chain: Seq<usize>,
    start: int,
    node: usize,
)
    requires
        links_wf(links),
        links.len() <= usize::MAX,
        lists_nodes(links, done),
        anchors_first(links, done),
        0 <= start < links.len(),
        forall|j: usize| j < start ==> #[trigger] done.contains(j),
        chain.no_duplicates(),
        chain.contains(node),
        forall|q: int| 0 <= q < chain.len() ==> #[trigger] chain[q] < links.len(),
        forall|q: int|
            0 <= q < chain.len() - 1 ==> links[#[trigger] chain[q] as int] == Some(chain[q + 1]),
        forall|q: int|
            0 <= q < chain.len() ==> walk(links, start, q as nat) == Some(
                #[trigger] chain[q] as int,
            ),
        links[chain.last() as int] == Some(node),
        walk(links, start, chain.len()) == Some(node as int),
    ensures
        on_cycle(links, node as int),
        first_cycle_node(links, node as int),
{
    let p = choose|p: int| 0 <= p < chain.len() && chain[p] == node;
    let len = chain.len();
    lemma_walk_split(links, start, p as nat, (len - p) as nat);
    assert(p + (len - p) == len);
    assert(walk(links, node as int, (len - p) as nat) == Some(node as int));
    assert(on_cycle(links, node as int));
    assert forall|j: nat| j < p implies !on_cycle(links, (#[trigger] walk(links, start, j))->0) by {
        assert(walk(links, start, j) == Some(chain[j as int] as int));
        lemma_before_loop_not_on_cycle(links, chain, start, p, j as int);
    }
    assert(walk(links, start, p as nat) == Some(node as int));
    assert(enters_cycle_at(links, start, node as int));
    assert forall|s: int| 0 <= s < start implies !#[trigger] leads_to_cycle(links, s) by {
        assert(done.contains(s as usize));
        let q = choose|q: int| 0 <= q < done.len() && done[q] == s as usize;
        lemma_placed_leads_nowhere(links, done, q);
    }
}

/// Puts the nodes of a graph in drawing order, or finds the first node on a
/// cycle. The nodes are taken in their own order; from each node that is not
/// drawn yet the links are followed to a node that is drawn or has no link,
/// and the nodes that were passed are drawn from the farthest back to the
/// node itself. A walk that comes back to itself has found a cycle.
pub fn sort_links(links: &Vec<Option<usize>>) -> (r: Result<Vec<usize>, usize>)
    requires
        links_wf(links@),
    ensures
        match r {
            Ok(order) => {
                &&& !has_cycle(links@)
                &&& order@ == drawing_order(links@)
                &&& lists_nodes(links@, order@)
                &&& lists_all(links@, order@)
                &&& anchors_first(links@, order@)
            },
            Err(node) => {
                &&& node < links.len()
                &&& on_cycle(links@, node as int)
                &&& first_cycle_node(links@, node as int)
            },
        },
{
    let n = links.len();
    // 0: not seen, 1: on the chain that is being followed, 2: drawn.
    let mut marks: Vec<u8> = Vec::new();
    let mut result: Vec<usize> = Vec::new();
    let mut i: usize = 0;
    while i < n
        invariant
            i <= n,
            marks@.len() == i,
            forall|j: int| 0 <= j < i ==> #[trigger] marks@[j] == 0,
        decreases n - i,
    {
        marks.push(0);
        i += 1;
    }
    i = 0;
    while i < n
        invariant
            i <= n,
            n == links.len(),
            links_wf(links@),
            marks@.len() == n,
            forall|j: int| 0 <= j < n ==> #[trigger] marks@[j] == 0 || marks@[j] == 2,
            marked(marks@, 2, result@),
            forall|j: usize| j < i ==> #[trigger] result@.contains(j),
            lists_nodes(links@, result@),
            anchors_first(links@, result@),
            result@ == order_upto(links@, i as int),
        decreases n - i,
    {
        if marks[i] == 2 {
            assert(pending_chain(links@, result@, i as int, n as nat) =~= Seq::<usize>::empty());
            assert(result@ + Seq::<usize>::empty() =~= result@);
        } else {
            let ghost done = result@;
            let mut stack: Vec<usize> = Vec::new();
            let mut cur: usize = i;
            let mut walking = true;
            proof {
                lemma_zeros_bound(marks@);
            }
            while walking
                invariant
                    i < n,
                    n == links.len(),
                    links_wf(links@),
                    marks@.len() == n,
                    result@ == done,
                    lists_nodes(links@, done),
                    anchors_first(links@, done),
                    forall|j: usize| j < i ==> #[trigger] done.contains(j),
                    cur < n,
                    marked(marks@, 2, done),
                    marked(marks@, 1, stack@),
                    forall|j: int| 0 <= j < n ==> #[trigger] marks@[j] <= 2,
                    forall|q: int| 0 <= q < stack@.len() ==> #[trigger] stack@[q] < n,
                    stack@.no_duplicates(),
                    forall|q: int|
                        0 <= q < stack@.len() - 1 ==> links@[#[trigger] stack@[q] as int] == Some(
                            stack@[q + 1],
                        ),
                    forall|q: int|
                        0 <= q < stack@.len() ==> walk(links@, i as int, q as nat) == Some(
                            #[trigger] stack@[q] as int,
                        ),
                    walking ==> walk(links@, i as int, stack@.len()) == Some(cur as int),
                    walking && stack@.len() > 0 ==> links@[stack@.last() as int] == Some(cur),
                    stack@.len() == 0 ==> walking && marks@[i as int] == 0 && cur == i,
                    !walking ==> stack@.len() > 0 && match links@[stack@.last() as int] {
                        Some(t) => done.contains(t),
                        None => true,
                    },
                    zeros(marks@) + stack@.len() <= n,
                decreases
                        zeros(marks@) + if walking {
                            1nat
                        } else {
                            0nat
                        },
            {
                if marks[cur] == 2 {
                    walking = false;
                } else if marks[cur] == 1 {
                    proof {
                        lemma_cycle_found(links@, done, stack@, i as int, cur);
                    }
                    return Err(cur);
                } else {
                    proof {
                        lemma_zeros_update(marks@, cur as int, 1);
                        lemma_push_fresh(stack@, cur);
                        lemma_chain_grows(links@, stack@, i as int, cur);
                    }
                    marks.set(cur, 1);
                    stack.push(cur);
                    match links[cur] {
                        Some(t) => {
                            cur = t;
                        },
                        None => {
                            walking = false;
                        },
                    }
                }
            }
            let ghost chain = stack@;
            let m = stack.len();
            proof {
                assert forall|r: int| 0 <= r < chain.len() implies !done.contains(
                    #[trigger] chain[r],
                ) by {
                    assert(chain.contains(chain[r]));
                    assert(marks@[chain[r] as int] == 1);
                }
                assert(walk(links@, i as int, 0) == Some(chain[0] as int));
                lemma_chain_reversed(links@, done, chain, 0, n as nat);
                assert(chain.subrange(0, m as int) =~= chain);
                assert(result@ =~= done + chain.subrange(m as int, m as int).reverse());
            }
            while stack.len() > 0
                invariant
                    n == links.len(),
                    links_wf(links@),
                    marks@.len() == n,
                    m == chain.len(),
                    m > 0,
                    stack@.len() <= m,
                    stack@ == chain.take(stack@.len() as int),
                    stack@.no_duplicates(),
                    forall|q: int| 0 <= q < chain.len() ==> #[trigger] chain[q] < n,
                    forall|q: int|
                        0 <= q < chain.len() - 1 ==> links@[#[trigger] chain[q] as int] == Some(
                            chain[q + 1],
                        ),
                    match links@[chain.last() as int] {
                        Some(t) => done.contains(t),
                        None => true,
                    },
                    forall|j: usize| j < i ==> #[trigger] done.contains(j),
                    forall|x: usize| done.contains(x) ==> #[trigger] result@.contains(x),
                    result@ == done + chain.subrange(stack@.len() as int, m as int).reverse(),
                    stack@.len() < m ==> result@.last() == chain[stack@.len() as int],
                    marked(marks@, 2, result@),
                    marked(marks@, 1, stack@),
                    forall|j: int| 0 <= j < n ==> #[trigger] marks@[j] <= 2,
                    lists_nodes(links@, result@),
                    anchors_first(links@, result@),
                decreases stack@.len(),
            {
                let ghost before = result@;
                let ghost waiting = stack@;
                let k = stack.len() - 1;
                let v = stack.pop().unwrap();
                proof {
                    assert(stack@ =~= chain.take(k as int));
                    assert(stack@ =~= waiting.drop_last());
                    lemma_drop_last(waiting);
                    assert(waiting.contains(v)) by {
                        assert(waiting[k as int] == v);
                    }
                    assert(marks@[v as int] == 1);
                    assert(!before.contains(v));
                    if k < m - 1 {
                        assert(before.contains(chain[k + 1])) by {
                            assert(before[before.len() - 1] == chain[k + 1]);
                        }
                    }
                    lemma_push_fresh(before, v);
                    lemma_order_extends(links@, before, v);
                    let shorter = chain.subrange(k + 1, m as int);
                    let longer = chain.subrange(k as int, m as int);
                    assert(longer.reverse() =~= shorter.reverse().push(v)) by {
                        assert forall|q: int| 0 <= q < longer.len() implies longer.reverse()[q]
                            == shorter.reverse().push(v)[q] by {
                            if q < shorter.len() {
                                assert(longer.reverse()[q] == longer[longer.len() - 1 - q]);
                                assert(shorter.reverse()[q] == shorter[shorter.len() - 1 - q]);
                            }
                        }
                    }
                    assert(done + longer.reverse() =~= (done + shorter.reverse()).push(v));
                }
                marks.set(v, 2);
                result.push(v);
            }
            proof {
                assert(chain.subrange(0, m as int) =~= chain);
                assert forall|j: int| 0 <= j < n implies #[trigger] marks@[j] == 0 || marks@[j]
                    == 2 by {
                    if marks@[j] == 1 {
                        assert(stack@.contains(j as usize));
                    }
                }
                assert(result@.contains(i)) by {
                    assert(result@.last() == chain[0]);
                    assert(result@[result@.len() - 1] == i);
                }
            }
        }
        i += 1;
    }
    proof {
        lemma_ordered_is_acyclic(links@, result@);
    }
    Ok(result)
}

} // verus!
