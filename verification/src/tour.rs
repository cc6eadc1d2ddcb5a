//! The node table: every node of the problem with its place in the tour,
//! held as indices into one table.

use vstd::prelude::*;

verus! {

/// One node of the problem. `suc` and `pred` are the places in the table of
/// its neighbours on the tour; `input_suc` is the successor it had when the
/// tour was last frozen, if it ever was.
#[derive(Clone, Copy, Debug, PartialEq, Eq, Structural)]
pub struct Node {
    pub id: usize,
    pub suc: usize,
    pub pred: usize,
    pub input_suc: Option<usize>,
}

/// Every node carries the identifier of its place, counted from one, and
/// names neighbours that are in the table.
pub open spec fn in_table(s: Seq<Node>) -> bool {
    forall|i: int|
        0 <= i < s.len() ==> {
            &&& (#[trigger] s[i]).id == i + 1
            &&& s[i].suc < s.len()
            &&& s[i].pred < s.len()
        }
}

/// Successor and predecessor undo each other at every node, so that the
/// table is a set of circular tours.
pub open spec fn linked(s: Seq<Node>) -> bool {
    &&& in_table(s)
    &&& forall|i: int|
        0 <= i < s.len() ==> {
            &&& s[(#[trigger] s[i]).suc as int].pred == i
            &&& s[s[i].pred as int].suc == i
        }
}

/// The place reached from `from` by following `k` successors.
pub open spec fn walk(s: Seq<Node>, from: int, k: nat) -> int
    decreases k,
{
    if k == 0 {
        from
    } else {
        let before = walk(s, from, (k - 1) as nat);
        if 0 <= before < s.len() {
            s[before].suc as int
        } else {
            before
        }
    }
}

/// The number of steps taken from `first`: as many as there are nodes, or
/// fewer where the walk is back at `first` before.
pub open spec fn lap(s: Seq<Node>, first: int, len: int) -> bool {
    &&& 1 <= len <= s.len()
    &&& forall|k: nat| 0 < k < len ==> walk(s, first, k) != first
    &&& len == s.len() || walk(s, first, len as nat) == first
}

/// The identifier `id` stands among the first `n` entries of `order`.
pub open spec fn stands_in(order: Seq<usize>, n: int, id: int) -> bool {
    exists|i: int| 0 <= i < n && #[trigger] order[i] == id
}

/// `order` is a closed tour of the identifiers `1..=n`: each of them stands
/// once among its first `n` entries, and the last entry repeats the first.
pub open spec fn closed_order(order: Seq<usize>, n: int) -> bool {
    &&& n >= 1
    &&& order.len() == n + 1
    &&& order[n] == order[0]
    &&& forall|i: int| 0 <= i < n ==> 1 <= #[trigger] order[i] <= n
    &&& forall|i: int, j: int| 0 <= i < j < n ==> #[trigger] order[i] != #[trigger] order[j]
    &&& forall|id: int| 1 <= id <= n ==> #[trigger] stands_in(order, n, id)
}

/// Along the first `upto` steps of `order` each node is followed by the
/// next one, and preceded by the one before.
pub open spec fn chained(s: Seq<Node>, order: Seq<usize>, upto: int) -> bool {
    forall|j: int|
        0 <= j < upto ==> {
            &&& s[order[j] - 1].suc == #[trigger] order[j + 1] - 1
            &&& s[order[j + 1] - 1].pred == order[j] - 1
        }
}

/// Along the first `upto` steps of `order`, in a table that holds behind
/// the `half` nodes a duplicate of each: a node stands between its own
/// duplicate and the duplicate of the next node.
pub open spec fn chained_doubled(s: Seq<Node>, order: Seq<usize>, half: int, upto: int) -> bool {
    forall|j: int|
        0 <= j < upto ==> {
            &&& s[order[j] - 1 + half].suc == order[j] - 1
            &&& s[order[j] - 1].pred == order[j] - 1 + half
            &&& s[order[j] - 1].suc == #[trigger] order[j + 1] - 1 + half
            &&& s[order[j + 1] - 1 + half].pred == order[j] - 1
        }
}

/// Nothing but the links of the nodes differs between `s` and `t`.
pub open spec fn same_nodes(s: Seq<Node>, t: Seq<Node>) -> bool {
    &&& s.len() == t.len()
    &&& forall|i: int|
        0 <= i < s.len() ==> (#[trigger] s[i]).id == t[i].id && s[i].input_suc == t[i].input_suc
}

/// Whether `order` is a closed tour of the identifiers `1..=n`.
pub fn is_closed_order(order: &Vec<usize>, n: usize) -> (r: bool)
    ensures
        r == closed_order(order@, n as int),
{
    let len: usize = order.len();
    if n < 1 || len < 1 || len - 1 != n {
        return false;
    }
    if order[n] != order[0] {
        return false;
    }
    let mut seen: Vec<bool> = Vec::new();
    let mut i: usize = 0;
    while i < n
        invariant
            i <= n,
            seen@.len() == i,
            forall|j: int| 0 <= j < i ==> !#[trigger] seen@[j],
        decreases n - i,
    {
        seen.push(false);
        i += 1;
    }
    i = 0;
    while i < n
        invariant
            i <= n,
            order@.len() == n + 1,
            seen@.len() == n,
            forall|j: int| 0 <= j < i ==> 1 <= #[trigger] order@[j] <= n,
            forall|j: int, k: int| 0 <= j < k < i ==> #[trigger] order@[j] != #[trigger] order@[k],
            forall|v: int|
                0 <= v < n ==> (#[trigger] seen@[v] <==> exists|j: int|
                    0 <= j < i && #[trigger] order@[j] == v + 1),
        decreases n - i,
    {
        let id: usize = order[i];
        if id < 1 || id > n {
            return false;
        }
        if seen[id - 1] {
            let ghost j = choose|j: int| 0 <= j < i && #[trigger] order@[j] == id;
            assert(order@[j] == order@[i as int]);
            return false;
        }
        let ghost before = seen@;
        seen.set(id - 1, true);
        proof {
            assert forall|v: int| 0 <= v < n implies (#[trigger] seen@[v] <==> exists|j: int|
                0 <= j < i + 1 && #[trigger] order@[j] == v + 1) by {
                if v == id - 1 {
                    assert(order@[i as int] == v + 1);
                } else if before[v] {
                    let j = choose|j: int| 0 <= j < i && #[trigger] order@[j] == v + 1;
                    assert(0 <= j < i + 1 && order@[j] == v + 1);
                }
            }
        }
        i += 1;
    }
    i = 0;
    while i < n
        invariant
            i <= n,
            seen@.len() == n,
            forall|v: int| 0 <= v < i ==> #[trigger] seen@[v],
            forall|v: int|
                0 <= v < n ==> (#[trigger] seen@[v] <==> exists|j: int|
                    0 <= j < n && #[trigger] order@[j] == v + 1),
        decreases n - i,
    {
        if !seen[i] {
            proof {
                if closed_order(order@, n as int) {
                    assert(stands_in(order@, n as int, i + 1));
                    let j = choose|j: int| 0 <= j < n && #[trigger] order@[j] == i + 1;
                    assert(false);
                }
            }
            return false;
        }
        i += 1;
    }
    proof {
        assert forall|id: int| 1 <= id <= n implies #[trigger] stands_in(order@, n as int, id) by {
            assert(seen@[id - 1]);
        }
    }
    true
}

/// The closed order of a tour: the tour behind its own last node.
pub open spec fn closing(tour: Seq<usize>) -> Seq<usize> {
    seq![tour.last()].add(tour)
}

/// A table of `nodes` nodes can be linked along the tour `tour`: the tour
/// visits each of its nodes once, and the table holds these nodes, or
/// these and a duplicate of each.
pub open spec fn fits_table(tour: Seq<usize>, nodes: int) -> bool {
    &&& tour.len() >= 1
    &&& closed_order(closing(tour), tour.len() as int)
    &&& (nodes == tour.len() || nodes == 2 * tour.len())
}

/// The closed order of the tour `tour`.
fn closing_of(tour: &Vec<usize>) -> (order: Vec<usize>)
    requires
        tour@.len() >= 1,
    ensures
        order@ == closing(tour@),
{
    let n: usize = tour.len();
    let mut order: Vec<usize> = Vec::new();
    order.push(tour[n - 1]);
    let mut i: usize = 0;
    while i < n
        invariant
            i <= n,
            n == tour@.len(),
            n >= 1,
            order@ == seq![tour@.last()].add(tour@.subrange(0, i as int)),
        decreases n - i,
    {
        order.push(tour[i]);
        i += 1;
        assert(order@ =~= seq![tour@.last()].add(tour@.subrange(0, i as int)));
    }
    assert(tour@.subrange(0, n as int) =~= tour@);
    order
}

/// The table of all nodes.
pub struct NodeTable {
    nodes: Vec<Node>,
}

impl View for NodeTable {
    type V = Seq<Node>;

    closed spec fn view(&self) -> Seq<Node> {
        self.nodes@
    }
}

impl NodeTable {
    /// The table of `n` nodes on the tour `1, 2, .., n` and back to `1`,
    /// never frozen.
    pub fn ring(n: usize) -> (t: NodeTable)
        requires
            n >= 1,
        ensures
            t@.len() == n,
            linked(t@),
            forall|i: int|
                0 <= i < n ==> (#[trigger] t@[i]).suc == (if i + 1 < n {
                    i + 1
                } else {
                    0
                }) && t@[i].input_suc.is_none(),
    {
        let mut nodes: Vec<Node> = Vec::new();
        let mut i: usize = 0;
        while i < n
            invariant
                i <= n,
                nodes@.len() == i,
                forall|j: int|
                    0 <= j < i ==> {
                        &&& (#[trigger] nodes@[j]).id == j + 1
                        &&& nodes@[j].suc == (if j + 1 < n {
                            j + 1
                        } else {
                            0
                        })
                        &&& nodes@[j].pred == (if j > 0 {
                            j - 1
                        } else {
                            n - 1
                        })
                        &&& nodes@[j].input_suc.is_none()
                    },
            decreases n - i,
        {
            let suc: usize = if i + 1 < n { i + 1 } else { 0 };
            let pred: usize = if i > 0 { i - 1 } else { n - 1 };
            nodes.push(Node { id: i + 1, suc, pred, input_suc: None });
            i += 1;
        }
        NodeTable { nodes }
    }

    /// The table of `nodes` nodes that is linked along the tour `tour`, as
    /// `reconstruct` links it; none where the tour is broken or the table
    /// is not of its size.
    pub fn from_tour(tour: &Vec<usize>, nodes: usize) -> (r: Option<NodeTable>)
        ensures
            r.is_some() == fits_table(tour@, nodes as int),
            match r {
                Some(t) => {
                    &&& t@.len() == nodes
                    &&& linked(t@)
                    &&& forall|i: int| 0 <= i < nodes ==> (#[trigger] t@[i]).input_suc.is_none()
                    &&& nodes == tour@.len() ==> chained(t@, closing(tour@), tour@.len() as int)
                    &&& nodes != tour@.len() ==> chained_doubled(
                        t@,
                        closing(tour@),
                        tour@.len() as int,
                        tour@.len() as int,
                    )
                },
                None => true,
            },
    {
        let n: usize = tour.len();
        if n < 1 || (nodes != n && (n > usize::MAX / 2 || nodes != 2 * n)) {
            return None;
        }
        let order = closing_of(tour);
        if !is_closed_order(&order, n) {
            return None;
        }
        let mut table = NodeTable::ring(nodes);
        let ghost fresh = table@;
        table.reconstruct(&order, n);
        proof {
            assert forall|i: int| 0 <= i < nodes implies (#[trigger] table@[i]).input_suc.is_none() by {
                assert(fresh[i].input_suc == table@[i].input_suc);
            }
        }
        Some(table)
    }

    /// The number of nodes.
    pub fn len(&self) -> (n: usize)
        ensures
            n == self@.len(),
    {
        self.nodes.len()
    }

    /// The node at place `i`.
    pub fn node(&self, i: usize) -> (node: Node)
        requires
            i < self@.len(),
        ensures
            node == self@[i as int],
    {
        self.nodes[i]
    }

    /// Makes `b` the successor of `a`, and `a` the predecessor of `b`.
    fn link(&mut self, a: usize, b: usize)
        requires
            a < old(self)@.len(),
            b < old(self)@.len(),
        ensures
            same_nodes(old(self)@, final(self)@),
            final(self)@[a as int].suc == b,
            final(self)@[b as int].pred == a,
            forall|i: int|
                0 <= i < old(self)@.len() && i != a
                    ==> (#[trigger] final(self)@[i]).suc == old(self)@[i].suc,
            forall|i: int|
                0 <= i < old(self)@.len() && i != b
                    ==> (#[trigger] final(self)@[i]).pred == old(self)@[i].pred,
    {
        let mut from: Node = self.nodes[a];
        from.suc = b;
        self.nodes.set(a, from);
        let mut to: Node = self.nodes[b];
        to.pred = a;
        self.nodes.set(b, to);
    }

    /// Records at every node its present successor as its input successor.
    pub fn freeze(&mut self)
        ensures
            final(self)@.len() == old(self)@.len(),
            forall|i: int|
                0 <= i < old(self)@.len() ==> #[trigger] final(self)@[i] == (Node {
                    input_suc: Some(old(self)@[i].suc),
                    ..old(self)@[i]
                }),
    {
        let mut i: usize = 0;
        while i < self.nodes.len()
            invariant
                i <= self.nodes@.len(),
                self.nodes@.len() == old(self).nodes@.len(),
                forall|j: int|
                    0 <= j < i ==> #[trigger] self.nodes@[j] == (Node {
                        input_suc: Some(old(self).nodes@[j].suc),
                        ..old(self).nodes@[j]
                    }),
                forall|j: int| i <= j < self.nodes@.len() ==> #[trigger] self.nodes@[j] == old(self).nodes@[j],
            decreases self.nodes.len() - i,
        {
            let mut node: Node = self.nodes[i];
            node.input_suc = Some(node.suc);
            self.nodes.set(i, node);
            i += 1;
        }
    }

    /// The identifiers of the nodes met from the node at `first` by
    /// following successors, until the walk is back at `first`.
    pub fn tour_from(&self, first: usize) -> (ids: Vec<usize>)
        requires
            in_table(self@),
            first < self@.len(),
        ensures
            lap(self@, first as int, ids@.len() as int),
            forall|k: nat| k < ids@.len() ==> #[trigger] ids@[k as int] == walk(self@, first as int, k) + 1,
    {
        let mut ids: Vec<usize> = Vec::new();
        let mut at: usize = first;
        let n: usize = self.nodes.len();
        loop
            invariant_except_break
                ids@.len() < n,
                at == walk(self@, first as int, ids@.len() as nat),
                ids@.len() > 0 ==> at != first,
            invariant
                n == self@.len(),
                in_table(self@),
                first < n,
                at < n,
                ids@.len() <= n,
                forall|k: nat| 0 < k < ids@.len() ==> walk(self@, first as int, k) != first,
                forall|k: nat|
                    k < ids@.len() ==> #[trigger] ids@[k as int] == walk(self@, first as int, k) + 1,
            ensures
                lap(self@, first as int, ids@.len() as int),
            decreases n - ids@.len(),
        {
            let ghost done = ids@.len() as nat;
            ids.push(self.nodes[at].id);
            at = self.nodes[at].suc;
            assert(at == walk(self@, first as int, done + 1));
            if at == first || ids.len() >= n {
                break;
            }
        }
        ids
    }

    /// Walks once round the tour from the node at `first` and records at
    /// every node met its successor as its input successor. Returns the
    /// steps taken, each as the identifiers of a node and of its successor;
    /// with `with_edges` unset it returns none.
    pub fn adopt_tour(&mut self, first: usize, with_edges: bool) -> (edges: Vec<(usize, usize)>)
        requires
            in_table(old(self)@),
            first < old(self)@.len(),
        ensures
            final(self)@.len() == old(self)@.len(),
            exists|len: int| #[trigger]
                lap(old(self)@, first as int, len) && (with_edges ==> edges@.len() == len)
                    && forall|i: int|
                    0 <= i < old(self)@.len() ==> #[trigger] final(self)@[i] == (if exists|k: nat|
                        k < len && walk(old(self)@, first as int, k) == i {
                        Node { input_suc: Some(old(self)@[i].suc), ..old(self)@[i] }
                    } else {
                        old(self)@[i]
                    }),
            !with_edges ==> edges@.len() == 0,
            forall|k: nat|
                k < edges@.len() ==> #[trigger] edges@[k as int] == (
                    (walk(old(self)@, first as int, k) + 1) as usize,
                    (walk(old(self)@, first as int, k + 1) + 1) as usize,
                ),
    {
        let ghost s0 = self@;
        let mut edges: Vec<(usize, usize)> = Vec::new();
        let mut at: usize = first;
        let mut steps: usize = 0;
        let n: usize = self.nodes.len();
        loop
            invariant_except_break
                steps < n,
                at == walk(s0, first as int, steps as nat),
                steps > 0 ==> at != first,
            invariant
                n == s0.len(),
                self@.len() == n,
                in_table(s0),
                first < n,
                at < n,
                steps <= n,
                with_edges ==> edges@.len() == steps,
                !with_edges ==> edges@.len() == 0,
                forall|k: nat| 0 < k < steps ==> walk(s0, first as int, k) != first,
                forall|k: nat|
                    k < edges@.len() ==> #[trigger] edges@[k as int] == (
                        (walk(s0, first as int, k) + 1) as usize,
                        (walk(s0, first as int, k + 1) + 1) as usize,
                    ),
                forall|i: int|
                    0 <= i < n ==> #[trigger] self@[i] == (if exists|k: nat|
                        k < steps && walk(s0, first as int, k) == i {
                        Node { input_suc: Some(s0[i].suc), ..s0[i] }
                    } else {
                        s0[i]
                    }),
            ensures
                lap(s0, first as int, steps as int),
            decreases n - steps,
        {
            let ghost before = self@;
            let ghost done = steps as nat;
            let mut node: Node = self.nodes[at];
            let next: usize = node.suc;
            assert(next == s0[at as int].suc);
            assert(next == walk(s0, first as int, done + 1));
            if with_edges {
                edges.push((node.id, self.nodes[next].id));
            }
            node.input_suc = Some(next);
            self.nodes.set(at, node);
            steps += 1;
            proof {
                assert forall|i: int| 0 <= i < n implies #[trigger] self@[i] == (if exists|k: nat|
                    k < steps && walk(s0, first as int, k) == i {
                    Node { input_suc: Some(s0[i].suc), ..s0[i] }
                } else {
                    s0[i]
                }) by {
                    if i == at {
                        assert(done < steps && walk(s0, first as int, done) == i);
                    } else if exists|k: nat| k < done && walk(s0, first as int, k) == i {
                        let k = choose|k: nat| k < done && walk(s0, first as int, k) == i;
                        assert(k < steps && walk(s0, first as int, k) == i);
                    } else {
                        assert(self@[i] == before[i]);
                    }
                }
            }
            at = next;
            if at == first || steps >= n {
                break;
            }
        }
        edges
    }

    /// Links the nodes along `order`: each becomes the successor of the one
    /// before it.
    fn relink(&mut self, order: &Vec<usize>)
        requires
            in_table(old(self)@),
            closed_order(order@, old(self)@.len() as int),
        ensures
            same_nodes(old(self)@, final(self)@),
            chained(final(self)@, order@, old(self)@.len() as int),
            linked(final(self)@),
    {
        let n: usize = self.nodes.len();
        let mut i: usize = 0;
        while i < n
            invariant
                i <= n,
                n == old(self)@.len(),
                closed_order(order@, n as int),
                in_table(self@),
                same_nodes(old(self)@, self@),
                chained(self@, order@, i as int),
            decreases n - i,
        {
            let a: usize = order[i] - 1;
            let b: usize = order[i + 1] - 1;
            let ghost before = self@;
            self.link(a, b);
            proof {
                assert forall|j: int| 0 <= j < i + 1 implies {
                    &&& self@[order@[j] - 1].suc == #[trigger] order@[j + 1] - 1
                    &&& self@[order@[j + 1] - 1].pred == order@[j] - 1
                } by {
                    if j < i {
                        assert(before[order@[j] - 1].suc == order@[j + 1] - 1);
                        assert(order@[j] != order@[i as int]);
                        if i + 1 < n {
                            assert(order@[j + 1] != order@[i + 1]);
                        } else {
                            assert(order@[j + 1] != order@[0]);
                        }
                    }
                }
            }
            i += 1;
        }
        proof {
            let s = self@;
            assert forall|x: int| 0 <= x < s.len() implies {
                &&& s[(#[trigger] s[x]).suc as int].pred == x
                &&& s[s[x].pred as int].suc == x
            } by {
                assert(stands_in(order@, n as int, x + 1));
                let j = choose|j: int| 0 <= j < n && #[trigger] order@[j] == x + 1;
                assert(s[order@[j] - 1].suc == order@[j + 1] - 1);
                let p = if j > 0 { j - 1 } else { n - 1 };
                assert(s[order@[p] - 1].suc == order@[p + 1] - 1);
                assert(order@[p + 1] == order@[j]);
            }
        }
    }

    /// Links the nodes along `order` in a table that holds behind the nodes
    /// a duplicate of each: the duplicate of a node to the node, the node to
    /// the duplicate of the next one, and that duplicate to the next node.
    fn relink_doubled(&mut self, order: &Vec<usize>, half: usize)
        requires
            in_table(old(self)@),
            old(self)@.len() == 2 * half,
            closed_order(order@, half as int),
        ensures
            same_nodes(old(self)@, final(self)@),
            chained_doubled(final(self)@, order@, half as int, half as int),
            linked(final(self)@),
    {
        let n: usize = self.nodes.len();
        let mut i: usize = 0;
        while i < half
            invariant
                i <= half,
                n == 2 * half,
                n == old(self)@.len(),
                closed_order(order@, half as int),
                in_table(self@),
                same_nodes(old(self)@, self@),
                chained_doubled(self@, order@, half as int, i as int),
            decreases half - i,
        {
            let n1: usize = order[i] - 1;
            let n2: usize = order[i + 1] - 1;
            let m1: usize = n1 + half;
            let m2: usize = n2 + half;
            let ghost before = self@;
            self.link(m1, n1);
            self.link(n1, m2);
            self.link(m2, n2);
            proof {
                assert forall|j: int| 0 <= j < i + 1 implies {
                    &&& self@[order@[j] - 1 + half].suc == order@[j] - 1
                    &&& self@[order@[j] - 1].pred == order@[j] - 1 + half
                    &&& self@[order@[j] - 1].suc == #[trigger] order@[j + 1] - 1 + half
                    &&& self@[order@[j + 1] - 1 + half].pred == order@[j] - 1
                } by {
                    if j < i {
                        assert(before[order@[j] - 1].suc == order@[j + 1] - 1 + half);
                        assert(order@[j] != order@[i as int]);
                        if i + 1 < half {
                            assert(order@[j] != order@[i + 1]);
                            assert(order@[j + 1] != order@[i + 1]);
                        } else {
                            assert(order@[i + 1] == order@[0]);
                            assert(order@[j + 1] != order@[0]);
                            if j > 0 {
                                assert(order@[j] != order@[0]);
                            }
                        }
                        if j + 1 < i {
                            assert(order@[j + 1] != order@[i as int]);
                        }
                    }
                }
            }
            i += 1;
        }
        proof {
            let s = self@;
            assert forall|x: int| 0 <= x < s.len() implies {
                &&& s[(#[trigger] s[x]).suc as int].pred == x
                &&& s[s[x].pred as int].suc == x
            } by {
                let id = if x < half { x + 1 } else { x + 1 - half };
                assert(stands_in(order@, half as int, id));
                let j = choose|j: int| 0 <= j < half && #[trigger] order@[j] == id;
                assert(s[order@[j] - 1].suc == order@[j + 1] - 1 + half);
                let p = if j > 0 { j - 1 } else { half - 1 };
                assert(s[order@[p] - 1].suc == order@[p + 1] - 1 + half);
                assert(order@[p + 1] == order@[j]);
            }
        }
    }

    /// Takes the one tour that stands for the tours of several salesmen
    /// apart again, along `order`, the closed tour of the `dimension`
    /// real nodes. A table of just these nodes is linked along `order`.
    /// In a table that holds a duplicate of each node as well, every node
    /// is put between its own duplicate and the duplicate of the node that
    /// follows it in `order`.
    pub fn reconstruct(&mut self, order: &Vec<usize>, dimension: usize)
        requires
            in_table(old(self)@),
            closed_order(order@, dimension as int),
            old(self)@.len() == dimension || old(self)@.len() == 2 * dimension,
        ensures
            same_nodes(old(self)@, final(self)@),
            linked(final(self)@),
            old(self)@.len() == dimension ==> chained(final(self)@, order@, dimension as int),
            old(self)@.len() != dimension ==> chained_doubled(
                final(self)@,
                order@,
                dimension as int,
                dimension as int,
            ),
    {
        if self.nodes.len() == dimension {
            self.relink(order);
        } else {
            self.relink_doubled(order, dimension);
        }
    }
}

} // verus!
