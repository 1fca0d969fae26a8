//! The dependency graph: edges from a service to the services it depends on,
//! with one root above every service that was asked for, and the order in
//! which the services below the root can be built.

use vstd::prelude::*;

use crate::identity::ServiceId;
use crate::registry::{lemma_position_contains, position};

verus! {

/// A node of the graph: the root, or a service.
#[derive(Clone, Copy, Debug, PartialEq, Eq, Structural)]
pub enum Node {
    Root,
    Service(ServiceId),
}

/// An edge from a node to a service it depends on.
#[derive(Clone, Copy, Debug, PartialEq, Eq, Structural)]
pub struct Edge {
    pub parent: Node,
    pub child: ServiceId,
}

/// Why no order could be given.
#[derive(Debug)]
pub enum GraphError {
    /// The services depend on each other in a circle: each of them on the
    /// next, and the last is the first again.
    Cycle(Vec<ServiceId>),
}

pub open spec fn has_edge(edges: Seq<Edge>, parent: Node, child: ServiceId) -> bool {
    edges.contains(Edge { parent, child })
}

/// Each service of `walk` depends on the next one.
pub open spec fn is_walk(edges: Seq<Edge>, walk: Seq<ServiceId>) -> bool {
    forall|i: int|
        0 <= i < walk.len() - 1 ==> has_edge(edges, Node::Service(#[trigger] walk[i]), walk[i + 1])
}

/// `path` leads from a child of the root downwards.
pub open spec fn is_root_path(edges: Seq<Edge>, path: Seq<ServiceId>) -> bool {
    &&& path.len() > 0
    &&& has_edge(edges, Node::Root, path[0])
    &&& is_walk(edges, path)
}

/// `id` is a child of the root, or a child of such a child, and so on.
pub open spec fn reachable(edges: Seq<Edge>, id: ServiceId) -> bool {
    exists|path: Seq<ServiceId>| is_root_path(edges, path) && path.last() == id
}

/// `walk` runs in a circle below the root.
pub open spec fn is_cycle(edges: Seq<Edge>, walk: Seq<ServiceId>) -> bool {
    &&& walk.len() >= 2
    &&& walk[0] == walk.last()
    &&& is_walk(edges, walk)
    &&& reachable(edges, walk[0])
}

pub open spec fn acyclic(edges: Seq<Edge>) -> bool {
    forall|walk: Seq<ServiceId>| !is_cycle(edges, walk)
}

/// `order` holds every service below the root exactly once, each after all
/// the services it depends on.
pub open spec fn is_topological(edges: Seq<Edge>, order: Seq<ServiceId>) -> bool {
    &&& order.no_duplicates()
    &&& forall|id: ServiceId| order.contains(id) <==> reachable(edges, id)
    &&& forall|i: int, j: int|
        0 <= i < order.len() && 0 <= j < order.len() && has_edge(
            edges,
            Node::Service(#[trigger] order[i]),
            #[trigger] order[j],
        ) ==> j < i
}

/// The parent of the edge is the root or one of `found`.
pub open spec fn eligible(edge: Edge, found: Seq<ServiceId>) -> bool {
    match edge.parent {
        Node::Root => true,
        Node::Service(p) => found.contains(p),
    }
}

/// `found` holds the children of the root and, with a service, its children.
pub open spec fn closed(edges: Seq<Edge>, found: Seq<ServiceId>) -> bool {
    forall|e: int|
        0 <= e < edges.len() && eligible(#[trigger] edges[e], found) ==> found.contains(
            edges[e].child,
        )
}

/// Every service that `id` depends on is among `emitted`.
pub open spec fn ready(edges: Seq<Edge>, id: ServiceId, emitted: Seq<ServiceId>) -> bool {
    forall|e: int|
        0 <= e < edges.len() && (#[trigger] edges[e]).parent == Node::Service(id)
            ==> emitted.contains(edges[e].child)
}

/// The first edge, from the edge `e` on, that leads from the root or from
/// a service of `found` to a service that is not among `found`; the number of
/// edges if there is none.
pub open spec fn first_new(edges: Seq<Edge>, found: Seq<ServiceId>, e: int) -> int
    decreases edges.len() - e,
{
    if e < 0 || e >= edges.len() {
        edges.len() as int
    } else if eligible(edges[e], found) && !found.contains(edges[e].child) {
        e
    } else {
        first_new(edges, found, e + 1)
    }
}

/// `found` with the services that are discovered from it, one after the
/// other: each time the child of the first edge that leads from the root or
/// from a discovered service to a service not discovered yet.
pub open spec fn grow(edges: Seq<Edge>, found: Seq<ServiceId>) -> Seq<ServiceId>
    decreases edges.len() - found.len(),
{
    let e = first_new(edges, found, 0);
    if found.len() >= edges.len() || e >= edges.len() {
        found
    } else {
        grow(edges, found.push(edges[e].child))
    }
}

/// The services below the root in the order in which they are discovered.
pub open spec fn discovered(edges: Seq<Edge>) -> Seq<ServiceId> {
    grow(edges, Seq::empty())
}

/// The first service of `found`, from position `k` on, that is not among
/// `emitted` and depends on emitted services only; the length of `found` if
/// there is none.
pub open spec fn first_ready(
    edges: Seq<Edge>,
    found: Seq<ServiceId>,
    emitted: Seq<ServiceId>,
    k: int,
) -> int
    decreases found.len() - k,
{
    if k < 0 || k >= found.len() {
        found.len() as int
    } else if !emitted.contains(found[k]) && ready(edges, found[k], emitted) {
        k
    } else {
        first_ready(edges, found, emitted, k + 1)
    }
}

/// `emitted` with the services of `found` that can follow, one after the
/// other: each time the first service of `found` that is not emitted yet and
/// depends on emitted services only.
pub open spec fn emit(edges: Seq<Edge>, found: Seq<ServiceId>, emitted: Seq<ServiceId>) -> Seq<
    ServiceId,
>
    decreases found.len() - emitted.len(),
{
    let k = first_ready(edges, found, emitted, 0);
    if emitted.len() >= found.len() || k >= found.len() {
        emitted
    } else {
        emit(edges, found, emitted.push(found[k]))
    }
}

/// The order in which the services below the root are built: each time
/// the service discovered first among those whose dependencies are all in
/// the order already. Where the services depend on each other in a circle,
/// the order stops short of them.
pub open spec fn build_order(edges: Seq<Edge>) -> Seq<ServiceId> {
    emit(edges, discovered(edges), Seq::empty())
}

/// `first_new` finds the edge `at`, or none where `at` is the number of
/// edges, if no edge before `at` leads to a new service and the edge `at`
/// does.
pub proof fn lemma_first_new(edges: Seq<Edge>, found: Seq<ServiceId>, e: int, at: int)
    requires
        0 <= e <= at <= edges.len(),
        forall|j: int|
            e <= j < at ==> !(eligible(#[trigger] edges[j], found) && !found.contains(
                edges[j].child,
            )),
        at < edges.len() ==> eligible(edges[at], found) && !found.contains(edges[at].child),
    ensures
        first_new(edges, found, e) == at,
    decreases at - e,
{
    if e < at {
        assert(!(eligible(edges[e], found) && !found.contains(edges[e].child)));
        lemma_first_new(edges, found, e + 1, at);
    }
}

/// `first_ready` finds the service at `at`, or none where `at` is the
/// length of `found`, if no service before `at` can follow and the one at
/// `at` can.
pub proof fn lemma_first_ready(
    edges: Seq<Edge>,
    found: Seq<ServiceId>,
    emitted: Seq<ServiceId>,
    k: int,
    at: int,
)
    requires
        0 <= k <= at <= found.len(),
        forall|j: int|
            k <= j < at ==> !(!emitted.contains(#[trigger] found[j]) && ready(
                edges,
                found[j],
                emitted,
            )),
        at < found.len() ==> !emitted.contains(found[at]) && ready(edges, found[at], emitted),
    ensures
        first_ready(edges, found, emitted, k) == at,
    decreases at - k,
{
    if k < at {
        assert(!(!emitted.contains(found[k]) && ready(edges, found[k], emitted)));
        lemma_first_ready(edges, found, emitted, k + 1, at);
    }
}

pub open spec fn count_true(s: Seq<bool>) -> nat
    decreases s.len(),
{
    if s.len() == 0 {
        0
    } else {
        count_true(s.drop_last()) + if s.last() {
            1nat
        } else {
            0nat
        }
    }
}

proof fn lemma_count_bound(s: Seq<bool>)
    ensures
        count_true(s) <= s.len(),
    decreases s.len(),
{
    if s.len() > 0 {
        lemma_count_bound(s.drop_last());
    }
}

proof fn lemma_count_set(s: Seq<bool>, i: int)
    requires
        0 <= i < s.len(),
        !s[i],
    ensures
        count_true(s.update(i, true)) == count_true(s) + 1,
    decreases s.len(),
{
    let t = s.update(i, true);
    if i == s.len() - 1 {
        assert(t.drop_last() == s.drop_last());
    } else {
        assert(t.drop_last() == s.drop_last().update(i, true));
        lemma_count_set(s.drop_last(), i);
    }
}

/// A child of a service below the root is below the root.
pub proof fn lemma_reachable_step(edges: Seq<Edge>, parent: ServiceId, child: ServiceId)
    requires
        reachable(edges, parent),
        has_edge(edges, Node::Service(parent), child),
    ensures
        reachable(edges, child),
{
    let path = choose|path: Seq<ServiceId>| is_root_path(edges, path) && path.last() == parent;
    let longer = path.push(child);
    assert forall|i: int| 0 <= i < longer.len() - 1 implies has_edge(
        edges,
        Node::Service(#[trigger] longer[i]),
        longer[i + 1],
    ) by {
        if i < path.len() - 1 {
            assert(longer[i] == path[i] && longer[i + 1] == path[i + 1]);
        }
    }
    assert(is_root_path(edges, longer) && longer.last() == child);
}

/// A child of the root is below the root.
pub proof fn lemma_reachable_root(edges: Seq<Edge>, child: ServiceId)
    requires
        has_edge(edges, Node::Root, child),
    ensures
        reachable(edges, child),
{
    let path = seq![child];
    assert(is_root_path(edges, path) && path.last() == child);
}

proof fn lemma_closed_path(edges: Seq<Edge>, found: Seq<ServiceId>, path: Seq<ServiceId>, i: int)
    requires
        closed(edges, found),
        is_root_path(edges, path),
        0 <= i < path.len(),
    ensures
        found.contains(path[i]),
    decreases i,
{
    if i == 0 {
        let edge = Edge { parent: Node::Root, child: path[0] };
        let e = choose|e: int| 0 <= e < edges.len() && edges[e] == edge;
        assert(eligible(edges[e], found));
    } else {
        lemma_closed_path(edges, found, path, i - 1);
        let edge = Edge { parent: Node::Service(path[i - 1]), child: path[i] };
        assert(has_edge(edges, Node::Service(path[i - 1]), path[i - 1 + 1]));
        let e = choose|e: int| 0 <= e < edges.len() && edges[e] == edge;
        assert(eligible(edges[e], found));
    }
}

/// Every service of a walk that starts below the root is below the root.
proof fn lemma_walk_reachable(edges: Seq<Edge>, walk: Seq<ServiceId>, i: int)
    requires
        is_walk(edges, walk),
        walk.len() > 0,
        reachable(edges, walk[0]),
        0 <= i < walk.len(),
    ensures
        reachable(edges, walk[i]),
    decreases i,
{
    if i > 0 {
        lemma_walk_reachable(edges, walk, i - 1);
        assert(has_edge(edges, Node::Service(walk[i - 1]), walk[i - 1 + 1]));
        lemma_reachable_step(edges, walk[i - 1], walk[i]);
    }
}

proof fn lemma_walk_descends(edges: Seq<Edge>, order: Seq<ServiceId>, walk: Seq<ServiceId>, i: int)
    requires
        is_topological(edges, order),
        is_walk(edges, walk),
        walk.len() > 0,
        reachable(edges, walk[0]),
        0 <= i < walk.len(),
    ensures
        position(order, walk[i], 0) + i <= position(order, walk[0], 0) < order.len(),
    decreases i,
{
    lemma_walk_reachable(edges, walk, i);
    lemma_walk_reachable(edges, walk, 0);
    lemma_position_contains(order, walk[i]);
    lemma_position_contains(order, walk[0]);
    if i > 0 {
        lemma_walk_descends(edges, order, walk, i - 1);
        lemma_walk_reachable(edges, walk, i - 1);
        lemma_position_contains(order, walk[i - 1]);
        let a = position(order, walk[i - 1], 0);
        let b = position(order, walk[i], 0);
        assert(has_edge(edges, Node::Service(walk[i - 1]), walk[i - 1 + 1]));
        assert(has_edge(edges, Node::Service(order[a]), order[b]));
    }
}

/// Where the services below the root can be put in an order, none of them
/// depends on itself through others.
pub proof fn lemma_topological_acyclic(edges: Seq<Edge>, order: Seq<ServiceId>)
    requires
        is_topological(edges, order),
    ensures
        acyclic(edges),
{
    assert forall|walk: Seq<ServiceId>| !is_cycle(edges, walk) by {
        if is_cycle(edges, walk) {
            lemma_walk_descends(edges, order, walk, walk.len() - 1);
        }
    }
}

fn index_in(v: &Vec<ServiceId>, id: ServiceId) -> (r: Option<usize>)
    ensures
        match r {
            Some(i) => i < v@.len() && v@[i as int] == id,
            None => !v@.contains(id),
        },
{
    let mut i: usize = 0;
    while i < v.len()
        invariant
            i <= v@.len(),
            forall|j: int| 0 <= j < i ==> v@[j] != id,
        decreases v@.len() - i,
    {
        if v[i] == id {
            return Some(i);
        }
        i += 1;
    }
    None
}

fn all_false(n: usize) -> (v: Vec<bool>)
    ensures
        v@.len() == n,
        forall|i: int| 0 <= i < n ==> !v@[i],
        count_true(v@) == 0,
{
    let mut v: Vec<bool> = Vec::new();
    let mut i: usize = 0;
    while i < n
        invariant
            i <= n,
            v@.len() == i,
            forall|j: int| 0 <= j < i ==> !v@[j],
            count_true(v@) == 0,
        decreases n - i,
    {
        proof {
            assert(v@.push(false).drop_last() == v@);
        }
        v.push(false);
        i += 1;
    }
    v
}

/// The edges that were registered, and nothing else.
#[derive(Debug)]
pub struct DepGraph {
    edges: Vec<Edge>,
}

impl DepGraph {
    /// The edges in the order in which they were registered.
    pub closed spec fn view(&self) -> Seq<Edge> {
        self.edges@
    }

    pub fn new() -> (g: Self)
        ensures
            g@ == Seq::<Edge>::empty(),
    {
        DepGraph { edges: Vec::new() }
    }

    /// Records that `parent` depends on `child`.
    pub fn register(&mut self, parent: Node, child: ServiceId)
        ensures
            final(self)@ == old(self)@.push(Edge { parent, child }),
    {
        self.edges.push(Edge { parent, child });
    }

    /// Records that `parent` depends on each of `children`.
    pub fn register_many(&mut self, parent: Node, children: &Vec<ServiceId>)
        ensures
            final(self)@ == old(self)@ + Seq::new(
                children@.len(),
                |i: int| Edge { parent, child: children@[i] },
            ),
    {
        let ghost added = Seq::new(children@.len(), |i: int| Edge { parent, child: children@[i] });
        let mut i: usize = 0;
        while i < children.len()
            invariant
                i <= children@.len(),
                added == Seq::new(children@.len(), |i: int| Edge { parent, child: children@[i] }),
                self@ == old(self)@ + added.subrange(0, i as int),
            decreases children@.len() - i,
        {
            self.edges.push(Edge { parent, child: children[i] });
            proof {
                assert(added.subrange(0, i + 1) == added.subrange(0, i as int).push(
                    added[i as int],
                ));
            }
            i += 1;
        }
        proof {
            assert(added.subrange(0, children@.len() as int) == added);
        }
    }

    pub fn len(&self) -> (n: usize)
        ensures
            n == self@.len(),
    {
        self.edges.len()
    }

    /// Whether the edge from `parent` to `child` was registered.
    pub fn has(&self, parent: Node, child: ServiceId) -> (b: bool)
        ensures
            b == has_edge(self@, parent, child),
    {
        let mut i: usize = 0;
        while i < self.edges.len()
            invariant
                i <= self@.len(),
                forall|j: int| 0 <= j < i ==> self@[j] != (Edge { parent, child }),
            decreases self@.len() - i,
        {
            if self.edges[i].parent == parent && self.edges[i].child == child {
                return true;
            }
            i += 1;
        }
        false
    }

    fn is_eligible(&self, e: usize, found: &Vec<ServiceId>) -> (b: bool)
        requires
            e < self@.len(),
        ensures
            b == eligible(self@[e as int], found@),
    {
        match self.edges[e].parent {
            Node::Root => true,
            Node::Service(p) => index_in(found, p).is_some(),
        }
    }

    /// An edge that is not marked yet and whose parent is the root or found.
    fn next_edge(&self, marks: &Vec<bool>, found: &Vec<ServiceId>) -> (r: Option<usize>)
        requires
            marks@.len() == self@.len(),
        ensures
            match r {
                Some(e) => {
                    &&& e < self@.len()
                    &&& !marks@[e as int]
                    &&& eligible(self@[e as int], found@)
                    &&& forall|k: int|
                        0 <= k < e && !marks@[k] ==> !eligible(#[trigger] self@[k], found@)
                },
                None => forall|e: int|
                    0 <= e < self@.len() && !marks@[e] ==> !eligible(#[trigger] self@[e], found@),
            },
    {
        let mut e: usize = 0;
        while e < self.edges.len()
            invariant
                e <= self@.len(),
                marks@.len() == self@.len(),
                forall|k: int| 0 <= k < e && !marks@[k] ==> !eligible(#[trigger] self@[k], found@),
            decreases self@.len() - e,
        {
            if !marks[e] && self.is_eligible(e, found) {
                return Some(e);
            }
            e += 1;
        }
        None
    }

    /// The services below the root, each once, in the order in which they
    /// are discovered.
    fn reach(&self) -> (found: Vec<ServiceId>)
        ensures
            found@.no_duplicates(),
            closed(self@, found@),
            forall|id: ServiceId| found@.contains(id) <==> reachable(self@, id),
            found@ == discovered(self@),
    {
        let mut found: Vec<ServiceId> = Vec::new();
        let mut marks = all_false(self.edges.len());
        loop
            invariant_except_break
                marks@.len() == self@.len(),
                found@.no_duplicates(),
                forall|k: int| 0 <= k < found@.len() ==> reachable(self@, #[trigger] found@[k]),
                forall|e: int|
                    0 <= e < self@.len() && marks@[e] ==> found@.contains(
                        (#[trigger] self@[e]).child,
                    ),
                found@.len() <= count_true(marks@),
                grow(self@, found@) == discovered(self@),
            ensures
                found@.no_duplicates(),
                forall|k: int| 0 <= k < found@.len() ==> reachable(self@, #[trigger] found@[k]),
                closed(self@, found@),
                found@ == discovered(self@),
            decreases self@.len() - count_true(marks@),
        {
            let next = self.next_edge(&marks, &found);
            match next {
                None => {
                    proof {
                        assert forall|j: int| 0 <= j < self@.len() implies !(eligible(
                            #[trigger] self@[j],
                            found@,
                        ) && !found@.contains(self@[j].child)) by {
                            if eligible(self@[j], found@) {
                                assert(marks@[j]);
                            }
                        }
                        lemma_first_new(self@, found@, 0, self@.len() as int);
                    }
                    break ;
                },
                Some(e) => {
                    let edge = self.edges[e];
                    proof {
                        lemma_count_set(marks@, e as int);
                        lemma_count_bound(marks@.update(e as int, true));
                        if !found@.contains(edge.child) {
                            assert forall|j: int| 0 <= j < e implies !(eligible(
                                #[trigger] self@[j],
                                found@,
                            ) && !found@.contains(self@[j].child)) by {
                                if eligible(self@[j], found@) {
                                    assert(marks@[j]);
                                }
                            }
                            lemma_first_new(self@, found@, 0, e as int);
                            assert(grow(self@, found@) == grow(self@, found@.push(edge.child)));
                        }
                        assert(self@.contains(edge));
                        match edge.parent {
                            Node::Root => {
                                lemma_reachable_root(self@, edge.child);
                            },
                            Node::Service(p) => {
                                lemma_reachable_step(self@, p, edge.child);
                            },
                        }
                    }
                    marks.set(e, true);
                    let ghost before = found@;
                    if index_in(&found, edge.child).is_none() {
                        found.push(edge.child);
                    }
                    proof {
                        assert forall|x: ServiceId| before.contains(x) implies found@.contains(
                            x,
                        ) by {
                            let k = choose|k: int| 0 <= k < before.len() && before[k] == x;
                            assert(found@[k] == x);
                        }
                        if found@.len() > before.len() {
                            assert(found@[before.len() as int] == edge.child);
                        }
                        assert(found@.contains(edge.child));
                    }
                },
            }
        }
        proof {
            assert forall|id: ServiceId| found@.contains(id) <==> reachable(self@, id) by {
                if reachable(self@, id) {
                    let path = choose|path: Seq<ServiceId>|
                        is_root_path(self@, path) && path.last() == id;
                    lemma_closed_path(self@, found@, path, path.len() - 1);
                }
            }
        }
        found
    }

    /// An edge from `id` to a service that is not among `emitted`.
    fn blocking_edge(&self, id: ServiceId, emitted: &Vec<ServiceId>) -> (r: Option<usize>)
        ensures
            match r {
                Some(e) => {
                    &&& e < self@.len()
                    &&& self@[e as int].parent == Node::Service(id)
                    &&& !emitted@.contains(self@[e as int].child)
                },
                None => ready(self@, id, emitted@),
            },
    {
        let mut e: usize = 0;
        while e < self.edges.len()
            invariant
                e <= self@.len(),
                forall|k: int|
                    0 <= k < e && (#[trigger] self@[k]).parent == Node::Service(id)
                        ==> emitted@.contains(self@[k].child),
            decreases self@.len() - e,
        {
            if self.edges[e].parent == Node::Service(id) && index_in(
                emitted,
                self.edges[e].child,
            ).is_none() {
                return Some(e);
            }
            e += 1;
        }
        None
    }

    /// A service of `found` that is not done and depends on emitted services
    /// only.
    fn next_ready(&self, found: &Vec<ServiceId>, done: &Vec<bool>, emitted: &Vec<ServiceId>) -> (r:
        Option<usize>)
        requires
            done@.len() == found@.len(),
        ensures
            match r {
                Some(k) => {
                    &&& k < found@.len()
                    &&& !done@[k as int]
                    &&& ready(self@, found@[k as int], emitted@)
                    &&& forall|j: int|
                        0 <= j < k && !done@[j] ==> !ready(self@, #[trigger] found@[j], emitted@)
                },
                None => forall|k: int|
                    0 <= k < found@.len() && !done@[k] ==> !ready(
                        self@,
                        #[trigger] found@[k],
                        emitted@,
                    ),
            },
    {
        let mut k: usize = 0;
        while k < found.len()
            invariant
                k <= found@.len(),
                done@.len() == found@.len(),
                forall|j: int|
                    0 <= j < k && !done@[j] ==> !ready(self@, #[trigger] found@[j], emitted@),
            decreases found@.len() - k,
        {
            if !done[k] && self.blocking_edge(found[k], emitted).is_none() {
                return Some(k);
            }
            k += 1;
        }
        None
    }

    /// Walks from a service that cannot be emitted to one that blocks it, and
    /// on, until the walk comes back to a service it has seen.
    fn find_cycle(
        &self,
        found: &Vec<ServiceId>,
        done: &Vec<bool>,
        emitted: &Vec<ServiceId>,
        start: usize,
    ) -> (cycle: Vec<ServiceId>)
        requires
            done@.len() == found@.len(),
            start < found@.len(),
            !done@[start as int],
            closed(self@, found@),
            forall|id: ServiceId| found@.contains(id) <==> reachable(self@, id),
            forall|k: int| 0 <= k < found@.len() ==> (done@[k] <==> emitted@.contains(found@[k])),
            forall|k: int|
                0 <= k < found@.len() && !done@[k] ==> !ready(self@, #[trigger] found@[k], emitted@),
        ensures
            is_cycle(self@, cycle@),
    {
        let mut walk: Vec<ServiceId> = Vec::new();
        let mut seen = all_false(found.len());
        let mut cur = start;
        loop
            invariant_except_break
                done@.len() == found@.len(),
                seen@.len() == found@.len(),
                cur < found@.len(),
                !done@[cur as int],
                closed(self@, found@),
                forall|id: ServiceId| found@.contains(id) <==> reachable(self@, id),
                forall|k: int|
                    0 <= k < found@.len() ==> (done@[k] <==> emitted@.contains(found@[k])),
                forall|k: int|
                    0 <= k < found@.len() && !done@[k] ==> !ready(
                        self@,
                        #[trigger] found@[k],
                        emitted@,
                    ),
                is_walk(self@, walk@),
                walk@.len() > 0 ==> has_edge(
                    self@,
                    Node::Service(walk@.last()),
                    found@[cur as int],
                ),
                forall|k: int| 0 <= k < found@.len() && seen@[k] ==> walk@.contains(found@[k]),
            ensures
                is_cycle(self@, walk@),
            decreases found@.len() - count_true(seen@),
        {
            let here = found[cur];
            if seen[cur] {
                let p = index_in(&walk, here);
                let ghost whole = walk@;
                let from = match p {
                    Some(p) => p,
                    None => 0,
                };
                let mut cycle: Vec<ServiceId> = Vec::new();
                let mut i: usize = from;
                while i < walk.len()
                    invariant
                        from <= i <= walk@.len(),
                        cycle@ == walk@.subrange(from as int, i as int),
                    decreases walk@.len() - i,
                {
                    cycle.push(walk[i]);
                    proof {
                        assert(walk@.subrange(from as int, i + 1) == walk@.subrange(
                            from as int,
                            i as int,
                        ).push(walk@[i as int]));
                    }
                    i += 1;
                }
                cycle.push(here);
                proof {
                    let c = cycle@;
                    assert(c.len() == whole.len() - from + 1);
                    assert(c[0] == whole[from as int]);
                    assert forall|i: int| 0 <= i < c.len() - 1 implies has_edge(
                        self@,
                        Node::Service(#[trigger] c[i]),
                        c[i + 1],
                    ) by {
                        assert(c[i] == whole[from + i]);
                        if i < c.len() - 2 {
                            assert(c[i + 1] == whole[from + i + 1]);
                        }
                    }
                    assert(found@.contains(here));
                }
                walk = cycle;
                break ;
            }
            proof {
                lemma_count_set(seen@, cur as int);
                lemma_count_bound(seen@.update(cur as int, true));
            }
            seen.set(cur, true);
            let ghost before = walk@;
            walk.push(here);
            let blocking = self.blocking_edge(here, emitted);
            let e = match blocking {
                Some(e) => e,
                None => 0,
            };
            assert(blocking is Some);
            let child = self.edges[e].child;
            proof {
                assert(found@.contains(here));
                assert(eligible(self@[e as int], found@));
                assert(found@.contains(child));
                assert(self@.contains(self@[e as int]));
            }
            let next = index_in(found, child);
            let k = match next {
                Some(k) => k,
                None => 0,
            };
            proof {
                assert forall|i: int| 0 <= i < walk@.len() - 1 implies has_edge(
                    self@,
                    Node::Service(#[trigger] walk@[i]),
                    walk@[i + 1],
                ) by {
                    if i < before.len() - 1 {
                        assert(walk@[i] == before[i] && walk@[i + 1] == before[i + 1]);
                    } else {
                        assert(walk@[i] == before.last());
                    }
                }
                assert forall|j: int| 0 <= j < found@.len() && seen@[j] implies walk@.contains(
                    found@[j],
                ) by {
                    if j == cur {
                        assert(walk@[before.len() as int] == here);
                    } else {
                        let w = choose|w: int| 0 <= w < before.len() && before[w] == found@[j];
                        assert(walk@[w] == found@[j]);
                    }
                }
            }
            cur = k;
        }
        walk
    }

    /// The services below the root, each once and after all the services it
    /// depends on. Services that depend on each other in a circle have no
    /// such order: the circle is handed back in its place.
    pub fn topological_order(&self) -> (r: Result<Vec<ServiceId>, GraphError>)
        ensures
            match r {
                Ok(order) => is_topological(self@, order@) && order@ == build_order(self@),
                Err(GraphError::Cycle(walk)) => is_cycle(self@, walk@),
            },
            r is Ok <==> acyclic(self@),
    {
        let found = self.reach();
        let mut done = all_false(found.len());
        let mut emitted: Vec<ServiceId> = Vec::new();
        loop
            invariant_except_break
                done@.len() == found@.len(),
                emitted@.no_duplicates(),
                forall|k: int|
                    0 <= k < found@.len() ==> (done@[k] <==> emitted@.contains(found@[k])),
                forall|i: int| 0 <= i < emitted@.len() ==> found@.contains(#[trigger] emitted@[i]),
                forall|i: int, e: int|
                    0 <= i < emitted@.len() && 0 <= e < self@.len() && (#[trigger] self@[e]).parent
                        == Node::Service(#[trigger] emitted@[i]) ==> emitted@.subrange(
                        0,
                        i,
                    ).contains(self@[e].child),
                emitted@.len() == count_true(done@),
                emit(self@, found@, emitted@) == emit(self@, found@, Seq::empty()),
            invariant
                found@.no_duplicates(),
                closed(self@, found@),
                forall|id: ServiceId| found@.contains(id) <==> reachable(self@, id),
            ensures
                emitted@ == emit(self@, found@, Seq::empty()),
                done@.len() == found@.len(),
                emitted@.no_duplicates(),
                forall|k: int|
                    0 <= k < found@.len() ==> (done@[k] <==> emitted@.contains(found@[k])),
                forall|i: int| 0 <= i < emitted@.len() ==> found@.contains(#[trigger] emitted@[i]),
                forall|i: int, e: int|
                    0 <= i < emitted@.len() && 0 <= e < self@.len() && (#[trigger] self@[e]).parent
                        == Node::Service(#[trigger] emitted@[i]) ==> emitted@.subrange(
                        0,
                        i,
                    ).contains(self@[e].child),
                forall|k: int|
                    0 <= k < found@.len() && !done@[k] ==> !ready(
                        self@,
                        #[trigger] found@[k],
                        emitted@,
                    ),
            decreases found@.len() - count_true(done@),
        {
            let next = self.next_ready(&found, &done, &emitted);
            match next {
                None => {
                    proof {
                        lemma_first_ready(self@, found@, emitted@, 0, found@.len() as int);
                    }
                    break ;
                },
                Some(k) => {
                    let id = found[k];
                    let ghost before = emitted@;
                    proof {
                        lemma_count_set(done@, k as int);
                        lemma_count_bound(done@.update(k as int, true));
                        lemma_first_ready(self@, found@, emitted@, 0, k as int);
                        assert(emit(self@, found@, before) == emit(self@, found@, before.push(id)));
                    }
                    done.set(k, true);
                    emitted.push(id);
                    proof {
                        assert(emitted@.subrange(0, before.len() as int) == before);
                        assert forall|x: ServiceId| before.contains(x) implies emitted@.contains(
                            x,
                        ) by {
                            let w = choose|w: int| 0 <= w < before.len() && before[w] == x;
                            assert(emitted@[w] == x);
                        }
                        assert(emitted@[before.len() as int] == id);
                        assert forall|j: int| 0 <= j < found@.len() implies (done@[j]
                            <==> emitted@.contains(found@[j])) by {
                            if j != k && emitted@.contains(found@[j]) {
                                let w = choose|w: int|
                                    0 <= w < emitted@.len() && emitted@[w] == found@[j];
                                if w < before.len() {
                                    assert(before[w] == found@[j]);
                                }
                            }
                        }
                        assert forall|i: int, e: int|
                            0 <= i < emitted@.len() && 0 <= e < self@.len() && (
                            #[trigger] self@[e]).parent == Node::Service(
                                #[trigger] emitted@[i],
                            ) implies emitted@.subrange(0, i).contains(self@[e].child) by {
                            if i < before.len() {
                                assert(emitted@[i] == before[i]);
                                assert(emitted@.subrange(0, i) == before.subrange(0, i));
                            }
                        }
                    }
                },
            }
        }
        let mut k: usize = 0;
        #[verifier::loop_isolation(false)]
        while k < found.len()
            invariant
                k <= found@.len(),
                done@.len() == found@.len(),
                forall|j: int| 0 <= j < k ==> done@[j],
            decreases found@.len() - k,
        {
            if !done[k] {
                let cycle = self.find_cycle(&found, &done, &emitted, k);
                proof {
                    assert(!acyclic(self@));
                }
                return Err(GraphError::Cycle(cycle));
            }
            k += 1;
        }
        proof {
            let order = emitted@;
            assert forall|id: ServiceId| order.contains(id) <==> reachable(self@, id) by {
                if reachable(self@, id) {
                    let j = choose|j: int| 0 <= j < found@.len() && found@[j] == id;
                    assert(done@[j]);
                }
                if order.contains(id) {
                    let i = choose|i: int| 0 <= i < order.len() && order[i] == id;
                    assert(found@.contains(order[i]));
                }
            }
            assert forall|i: int, j: int|
                0 <= i < order.len() && 0 <= j < order.len() && has_edge(
                    self@,
                    Node::Service(#[trigger] order[i]),
                    #[trigger] order[j],
                ) implies j < i by {
                let edge = Edge { parent: Node::Service(order[i]), child: order[j] };
                let e = choose|e: int| 0 <= e < self@.len() && self@[e] == edge;
                assert(self@[e].parent == Node::Service(order[i]));
                let early = order.subrange(0, i);
                assert(early.contains(order[j]));
                let w = choose|w: int| 0 <= w < early.len() && early[w] == order[j];
                assert(order[w] == order[j]);
            }
            lemma_topological_acyclic(self@, order);
        }
        Ok(emitted)
    }
}

} // verus!
