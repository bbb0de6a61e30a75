//! Walks through a graph, and what a breadth-first search knows while it
//! runs.

use vstd::prelude::*;

verus! {

/// A star, by its three coordinates.
pub type Vertex = (i32, i32, i32);

/// A graph, as contracts see it: for each star that portals leave from, the
/// stars they lead to, in the order in which the portals were added.
pub type Graph = Map<Vertex, Seq<Vertex>>;

/// The stars that the portals from `v` lead to.
pub open spec fn neighbors(g: Graph, v: Vertex) -> Seq<Vertex> {
    if g.contains_key(v) {
        g[v]
    } else {
        Seq::empty()
    }
}

/// Whether a portal leads from `a` to `b`.
pub open spec fn is_edge(g: Graph, a: Vertex, b: Vertex) -> bool {
    neighbors(g, a).contains(b)
}

/// Whether a portal leads from the star at `i` of `p` to the next one.
pub open spec fn hop(g: Graph, p: Seq<Vertex>, i: int) -> bool {
    is_edge(g, p[i], p[i + 1])
}

/// Whether `p` is a way through the graph: at least one star, and a portal
/// from each star to the next.
pub open spec fn is_walk(g: Graph, p: Seq<Vertex>) -> bool {
    &&& p.len() > 0
    &&& forall|i: int| 0 <= i < p.len() - 1 ==> #[trigger] hop(g, p, i)
}

/// Whether `p` is a way through the graph from `a` to `b`.
pub open spec fn connects(g: Graph, p: Seq<Vertex>, a: Vertex, b: Vertex) -> bool {
    &&& is_walk(g, p)
    &&& p[0] == a
    &&& p.last() == b
}

/// Whether `p` is a way from `a` to `b` with the fewest portals.
pub open spec fn is_shortest(g: Graph, p: Seq<Vertex>, a: Vertex, b: Vertex) -> bool {
    &&& connects(g, p, a, b)
    &&& forall|q: Seq<Vertex>| #[trigger] connects(g, q, a, b) ==> p.len() <= q.len()
}

/// A way stays a way when a portal from its last star is added.
pub proof fn walk_extends(g: Graph, p: Seq<Vertex>, w: Vertex)
    requires
        is_walk(g, p),
        is_edge(g, p.last(), w),
    ensures
        is_walk(g, p.push(w)),
        p.push(w)[0] == p[0],
        p.push(w).last() == w,
{
    let longer = p.push(w);
    assert forall|i: int| 0 <= i < longer.len() - 1 implies #[trigger] hop(g, longer, i) by {
        if i < p.len() - 1 {
            assert(hop(g, p, i));
        }
    }
}

/// A way of more than one star is a shorter way and one more portal.
pub proof fn walk_shrinks(g: Graph, p: Seq<Vertex>)
    requires
        is_walk(g, p),
        p.len() > 1,
    ensures
        is_walk(g, p.drop_last()),
        p.drop_last()[0] == p[0],
        is_edge(g, p.drop_last().last(), p.last()),
{
    let shorter = p.drop_last();
    assert forall|i: int| 0 <= i < shorter.len() - 1 implies #[trigger] hop(g, shorter, i) by {
        assert(hop(g, p, i));
    }
    assert(hop(g, p, p.len() - 2));
}

} // verus!
