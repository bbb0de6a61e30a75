//! The breadth-first search, step by step, and the proof that the way it
//! comes to has the fewest portals.

use vstd::prelude::*;
use crate::rocket::walk::connects;
use crate::rocket::walk::is_edge;
use crate::rocket::walk::is_shortest;
use crate::rocket::walk::is_walk;
use crate::rocket::walk::neighbors;
use crate::rocket::walk::walk_extends;
use crate::rocket::walk::walk_shrinks;
use crate::rocket::walk::Graph;
use crate::rocket::walk::Vertex;

verus! {

/// A star that waits to be looked at, with the way that led to it.
pub struct Pending {
    pub vertex: Vertex,
    pub path: Seq<Vertex>,
}

/// Whether `p` is a way through the graph that begins at `start`.
spec fn from_start(g: Graph, start: Vertex, p: Seq<Vertex>) -> bool {
    is_walk(g, p) && p[0] == start
}

/// Every way in the queue leads from `start` to its star; the ways stand in
/// the order of their length, and none is longer than the first by more
/// than one star.
spec fn queue_ok(g: Graph, start: Vertex, queue: Seq<Pending>) -> bool {
    &&& forall|i: int|
        0 <= i < queue.len() ==> connects(g, (#[trigger] queue[i]).path, start, queue[i].vertex)
    &&& forall|i: int, j: int|
        0 <= i <= j < queue.len() ==> (#[trigger] queue[i]).path.len() <= (
        #[trigger] queue[j]).path.len()
    &&& forall|i: int|
        0 <= i < queue.len() ==> (#[trigger] queue[i]).path.len() <= queue[0].path.len() + 1
}

/// Whether `w` waits in the queue with a way of at most `bound` stars.
spec fn queued(queue: Seq<Pending>, w: Vertex, bound: nat) -> bool {
    exists|i: int|
        0 <= i < queue.len() && (#[trigger] queue[i]).vertex == w && queue[i].path.len() <= bound
}

/// Every star that a way of fewer than `depth` stars leads to has been
/// looked at.
spec fn near(g: Graph, start: Vertex, seen: Set<Vertex>, depth: nat) -> bool {
    forall|p: Seq<Vertex>| #[trigger]
        from_start(g, start, p) && p.len() < depth ==> seen.contains(p.last())
}

/// Every star one portal away from a star that has been looked at has been
/// looked at too, or waits in the queue with a way one star longer.
spec fn covered(
    g: Graph,
    seen: Set<Vertex>,
    level: Map<Vertex, nat>,
    queue: Seq<Pending>,
) -> bool {
    forall|u: Vertex, w: Vertex|
        seen.contains(u) && #[trigger] is_edge(g, u, w) ==> seen.contains(w) || queued(
            queue,
            w,
            level[u] + 1,
        )
}

/// No way to a star that has been looked at is shorter than the way that
/// the star was found with.
spec fn least(g: Graph, start: Vertex, seen: Set<Vertex>, level: Map<Vertex, nat>) -> bool {
    forall|p: Seq<Vertex>| #[trigger]
        from_start(g, start, p) && seen.contains(p.last()) ==> level[p.last()] <= p.len()
}

/// The queue at the start of a search.
pub open spec fn first_queue(start: Vertex) -> Seq<Pending> {
    seq![Pending { vertex: start, path: seq![start] }]
}

/// What a search from `start` for `end` knows between two steps.
spec fn search_inv(
    g: Graph,
    start: Vertex,
    end: Vertex,
    seen: Set<Vertex>,
    level: Map<Vertex, nat>,
    queue: Seq<Pending>,
    depth: nat,
) -> bool {
    &&& queue_ok(g, start, queue)
    &&& queue.len() > 0 ==> queue[0].path.len() == depth
    &&& near(g, start, seen, depth)
    &&& covered(g, seen, level, queue)
    &&& least(g, start, seen, level)
    &&& !seen.contains(end)
    &&& seen.contains(start) || queue == first_queue(start)
}

/// The depth that goes with a queue: the length of its first way, or the
/// depth so far if it is empty.
spec fn depth_of(queue: Seq<Pending>, depth: nat) -> nat {
    if queue.len() > 0 {
        queue[0].path.len()
    } else {
        depth
    }
}

/// What a search puts at the end of its queue when it has looked at the
/// last star of `path`: that way and one portal more, for each star in
/// `targets` that has not been looked at, in the order of `targets`.
pub open spec fn children(path: Seq<Vertex>, targets: Seq<Vertex>, seen: Set<Vertex>) -> Seq<
    Pending,
>
    decreases targets.len(),
{
    if targets.len() == 0 {
        Seq::empty()
    } else {
        let before = children(path, targets.drop_last(), seen);
        if seen.contains(targets.last()) {
            before
        } else {
            before.push(Pending { vertex: targets.last(), path: path.push(targets.last()) })
        }
    }
}

/// The way that a search comes to, from a queue and the stars that it has
/// looked at. It takes the first star of the queue: passes it over if it
/// was looked at before, ends with its way if it is the star looked for,
/// and else marks it and puts the stars one portal away at the end of the
/// queue. An empty queue ends the search without a way.
pub open spec fn search(g: Graph, queue: Seq<Pending>, seen: Set<Vertex>, end: Vertex) -> Option<
    Seq<Vertex>,
>
    decreases g.dom().difference(seen).len(), queue.len(),
    when g.dom().finite()
    via search_decreases
{
    if queue.len() == 0 {
        None
    } else if seen.contains(queue[0].vertex) {
        search(g, queue.drop_first(), seen, end)
    } else if queue[0].vertex == end {
        Some(queue[0].path)
    } else {
        let wider = seen.insert(queue[0].vertex);
        search(
            g,
            queue.drop_first() + children(queue[0].path, neighbors(g, queue[0].vertex), wider),
            wider,
            end,
        )
    }
}

#[via_fn]
proof fn search_decreases(g: Graph, queue: Seq<Pending>, seen: Set<Vertex>, end: Vertex) {
    if queue.len() > 0 && !seen.contains(queue[0].vertex) && queue[0].vertex != end {
        let v = queue[0].vertex;
        let wider = seen.insert(v);
        if g.dom().contains(v) {
            assert(g.dom().difference(wider) =~= g.dom().difference(seen).remove(v));
        } else {
            assert(g.dom().difference(wider) =~= g.dom().difference(seen));
            assert(neighbors(g, v).len() == 0);
        }
    }
}

/// The way that a breadth-first search from `start` comes to when it looks
/// for `end`, with the stars one portal away from a star taken in the order
/// in which the portals were added.
pub open spec fn breadth_first(g: Graph, start: Vertex, end: Vertex) -> Option<Seq<Vertex>> {
    search(g, first_queue(start), Set::empty(), end)
}

/// A search begins in a state that it can work from.
proof fn search_begins(g: Graph, start: Vertex, end: Vertex, level: Map<Vertex, nat>)
    ensures
        search_inv(g, start, end, Set::empty(), level, first_queue(start), 1),
{
    let queue = first_queue(start);
    assert(queue[0].path =~= seq![start]);
    assert(connects(g, queue[0].path, start, start));
}

/// Once the ways of `d` stars in the queue are used up, every star that a
/// way of `d` stars leads to has been looked at.
proof fn level_done(
    g: Graph,
    start: Vertex,
    seen: Set<Vertex>,
    wider: Set<Vertex>,
    level: Map<Vertex, nat>,
    queue: Seq<Pending>,
    d: nat,
)
    requires
        queue_ok(g, start, queue),
        queue.len() > 0,
        queue[0].path.len() == d,
        near(g, start, seen, d),
        covered(g, seen, level, queue),
        least(g, start, seen, level),
        seen.contains(start) || queue == first_queue(start),
        forall|v: Vertex| seen.contains(v) ==> wider.contains(v),
        wider.contains(queue[0].vertex),
        forall|i: int| 1 <= i < queue.len() ==> (#[trigger] queue[i]).path.len() > d,
    ensures
        near(g, start, wider, d + 1),
{
    assert forall|p: Seq<Vertex>| #[trigger]
        from_start(g, start, p) && p.len() < d + 1 implies wider.contains(p.last()) by {
        if p.len() < d {
            assert(seen.contains(p.last()));
        } else if p.len() == 1 {
            assert(p.last() == start);
            if !seen.contains(start) {
                assert(queue[0].vertex == start);
            }
        } else {
            let shorter = p.drop_last();
            walk_shrinks(g, p);
            assert(from_start(g, start, shorter));
            let u = shorter.last();
            let w = p.last();
            assert(seen.contains(u));
            assert(is_edge(g, u, w));
            assert(level[u] <= shorter.len());
            if !seen.contains(w) {
                assert(queued(queue, w, level[u] + 1));
                let i = choose|i: int|
                    0 <= i < queue.len() && (#[trigger] queue[i]).vertex == w
                        && queue[i].path.len() <= level[u] + 1;
                assert(queue[i].path.len() <= d);
                assert(i == 0);
            }
        }
    }
}

/// The first star in the queue was looked at before: the search drops it
/// and goes on.
proof fn search_skips(
    g: Graph,
    start: Vertex,
    end: Vertex,
    seen: Set<Vertex>,
    level: Map<Vertex, nat>,
    queue: Seq<Pending>,
    depth: nat,
)
    requires
        search_inv(g, start, end, seen, level, queue, depth),
        queue.len() > 0,
        seen.contains(queue[0].vertex),
    ensures
        search_inv(
            g,
            start,
            end,
            seen,
            level,
            queue.drop_first(),
            depth_of(queue.drop_first(), depth),
        ),
{
    let rest = queue.drop_first();
    let deeper = depth_of(rest, depth);
    assert forall|i: int| 0 <= i < rest.len() implies connects(
        g,
        (#[trigger] rest[i]).path,
        start,
        rest[i].vertex,
    ) by {
        assert(rest[i] == queue[i + 1]);
    }
    assert forall|i: int, j: int| 0 <= i <= j < rest.len() implies (#[trigger] rest[i]).path.len()
        <= (#[trigger] rest[j]).path.len() by {
        assert(rest[i] == queue[i + 1]);
        assert(rest[j] == queue[j + 1]);
    }
    assert forall|i: int| 0 <= i < rest.len() implies (#[trigger] rest[i]).path.len()
        <= rest[0].path.len() + 1 by {
        assert(rest[i] == queue[i + 1]);
        assert(rest[0] == queue[1]);
        assert(queue[0].path.len() <= queue[1].path.len());
    }
    if rest.len() > 0 {
        assert(rest[0] == queue[1]);
        assert(queue[0].path.len() <= queue[1].path.len());
        assert(queue[1].path.len() <= queue[0].path.len() + 1);
        if deeper != depth {
            assert forall|i: int| 1 <= i < queue.len() implies (#[trigger] queue[i]).path.len()
                > depth by {
                assert(queue[1].path.len() <= queue[i].path.len());
            }
            level_done(g, start, seen, seen, level, queue, depth);
        }
    }
    assert forall|u: Vertex, w: Vertex|
        seen.contains(u) && #[trigger] is_edge(g, u, w) implies seen.contains(w) || queued(
        rest,
        w,
        level[u] + 1,
    ) by {
        if !seen.contains(w) {
            let i = choose|i: int|
                0 <= i < queue.len() && (#[trigger] queue[i]).vertex == w && queue[i].path.len()
                    <= level[u] + 1;
            assert(i != 0);
            assert(rest[i - 1] == queue[i]);
        }
    }
    if !seen.contains(start) {
        assert(queue[0].vertex == start);
    }
}

/// No way to the first star in the queue is shorter than the way that the
/// queue holds for it, if the star was not looked at before.
proof fn front_is_shortest(
    g: Graph,
    start: Vertex,
    end: Vertex,
    seen: Set<Vertex>,
    level: Map<Vertex, nat>,
    queue: Seq<Pending>,
    depth: nat,
)
    requires
        search_inv(g, start, end, seen, level, queue, depth),
        queue.len() > 0,
        !seen.contains(queue[0].vertex),
    ensures
        connects(g, queue[0].path, start, queue[0].vertex),
        forall|p: Seq<Vertex>| #[trigger]
            connects(g, p, start, queue[0].vertex) ==> queue[0].path.len() <= p.len(),
{
    assert forall|p: Seq<Vertex>| #[trigger]
        connects(g, p, start, queue[0].vertex) implies queue[0].path.len() <= p.len() by {
        if p.len() < depth {
            assert(from_start(g, start, p));
        }
    }
}

/// The first star in the queue is new and is not the one looked for: the
/// search marks it and puts the stars one portal away, as far as they are
/// new, at the end of the queue.
proof fn search_visits(
    g: Graph,
    start: Vertex,
    end: Vertex,
    seen: Set<Vertex>,
    level: Map<Vertex, nat>,
    queue: Seq<Pending>,
    depth: nat,
    added: Seq<Pending>,
)
    requires
        search_inv(g, start, end, seen, level, queue, depth),
        queue.len() > 0,
        !seen.contains(queue[0].vertex),
        queue[0].vertex != end,
        forall|k: int|
            0 <= k < added.len() ==> is_edge(g, queue[0].vertex, (#[trigger] added[k]).vertex)
                && added[k].path == queue[0].path.push(added[k].vertex),
        forall|w: Vertex| #[trigger]
            is_edge(g, queue[0].vertex, w) ==> seen.insert(queue[0].vertex).contains(w)
                || exists|k: int| 0 <= k < added.len() && (#[trigger] added[k]).vertex == w,
    ensures
        search_inv(
            g,
            start,
            end,
            seen.insert(queue[0].vertex),
            level.insert(queue[0].vertex, depth),
            queue.drop_first() + added,
            depth_of(queue.drop_first() + added, depth),
        ),
{
    let v = queue[0].vertex;
    let wider = seen.insert(v);
    let marked = level.insert(v, depth);
    let rest = queue.drop_first();
    let next = rest + added;
    let deeper = depth_of(next, depth);
    front_is_shortest(g, start, end, seen, level, queue, depth);
    assert forall|i: int| 0 <= i < next.len() implies connects(
        g,
        (#[trigger] next[i]).path,
        start,
        next[i].vertex,
    ) && depth <= next[i].path.len() <= depth + 1 by {
        if i < rest.len() {
            assert(next[i] == queue[i + 1]);
            assert(queue[0].path.len() <= queue[i + 1].path.len());
        } else {
            let k = i - rest.len();
            assert(next[i] == added[k]);
            walk_extends(g, queue[0].path, added[k].vertex);
        }
    }
    assert forall|i: int, j: int| 0 <= i <= j < next.len() implies (#[trigger] next[i]).path.len()
        <= (#[trigger] next[j]).path.len() by {
        if j < rest.len() {
            assert(next[i] == queue[i + 1]);
            assert(next[j] == queue[j + 1]);
        } else {
            assert(next[j] == added[j - rest.len()]);
            assert(next[j].path.len() == depth + 1);
        }
    }
    assert forall|i: int| 0 <= i < next.len() implies (#[trigger] next[i]).path.len()
        <= next[0].path.len() + 1 by {
        assert(depth <= next[0].path.len());
    }
    if next.len() > 0 && deeper != depth {
        assert(next[0].path.len() == depth + 1);
        assert forall|i: int| 1 <= i < queue.len() implies (#[trigger] queue[i]).path.len()
            > depth by {
            assert(next[0] == queue[1]);
            assert(queue[1].path.len() <= queue[i].path.len());
        }
        level_done(g, start, seen, wider, level, queue, depth);
    }
    assert(near(g, start, wider, deeper));
    assert forall|u: Vertex, w: Vertex|
        wider.contains(u) && #[trigger] is_edge(g, u, w) implies wider.contains(w) || queued(
        next,
        w,
        marked[u] + 1,
    ) by {
        if !wider.contains(w) {
            if u == v {
                let k = choose|k: int| 0 <= k < added.len() && (#[trigger] added[k]).vertex == w;
                assert(next[rest.len() + k] == added[k]);
            } else {
                assert(queued(queue, w, level[u] + 1));
                let i = choose|i: int|
                    0 <= i < queue.len() && (#[trigger] queue[i]).vertex == w
                        && queue[i].path.len() <= level[u] + 1;
                assert(i != 0);
                assert(next[i - 1] == queue[i]);
            }
        }
    }
    assert forall|p: Seq<Vertex>| #[trigger]
        from_start(g, start, p) && wider.contains(p.last()) implies marked[p.last()]
        <= p.len() by {
        if p.last() == v {
            assert(connects(g, p, start, v));
        }
    }
    if !seen.contains(start) {
        assert(queue[0].vertex == start);
    }
}

/// Every star that can be reached from `start` has been looked at, once
/// every star one portal away from such a star has been.
proof fn all_seen(g: Graph, start: Vertex, seen: Set<Vertex>, p: Seq<Vertex>)
    requires
        seen.contains(start),
        forall|u: Vertex, w: Vertex|
            seen.contains(u) && #[trigger] is_edge(g, u, w) ==> seen.contains(w),
        from_start(g, start, p),
    ensures
        seen.contains(p.last()),
    decreases p.len(),
{
    if p.len() > 1 {
        walk_shrinks(g, p);
        all_seen(g, start, seen, p.drop_last());
    }
}

/// The queue is empty: no way leads from `start` to `end`.
proof fn search_ends(
    g: Graph,
    start: Vertex,
    end: Vertex,
    seen: Set<Vertex>,
    level: Map<Vertex, nat>,
    queue: Seq<Pending>,
    depth: nat,
)
    requires
        search_inv(g, start, end, seen, level, queue, depth),
        queue.len() == 0,
    ensures
        forall|p: Seq<Vertex>| !connects(g, p, start, end),
{
    assert(queue != first_queue(start));
    assert forall|p: Seq<Vertex>| !connects(g, p, start, end) by {
        if connects(g, p, start, end) {
            all_seen(g, start, seen, p);
        }
    }
}

/// What a search puts at the end of its queue are the stars among
/// `targets` that it has not looked at, each with the way that led to it,
/// and none of those stars is left out.
proof fn children_cover(path: Seq<Vertex>, targets: Seq<Vertex>, seen: Set<Vertex>)
    ensures
        forall|k: int|
            0 <= k < children(path, targets, seen).len() ==> targets.contains(
                (#[trigger] children(path, targets, seen)[k]).vertex,
            ) && children(path, targets, seen)[k].path == path.push(
                children(path, targets, seen)[k].vertex,
            ),
        forall|i: int|
            0 <= i < targets.len() ==> seen.contains(#[trigger] targets[i]) || exists|k: int|
                0 <= k < children(path, targets, seen).len() && (#[trigger] children(
                    path,
                    targets,
                    seen,
                )[k]).vertex == targets[i],
    decreases targets.len(),
{
    if targets.len() > 0 {
        let fewer = targets.drop_last();
        let before = children(path, fewer, seen);
        let all = children(path, targets, seen);
        children_cover(path, fewer, seen);
        assert forall|k: int| 0 <= k < all.len() implies targets.contains(
            (#[trigger] all[k]).vertex,
        ) && all[k].path == path.push(all[k].vertex) by {
            if k < before.len() {
                assert(all[k] == before[k]);
                let i = choose|i: int| 0 <= i < fewer.len() && fewer[i] == before[k].vertex;
                assert(targets[i] == before[k].vertex);
            } else {
                assert(targets[targets.len() - 1] == all[k].vertex);
            }
        }
        assert forall|i: int| 0 <= i < targets.len() implies seen.contains(#[trigger] targets[i])
            || exists|k: int| 0 <= k < all.len() && (#[trigger] all[k]).vertex == targets[i] by {
            if !seen.contains(targets[i]) {
                if i < fewer.len() {
                    assert(fewer[i] == targets[i]);
                    let k = choose|k: int|
                        0 <= k < before.len() && (#[trigger] before[k]).vertex == fewer[i];
                    assert(all[k] == before[k]);
                } else {
                    assert(all[all.len() - 1].vertex == targets[i]);
                }
            }
        }
    }
}

/// A search that goes on from a state that it can work from comes to a way
/// with the fewest portals, or to none if no way leads from `start` to
/// `end`.
proof fn search_finds_shortest(
    g: Graph,
    start: Vertex,
    end: Vertex,
    seen: Set<Vertex>,
    level: Map<Vertex, nat>,
    queue: Seq<Pending>,
    depth: nat,
)
    requires
        g.dom().finite(),
        search_inv(g, start, end, seen, level, queue, depth),
    ensures
        match search(g, queue, seen, end) {
            Some(p) => is_shortest(g, p, start, end),
            None => forall|q: Seq<Vertex>| !connects(g, q, start, end),
        },
    decreases g.dom().difference(seen).len(), queue.len(),
{
    if queue.len() == 0 {
        search_ends(g, start, end, seen, level, queue, depth);
    } else if seen.contains(queue[0].vertex) {
        search_skips(g, start, end, seen, level, queue, depth);
        let rest = queue.drop_first();
        search_finds_shortest(g, start, end, seen, level, rest, depth_of(rest, depth));
    } else if queue[0].vertex == end {
        front_is_shortest(g, start, end, seen, level, queue, depth);
    } else {
        let v = queue[0].vertex;
        let wider = seen.insert(v);
        let added = children(queue[0].path, neighbors(g, v), wider);
        let next = queue.drop_first() + added;
        children_cover(queue[0].path, neighbors(g, v), wider);
        assert forall|w: Vertex| #[trigger] is_edge(g, v, w) implies wider.contains(w)
            || exists|k: int| 0 <= k < added.len() && (#[trigger] added[k]).vertex == w by {
            let i = choose|i: int| 0 <= i < neighbors(g, v).len() && neighbors(g, v)[i] == w;
            assert(neighbors(g, v)[i] == w);
        }
        search_visits(g, start, end, seen, level, queue, depth, added);
        if g.dom().contains(v) {
            assert(g.dom().difference(wider) =~= g.dom().difference(seen).remove(v));
        } else {
            assert(g.dom().difference(wider) =~= g.dom().difference(seen));
            assert(neighbors(g, v).len() == 0);
        }
        search_finds_shortest(
            g,
            start,
            end,
            wider,
            level.insert(v, depth),
            next,
            depth_of(next, depth),
        );
    }
}

/// The way that a breadth-first search comes to is a way with the fewest
/// portals, and the search comes to none only if no way leads from `start`
/// to `end`.
pub proof fn breadth_first_is_shortest(g: Graph, start: Vertex, end: Vertex)
    requires
        g.dom().finite(),
    ensures
        match breadth_first(g, start, end) {
            Some(p) => is_shortest(g, p, start, end),
            None => forall|q: Seq<Vertex>| !connects(g, q, start, end),
        },
{
    search_begins(g, start, end, Map::empty());
    search_finds_shortest(g, start, end, Set::empty(), Map::empty(), first_queue(start), 1);
}

} // verus!
