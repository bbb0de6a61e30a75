//! The star map as an adjacency list, and the breadth-first search on it.

use std::collections::HashMap;
use std::collections::HashSet;
use std::collections::VecDeque;
use vstd::prelude::*;
use crate::rocket::search::breadth_first;
use crate::rocket::search::breadth_first_is_shortest;
use crate::rocket::search::children;
use crate::rocket::search::first_queue;
use crate::rocket::search::search;
use crate::rocket::search::Pending;
use crate::rocket::walk::connects;
use crate::rocket::walk::is_shortest;
use crate::rocket::walk::neighbors;
use crate::rocket::walk::Graph;
use crate::rocket::walk::Vertex;

verus! {

broadcast use vstd::std_specs::hash::group_hash_axioms;

/// The number that stands for a star in the adjacency list: its three
/// coordinates, each moved into the range of 32 bits, side by side.
pub open spec fn key_of(v: Vertex) -> u128 {
    ((v.0 + 0x8000_0000) * 0x1_0000_0000_0000_0000 + (v.1 + 0x8000_0000) * 0x1_0000_0000 + (v.2
        + 0x8000_0000)) as u128
}

/// Different stars have different keys.
pub proof fn key_is_injective(a: Vertex, b: Vertex)
    ensures
        key_of(a) == key_of(b) ==> a == b,
{
}

fn key(v: Vertex) -> (k: u128)
    ensures
        k == key_of(v),
{
    let x = (v.0 as i64 + 0x8000_0000) as u128;
    let y = (v.1 as i64 + 0x8000_0000) as u128;
    let z = (v.2 as i64 + 0x8000_0000) as u128;
    x * 0x1_0000_0000_0000_0000 + y * 0x1_0000_0000 + z
}

fn same_vertex(a: Vertex, b: Vertex) -> (same: bool)
    ensures
        same == (a == b),
{
    a.0 == b.0 && a.1 == b.1 && a.2 == b.2
}

fn extended(path: &Vec<Vertex>, w: Vertex) -> (longer: Vec<Vertex>)
    ensures
        longer@ == path@.push(w),
{
    let mut longer: Vec<Vertex> = Vec::new();
    let n = path.len();
    let mut i: usize = 0;
    while i < n
        invariant
            i <= n,
            n == path@.len(),
            longer@ == path@.take(i as int),
        decreases n - i,
    {
        longer.push(path[i]);
        assert(longer@ =~= path@.take(i + 1));
        i += 1;
    }
    longer.push(w);
    assert(longer@ =~= path@.push(w));
    longer
}

/// The queue of a search, as its invariant sees it.
pub open spec fn shadow(queue: Seq<(Vertex, Vec<Vertex>)>) -> Seq<Pending> {
    Seq::new(queue.len(), |i: int| Pending { vertex: queue[i].0, path: queue[i].1@ })
}

/// A directed graph of stars, kept as one list of neighbours per star.
#[derive(Debug)]
pub struct AdjacencyListGraph {
    list: HashMap<u128, Vec<Vertex>>,
}

impl View for AdjacencyListGraph {
    type V = Graph;

    closed spec fn view(&self) -> Graph {
        Map::new(
            |v: Vertex| self.list@.contains_key(key_of(v)),
            |v: Vertex| self.list@[key_of(v)]@,
        )
    }
}

impl AdjacencyListGraph {
    /// Portals leave from finitely many stars.
    pub proof fn dom_is_finite(&self)
        ensures
            self@.dom().finite(),
    {
        let keys = self.list@.dom();
        let star = |k: u128| choose|v: Vertex| key_of(v) == k;
        keys.lemma_map_finite(star);
        assert forall|v: Vertex| self@.dom().contains(v) implies keys.map(star).contains(v) by {
            key_is_injective(star(key_of(v)), v);
            assert(keys.contains(key_of(v)) && v == star(key_of(v)));
        }
        vstd::set_lib::lemma_set_subset_finite(keys.map(star), self@.dom());
    }

    /// A graph without portals.
    pub fn new() -> (graph: Self)
        ensures
            graph@ == Map::<Vertex, Seq<Vertex>>::empty(),
    {
        let graph = AdjacencyListGraph { list: HashMap::new() };
        assert(graph@ =~= Map::empty());
        graph
    }

    /// Adds a portal from `v1` to `v2`, behind the portals that already
    /// leave from `v1`.
    pub fn add_edge(&mut self, v1: Vertex, v2: Vertex)
        ensures
            final(self)@ == old(self)@.insert(v1, neighbors(old(self)@, v1).push(v2)),
    {
        let k = key(v1);
        let mut targets = match self.list.remove(&k) {
            Some(targets) => targets,
            None => Vec::new(),
        };
        targets.push(v2);
        self.list.insert(k, targets);
        proof {
            let after = old(self)@.insert(v1, neighbors(old(self)@, v1).push(v2));
            assert forall|v: Vertex| self@.contains_key(v) == after.contains_key(v) by {
                key_is_injective(v, v1);
            }
            assert forall|v: Vertex| self@.contains_key(v) implies self@[v] == after[v] by {
                key_is_injective(v, v1);
            }
            assert(self@ =~= after);
        }
    }

    /// The way that a breadth-first search finds from `start` to `end`, as
    /// the row of stars on it, both ends included: a way with the fewest
    /// portals. Nothing if no way leads there.
    pub fn bfs_shortest_path(&self, start: Vertex, end: Vertex) -> (found: Option<Vec<Vertex>>)
        ensures
            match found {
                Some(path) => is_shortest(self@, path@, start, end) && breadth_first(
                    self@,
                    start,
                    end,
                ) == Some(path@),
                None => breadth_first(self@, start, end) is None && forall|p: Seq<Vertex>|
                    !connects(self@, p, start, end),
            },
    {
        let mut queue: VecDeque<(Vertex, Vec<Vertex>)> = VecDeque::new();
        let mut visited: HashSet<u128> = HashSet::new();
        let mut first: Vec<Vertex> = Vec::new();
        first.push(start);
        queue.push_back((start, first));
        let ghost mut seen: Set<Vertex> = Set::empty();
        proof {
            assert(shadow(queue@) =~= first_queue(start));
            self.dom_is_finite();
            breadth_first_is_shortest(self@, start, end);
        }
        while queue.len() > 0
            invariant
                self@.dom().finite(),
                search(self@, shadow(queue@), seen, end) == breadth_first(self@, start, end),
                forall|v: Vertex| seen.contains(v) <==> visited@.contains(key_of(v)),
                match breadth_first(self@, start, end) {
                    Some(p) => is_shortest(self@, p, start, end),
                    None => forall|q: Seq<Vertex>| !connects(self@, q, start, end),
                },
            decreases self.list@.dom().difference(visited@).len(), queue@.len(),
        {
            let ghost waiting = shadow(queue@);
            let ghost marked = visited@;
            let (current, path) = queue.pop_front().unwrap();
            let ghost rest = shadow(queue@);
            assert(rest =~= waiting.drop_first());
            assert(waiting[0].vertex == current && waiting[0].path == path@);
            let k = key(current);
            if !visited.contains(&k) {
                visited.insert(k);
                if same_vertex(current, end) {
                    return Some(path);
                }
                let ghost wider = seen.insert(current);
                let ghost mut added: Seq<Pending> = Seq::empty();
                proof {
                    assert(rest + added =~= rest);
                    assert forall|v: Vertex| wider.contains(v) <==> visited@.contains(
                        key_of(v),
                    ) by {
                        key_is_injective(v, current);
                    }
                    if self.list@.dom().contains(k) {
                        assert(self.list@.dom().difference(visited@) =~= self.list@.dom().difference(
                            marked,
                        ).remove(k));
                    } else {
                        assert(self.list@.dom().difference(visited@) =~= self.list@.dom().difference(
                            marked,
                        ));
                    }
                }
                match self.list.get(&k) {
                    Some(targets) => {
                        assert(targets@ == neighbors(self@, current));
                        let n = targets.len();
                        let mut j: usize = 0;
                        assert(targets@.take(0) =~= Seq::empty());
                        while j < n
                            invariant
                                j <= n,
                                n == targets@.len(),
                                shadow(queue@) == rest + added,
                                added == children(path@, targets@.take(j as int), wider),
                                forall|v: Vertex|
                                    wider.contains(v) <==> visited@.contains(key_of(v)),
                            decreases n - j,
                        {
                            let w = targets[j];
                            let ghost so_far = added;
                            let ghost waited = queue@;
                            proof {
                                assert(targets@.take(j + 1).drop_last() =~= targets@.take(
                                    j as int,
                                ));
                                assert(targets@.take(j + 1).last() == w);
                            }
                            if !visited.contains(&key(w)) {
                                let longer = extended(&path, w);
                                queue.push_back((w, longer));
                                proof {
                                    added = added.push(Pending { vertex: w, path: longer@ });
                                    assert(shadow(waited).len() == waited.len());
                                    assert((rest + so_far).len() == rest.len() + so_far.len());
                                    assert((rest + added).len() == rest.len() + added.len());
                                    assert forall|i: int| 0 <= i < queue@.len() implies shadow(
                                        queue@,
                                    )[i] == (rest + added)[i] by {
                                        if i < waited.len() {
                                            assert(queue@[i] == waited[i]);
                                            assert(shadow(waited)[i] == (rest + so_far)[i]);
                                            if i >= rest.len() {
                                                assert(added[i - rest.len()] == so_far[i
                                                    - rest.len()]);
                                            }
                                        } else {
                                            assert(queue@[i] == (w, longer));
                                            assert(added[i - rest.len()] == Pending {
                                                vertex: w,
                                                path: longer@,
                                            });
                                        }
                                    }
                                    assert(shadow(queue@) =~= rest + added);
                                }
                            }
                            j += 1;
                        }
                        assert(targets@.take(n as int) =~= targets@);
                    },
                    None => {
                        assert(neighbors(self@, current) =~= Seq::empty());
                    },
                }
                proof {
                    seen = wider;
                }
            }
        }
        None
    }
}

} // verus!
