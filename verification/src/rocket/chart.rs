//! The chart that a rocket's journey is read from, the graph that it
//! stands for, and the length of a way through it.

use vstd::prelude::*;
use crate::rocket::graph::AdjacencyListGraph;
use crate::rocket::search::breadth_first;
use crate::rocket::walk::is_shortest;
use crate::rocket::walk::neighbors;
use crate::rocket::walk::connects;
use crate::rocket::walk::Graph;
use crate::rocket::walk::Vertex;
use crate::text::chars_of;
use crate::text::lines;
use crate::text::lines_of;
use crate::text::parse_i32;
use crate::text::parse_unsigned;
use crate::text::signed_of;
use crate::text::split;
use crate::text::split_on;
use crate::text::unsigned_of;

verus! {

/// A chart, as contracts see it.
pub struct StarMapView {
    pub stars: Seq<Vertex>,
    pub portals: Seq<(usize, usize)>,
}

/// A chart: the stars, and the portals as pairs of places in the row of
/// stars, from the first to the second.
#[derive(Debug)]
pub struct StarMap {
    pub stars: Vec<Vertex>,
    pub portals: Vec<(usize, usize)>,
}

impl View for StarMap {
    type V = StarMapView;

    open spec fn view(&self) -> StarMapView {
        StarMapView { stars: self.stars@, portals: self.portals@ }
    }
}

/// A number of 32 bits with a sign, as `text` writes it.
pub open spec fn coordinate_of(text: Seq<char>) -> Option<i32> {
    match signed_of(text, i32::MIN as int, i32::MAX as int) {
        Some(value) => Some(value as i32),
        None => None,
    }
}

/// A place in the row of stars, as `text` writes it.
pub open spec fn place_of(text: Seq<char>) -> Option<usize> {
    match unsigned_of(text, usize::MAX as nat) {
        Some(value) => Some(value as usize),
        None => None,
    }
}

/// A count of lines, as `text` writes it.
pub open spec fn count_of(text: Seq<char>) -> Option<u32> {
    match unsigned_of(text, u32::MAX as nat) {
        Some(value) => Some(value as u32),
        None => None,
    }
}

/// The star that a line writes: three coordinates with one blank between
/// each two.
pub open spec fn star_of(line: Seq<char>) -> Option<Vertex> {
    let parts = split(line, ' ');
    if parts.len() == 3 && coordinate_of(parts[0]) is Some && coordinate_of(parts[1]) is Some
        && coordinate_of(parts[2]) is Some {
        Some((coordinate_of(parts[0])->0, coordinate_of(parts[1])->0, coordinate_of(parts[2])->0))
    } else {
        None
    }
}

/// The portal that a line writes: two places with one blank between them.
pub open spec fn portal_of(line: Seq<char>) -> Option<(usize, usize)> {
    let parts = split(line, ' ');
    if parts.len() == 2 && place_of(parts[0]) is Some && place_of(parts[1]) is Some {
        Some((place_of(parts[0])->0, place_of(parts[1])->0))
    } else {
        None
    }
}

/// Whether `rows` is a chart: the number of stars, a line for each star,
/// the number of portals and a line for each portal. What follows is not
/// read.
pub open spec fn is_chart(rows: Seq<Seq<char>>) -> bool {
    &&& rows.len() > 0
    &&& count_of(rows[0]) is Some
    &&& ({
        let n = count_of(rows[0])->0 as int;
        &&& rows.len() > 1 + n
        &&& forall|i: int| 0 <= i < n ==> star_of(#[trigger] rows[1 + i]) is Some
        &&& count_of(rows[1 + n]) is Some
        &&& ({
            let m = count_of(rows[1 + n])->0 as int;
            &&& rows.len() >= 2 + n + m
            &&& forall|j: int| 0 <= j < m ==> portal_of(#[trigger] rows[2 + n + j]) is Some
        })
    })
}

/// The chart that `rows` writes.
pub open spec fn chart_of(rows: Seq<Seq<char>>) -> StarMapView {
    let n = count_of(rows[0])->0 as int;
    let m = count_of(rows[1 + n])->0 as int;
    StarMapView {
        stars: Seq::new(n as nat, |i: int| star_of(rows[1 + i])->0),
        portals: Seq::new(m as nat, |j: int| portal_of(rows[2 + n + j])->0),
    }
}

/// The chart that `content` writes, if it writes one.
pub open spec fn star_map_of(content: Seq<char>) -> Option<StarMapView> {
    if is_chart(lines(content)) {
        Some(chart_of(lines(content)))
    } else {
        None
    }
}

fn parse_coordinate(text: &Vec<char>) -> (value: Option<i32>)
    ensures
        value == coordinate_of(text@),
{
    parse_i32(text)
}

fn parse_place(text: &Vec<char>) -> (value: Option<usize>)
    ensures
        value == place_of(text@),
{
    match parse_unsigned(text, usize::MAX as u64) {
        Some(value) => Some(value as usize),
        None => None,
    }
}

fn parse_count(text: &Vec<char>) -> (value: Option<u32>)
    ensures
        value == count_of(text@),
{
    match parse_unsigned(text, u32::MAX as u64) {
        Some(value) => Some(value as u32),
        None => None,
    }
}

/// Reads a star from a line of the chart.
pub fn parse_star(line: &Vec<char>) -> (star: Option<Vertex>)
    ensures
        star == star_of(line@),
{
    let parts = split_on(line, ' ');
    if parts.len() != 3 {
        return None;
    }
    let x = match parse_coordinate(&parts[0]) {
        Some(x) => x,
        None => {
            return None;
        },
    };
    let y = match parse_coordinate(&parts[1]) {
        Some(y) => y,
        None => {
            return None;
        },
    };
    let z = match parse_coordinate(&parts[2]) {
        Some(z) => z,
        None => {
            return None;
        },
    };
    Some((x, y, z))
}

/// Reads a portal from a line of the chart.
pub fn parse_portal(line: &Vec<char>) -> (portal: Option<(usize, usize)>)
    ensures
        portal == portal_of(line@),
{
    let parts = split_on(line, ' ');
    if parts.len() != 2 {
        return None;
    }
    let from = match parse_place(&parts[0]) {
        Some(from) => from,
        None => {
            return None;
        },
    };
    let to = match parse_place(&parts[1]) {
        Some(to) => to,
        None => {
            return None;
        },
    };
    Some((from, to))
}

/// Reads a chart: the number of stars on the first line, then one star on
/// each line, the number of portals, and one portal on each line. Gives
/// nothing where a line is missing or does not read.
pub fn parse_star_map(content: &str) -> (map: Option<StarMap>)
    ensures
        match map {
            Some(chart) => star_map_of(content@) == Some(chart@),
            None => star_map_of(content@) is None,
        },
{
    let chars = chars_of(content);
    let rows = lines_of(&chars);
    let ghost text = lines(content@);
    let total = rows.len();
    if total == 0 {
        return None;
    }
    let n = match parse_count(&rows[0]) {
        Some(n) => n as usize,
        None => {
            return None;
        },
    };
    if total - 1 <= n {
        return None;
    }
    let mut stars: Vec<Vertex> = Vec::new();
    let mut i: usize = 0;
    while i < n
        invariant
            i <= n,
            n < total - 1,
            total == rows@.len(),
            total == text.len(),
            forall|r: int| 0 <= r < total ==> (#[trigger] rows@[r])@ == text[r],
            text == lines(content@),
            count_of(text[0]) is Some,
            count_of(text[0])->0 == n,
            stars@.len() == i,
            forall|r: int| 0 <= r < i ==> star_of(#[trigger] text[1 + r]) == Some(stars@[r]),
        decreases n - i,
    {
        match parse_star(&rows[1 + i]) {
            Some(star) => {
                stars.push(star);
            },
            None => {
                assert(star_of(text[1 + i]) is None);
                return None;
            },
        }
        i += 1;
    }
    let m = match parse_count(&rows[1 + n]) {
        Some(m) => m as usize,
        None => {
            return None;
        },
    };
    if total - 2 - n < m {
        return None;
    }
    let mut portals: Vec<(usize, usize)> = Vec::new();
    let mut j: usize = 0;
    while j < m
        invariant
            j <= m,
            n < total - 1,
            m <= total - 2 - n,
            total == rows@.len(),
            total == text.len(),
            forall|r: int| 0 <= r < total ==> (#[trigger] rows@[r])@ == text[r],
            text == lines(content@),
            count_of(text[0]) is Some,
            count_of(text[0])->0 == n,
            count_of(text[1 + n]) is Some,
            count_of(text[1 + n])->0 == m,
            portals@.len() == j,
            forall|r: int|
                0 <= r < j ==> portal_of(#[trigger] text[2 + n + r]) == Some(portals@[r]),
        decreases m - j,
    {
        match parse_portal(&rows[2 + n + j]) {
            Some(portal) => {
                portals.push(portal);
            },
            None => {
                assert(portal_of(text[2 + n + j]) is None);
                return None;
            },
        }
        j += 1;
    }
    let chart = StarMap { stars, portals };
    proof {
        assert(is_chart(text));
        assert(chart@.stars =~= chart_of(text).stars);
        assert(chart@.portals =~= chart_of(text).portals);
    }
    Some(chart)
}

/// Whether every portal of the chart joins two stars of the chart.
pub open spec fn portals_in_range(chart: StarMapView) -> bool {
    forall|j: int|
        0 <= j < chart.portals.len() ==> (#[trigger] chart.portals[j]).0 < chart.stars.len()
            && chart.portals[j].1 < chart.stars.len()
}

/// The graph of the first `count` portals of the chart.
pub open spec fn graph_of(chart: StarMapView, count: nat) -> Graph
    decreases count,
{
    if count == 0 {
        Map::empty()
    } else {
        let before = graph_of(chart, (count - 1) as nat);
        let portal = chart.portals[count - 1];
        let from = chart.stars[portal.0 as int];
        let to = chart.stars[portal.1 as int];
        before.insert(from, neighbors(before, from).push(to))
    }
}

/// The graph that the chart stands for: a portal from star to star for each
/// pair of places, in the order of the chart. Gives nothing where a portal
/// names a star that the chart does not have.
pub fn build_graph(chart: &StarMap) -> (graph: Option<AdjacencyListGraph>)
    ensures
        match graph {
            Some(built) => portals_in_range(chart@) && built@ == graph_of(
                chart@,
                chart@.portals.len(),
            ),
            None => !portals_in_range(chart@),
        },
{
    let mut graph = AdjacencyListGraph::new();
    let m = chart.portals.len();
    let stars = chart.stars.len();
    let mut j: usize = 0;
    while j < m
        invariant
            j <= m,
            m == chart@.portals.len(),
            stars == chart@.stars.len(),
            graph@ == graph_of(chart@, j as nat),
            forall|r: int|
                0 <= r < j ==> (#[trigger] chart@.portals[r]).0 < stars && chart@.portals[r].1
                    < stars,
        decreases m - j,
    {
        let portal = chart.portals[j];
        if portal.0 >= stars || portal.1 >= stars {
            return None;
        }
        graph.add_edge(chart.stars[portal.0], chart.stars[portal.1]);
        j += 1;
    }
    Some(graph)
}

/// Whether `route` is the journey that the chart asks for: the way that a
/// breadth-first search finds from the first star of the chart to the
/// last, which is a way with the fewest portals.
pub open spec fn is_route(chart: StarMapView, route: Seq<Vertex>) -> bool {
    &&& chart.stars.len() > 0
    &&& portals_in_range(chart)
    &&& is_shortest(
        graph_of(chart, chart.portals.len()),
        route,
        chart.stars.first(),
        chart.stars.last(),
    )
    &&& breadth_first(
        graph_of(chart, chart.portals.len()),
        chart.stars.first(),
        chart.stars.last(),
    ) == Some(route)
}

/// Whether the chart has a journey: it has a star, its portals join stars
/// that it has, and a way leads from its first star to its last.
pub open spec fn has_route(chart: StarMapView) -> bool {
    &&& chart.stars.len() > 0
    &&& portals_in_range(chart)
    &&& exists|p: Seq<Vertex>|
        connects(
            graph_of(chart, chart.portals.len()),
            p,
            chart.stars.first(),
            chart.stars.last(),
        )
}

/// Finds the journey on a chart: a way with the fewest portals from the
/// first star to the last. Gives nothing where the chart has no star, names
/// a star that it does not have, or has no way between the two.
pub fn find_route(chart: &StarMap) -> (route: Option<Vec<Vertex>>)
    ensures
        match route {
            Some(way) => is_route(chart@, way@),
            None => !has_route(chart@),
        },
{
    let n = chart.stars.len();
    if n == 0 {
        return None;
    }
    let graph = match build_graph(chart) {
        Some(graph) => graph,
        None => {
            return None;
        },
    };
    graph.bfs_shortest_path(chart.stars[0], chart.stars[n - 1])
}

/// The number of portals on a way.
pub fn portals_travelled(route: &Vec<Vertex>) -> (count: usize)
    requires
        route@.len() > 0,
    ensures
        count == route@.len() - 1,
{
    route.len() - 1
}

/// The square of the distance between two stars.
pub open spec fn squared_distance_of(a: Vertex, b: Vertex) -> int {
    (a.0 - b.0) * (a.0 - b.0) + (a.1 - b.1) * (a.1 - b.1) + (a.2 - b.2) * (a.2 - b.2)
}

/// The square of the distance between two stars, if it fits in 32 bits
/// with a sign.
pub fn squared_distance(a: Vertex, b: Vertex) -> (square: Option<i32>)
    ensures
        match square {
            Some(value) => value == squared_distance_of(a, b),
            None => squared_distance_of(a, b) > i32::MAX,
        },
{
    let dx: i128 = a.0 as i128 - b.0 as i128;
    let dy: i128 = a.1 as i128 - b.1 as i128;
    let dz: i128 = a.2 as i128 - b.2 as i128;
    assert(-0x1_0000_0000 < dx < 0x1_0000_0000);
    assert(-0x1_0000_0000 < dy < 0x1_0000_0000);
    assert(-0x1_0000_0000 < dz < 0x1_0000_0000);
    assert(0 <= dx * dx <= 0x1_0000_0000 * 0x1_0000_0000) by (nonlinear_arith)
        requires
            -0x1_0000_0000 < dx < 0x1_0000_0000,
    ;
    assert(0 <= dy * dy <= 0x1_0000_0000 * 0x1_0000_0000) by (nonlinear_arith)
        requires
            -0x1_0000_0000 < dy < 0x1_0000_0000,
    ;
    assert(0 <= dz * dz <= 0x1_0000_0000 * 0x1_0000_0000) by (nonlinear_arith)
        requires
            -0x1_0000_0000 < dz < 0x1_0000_0000,
    ;
    let total: i128 = dx * dx + dy * dy + dz * dz;
    if total > i32::MAX as i128 {
        None
    } else {
        Some(total as i32)
    }
}

/// The squares of the lengths of the hops of a way, hop by hop. Gives
/// nothing where one of them does not fit in 32 bits with a sign.
pub fn squared_hops(route: &Vec<Vertex>) -> (squares: Option<Vec<i32>>)
    ensures
        match squares {
            Some(hops) => hops@.len() == (if route@.len() == 0 {
                0
            } else {
                route@.len() - 1
            }) && forall|i: int|
                0 <= i < hops@.len() ==> (#[trigger] hops@[i]) == squared_distance_of(
                    route@[i],
                    route@[i + 1],
                ),
            None => exists|i: int|
                0 <= i < route@.len() - 1 && squared_distance_of(route@[i], #[trigger] route@[i + 1])
                    > i32::MAX,
        },
{
    let mut hops: Vec<i32> = Vec::new();
    let n = route.len();
    let mut i: usize = 1;
    while i < n
        invariant
            1 <= i,
            n == route@.len(),
            i <= n || i == 1,
            hops@.len() == i - 1,
            forall|k: int|
                0 <= k < hops@.len() ==> (#[trigger] hops@[k]) == squared_distance_of(
                    route@[k],
                    route@[k + 1],
                ),
        decreases n - i,
    {
        match squared_distance(route[i - 1], route[i]) {
            Some(square) => {
                hops.push(square);
            },
            None => {
                assert(squared_distance_of(route@[i - 1], route@[i - 1 + 1]) > i32::MAX);
                return None;
            },
        }
        i += 1;
    }
    Some(hops)
}

} // verus!
