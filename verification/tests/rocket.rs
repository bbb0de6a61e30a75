use cch23_challenge::rocket::chart::build_graph;
use cch23_challenge::rocket::chart::find_route;
use cch23_challenge::rocket::chart::parse_star_map;
use cch23_challenge::rocket::chart::portals_travelled;
use cch23_challenge::rocket::chart::squared_distance;
use cch23_challenge::rocket::chart::squared_hops;
use cch23_challenge::rocket::chart::StarMap;
use cch23_challenge::rocket::graph::AdjacencyListGraph;

fn star_map() -> (Vec<(i32, i32, i32)>, AdjacencyListGraph) {
    let stars = vec![(0, 1, 0), (-2, 2, 3), (3, -3, -5), (1, 1, 5), (4, 3, 5)];
    let portals = [(0usize, 1usize), (2, 4), (3, 4), (1, 2)];
    let mut graph = AdjacencyListGraph::new();
    for (from, to) in portals {
        graph.add_edge(stars[from], stars[to]);
    }
    (stars, graph)
}

#[test]
fn rocket_takes_three_portals() {
    let (stars, graph) = star_map();
    let path = graph.bfs_shortest_path(stars[0], stars[4]).unwrap();
    assert_eq!(path, vec![stars[0], stars[1], stars[2], stars[4]]);
    assert_eq!(path.len() - 1, 3);
}

#[test]
fn portals_lead_one_way() {
    let (stars, graph) = star_map();
    assert_eq!(graph.bfs_shortest_path(stars[4], stars[0]), None);
    assert_eq!(graph.bfs_shortest_path(stars[0], stars[3]), None);
    assert_eq!(graph.bfs_shortest_path(stars[3], stars[4]), Some(vec![stars[3], stars[4]]));
}

#[test]
fn a_star_reaches_itself() {
    let (stars, graph) = star_map();
    assert_eq!(graph.bfs_shortest_path(stars[2], stars[2]), Some(vec![stars[2]]));
    let empty = AdjacencyListGraph::new();
    assert_eq!(empty.bfs_shortest_path((7, 7, 7), (7, 7, 7)), Some(vec![(7, 7, 7)]));
    assert_eq!(empty.bfs_shortest_path((7, 7, 7), (8, 8, 8)), None);
}

#[test]
fn shorter_way_wins_over_longer() {
    let a = (0, 0, 0);
    let b = (1, 0, 0);
    let c = (2, 0, 0);
    let d = (3, 0, 0);
    let mut graph = AdjacencyListGraph::new();
    graph.add_edge(a, b);
    graph.add_edge(b, c);
    graph.add_edge(c, d);
    graph.add_edge(a, c);
    assert_eq!(graph.bfs_shortest_path(a, d), Some(vec![a, c, d]));
    graph.add_edge(a, d);
    assert_eq!(graph.bfs_shortest_path(a, d), Some(vec![a, d]));
}

#[test]
fn search_ends_on_a_cycle() {
    let a = (0, 0, 0);
    let b = (0, 0, 1);
    let c = (0, 0, -1);
    let mut graph = AdjacencyListGraph::new();
    graph.add_edge(a, b);
    graph.add_edge(b, a);
    graph.add_edge(b, b);
    graph.add_edge(a, b);
    assert_eq!(graph.bfs_shortest_path(a, c), None);
    assert_eq!(graph.bfs_shortest_path(b, a), Some(vec![b, a]));
}

#[test]
fn stars_at_the_edge_of_the_range_are_told_apart() {
    let low = (i32::MIN, i32::MIN, i32::MIN);
    let high = (i32::MAX, i32::MAX, i32::MAX);
    let mixed = (i32::MIN, i32::MAX, 0);
    let other = (i32::MAX, i32::MIN, 0);
    let mut graph = AdjacencyListGraph::new();
    graph.add_edge(low, high);
    graph.add_edge(high, mixed);
    assert_eq!(graph.bfs_shortest_path(low, mixed), Some(vec![low, high, mixed]));
    assert_eq!(graph.bfs_shortest_path(low, other), None);
    assert_eq!(graph.bfs_shortest_path(mixed, low), None);
}

#[test]
fn day22_rocket() {
    let content = "5\n0 1 0\n-2 2 3\n3 -3 -5\n1 1 5\n4 3 5\n4\n0 1\n2 4\n3 4\n1 2\n";
    let chart = parse_star_map(content).unwrap();
    assert_eq!(chart.stars.len(), 5);
    assert_eq!(chart.portals, vec![(0, 1), (2, 4), (3, 4), (1, 2)]);
    let route = find_route(&chart).unwrap();
    let portals = portals_travelled(&route);
    let squares = squared_hops(&route).unwrap();
    assert_eq!(squares, vec![14, 114, 137]);
    let mut distance: f32 = 0.0;
    for square in squares {
        distance += (square as f32).sqrt();
    }
    assert_eq!(format!("{} {:.3}", portals, distance), "3 26.123");
}

#[test]
fn chart_with_a_fault_is_refused() {
    assert!(parse_star_map("").is_none());
    assert!(parse_star_map("1\n0 0 0\n").is_none());
    assert!(parse_star_map("1\n0 0 0\n0\n").is_some());
    assert!(parse_star_map("1\n0 0 0\n0").is_some());
    assert!(parse_star_map("2\n0 0 0\n0\n").is_none());
    assert!(parse_star_map("1\n0 0\n0\n").is_none());
    assert!(parse_star_map("1\n0 0 0 0\n0\n").is_none());
    assert!(parse_star_map("1\n0  0 0\n0\n").is_none());
    assert!(parse_star_map("1\n0 0 2147483648\n0\n").is_none());
    assert!(parse_star_map("1\n0 0 -2147483648\n0\n").is_some());
    assert!(parse_star_map("1\n0 0 0\n1\n0 -1\n").is_none());
    assert!(parse_star_map("1\n0 0 0\n1\n0 0\n").is_some());
    assert!(parse_star_map("1\n0 0 0\n2\n0 0\n").is_none());
    assert!(parse_star_map("-1\n0 0 0\n0\n").is_none());
    assert!(parse_star_map("1\r\n0 0 0\r\n0\r\nrest").is_some());
}

#[test]
fn route_needs_stars_portals_and_a_way() {
    let none = StarMap { stars: vec![], portals: vec![] };
    assert!(find_route(&none).is_none());
    let alone = StarMap { stars: vec![(1, 2, 3)], portals: vec![] };
    assert_eq!(find_route(&alone), Some(vec![(1, 2, 3)]));
    let astray = StarMap { stars: vec![(1, 2, 3), (4, 5, 6)], portals: vec![(0, 2)] };
    assert!(build_graph(&astray).is_none());
    assert!(find_route(&astray).is_none());
    let apart = StarMap { stars: vec![(1, 2, 3), (4, 5, 6)], portals: vec![(1, 0)] };
    assert!(build_graph(&apart).is_some());
    assert!(find_route(&apart).is_none());
}

#[test]
fn squared_distance_is_exact_or_refused() {
    assert_eq!(squared_distance((0, 1, 0), (-2, 2, 3)), Some(14));
    assert_eq!(squared_distance((1, 1, 1), (1, 1, 1)), Some(0));
    assert_eq!(squared_distance((0, 0, 0), (46340, 0, 0)), Some(2147395600));
    assert_eq!(squared_distance((0, 0, 0), (46341, 0, 0)), None);
    assert_eq!(squared_distance((i32::MIN, i32::MIN, i32::MIN), (i32::MAX, i32::MAX, i32::MAX)), None);
    assert_eq!(squared_hops(&vec![]), Some(vec![]));
    assert_eq!(squared_hops(&vec![(5, 5, 5)]), Some(vec![]));
    assert_eq!(squared_hops(&vec![(0, 0, 0), (1, 2, 2), (1, 2, 5)]), Some(vec![9, 9]));
    assert_eq!(squared_hops(&vec![(0, 0, 0), (1, 2, 2), (100000, 2, 5)]), None);
}

#[test]
fn of_two_shortest_ways_the_earlier_portal_wins() {
    let a = (0, 0, 0);
    let b = (1, 0, 0);
    let c = (0, 1, 0);
    let d = (1, 1, 0);
    let mut graph = AdjacencyListGraph::new();
    graph.add_edge(a, b);
    graph.add_edge(a, c);
    graph.add_edge(b, d);
    graph.add_edge(c, d);
    assert_eq!(graph.bfs_shortest_path(a, d), Some(vec![a, b, d]));
    let mut graph = AdjacencyListGraph::new();
    graph.add_edge(a, c);
    graph.add_edge(a, b);
    graph.add_edge(b, d);
    graph.add_edge(c, d);
    assert_eq!(graph.bfs_shortest_path(a, d), Some(vec![a, c, d]));
}
