use std::collections::HashSet;

use kira_r2kad::domain::node_id_with_msb;
use kira_r2kad::utils::VicinityGraph;

#[test]
fn calculates_all_paths_in_3_hop_vicinity() {
    /*
    Topology:

         /- 2 -\
       1 -- 3 -- 4 -- 5
            |         |
         `- 6 -- 7 -´

    */

    let root_id = node_id_with_msb(1);

    let mut graph = VicinityGraph::new(root_id);
    graph.insert(
        node_id_with_msb(1),
        HashSet::from_iter([
            node_id_with_msb(2),
            node_id_with_msb(3),
            node_id_with_msb(6),
        ]),
    );
    graph.insert(
        node_id_with_msb(2),
        HashSet::from_iter([node_id_with_msb(1), node_id_with_msb(4)]),
    );
    graph.insert(
        node_id_with_msb(3),
        HashSet::from_iter([
            node_id_with_msb(1),
            node_id_with_msb(4),
            node_id_with_msb(6),
        ]),
    );
    graph.insert(
        node_id_with_msb(4),
        HashSet::from_iter([
            node_id_with_msb(2),
            node_id_with_msb(3),
            node_id_with_msb(5),
        ]),
    );
    graph.insert(
        node_id_with_msb(5),
        HashSet::from_iter([node_id_with_msb(4), node_id_with_msb(7)]),
    );
    graph.insert(
        node_id_with_msb(6),
        HashSet::from_iter([
            node_id_with_msb(1),
            node_id_with_msb(3),
            node_id_with_msb(7),
        ]),
    );
    graph.insert(
        node_id_with_msb(7),
        HashSet::from_iter([node_id_with_msb(6), node_id_with_msb(5)]),
    );

    let mut paths = graph.paths().into_iter().collect::<HashSet<_>>();
    let expected_paths = HashSet::from([
        // All paths to 2
        Vec::from([node_id_with_msb(1), node_id_with_msb(2)]),
        Vec::from([
            node_id_with_msb(1),
            node_id_with_msb(3),
            node_id_with_msb(4),
            node_id_with_msb(2),
        ]),
        Vec::from([
            node_id_with_msb(1),
            node_id_with_msb(6),
            node_id_with_msb(3),
            node_id_with_msb(4),
            node_id_with_msb(2),
        ]),
        Vec::from([
            node_id_with_msb(1),
            node_id_with_msb(6),
            node_id_with_msb(7),
            node_id_with_msb(5),
            node_id_with_msb(4),
            node_id_with_msb(2),
        ]),
        Vec::from([
            node_id_with_msb(1),
            node_id_with_msb(3),
            node_id_with_msb(6),
            node_id_with_msb(7),
            node_id_with_msb(5),
            node_id_with_msb(4),
            node_id_with_msb(2),
        ]),
        // All paths to 3
        Vec::from([node_id_with_msb(1), node_id_with_msb(3)]),
        Vec::from([
            node_id_with_msb(1),
            node_id_with_msb(2),
            node_id_with_msb(4),
            node_id_with_msb(3),
        ]),
        Vec::from([
            node_id_with_msb(1),
            node_id_with_msb(2),
            node_id_with_msb(4),
            node_id_with_msb(5),
            node_id_with_msb(7),
            node_id_with_msb(6),
            node_id_with_msb(3),
        ]),
        Vec::from([
            node_id_with_msb(1),
            node_id_with_msb(6),
            node_id_with_msb(3),
        ]),
        Vec::from([
            node_id_with_msb(1),
            node_id_with_msb(6),
            node_id_with_msb(7),
            node_id_with_msb(5),
            node_id_with_msb(4),
            node_id_with_msb(3),
        ]),
        // All paths to 4
        Vec::from([
            node_id_with_msb(1),
            node_id_with_msb(2),
            node_id_with_msb(4),
        ]),
        Vec::from([
            node_id_with_msb(1),
            node_id_with_msb(3),
            node_id_with_msb(4),
        ]),
        Vec::from([
            node_id_with_msb(1),
            node_id_with_msb(3),
            node_id_with_msb(6),
            node_id_with_msb(7),
            node_id_with_msb(5),
            node_id_with_msb(4),
        ]),
        Vec::from([
            node_id_with_msb(1),
            node_id_with_msb(6),
            node_id_with_msb(3),
            node_id_with_msb(4),
        ]),
        Vec::from([
            node_id_with_msb(1),
            node_id_with_msb(6),
            node_id_with_msb(7),
            node_id_with_msb(5),
            node_id_with_msb(4),
        ]),
        // All paths to 5
        Vec::from([
            node_id_with_msb(1),
            node_id_with_msb(2),
            node_id_with_msb(4),
            node_id_with_msb(5),
        ]),
        Vec::from([
            node_id_with_msb(1),
            node_id_with_msb(2),
            node_id_with_msb(4),
            node_id_with_msb(3),
            node_id_with_msb(6),
            node_id_with_msb(7),
            node_id_with_msb(5),
        ]),
        Vec::from([
            node_id_with_msb(1),
            node_id_with_msb(3),
            node_id_with_msb(4),
            node_id_with_msb(5),
        ]),
        Vec::from([
            node_id_with_msb(1),
            node_id_with_msb(3),
            node_id_with_msb(6),
            node_id_with_msb(7),
            node_id_with_msb(5),
        ]),
        Vec::from([
            node_id_with_msb(1),
            node_id_with_msb(6),
            node_id_with_msb(7),
            node_id_with_msb(5),
        ]),
        Vec::from([
            node_id_with_msb(1),
            node_id_with_msb(6),
            node_id_with_msb(3),
            node_id_with_msb(4),
            node_id_with_msb(5),
        ]),
        // All paths to 6
        Vec::from([node_id_with_msb(1), node_id_with_msb(6)]),
        Vec::from([
            node_id_with_msb(1),
            node_id_with_msb(3),
            node_id_with_msb(6),
        ]),
        Vec::from([
            node_id_with_msb(1),
            node_id_with_msb(3),
            node_id_with_msb(4),
            node_id_with_msb(5),
            node_id_with_msb(7),
            node_id_with_msb(6),
        ]),
        Vec::from([
            node_id_with_msb(1),
            node_id_with_msb(2),
            node_id_with_msb(4),
            node_id_with_msb(3),
            node_id_with_msb(6),
        ]),
        Vec::from([
            node_id_with_msb(1),
            node_id_with_msb(2),
            node_id_with_msb(4),
            node_id_with_msb(5),
            node_id_with_msb(7),
            node_id_with_msb(6),
        ]),
        // All paths to 7
        Vec::from([
            node_id_with_msb(1),
            node_id_with_msb(6),
            node_id_with_msb(7),
        ]),
        Vec::from([
            node_id_with_msb(1),
            node_id_with_msb(6),
            node_id_with_msb(3),
            node_id_with_msb(4),
            node_id_with_msb(5),
            node_id_with_msb(7),
        ]),
        Vec::from([
            node_id_with_msb(1),
            node_id_with_msb(3),
            node_id_with_msb(6),
            node_id_with_msb(7),
        ]),
        Vec::from([
            node_id_with_msb(1),
            node_id_with_msb(3),
            node_id_with_msb(4),
            node_id_with_msb(5),
            node_id_with_msb(7),
        ]),
        Vec::from([
            node_id_with_msb(1),
            node_id_with_msb(2),
            node_id_with_msb(4),
            node_id_with_msb(3),
            node_id_with_msb(6),
            node_id_with_msb(7),
        ]),
        Vec::from([
            node_id_with_msb(1),
            node_id_with_msb(2),
            node_id_with_msb(4),
            node_id_with_msb(5),
            node_id_with_msb(7),
        ]),
    ]);
    let mut not_generated = HashSet::new();
    for path in expected_paths {
        if !paths.remove(&path) {
            not_generated.insert(path);
        }
    }
    assert!(
        not_generated.is_empty() && paths.is_empty(),
        "Not generated paths: {:#?}; Additionally generated paths: {:#?}",
        not_generated,
        paths
    );
}

#[test]
fn calculates_only_bidirectionally_approved_paths() {
    /*
    Topology:

         /- 2 -\
       1 -- 3 -- 4

    */

    let root_id = node_id_with_msb(1);

    let mut graph = VicinityGraph::new(root_id);
    graph.insert(
        node_id_with_msb(1),
        HashSet::from_iter([node_id_with_msb(2), node_id_with_msb(3)]),
    );
    graph.insert(
        node_id_with_msb(2),
        HashSet::from_iter([node_id_with_msb(1), node_id_with_msb(4)]),
    );
    graph.insert(
        node_id_with_msb(4),
        HashSet::from_iter([node_id_with_msb(2), node_id_with_msb(3)]),
    );

    let mut paths = graph.paths().into_iter().collect::<HashSet<_>>();
    let expected_paths = HashSet::from([
        Vec::from([node_id_with_msb(1), node_id_with_msb(2)]),
        Vec::from([
            node_id_with_msb(1),
            node_id_with_msb(2),
            node_id_with_msb(4),
        ]),
    ]);
    let mut not_generated = HashSet::new();
    for path in expected_paths {
        if !paths.remove(&path) {
            not_generated.insert(path);
        }
    }
    assert!(
        not_generated.is_empty() && paths.is_empty(),
        "Not generated paths: {:#?}; Additionally generated paths: {:#?}",
        not_generated,
        paths
    );
}

#[test]
fn calculates_no_entries_for_invalidated_entries() {
    /*
    Topology:

         /- 2 -\
       1 -- 3 -- 4

    */

    let root_id = node_id_with_msb(1);

    let mut graph = VicinityGraph::new(root_id);
    graph.insert(
        node_id_with_msb(1),
        HashSet::from_iter([node_id_with_msb(2), node_id_with_msb(3)]),
    );
    graph.insert(
        node_id_with_msb(2),
        HashSet::from_iter([node_id_with_msb(1), node_id_with_msb(4)]),
    );
    graph.insert(
        node_id_with_msb(3),
        HashSet::from_iter([node_id_with_msb(1), node_id_with_msb(4)]),
    );
    graph.insert(
        node_id_with_msb(4),
        HashSet::from_iter([node_id_with_msb(2), node_id_with_msb(3)]),
    );
    assert!(
        graph.invalidate(&node_id_with_msb(3)),
        "Failed to invalidate node 3"
    );

    let mut paths = graph.paths().into_iter().collect::<HashSet<_>>();
    let expected_paths = HashSet::from([
        Vec::from([node_id_with_msb(1), node_id_with_msb(2)]),
        Vec::from([
            node_id_with_msb(1),
            node_id_with_msb(2),
            node_id_with_msb(4),
        ]),
    ]);
    let mut not_generated = HashSet::new();
    for path in expected_paths {
        if !paths.remove(&path) {
            not_generated.insert(path);
        }
    }
    assert!(
        not_generated.is_empty() && paths.is_empty(),
        "Not generated paths: {:#?}; Additionally generated paths: {:#?}",
        not_generated,
        paths
    );
}
