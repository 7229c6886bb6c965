use flashdark::navmesh::NavMesh;

#[test]
fn pruning_keeps_the_component_of_the_start() {
    // 0 - 1 - 2, 3 - 4 apart, 5 alone
    let mut mesh = NavMesh {
        waypoints: vec!['a', 'b', 'c', 'd', 'e', 'f'],
        edges: vec![vec![1], vec![0, 2], vec![1], vec![4], vec![3], vec![]],
    };
    mesh.remove_unreachable_from(1);
    assert_eq!(mesh.waypoints, vec!['a', 'b', 'c']);
    assert_eq!(mesh.edges, vec![vec![1], vec![0, 2], vec![1]]);
}

#[test]
fn pruning_renumbers_the_edges() {
    // 0 is cut off; 1 -> 3 -> 2 are reachable from 3.
    let mut mesh = NavMesh {
        waypoints: vec![10, 11, 12, 13],
        edges: vec![vec![1], vec![3], vec![3, 1], vec![2]],
    };
    mesh.remove_unreachable_from(3);
    assert_eq!(mesh.waypoints, vec![11, 12, 13]);
    assert_eq!(mesh.edges, vec![vec![2], vec![2, 0], vec![1]]);
}

#[test]
fn pruning_follows_directed_edges_only() {
    let mut mesh = NavMesh {
        waypoints: vec![0u8, 1, 2],
        edges: vec![vec![], vec![0], vec![1]],
    };
    mesh.remove_unreachable_from(1);
    assert_eq!(mesh.waypoints, vec![0, 1]);
    assert_eq!(mesh.edges, vec![vec![], vec![0]]);
}

#[test]
fn pruning_a_connected_mesh_changes_nothing() {
    let mut mesh = NavMesh {
        waypoints: vec![1, 2, 3],
        edges: vec![vec![1, 2], vec![0], vec![0]],
    };
    mesh.remove_unreachable_from(2);
    assert_eq!(mesh.waypoints, vec![1, 2, 3]);
    assert_eq!(mesh.edges, vec![vec![1, 2], vec![0], vec![0]]);
    // A second pruning from the same waypoint keeps everything.
    mesh.remove_unreachable_from(2);
    assert_eq!(mesh.waypoints, vec![1, 2, 3]);
}

#[test]
fn a_lone_start_is_all_that_is_left() {
    let mut mesh = NavMesh {
        waypoints: vec![5, 6, 7],
        edges: vec![vec![1], vec![0], vec![0, 1]],
    };
    mesh.remove_unreachable_from(0);
    assert_eq!(mesh.waypoints, vec![5, 6]);
    let mut lone = NavMesh { waypoints: vec![9, 8], edges: vec![vec![], vec![0]] };
    lone.remove_unreachable_from(0);
    assert_eq!(lone.waypoints, vec![9]);
    assert_eq!(lone.edges, vec![Vec::<usize>::new()]);
}

#[test]
fn pruning_twice_is_pruning_once() {
    let mut mesh = NavMesh {
        waypoints: vec!['p', 'q', 'r', 's', 't'],
        edges: vec![vec![2], vec![0], vec![4, 0], vec![1], vec![2]],
    };
    mesh.remove_unreachable_from(2);
    let once = (mesh.waypoints.clone(), mesh.edges.clone());
    assert_eq!(once, (vec!['p', 'r', 't'], vec![vec![1], vec![2, 0], vec![1]]));
    // The start keeps its rank among the kept waypoints: 2 becomes 1.
    mesh.remove_unreachable_from(1);
    assert_eq!((mesh.waypoints, mesh.edges), once);
}
