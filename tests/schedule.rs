use dfut::{can_execute, eligible_peers, place, place_with, ResourceConfig, ScheduleError};

fn config(entries: &[(&str, usize)]) -> ResourceConfig {
    let mut c = ResourceConfig::new();
    for (name, amount) in entries {
        c.insert(name.to_string(), *amount);
    }
    c
}

fn reqs(entries: &[(&str, usize)]) -> Vec<(String, usize)> {
    entries.iter().map(|(n, a)| (n.to_string(), *a)).collect()
}

#[test]
fn requirement_needs_enough_capacity() {
    let c = config(&[("cpus", 3), ("gpu", 1)]);
    assert!(can_execute(&reqs(&[]), &c));
    assert!(can_execute(&reqs(&[("cpus", 3)]), &c));
    assert!(can_execute(&reqs(&[("cpus", 1), ("gpu", 1)]), &c));
    assert!(!can_execute(&reqs(&[("cpus", 4)]), &c));
    assert!(!can_execute(&reqs(&[("disk", 1)]), &c));
    assert!(!can_execute(&reqs(&[("cpus", 1)]), &ResourceConfig::new()));
}

#[test]
fn eligible_peers_keep_order() {
    let peers = vec![
        (0, config(&[])),
        (1, config(&[("cpus", 2)])),
        (2, config(&[("dummy", 1)])),
        (3, config(&[("cpus", 1)])),
    ];
    assert_eq!(eligible_peers(&reqs(&[("cpus", 1)]), &peers), vec![1, 3]);
    assert_eq!(eligible_peers(&reqs(&[("cpus", 2)]), &peers), vec![1]);
    assert_eq!(eligible_peers(&reqs(&[]), &peers), vec![0, 1, 2, 3]);
}

#[test]
fn place_with_draw_wraps_round() {
    let peers = vec![(0, config(&[])), (1, config(&[("cpus", 1)])), (2, config(&[("cpus", 1)]))];
    let r = reqs(&[("cpus", 1)]);
    assert_eq!(place_with(&r, &peers, 0), Ok(1));
    assert_eq!(place_with(&r, &peers, 1), Ok(2));
    assert_eq!(place_with(&r, &peers, 5), Ok(2));
    assert_eq!(place_with(&reqs(&[("cpus", 9)]), &peers, 0), Err(ScheduleError::NoEligiblePeer));
}

#[test]
fn cpu_calls_never_go_to_nodes_without_cpus() {
    let peers = vec![
        (0, config(&[])),
        (1, config(&[("cpus", 4)])),
        (2, config(&[])),
        (3, config(&[("cpus", 1)])),
        (4, config(&[("dummy", 1)])),
    ];
    let r = reqs(&[("cpus", 1)]);
    let mut seen = [false; 5];
    for _ in 0..2000 {
        let p = place(&r, &peers).unwrap();
        assert!(p == 1 || p == 3, "placed on {p}");
        seen[p as usize] = true;
    }
    assert!(seen[1] && seen[3]);
}

#[test]
fn single_eligible_peer_is_chosen() {
    let peers = vec![(0, config(&[])), (1, config(&[("cpus", 3)]))];
    for _ in 0..100 {
        assert_eq!(place(&reqs(&[("cpus", 3)]), &peers), Ok(1));
    }
}

#[test]
fn no_eligible_peer_fails() {
    let peers = vec![(0, config(&[])), (1, config(&[("cpus", 3)]))];
    assert_eq!(place(&reqs(&[("gpu", 1)]), &peers), Err(ScheduleError::NoEligiblePeer));
    assert_eq!(place(&reqs(&[]), &Vec::new()), Err(ScheduleError::NoEligiblePeer));
}
