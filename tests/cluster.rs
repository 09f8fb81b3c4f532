use dfut::{Cluster, ConfigError, MaybeFut, ResourceConfig, ScheduleError};

fn config(entries: &[(&str, usize)]) -> ResourceConfig {
    let mut c = ResourceConfig::new();
    for (name, amount) in entries {
        c.insert(name.to_string(), *amount);
    }
    c
}

fn two_nodes() -> Vec<(u32, ResourceConfig)> {
    vec![(0, config(&[])), (1, config(&[("cpus", 2)]))]
}

#[test]
fn cluster_needs_its_own_node() {
    assert!(matches!(Cluster::<()>::new(5, two_nodes()), Err(ConfigError::MissingSelf)));
    let dup = vec![(0, config(&[])), (0, config(&[("cpus", 1)]))];
    assert!(matches!(Cluster::<()>::new(0, dup), Err(ConfigError::DuplicateNode)));
}

#[test]
fn cluster_sessions_start() {
    let mut c: Cluster<&'static str> = Cluster::new(0, two_nodes()).unwrap();
    assert_eq!(c.id(), 0);
    assert_eq!(c.local_resources().get(&"cpus".to_string()), None);
    assert!(!c.connection(0).unwrap().is_started());
    assert!(c.connection(7).is_none());
    c.start_local();
    assert!(c.connection(0).unwrap().is_local());
    assert_eq!(c.start_remote(0, "self"), Err(ConfigError::UnknownPeer));
    assert_eq!(c.start_remote(3, "none"), Err(ConfigError::UnknownPeer));
    assert_eq!(c.start_remote(1, "first"), Ok(None));
    // the peer re-opens its stream: the first session is handed back
    assert_eq!(c.start_remote(1, "second"), Ok(Some("first")));
    assert_eq!(c.connection(1).unwrap().remote(), Some(&"second"));
}

#[test]
fn cluster_places_by_resources() {
    let c: Cluster<()> = Cluster::new(0, two_nodes()).unwrap();
    let cpu = vec![("cpus".to_string(), 1)];
    for _ in 0..200 {
        assert_eq!(c.place(&cpu), Ok(1));
    }
    assert_eq!(c.place(&vec![("cpus".to_string(), 3)]), Err(ScheduleError::NoEligiblePeer));
    let any = c.place(&Vec::new()).unwrap();
    assert!(any == 0 || any == 1);
}

#[test]
fn arguments_name_their_remote_slots() {
    let v: MaybeFut<u64> = MaybeFut::from(5);
    assert_eq!(v.get_remote_dep(), None);
    let f = dfut::DFut::new(3, 44);
    assert_eq!(f.get_remote_dep(), Some((3, 44)));
    let m: MaybeFut<u64> = MaybeFut::from_fut(f);
    assert_eq!(m.get_remote_dep(), Some((3, 44)));
}
