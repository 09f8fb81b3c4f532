use dfut::{cpu_count, DummyResources, ResourceConfig, Resources};

#[test]
fn config_insert_replaces() {
    let mut c = ResourceConfig::new();
    assert_eq!(c.get(&"cpus".to_string()), None);
    c.insert("cpus".to_string(), 2);
    c.insert("gpu".to_string(), 1);
    c.insert("cpus".to_string(), 5);
    assert_eq!(c.get(&"cpus".to_string()), Some(5));
    assert_eq!(c.get(&"gpu".to_string()), Some(1));
    assert_eq!(c.get(&"disk".to_string()), None);
}

#[test]
fn cpu_count_reads_cpus() {
    let mut c = ResourceConfig::new();
    assert_eq!(cpu_count(&c), 0);
    c.insert("dummy".to_string(), 1);
    assert_eq!(cpu_count(&c), 0);
    c.insert("cpus".to_string(), 3);
    assert_eq!(cpu_count(&c), 3);
}

#[test]
fn dummy_resources_build_from_any_config() {
    let mut c = ResourceConfig::new();
    c.insert("dummy".to_string(), 1);
    let d = DummyResources::from_config(&c);
    d.dummy::<1>();
    <() as Resources>::from_config(&c);
}
