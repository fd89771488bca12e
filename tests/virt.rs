use flota::virt::{Conn, Domain, DomainSnapshot, Network, ResourceBlend, StoragePool, Volume};

#[test]
fn test_conn_new() {
    Conn::new("test:///default");
    assert!(true);
}

#[test]
fn conn_keeps_uri() {
    assert_eq!(Conn::new("qemu:///system").uri, "qemu:///system");
}

#[test]
fn resource_blend_fills_in() {
    let mut rb = ResourceBlend::new(Conn::new("test:///default"));
    assert!(rb.domain().is_none());
    assert!(rb.network().is_none());
    assert!(rb.pool().is_none());
    assert!(rb.volume().is_none());
    rb.put_network(Network { name: "mgmt".to_string() });
    rb.put_pool(StoragePool { name: "_flota".to_string() });
    rb.put_domain(Domain { name: "web1".to_string() });
    rb.put_volume(Volume { path: "/tmp/web1.qcow2".to_string() });
    assert_eq!(rb.conn().uri, "test:///default");
    assert_eq!(rb.network().unwrap().name, "mgmt");
    assert_eq!(rb.pool().unwrap().name, "_flota");
    assert_eq!(rb.domain().unwrap().name, "web1");
    assert_eq!(rb.volume().unwrap().path, "/tmp/web1.qcow2");
}

#[test]
fn snapshot_paths_in_pool() {
    let snap = DomainSnapshot::in_pool("/var/lib/flota", "base.001.disk", "base.001.ram");
    assert_eq!(snap.disk_path(), "/var/lib/flota/base.001.disk");
    assert_eq!(snap.ram_path(), "/var/lib/flota/base.001.ram");
}
