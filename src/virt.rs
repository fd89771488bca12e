//! Identities of hypervisor resources, as the orchestration core passes them
//! around. The resources themselves live behind the hypervisor layer.
use crate::text::{chars_of, string_of};
use vstd::prelude::*;

verus! {

/// A hypervisor connection, by URI.
pub struct Conn {
    pub uri: String,
}

impl Conn {
    /// The connection to the hypervisor at `uri`.
    pub fn new(uri: &str) -> (r: Conn)
        ensures
            r.uri@ == uri@,
    {
        Conn { uri: uri.to_owned() }
    }
}

/// A domain (guest), by name.
pub struct Domain {
    pub name: String,
}

/// A virtual network, by name.
pub struct Network {
    pub name: String,
}

/// A storage pool, by name.
pub struct StoragePool {
    pub name: String,
}

/// A storage volume, by path.
pub struct Volume {
    pub path: String,
}

/// The resources a template or a host was built in: a connection and,
/// once known, a domain, a network, a pool and a volume.
pub struct ResourceBlend {
    conn: Conn,
    domain: Option<Domain>,
    network: Option<Network>,
    pool: Option<StoragePool>,
    volume: Option<Volume>,
}

impl ResourceBlend {
    pub closed spec fn conn_spec(&self) -> Conn {
        self.conn
    }

    pub closed spec fn domain_spec(&self) -> Option<Domain> {
        self.domain
    }

    pub closed spec fn network_spec(&self) -> Option<Network> {
        self.network
    }

    pub closed spec fn pool_spec(&self) -> Option<StoragePool> {
        self.pool
    }

    pub closed spec fn volume_spec(&self) -> Option<Volume> {
        self.volume
    }

    /// A bundle holding only the connection.
    pub fn new(conn: Conn) -> (r: ResourceBlend)
        ensures
            r.conn_spec() == conn,
            r.domain_spec() is None,
            r.network_spec() is None,
            r.pool_spec() is None,
            r.volume_spec() is None,
    {
        ResourceBlend { conn, domain: None, network: None, pool: None, volume: None }
    }

    /// Records the domain; the rest is kept.
    pub fn put_domain(&mut self, domain: Domain)
        ensures
            final(self).domain_spec() == Some(domain),
            final(self).conn_spec() == old(self).conn_spec(),
            final(self).network_spec() == old(self).network_spec(),
            final(self).pool_spec() == old(self).pool_spec(),
            final(self).volume_spec() == old(self).volume_spec(),
    {
        self.domain = Some(domain);
    }

    /// Records the network; the rest is kept.
    pub fn put_network(&mut self, network: Network)
        ensures
            final(self).network_spec() == Some(network),
            final(self).conn_spec() == old(self).conn_spec(),
            final(self).domain_spec() == old(self).domain_spec(),
            final(self).pool_spec() == old(self).pool_spec(),
            final(self).volume_spec() == old(self).volume_spec(),
    {
        self.network = Some(network);
    }

    /// Records the storage pool; the rest is kept.
    pub fn put_pool(&mut self, pool: StoragePool)
        ensures
            final(self).pool_spec() == Some(pool),
            final(self).conn_spec() == old(self).conn_spec(),
            final(self).domain_spec() == old(self).domain_spec(),
            final(self).network_spec() == old(self).network_spec(),
            final(self).volume_spec() == old(self).volume_spec(),
    {
        self.pool = Some(pool);
    }

    /// Records the volume; the rest is kept.
    pub fn put_volume(&mut self, volume: Volume)
        ensures
            final(self).volume_spec() == Some(volume),
            final(self).conn_spec() == old(self).conn_spec(),
            final(self).domain_spec() == old(self).domain_spec(),
            final(self).network_spec() == old(self).network_spec(),
            final(self).pool_spec() == old(self).pool_spec(),
    {
        self.volume = Some(volume);
    }

    pub fn conn(&self) -> (r: &Conn)
        ensures
            *r == self.conn_spec(),
    {
        &self.conn
    }

    pub fn domain(&self) -> (r: Option<&Domain>)
        ensures
            r matches Some(d) ==> self.domain_spec() == Some(*d),
            r is None ==> self.domain_spec() is None,
    {
        self.domain.as_ref()
    }

    pub fn network(&self) -> (r: Option<&Network>)
        ensures
            r matches Some(n) ==> self.network_spec() == Some(*n),
            r is None ==> self.network_spec() is None,
    {
        self.network.as_ref()
    }

    pub fn pool(&self) -> (r: Option<&StoragePool>)
        ensures
            r matches Some(p) ==> self.pool_spec() == Some(*p),
            r is None ==> self.pool_spec() is None,
    {
        self.pool.as_ref()
    }

    pub fn volume(&self) -> (r: Option<&Volume>)
        ensures
            r matches Some(v) ==> self.volume_spec() == Some(*v),
            r is None ==> self.volume_spec() is None,
    {
        self.volume.as_ref()
    }
}

/// `root/name`.
pub open spec fn join_path(root: Seq<char>, name: Seq<char>) -> Seq<char> {
    root + seq!['/'] + name
}

fn join(root: &str, name: &str) -> (r: String)
    ensures
        r@ == join_path(root@, name@),
{
    let mut out = chars_of(root);
    out.push('/');
    let tail = chars_of(name);
    let mut i: usize = 0;
    let ghost head = out@;
    while i < tail.len()
        invariant
            0 <= i <= tail@.len(),
            out@ == head + tail@.take(i as int),
        decreases tail@.len() - i,
    {
        out.push(tail[i]);
        i += 1;
        assert(out@ =~= head + tail@.take(i as int));
    }
    assert(tail@.take(tail@.len() as int) =~= tail@);
    assert(out@ =~= join_path(root@, name@));
    string_of(&out)
}

/// Where a domain snapshot keeps its disk and its memory image.
pub struct DomainSnapshot {
    disk_path: String,
    ram_path: String,
}

impl DomainSnapshot {
    pub closed spec fn disk_path_spec(&self) -> Seq<char> {
        self.disk_path@
    }

    pub closed spec fn ram_path_spec(&self) -> Seq<char> {
        self.ram_path@
    }

    /// A snapshot whose images are named `disk_name` and `ram_name` in the
    /// pool rooted at `pool_root`.
    pub fn in_pool(pool_root: &str, disk_name: &str, ram_name: &str) -> (r: DomainSnapshot)
        ensures
            r.disk_path_spec() == join_path(pool_root@, disk_name@),
            r.ram_path_spec() == join_path(pool_root@, ram_name@),
    {
        DomainSnapshot { disk_path: join(pool_root, disk_name), ram_path: join(pool_root, ram_name) }
    }

    pub fn disk_path(&self) -> (r: String)
        ensures
            r@ == self.disk_path_spec(),
    {
        self.disk_path.clone()
    }

    pub fn ram_path(&self) -> (r: String)
        ensures
            r@ == self.ram_path_spec(),
    {
        self.ram_path.clone()
    }
}

} // verus!
