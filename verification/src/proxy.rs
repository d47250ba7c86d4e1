//! The proxy: connection handling, capture, SOCKS5 egress and TLS forging.

use crate::proxy::conn::common::{idle_model, ProxyConnectionManager};
use crate::proxy::scap::common::{ScapAddresses, ScapProtocol, ScapStoreRef};
use crate::proxy::tls::store::TlsCertStore;
use crate::text::{str_lowercase, to_lowercase};
use vstd::prelude::*;

pub mod conn;
pub mod scap;
pub mod socks5;
pub mod tls;

verus! {

/// Makes the workers of the proxy.
pub struct ProxyWorkerSpawner {
    pub scap: ScapStoreRef,
    /// Address of the SOCKS5 upstream.
    pub socks5: String,
}

/// A worker of the proxy: it handles one connection after the other.
pub struct ProxyWorker {
    pub proxy: ProxyConnectionManager,
}

impl ProxyWorkerSpawner {
    /// A spawner whose workers capture through `scap` and dial through
    /// the upstream at `socks5`.
    pub fn neew(scap: ScapStoreRef, socks5: String) -> (s: ProxyWorkerSpawner)
        ensures
            s.scap == scap,
            s.socks5 == socks5,
    {
        ProxyWorkerSpawner { scap, socks5 }
    }

    /// A new worker, which waits for its first connection. It captures the
    /// flows that the spawner's filter matches.
    pub fn gen(&self) -> (w: ProxyWorker)
        ensures
            w.proxy@ == idle_model(),
            w.proxy.socks5@ == self.socks5@,
            forall|a: ScapAddresses, p: ScapProtocol|
                w.proxy.state.scap.filter.spec_captures(a, p) == self.scap.filter.spec_captures(
                    a,
                    p,
                ),
    {
        ProxyWorker {
            proxy: ProxyConnectionManager::new(self.scap.duplicate(), self.socks5.clone()),
        }
    }
}

/// The set of pinned hosts that the operator declared: each host of `list`
/// in lower case.
pub fn pinned_domains(list: &Vec<String>) -> (store: TlsCertStore)
    ensures
        forall|h: Seq<char>|
            store@.contains(h) <==> exists|i: int|
                0 <= i < list@.len() && str_lowercase(list@[i]@) == h,
{
    let mut set: Vec<String> = Vec::new();
    let mut i: usize = 0;
    while i < list.len()
        invariant
            i <= list@.len(),
            set@.len() == i,
            forall|k: int| 0 <= k < i ==> (#[trigger] set@[k])@ == str_lowercase(list@[k]@),
        decreases list@.len() - i,
    {
        set.push(to_lowercase(list[i].as_str()));
        i += 1;
    }
    let ghost listed = set@;
    let store = TlsCertStore::new(set);
    proof {
        assert forall|h: Seq<char>|
            store@.contains(h) <==> exists|i: int|
                0 <= i < list@.len() && str_lowercase(list@[i]@) == h by {
            if store@.contains(h) {
                let k = choose|k: int| 0 <= k < listed.len() && listed[k]@ == h;
                assert(str_lowercase(list@[k]@) == h);
            }
            if exists|i: int| 0 <= i < list@.len() && str_lowercase(list@[i]@) == h {
                let k = choose|i: int| 0 <= i < list@.len() && str_lowercase(list@[i]@) == h;
                assert(listed[k]@ == h);
            }
        }
    }
    store
}

} // verus!
