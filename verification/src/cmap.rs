//! A counter store backed by a concurrent map: the outside crate updates each
//! entry under a shard lock, so every method works through a shared
//! reference. The store's contents live behind that interior mutability and
//! are shared between clones, so nothing is claimed of them; the step applied
//! to a counter is the library's own verified `bump`.
use vstd::prelude::*;

use crate::metric::MetricsError;
use dashmap::DashMap;
use std::sync::Arc;

verus! {

#[verifier::external_type_specification]
#[verifier::external_body]
#[verifier::reject_recursive_types(K)]
#[verifier::reject_recursive_types(V)]
#[verifier::reject_recursive_types(S)]
pub struct ExDashMap<K, V, S>(DashMap<K, V, S>);

/// The value of a counter moved by `delta`, wrapping at the `i64` limits as
/// two's-complement addition does.
pub open spec fn wrap_add(v: int, d: int) -> int {
    if v + d > i64::MAX {
        v + d - 0x1_0000_0000_0000_0000
    } else if v + d < i64::MIN {
        v + d + 0x1_0000_0000_0000_0000
    } else {
        v + d
    }
}

/// Moves a counter by `delta` with two's-complement wrapping.
pub fn bump(v: i64, delta: i64) -> (r: i64)
    ensures
        r as int == wrap_add(v as int, delta as int),
{
    let s: i128 = v as i128 + delta as i128;
    if s > i64::MAX as i128 {
        (s - 0x1_0000_0000_0000_0000i128) as i64
    } else if s < i64::MIN as i128 {
        (s + 0x1_0000_0000_0000_0000i128) as i64
    } else {
        s as i64
    }
}

/// Relies on dashmap::DashMap::new: creates an empty map.
#[verifier::external_body]
fn dashmap_new() -> DashMap<String, i64> {
    DashMap::new()
}

/// Relies on dashmap::DashMap's entry API: `entry(key)` takes the key's
/// shard lock; `and_modify` applies `bump` to an existing counter, and
/// `or_insert_with` creates the counter as `bump(0, delta)` otherwise. The
/// map is shared and interior-mutable, so nothing is stated of its contents.
#[verifier::external_body]
fn dashmap_bump(map: &Arc<DashMap<String, i64>>, key: String, delta: i64) {
    map.entry(key).and_modify(|v| *v = bump(*v, delta)).or_insert_with(|| bump(0, delta));
}

/// Relies on dashmap::DashMap's Debug impl: renders the entries; their order
/// is unspecified, so nothing is stated of the text.
#[verifier::external_body]
fn dashmap_debug(map: &Arc<DashMap<String, i64>>) -> String {
    format!("{:?}", map)
}

/// A counter store over a concurrent map, shared between its clones.
#[derive(Clone)]
pub struct CmapMetrics {
    pub data: Arc<DashMap<String, i64>>,
}

impl CmapMetrics {
    /// An empty store.
    pub fn new() -> Self {
        CmapMetrics { data: Arc::new(dashmap_new()) }
    }

    /// Moves the counter of `key` up by one, creating it at one on first
    /// use; never fails.
    pub fn inc(&self, key: String) -> (r: Result<(), MetricsError>)
        ensures
            r matches Ok(_),
    {
        dashmap_bump(&self.data, key, 1);
        Ok(())
    }

    /// Moves the counter of `key` down by one, creating it at minus one on
    /// first use; never fails.
    pub fn dec(&self, key: String) -> (r: Result<(), MetricsError>)
        ensures
            r matches Ok(_),
    {
        dashmap_bump(&self.data, key, -1);
        Ok(())
    }

    /// A textual rendering of the entries, in the map's own order; never
    /// fails.
    pub fn debug(&self) -> (r: Result<String, MetricsError>)
        ensures
            r matches Ok(_),
    {
        Ok(dashmap_debug(&self.data))
    }
}

} // verus!
