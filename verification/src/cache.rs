//! RAM/accelerator expert residency over immutable storage.
//!
//! The manager decides; it does no I/O. A request for an expert starts with
//! `begin_get`, which either answers from a cache tier or asks the caller to
//! load the payload: the caller reserves host bytes with `reserve_host`, reads
//! the payload from storage, and hands it to `finish_get` (or gives the
//! reservation back with `cancel_host_reservation` when the read fails).
//! Every expert handed out is a lease: it keeps its host bytes and its
//! accelerator allocation counted as live until it is given back with
//! `release`, even when the cache has evicted the entry meanwhile.
use vstd::prelude::*;
use std::sync::Arc;
use crate::manifest::ExpertKey;
use crate::text::{str_ends_with, string_of};

verus! {

/// One tensor's byte range inside an expert payload.
pub struct ResidentTensor {
    pub name: String,
    pub offset: usize,
    pub length: usize,
}

/// The bytes of one expert as read from storage, and its tensor map.
pub struct ExpertPayload {
    pub bytes: Arc<Vec<u8>>,
    pub tensors: Arc<Vec<ResidentTensor>>,
}

#[derive(Debug, Clone, Copy, PartialEq, Eq, Structural)]
pub struct AcceleratorBuffer {
    pub id: u64,
    pub bytes: usize,
}

/// Architecture-independent accelerator memory operations. Implementations
/// own allocation and copies; the residency manager never reads or changes
/// weight bytes.
pub trait Accelerator {
    fn name(&self) -> &str;

    fn upload(&self, key: ExpertKey, bytes: &[u8]) -> Result<AcceleratorBuffer, String>;

    fn release(&self, buffer: &AcceleratorBuffer);
}

/// The accelerator of a host-only runtime: every upload is refused.
pub struct NoAccelerator;

impl Accelerator for NoAccelerator {
    fn name(&self) -> (n: &str)
        ensures
            n@ == "none"@,
    {
        "none"
    }

    fn upload(&self, key: ExpertKey, bytes: &[u8]) -> (r: Result<AcceleratorBuffer, String>)
        ensures
            r matches Err(m) && m@ == "no accelerator backend is active"@,
    {
        Err(string_of("no accelerator backend is active"))
    }

    fn release(&self, buffer: &AcceleratorBuffer) {
    }
}

#[derive(Debug, Clone, Copy, PartialEq, Eq, Structural)]
pub enum ResidencyTier {
    Accelerator,
    Ram,
    Storage,
}

/// An accelerator allocation held by a lease.
pub struct DeviceLease {
    pub allocation: u64,
    pub buffer: AcceleratorBuffer,
}

/// An expert handed out by the manager. It is a lease on its host bytes
/// and on its accelerator allocation until given back with `release`.
pub struct ResidentExpert {
    pub key: ExpertKey,
    pub host_bytes: Option<Arc<Vec<u8>>>,
    /// Tensor-name to byte-range mapping within `host_bytes` or the combined
    /// accelerator allocation.
    pub tensors: Arc<Vec<ResidentTensor>>,
    pub host_lease: Option<u64>,
    pub device: Option<DeviceLease>,
    pub source_tier: ResidencyTier,
}

/// The first tensor whose name ends with `suffix`.
pub open spec fn first_tensor(ts: Seq<ResidentTensor>, suffix: Seq<char>) -> Option<ResidentTensor>
    decreases ts.len(),
{
    if ts.len() == 0 {
        None
    } else if crate::text::seq_ends_with(ts[0].name@, suffix) {
        Some(ts[0])
    } else {
        first_tensor(ts.drop_first(), suffix)
    }
}

/// The host bytes of the first tensor named with `suffix`, when the expert
/// has host bytes and the tensor's range lies inside them.
pub open spec fn tensor_range(bytes: Option<Seq<u8>>, ts: Seq<ResidentTensor>, suffix: Seq<char>) -> Option<Seq<u8>> {
    match bytes {
        None => None,
        Some(b) => match first_tensor(ts, suffix) {
            None => None,
            Some(t) => if t.offset + t.length <= b.len() {
                Some(b.subrange(t.offset as int, t.offset + t.length))
            } else {
                None
            },
        },
    }
}

fn find_tensor(ts: &Vec<ResidentTensor>, suffix: &str) -> (r: Option<usize>)
    ensures
        match r {
            Some(i) => i < ts@.len() && first_tensor(ts@, suffix@) == Some(ts@[i as int]),
            None => first_tensor(ts@, suffix@) is None,
        },
{
    let mut i: usize = 0;
    assert(ts@.skip(0) =~= ts@);
    while i < ts.len()
        invariant
            i <= ts@.len(),
            first_tensor(ts@, suffix@) == first_tensor(ts@.skip(i as int), suffix@),
        decreases ts@.len() - i,
    {
        let ghost rest = ts@.skip(i as int);
        assert(rest[0] == ts@[i as int]);
        assert(rest.drop_first() =~= ts@.skip(i + 1));
        if str_ends_with(ts[i].name.as_str(), suffix) {
            return Some(i);
        }
        i += 1;
    }
    None
}

impl ResidentExpert {
    pub open spec fn host_view(&self) -> Option<Seq<u8>> {
        match self.host_bytes {
            Some(b) => Some(b@),
            None => None,
        }
    }

    pub fn accelerator_buffer(&self) -> (r: Option<AcceleratorBuffer>)
        ensures
            r == (match self.device {
                Some(d) => Some(d.buffer),
                None => None,
            }),
    {
        match &self.device {
            Some(d) => Some(d.buffer),
            None => None,
        }
    }

    /// A copy of the bytes of the first tensor whose name ends with `suffix`.
    pub fn tensor_bytes(&self, suffix: &str) -> (r: Option<&[u8]>)
        ensures
            match r {
                Some(v) => tensor_range(self.host_view(), self.tensors@, suffix@) == Some(v@),
                None => tensor_range(self.host_view(), self.tensors@, suffix@) is None,
            },
    {
        let bytes = match &self.host_bytes {
            Some(b) => b,
            None => return None,
        };
        let ts: &Vec<ResidentTensor> = &*self.tensors;
        let k = match find_tensor(ts, suffix) {
            Some(k) => k,
            None => return None,
        };
        let t = &ts[k];
        let data: &Vec<u8> = &**bytes;
        if t.offset > data.len() || t.length > data.len() - t.offset {
            return None;
        }
        Some(vstd::slice::slice_subrange(data.as_slice(), t.offset, t.offset + t.length))
    }
}

#[derive(Debug, Clone, Copy, PartialEq, Eq, Structural)]
pub struct CacheMetrics {
    pub accelerator_hits: u64,
    pub ram_hits: u64,
    pub storage_loads: u64,
    pub accelerator_evictions: u64,
    pub ram_evictions: u64,
    pub accelerator_bytes: u64,
    /// Includes allocations held by active leases after cache eviction.
    pub accelerator_live_bytes: u64,
    pub accelerator_peak_bytes: u64,
    pub ram_bytes: u64,
    /// Includes host allocations held by active leases after cache eviction.
    pub ram_live_bytes: u64,
    pub ram_peak_bytes: u64,
    pub ram_budget_denials: u64,
    pub accelerator_budget_denials: u64,
}

impl Default for CacheMetrics {
    fn default() -> (m: Self)
        ensures
            m == CacheMetrics::zero(),
    {
        CacheMetrics {
            accelerator_hits: 0,
            ram_hits: 0,
            storage_loads: 0,
            accelerator_evictions: 0,
            ram_evictions: 0,
            accelerator_bytes: 0,
            accelerator_live_bytes: 0,
            accelerator_peak_bytes: 0,
            ram_bytes: 0,
            ram_live_bytes: 0,
            ram_peak_bytes: 0,
            ram_budget_denials: 0,
            accelerator_budget_denials: 0,
        }
    }
}

impl CacheMetrics {
    pub open spec fn zero() -> CacheMetrics {
        CacheMetrics {
            accelerator_hits: 0,
            ram_hits: 0,
            storage_loads: 0,
            accelerator_evictions: 0,
            ram_evictions: 0,
            accelerator_bytes: 0,
            accelerator_live_bytes: 0,
            accelerator_peak_bytes: 0,
            ram_bytes: 0,
            ram_live_bytes: 0,
            ram_peak_bytes: 0,
            ram_budget_denials: 0,
            accelerator_budget_denials: 0,
        }
    }
}

#[derive(Debug)]
pub enum CacheError {
    Storage(String),
    Poisoned,
    HostBudget { key: ExpertKey, required: u64, budget: u64 },
}

/// Sum of a sequence of byte counts.
pub open spec fn total(s: Seq<u64>) -> nat
    decreases s.len(),
{
    if s.len() == 0 {
        0
    } else {
        total(s.drop_last()) + s.last() as nat
    }
}

pub proof fn lemma_total_push(s: Seq<u64>, x: u64)
    ensures
        total(s.push(x)) == total(s) + x,
{
    assert(s.push(x).drop_last() =~= s);
}

pub proof fn lemma_total_remove(s: Seq<u64>, i: int)
    requires
        0 <= i < s.len(),
    ensures
        total(s.remove(i)) == total(s) - s[i],
    decreases s.len(),
{
    if i == s.len() - 1 {
        assert(s.remove(i) =~= s.drop_last());
    } else {
        lemma_total_remove(s.drop_last(), i);
        assert(s.remove(i).drop_last() =~= s.drop_last().remove(i));
        assert(s.remove(i).last() == s.last());
    }
}

pub proof fn lemma_total_element(s: Seq<u64>, i: int)
    requires
        0 <= i < s.len(),
    ensures
        s[i] <= total(s),
{
    lemma_total_remove(s, i);
}


/// A second handle on the same shared allocation (`Arc::clone`).
#[verifier::external_body]
fn share<T>(a: &Arc<T>) -> (r: Arc<T>)
    ensures
        r == *a,
{
    Arc::clone(a)
}

struct HostEntry {
    key: ExpertKey,
    payload: ExpertPayload,
    size: u64,
    lease: u64,
    holders: u64,
    last_used: u64,
    heat: u64,
}

/// Host bytes evicted from the cache but still held by leases.
struct RetiredHost {
    lease: u64,
    size: u64,
    holders: u64,
}

struct DeviceEntry {
    key: ExpertKey,
    allocation: u64,
    tensors: Arc<Vec<ResidentTensor>>,
    size: u64,
    last_used: u64,
    heat: u64,
}

/// One live accelerator allocation; `holders` counts the leases on it.
struct Allocation {
    id: u64,
    buffer: AcceleratorBuffer,
    reserved: u64,
    holders: u64,
}

struct Reserved {
    id: u64,
    size: u64,
}

/// Host bytes reserved for one expert load, to be completed by `finish_get`
/// or `finish_prefetch`, or given back by `cancel_host_reservation`.
pub struct HostReservation {
    key: ExpertKey,
    size: u64,
    id: u64,
}

impl HostReservation {
    pub closed spec fn key_spec(&self) -> ExpertKey {
        self.key
    }

    pub closed spec fn size_spec(&self) -> u64 {
        self.size
    }

    pub fn key(&self) -> (k: ExpertKey)
        ensures
            k == self.key_spec(),
    {
        self.key
    }

    pub fn size(&self) -> (s: u64)
        ensures
            s == self.size_spec(),
    {
        self.size
    }
}

spec fn host_sizes(h: Seq<HostEntry>) -> Seq<u64> {
    h.map_values(|e: HostEntry| e.size)
}

spec fn retired_sizes(r: Seq<RetiredHost>) -> Seq<u64> {
    r.map_values(|e: RetiredHost| e.size)
}

spec fn device_sizes(d: Seq<DeviceEntry>) -> Seq<u64> {
    d.map_values(|e: DeviceEntry| e.size)
}

spec fn allocation_sizes(a: Seq<Allocation>) -> Seq<u64> {
    a.map_values(|e: Allocation| e.reserved)
}

spec fn reserved_sizes(r: Seq<Reserved>) -> Seq<u64> {
    r.map_values(|e: Reserved| e.size)
}

/// RAM/accelerator expert residency with hard live-byte budgets.
pub struct ResidencyManager<A: Accelerator> {
    accelerator: A,
    ram_cache_budget: u64,
    ram_live_budget: u64,
    accelerator_cache_budget: u64,
    accelerator_live_budget: u64,
    accelerator_live_bytes: u64,
    accelerator_peak_bytes: u64,
    clock: u64,
    next_id: u64,
    heat: Vec<(ExpertKey, u64)>,
    host: Vec<HostEntry>,
    retired: Vec<RetiredHost>,
    device: Vec<DeviceEntry>,
    allocations: Vec<Allocation>,
    reservations: Vec<Reserved>,
    reserved_host_bytes: u64,
    retired_host_bytes: u64,
    metrics: CacheMetrics,
}

impl<A: Accelerator> ResidencyManager<A> {
    /// Host bytes held live: cached payloads and evicted payloads still leased.
    pub closed spec fn host_live(&self) -> nat {
        total(host_sizes(self.host@)) + total(retired_sizes(self.retired@))
    }

    /// Host bytes that some lease holds: leased cached payloads and every
    /// evicted payload still held.
    pub closed spec fn host_leased(&self) -> nat {
        total(host_leased_sizes(self.host@)) + total(retired_sizes(self.retired@))
    }

    /// Host bytes reserved for loads in progress.
    pub closed spec fn host_reserved(&self) -> nat {
        self.reserved_host_bytes as nat
    }

    /// Bytes of accelerator allocations that are cached or leased.
    pub closed spec fn accelerator_live(&self) -> nat {
        self.accelerator_live_bytes as nat
    }

    pub closed spec fn ram_cache_limit(&self) -> u64 {
        self.ram_cache_budget
    }

    pub closed spec fn ram_live_limit(&self) -> u64 {
        self.ram_live_budget
    }

    pub closed spec fn accelerator_cache_limit(&self) -> u64 {
        self.accelerator_cache_budget
    }

    pub closed spec fn accelerator_live_limit(&self) -> u64 {
        self.accelerator_live_budget
    }

    /// Bytes of the accelerator allocations that some lease holds.
    pub closed spec fn accelerator_leased(&self) -> nat {
        total(leased_sizes(self.allocations@))
    }

    /// Bytes cached on the accelerator.
    pub closed spec fn accelerator_cached(&self) -> nat {
        total(device_sizes(self.device@))
    }

    pub closed spec fn ram_peak(&self) -> u64 {
        self.metrics.ram_peak_bytes
    }

    pub closed spec fn accelerator_peak(&self) -> u64 {
        self.accelerator_peak_bytes
    }

    pub closed spec fn stats(&self) -> CacheMetrics {
        self.metrics
    }

    pub closed spec fn cached_on_device(&self, key: ExpertKey) -> bool {
        exists|i: int| 0 <= i < self.device@.len() && #[trigger] self.device@[i].key == key
    }

    pub closed spec fn cached_in_ram(&self, key: ExpertKey) -> bool {
        exists|i: int| 0 <= i < self.host@.len() && #[trigger] self.host@[i].key == key
    }

    /// How the cached RAM payload of `key` ranks for eviction: how often it
    /// was requested and when it was last used (meaningful when cached).
    pub closed spec fn ram_rank(&self, key: ExpertKey) -> (u64, u64) {
        let i = choose|i: int| 0 <= i < self.host@.len() && #[trigger] self.host@[i].key == key;
        (self.host@[i].heat, self.host@[i].last_used)
    }

    /// Every expert that left the RAM cache between `self` and `next` ranked
    /// for eviction no later than any expert but `key` still cached: the
    /// least recently used of a heat class goes first.
    pub open spec fn ram_evicted_in_order(&self, next: &Self, key: ExpertKey) -> bool {
        forall|gone: ExpertKey, kept: ExpertKey|
            self.cached_in_ram(gone) && !next.cached_in_ram(gone)
            && #[trigger] next.cached_in_ram(kept) && kept != key
            ==> evicts_before(#[trigger] self.ram_rank(gone).0, self.ram_rank(gone).1,
                next.ram_rank(kept).0, next.ram_rank(kept).1)
    }

    /// Eviction order survives steps that keep every other expert as it was.
    proof fn lemma_evicted_in_order_chain(o: &Self, l: &Self, r: &Self, f: &Self, key: ExpertKey)
        requires
            !o.cached_in_ram(key),
            o.ram_kept_except(l, key),
            l.ram_evicted_in_order(r, key),
            forall|k: ExpertKey| #[trigger] r.cached_in_ram(k) ==> l.cached_in_ram(k) && r.ram_rank(k) == l.ram_rank(k),
            r.ram_kept_except(f, key),
        ensures
            o.ram_evicted_in_order(f, key),
    {
        assert forall|gone: ExpertKey, kept: ExpertKey|
            o.cached_in_ram(gone) && !f.cached_in_ram(gone)
            && #[trigger] f.cached_in_ram(kept) && kept != key
            implies evicts_before(#[trigger] o.ram_rank(gone).0, o.ram_rank(gone).1,
                f.ram_rank(kept).0, f.ram_rank(kept).1) by {
            assert(gone != key);
            assert(l.cached_in_ram(gone) == o.cached_in_ram(gone));
            assert(f.cached_in_ram(gone) == r.cached_in_ram(gone));
            assert(f.cached_in_ram(kept) == r.cached_in_ram(kept));
            assert(r.cached_in_ram(kept));
            assert(l.cached_in_ram(kept));
        }
    }

    /// Every expert but `key` is cached in RAM after as before, with the
    /// same eviction rank.
    pub open spec fn ram_kept_except(&self, next: &Self, key: ExpertKey) -> bool {
        forall|k: ExpertKey| k != key ==> #[trigger] next.cached_in_ram(k) == self.cached_in_ram(k)
            && (self.cached_in_ram(k) ==> next.ram_rank(k) == self.ram_rank(k))
    }

    /// Steps that leave the cached RAM payloads as they were keep every rank.
    proof fn lemma_kept_same_hosts(a: &Self, b: &Self, c: &Self, d: &Self, key: ExpertKey)
        requires
            a.host@ == b.host@,
            b.ram_kept_except(c, key),
            c.host@ == d.host@,
        ensures
            a.ram_kept_except(d, key),
    {
        assert forall|k: ExpertKey| k != key implies #[trigger] d.cached_in_ram(k) == a.cached_in_ram(k)
            && (a.cached_in_ram(k) ==> d.ram_rank(k) == a.ram_rank(k)) by {
            assert(c.cached_in_ram(k) == b.cached_in_ram(k));
        }
    }

    /// Replacing `key`'s entry (at `i`, when there is one) by `e` keeps every
    /// other expert cached with the same eviction rank.
    proof fn lemma_kept_replace(a: &Self, b: &Self, key: ExpertKey, i: int, e: HostEntry)
        requires
            host_keys_unique(a.host@),
            host_keys_unique(b.host@),
            e.key == key,
            -1 <= i < a.host@.len(),
            0 <= i ==> a.host@[i].key == key && b.host@ == a.host@.remove(i).push(e),
            i == -1 ==> b.host@ == a.host@.push(e),
        ensures
            a.ram_kept_except(b, key),
    {
        let h = a.host@;
        let g = b.host@;
        let r = if i >= 0 { h.remove(i) } else { h };
        assert(g == r.push(e));
        assert forall|k: ExpertKey| k != key implies #[trigger] b.cached_in_ram(k) == a.cached_in_ram(k)
            && (a.cached_in_ram(k) ==> b.ram_rank(k) == a.ram_rank(k)) by {
            if b.cached_in_ram(k) {
                let j = choose|j: int| 0 <= j < g.len() && #[trigger] g[j].key == k;
                assert(j < r.len());
                if i >= 0 && j >= i {
                    assert(g[j] == h[j + 1]);
                } else {
                    assert(g[j] == h[j]);
                }
            }
            if a.cached_in_ram(k) {
                let m = choose|m: int| 0 <= m < h.len() && #[trigger] h[m].key == k;
                let jm = if i >= 0 && m > i { m - 1 } else { m };
                assert(m != i);
                assert(g[jm] == h[m]);
                let jb = choose|jj: int| 0 <= jj < g.len() && #[trigger] g[jj].key == k;
                assert(jb == jm);
            }
        }
    }

    /// Leases on the first cached payload whose lease is `lease`, if any.
    pub closed spec fn cached_lease_holders(&self, lease: u64) -> Option<u64> {
        match first_with_lease(self.host@, lease) {
            Some(e) => Some(e.holders),
            None => None,
        }
    }

    /// Size and leases of the first evicted payload whose lease is `lease`,
    /// if any.
    pub closed spec fn retired_lease(&self, lease: u64) -> Option<(u64, u64)> {
        match first_retired(self.retired@, lease) {
            Some(r) => Some((r.size, r.holders)),
            None => None,
        }
    }

    /// Size and leases of the first accelerator allocation `id`, if any.
    pub closed spec fn allocation_lease(&self, id: u64) -> Option<(u64, u64)> {
        match first_allocation(self.allocations@, id) {
            Some(a) => Some((a.reserved, a.holders)),
            None => None,
        }
    }

    /// The accelerator cache refers to allocation `id`.
    pub closed spec fn allocation_cached(&self, id: u64) -> bool {
        referenced(self.device@, id)
    }

    /// What giving back host lease `lease` does to the host side: a cached
    /// payload keeps its bytes and loses one lease; an evicted payload that
    /// loses its last lease stops counting as live.
    pub open spec fn host_lease_released(&self, next: &Self, lease: u64) -> bool {
        match self.cached_lease_holders(lease) {
            Some(h) => next.cached_lease_holders(lease) == Some(released(h)) && next.host_live() == self.host_live(),
            None => match self.retired_lease(lease) {
                Some((size, h)) => if h <= 1 {
                    next.host_live() + size == self.host_live()
                } else {
                    next.host_live() == self.host_live() && next.retired_lease(lease) == Some((size, (h - 1) as u64))
                },
                None => next.host_live() == self.host_live(),
            },
        }
    }

    /// What giving back accelerator lease `id` does: the allocation loses one
    /// lease and, with none left and no cache entry on it, is given back.
    pub open spec fn device_lease_released(&self, next: &Self, id: u64) -> bool {
        match self.allocation_lease(id) {
            Some((size, h)) => if h <= 1 && !self.allocation_cached(id) {
                next.accelerator_live() + size == self.accelerator_live()
            } else {
                next.accelerator_live() == self.accelerator_live() && next.allocation_lease(id) == Some((size, released(h)))
            },
            None => next.accelerator_live() == self.accelerator_live(),
        }
    }

    /// `t` is a host reservation the manager still holds.
    pub closed spec fn holds_reservation(&self, t: HostReservation) -> bool {
        self.has_reserved(t.id, t.size)
    }

    /// Some outstanding reservation has this id and size.
    spec fn has_reserved(&self, id: u64, size: u64) -> bool {
        exists|i: int| 0 <= i < self.reservations@.len() && #[trigger] self.reservations@[i].id == id
            && self.reservations@[i].size == size
    }

    /// The RAM cache holds the payload of `key`, whose bytes are `bytes`.
    pub closed spec fn ram_holds(&self, key: ExpertKey, bytes: Seq<u8>) -> bool {
        host_holds(self.host@, key, bytes)
    }

    /// The RAM cache holds `key`'s payload as `bytes` with tensor table
    /// `tensors`.
    pub closed spec fn ram_payload(&self, key: ExpertKey, bytes: Arc<Vec<u8>>, tensors: Arc<Vec<ResidentTensor>>) -> bool {
        exists|i: int| 0 <= i < self.host@.len() && #[trigger] self.host@[i].key == key
            && self.host@[i].payload.bytes == bytes && self.host@[i].payload.tensors == tensors
    }

    /// The accelerator cache's first entry for `key` has tensor table
    /// `tensors`, and the allocation it refers to holds `buffer`, whose size
    /// is the allocation's live byte count.
    pub closed spec fn device_payload(&self, key: ExpertKey, buffer: AcceleratorBuffer, tensors: Arc<Vec<ResidentTensor>>) -> bool {
        exists|i: int| 0 <= i < self.device@.len() && #[trigger] self.device@[i].key == key
            && (forall|k: int| 0 <= k < i ==> self.device@[k].key != key)
            && self.device@[i].tensors == tensors
            && (first_allocation(self.allocations@, self.device@[i].allocation) matches Some(a)
                && a.buffer == buffer && a.buffer.bytes == a.reserved)
    }

    /// What the caches hold for a key is one payload and one device entry.
    pub proof fn lemma_payload_unique(&self, key: ExpertKey, b1: Arc<Vec<u8>>, t1: Arc<Vec<ResidentTensor>>,
        b2: Arc<Vec<u8>>, t2: Arc<Vec<ResidentTensor>>, d1: AcceleratorBuffer, u1: Arc<Vec<ResidentTensor>>,
        d2: AcceleratorBuffer, u2: Arc<Vec<ResidentTensor>>)
        requires
            self.wf(),
        ensures
            self.ram_payload(key, b1, t1) && self.ram_payload(key, b2, t2) ==> b1 == b2 && t1 == t2,
            self.device_payload(key, d1, u1) && self.device_payload(key, d2, u2) ==> d1 == d2 && u1 == u2,
    {
        if self.ram_payload(key, b1, t1) && self.ram_payload(key, b2, t2) {
            let i = choose|i: int| 0 <= i < self.host@.len() && #[trigger] self.host@[i].key == key
                && self.host@[i].payload.bytes == b1 && self.host@[i].payload.tensors == t1;
            let j = choose|j: int| 0 <= j < self.host@.len() && #[trigger] self.host@[j].key == key
                && self.host@[j].payload.bytes == b2 && self.host@[j].payload.tensors == t2;
            if i != j {
                assert(self.host@[i].key != self.host@[j].key);
            }
        }
        if self.device_payload(key, d1, u1) && self.device_payload(key, d2, u2) {
            let i = choose|i: int| 0 <= i < self.device@.len() && #[trigger] self.device@[i].key == key
                && (forall|k: int| 0 <= k < i ==> self.device@[k].key != key)
                && self.device@[i].tensors == u1
                && (first_allocation(self.allocations@, self.device@[i].allocation) matches Some(a)
                    && a.buffer == d1 && a.buffer.bytes == a.reserved);
            let j = choose|j: int| 0 <= j < self.device@.len() && #[trigger] self.device@[j].key == key
                && (forall|k: int| 0 <= k < j ==> self.device@[k].key != key)
                && self.device@[j].tensors == u2
                && (first_allocation(self.allocations@, self.device@[j].allocation) matches Some(a)
                    && a.buffer == d2 && a.buffer.bytes == a.reserved);
            assert(i == j);
        }
    }

    /// The manager's internal invariant.
    pub closed spec fn wf(&self) -> bool {
        &&& self.ram_cache_budget <= self.ram_live_budget
        &&& self.accelerator_cache_budget <= self.accelerator_live_budget
        &&& self.metrics.ram_bytes == total(host_sizes(self.host@))
        &&& self.reserved_host_bytes == total(reserved_sizes(self.reservations@))
        &&& self.retired_host_bytes == total(retired_sizes(self.retired@))
        &&& forall|i: int| 0 <= i < self.retired@.len() ==> #[trigger] self.retired@[i].holders > 0
        &&& self.host_live() + self.reserved_host_bytes <= self.metrics.ram_peak_bytes
        &&& self.metrics.ram_peak_bytes <= self.ram_live_budget
        &&& self.accelerator_live_bytes == total(allocation_sizes(self.allocations@))
        &&& self.accelerator_live_bytes <= self.accelerator_peak_bytes
        &&& self.accelerator_peak_bytes <= self.accelerator_live_budget
        &&& self.metrics.accelerator_bytes == total(device_sizes(self.device@))
        &&& self.metrics.accelerator_bytes <= self.accelerator_cache_budget
        &&& backed(self.device@, self.allocations@)
        &&& buffers_sized(self.allocations@)
        &&& host_keys_unique(self.host@)
    }

    /// Hard limits: live host bytes plus reservations never exceed the RAM
    /// live budget, live accelerator bytes never exceed the accelerator live
    /// budget, cached accelerator bytes never exceed the accelerator cache
    /// budget, and each peak covers the current usage and stays within its
    /// budget.
    pub proof fn lemma_budgets(&self)
        requires
            self.wf(),
        ensures
            self.host_live() + self.host_reserved() <= self.ram_peak(),
            self.ram_peak() <= self.ram_live_limit(),
            self.accelerator_live() <= self.accelerator_peak(),
            self.accelerator_peak() <= self.accelerator_live_limit(),
            self.accelerator_cached() <= self.accelerator_cache_limit(),
            self.ram_cache_limit() <= self.ram_live_limit(),
            self.accelerator_cache_limit() <= self.accelerator_live_limit(),
    {
    }

    /// Leased host bytes stay live: an evicted payload that a lease holds
    /// keeps counting.
    pub proof fn lemma_host_leased_stay_live(&self)
        ensures
            self.host_leased() <= self.host_live(),
    {
        lemma_host_leased_le(self.host@);
    }

    /// Leased accelerator bytes stay live: no eviction gives back an
    /// allocation that a lease holds.
    pub proof fn lemma_leased_stay_live(&self)
        requires
            self.wf(),
        ensures
            self.accelerator_leased() <= self.accelerator_live(),
    {
        lemma_leased_le_live(self.allocations@);
    }

    /// An expert cached in RAM has exactly one payload.
    pub proof fn lemma_ram_payload_unique(&self, key: ExpertKey, a: Seq<u8>, b: Seq<u8>)
        requires
            self.wf(),
            self.ram_holds(key, a),
            self.ram_holds(key, b),
        ensures
            a == b,
    {
        let i = choose|i: int| 0 <= i < self.host@.len() && self.host@[i].key == key && #[trigger] self.host@[i].payload.bytes@ == a;
        let j = choose|j: int| 0 <= j < self.host@.len() && self.host@[j].key == key && #[trigger] self.host@[j].payload.bytes@ == b;
        if i != j {
            assert(self.host@[i].key != self.host@[j].key);
        }
    }

    /// An expert is cached in RAM exactly when some payload of it is held.
    pub proof fn lemma_cached_in_ram_holds(&self, key: ExpertKey)
        ensures
            self.cached_in_ram(key) <==> exists|b: Seq<u8>| self.ram_holds(key, b),
    {
        if self.cached_in_ram(key) {
            let i = choose|i: int| 0 <= i < self.host@.len() && #[trigger] self.host@[i].key == key;
            assert(self.ram_holds(key, self.host@[i].payload.bytes@));
        }
        if exists|b: Seq<u8>| self.ram_holds(key, b) {
            let b = choose|b: Seq<u8>| self.ram_holds(key, b);
            let i = choose|i: int| 0 <= i < self.host@.len() && self.host@[i].key == key && #[trigger] self.host@[i].payload.bytes@ == b;
            assert(self.host@[i].key == key);
        }
    }

    pub fn new(accelerator: A, ram_budget: u64, accelerator_budget: u64) -> (m: Self)
        ensures
            m.wf(),
            m.ram_cache_limit() == ram_budget,
            m.ram_live_limit() == ram_budget,
            m.accelerator_cache_limit() == accelerator_budget,
            m.accelerator_live_limit() == accelerator_budget,
            m.host_live() == 0,
            m.host_reserved() == 0,
            m.accelerator_live() == 0,
            m.accelerator_leased() == 0,
            m.accelerator_peak() == 0,
            m.host_leased() == 0,
            m.stats() == CacheMetrics::zero(),
    {
        Self::with_budgets(accelerator, ram_budget, ram_budget, accelerator_budget, accelerator_budget)
    }

    /// A manager whose cache budgets are capped by the matching live budgets.
    pub fn with_budgets(
        accelerator: A,
        ram_cache_budget: u64,
        ram_live_budget: u64,
        accelerator_cache_budget: u64,
        accelerator_live_budget: u64,
    ) -> (m: Self)
        ensures
            m.wf(),
            m.ram_cache_limit() == (if ram_cache_budget <= ram_live_budget { ram_cache_budget } else { ram_live_budget }),
            m.ram_live_limit() == ram_live_budget,
            m.accelerator_cache_limit() == (if accelerator_cache_budget <= accelerator_live_budget {
                accelerator_cache_budget
            } else {
                accelerator_live_budget
            }),
            m.accelerator_live_limit() == accelerator_live_budget,
            m.host_live() == 0,
            m.host_reserved() == 0,
            m.accelerator_live() == 0,
            m.accelerator_leased() == 0,
            m.accelerator_peak() == 0,
            m.host_leased() == 0,
            m.stats() == CacheMetrics::zero(),
    {
        let m = ResidencyManager {
            accelerator,
            ram_cache_budget: if ram_cache_budget <= ram_live_budget { ram_cache_budget } else { ram_live_budget },
            ram_live_budget,
            accelerator_cache_budget: if accelerator_cache_budget <= accelerator_live_budget {
                accelerator_cache_budget
            } else {
                accelerator_live_budget
            },
            accelerator_live_budget,
            accelerator_live_bytes: 0,
            accelerator_peak_bytes: 0,
            clock: 0,
            next_id: 0,
            heat: Vec::new(),
            host: Vec::new(),
            retired: Vec::new(),
            device: Vec::new(),
            allocations: Vec::new(),
            reservations: Vec::new(),
            reserved_host_bytes: 0,
            retired_host_bytes: 0,
            metrics: CacheMetrics::default(),
        };
        assert(host_sizes(m.host@) =~= Seq::<u64>::empty());
        assert(retired_sizes(m.retired@) =~= Seq::<u64>::empty());
        assert(device_sizes(m.device@) =~= Seq::<u64>::empty());
        assert(allocation_sizes(m.allocations@) =~= Seq::<u64>::empty());
        assert(leased_sizes(m.allocations@) =~= Seq::<u64>::empty());
        assert(host_leased_sizes(m.host@) =~= Seq::<u64>::empty());
        assert(reserved_sizes(m.reservations@) =~= Seq::<u64>::empty());
        m
    }
}


spec fn host_has(h: Seq<HostEntry>, k: ExpertKey) -> bool {
    exists|j: int| 0 <= j < h.len() && h[j].key == k
}

/// No two cached host payloads belong to the same expert.
spec fn host_keys_unique(h: Seq<HostEntry>) -> bool {
    forall|i: int, j: int| 0 <= i < h.len() && 0 <= j < h.len() && i != j ==> #[trigger] h[i].key != #[trigger] h[j].key
}

/// `h` caches the payload of `k` with bytes `b`.
spec fn host_holds(h: Seq<HostEntry>, k: ExpertKey, b: Seq<u8>) -> bool {
    exists|j: int| 0 <= j < h.len() && h[j].key == k && #[trigger] h[j].payload.bytes@ == b
}

proof fn lemma_host_remove_keeps(h: Seq<HostEntry>, i: int)
    requires
        0 <= i < h.len(),
        host_keys_unique(h),
    ensures
        host_keys_unique(h.remove(i)),
        !host_has(h.remove(i), h[i].key),
        forall|k: ExpertKey, b: Seq<u8>| host_holds(h.remove(i), k, b) ==> #[trigger] host_holds(h, k, b),
        forall|k: ExpertKey| #[trigger] host_has(h.remove(i), k) ==> host_has(h, k),
{
    let r = h.remove(i);
    assert forall|a: int, c: int| 0 <= a < r.len() && 0 <= c < r.len() && a != c implies #[trigger] r[a].key != #[trigger] r[c].key by {
        let a0 = if a < i { a } else { a + 1 };
        let c0 = if c < i { c } else { c + 1 };
        assert(r[a] == h[a0] && r[c] == h[c0]);
    }
    if host_has(r, h[i].key) {
        let j = choose|j: int| 0 <= j < r.len() && r[j].key == h[i].key;
        let j0 = if j < i { j } else { j + 1 };
        assert(r[j] == h[j0]);
        assert(h[j0].key != h[i].key);
    }
    assert forall|k: ExpertKey, b: Seq<u8>| host_holds(r, k, b) implies #[trigger] host_holds(h, k, b) by {
        let j = choose|j: int| 0 <= j < r.len() && r[j].key == k && #[trigger] r[j].payload.bytes@ == b;
        let j0 = if j < i { j } else { j + 1 };
        assert(r[j] == h[j0]);
    }
    assert forall|k: ExpertKey| #[trigger] host_has(r, k) implies host_has(h, k) by {
        let j = choose|j: int| 0 <= j < r.len() && r[j].key == k;
        let j0 = if j < i { j } else { j + 1 };
        assert(r[j] == h[j0]);
    }
}

proof fn lemma_host_set_keeps(h: Seq<HostEntry>, i: int, e: HostEntry)
    requires
        0 <= i < h.len(),
        host_keys_unique(h),
        e.key == h[i].key,
        e.payload.bytes@ == h[i].payload.bytes@,
    ensures
        host_keys_unique(h.update(i, e)),
        forall|k: ExpertKey, b: Seq<u8>| #[trigger] host_holds(h.update(i, e), k, b) <==> host_holds(h, k, b),
{
    let u = h.update(i, e);
    assert forall|a: int, c: int| 0 <= a < u.len() && 0 <= c < u.len() && a != c implies #[trigger] u[a].key != #[trigger] u[c].key by {
        assert(u[a].key == h[a].key && u[c].key == h[c].key);
    }
    assert forall|k: ExpertKey, b: Seq<u8>| #[trigger] host_holds(u, k, b) <==> host_holds(h, k, b) by {
        if host_holds(u, k, b) {
            let j = choose|j: int| 0 <= j < u.len() && u[j].key == k && #[trigger] u[j].payload.bytes@ == b;
            assert(h[j].key == k && h[j].payload.bytes@ == b);
        }
        if host_holds(h, k, b) {
            let j = choose|j: int| 0 <= j < h.len() && h[j].key == k && #[trigger] h[j].payload.bytes@ == b;
            assert(u[j].key == k && u[j].payload.bytes@ == b);
        }
    }
}

proof fn lemma_host_push_keeps(h: Seq<HostEntry>, e: HostEntry)
    requires
        host_keys_unique(h),
        !host_has(h, e.key),
    ensures
        host_keys_unique(h.push(e)),
        host_holds(h.push(e), e.key, e.payload.bytes@),
        forall|k: ExpertKey, b: Seq<u8>| #[trigger] host_holds(h.push(e), k, b) ==> host_holds(h, k, b)
            || (k == e.key && b == e.payload.bytes@),
{
    let u = h.push(e);
    assert forall|a: int, c: int| 0 <= a < u.len() && 0 <= c < u.len() && a != c implies #[trigger] u[a].key != #[trigger] u[c].key by {
        if a < h.len() && c < h.len() {
            assert(u[a] == h[a] && u[c] == h[c]);
        } else if a < h.len() {
            assert(u[a] == h[a]);
        } else if c < h.len() {
            assert(u[c] == h[c]);
        }
    }
    assert(u[h.len() as int] == e);
    assert forall|k: ExpertKey, b: Seq<u8>| #[trigger] host_holds(u, k, b) implies host_holds(h, k, b)
        || (k == e.key && b == e.payload.bytes@) by {
        let j = choose|j: int| 0 <= j < u.len() && u[j].key == k && #[trigger] u[j].payload.bytes@ == b;
        if j < h.len() {
            assert(u[j] == h[j]);
        }
    }
}

spec fn device_has(d: Seq<DeviceEntry>, k: ExpertKey) -> bool {
    exists|j: int| 0 <= j < d.len() && d[j].key == k
}

/// Eviction order: entries touched fewer than three times go first, then the
/// least recently used.
pub open spec fn evicts_before(a_heat: u64, a_used: u64, b_heat: u64, b_used: u64) -> bool {
    (a_heat < 3 && b_heat >= 3) || ((a_heat >= 3) == (b_heat >= 3) && a_used <= b_used)
}

/// The eviction order is least recently used within a heat class: an entry
/// goes before another of its class only when it was last used no later;
/// an entry used fewer than three times goes before any hotter one, and never
/// after one.
pub proof fn law_eviction_is_least_recently_used(a_heat: u64, a_used: u64, b_heat: u64, b_used: u64)
    ensures
        (a_heat >= 3) == (b_heat >= 3) && evicts_before(a_heat, a_used, b_heat, b_used) ==> a_used <= b_used,
        (a_heat >= 3) == (b_heat >= 3) && a_used < b_used ==> !evicts_before(b_heat, b_used, a_heat, a_used),
        (a_heat >= 3) == (b_heat >= 3) ==> evicts_before(a_heat, a_used, b_heat, b_used)
            || evicts_before(b_heat, b_used, a_heat, a_used),
        a_heat < 3 && b_heat >= 3 ==> evicts_before(a_heat, a_used, b_heat, b_used)
            && !evicts_before(b_heat, b_used, a_heat, a_used),
{
}

fn host_victim(host: &Vec<HostEntry>, exclude: ExpertKey) -> (r: Option<usize>)
    ensures
        match r {
            Some(i) => i < host@.len() && host@[i as int].key != exclude && (forall|j: int|
                0 <= j < host@.len() && #[trigger] host@[j].key != exclude ==> evicts_before(
                    host@[i as int].heat, host@[i as int].last_used, host@[j].heat, host@[j].last_used))
                && (forall|j: int| 0 <= j < host@.len() && #[trigger] host@[j].key != exclude
                && (host@[j].heat >= 3) == (host@[i as int].heat >= 3)
                ==> host@[i as int].last_used <= host@[j].last_used),
            None => forall|j: int| 0 <= j < host@.len() ==> #[trigger] host@[j].key == exclude,
        },
{
    let mut best: Option<usize> = None;
    let mut i: usize = 0;
    while i < host.len()
        invariant
            i <= host@.len(),
            match best {
                Some(b) => b < i && host@[b as int].key != exclude && forall|j: int|
                    0 <= j < i && #[trigger] host@[j].key != exclude ==> evicts_before(
                        host@[b as int].heat, host@[b as int].last_used, host@[j].heat, host@[j].last_used),
                None => forall|j: int| 0 <= j < i ==> #[trigger] host@[j].key == exclude,
            },
        decreases host@.len() - i,
    {
        if host[i].key != exclude {
            match best {
                None => {
                    best = Some(i);
                },
                Some(b) => {
                    let bh = host[b].heat >= 3;
                    let ih = host[i].heat >= 3;
                    if (!ih && bh) || (ih == bh && host[i].last_used < host[b].last_used) {
                        best = Some(i);
                    }
                },
            }
        }
        i += 1;
    }
    best
}

fn device_victim(device: &Vec<DeviceEntry>, exclude: ExpertKey) -> (r: Option<usize>)
    ensures
        match r {
            Some(i) => i < device@.len() && device@[i as int].key != exclude && (forall|j: int|
                0 <= j < device@.len() && #[trigger] device@[j].key != exclude ==> evicts_before(
                    device@[i as int].heat, device@[i as int].last_used, device@[j].heat, device@[j].last_used))
                && (forall|j: int| 0 <= j < device@.len() && #[trigger] device@[j].key != exclude
                && (device@[j].heat >= 3) == (device@[i as int].heat >= 3)
                ==> device@[i as int].last_used <= device@[j].last_used),
            None => forall|j: int| 0 <= j < device@.len() ==> #[trigger] device@[j].key == exclude,
        },
{
    let mut best: Option<usize> = None;
    let mut i: usize = 0;
    while i < device.len()
        invariant
            i <= device@.len(),
            match best {
                Some(b) => b < i && device@[b as int].key != exclude && forall|j: int|
                    0 <= j < i && #[trigger] device@[j].key != exclude ==> evicts_before(
                        device@[b as int].heat, device@[b as int].last_used, device@[j].heat, device@[j].last_used),
                None => forall|j: int| 0 <= j < i ==> #[trigger] device@[j].key == exclude,
            },
        decreases device@.len() - i,
    {
        if device[i].key != exclude {
            match best {
                None => {
                    best = Some(i);
                },
                Some(b) => {
                    let bh = device[b].heat >= 3;
                    let ih = device[i].heat >= 3;
                    if (!ih && bh) || (ih == bh && device[i].last_used < device[b].last_used) {
                        best = Some(i);
                    }
                },
            }
        }
        i += 1;
    }
    best
}

proof fn lemma_host_remove(h: Seq<HostEntry>, i: int)
    requires
        0 <= i < h.len(),
    ensures
        total(host_sizes(h.remove(i))) == total(host_sizes(h)) - h[i].size,
        h[i].size <= total(host_sizes(h)),
{
    assert(host_sizes(h.remove(i)) =~= host_sizes(h).remove(i));
    lemma_total_remove(host_sizes(h), i);
}

proof fn lemma_host_push(h: Seq<HostEntry>, e: HostEntry)
    ensures
        total(host_sizes(h.push(e))) == total(host_sizes(h)) + e.size,
{
    assert(host_sizes(h.push(e)) =~= host_sizes(h).push(e.size));
    lemma_total_push(host_sizes(h), e.size);
}

/// Sizes of the cached payloads that some lease holds (zero for idle ones).
spec fn host_leased_sizes(h: Seq<HostEntry>) -> Seq<u64> {
    h.map_values(|e: HostEntry| if e.holders > 0 { e.size } else { 0u64 })
}

proof fn lemma_host_leased_le(h: Seq<HostEntry>)
    ensures
        total(host_leased_sizes(h)) <= total(host_sizes(h)),
    decreases h.len(),
{
    if h.len() > 0 {
        lemma_host_leased_le(h.drop_last());
        assert(host_leased_sizes(h).drop_last() =~= host_leased_sizes(h.drop_last()));
        assert(host_sizes(h).drop_last() =~= host_sizes(h.drop_last()));
    }
}

proof fn lemma_host_leased_remove(h: Seq<HostEntry>, i: int)
    requires
        0 <= i < h.len(),
    ensures
        total(host_leased_sizes(h.remove(i))) + (if h[i].holders > 0 { h[i].size } else { 0u64 })
            == total(host_leased_sizes(h)),
{
    assert(host_leased_sizes(h.remove(i)) =~= host_leased_sizes(h).remove(i));
    lemma_total_remove(host_leased_sizes(h), i);
}

proof fn lemma_host_leased_push(h: Seq<HostEntry>, e: HostEntry)
    ensures
        total(host_leased_sizes(h.push(e))) == total(host_leased_sizes(h)) + (if e.holders > 0 { e.size } else { 0u64 }),
{
    assert(host_leased_sizes(h.push(e)) =~= host_leased_sizes(h).push(if e.holders > 0 { e.size } else { 0u64 }));
    lemma_total_push(host_leased_sizes(h), if e.holders > 0 { e.size } else { 0u64 });
}

proof fn lemma_host_update(h: Seq<HostEntry>, i: int, e: HostEntry)
    requires
        0 <= i < h.len(),
        e.size == h[i].size,
    ensures
        host_sizes(h.update(i, e)) == host_sizes(h),
{
    assert(host_sizes(h.update(i, e)) =~= host_sizes(h));
}

proof fn lemma_retired_remove(r: Seq<RetiredHost>, i: int)
    requires
        0 <= i < r.len(),
    ensures
        total(retired_sizes(r.remove(i))) == total(retired_sizes(r)) - r[i].size,
        r[i].size <= total(retired_sizes(r)),
{
    assert(retired_sizes(r.remove(i)) =~= retired_sizes(r).remove(i));
    lemma_total_remove(retired_sizes(r), i);
}

proof fn lemma_retired_push(r: Seq<RetiredHost>, e: RetiredHost)
    ensures
        total(retired_sizes(r.push(e))) == total(retired_sizes(r)) + e.size,
{
    assert(retired_sizes(r.push(e)) =~= retired_sizes(r).push(e.size));
    lemma_total_push(retired_sizes(r), e.size);
}

proof fn lemma_retired_update(r: Seq<RetiredHost>, i: int, e: RetiredHost)
    requires
        0 <= i < r.len(),
        e.size == r[i].size,
    ensures
        retired_sizes(r.update(i, e)) == retired_sizes(r),
{
    assert(retired_sizes(r.update(i, e)) =~= retired_sizes(r));
}

proof fn lemma_device_remove(d: Seq<DeviceEntry>, i: int)
    requires
        0 <= i < d.len(),
    ensures
        total(device_sizes(d.remove(i))) == total(device_sizes(d)) - d[i].size,
        d[i].size <= total(device_sizes(d)),
{
    assert(device_sizes(d.remove(i)) =~= device_sizes(d).remove(i));
    lemma_total_remove(device_sizes(d), i);
}

proof fn lemma_device_push(d: Seq<DeviceEntry>, e: DeviceEntry)
    ensures
        total(device_sizes(d.push(e))) == total(device_sizes(d)) + e.size,
{
    assert(device_sizes(d.push(e)) =~= device_sizes(d).push(e.size));
    lemma_total_push(device_sizes(d), e.size);
}

proof fn lemma_device_update(d: Seq<DeviceEntry>, i: int, e: DeviceEntry)
    requires
        0 <= i < d.len(),
        e.size == d[i].size,
    ensures
        device_sizes(d.update(i, e)) == device_sizes(d),
{
    assert(device_sizes(d.update(i, e)) =~= device_sizes(d));
}

proof fn lemma_allocation_remove(a: Seq<Allocation>, i: int)
    requires
        0 <= i < a.len(),
    ensures
        total(allocation_sizes(a.remove(i))) == total(allocation_sizes(a)) - a[i].reserved,
        a[i].reserved <= total(allocation_sizes(a)),
{
    assert(allocation_sizes(a.remove(i)) =~= allocation_sizes(a).remove(i));
    lemma_total_remove(allocation_sizes(a), i);
}

proof fn lemma_allocation_push(a: Seq<Allocation>, e: Allocation)
    ensures
        total(allocation_sizes(a.push(e))) == total(allocation_sizes(a)) + e.reserved,
{
    assert(allocation_sizes(a.push(e)) =~= allocation_sizes(a).push(e.reserved));
    lemma_total_push(allocation_sizes(a), e.reserved);
}

/// Sizes of the allocations that some lease holds (zero for idle ones).
spec fn leased_sizes(a: Seq<Allocation>) -> Seq<u64> {
    a.map_values(|e: Allocation| if e.holders > 0 { e.reserved } else { 0u64 })
}

proof fn lemma_leased_le_live(a: Seq<Allocation>)
    ensures
        total(leased_sizes(a)) <= total(allocation_sizes(a)),
    decreases a.len(),
{
    if a.len() > 0 {
        lemma_leased_le_live(a.drop_last());
        assert(leased_sizes(a).drop_last() =~= leased_sizes(a.drop_last()));
        assert(allocation_sizes(a).drop_last() =~= allocation_sizes(a.drop_last()));
    }
}

proof fn lemma_leased_push(a: Seq<Allocation>, e: Allocation)
    ensures
        total(leased_sizes(a.push(e))) == total(leased_sizes(a)) + (if e.holders > 0 { e.reserved } else { 0u64 }),
{
    assert(leased_sizes(a.push(e)) =~= leased_sizes(a).push(if e.holders > 0 { e.reserved } else { 0u64 }));
    lemma_total_push(leased_sizes(a), if e.holders > 0 { e.reserved } else { 0u64 });
}

proof fn lemma_leased_remove_idle(a: Seq<Allocation>, i: int)
    requires
        0 <= i < a.len(),
        a[i].holders == 0,
    ensures
        total(leased_sizes(a.remove(i))) == total(leased_sizes(a)),
{
    assert(leased_sizes(a.remove(i)) =~= leased_sizes(a).remove(i));
    lemma_total_remove(leased_sizes(a), i);
}

/// Every allocation's buffer is as large as its live byte count.
spec fn buffers_sized(a: Seq<Allocation>) -> bool {
    forall|i: int| 0 <= i < a.len() ==> (#[trigger] a[i]).buffer.bytes == a[i].reserved
}

proof fn lemma_allocation_update(a: Seq<Allocation>, i: int, e: Allocation)
    requires
        0 <= i < a.len(),
        e.reserved == a[i].reserved,
        e.buffer == a[i].buffer,
    ensures
        allocation_sizes(a.update(i, e)) == allocation_sizes(a),
        buffers_sized(a) ==> buffers_sized(a.update(i, e)),
{
    assert(allocation_sizes(a.update(i, e)) =~= allocation_sizes(a));
}

proof fn lemma_buffers_remove(a: Seq<Allocation>, i: int)
    requires
        0 <= i < a.len(),
        buffers_sized(a),
    ensures
        buffers_sized(a.remove(i)),
{
    assert forall|k: int| 0 <= k < a.remove(i).len() implies (#[trigger] a.remove(i)[k]).buffer.bytes == a.remove(i)[k].reserved by {
        if k < i { assert(a.remove(i)[k] == a[k]); } else { assert(a.remove(i)[k] == a[k + 1]); }
    }
}

proof fn lemma_buffers_first(a: Seq<Allocation>, id: u64)
    requires
        buffers_sized(a),
    ensures
        first_allocation(a, id) matches Some(x) ==> x.buffer.bytes == x.reserved,
    decreases a.len(),
{
    if a.len() > 0 {
        assert(a[0].buffer.bytes == a[0].reserved);
        assert forall|k: int| 0 <= k < a.drop_first().len() implies (#[trigger] a.drop_first()[k]).buffer.bytes
            == a.drop_first()[k].reserved by {
            assert(a.drop_first()[k] == a[k + 1]);
        }
        lemma_buffers_first(a.drop_first(), id);
    }
}

proof fn lemma_reserved_remove(r: Seq<Reserved>, i: int)
    requires
        0 <= i < r.len(),
    ensures
        total(reserved_sizes(r.remove(i))) == total(reserved_sizes(r)) - r[i].size,
        r[i].size <= total(reserved_sizes(r)),
{
    assert(reserved_sizes(r.remove(i)) =~= reserved_sizes(r).remove(i));
    lemma_total_remove(reserved_sizes(r), i);
}

proof fn lemma_reserved_push(r: Seq<Reserved>, e: Reserved)
    ensures
        total(reserved_sizes(r.push(e))) == total(reserved_sizes(r)) + e.size,
{
    assert(reserved_sizes(r.push(e)) =~= reserved_sizes(r).push(e.size));
    lemma_total_push(reserved_sizes(r), e.size);
}

/// Evicts cached host payloads, in eviction order and never `exclude`, until
/// the cached bytes fit `target`. Evicted payloads that are still leased
/// stay live as retired entries.
fn evict_host_to_fit(
    host: &mut Vec<HostEntry>,
    retired: &mut Vec<RetiredHost>,
    retired_bytes: &mut u64,
    metrics: &mut CacheMetrics,
    target: u64,
    exclude: ExpertKey,
)
    requires
        old(metrics).ram_bytes == total(host_sizes(old(host)@)),
        *old(retired_bytes) == total(retired_sizes(old(retired)@)),
        total(host_sizes(old(host)@)) + total(retired_sizes(old(retired)@)) <= u64::MAX,
        forall|i: int| 0 <= i < old(retired)@.len() ==> #[trigger] old(retired)@[i].holders > 0,
        host_keys_unique(old(host)@),
    ensures
        host_keys_unique(final(host)@),
        forall|k: ExpertKey, b: Seq<u8>| #[trigger] host_holds(final(host)@, k, b) ==> host_holds(old(host)@, k, b),
        final(metrics).ram_bytes == total(host_sizes(final(host)@)),
        *final(retired_bytes) == total(retired_sizes(final(retired)@)),
        forall|i: int| 0 <= i < final(retired)@.len() ==> #[trigger] final(retired)@[i].holders > 0,
        total(host_sizes(final(host)@)) + total(retired_sizes(final(retired)@))
            <= total(host_sizes(old(host)@)) + total(retired_sizes(old(retired)@)),
        final(metrics).ram_bytes <= target
            || forall|j: int| 0 <= j < final(host)@.len() ==> #[trigger] final(host)@[j].key == exclude,
        *final(metrics) == (CacheMetrics {
            ram_bytes: final(metrics).ram_bytes,
            ram_evictions: final(metrics).ram_evictions,
            ..*old(metrics)
        }),
        forall|k: ExpertKey| #[trigger] host_has(final(host)@, k) ==> host_has(old(host)@, k),
        total(host_leased_sizes(final(host)@)) + total(retired_sizes(final(retired)@))
            == total(host_leased_sizes(old(host)@)) + total(retired_sizes(old(retired)@)),
        forall|j: int| 0 <= j < final(host)@.len() ==> exists|a: int| 0 <= a < old(host)@.len()
            && old(host)@[a] == #[trigger] final(host)@[j],
        forall|a: int, j: int| #![trigger old(host)@[a], final(host)@[j]]
            0 <= a < old(host)@.len() && 0 <= j < final(host)@.len()
            && !host_has(final(host)@, old(host)@[a].key) && final(host)@[j].key != exclude
            ==> evicts_before(old(host)@[a].heat, old(host)@[a].last_used, final(host)@[j].heat, final(host)@[j].last_used),
{
    let ghost start_host = host@;
    let ghost start_retired = retired@;
    let ghost start_metrics = *metrics;
    let ghost start_leased = total(host_leased_sizes(host@)) + total(retired_sizes(retired@));
    while metrics.ram_bytes > target
        invariant
            metrics.ram_bytes == total(host_sizes(host@)),
            *retired_bytes == total(retired_sizes(retired@)),
            total(host_sizes(start_host)) + total(retired_sizes(start_retired)) <= u64::MAX,
            forall|i: int| 0 <= i < retired@.len() ==> #[trigger] retired@[i].holders > 0,
            total(host_sizes(host@)) + total(retired_sizes(retired@))
                <= total(host_sizes(start_host)) + total(retired_sizes(start_retired)),
            *metrics == (CacheMetrics {
                ram_bytes: metrics.ram_bytes,
                ram_evictions: metrics.ram_evictions,
                ..start_metrics
            }),
            forall|k: ExpertKey| #[trigger] host_has(host@, k) ==> host_has(start_host, k),
            host_keys_unique(host@),
            forall|k: ExpertKey, b: Seq<u8>| #[trigger] host_holds(host@, k, b) ==> host_holds(start_host, k, b),
            total(host_leased_sizes(host@)) + total(retired_sizes(retired@)) == start_leased,
            host_keys_unique(start_host),
            forall|j: int| 0 <= j < host@.len() ==> exists|a: int| 0 <= a < start_host.len()
                && start_host[a] == #[trigger] host@[j],
            forall|a: int, j: int| #![trigger start_host[a], host@[j]]
                0 <= a < start_host.len() && 0 <= j < host@.len()
                && !host_has(host@, start_host[a].key) && host@[j].key != exclude
                ==> evicts_before(start_host[a].heat, start_host[a].last_used, host@[j].heat, host@[j].last_used),
        ensures
            forall|j: int| 0 <= j < host@.len() ==> exists|a: int| 0 <= a < start_host.len()
                && start_host[a] == #[trigger] host@[j],
            forall|a: int, j: int| #![trigger start_host[a], host@[j]]
                0 <= a < start_host.len() && 0 <= j < host@.len()
                && !host_has(host@, start_host[a].key) && host@[j].key != exclude
                ==> evicts_before(start_host[a].heat, start_host[a].last_used, host@[j].heat, host@[j].last_used),
            total(host_leased_sizes(host@)) + total(retired_sizes(retired@)) == start_leased,
            host_keys_unique(host@),
            forall|k: ExpertKey, b: Seq<u8>| #[trigger] host_holds(host@, k, b) ==> host_holds(start_host, k, b),
            metrics.ram_bytes == total(host_sizes(host@)),
            *retired_bytes == total(retired_sizes(retired@)),
            forall|i: int| 0 <= i < retired@.len() ==> #[trigger] retired@[i].holders > 0,
            total(host_sizes(host@)) + total(retired_sizes(retired@))
                <= total(host_sizes(start_host)) + total(retired_sizes(start_retired)),
            metrics.ram_bytes <= target
                || forall|j: int| 0 <= j < host@.len() ==> #[trigger] host@[j].key == exclude,
            *metrics == (CacheMetrics {
                ram_bytes: metrics.ram_bytes,
                ram_evictions: metrics.ram_evictions,
                ..start_metrics
            }),
            forall|k: ExpertKey| #[trigger] host_has(host@, k) ==> host_has(start_host, k),
        decreases host@.len(),
    {
        let victim = host_victim(host, exclude);
        let i = match victim {
            Some(i) => i,
            None => break,
        };
        let ghost before = host@;
        proof {
            lemma_host_remove(before, i as int);
            lemma_host_remove_keeps(before, i as int);
            lemma_host_leased_remove(before, i as int);
        }
        let entry = host.remove(i);
        proof {
            assert forall|k: ExpertKey, b: Seq<u8>| #[trigger] host_holds(host@, k, b) implies host_holds(start_host, k, b) by {
                assert(host_holds(before, k, b));
            }
            assert forall|k: ExpertKey| #[trigger] host_has(host@, k) implies host_has(start_host, k) by {
                let j = choose|j: int| 0 <= j < host@.len() && host@[j].key == k;
                if j < i {
                    assert(before[j].key == k);
                } else {
                    assert(before[j + 1].key == k);
                }
                assert(host_has(before, k));
            }
            assert forall|j: int| 0 <= j < host@.len() implies exists|a: int| 0 <= a < start_host.len()
                && start_host[a] == #[trigger] host@[j] by {
                if j < i {
                    assert(host@[j] == before[j]);
                } else {
                    assert(host@[j] == before[j + 1]);
                }
            }
            assert forall|a: int, j: int| #![trigger start_host[a], host@[j]]
                0 <= a < start_host.len() && 0 <= j < host@.len()
                && !host_has(host@, start_host[a].key) && host@[j].key != exclude
                implies evicts_before(start_host[a].heat, start_host[a].last_used, host@[j].heat, host@[j].last_used) by {
                let jj = if j < i { j } else { j + 1 };
                assert(host@[j] == before[jj]);
                if host_has(before, start_host[a].key) {
                    let m = choose|m: int| 0 <= m < before.len() && before[m].key == start_host[a].key;
                    if m != i {
                        let mm = if m < i { m } else { m - 1 };
                        assert(host@[mm] == before[m]);
                        assert(host_has(host@, start_host[a].key));
                    }
                    let w = choose|w: int| 0 <= w < start_host.len() && start_host[w] == before[i as int];
                    assert(start_host[w].key == start_host[a].key);
                    assert(w == a);
                    assert(evicts_before(before[i as int].heat, before[i as int].last_used, before[jj].heat, before[jj].last_used));
                } else {
                    assert(!host_has(before, start_host[a].key));
                    assert(evicts_before(start_host[a].heat, start_host[a].last_used, before[jj].heat, before[jj].last_used));
                }
            }
        }
        if entry.holders > 0 {
            proof { lemma_retired_push(retired@, RetiredHost { lease: entry.lease, size: entry.size, holders: entry.holders }); }
            retired.push(RetiredHost { lease: entry.lease, size: entry.size, holders: entry.holders });
            *retired_bytes = *retired_bytes + entry.size;
        }
        metrics.ram_bytes = metrics.ram_bytes - entry.size;
        metrics.ram_evictions = metrics.ram_evictions.saturating_add(1);
    }
}


/// Every cached device entry's allocation is live.
spec fn backed(d: Seq<DeviceEntry>, a: Seq<Allocation>) -> bool {
    forall|i: int| 0 <= i < d.len() ==> has_allocation(a, #[trigger] d[i].allocation)
}

spec fn has_allocation(a: Seq<Allocation>, id: u64) -> bool {
    exists|j: int| 0 <= j < a.len() && a[j].id == id
}

spec fn referenced(d: Seq<DeviceEntry>, id: u64) -> bool {
    exists|i: int| 0 <= i < d.len() && d[i].allocation == id
}

fn is_referenced(device: &Vec<DeviceEntry>, id: u64) -> (b: bool)
    ensures
        b == referenced(device@, id),
{
    let mut i: usize = 0;
    while i < device.len()
        invariant
            i <= device@.len(),
            forall|k: int| 0 <= k < i ==> #[trigger] device@[k].allocation != id,
        decreases device@.len() - i,
    {
        if device[i].allocation == id {
            return true;
        }
        i += 1;
    }
    false
}

/// The first `HostEntry` whose `lease` is `x`.
spec fn first_with_lease(s: Seq<HostEntry>, x: u64) -> Option<HostEntry>
    decreases s.len(),
{
    if s.len() == 0 {
        None
    } else if s[0].lease == x {
        Some(s[0])
    } else {
        first_with_lease(s.drop_first(), x)
    }
}

proof fn lemma_first_with_lease_at(s: Seq<HostEntry>, x: u64, i: int)
    requires
        0 <= i < s.len(),
        s[i].lease == x,
        forall|j: int| 0 <= j < i ==> #[trigger] s[j].lease != x,
    ensures
        first_with_lease(s, x) == Some(s[i]),
    decreases i,
{
    if i > 0 {
        assert forall|j: int| 0 <= j < i - 1 implies #[trigger] s.drop_first()[j].lease != x by {
            assert(s.drop_first()[j] == s[j + 1]);
        }
        lemma_first_with_lease_at(s.drop_first(), x, i - 1);
    }
}

proof fn lemma_first_with_lease_absent(s: Seq<HostEntry>, x: u64)
    requires
        forall|j: int| 0 <= j < s.len() ==> #[trigger] s[j].lease != x,
    ensures
        first_with_lease(s, x) is None,
    decreases s.len(),
{
    if s.len() > 0 {
        assert forall|j: int| 0 <= j < s.drop_first().len() implies #[trigger] s.drop_first()[j].lease != x by {
            assert(s.drop_first()[j] == s[j + 1]);
        }
        lemma_first_with_lease_absent(s.drop_first(), x);
    }
}

/// The first `RetiredHost` whose `lease` is `x`.
spec fn first_retired(s: Seq<RetiredHost>, x: u64) -> Option<RetiredHost>
    decreases s.len(),
{
    if s.len() == 0 {
        None
    } else if s[0].lease == x {
        Some(s[0])
    } else {
        first_retired(s.drop_first(), x)
    }
}

proof fn lemma_first_retired_at(s: Seq<RetiredHost>, x: u64, i: int)
    requires
        0 <= i < s.len(),
        s[i].lease == x,
        forall|j: int| 0 <= j < i ==> #[trigger] s[j].lease != x,
    ensures
        first_retired(s, x) == Some(s[i]),
    decreases i,
{
    if i > 0 {
        assert forall|j: int| 0 <= j < i - 1 implies #[trigger] s.drop_first()[j].lease != x by {
            assert(s.drop_first()[j] == s[j + 1]);
        }
        lemma_first_retired_at(s.drop_first(), x, i - 1);
    }
}

proof fn lemma_first_retired_absent(s: Seq<RetiredHost>, x: u64)
    requires
        forall|j: int| 0 <= j < s.len() ==> #[trigger] s[j].lease != x,
    ensures
        first_retired(s, x) is None,
    decreases s.len(),
{
    if s.len() > 0 {
        assert forall|j: int| 0 <= j < s.drop_first().len() implies #[trigger] s.drop_first()[j].lease != x by {
            assert(s.drop_first()[j] == s[j + 1]);
        }
        lemma_first_retired_absent(s.drop_first(), x);
    }
}

/// The first `Allocation` whose `id` is `x`.
spec fn first_allocation(s: Seq<Allocation>, x: u64) -> Option<Allocation>
    decreases s.len(),
{
    if s.len() == 0 {
        None
    } else if s[0].id == x {
        Some(s[0])
    } else {
        first_allocation(s.drop_first(), x)
    }
}

proof fn lemma_first_allocation_at(s: Seq<Allocation>, x: u64, i: int)
    requires
        0 <= i < s.len(),
        s[i].id == x,
        forall|j: int| 0 <= j < i ==> #[trigger] s[j].id != x,
    ensures
        first_allocation(s, x) == Some(s[i]),
    decreases i,
{
    if i > 0 {
        assert forall|j: int| 0 <= j < i - 1 implies #[trigger] s.drop_first()[j].id != x by {
            assert(s.drop_first()[j] == s[j + 1]);
        }
        lemma_first_allocation_at(s.drop_first(), x, i - 1);
    }
}

proof fn lemma_first_allocation_absent(s: Seq<Allocation>, x: u64)
    requires
        forall|j: int| 0 <= j < s.len() ==> #[trigger] s[j].id != x,
    ensures
        first_allocation(s, x) is None,
    decreases s.len(),
{
    if s.len() > 0 {
        assert forall|j: int| 0 <= j < s.drop_first().len() implies #[trigger] s.drop_first()[j].id != x by {
            assert(s.drop_first()[j] == s[j + 1]);
        }
        lemma_first_allocation_absent(s.drop_first(), x);
    }
}

/// One lease fewer: `h - 1`, or zero.
pub open spec fn released(h: u64) -> u64 {
    if h > 0 { (h - 1) as u64 } else { 0 }
}

fn find_allocation(allocations: &Vec<Allocation>, id: u64) -> (r: Option<usize>)
    ensures
        match r {
            Some(j) => j < allocations@.len() && allocations@[j as int].id == id
                && forall|k: int| 0 <= k < j ==> #[trigger] allocations@[k].id != id,
            None => forall|j: int| 0 <= j < allocations@.len() ==> #[trigger] allocations@[j].id != id,
        },
{
    let mut j: usize = 0;
    while j < allocations.len()
        invariant
            j <= allocations@.len(),
            forall|k: int| 0 <= k < j ==> #[trigger] allocations@[k].id != id,
        decreases allocations@.len() - j,
    {
        if allocations[j].id == id {
            return Some(j);
        }
        j += 1;
    }
    None
}

proof fn lemma_backed_after_free(d: Seq<DeviceEntry>, a: Seq<Allocation>, j0: int)
    requires
        backed(d, a),
        0 <= j0 < a.len(),
        !referenced(d, a[j0].id),
    ensures
        backed(d, a.remove(j0)),
{
    assert forall|i: int| 0 <= i < d.len() implies has_allocation(a.remove(j0), #[trigger] d[i].allocation) by {
        assert(has_allocation(a, d[i].allocation));
        let j = choose|j: int| 0 <= j < a.len() && a[j].id == d[i].allocation;
        if j == j0 {
            assert(referenced(d, a[j0].id));
        } else if j < j0 {
            assert(a.remove(j0)[j].id == d[i].allocation);
        } else {
            assert(a.remove(j0)[j - 1].id == d[i].allocation);
        }
    }
}

/// Gives an allocation back to the accelerator when no lease holds it and no
/// cache entry uses it.
fn free_if_unused<A: Accelerator>(
    accelerator: &A,
    device: &Vec<DeviceEntry>,
    allocations: &mut Vec<Allocation>,
    live: &mut u64,
    id: u64,
)
    requires
        *old(live) == total(allocation_sizes(old(allocations)@)),
        backed(device@, old(allocations)@),
    ensures
        *final(live) == total(allocation_sizes(final(allocations)@)),
        *final(live) <= *old(live),
        backed(device@, final(allocations)@),
        total(leased_sizes(final(allocations)@)) == total(leased_sizes(old(allocations)@)),
        buffers_sized(old(allocations)@) ==> buffers_sized(final(allocations)@),
        match first_allocation(old(allocations)@, id) {
            Some(x) => if x.holders == 0 && !referenced(device@, id) {
                *final(live) + x.reserved == *old(live) && final(allocations)@.len() + 1 == old(allocations)@.len()
            } else {
                final(allocations)@ == old(allocations)@ && *final(live) == *old(live)
            },
            None => final(allocations)@ == old(allocations)@ && *final(live) == *old(live),
        },
{
    let j = match find_allocation(allocations, id) {
        Some(j) => j,
        None => {
            proof { lemma_first_allocation_absent(allocations@, id); }
            return;
        },
    };
    proof { lemma_first_allocation_at(allocations@, id, j as int); }
    if allocations[j].holders > 0 || is_referenced(device, id) {
        return;
    }
    proof {
        lemma_allocation_remove(allocations@, j as int);
        lemma_backed_after_free(device@, allocations@, j as int);
        lemma_leased_remove_idle(allocations@, j as int);
        if buffers_sized(allocations@) {
            lemma_buffers_remove(allocations@, j as int);
        }
    }
    let a = allocations.remove(j);
    accelerator.release(&a.buffer);
    *live = *live - a.reserved;
}

proof fn lemma_backed_after_device_remove(d: Seq<DeviceEntry>, a: Seq<Allocation>, i0: int)
    requires
        backed(d, a),
        0 <= i0 < d.len(),
    ensures
        backed(d.remove(i0), a),
{
    assert forall|i: int| 0 <= i < d.remove(i0).len() implies has_allocation(a, #[trigger] d.remove(i0)[i].allocation) by {
        if i < i0 {
            assert(d.remove(i0)[i] == d[i]);
            assert(has_allocation(a, d[i].allocation));
        } else {
            assert(d.remove(i0)[i] == d[i + 1]);
            assert(has_allocation(a, d[i + 1].allocation));
        }
    }
}

/// Evicts cached device entries, in eviction order and never `exclude`,
/// until the cached bytes fit `target`; an evicted allocation is given back
/// once no lease holds it.
fn evict_device_to_fit<A: Accelerator>(
    accelerator: &A,
    device: &mut Vec<DeviceEntry>,
    allocations: &mut Vec<Allocation>,
    live: &mut u64,
    metrics: &mut CacheMetrics,
    target: u64,
    exclude: ExpertKey,
)
    requires
        old(metrics).accelerator_bytes == total(device_sizes(old(device)@)),
        *old(live) == total(allocation_sizes(old(allocations)@)),
        backed(old(device)@, old(allocations)@),
    ensures
        final(metrics).accelerator_bytes == total(device_sizes(final(device)@)),
        final(metrics).accelerator_bytes <= old(metrics).accelerator_bytes,
        *final(live) == total(allocation_sizes(final(allocations)@)),
        *final(live) <= *old(live),
        backed(final(device)@, final(allocations)@),
        total(leased_sizes(final(allocations)@)) == total(leased_sizes(old(allocations)@)),
        buffers_sized(old(allocations)@) ==> buffers_sized(final(allocations)@),
        final(metrics).accelerator_bytes <= target
            || forall|j: int| 0 <= j < final(device)@.len() ==> #[trigger] final(device)@[j].key == exclude,
        *final(metrics) == (CacheMetrics {
            accelerator_bytes: final(metrics).accelerator_bytes,
            accelerator_evictions: final(metrics).accelerator_evictions,
            ..*old(metrics)
        }),
        forall|k: ExpertKey| #[trigger] device_has(final(device)@, k) ==> device_has(old(device)@, k),
{
    let ghost start_device = device@;
    let ghost start_live = *live;
    let ghost start_metrics = *metrics;
    let ghost start_leased = total(leased_sizes(allocations@));
    let ghost start_allocations = allocations@;
    while metrics.accelerator_bytes > target
        invariant
            metrics.accelerator_bytes == total(device_sizes(device@)),
            metrics.accelerator_bytes <= start_metrics.accelerator_bytes,
            *live == total(allocation_sizes(allocations@)),
            *live <= start_live,
            backed(device@, allocations@),
            total(leased_sizes(allocations@)) == start_leased,
            buffers_sized(start_allocations) ==> buffers_sized(allocations@),
            *metrics == (CacheMetrics {
                accelerator_bytes: metrics.accelerator_bytes,
                accelerator_evictions: metrics.accelerator_evictions,
                ..start_metrics
            }),
            forall|k: ExpertKey| #[trigger] device_has(device@, k) ==> device_has(start_device, k),
        ensures
            metrics.accelerator_bytes == total(device_sizes(device@)),
            metrics.accelerator_bytes <= start_metrics.accelerator_bytes,
            *live == total(allocation_sizes(allocations@)),
            *live <= start_live,
            backed(device@, allocations@),
            total(leased_sizes(allocations@)) == start_leased,
            buffers_sized(start_allocations) ==> buffers_sized(allocations@),
            metrics.accelerator_bytes <= target
                || forall|j: int| 0 <= j < device@.len() ==> #[trigger] device@[j].key == exclude,
            *metrics == (CacheMetrics {
                accelerator_bytes: metrics.accelerator_bytes,
                accelerator_evictions: metrics.accelerator_evictions,
                ..start_metrics
            }),
            forall|k: ExpertKey| #[trigger] device_has(device@, k) ==> device_has(start_device, k),
        decreases device@.len(),
    {
        let victim = device_victim(device, exclude);
        let i = match victim {
            Some(i) => i,
            None => break,
        };
        let ghost before = device@;
        proof {
            lemma_device_remove(before, i as int);
            lemma_backed_after_device_remove(before, allocations@, i as int);
        }
        let entry = device.remove(i);
        proof {
            assert forall|k: ExpertKey| #[trigger] device_has(device@, k) implies device_has(start_device, k) by {
                let j = choose|j: int| 0 <= j < device@.len() && device@[j].key == k;
                if j < i {
                    assert(before[j].key == k);
                } else {
                    assert(before[j + 1].key == k);
                }
                assert(device_has(before, k));
            }
        }
        metrics.accelerator_bytes = metrics.accelerator_bytes - entry.size;
        metrics.accelerator_evictions = metrics.accelerator_evictions.saturating_add(1);
        free_if_unused(accelerator, device, allocations, live, entry.allocation);
    }
}


/// The heat recorded for `key`: the count of its first entry, zero when it
/// has none.
spec fn heat_value(heat: Seq<(ExpertKey, u64)>, key: ExpertKey) -> u64
    decreases heat.len(),
{
    if heat.len() == 0 {
        0
    } else if heat[0].0 == key {
        heat[0].1
    } else {
        heat_value(heat.drop_first(), key)
    }
}

proof fn lemma_heat_at(heat: Seq<(ExpertKey, u64)>, key: ExpertKey, i: int)
    requires
        0 <= i < heat.len(),
        heat[i].0 == key,
        forall|j: int| 0 <= j < i ==> #[trigger] heat[j].0 != key,
    ensures
        heat_value(heat, key) == heat[i].1,
    decreases i,
{
    if i > 0 {
        lemma_heat_at(heat.drop_first(), key, i - 1);
    }
}

proof fn lemma_heat_absent(heat: Seq<(ExpertKey, u64)>, key: ExpertKey)
    requires
        forall|j: int| 0 <= j < heat.len() ==> #[trigger] heat[j].0 != key,
    ensures
        heat_value(heat, key) == 0,
    decreases heat.len(),
{
    if heat.len() > 0 {
        lemma_heat_absent(heat.drop_first(), key);
    }
}

/// Overwriting the first entry of `key` changes the heat of `key` alone.
proof fn lemma_heat_set(heat: Seq<(ExpertKey, u64)>, key: ExpertKey, i: int, v: u64, k: ExpertKey)
    requires
        0 <= i < heat.len(),
        heat[i].0 == key,
        forall|j: int| 0 <= j < i ==> #[trigger] heat[j].0 != key,
    ensures
        heat_value(heat.update(i, (key, v)), k) == if k == key { v } else { heat_value(heat, k) },
    decreases i,
{
    if i > 0 {
        assert forall|j: int| 0 <= j < i - 1 implies #[trigger] heat.drop_first()[j].0 != key by {
            assert(heat.drop_first()[j] == heat[j + 1]);
        }
        lemma_heat_set(heat.drop_first(), key, i - 1, v, k);
        assert(heat.update(i, (key, v)).drop_first() =~= heat.drop_first().update(i - 1, (key, v)));
    } else {
        assert(heat.update(0, (key, v)).drop_first() =~= heat.drop_first());
    }
}

/// Appending an entry for an absent `key` changes the heat of `key` alone.
proof fn lemma_heat_push(heat: Seq<(ExpertKey, u64)>, key: ExpertKey, v: u64, k: ExpertKey)
    requires
        forall|j: int| 0 <= j < heat.len() ==> #[trigger] heat[j].0 != key,
    ensures
        heat_value(heat.push((key, v)), k) == if k == key { v } else { heat_value(heat, k) },
    decreases heat.len(),
{
    if heat.len() > 0 {
        assert forall|j: int| 0 <= j < heat.drop_first().len() implies #[trigger] heat.drop_first()[j].0 != key by {
            assert(heat.drop_first()[j] == heat[j + 1]);
        }
        let p = heat.push((key, v));
        assert(p[0] == heat[0]);
        lemma_heat_push(heat.drop_first(), key, v, k);
        assert(p.drop_first() =~= heat.drop_first().push((key, v)));
        if heat[0].0 != k {
            assert(heat_value(p, k) == heat_value(p.drop_first(), k));
            assert(heat_value(heat, k) == heat_value(heat.drop_first(), k));
        }
    } else {
        let p = heat.push((key, v));
        assert(p.drop_first() =~= Seq::<(ExpertKey, u64)>::empty());
        assert(heat_value(p.drop_first(), k) == 0);
    }
}

/// Counts one more touch of `key` and returns its heat.
fn bump_heat(heat: &mut Vec<(ExpertKey, u64)>, key: ExpertKey) -> (h: u64)
    ensures
        h == bumped(heat_value(old(heat)@, key)),
        forall|k: ExpertKey| #[trigger] heat_value(final(heat)@, k) == if k == key { h } else { heat_value(old(heat)@, k) },
{
    let mut i: usize = 0;
    while i < heat.len()
        invariant
            i <= heat@.len(),
            heat@ == old(heat)@,
            forall|j: int| 0 <= j < i ==> #[trigger] heat@[j].0 != key,
        decreases heat@.len() - i,
    {
        if heat[i].0 == key {
            let h = heat[i].1.saturating_add(1);
            proof {
                lemma_heat_at(heat@, key, i as int);
                assert forall|k: ExpertKey| #[trigger] heat_value(heat@.update(i as int, (key, h)), k)
                    == if k == key { h } else { heat_value(heat@, k) } by {
                    lemma_heat_set(heat@, key, i as int, h, k);
                }
            }
            heat.set(i, (key, h));
            return h;
        }
        i += 1;
    }
    proof {
        lemma_heat_absent(heat@, key);
        assert forall|k: ExpertKey| #[trigger] heat_value(heat@.push((key, 1u64)), k)
            == if k == key { 1u64 } else { heat_value(heat@, k) } by {
            lemma_heat_push(heat@, key, 1, k);
        }
    }
    heat.push((key, 1));
    1
}

fn heat_of(heat: &Vec<(ExpertKey, u64)>, key: ExpertKey) -> (h: u64)
    ensures
        h == heat_value(heat@, key),
{
    let mut i: usize = 0;
    while i < heat.len()
        invariant
            i <= heat@.len(),
            forall|j: int| 0 <= j < i ==> #[trigger] heat@[j].0 != key,
        decreases heat@.len() - i,
    {
        if heat[i].0 == key {
            proof { lemma_heat_at(heat@, key, i as int); }
            return heat[i].1;
        }
        i += 1;
    }
    proof { lemma_heat_absent(heat@, key); }
    0
}

fn find_host(host: &Vec<HostEntry>, key: ExpertKey) -> (r: Option<usize>)
    ensures
        match r {
            Some(i) => i < host@.len() && host@[i as int].key == key,
            None => !host_has(host@, key),
        },
{
    let mut i: usize = 0;
    while i < host.len()
        invariant
            i <= host@.len(),
            forall|k: int| 0 <= k < i ==> #[trigger] host@[k].key != key,
        decreases host@.len() - i,
    {
        if host[i].key == key {
            return Some(i);
        }
        i += 1;
    }
    None
}

fn find_device(device: &Vec<DeviceEntry>, key: ExpertKey) -> (r: Option<usize>)
    ensures
        match r {
            Some(i) => i < device@.len() && device@[i as int].key == key
                && forall|k: int| 0 <= k < i ==> #[trigger] device@[k].key != key,
            None => !device_has(device@, key),
        },
{
    let mut i: usize = 0;
    while i < device.len()
        invariant
            i <= device@.len(),
            forall|k: int| 0 <= k < i ==> #[trigger] device@[k].key != key,
        decreases device@.len() - i,
    {
        if device[i].key == key {
            return Some(i);
        }
        i += 1;
    }
    None
}

proof fn lemma_backed_push_allocation(d: Seq<DeviceEntry>, a: Seq<Allocation>, x: Allocation)
    requires
        backed(d, a),
    ensures
        backed(d, a.push(x)),
        has_allocation(a.push(x), x.id),
{
    assert(a.push(x)[a.len() as int].id == x.id);
    assert forall|i: int| 0 <= i < d.len() implies has_allocation(a.push(x), #[trigger] d[i].allocation) by {
        assert(has_allocation(a, d[i].allocation));
        let j = choose|j: int| 0 <= j < a.len() && a[j].id == d[i].allocation;
        assert(a.push(x)[j] == a[j]);
    }
}

proof fn lemma_backed_push_device(d: Seq<DeviceEntry>, a: Seq<Allocation>, e: DeviceEntry)
    requires
        backed(d, a),
        has_allocation(a, e.allocation),
    ensures
        backed(d.push(e), a),
{
    assert forall|i: int| 0 <= i < d.push(e).len() implies has_allocation(a, #[trigger] d.push(e)[i].allocation) by {
        if i < d.len() {
            assert(d.push(e)[i] == d[i]);
        }
    }
}

proof fn lemma_backed_update_allocation(d: Seq<DeviceEntry>, a: Seq<Allocation>, j0: int, x: Allocation)
    requires
        backed(d, a),
        0 <= j0 < a.len(),
        x.id == a[j0].id,
    ensures
        backed(d, a.update(j0, x)),
{
    assert forall|i: int| 0 <= i < d.len() implies has_allocation(a.update(j0, x), #[trigger] d[i].allocation) by {
        assert(has_allocation(a, d[i].allocation));
        let j = choose|j: int| 0 <= j < a.len() && a[j].id == d[i].allocation;
        assert(a.update(j0, x)[j].id == d[i].allocation);
    }
}

proof fn lemma_backed_update_device(d: Seq<DeviceEntry>, a: Seq<Allocation>, i0: int, e: DeviceEntry)
    requires
        backed(d, a),
        0 <= i0 < d.len(),
        e.allocation == d[i0].allocation,
    ensures
        backed(d.update(i0, e), a),
{
    assert forall|i: int| 0 <= i < d.len() implies has_allocation(a, #[trigger] d.update(i0, e)[i].allocation) by {
        assert(has_allocation(a, d[i].allocation));
    }
}

fn host_with_lease(host: &Vec<HostEntry>, lease: u64) -> (r: Option<usize>)
    ensures
        match r {
            Some(i) => i < host@.len() && host@[i as int].lease == lease
                && forall|j: int| 0 <= j < i ==> #[trigger] host@[j].lease != lease,
            None => forall|j: int| 0 <= j < host@.len() ==> #[trigger] host@[j].lease != lease,
        },
{
    let mut i: usize = 0;
    while i < host.len()
        invariant
            i <= host@.len(),
            forall|j: int| 0 <= j < i ==> #[trigger] host@[j].lease != lease,
        decreases host@.len() - i,
    {
        if host[i].lease == lease {
            return Some(i);
        }
        i += 1;
    }
    None
}

fn retired_with_lease(retired: &Vec<RetiredHost>, lease: u64) -> (r: Option<usize>)
    ensures
        match r {
            Some(i) => i < retired@.len() && retired@[i as int].lease == lease
                && forall|j: int| 0 <= j < i ==> #[trigger] retired@[j].lease != lease,
            None => forall|j: int| 0 <= j < retired@.len() ==> #[trigger] retired@[j].lease != lease,
        },
{
    let mut i: usize = 0;
    while i < retired.len()
        invariant
            i <= retired@.len(),
            forall|j: int| 0 <= j < i ==> #[trigger] retired@[j].lease != lease,
        decreases retired@.len() - i,
    {
        if retired[i].lease == lease {
            return Some(i);
        }
        i += 1;
    }
    None
}

fn find_reservation(reservations: &Vec<Reserved>, id: u64, size: u64) -> (r: Option<usize>)
    ensures
        match r {
            Some(i) => i < reservations@.len() && reservations@[i as int].id == id
                && reservations@[i as int].size == size,
            None => forall|j: int| 0 <= j < reservations@.len() ==> !(#[trigger] reservations@[j].id == id
                && reservations@[j].size == size),
        },
{
    let mut i: usize = 0;
    while i < reservations.len()
        invariant
            i <= reservations@.len(),
            forall|j: int| 0 <= j < i ==> !(#[trigger] reservations@[j].id == id && reservations@[j].size == size),
        decreases reservations@.len() - i,
    {
        if reservations[i].id == id && reservations[i].size == size {
            return Some(i);
        }
        i += 1;
    }
    None
}

/// What `begin_get` answers.
pub enum BeginGet {
    /// The expert was cached; here is a lease on it.
    Ready(ResidentExpert),
    /// The expert is in neither cache: reserve host bytes, read it from
    /// storage and complete the request with `finish_get`.
    Load,
}

/// `x + 1`, or `x` at the top of the range.
pub open spec fn bumped(x: u64) -> u64 {
    if x < u64::MAX { (x + 1) as u64 } else { x }
}

/// `x`, or the top of the `u64` range when `x` exceeds it.
pub open spec fn saturated(x: int) -> int {
    if x <= u64::MAX { x } else { u64::MAX as int }
}

impl<A: Accelerator> ResidencyManager<A> {
    /// A refused host reservation of `n` bytes for `key`, from state `self`
    /// to `next`: after eviction the live and reserved host bytes plus `n`
    /// exceed the RAM live budget; the error names `key`, those bytes
    /// (saturated) and the budget; a denial is counted, nothing is reserved,
    /// and eviction keeps every leased payload live.
    pub open spec fn host_refused(&self, next: &Self, key: ExpertKey, n: u64, e: CacheError) -> bool {
        &&& e matches CacheError::HostBudget { key: k, required: q, budget: b }
            && k == key && b == self.ram_live_limit()
            && q as int == saturated(next.host_live() + self.host_reserved() + n)
        &&& next.host_live() + self.host_reserved() + n > self.ram_live_limit()
        &&& next.host_live() <= self.host_live()
        &&& next.host_leased() == self.host_leased()
        &&& next.host_reserved() == self.host_reserved()
        &&& next.stats().ram_budget_denials == bumped(self.stats().ram_budget_denials)
        &&& next.ram_peak() == self.ram_peak()
        &&& next.accelerator_live() == self.accelerator_live()
    }

    /// Eviction kept each surviving entry as it was, and took only entries
    /// ranked no later than any survivor but `exclude`.
    proof fn lemma_eviction_ranks(before: &Self, after: &Self, exclude: ExpertKey)
        requires
            host_keys_unique(before.host@),
            host_keys_unique(after.host@),
            forall|j: int| 0 <= j < after.host@.len() ==> exists|a: int| 0 <= a < before.host@.len()
                && before.host@[a] == #[trigger] after.host@[j],
            forall|a: int, j: int| #![trigger before.host@[a], after.host@[j]]
                0 <= a < before.host@.len() && 0 <= j < after.host@.len()
                && !host_has(after.host@, before.host@[a].key) && after.host@[j].key != exclude
                ==> evicts_before(before.host@[a].heat, before.host@[a].last_used, after.host@[j].heat, after.host@[j].last_used),
        ensures
            forall|k: ExpertKey| #[trigger] after.cached_in_ram(k) ==> before.cached_in_ram(k)
                && after.ram_rank(k) == before.ram_rank(k),
            before.ram_evicted_in_order(after, exclude),
    {
        let b = before.host@;
        let f = after.host@;
        assert forall|k: ExpertKey| #[trigger] after.cached_in_ram(k) implies before.cached_in_ram(k)
            && after.ram_rank(k) == before.ram_rank(k) by {
            let j = choose|j: int| 0 <= j < f.len() && #[trigger] f[j].key == k;
            let a = choose|a: int| 0 <= a < b.len() && b[a] == #[trigger] f[j];
            assert(b[a].key == k);
            let ib = choose|i: int| 0 <= i < b.len() && #[trigger] b[i].key == k;
            assert(ib == a);
            assert(j == j);
        }
        assert forall|gone: ExpertKey, kept: ExpertKey|
            before.cached_in_ram(gone) && !after.cached_in_ram(gone)
            && #[trigger] after.cached_in_ram(kept) && kept != exclude
            implies evicts_before(#[trigger] before.ram_rank(gone).0, before.ram_rank(gone).1,
                after.ram_rank(kept).0, after.ram_rank(kept).1) by {
            let a = choose|i: int| 0 <= i < b.len() && #[trigger] b[i].key == gone;
            let j = choose|i: int| 0 <= i < f.len() && #[trigger] f[i].key == kept;
            if host_has(f, b[a].key) {
                let m = choose|m: int| 0 <= m < f.len() && f[m].key == b[a].key;
                assert(f[m].key == gone);
            }
            assert(evicts_before(b[a].heat, b[a].last_used, f[j].heat, f[j].last_used));
        }
    }

    /// Reserves `size` host bytes for loading `key`, first evicting cached
    /// payloads (never `key`'s) down to the RAM cache budget less `size`.
    /// Refused when the live and reserved host bytes plus `size` would exceed
    /// the RAM live budget.
    pub fn reserve_host(&mut self, key: ExpertKey, size: u64) -> (r: Result<HostReservation, CacheError>)
        requires
            old(self).wf(),
        ensures
            final(self).wf(),
            final(self).ram_live_limit() == old(self).ram_live_limit(),
            final(self).ram_cache_limit() == old(self).ram_cache_limit(),
            final(self).accelerator_live_limit() == old(self).accelerator_live_limit(),
            final(self).accelerator_cache_limit() == old(self).accelerator_cache_limit(),
            final(self).accelerator_live() == old(self).accelerator_live(),
            final(self).host_live() <= old(self).host_live(),
            final(self).host_leased() == old(self).host_leased(),
            r is Ok <==> final(self).host_live() + old(self).host_reserved() + size <= old(self).ram_live_limit(),
            match r {
                Ok(t) => t.key_spec() == key && t.size_spec() == size
                    && final(self).host_reserved() == old(self).host_reserved() + size
                    && final(self).ram_peak() == (if old(self).ram_peak() < final(self).host_live() + final(self).host_reserved() {
                        final(self).host_live() + final(self).host_reserved()
                    } else {
                        old(self).ram_peak() as nat
                    })
                    && final(self).stats().ram_budget_denials == old(self).stats().ram_budget_denials,
                Err(e) => old(self).host_refused(final(self), key, size, e),
            },
            final(self).stats() == (CacheMetrics {
                ram_bytes: final(self).stats().ram_bytes,
                ram_evictions: final(self).stats().ram_evictions,
                ram_peak_bytes: final(self).stats().ram_peak_bytes,
                ram_budget_denials: final(self).stats().ram_budget_denials,
                ..old(self).stats()
            }),
            final(self).accelerator_as(old(self)),
            forall|k: ExpertKey, b: Seq<u8>| #[trigger] final(self).ram_holds(k, b) ==> old(self).ram_holds(k, b),
            forall|k: ExpertKey| #[trigger] final(self).cached_on_device(k) == old(self).cached_on_device(k),
            r matches Ok(t) ==> final(self).holds_reservation(t),
            forall|k: ExpertKey| #[trigger] final(self).cached_in_ram(k) ==> old(self).cached_in_ram(k)
                && final(self).ram_rank(k) == old(self).ram_rank(k),
            old(self).ram_evicted_in_order(final(self), key),
    {
        let ghost start = *self;
        let target = if size <= self.ram_cache_budget { self.ram_cache_budget - size } else { 0 };
        evict_host_to_fit(&mut self.host, &mut self.retired, &mut self.retired_host_bytes, &mut self.metrics, target, key);
        proof {
            Self::lemma_same_accelerator(&*self, &start);
            Self::lemma_eviction_ranks(&start, &*self, key);
        }
        let current = self.metrics.ram_bytes + self.retired_host_bytes + self.reserved_host_bytes;
        if (current as u128) + (size as u128) > self.ram_live_budget as u128 {
            self.metrics.ram_budget_denials = self.metrics.ram_budget_denials.saturating_add(1);
            return Err(CacheError::HostBudget {
                key,
                required: current.saturating_add(size),
                budget: self.ram_live_budget,
            });
        }
        let required = current + size;
        let id = self.next_id;
        self.next_id = self.next_id.wrapping_add(1);
        proof { lemma_reserved_push(self.reservations@, Reserved { id, size }); }
        self.reservations.push(Reserved { id, size });
        assert(self.reservations@[self.reservations@.len() - 1].id == id);
        self.reserved_host_bytes = self.reserved_host_bytes + size;
        if required > self.metrics.ram_peak_bytes {
            self.metrics.ram_peak_bytes = required;
        }
        assert(self.device@ == old(self).device@);
        assert forall|k: ExpertKey| #[trigger] self.cached_on_device(k) == old(self).cached_on_device(k) by {
            if old(self).cached_on_device(k) {
                let i = choose|i: int| 0 <= i < old(self).device@.len() && #[trigger] old(self).device@[i].key == k;
                assert(self.device@[i].key == k);
            }
            if self.cached_on_device(k) {
                let i = choose|i: int| 0 <= i < self.device@.len() && #[trigger] self.device@[i].key == k;
                assert(old(self).device@[i].key == k);
            }
        }
        let ghost last = self.reservations@.len() - 1;
        assert(self.reservations@[last].id == id && self.reservations@[last].size == size);
        assert(self.holds_reservation(HostReservation { key, size, id }));
        Ok(HostReservation { key, size, id })
    }

    /// Gives back the host bytes of a load that will not complete.
    pub fn cancel_host_reservation(&mut self, reservation: HostReservation)
        requires
            old(self).wf(),
        ensures
            final(self).wf(),
            final(self).ram_live_limit() == old(self).ram_live_limit(),
            final(self).ram_cache_limit() == old(self).ram_cache_limit(),
            final(self).accelerator_live_limit() == old(self).accelerator_live_limit(),
            final(self).accelerator_cache_limit() == old(self).accelerator_cache_limit(),
            final(self).host_live() == old(self).host_live(),
            final(self).host_reserved() <= old(self).host_reserved(),
            old(self).holds_reservation(reservation)
                ==> final(self).host_reserved() + reservation.size_spec() == old(self).host_reserved(),
            !old(self).holds_reservation(reservation) ==> final(self).host_reserved() == old(self).host_reserved(),
            final(self).accelerator_as(old(self)),
            final(self).stats() == old(self).stats(),
            forall|k: ExpertKey, b: Seq<u8>| #[trigger] final(self).ram_holds(k, b) <==> old(self).ram_holds(k, b),
            old(self).ram_kept_except(final(self), reservation.key_spec()),
    {
        self.drop_reservation(reservation.id, reservation.size);
    }

    fn drop_reservation(&mut self, id: u64, size: u64) -> (found: Option<u64>)
        requires
            old(self).wf(),
        ensures
            final(self).wf(),
            final(self).ram_live_limit() == old(self).ram_live_limit(),
            final(self).ram_cache_limit() == old(self).ram_cache_limit(),
            final(self).accelerator_live_limit() == old(self).accelerator_live_limit(),
            final(self).accelerator_cache_limit() == old(self).accelerator_cache_limit(),
            final(self).host_live() == old(self).host_live(),
            final(self).accelerator_live() == old(self).accelerator_live(),
            final(self).stats() == old(self).stats(),
            final(self).host@ == old(self).host@,
            final(self).device@ == old(self).device@,
            match found {
                Some(n) => n == size && final(self).host_reserved() + size == old(self).host_reserved(),
                None => final(self).host_reserved() == old(self).host_reserved(),
            },
            found is Some <==> old(self).has_reserved(id, size),
            final(self).accelerator_as(old(self)),
    {
        let ghost start = *self;
        match find_reservation(&self.reservations, id, size) {
            Some(i) => {
                proof { lemma_reserved_remove(self.reservations@, i as int); }
                let r = self.reservations.remove(i);
                self.reserved_host_bytes = self.reserved_host_bytes - r.size;
                proof { Self::lemma_same_accelerator(&*self, &start); }
                Some(r.size)
            },
            None => {
                proof { Self::lemma_same_accelerator(&*self, &start); }
                None
            },
        }
    }
}


impl<A: Accelerator> ResidencyManager<A> {
    /// Moves reserved bytes into the cache (or, beyond the cache budget, into
    /// a lease-only retired entry when `hold`). Returns the payload's lease, or
    /// `None` when the reservation is unknown, in which case nothing is kept.
    #[verifier::spinoff_prover]
    fn commit_host(&mut self, reservation: HostReservation, payload: ExpertPayload, hold: bool) -> (lease: Option<u64>)
        requires
            old(self).wf(),
        ensures
            final(self).wf(),
            final(self).ram_live_limit() == old(self).ram_live_limit(),
            final(self).ram_cache_limit() == old(self).ram_cache_limit(),
            final(self).accelerator_live_limit() == old(self).accelerator_live_limit(),
            final(self).accelerator_cache_limit() == old(self).accelerator_cache_limit(),
            final(self).accelerator_live() == old(self).accelerator_live(),
            final(self).host_live() + final(self).host_reserved() <= old(self).host_live() + old(self).host_reserved(),
            final(self).stats().storage_loads == old(self).stats().storage_loads,
            lease is Some <==> old(self).holds_reservation(reservation),
            lease is Some ==> final(self).host_leased() == old(self).host_leased() + (if hold { reservation.size } else { 0u64 }),
            lease is None ==> final(self).host_leased() == old(self).host_leased(),
            final(self).stats() == (CacheMetrics { ram_bytes: final(self).stats().ram_bytes, ..old(self).stats() }),
            final(self).accelerator_as(old(self)),
            lease is Some ==> final(self).reserved_host_bytes + reservation.size == old(self).reserved_host_bytes,
            lease is None ==> final(self).reserved_host_bytes == old(self).reserved_host_bytes
                && final(self).host@ == old(self).host@,
            lease is Some && reservation.size <= old(self).ram_cache_budget && old(self).ram_cache_budget != 0
                ==> host_has(final(self).host@, reservation.key)
                && host_holds(final(self).host@, reservation.key, payload.bytes@)
                && final(self).ram_payload(reservation.key, payload.bytes, payload.tensors),
            forall|k: ExpertKey, b: Seq<u8>| #[trigger] host_holds(final(self).host@, k, b) ==> host_holds(old(self).host@, k, b)
                || (k == reservation.key && b == payload.bytes@),
            final(self).device@ == old(self).device@,
            old(self).ram_kept_except(final(self), reservation.key),
    {
        let ghost start = *self;
        let size = match self.drop_reservation(reservation.id, reservation.size) {
            Some(size) => size,
            None => return None,
        };
        let key = reservation.key;
        let lease = self.next_id;
        self.next_id = self.next_id.wrapping_add(1);
        if size > self.ram_cache_budget || self.ram_cache_budget == 0 {
            if hold {
                let r = RetiredHost { lease, size, holders: 1 };
                proof { lemma_retired_push(self.retired@, r); }
                self.retired.push(r);
                self.retired_host_bytes = self.retired_host_bytes + size;
            }
            return Some(lease);
        }
        self.clock = self.clock.saturating_add(1);
        let last_used = self.clock;
        let heat = heat_of(&self.heat, key);
        let ghost h0 = self.host@;
        let ghost mut gone: int = -1;
        match find_host(&self.host, key) {
            Some(i) => {
                proof {
                    gone = i as int;
                    lemma_host_remove(self.host@, i as int);
                    lemma_host_remove_keeps(self.host@, i as int);
                    lemma_host_leased_remove(self.host@, i as int);
                }
                let old_entry = self.host.remove(i);
                self.metrics.ram_bytes = self.metrics.ram_bytes - old_entry.size;
                if old_entry.holders > 0 {
                    let r = RetiredHost { lease: old_entry.lease, size: old_entry.size, holders: old_entry.holders };
                    proof { lemma_retired_push(self.retired@, r); }
                    self.retired.push(r);
                    self.retired_host_bytes = self.retired_host_bytes + old_entry.size;
                }
            },
            None => {},
        }
        let entry = HostEntry { key, payload, size, lease, holders: if hold { 1 } else { 0 }, last_used, heat };
        proof {
            lemma_host_push(self.host@, entry);
            lemma_host_push_keeps(self.host@, entry);
            lemma_host_leased_push(self.host@, entry);
            let h1 = self.host@;
            assert forall|k: ExpertKey, b: Seq<u8>| #[trigger] host_holds(h1.push(entry), k, b) implies host_holds(h0, k, b)
                || (k == key && b == entry.payload.bytes@) by {
                if host_holds(h1, k, b) {
                    assert(host_holds(h0, k, b));
                }
            }
        }
        let ghost h1 = self.host@;
        self.host.push(entry);
        self.metrics.ram_bytes = self.metrics.ram_bytes + size;
        assert(self.host@[self.host@.len() - 1].key == key);
        assert(self.host@[self.host@.len() - 1].payload == payload);
        proof {
            assert(start.host@ == h0);
            Self::lemma_kept_replace(&start, &*self, key, gone, entry);
        }
        Some(lease)
    }

    /// What an upload attempt of `bytes` for `key`, which the accelerator
    /// cache does not hold, decides from state `self` to `next` with lease
    /// `d`: no lease when `bytes` exceed the accelerator live budget or that
    /// budget is zero (nothing changes), when the live bytes left after
    /// eviction leave no room (a denial is counted), or when the accelerator,
    /// handed `key` and `bytes`, failed or answered a buffer of another size;
    /// otherwise a lease on the buffer it answered, whose bytes are then live
    /// and leased, cached exactly when they fit a non-empty accelerator cache
    /// budget. Eviction never gives back leased bytes.
    pub open spec fn upload_decided(&self, next: &Self, key: ExpertKey, bytes: Seq<u8>, d: Option<DeviceLease>) -> bool {
        let n = bytes.len();
        let limit = self.accelerator_live_limit();
        let fits_cache = n <= self.accelerator_cache_limit() && self.accelerator_cache_limit() != 0;
        &&& next.stats() == (CacheMetrics {
            accelerator_bytes: next.stats().accelerator_bytes,
            accelerator_evictions: next.stats().accelerator_evictions,
            accelerator_budget_denials: next.stats().accelerator_budget_denials,
            ..self.stats()
        })
        &&& next.accelerator_peak() >= self.accelerator_peak()
        &&& match d {
            None => {
                ||| !(n <= limit && limit > 0) && *next == *self
                ||| n <= limit && limit > 0 && next.accelerator_live() <= self.accelerator_live()
                    && next.accelerator_live() + n > limit
                    && next.accelerator_leased() == self.accelerator_leased()
                    && next.stats().accelerator_budget_denials == bumped(self.stats().accelerator_budget_denials)
                    && next.accelerator_peak() == self.accelerator_peak()
                ||| n <= limit && limit > 0 && next.accelerator_live() <= self.accelerator_live()
                    && next.accelerator_live() + n <= limit
                    && next.accelerator_leased() == self.accelerator_leased()
                    && next.stats().accelerator_budget_denials == self.stats().accelerator_budget_denials
                    && exists|s: &[u8], u: Result<AcceleratorBuffer, String>| s@ == bytes
                        && #[trigger] call_ensures(A::upload, (&self.backend(), key, s), u)
                        && !(u matches Ok(b) && b.bytes == n)
            },
            Some(l) => {
                &&& n <= limit && limit > 0
                &&& l.buffer.bytes == n
                &&& exists|s: &[u8]| s@ == bytes
                    && #[trigger] call_ensures(A::upload, (&self.backend(), key, s), Ok::<AcceleratorBuffer, String>(l.buffer))
                &&& n <= next.accelerator_live() <= self.accelerator_live() + n
                &&& next.accelerator_leased() == self.accelerator_leased() + n
                &&& next.accelerator_live() <= next.accelerator_peak()
                &&& next.stats().accelerator_budget_denials == self.stats().accelerator_budget_denials
                &&& next.cached_on_device(key) == fits_cache
            },
        }
    }

    /// The accelerator side of `self` is that of `other`: the same backend,
    /// budgets, live, leased, peak and cached bytes, and the same cached
    /// experts.
    pub open spec fn accelerator_as(&self, other: &Self) -> bool {
        &&& self.backend() == other.backend()
        &&& self.accelerator_live() == other.accelerator_live()
        &&& self.accelerator_leased() == other.accelerator_leased()
        &&& self.accelerator_peak() == other.accelerator_peak()
        &&& self.accelerator_cached() == other.accelerator_cached()
        &&& self.accelerator_live_limit() == other.accelerator_live_limit()
        &&& self.accelerator_cache_limit() == other.accelerator_cache_limit()
        &&& forall|k: ExpertKey| #[trigger] self.cached_on_device(k) == other.cached_on_device(k)
    }

    proof fn lemma_same_accelerator(a: &Self, b: &Self)
        requires
            a.accelerator == b.accelerator,
            a.device@ == b.device@,
            a.allocations@ == b.allocations@,
            a.accelerator_live_bytes == b.accelerator_live_bytes,
            a.accelerator_peak_bytes == b.accelerator_peak_bytes,
            a.accelerator_live_budget == b.accelerator_live_budget,
            a.accelerator_cache_budget == b.accelerator_cache_budget,
        ensures
            a.accelerator_as(b),
    {
        assert forall|k: ExpertKey| #[trigger] a.cached_on_device(k) == b.cached_on_device(k) by {
            if a.cached_on_device(k) {
                let i = choose|i: int| 0 <= i < a.device@.len() && #[trigger] a.device@[i].key == k;
                assert(b.device@[i].key == k);
            }
            if b.cached_on_device(k) {
                let i = choose|i: int| 0 <= i < b.device@.len() && #[trigger] b.device@[i].key == k;
                assert(a.device@[i].key == k);
            }
        }
    }

    /// `next` caches the same host payloads as `self`.
    pub closed spec fn same_host_cache(&self, next: &Self) -> bool {
        next.host@ == self.host@
    }

    /// The accelerator the manager uploads to.
    pub closed spec fn backend(&self) -> A {
        self.accelerator
    }

    /// Room for uploading `length` bytes for `key`: with a non-empty live
    /// budget that `length` fits, cached allocations (never `key`'s) are
    /// evicted down to the accelerator cache budget less `length`; the upload
    /// is admitted when the live bytes that remain plus `length` fit the live
    /// budget, and refused (counting a denial) otherwise. The peak then covers
    /// the admitted bytes. Nothing changes when `length` exceeds the live
    /// budget or that budget is zero.
    pub fn admit_upload(&mut self, key: ExpertKey, length: usize) -> (ok: bool)
        requires
            old(self).wf(),
        ensures
            final(self).wf(),
            final(self).ram_live_limit() == old(self).ram_live_limit(),
            final(self).ram_cache_limit() == old(self).ram_cache_limit(),
            final(self).accelerator_live_limit() == old(self).accelerator_live_limit(),
            final(self).accelerator_cache_limit() == old(self).accelerator_cache_limit(),
            final(self).backend() == old(self).backend(),
            old(self).same_host_cache(final(self)),
            final(self).host_live() == old(self).host_live(),
            final(self).host_reserved() == old(self).host_reserved(),
            final(self).ram_peak() == old(self).ram_peak(),
            forall|k: ExpertKey, b: Seq<u8>| #[trigger] final(self).ram_holds(k, b) <==> old(self).ram_holds(k, b),
            forall|k: ExpertKey| #[trigger] final(self).cached_in_ram(k) <==> old(self).cached_in_ram(k),
            !(length <= old(self).accelerator_live_limit() && old(self).accelerator_live_limit() > 0)
                ==> !ok && *final(self) == *old(self),
            length <= old(self).accelerator_live_limit() && old(self).accelerator_live_limit() > 0
                ==> (ok <==> final(self).accelerator_live() + length <= final(self).accelerator_live_limit()),
            final(self).accelerator_live() <= old(self).accelerator_live(),
            final(self).accelerator_leased() == old(self).accelerator_leased(),
            ok ==> final(self).accelerator_live() + length <= final(self).accelerator_peak()
                && final(self).stats().accelerator_budget_denials == old(self).stats().accelerator_budget_denials,
            !ok && length <= old(self).accelerator_live_limit() && old(self).accelerator_live_limit() > 0
                ==> final(self).stats().accelerator_budget_denials == bumped(old(self).stats().accelerator_budget_denials)
                && final(self).accelerator_peak() == old(self).accelerator_peak(),
            final(self).accelerator_peak() >= old(self).accelerator_peak(),
            final(self).stats().accelerator_hits == old(self).stats().accelerator_hits,
            final(self).stats().ram_hits == old(self).stats().ram_hits,
            final(self).stats().storage_loads == old(self).stats().storage_loads,
            final(self).stats().ram_budget_denials == old(self).stats().ram_budget_denials,
            final(self).stats() == (CacheMetrics {
                accelerator_bytes: final(self).stats().accelerator_bytes,
                accelerator_evictions: final(self).stats().accelerator_evictions,
                accelerator_budget_denials: final(self).stats().accelerator_budget_denials,
                ..old(self).stats()
            }),
            forall|k: ExpertKey| #[trigger] final(self).cached_on_device(k) ==> old(self).cached_on_device(k),
            length <= old(self).accelerator_cache_limit() && old(self).accelerator_cache_limit() != 0
                && !old(self).cached_on_device(key)
                ==> final(self).accelerator_cached() + length <= final(self).accelerator_cache_limit(),
    {
        if length as u128 > self.accelerator_live_budget as u128 || self.accelerator_live_budget == 0 {
            return false;
        }
        let size = length as u64;
        let target = if size <= self.accelerator_cache_budget { self.accelerator_cache_budget - size } else { 0 };
        let ghost d0 = self.device@;
        evict_device_to_fit(&self.accelerator, &mut self.device, &mut self.allocations,
            &mut self.accelerator_live_bytes, &mut self.metrics, target, key);
        proof {
            if size <= self.accelerator_cache_budget && self.accelerator_cache_budget != 0 && !old(self).cached_on_device(key)
                && self.metrics.accelerator_bytes > target {
                if self.device@.len() > 0 {
                    assert(self.device@[0].key == key);
                    assert(device_has(self.device@, key));
                    assert(device_has(d0, key));
                    let j = choose|j: int| 0 <= j < d0.len() && d0[j].key == key;
                    assert(old(self).device@[j].key == key);
                }
                assert(device_sizes(self.device@) =~= Seq::<u64>::empty());
            }
        }
        let denied = self.accelerator_live_bytes > self.accelerator_live_budget - size;
        if denied {
            self.metrics.accelerator_budget_denials = self.metrics.accelerator_budget_denials.saturating_add(1);
        } else {
            let reserved_live = self.accelerator_live_bytes + size;
            if reserved_live > self.accelerator_peak_bytes {
                self.accelerator_peak_bytes = reserved_live;
            }
        }
        proof {
            assert forall|k: ExpertKey| #[trigger] self.cached_on_device(k) implies old(self).cached_on_device(k) by {
                let i = choose|i: int| 0 <= i < self.device@.len() && #[trigger] self.device@[i].key == k;
                assert(device_has(self.device@, k));
                assert(device_has(d0, k));
                let j = choose|j: int| 0 <= j < d0.len() && d0[j].key == k;
                assert(old(self).device@[j].key == k);
            }
            assert forall|k: ExpertKey| #[trigger] self.cached_in_ram(k) <==> old(self).cached_in_ram(k) by {
                if self.cached_in_ram(k) {
                    let i = choose|i: int| 0 <= i < self.host@.len() && #[trigger] self.host@[i].key == k;
                    assert(old(self).host@[i].key == k);
                }
                if old(self).cached_in_ram(k) {
                    let i = choose|i: int| 0 <= i < old(self).host@.len() && #[trigger] old(self).host@[i].key == k;
                    assert(self.host@[i].key == k);
                }
            }
        }
        !denied
    }

    /// Completes an admitted upload of `length` bytes for `key` with what the
    /// accelerator answered. A buffer of exactly `length` bytes becomes a new
    /// allocation with one lease, counted as live, and is cached when
    /// `length` fits a non-empty accelerator cache budget; a buffer of another
    /// size is given back to the accelerator. Returns the lease, `None` when
    /// the upload failed or its size differs.
    pub fn complete_upload(
        &mut self,
        key: ExpertKey,
        length: usize,
        tensors: &Arc<Vec<ResidentTensor>>,
        uploaded: Result<AcceleratorBuffer, String>,
    ) -> (r: Option<DeviceLease>)
        requires
            old(self).wf(),
            old(self).accelerator_live() + length <= old(self).accelerator_live_limit(),
            old(self).accelerator_live() + length <= old(self).accelerator_peak(),
            length <= old(self).accelerator_cache_limit() && old(self).accelerator_cache_limit() != 0
                ==> old(self).accelerator_cached() + length <= old(self).accelerator_cache_limit(),
        ensures
            final(self).wf(),
            final(self).ram_live_limit() == old(self).ram_live_limit(),
            final(self).ram_cache_limit() == old(self).ram_cache_limit(),
            final(self).accelerator_live_limit() == old(self).accelerator_live_limit(),
            final(self).accelerator_cache_limit() == old(self).accelerator_cache_limit(),
            final(self).backend() == old(self).backend(),
            final(self).host_live() == old(self).host_live(),
            final(self).host_reserved() == old(self).host_reserved(),
            final(self).ram_peak() == old(self).ram_peak(),
            old(self).same_host_cache(final(self)),
            final(self).accelerator_peak() == old(self).accelerator_peak(),
            forall|k: ExpertKey, b: Seq<u8>| #[trigger] final(self).ram_holds(k, b) <==> old(self).ram_holds(k, b),
            forall|k: ExpertKey| #[trigger] final(self).cached_in_ram(k) <==> old(self).cached_in_ram(k),
            r is Some <==> (uploaded matches Ok(b) && b.bytes == length),
            r matches Some(d) ==> uploaded == Ok::<AcceleratorBuffer, String>(d.buffer)
                && final(self).accelerator_live() == old(self).accelerator_live() + length
                && final(self).accelerator_leased() == old(self).accelerator_leased() + length,
            r is None ==> final(self).accelerator_live() == old(self).accelerator_live()
                && final(self).accelerator_leased() == old(self).accelerator_leased()
                && final(self).stats() == old(self).stats(),
            final(self).cached_on_device(key) == (old(self).cached_on_device(key)
                || (r is Some && length <= old(self).accelerator_cache_limit() && old(self).accelerator_cache_limit() != 0)),
            forall|k: ExpertKey| k != key ==> #[trigger] final(self).cached_on_device(k) == old(self).cached_on_device(k),
            final(self).stats() == (CacheMetrics { accelerator_bytes: final(self).stats().accelerator_bytes, ..old(self).stats() }),
    {
        let buffer = match uploaded {
            Ok(buffer) => buffer,
            Err(_) => return None,
        };
        if buffer.bytes != length {
            self.accelerator.release(&buffer);
            return None;
        }
        let size = length as u64;
        let id = self.next_id;
        self.next_id = self.next_id.wrapping_add(1);
        let allocation = Allocation { id, buffer, reserved: size, holders: 1 };
        let ghost a0 = self.allocations@;
        proof {
            lemma_allocation_push(self.allocations@, allocation);
            lemma_leased_push(self.allocations@, allocation);
            assert(buffers_sized(self.allocations@.push(allocation))) by {
                assert forall|k: int| 0 <= k < self.allocations@.push(allocation).len() implies
                    (#[trigger] self.allocations@.push(allocation)[k]).buffer.bytes
                        == self.allocations@.push(allocation)[k].reserved by {
                    if k < self.allocations@.len() { assert(self.allocations@.push(allocation)[k] == self.allocations@[k]); }
                }
            }
            lemma_backed_push_allocation(self.device@, self.allocations@, allocation);
        }
        self.allocations.push(allocation);
        self.accelerator_live_bytes = self.accelerator_live_bytes + size;
        if size > self.accelerator_cache_budget || self.accelerator_cache_budget == 0 {
            return Some(DeviceLease { allocation: id, buffer });
        }
        self.clock = self.clock.saturating_add(1);
        let last_used = self.clock;
        let heat = heat_of(&self.heat, key);
        let entry = DeviceEntry { key, allocation: id, tensors: share(tensors), size, last_used, heat };
        let ghost d0 = self.device@;
        proof {
            lemma_device_push(self.device@, entry);
            lemma_backed_push_device(self.device@, self.allocations@, entry);
        }
        self.device.push(entry);
        self.metrics.accelerator_bytes = self.metrics.accelerator_bytes + size;
        proof {
            assert(self.device@[d0.len() as int].key == key);
            assert forall|k: ExpertKey| #[trigger] self.cached_on_device(k) == (old(self).cached_on_device(k) || k == key) by {
                if self.cached_on_device(k) && k != key {
                    let i = choose|i: int| 0 <= i < self.device@.len() && #[trigger] self.device@[i].key == k;
                    assert(i < d0.len());
                    assert(old(self).device@[i].key == k);
                }
                if old(self).cached_on_device(k) {
                    let i = choose|i: int| 0 <= i < old(self).device@.len() && #[trigger] old(self).device@[i].key == k;
                    assert(self.device@[i].key == k);
                }
            }
        }
        Some(DeviceLease { allocation: id, buffer })
    }

    /// Uploads `bytes` to the accelerator when the budgets allow, caching the
    /// allocation when it fits the accelerator cache budget. Returns a lease
    /// on the allocation, if one was made or cached.
    fn try_upload(&mut self, key: ExpertKey, bytes: &Arc<Vec<u8>>, tensors: &Arc<Vec<ResidentTensor>>) -> (r: Option<DeviceLease>)
        requires
            old(self).wf(),
        ensures
            final(self).wf(),
            final(self).ram_live_limit() == old(self).ram_live_limit(),
            final(self).ram_cache_limit() == old(self).ram_cache_limit(),
            final(self).accelerator_live_limit() == old(self).accelerator_live_limit(),
            final(self).accelerator_cache_limit() == old(self).accelerator_cache_limit(),
            final(self).backend() == old(self).backend(),
            final(self).host_live() == old(self).host_live(),
            final(self).host_reserved() == old(self).host_reserved(),
            final(self).ram_peak() == old(self).ram_peak(),
            final(self).host@ == old(self).host@,
            r is Some ==> bytes@.len() <= old(self).accelerator_live_limit() && old(self).accelerator_live_limit() > 0,
            old(self).cached_on_device(key) && bytes@.len() <= old(self).accelerator_live_limit()
                && old(self).accelerator_live_limit() > 0 ==> r is Some,
            !old(self).cached_on_device(key) ==> old(self).upload_decided(final(self), key, bytes@, r),
            final(self).stats().accelerator_hits == old(self).stats().accelerator_hits,
            final(self).stats().ram_hits == old(self).stats().ram_hits,
            final(self).stats().storage_loads == old(self).stats().storage_loads,
            final(self).stats().ram_budget_denials == old(self).stats().ram_budget_denials,
    {
        let data: &Vec<u8> = &**bytes;
        let length = data.len();
        if length as u128 > self.accelerator_live_budget as u128 || self.accelerator_live_budget == 0 {
            return None;
        }
        match find_device(&self.device, key) {
            Some(i) => {
                let id = self.device[i].allocation;
                proof { assert(has_allocation(self.allocations@, self.device@[i as int].allocation)); }
                let j = match find_allocation(&self.allocations, id) {
                    Some(j) => j,
                    None => return None,
                };
                let buffer = self.allocations[j].buffer;
                let updated = Allocation {
                    id,
                    buffer,
                    reserved: self.allocations[j].reserved,
                    holders: self.allocations[j].holders.saturating_add(1),
                };
                proof {
                    lemma_allocation_update(self.allocations@, j as int, updated);
                    lemma_backed_update_allocation(self.device@, self.allocations@, j as int, updated);
                }
                self.allocations.set(j, updated);
                return Some(DeviceLease { allocation: id, buffer });
            },
            None => {},
        }
        if !self.admit_upload(key, length) {
            return None;
        }
        let ghost admitted = *self;
        let slice = data.as_slice();
        let uploaded = self.accelerator.upload(key, slice);
        let r = self.complete_upload(key, length, tensors, uploaded);
        proof {
            assert(slice@ == bytes@);
            assert(call_ensures(A::upload, (&admitted.backend(), key, slice), uploaded));
        }
        r
    }
}


impl<A: Accelerator> ResidencyManager<A> {
    /// Starts a request for `key`: a lease from the accelerator cache, else
    /// from the RAM cache (uploaded to the accelerator when the budgets
    /// allow), else a request to load the payload from storage.
    #[verifier::spinoff_prover]
    pub fn begin_get(&mut self, key: ExpertKey) -> (r: BeginGet)
        requires
            old(self).wf(),
        ensures
            final(self).wf(),
            final(self).ram_live_limit() == old(self).ram_live_limit(),
            final(self).ram_cache_limit() == old(self).ram_cache_limit(),
            final(self).accelerator_live_limit() == old(self).accelerator_live_limit(),
            final(self).accelerator_cache_limit() == old(self).accelerator_cache_limit(),
            final(self).host_live() == old(self).host_live(),
            final(self).host_reserved() == old(self).host_reserved(),
            old(self).cached_on_device(key) ==> (r matches BeginGet::Ready(e) && e.key == key
                && e.source_tier == ResidencyTier::Accelerator && e.host_bytes is None
                && (e.device matches Some(d) && old(self).device_payload(key, d.buffer, e.tensors))
                && final(self).stats().accelerator_hits == bumped(old(self).stats().accelerator_hits)),
            !old(self).cached_on_device(key) && old(self).cached_in_ram(key) ==> (r matches BeginGet::Ready(e)
                && e.key == key && e.source_tier == ResidencyTier::Ram
                && (e.host_bytes matches Some(hb) && old(self).ram_holds(key, hb@) && old(self).ram_payload(key, hb, e.tensors)
                    && exists|mid: Self| mid.accelerator_as(old(self))
                        && mid.stats() == (CacheMetrics { ram_hits: bumped(old(self).stats().ram_hits), ..old(self).stats() })
                        && #[trigger] mid.upload_decided(final(self), key, hb@, e.device))
                && final(self).stats().ram_hits == bumped(old(self).stats().ram_hits)),
            !old(self).cached_on_device(key) && !old(self).cached_in_ram(key) ==> (r is Load
                && final(self).stats() == old(self).stats() && final(self).accelerator_as(old(self))
                && final(self).host_leased() == old(self).host_leased()
                && old(self).ram_kept_except(final(self), key)),
            forall|k: ExpertKey, b: Seq<u8>| #[trigger] final(self).ram_holds(k, b) <==> old(self).ram_holds(k, b),
    {
        let ghost start = *self;
        self.clock = self.clock.saturating_add(1);
        let now = self.clock;
        let heat = bump_heat(&mut self.heat, key);
        match find_device(&self.device, key) {
            Some(i) => {
                let id = self.device[i].allocation;
                proof { assert(has_allocation(self.allocations@, self.device@[i as int].allocation)); }
                let j = match find_allocation(&self.allocations, id) {
                    Some(j) => j,
                    None => return BeginGet::Load,
                };
                let buffer = self.allocations[j].buffer;
                proof {
                    lemma_first_allocation_at(self.allocations@, id, j as int);
                    lemma_buffers_first(self.allocations@, id);
                    assert(start.device_payload(key, buffer, self.device@[i as int].tensors));
                }
                let updated = Allocation {
                    id,
                    buffer,
                    reserved: self.allocations[j].reserved,
                    holders: self.allocations[j].holders.saturating_add(1),
                };
                proof {
                    lemma_allocation_update(self.allocations@, j as int, updated);
                    lemma_backed_update_allocation(self.device@, self.allocations@, j as int, updated);
                }
                self.allocations.set(j, updated);
                let tensors = share(&self.device[i].tensors);
                let touched = DeviceEntry {
                    key,
                    allocation: id,
                    tensors: share(&self.device[i].tensors),
                    size: self.device[i].size,
                    last_used: now,
                    heat,
                };
                proof {
                    lemma_device_update(self.device@, i as int, touched);
                    lemma_backed_update_device(self.device@, self.allocations@, i as int, touched);
                }
                self.device.set(i, touched);
                self.metrics.accelerator_hits = self.metrics.accelerator_hits.saturating_add(1);
                return BeginGet::Ready(ResidentExpert {
                    key,
                    host_bytes: None,
                    tensors,
                    host_lease: None,
                    device: Some(DeviceLease { allocation: id, buffer }),
                    source_tier: ResidencyTier::Accelerator,
                });
            },
            None => {},
        }
        let i = match find_host(&self.host, key) {
            Some(i) => i,
            None => {
                proof { Self::lemma_same_accelerator(&*self, &start); }
                return BeginGet::Load;
            },
        };
        let bytes = share(&self.host[i].payload.bytes);
        let tensors = share(&self.host[i].payload.tensors);
        assert(start.ram_payload(key, bytes, tensors));
        let lease = self.host[i].lease;
        let touched = HostEntry {
            key,
            payload: ExpertPayload { bytes: share(&bytes), tensors: share(&tensors) },
            size: self.host[i].size,
            lease,
            holders: self.host[i].holders.saturating_add(1),
            last_used: now,
            heat,
        };
        proof {
            lemma_host_update(self.host@, i as int, touched);
            lemma_host_set_keeps(self.host@, i as int, touched);
            assert(host_holds(self.host@, key, bytes@));
        }
        self.host.set(i, touched);
        self.metrics.ram_hits = self.metrics.ram_hits.saturating_add(1);
        let ghost mid = *self;
        proof {
            assert(!device_has(self.device@, key));
            assert(!mid.cached_on_device(key));
            assert(device_sizes(mid.device@) == device_sizes(old(self).device@));
            Self::lemma_same_accelerator(&mid, &start);
            assert(mid.stats() == (CacheMetrics { ram_hits: bumped(start.stats().ram_hits), ..start.stats() }));
        }
        let device = self.try_upload(key, &bytes, &tensors);
        assert(mid.upload_decided(&*self, key, bytes@, device));
        BeginGet::Ready(ResidentExpert {
            key,
            host_bytes: Some(bytes),
            tensors,
            host_lease: Some(lease),
            device,
            source_tier: ResidencyTier::Ram,
        })
    }

    /// Completes a load: the payload read from storage for `reservation` is
    /// cached (or held by the returned lease alone when it exceeds the RAM
    /// cache budget) and uploaded to the accelerator when the budgets allow.
    pub fn finish_get(&mut self, reservation: HostReservation, payload: ExpertPayload) -> (e: ResidentExpert)
        requires
            old(self).wf(),
        ensures
            final(self).wf(),
            final(self).ram_live_limit() == old(self).ram_live_limit(),
            final(self).ram_cache_limit() == old(self).ram_cache_limit(),
            final(self).accelerator_live_limit() == old(self).accelerator_live_limit(),
            final(self).accelerator_cache_limit() == old(self).accelerator_cache_limit(),
            e.key == reservation.key_spec(),
            e.source_tier == ResidencyTier::Storage,
            e.host_bytes == Some(payload.bytes),
            e.tensors == payload.tensors,
            final(self).stats().storage_loads == bumped(old(self).stats().storage_loads),
            final(self).host_live() + final(self).host_reserved() <= old(self).host_live() + old(self).host_reserved(),
            e.host_lease is Some && reservation.size_spec() <= final(self).ram_cache_limit()
                && final(self).ram_cache_limit() != 0 ==> final(self).cached_in_ram(reservation.key_spec())
                && final(self).ram_holds(reservation.key_spec(), payload.bytes@)
                && final(self).ram_payload(reservation.key_spec(), payload.bytes, payload.tensors),
            forall|k: ExpertKey, b: Seq<u8>| #[trigger] final(self).ram_holds(k, b) ==> old(self).ram_holds(k, b)
                || (k == reservation.key_spec() && b == payload.bytes@),
            old(self).holds_reservation(reservation) ==> e.host_lease is Some
                && final(self).host_leased() == old(self).host_leased() + reservation.size_spec(),
            !old(self).holds_reservation(reservation) ==> e.host_lease is None
                && final(self).host_leased() == old(self).host_leased(),
            !old(self).cached_on_device(reservation.key_spec()) ==> exists|mid: Self| mid.accelerator_as(old(self))
                && mid.stats() == (CacheMetrics {
                    storage_loads: bumped(old(self).stats().storage_loads),
                    ram_bytes: mid.stats().ram_bytes,
                    ..old(self).stats()
                })
                && #[trigger] mid.upload_decided(final(self), reservation.key_spec(), payload.bytes@, e.device),
            old(self).ram_kept_except(final(self), reservation.key_spec()),
    {
        let ghost start = *self;
        let key = reservation.key;
        let bytes = share(&payload.bytes);
        let tensors = share(&payload.tensors);
        self.metrics.storage_loads = self.metrics.storage_loads.saturating_add(1);
        let ghost loaded = *self;
        proof {
            Self::lemma_same_accelerator(&loaded, &start);
            assert(loaded.reservations@ == start.reservations@);
            assert(loaded.holds_reservation(reservation) == start.holds_reservation(reservation));
        }
        let lease = self.commit_host(reservation, payload, true);
        let ghost mid = *self;
        proof {
            assert forall|k: ExpertKey| #[trigger] mid.cached_on_device(k) == start.cached_on_device(k) by {
                assert(mid.cached_on_device(k) == loaded.cached_on_device(k));
                assert(loaded.cached_on_device(k) == start.cached_on_device(k));
            }
        }
        let device = self.try_upload(key, &bytes, &tensors);
        assert(!start.cached_on_device(key) ==> mid.upload_decided(&*self, key, bytes@, device));
        proof { Self::lemma_kept_same_hosts(&start, &loaded, &mid, &*self, key); }
        ResidentExpert {
            key,
            host_bytes: Some(bytes),
            tensors,
            host_lease: lease,
            device,
            source_tier: ResidencyTier::Storage,
        }
    }

    /// Whether a prefetch of `key`, whose payload has `size` bytes, would stage
    /// anything: it is cached nowhere and fits a non-empty RAM cache budget.
    pub fn prefetch_wanted(&self, key: ExpertKey, size: u64) -> (b: bool)
        ensures
            b == (!self.cached_on_device(key) && !self.cached_in_ram(key) && size <= self.ram_cache_limit()
                && self.ram_cache_limit() != 0),
    {
        find_host(&self.host, key).is_none() && find_device(&self.device, key).is_none()
            && size <= self.ram_cache_budget && self.ram_cache_budget != 0
    }

    /// Completes a prefetch: stages the payload in the RAM cache unless the
    /// expert was cached meanwhile, in which case the reservation is given back.
    pub fn finish_prefetch(&mut self, reservation: HostReservation, payload: ExpertPayload)
        requires
            old(self).wf(),
        ensures
            final(self).wf(),
            final(self).ram_live_limit() == old(self).ram_live_limit(),
            final(self).ram_cache_limit() == old(self).ram_cache_limit(),
            final(self).accelerator_live_limit() == old(self).accelerator_live_limit(),
            final(self).accelerator_cache_limit() == old(self).accelerator_cache_limit(),
            final(self).accelerator_live() == old(self).accelerator_live(),
            final(self).host_live() + final(self).host_reserved() <= old(self).host_live() + old(self).host_reserved(),
            forall|k: ExpertKey, b: Seq<u8>| #[trigger] final(self).ram_holds(k, b) ==> old(self).ram_holds(k, b)
                || (k == reservation.key_spec() && b == payload.bytes@),
            old(self).holds_reservation(reservation)
                ==> final(self).host_reserved() + reservation.size_spec() == old(self).host_reserved(),
            !old(self).holds_reservation(reservation) ==> final(self).host_reserved() == old(self).host_reserved()
                && forall|k: ExpertKey, b: Seq<u8>| #[trigger] final(self).ram_holds(k, b) <==> old(self).ram_holds(k, b),
            old(self).holds_reservation(reservation) && !old(self).cached_in_ram(reservation.key_spec())
                && !old(self).cached_on_device(reservation.key_spec())
                && reservation.size_spec() <= old(self).ram_cache_limit() && old(self).ram_cache_limit() != 0
                ==> final(self).ram_holds(reservation.key_spec(), payload.bytes@),
            final(self).accelerator_as(old(self)),
            final(self).stats() == (CacheMetrics { ram_bytes: final(self).stats().ram_bytes, ..old(self).stats() }),
    {
        let key = reservation.key;
        if find_host(&self.host, key).is_none() && find_device(&self.device, key).is_none() {
            self.commit_host(reservation, payload, false);
        } else {
            self.drop_reservation(reservation.id, reservation.size);
        }
    }

    /// A lease on `key`: from the accelerator cache, else from the RAM cache,
    /// else loaded from storage. On a miss `size` gives the payload's byte
    /// size, host bytes are reserved for it, and only then does `read` read
    /// it; a failed read gives the reservation back. A payload served from RAM
    /// or storage is then handed, with `key`, to the accelerator's `upload`
    /// when the accelerator budgets admit it (see `upload_decided`).
    pub fn get<S, R>(&mut self, key: ExpertKey, size: S, read: R) -> (r: Result<ResidentExpert, CacheError>)
        where
            S: FnOnce() -> Result<u64, CacheError>,
            R: FnOnce() -> Result<ExpertPayload, CacheError>,
        requires
            old(self).wf(),
            call_requires(size, ()),
            call_requires(read, ()),
        ensures
            final(self).wf(),
            final(self).ram_live_limit() == old(self).ram_live_limit(),
            final(self).ram_cache_limit() == old(self).ram_cache_limit(),
            final(self).accelerator_live_limit() == old(self).accelerator_live_limit(),
            final(self).accelerator_cache_limit() == old(self).accelerator_cache_limit(),
            old(self).cached_on_device(key) ==> (r matches Ok(e) && e.key == key
                && e.source_tier == ResidencyTier::Accelerator && e.host_bytes is None
                && (e.device matches Some(d) && old(self).device_payload(key, d.buffer, e.tensors))
                && final(self).stats().accelerator_hits == bumped(old(self).stats().accelerator_hits)),
            !old(self).cached_on_device(key) && old(self).cached_in_ram(key) ==> (r matches Ok(e) && e.key == key
                && e.source_tier == ResidencyTier::Ram && (e.host_bytes matches Some(hb) && old(self).ram_holds(key, hb@)
                    && old(self).ram_payload(key, hb, e.tensors)
                    && exists|mid: Self| mid.accelerator_as(old(self))
                        && mid.stats() == (CacheMetrics { ram_hits: bumped(old(self).stats().ram_hits), ..old(self).stats() })
                        && #[trigger] mid.upload_decided(final(self), key, hb@, e.device))),
            !old(self).cached_on_device(key) && !old(self).cached_in_ram(key) ==> {
                &&& r matches Ok(e) ==> e.key == key && e.source_tier == ResidencyTier::Storage
                    && e.host_lease is Some
                    && (exists|n: u64| #[trigger] call_ensures(size, (), Ok::<u64, CacheError>(n))
                        && final(self).host_leased() == old(self).host_leased() + n)
                    && exists|p: ExpertPayload| #[trigger] call_ensures(read, (), Ok::<ExpertPayload, CacheError>(p))
                        && e.host_bytes == Some(p.bytes) && e.tensors == p.tensors
                        && exists|mid: Self| mid.accelerator_as(old(self))
                            && mid.stats() == (CacheMetrics {
                                storage_loads: bumped(old(self).stats().storage_loads),
                                ram_bytes: mid.stats().ram_bytes,
                                ram_evictions: mid.stats().ram_evictions,
                                ram_peak_bytes: mid.stats().ram_peak_bytes,
                                ..old(self).stats()
                            })
                            && #[trigger] mid.upload_decided(final(self), key, p.bytes@, e.device)
                &&& r matches Err(x) ==> call_ensures(size, (), Err::<u64, CacheError>(x))
                    || call_ensures(read, (), Err::<ExpertPayload, CacheError>(x))
                    || exists|n: u64| #[trigger] call_ensures(size, (), Ok::<u64, CacheError>(n))
                        && old(self).host_refused(final(self), key, n, x)
            },
            forall|k: ExpertKey, b: Seq<u8>| #[trigger] final(self).ram_holds(k, b) ==> old(self).ram_holds(k, b)
                || (k == key && exists|p: ExpertPayload| call_ensures(read, (), Ok::<ExpertPayload, CacheError>(p))
                    && b == p.bytes@),
            !old(self).cached_on_device(key) && !old(self).cached_in_ram(key)
                ==> old(self).ram_evicted_in_order(final(self), key),
    {
        let ghost start = *self;
        match self.begin_get(key) {
            BeginGet::Ready(e) => Ok(e),
            BeginGet::Load => {
                let ghost loading = *self;
                let ghost miss = !start.cached_on_device(key) && !start.cached_in_ram(key);
                let n = match size() {
                    Ok(n) => n,
                    Err(x) => {
                        proof { if miss { Self::lemma_evicted_in_order_chain(&start, &loading, &loading, &loading, key); } }
                        return Err(x);
                    },
                };
                let reservation = match self.reserve_host(key, n) {
                    Ok(t) => t,
                    Err(x) => {
                        assert(loading.host_refused(&*self, key, n, x));
                        proof { if miss { Self::lemma_evicted_in_order_chain(&start, &loading, &*self, &*self, key); } }
                        return Err(x);
                    },
                };
                let ghost reserved = *self;
                assert(reservation.key_spec() == key);
                let payload = match read() {
                    Ok(p) => p,
                    Err(x) => {
                        self.cancel_host_reservation(reservation);
                        proof { if miss { Self::lemma_evicted_in_order_chain(&start, &loading, &reserved, &*self, key); } }
                        return Err(x);
                    },
                };
                let ghost p = payload;
                let e = self.finish_get(reservation, payload);
                proof { if miss { Self::lemma_evicted_in_order_chain(&start, &loading, &reserved, &*self, key); } }
                assert(e.host_bytes == Some(p.bytes));
                proof {
                    assert(!reserved.cached_on_device(key));
                    let mid = choose|mid: Self| mid.accelerator_as(&reserved)
                        && mid.stats() == (CacheMetrics {
                            storage_loads: bumped(reserved.stats().storage_loads),
                            ram_bytes: mid.stats().ram_bytes,
                            ..reserved.stats()
                        })
                        && #[trigger] mid.upload_decided(&*self, key, p.bytes@, e.device);
                    assert forall|k: ExpertKey| #[trigger] mid.cached_on_device(k) == old(self).cached_on_device(k) by {
                        assert(mid.cached_on_device(k) == reserved.cached_on_device(k));
                        assert(reserved.cached_on_device(k) == loading.cached_on_device(k));
                    }
                    assert(mid.accelerator_as(old(self)));
                }
                Ok(e)
            },
        }
    }

    /// Stages `key`'s payload in the RAM cache ahead of use, without touching
    /// the accelerator. Nothing is read when the expert is already cached or
    /// its `size` does not fit a non-empty RAM cache budget.
    pub fn prefetch_host<S, R>(&mut self, key: ExpertKey, size: S, read: R) -> (r: Result<(), CacheError>)
        where
            S: FnOnce() -> Result<u64, CacheError>,
            R: FnOnce() -> Result<ExpertPayload, CacheError>,
        requires
            old(self).wf(),
            call_requires(size, ()),
            call_requires(read, ()),
        ensures
            final(self).wf(),
            final(self).ram_live_limit() == old(self).ram_live_limit(),
            final(self).ram_cache_limit() == old(self).ram_cache_limit(),
            final(self).accelerator_live_limit() == old(self).accelerator_live_limit(),
            final(self).accelerator_cache_limit() == old(self).accelerator_cache_limit(),
            final(self).accelerator_live() == old(self).accelerator_live(),
            final(self).accelerator_as(old(self)),
            final(self).stats() == (CacheMetrics {
                ram_bytes: final(self).stats().ram_bytes,
                ram_evictions: final(self).stats().ram_evictions,
                ram_peak_bytes: final(self).stats().ram_peak_bytes,
                ram_budget_denials: final(self).stats().ram_budget_denials,
                ..old(self).stats()
            }),
            old(self).cached_on_device(key) || old(self).cached_in_ram(key) ==> r is Ok
                && *final(self) == *old(self),
            r matches Err(x) ==> call_ensures(size, (), Err::<u64, CacheError>(x))
                || call_ensures(read, (), Err::<ExpertPayload, CacheError>(x))
                || exists|n: u64| #[trigger] call_ensures(size, (), Ok::<u64, CacheError>(n))
                    && n <= old(self).ram_cache_limit() && old(self).ram_cache_limit() != 0
                    && old(self).host_refused(final(self), key, n, x),
            forall|k: ExpertKey, b: Seq<u8>| #[trigger] final(self).ram_holds(k, b) ==> old(self).ram_holds(k, b)
                || (k == key && exists|p: ExpertPayload| call_ensures(read, (), Ok::<ExpertPayload, CacheError>(p))
                    && b == p.bytes@),
            !old(self).cached_on_device(key) && !old(self).cached_in_ram(key)
                && (forall|n: u64| #[trigger] call_ensures(size, (), Ok::<u64, CacheError>(n))
                    ==> !(n <= old(self).ram_cache_limit() && old(self).ram_cache_limit() != 0))
                ==> *final(self) == *old(self)
                && (r is Ok || (r matches Err(x) && call_ensures(size, (), Err::<u64, CacheError>(x)))),
            !old(self).cached_on_device(key) && !old(self).cached_in_ram(key) && r is Ok ==> (exists|p: ExpertPayload|
                call_ensures(read, (), Ok::<ExpertPayload, CacheError>(p)) && #[trigger] final(self).ram_holds(key, p.bytes@))
                || (exists|n: u64| call_ensures(size, (), Ok::<u64, CacheError>(n))
                    && !(n <= old(self).ram_cache_limit() && old(self).ram_cache_limit() != 0)),
    {
        if find_host(&self.host, key).is_some() || find_device(&self.device, key).is_some() {
            return Ok(());
        }
        let n = match size() {
            Ok(n) => n,
            Err(x) => return Err(x),
        };
        if !self.prefetch_wanted(key, n) {
            return Ok(());
        }
        let ghost start = *self;
        let reservation = match self.reserve_host(key, n) {
            Ok(t) => t,
            Err(x) => {
                assert(start.host_refused(&*self, key, n, x));
                return Err(x);
            },
        };
        proof {
            if self.cached_in_ram(key) {
                self.lemma_cached_in_ram_holds(key);
                let b = choose|b: Seq<u8>| self.ram_holds(key, b);
                old(self).lemma_cached_in_ram_holds(key);
            }
        }
        let payload = match read() {
            Ok(p) => p,
            Err(x) => {
                self.cancel_host_reservation(reservation);
                return Err(x);
            },
        };
        let ghost p = payload;
        self.finish_prefetch(reservation, payload);
        assert(self.ram_holds(key, p.bytes@));
        Ok(())
    }

    /// Gives a lease back. Evicted host bytes and accelerator allocations that
    /// no lease holds any more stop counting as live; an allocation is then
    /// given back to the accelerator.
    pub fn release(&mut self, expert: ResidentExpert)
        requires
            old(self).wf(),
        ensures
            final(self).wf(),
            final(self).ram_live_limit() == old(self).ram_live_limit(),
            final(self).ram_cache_limit() == old(self).ram_cache_limit(),
            final(self).accelerator_live_limit() == old(self).accelerator_live_limit(),
            final(self).accelerator_cache_limit() == old(self).accelerator_cache_limit(),
            final(self).host_live() <= old(self).host_live(),
            final(self).host_reserved() == old(self).host_reserved(),
            final(self).accelerator_live() <= old(self).accelerator_live(),
            final(self).stats() == (CacheMetrics { ram_bytes: final(self).stats().ram_bytes, ..old(self).stats() }),
            forall|k: ExpertKey, b: Seq<u8>| #[trigger] final(self).ram_holds(k, b) <==> old(self).ram_holds(k, b),
            match expert.host_lease {
                Some(l) => old(self).host_lease_released(&*final(self), l),
                None => final(self).host_live() == old(self).host_live(),
            },
            match expert.device {
                Some(d) => old(self).device_lease_released(&*final(self), d.allocation),
                None => final(self).accelerator_live() == old(self).accelerator_live(),
            },
    {
        match expert.host_lease {
            Some(lease) => self.release_host(lease),
            None => {},
        }
        match expert.device {
            Some(d) => {
                match find_allocation(&self.allocations, d.allocation) {
                    Some(j) => {
                        let updated = Allocation {
                            id: self.allocations[j].id,
                            buffer: self.allocations[j].buffer,
                            reserved: self.allocations[j].reserved,
                            holders: self.allocations[j].holders.saturating_sub(1),
                        };
                        proof {
                            lemma_allocation_update(self.allocations@, j as int, updated);
                            lemma_backed_update_allocation(self.device@, self.allocations@, j as int, updated);
                            lemma_first_allocation_at(self.allocations@, d.allocation, j as int);
                            let a2 = self.allocations@.update(j as int, updated);
                            assert forall|k: int| 0 <= k < j implies #[trigger] a2[k].id != d.allocation by {
                                assert(a2[k] == self.allocations@[k]);
                            }
                            lemma_first_allocation_at(a2, d.allocation, j as int);
                        }
                        self.allocations.set(j, updated);
                        free_if_unused(&self.accelerator, &self.device, &mut self.allocations,
                            &mut self.accelerator_live_bytes, d.allocation);
                    },
                    None => {
                        proof { lemma_first_allocation_absent(self.allocations@, d.allocation); }
                    },
                }
            },
            None => {},
        }
    }

    fn release_host(&mut self, lease: u64)
        requires
            old(self).wf(),
        ensures
            final(self).wf(),
            final(self).ram_live_limit() == old(self).ram_live_limit(),
            final(self).ram_cache_limit() == old(self).ram_cache_limit(),
            final(self).accelerator_live_limit() == old(self).accelerator_live_limit(),
            final(self).accelerator_cache_limit() == old(self).accelerator_cache_limit(),
            final(self).host_live() <= old(self).host_live(),
            final(self).host_reserved() == old(self).host_reserved(),
            final(self).accelerator_live() == old(self).accelerator_live(),
            final(self).stats() == old(self).stats(),
            final(self).device@ == old(self).device@,
            final(self).allocations@ == old(self).allocations@,
            forall|k: ExpertKey, b: Seq<u8>| #[trigger] host_holds(final(self).host@, k, b) <==> host_holds(old(self).host@, k, b),
            old(self).host_lease_released(&*final(self), lease),
    {
        match host_with_lease(&self.host, lease) {
            Some(i) => {
                let e = &self.host[i];
                let touched = HostEntry {
                    key: e.key,
                    payload: ExpertPayload { bytes: share(&e.payload.bytes), tensors: share(&e.payload.tensors) },
                    size: e.size,
                    lease: e.lease,
                    holders: e.holders.saturating_sub(1),
                    last_used: e.last_used,
                    heat: e.heat,
                };
                proof {
                    lemma_host_update(self.host@, i as int, touched);
                    lemma_host_set_keeps(self.host@, i as int, touched);
                    lemma_first_with_lease_at(self.host@, lease, i as int);
                    let h2 = self.host@.update(i as int, touched);
                    assert forall|j: int| 0 <= j < i implies #[trigger] h2[j].lease != lease by {
                        assert(h2[j] == self.host@[j]);
                    }
                    lemma_first_with_lease_at(h2, lease, i as int);
                }
                self.host.set(i, touched);
                return;
            },
            None => {},
        }
        proof { lemma_first_with_lease_absent(self.host@, lease); }
        let k = match retired_with_lease(&self.retired, lease) {
            Some(k) => k,
            None => {
                proof { lemma_first_retired_absent(self.retired@, lease); }
                return;
            },
        };
        proof { lemma_first_retired_at(self.retired@, lease, k as int); }
        if self.retired[k].holders <= 1 {
            let ghost before = self.retired@;
            proof { lemma_retired_remove(self.retired@, k as int); }
            let r = self.retired.remove(k);
            proof {
                assert forall|j: int| 0 <= j < self.retired@.len() implies #[trigger] self.retired@[j].holders > 0 by {
                    if j < k {
                        assert(self.retired@[j] == before[j]);
                    } else {
                        assert(self.retired@[j] == before[j + 1]);
                    }
                }
            }
            self.retired_host_bytes = self.retired_host_bytes - r.size;
        } else {
            let updated = RetiredHost {
                lease,
                size: self.retired[k].size,
                holders: self.retired[k].holders - 1,
            };
            proof {
                lemma_retired_update(self.retired@, k as int, updated);
                let r2 = self.retired@.update(k as int, updated);
                assert forall|j: int| 0 <= j < k implies #[trigger] r2[j].lease != lease by {
                    assert(r2[j] == self.retired@[j]);
                }
                lemma_first_retired_at(r2, lease, k as int);
            }
            self.retired.set(k, updated);
        }
    }

    /// The counters, with the live byte counts and the accelerator peak.
    pub fn metrics(&self) -> (m: CacheMetrics)
        requires
            self.wf(),
        ensures
            m == (CacheMetrics {
                ram_live_bytes: self.host_live() as u64,
                accelerator_live_bytes: self.accelerator_live() as u64,
                accelerator_peak_bytes: self.accelerator_peak(),
                ..self.stats()
            }),
            m.ram_live_bytes as nat == self.host_live(),
            m.ram_bytes <= m.ram_live_bytes <= m.ram_peak_bytes <= self.ram_live_limit(),
            m.accelerator_live_bytes <= m.accelerator_peak_bytes <= self.accelerator_live_limit(),
            m.accelerator_bytes <= self.accelerator_cache_limit(),
    {
        proof { self.lemma_budgets(); }
        let mut m = self.metrics;
        m.ram_live_bytes = self.metrics.ram_bytes + self.retired_host_bytes;
        m.accelerator_live_bytes = self.accelerator_live_bytes;
        m.accelerator_peak_bytes = self.accelerator_peak_bytes;
        m
    }
}

} // verus!
