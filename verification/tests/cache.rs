use std::sync::atomic::{AtomicU64, Ordering};
use std::sync::Arc;

use sytra::cache::{
    Accelerator, AcceleratorBuffer, BeginGet, CacheError, ExpertPayload, NoAccelerator, ResidencyManager,
    ResidencyTier, ResidentExpert, ResidentTensor,
};
use sytra::manifest::ExpertKey;

#[derive(Default)]
struct TestAccelerator {
    next: AtomicU64,
    releases: Arc<AtomicU64>,
}

impl Accelerator for TestAccelerator {
    fn name(&self) -> &str {
        "test"
    }

    fn upload(&self, _key: ExpertKey, bytes: &[u8]) -> Result<AcceleratorBuffer, String> {
        Ok(AcceleratorBuffer { id: self.next.fetch_add(1, Ordering::Relaxed), bytes: bytes.len() })
    }

    fn release(&self, _buffer: &AcceleratorBuffer) {
        self.releases.fetch_add(1, Ordering::Relaxed);
    }
}

/// The two experts of the storage fixture: four bytes each.
fn stored(key: ExpertKey) -> Vec<u8> {
    if key.expert == 0 { b"AAAA".to_vec() } else { b"BBBB".to_vec() }
}

fn payload(key: ExpertKey) -> ExpertPayload {
    ExpertPayload {
        bytes: Arc::new(stored(key)),
        tensors: Arc::new(vec![ResidentTensor { name: "gate_proj".into(), offset: 0, length: 4 }]),
    }
}

/// A full request through the manager, reading from the storage fixture.
fn get<A: Accelerator>(manager: &mut ResidencyManager<A>, key: ExpertKey) -> Result<ResidentExpert, CacheError> {
    manager.get(key, || Ok(stored(key).len() as u64), || Ok(payload(key)))
}

/// The same request taken step by step.
fn get_by_steps<A: Accelerator>(manager: &mut ResidencyManager<A>, key: ExpertKey) -> Result<ResidentExpert, CacheError> {
    match manager.begin_get(key) {
        BeginGet::Ready(expert) => Ok(expert),
        BeginGet::Load => {
            let reservation = manager.reserve_host(key, stored(key).len() as u64)?;
            Ok(manager.finish_get(reservation, payload(key)))
        },
    }
}

#[test]
fn accelerator_lease_survives_cache_eviction() {
    let accelerator = TestAccelerator::default();
    let releases = accelerator.releases.clone();
    let mut manager = ResidencyManager::new(accelerator, 8, 4);
    let first = get(&mut manager, ExpertKey::new(0, 0)).ok().unwrap();
    let first_id = first.accelerator_buffer().unwrap().id;
    let second = get(&mut manager, ExpertKey::new(0, 1)).ok().unwrap();
    assert_eq!(first.accelerator_buffer().unwrap().id, first_id);
    assert!(second.accelerator_buffer().is_none());
    let metrics = manager.metrics();
    assert_eq!(metrics.accelerator_live_bytes, 4);
    assert_eq!(metrics.accelerator_peak_bytes, 4);
    assert_eq!(metrics.accelerator_budget_denials, 1);
    assert_eq!(releases.load(Ordering::Relaxed), 0);
    manager.release(second);
    manager.release(first);
    assert_eq!(releases.load(Ordering::Relaxed), 1);
    let second = get(&mut manager, ExpertKey::new(0, 1)).ok().unwrap();
    assert!(second.accelerator_buffer().is_some());
    assert!(manager.metrics().accelerator_peak_bytes <= 4);
    manager.release(second);
}

#[test]
fn no_accelerator_keeps_byte_exact_host_payload() {
    let mut manager = ResidencyManager::new(NoAccelerator, 4, 4);
    let expert = get(&mut manager, ExpertKey::new(0, 0)).ok().unwrap();
    assert_eq!(&**expert.host_bytes.as_ref().unwrap(), b"AAAA");
    assert!(expert.accelerator_buffer().is_none());
}

#[test]
fn evicted_host_lease_counts_against_the_hard_live_budget() {
    let mut manager = ResidencyManager::with_budgets(NoAccelerator, 4, 4, 0, 0);
    let first = get(&mut manager, ExpertKey::new(0, 0)).ok().unwrap();
    let denied = get(&mut manager, ExpertKey::new(0, 1)).err().unwrap();
    assert!(matches!(denied, CacheError::HostBudget { .. }));
    let metrics = manager.metrics();
    assert_eq!(metrics.ram_live_bytes, 4);
    assert_eq!(metrics.ram_peak_bytes, 4);
    assert_eq!(metrics.ram_budget_denials, 1);
    manager.release(first);
    let second = get(&mut manager, ExpertKey::new(0, 1)).ok().unwrap();
    assert_eq!(&**second.host_bytes.as_ref().unwrap(), b"BBBB");
    assert!(manager.metrics().ram_peak_bytes <= 4);
    manager.release(second);
}

#[test]
fn accelerator_staging_can_be_live_without_becoming_cached() {
    let accelerator = TestAccelerator::default();
    let releases = accelerator.releases.clone();
    let mut manager = ResidencyManager::with_budgets(accelerator, 8, 8, 0, 4);
    let first = get(&mut manager, ExpertKey::new(0, 0)).ok().unwrap();
    assert!(first.accelerator_buffer().is_some());
    assert_eq!(manager.metrics().accelerator_bytes, 0);
    let denied = get(&mut manager, ExpertKey::new(0, 1)).ok().unwrap();
    assert!(denied.accelerator_buffer().is_none());
    manager.release(first);
    let second = get(&mut manager, ExpertKey::new(0, 1)).ok().unwrap();
    assert!(second.accelerator_buffer().is_some());
    assert_eq!(manager.metrics().accelerator_bytes, 0);
    manager.release(second);
    assert_eq!(releases.load(Ordering::Relaxed), 2);
    manager.release(denied);
}

#[test]
fn cached_experts_are_served_from_the_fastest_tier() {
    let accelerator = TestAccelerator::default();
    let mut manager = ResidencyManager::new(accelerator, 8, 8);
    let first = get(&mut manager, ExpertKey::new(0, 0)).ok().unwrap();
    assert_eq!(first.source_tier, ResidencyTier::Storage);
    let again = get(&mut manager, ExpertKey::new(0, 0)).ok().unwrap();
    assert_eq!(again.source_tier, ResidencyTier::Accelerator);
    assert!(again.host_bytes.is_none());
    let metrics = manager.metrics();
    assert_eq!(metrics.storage_loads, 1);
    assert_eq!(metrics.accelerator_hits, 1);
    manager.release(first);
    manager.release(again);

    let mut host_only = ResidencyManager::new(NoAccelerator, 8, 0);
    let loaded = get(&mut host_only, ExpertKey::new(0, 1)).ok().unwrap();
    let hit = get(&mut host_only, ExpertKey::new(0, 1)).ok().unwrap();
    assert_eq!(hit.source_tier, ResidencyTier::Ram);
    assert_eq!(hit.tensor_bytes("gate_proj").unwrap(), b"BBBB".to_vec());
    assert!(hit.tensor_bytes("up_proj").is_none());
    assert_eq!(host_only.metrics().ram_hits, 1);
    host_only.release(loaded);
    host_only.release(hit);
}

#[test]
fn payloads_over_the_cache_budget_stay_lease_only() {
    let mut manager = ResidencyManager::with_budgets(NoAccelerator, 2, 8, 0, 0);
    let expert = get(&mut manager, ExpertKey::new(0, 0)).ok().unwrap();
    let metrics = manager.metrics();
    assert_eq!(metrics.ram_bytes, 0);
    assert_eq!(metrics.ram_live_bytes, 4);
    manager.release(expert);
    assert_eq!(manager.metrics().ram_live_bytes, 0);
    assert!(matches!(manager.begin_get(ExpertKey::new(0, 0)), BeginGet::Load));
}

#[test]
fn prefetch_stages_bytes_without_a_lease() {
    let mut manager = ResidencyManager::new(NoAccelerator, 8, 0);
    let key = ExpertKey::new(0, 1);
    assert!(manager.prefetch_wanted(key, 4));
    let reservation = manager.reserve_host(key, 4).ok().unwrap();
    assert_eq!(reservation.size(), 4);
    let payload = ExpertPayload { bytes: Arc::new(b"BBBB".to_vec()), tensors: Arc::new(vec![]) };
    manager.finish_prefetch(reservation, payload);
    assert!(!manager.prefetch_wanted(key, 4));
    assert_eq!(manager.metrics().ram_live_bytes, 4);
    match manager.begin_get(key) {
        BeginGet::Ready(expert) => {
            assert_eq!(expert.source_tier, ResidencyTier::Ram);
            manager.release(expert);
        },
        BeginGet::Load => panic!("prefetched expert must be cached"),
    }
}

#[test]
fn cancelled_reservation_gives_its_bytes_back() {
    let mut manager = ResidencyManager::new(NoAccelerator, 4, 0);
    let key = ExpertKey::new(0, 0);
    let reservation = manager.reserve_host(key, 4).ok().unwrap();
    assert!(manager.reserve_host(ExpertKey::new(0, 1), 1).is_err());
    manager.cancel_host_reservation(reservation);
    assert!(manager.reserve_host(ExpertKey::new(0, 1), 4).is_ok());
}

#[test]
fn ram_hits_return_the_bytes_that_were_loaded() {
    let mut manager = ResidencyManager::new(NoAccelerator, 8, 0);
    let a = get(&mut manager, ExpertKey::new(0, 0)).ok().unwrap();
    let b = get(&mut manager, ExpertKey::new(0, 1)).ok().unwrap();
    manager.release(a);
    manager.release(b);
    let a_hit = get(&mut manager, ExpertKey::new(0, 0)).ok().unwrap();
    let b_hit = get(&mut manager, ExpertKey::new(0, 1)).ok().unwrap();
    assert_eq!(a_hit.source_tier, ResidencyTier::Ram);
    assert_eq!(&**a_hit.host_bytes.as_ref().unwrap(), b"AAAA");
    assert_eq!(&**b_hit.host_bytes.as_ref().unwrap(), b"BBBB");
    manager.release(a_hit);
    manager.release(b_hit);
}

#[test]
fn step_by_step_requests_match_whole_requests() {
    let mut manager = ResidencyManager::new(NoAccelerator, 8, 0);
    let first = get_by_steps(&mut manager, ExpertKey::new(0, 0)).ok().unwrap();
    assert_eq!(first.source_tier, ResidencyTier::Storage);
    let again = get(&mut manager, ExpertKey::new(0, 0)).ok().unwrap();
    assert_eq!(again.source_tier, ResidencyTier::Ram);
    assert_eq!(&**again.host_bytes.as_ref().unwrap(), b"AAAA");
    manager.release(first);
    manager.release(again);
}

#[test]
fn cache_hits_read_nothing_from_storage() {
    let mut manager = ResidencyManager::new(NoAccelerator, 8, 0);
    let key = ExpertKey::new(0, 1);
    let first = get(&mut manager, key).ok().unwrap();
    let hit = manager
        .get(key, || panic!("size asked on a hit"), || panic!("read on a hit"))
        .ok()
        .unwrap();
    assert_eq!(hit.source_tier, ResidencyTier::Ram);
    assert_eq!(&**hit.host_bytes.as_ref().unwrap(), b"BBBB");
    manager.release(first);
    manager.release(hit);
}

#[test]
fn failed_reads_give_their_reservation_back() {
    let mut manager = ResidencyManager::new(NoAccelerator, 4, 0);
    let key = ExpertKey::new(0, 0);
    let failed = manager.get(key, || Ok(4), || Err(CacheError::Storage("disk gone".into())));
    assert!(matches!(failed, Err(CacheError::Storage(_))));
    assert_eq!(manager.metrics().ram_live_bytes, 0);
    let loaded = get(&mut manager, key).ok().unwrap();
    assert_eq!(loaded.source_tier, ResidencyTier::Storage);
    manager.release(loaded);
    let too_big = manager.get(ExpertKey::new(0, 1), || Ok(5), || Ok(payload(ExpertKey::new(0, 1))));
    assert!(matches!(too_big, Err(CacheError::HostBudget { required: 5, budget: 4, .. })));
}

#[test]
fn prefetch_stages_host_bytes_without_touching_the_accelerator() {
    let accelerator = TestAccelerator::default();
    let mut manager = ResidencyManager::new(accelerator, 8, 8);
    let key = ExpertKey::new(0, 0);
    manager.prefetch_host(key, || Ok(4), || Ok(payload(key))).unwrap();
    let metrics = manager.metrics();
    assert_eq!(metrics.ram_live_bytes, 4);
    assert_eq!(metrics.accelerator_live_bytes, 0);
    manager
        .prefetch_host(key, || panic!("size asked for a cached expert"), || panic!("read of a cached expert"))
        .unwrap();
    let hit = manager.get(key, || panic!("size asked on a hit"), || panic!("read on a hit")).ok().unwrap();
    assert_eq!(hit.source_tier, ResidencyTier::Ram);
    manager.release(hit);
    let mut empty = ResidencyManager::new(NoAccelerator, 0, 0);
    empty.prefetch_host(key, || Ok(4), || panic!("nothing fits an empty cache")).unwrap();
    assert_eq!(empty.metrics().ram_live_bytes, 0);
}

#[test]
fn admitted_uploads_complete_with_the_accelerator_answer() {
    let mut manager = ResidencyManager::new(NoAccelerator, 16, 8);
    let first = ExpertKey::new(0, 0);
    let tensors = payload(first).tensors;
    assert!(!manager.admit_upload(first, 9));
    assert_eq!(manager.metrics().accelerator_budget_denials, 0);
    assert!(manager.admit_upload(first, 4));
    assert!(manager.complete_upload(first, 4, &tensors, Err("out of memory".to_string())).is_none());
    assert_eq!(manager.metrics().accelerator_live_bytes, 0);
    assert!(manager.complete_upload(first, 4, &tensors, Ok(AcceleratorBuffer { id: 7, bytes: 3 })).is_none());
    assert_eq!(manager.metrics().accelerator_live_bytes, 0);
    let lease = manager.complete_upload(first, 4, &tensors, Ok(AcceleratorBuffer { id: 7, bytes: 4 })).unwrap();
    assert_eq!(lease.buffer, AcceleratorBuffer { id: 7, bytes: 4 });
    let metrics = manager.metrics();
    assert_eq!(metrics.accelerator_live_bytes, 4);
    assert_eq!(metrics.accelerator_bytes, 4);
    assert_eq!(metrics.accelerator_peak_bytes, 4);
    // The leased allocation stays live after eviction, so eight more bytes do not fit.
    assert!(!manager.admit_upload(ExpertKey::new(0, 1), 8));
    let metrics = manager.metrics();
    assert_eq!(metrics.accelerator_budget_denials, 1);
    assert_eq!(metrics.accelerator_live_bytes, 4);
    assert_eq!(metrics.accelerator_bytes, 0);
    assert_eq!(metrics.accelerator_evictions, 1);
}

#[test]
fn completed_uploads_beyond_the_cache_budget_are_live_only() {
    let mut manager = ResidencyManager::with_budgets(NoAccelerator, 8, 8, 0, 4);
    let key = ExpertKey::new(0, 0);
    let tensors = payload(key).tensors;
    assert!(manager.admit_upload(key, 4));
    let lease = manager.complete_upload(key, 4, &tensors, Ok(AcceleratorBuffer { id: 1, bytes: 4 }));
    assert!(lease.is_some());
    let metrics = manager.metrics();
    assert_eq!(metrics.accelerator_live_bytes, 4);
    assert_eq!(metrics.accelerator_bytes, 0);
}

#[test]
fn a_fresh_manager_reports_zero_metrics() {
    let manager = ResidencyManager::with_budgets(NoAccelerator, 8, 16, 4, 8);
    assert_eq!(manager.metrics(), sytra::cache::CacheMetrics::default());
    assert_eq!(ResidencyManager::new(NoAccelerator, 8, 8).metrics(), sytra::cache::CacheMetrics::default());
}

#[test]
fn a_prefetch_that_fits_the_cache_is_refused_only_by_the_live_budget() {
    let mut manager = ResidencyManager::with_budgets(NoAccelerator, 4, 4, 0, 0);
    let first = get(&mut manager, ExpertKey::new(0, 0)).ok().unwrap();
    let key = ExpertKey::new(0, 1);
    match manager.prefetch_host(key, || Ok(4), || panic!("nothing is read after a refusal")) {
        Err(CacheError::HostBudget { key: k, required, budget }) => {
            assert_eq!(k, key);
            assert_eq!(required, 8);
            assert_eq!(budget, 4);
        },
        _ => panic!("the prefetch should be refused"),
    }
    assert_eq!(manager.metrics().ram_budget_denials, 1);
    manager.release(first);
    manager.prefetch_host(key, || Ok(4), || Ok(payload(key))).unwrap();
    let hit = manager.get(key, || panic!("size asked on a hit"), || panic!("read on a hit")).ok().unwrap();
    assert_eq!(hit.source_tier, ResidencyTier::Ram);
    assert_eq!(hit.tensor_bytes("gate_proj").unwrap(), b"BBBB");
    assert_eq!(hit.tensors[0].name, "gate_proj");
    manager.release(hit);
}
