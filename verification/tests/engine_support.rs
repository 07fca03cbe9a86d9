use sytra::cli::{allocate_cache, mirror_roots, number, optional_mib, parse_u64_str, sampled_expert_keys, split_budget, value};
use sytra::cuda::{check, reserve_global_bytes};
use sytra::draft::{check_proposal_request, finish_proposal, response_size_ok, validate_draft_target, DraftError};
use sytra::generation::{common_prefix_bytes, XorShift64};
use sytra::manifest::{
    ActivationKind, ArchitectureContract, AttentionContract, AttentionKind, ExpertStorageManifest,
    ExpertTensorLayout, ModelFamily, QuantizationContract, RouterContract, RouterSemantics, RuntimeManifest,
    TensorSegment, WeightFormat,
};
use sytra::performance::{bytes_per_emitted_token, cold_expert_bytes, decode_dense_bytes, io_bytes, PerformanceError};

fn args(list: &[&str]) -> Vec<String> {
    list.iter().map(|s| s.to_string()).collect()
}

#[test]
fn flag_values_follow_their_first_flag() {
    let a = args(&["serve", "--model", "m", "--port", "8080", "--model", "other"]);
    assert_eq!(value(&a, "--model"), Some("m".to_string()));
    assert_eq!(value(&a, "--host"), None);
    assert_eq!(value(&args(&["--port"]), "--port"), None);
}

#[test]
fn numbers_parse_like_unsigned_integers() {
    let a = args(&["--port", "8080", "--bad", "-1", "--plus", "+7", "--big", "18446744073709551616"]);
    assert_eq!(number(&a, "--port", 1), Ok(8080));
    assert_eq!(number(&a, "--missing", 1), Ok(1));
    assert!(number(&a, "--bad", 1).is_err());
    assert_eq!(number(&a, "--plus", 1), Ok(7));
    assert!(number(&a, "--big", 1).is_err());
    assert_eq!(parse_u64_str("18446744073709551615"), Some(u64::MAX));
    assert_eq!(parse_u64_str("+"), None);
    assert_eq!(parse_u64_str(""), None);
    assert_eq!(parse_u64_str("0012"), Some(12));
    assert_eq!(parse_u64_str("1 2"), None);
}

#[test]
fn mebibyte_flags_scale_and_reject_overflow() {
    let a = args(&["--ram", "3", "--huge", "18446744073709551615"]);
    assert_eq!(optional_mib(&a, "--ram"), Ok(Some(3 * 1024 * 1024)));
    assert_eq!(optional_mib(&a, "--none"), Ok(None));
    assert!(optional_mib(&a, "--huge").is_err());
}

#[test]
fn cache_split_is_proportional_when_requests_exceed_total() {
    assert_eq!(allocate_cache(100, 30, 50), (30, 50));
    assert_eq!(allocate_cache(100, 100, 100), (50, 50));
    assert_eq!(split_budget(90, 10, 20), (10, 20));
    assert_eq!(split_budget(10, 1, 2), (1, 2));
    assert_eq!(split_budget(9, 10, 20), (3, 6));
    assert_eq!(split_budget(0, 0, 0), (0, 0));
    let (d, e) = split_budget(1000, 7, u64::MAX);
    assert!(d + e <= 1000);
}

#[test]
fn draft_targets_must_be_loopback() {
    assert_eq!(validate_draft_target("http://127.0.0.1:8000///", "draft", 10).ok().unwrap(), "http://127.0.0.1:8000");
    assert!(validate_draft_target("http://localhost:9/", "d", 1).is_ok());
    assert!(matches!(validate_draft_target("https://example.com:8000", "draft", 10), Err(DraftError::Invalid(_))));
    assert!(matches!(validate_draft_target("http://127.0.0.1:8000", "  ", 10), Err(DraftError::Invalid(_))));
    assert!(matches!(validate_draft_target("http://127.0.0.1:8000", "draft", 0), Err(DraftError::Invalid(_))));
    assert!(check_proposal_request(1, 1).is_ok());
    assert!(check_proposal_request(0, 1).is_err());
    assert!(check_proposal_request(1, 0).is_err());
    assert_eq!(finish_proposal(vec![1, 2, 3], 2).ok().unwrap(), vec![1, 2]);
    assert!(matches!(finish_proposal(vec![], 2), Err(DraftError::Response(_))));
    assert!(response_size_ok(1024 * 1024));
    assert!(!response_size_ok(1024 * 1024 + 1));
}

#[test]
fn common_prefix_is_measured_in_bytes_of_whole_characters() {
    assert_eq!(common_prefix_bytes("hello", "help"), 3);
    assert_eq!(common_prefix_bytes("héllo", "hé"), 3);
    assert_eq!(common_prefix_bytes("", "abc"), 0);
    assert_eq!(common_prefix_bytes("abc", "abc"), 3);
}

#[test]
fn xorshift_is_deterministic_and_never_starts_at_zero() {
    let mut a = XorShift64::new(9);
    let mut b = XorShift64::new(9);
    assert_eq!(a.next_raw(), b.next_raw());
    let mut zero = XorShift64::new(0);
    let mut default = XorShift64::new(0x9e37_79b9_7f4a_7c15);
    assert_eq!(zero.next_raw(), default.next_raw());
    let mut one = XorShift64::new(1);
    let x: u64 = 1;
    let step1 = x ^ (x << 13);
    let step2 = step1 ^ (step1 >> 7);
    let step3 = step2 ^ (step2 << 17);
    assert_eq!(one.next_raw(), step3);
}

#[test]
fn cuda_status_and_global_budget() {
    assert!(check(0, "cuMemAlloc").is_ok());
    assert_eq!(check(2, "cuMemAlloc").unwrap_err(), "cuMemAlloc failed with CUDA status 2");
    assert_eq!(check(-3, "x").unwrap_err(), "x failed with CUDA status -3");
    assert_eq!(reserve_global_bytes(4, 4, 8), Some(8));
    assert_eq!(reserve_global_bytes(5, 4, 8), None);
    assert_eq!(reserve_global_bytes(u64::MAX, 1, u64::MAX), None);
}

fn perf_manifest(family: ModelFamily, dense: Vec<TensorSegment>) -> RuntimeManifest {
    RuntimeManifest {
        schema_version: 1,
        architecture: ArchitectureContract {
            adapter: "test".into(),
            model_type: "test".into(),
            attention: AttentionKind::Mla,
            router: RouterSemantics::NoAuxTc,
            expert_format: WeightFormat::Int4Group,
            family,
            expert_layout: ExpertTensorLayout::Discrete,
            activation: ActivationKind::Silu,
            router_config: RouterContract::default(),
            attention_config: AttentionContract::default(),
            quantization: QuantizationContract::default(),
            hidden_size: 4,
            expert_intermediate_size: 4,
            moe_layers: vec![0],
            num_layers: 1,
            experts_per_layer: 4,
            experts_per_token: 1,
            forward_verified: false,
        },
        dense_bytes: 1000,
        storage: ExpertStorageManifest { contiguous_experts: true, experts: vec![], dense_tensors: dense },
    }
}

fn dense(name: &str, length: u64) -> TensorSegment {
    TensorSegment { tensor: name.into(), dtype: Some("BF16".into()), shape: vec![], shard: "dense.bin".into(), offset: 0, length }
}

#[test]
fn decode_reads_only_the_language_tower_and_embedding_rows() {
    let kimi = perf_manifest(ModelFamily::KimiK27, vec![
        dense("language_model.model.layers.0.weight", 1000),
        dense("language_model.model.embed_tokens.weight", 1_000_000),
        dense("vision_tower.blocks.0.weight", 77),
    ]);
    assert_eq!(decode_dense_bytes(&kimi), Ok(1008));
    let other = perf_manifest(ModelFamily::Mixtral, vec![
        dense("model.layers.0.weight", 10),
        dense("vision_tower.x", 5),
        dense("mm_projector.y", 5),
    ]);
    assert_eq!(decode_dense_bytes(&other), Ok(10));
    let empty = perf_manifest(ModelFamily::Mixtral, vec![]);
    assert_eq!(decode_dense_bytes(&empty), Ok(1000));
    let overflow = perf_manifest(ModelFamily::Mixtral, vec![dense("a", u64::MAX), dense("b", 1)]);
    assert_eq!(decode_dense_bytes(&overflow), Err(PerformanceError::Overflow));
}

fn location(layer: u32, expert: u32) -> sytra::manifest::ExpertLocation {
    sytra::manifest::ExpertLocation { layer, expert, segments: vec![] }
}

#[test]
fn quick_check_reads_the_first_and_last_expert_of_each_layer() {
    let experts = vec![location(1, 3), location(0, 0), location(1, 0), location(0, 7), location(2, 5), location(1, 9)];
    let keys: Vec<(u32, u32)> = sampled_expert_keys(&experts, 4).iter().map(|k| (k.layer, k.expert)).collect();
    assert_eq!(keys, vec![(0, 0), (0, 7), (1, 3), (1, 9), (2, 5)]);
    let one = vec![location(0, 4)];
    let keys: Vec<(u32, u32)> = sampled_expert_keys(&one, 1).iter().map(|k| (k.layer, k.expert)).collect();
    assert_eq!(keys, vec![(0, 4)]);
    assert!(sampled_expert_keys(&experts, 0).is_empty());
}

#[test]
fn mirror_values_split_on_semicolons_and_drop_blank_paths() {
    assert_eq!(mirror_roots(" /mnt/a ; ;/mnt/b;"), vec!["/mnt/a".to_string(), "/mnt/b".to_string()]);
    assert_eq!(mirror_roots(""), Vec::<String>::new());
    assert_eq!(mirror_roots("/only"), vec!["/only".to_string()]);
}

fn sized_expert(layer: u32, expert: u32, bytes: u64) -> sytra::manifest::ExpertLocation {
    sytra::manifest::ExpertLocation {
        layer,
        expert,
        segments: vec![TensorSegment {
            tensor: format!("expert.{expert}"),
            dtype: None,
            shape: vec![],
            shard: "experts.bin".into(),
            offset: u64::from(expert) * 100,
            length: bytes,
        }],
    }
}

#[test]
fn batch_amortizes_dense_scan_but_not_routed_union_linearly() {
    let mut manifest =
        perf_manifest(ModelFamily::KimiK27, vec![dense("language_model.model.layers.0.weight", 1000)]);
    manifest.storage.experts = (0..4).map(|e| sized_expert(0, e, 100)).collect();
    let single = io_bytes(&manifest, 1, 5_000, 0).ok().unwrap();
    assert_eq!(single.cold_storage_bytes_per_token, 1100);
    assert_eq!(single.dense_storage_bytes_per_forward, 1000);
    assert_eq!(single.cold_expert_bytes_per_token, 100);
    // Four positions share one dense scan.
    assert!(bytes_per_emitted_token(1000, 400, 4).ok().unwrap() < 1100);
    assert_eq!(bytes_per_emitted_token(1000, 401, 4), Ok(351));
    assert_eq!(io_bytes(&manifest, 0, 5_000, 0), Err(PerformanceError::InvalidInput));
    assert_eq!(io_bytes(&manifest, 1, 0, 0), Err(PerformanceError::InvalidInput));
    let cached = io_bytes(&manifest, 1, 5_000, 1000).ok().unwrap();
    assert_eq!(cached.dense_storage_bytes_per_forward, 0);
}

#[test]
fn cold_bytes_take_top_k_average_experts_per_layer() {
    let experts = vec![sized_expert(0, 0, 100), sized_expert(1, 0, 30), sized_expert(0, 1, 300), sized_expert(1, 1, 31)];
    // Layer 0 averages 200 bytes, layer 1 averages 30 (integer division).
    assert_eq!(cold_expert_bytes(&experts, 2), Ok(460));
    let huge = vec![sized_expert(0, 0, u64::MAX), sized_expert(1, 0, u64::MAX)];
    assert_eq!(cold_expert_bytes(&huge, 1), Err(PerformanceError::Overflow));
    assert_eq!(cold_expert_bytes(&huge[..1].to_vec(), 2), Err(PerformanceError::Overflow));
    assert_eq!(cold_expert_bytes(&vec![], 8), Ok(0));
}
