use sytra::manifest::{
    safe_relative_path, ActivationKind, ArchitectureContract, AttentionContract, AttentionKind,
    ExpertKey, ExpertLocation, ExpertStorageManifest, ExpertTensorLayout, ManifestError, ModelFamily,
    QuantizationContract, RouterContract, RouterSemantics, RuntimeManifest, ShardSize, TensorSegment,
    WeightFormat, CURRENT_SCHEMA,
};

fn valid_manifest() -> RuntimeManifest {
    RuntimeManifest {
        schema_version: CURRENT_SCHEMA,
        architecture: ArchitectureContract {
            adapter: "sytra-test".into(),
            model_type: "test_moe".into(),
            attention: AttentionKind::Standard,
            router: RouterSemantics::TopKWeighted,
            expert_format: WeightFormat::Int4Group,
            family: ModelFamily::Generic,
            expert_layout: ExpertTensorLayout::Discrete,
            activation: ActivationKind::Silu,
            router_config: RouterContract::default(),
            attention_config: AttentionContract::default(),
            quantization: QuantizationContract::default(),
            hidden_size: 0,
            expert_intermediate_size: 0,
            moe_layers: vec![0],
            num_layers: 1,
            experts_per_layer: 2,
            experts_per_token: 1,
            forward_verified: false,
        },
        dense_bytes: 16,
        storage: ExpertStorageManifest {
            contiguous_experts: true,
            experts: vec![
                ExpertLocation {
                    layer: 0,
                    expert: 0,
                    segments: vec![TensorSegment {
                        tensor: "down_proj".into(),
                        dtype: None,
                        shape: vec![],
                        shard: "experts.bin".into(),
                        offset: 0,
                        length: 4,
                    }],
                },
                ExpertLocation {
                    layer: 0,
                    expert: 1,
                    segments: vec![TensorSegment {
                        tensor: "down_proj_1".into(),
                        dtype: None,
                        shape: vec![],
                        shard: "experts.bin".into(),
                        offset: 4,
                        length: 4,
                    }],
                },
            ],
            dense_tensors: vec![],
        },
    }
}

fn sizes(size: u64) -> Vec<ShardSize> {
    vec![ShardSize { shard: "experts.bin".into(), size: Some(size) }]
}

#[test]
fn path_validation_rejects_escape() {
    assert!(safe_relative_path("weights/expert.bin"));
    assert!(!safe_relative_path("../expert.bin"));
    assert!(!safe_relative_path("C:\\expert.bin"));
}

#[test]
fn contract_requires_real_top_k() {
    let mut manifest = valid_manifest();
    manifest.architecture.experts_per_token = 3;
    let error = manifest.validate("/tmp", &vec![]).expect_err("invalid top-k must fail before file checks");
    assert!(matches!(error, ManifestError::Contract(_)));
}

#[test]
fn valid_manifest_passes_with_its_shard_present() {
    assert!(valid_manifest().validate("/tmp", &sizes(8)).is_ok());
}

#[test]
fn segment_past_the_end_of_its_shard_is_a_shard_error() {
    let error = valid_manifest().validate("/tmp", &sizes(6)).unwrap_err();
    assert!(matches!(error, ManifestError::Shard(_)));
}

#[test]
fn unreadable_shard_is_a_shard_error() {
    let missing = vec![ShardSize { shard: "experts.bin".into(), size: None }];
    assert!(matches!(valid_manifest().validate("/tmp", &missing), Err(ManifestError::Shard(_))));
}

#[test]
fn wrong_schema_is_reported_with_its_version() {
    let mut manifest = valid_manifest();
    manifest.schema_version = 7;
    assert!(matches!(manifest.validate("/tmp", &sizes(8)), Err(ManifestError::Schema(7))));
}

#[test]
fn escaping_shard_path_is_a_location_error() {
    let mut manifest = valid_manifest();
    manifest.storage.experts[1].segments[0].shard = "../experts.bin".into();
    assert!(manifest.validate("/tmp", &sizes(8)).is_err());
}

#[test]
fn duplicate_expert_keys_are_rejected() {
    let mut manifest = valid_manifest();
    manifest.storage.experts[1].expert = 0;
    assert!(manifest.validate("/tmp", &sizes(8)).is_err());
}

#[test]
fn expert_bytes_sum_every_segment() {
    assert_eq!(valid_manifest().expert_bytes(), 8);
    assert_eq!(valid_manifest().storage.experts[1].byte_len(), 4);
}

#[test]
fn expert_key_packs_layer_above_expert() {
    let key = ExpertKey::new(3, 5);
    assert_eq!(key.packed(), 3 * 0x1_0000_0000 + 5);
    assert_ne!(ExpertKey::new(0, 1).packed(), ExpertKey::new(1, 0).packed());
    assert_eq!(valid_manifest().storage.experts[1].key(), ExpertKey::new(0, 1));
}
