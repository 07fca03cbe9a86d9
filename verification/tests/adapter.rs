use sytra::adapter::{compiled_adapter, compiled_adapters, validate_compiled_contract, validate_forward_contract, AdapterError};
use sytra::manifest::{
    ActivationKind, ArchitectureContract, AttentionContract, AttentionKind, ExpertStorageManifest,
    ExpertTensorLayout, ModelFamily, QuantizationContract, RouterContract, RouterSemantics, RuntimeManifest,
    WeightFormat, CURRENT_SCHEMA,
};

fn kimi_manifest() -> RuntimeManifest {
    RuntimeManifest {
        schema_version: CURRENT_SCHEMA,
        architecture: ArchitectureContract {
            adapter: "sytra-kimi-k3".into(),
            model_type: "kimi_k3".into(),
            attention: AttentionKind::Mla,
            router: RouterSemantics::TopKWeighted,
            expert_format: WeightFormat::Mxfp4,
            family: ModelFamily::KimiK3,
            expert_layout: ExpertTensorLayout::Discrete,
            activation: ActivationKind::Silu,
            router_config: RouterContract::default(),
            attention_config: AttentionContract::default(),
            quantization: QuantizationContract::default(),
            hidden_size: 0,
            expert_intermediate_size: 0,
            moe_layers: vec![0],
            num_layers: 1,
            experts_per_layer: 8,
            experts_per_token: 2,
            forward_verified: true,
        },
        dense_bytes: 0,
        storage: ExpertStorageManifest { contiguous_experts: true, experts: vec![], dense_tensors: vec![] },
    }
}

fn packed_quantization() -> QuantizationContract {
    QuantizationContract { bits: 4, group_size: 32, symmetric: true, scale_dtype: Some("BF16".into()) }
}

#[test]
fn model_metadata_cannot_turn_on_an_uncompiled_kernel() {
    let descriptor = validate_compiled_contract(&kimi_manifest()).ok().unwrap();
    assert!(!descriptor.forward_kernel);
}

#[test]
fn kimi_k2_cannot_claim_kimi_k3_contract() {
    let mut manifest = kimi_manifest();
    manifest.architecture.model_type = "kimi_k2".into();
    assert!(matches!(validate_compiled_contract(&manifest), Err(AdapterError::Contract(_))));
}

#[test]
fn kimi_k27_requires_its_exact_packed_int4_contract() {
    let mut manifest = kimi_manifest();
    manifest.architecture.adapter = "sytra-kimi-k2.7-code".into();
    manifest.architecture.model_type = "kimi_k25".into();
    manifest.architecture.family = ModelFamily::KimiK27;
    manifest.architecture.router = RouterSemantics::GroupLimitedTopK;
    manifest.architecture.expert_format = WeightFormat::PackedInt4Group32;
    let descriptor = validate_compiled_contract(&manifest).ok().unwrap();
    assert_eq!(descriptor.id, "sytra-kimi-k2.7-code");
    assert!(descriptor.forward_kernel);

    manifest.architecture.expert_format = WeightFormat::Int4Group;
    assert!(matches!(validate_compiled_contract(&manifest), Err(AdapterError::Contract(_))));
}

#[test]
fn general_profiles_reject_cross_family_contracts() {
    let mut manifest = kimi_manifest();
    manifest.architecture.adapter = "sytra-qwen3-moe".into();
    manifest.architecture.model_type = "qwen3_moe".into();
    manifest.architecture.family = ModelFamily::Qwen3Moe;
    manifest.architecture.attention = AttentionKind::Standard;
    manifest.architecture.router = RouterSemantics::TopKSoftmax;
    manifest.architecture.expert_format = WeightFormat::Bf16;
    assert_eq!(validate_compiled_contract(&manifest).ok().unwrap().id, "sytra-qwen3-moe");
    manifest.architecture.family = ModelFamily::Mixtral;
    assert!(matches!(validate_compiled_contract(&manifest), Err(AdapterError::Contract(_))));
}

#[test]
fn mixtral_forward_subset_accepts_only_exact_bf16_or_packed_int4_experts() {
    let mut manifest = kimi_manifest();
    manifest.architecture.adapter = "sytra-mixtral".into();
    manifest.architecture.model_type = "mixtral".into();
    manifest.architecture.family = ModelFamily::Mixtral;
    manifest.architecture.attention = AttentionKind::Standard;
    manifest.architecture.router = RouterSemantics::TopKSoftmax;
    manifest.architecture.router_config.normalize_selected = true;
    manifest.architecture.expert_format = WeightFormat::Bf16;
    assert!(validate_forward_contract(&manifest).is_ok());
    manifest.architecture.expert_format = WeightFormat::F16;
    assert!(matches!(validate_forward_contract(&manifest), Err(AdapterError::KernelUnavailable(_))));
    manifest.architecture.expert_format = WeightFormat::PackedInt4Group32;
    assert!(matches!(validate_forward_contract(&manifest), Err(AdapterError::KernelUnavailable(_))));
    manifest.architecture.quantization =
        QuantizationContract { bits: 4, group_size: 32, symmetric: true, scale_dtype: Some("bf16".into()) };
    assert!(validate_forward_contract(&manifest).is_ok());
}

#[test]
fn qwen3_forward_subset_rejects_next_hybrid_and_non_exact_quantization() {
    let mut manifest = kimi_manifest();
    manifest.architecture.adapter = "sytra-qwen3-moe".into();
    manifest.architecture.model_type = "qwen3_moe".into();
    manifest.architecture.family = ModelFamily::Qwen3Moe;
    manifest.architecture.attention = AttentionKind::Standard;
    manifest.architecture.router = RouterSemantics::TopKSoftmax;
    manifest.architecture.expert_format = WeightFormat::Bf16;
    manifest.architecture.expert_layout = ExpertTensorLayout::StackedAxis0;
    assert!(validate_forward_contract(&manifest).is_ok());

    manifest.architecture.model_type = "qwen3_next".into();
    manifest.architecture.attention = AttentionKind::Hybrid;
    assert!(matches!(validate_forward_contract(&manifest), Err(AdapterError::KernelUnavailable(_))));
    manifest.architecture.model_type = "qwen3_moe".into();
    manifest.architecture.attention = AttentionKind::Standard;
    manifest.architecture.expert_format = WeightFormat::Fp8E4m3;
    assert!(matches!(validate_forward_contract(&manifest), Err(AdapterError::KernelUnavailable(_))));
    manifest.architecture.expert_format = WeightFormat::PackedInt4Group32;
    manifest.architecture.quantization = packed_quantization();
    assert!(validate_forward_contract(&manifest).is_ok());
}

#[test]
fn qwen2_forward_subset_requires_discrete_exact_experts() {
    let mut manifest = kimi_manifest();
    manifest.architecture.adapter = "sytra-qwen2-moe".into();
    manifest.architecture.model_type = "qwen2_moe".into();
    manifest.architecture.family = ModelFamily::Qwen2Moe;
    manifest.architecture.attention = AttentionKind::Standard;
    manifest.architecture.router = RouterSemantics::TopKSoftmax;
    manifest.architecture.expert_format = WeightFormat::Bf16;
    manifest.architecture.expert_layout = ExpertTensorLayout::Discrete;
    assert!(validate_forward_contract(&manifest).is_ok());
    manifest.architecture.expert_layout = ExpertTensorLayout::StackedAxis0;
    assert!(matches!(validate_forward_contract(&manifest), Err(AdapterError::KernelUnavailable(_))));
    manifest.architecture.expert_layout = ExpertTensorLayout::Discrete;
    manifest.architecture.expert_format = WeightFormat::PackedInt4Group32;
    manifest.architecture.quantization = packed_quantization();
    assert!(validate_forward_contract(&manifest).is_ok());
}

#[test]
fn olmoe_forward_subset_accepts_weighted_stacked_exact_experts() {
    let mut manifest = kimi_manifest();
    manifest.architecture.adapter = "sytra-olmoe".into();
    manifest.architecture.model_type = "olmoe".into();
    manifest.architecture.family = ModelFamily::Olmoe;
    manifest.architecture.attention = AttentionKind::Standard;
    manifest.architecture.router = RouterSemantics::TopKWeighted;
    manifest.architecture.expert_format = WeightFormat::Bf16;
    manifest.architecture.expert_layout = ExpertTensorLayout::StackedAxis0;
    assert!(validate_forward_contract(&manifest).is_ok());
    manifest.architecture.expert_format = WeightFormat::F16;
    assert!(matches!(validate_forward_contract(&manifest), Err(AdapterError::KernelUnavailable(_))));
    manifest.architecture.expert_format = WeightFormat::PackedInt4Group32;
    manifest.architecture.quantization = packed_quantization();
    assert!(validate_forward_contract(&manifest).is_ok());
}

#[test]
fn granite_forward_subset_accepts_exact_stacked_f32_and_bf16_experts() {
    let mut manifest = kimi_manifest();
    manifest.architecture.adapter = "sytra-granite-moe".into();
    manifest.architecture.model_type = "granitemoe".into();
    manifest.architecture.family = ModelFamily::GraniteMoe;
    manifest.architecture.attention = AttentionKind::Standard;
    manifest.architecture.router = RouterSemantics::TopKSoftmax;
    manifest.architecture.expert_layout = ExpertTensorLayout::StackedAxis0;
    manifest.architecture.expert_format = WeightFormat::F32;
    assert!(validate_forward_contract(&manifest).is_ok());
    manifest.architecture.expert_format = WeightFormat::Bf16;
    assert!(validate_forward_contract(&manifest).is_ok());
    manifest.architecture.expert_layout = ExpertTensorLayout::Discrete;
    assert!(matches!(validate_forward_contract(&manifest), Err(AdapterError::KernelUnavailable(_))));
}

#[test]
fn generic_profile_is_storage_only_and_never_has_a_forward_kernel() {
    let mut manifest = kimi_manifest();
    manifest.architecture.adapter = "sytra-generic-moe".into();
    manifest.architecture.model_type = "future_moe".into();
    manifest.architecture.family = ModelFamily::Generic;
    let descriptor = validate_compiled_contract(&manifest).ok().unwrap();
    assert!(descriptor.storage_only);
    assert!(!descriptor.forward_kernel);
}

#[test]
fn unknown_adapter_is_refused() {
    let mut manifest = kimi_manifest();
    manifest.architecture.adapter = "sytra-unknown".into();
    assert!(matches!(validate_compiled_contract(&manifest), Err(AdapterError::Unknown(_))));
    assert!(compiled_adapter("sytra-unknown").is_none());
}

#[test]
fn registry_ids_are_distinct_and_each_is_found() {
    let all = compiled_adapters();
    assert_eq!(all.len(), 14);
    for (i, a) in all.iter().enumerate() {
        for b in all.iter().skip(i + 1) {
            assert_ne!(a.id, b.id);
        }
        assert_eq!(compiled_adapter(a.id).unwrap().id, a.id);
    }
}

#[test]
fn storage_only_profiles_never_link_a_kernel() {
    for d in compiled_adapters() {
        if d.storage_only {
            assert!(!d.forward_kernel, "{}", d.id);
        }
    }
    let mut manifest = kimi_manifest();
    manifest.architecture.adapter = "sytra-mixtral".into();
    manifest.architecture.model_type = "mixtral".into();
    manifest.architecture.family = ModelFamily::Mixtral;
    manifest.architecture.attention = AttentionKind::Standard;
    manifest.architecture.router = RouterSemantics::TopKSoftmax;
    manifest.architecture.expert_format = WeightFormat::Bf16;
    let forward = validate_forward_contract(&manifest).ok().unwrap();
    assert!(validate_compiled_contract(&manifest).is_ok());
    assert!(forward.forward_kernel && !forward.storage_only);
}

#[test]
fn refusals_name_what_the_adapter_does_not_accept() {
    let mut manifest = kimi_manifest();
    manifest.architecture.model_type = "kimi_k2".into();
    match validate_compiled_contract(&manifest) {
        Err(AdapterError::Contract(m)) => assert_eq!(m, "sytra-kimi-k3 does not accept model_type kimi_k2"),
        _ => panic!("expected a contract refusal"),
    }
    let mut manifest = kimi_manifest();
    manifest.architecture.family = ModelFamily::Mixtral;
    match validate_compiled_contract(&manifest) {
        Err(AdapterError::Contract(m)) => assert_eq!(m, "sytra-kimi-k3 does not accept Mixtral family contracts"),
        _ => panic!("expected a contract refusal"),
    }
    let mut manifest = kimi_manifest();
    manifest.architecture.expert_format = WeightFormat::Gguf;
    match validate_compiled_contract(&manifest) {
        Err(AdapterError::Contract(m)) => assert_eq!(m, "sytra-kimi-k3 does not accept Gguf expert weights"),
        _ => panic!("expected a contract refusal"),
    }
}

#[test]
fn exactly_six_adapters_link_a_forward_kernel() {
    let mut kernels: Vec<&str> = compiled_adapters().iter().filter(|d| d.forward_kernel).map(|d| d.id).collect();
    kernels.sort();
    assert_eq!(
        kernels,
        vec!["sytra-granite-moe", "sytra-kimi-k2.7-code", "sytra-mixtral", "sytra-olmoe", "sytra-qwen2-moe", "sytra-qwen3-moe"]
    );
}
