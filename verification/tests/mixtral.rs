use sytra::manifest::{ExpertLocation, TensorSegment, WeightFormat};
use sytra::mixtral::{
    check_accelerator_device, check_expert_staging, check_memory_envelope, largest_expert,
    expect_float, expect_matrix, plan_caches, validate_expert_tensors, validate_packed_expert_tensors, MixtralConfig,
    MixtralError, MixtralRuntimeOptions,
};

fn tensor(name: &str, dtype: &str, shape: Vec<u64>, length: u64) -> TensorSegment {
    TensorSegment {
        tensor: name.into(),
        dtype: Some(dtype.into()),
        shape,
        shard: "weights.safetensors".into(),
        offset: 0,
        length,
    }
}

#[test]
fn packed_standard_expert_manifest_requires_exact_group32_tensor_triplets() {
    let mut expert = ExpertLocation {
        layer: 0,
        expert: 0,
        segments: vec![
            tensor("expert.gate_up_proj.weight_packed", "I32", vec![64, 4], 1024),
            tensor("expert.gate_up_proj.weight_scale", "BF16", vec![64, 1], 128),
            tensor("expert.gate_up_proj.weight_shape", "I32", vec![2], 8),
            tensor("expert.down_proj.weight_packed", "I32", vec![32, 4], 512),
            tensor("expert.down_proj.weight_scale", "BF16", vec![32, 1], 64),
            tensor("expert.down_proj.weight_shape", "I32", vec![2], 8),
        ],
    };
    assert!(validate_expert_tensors(&expert, 32, 32, &WeightFormat::PackedInt4Group32).is_ok());
    expert.segments[4].length = 62;
    assert!(validate_expert_tensors(&expert, 32, 32, &WeightFormat::PackedInt4Group32).is_err());
}

#[test]
fn packed_dense_manifest_accepts_only_exact_group32_tensor_triplets() {
    let segments = vec![
        TensorSegment {
            tensor: "linear.weight_packed".into(),
            dtype: Some("I32".into()),
            shape: vec![64, 4],
            shard: "weights.safetensors".into(),
            offset: 0,
            length: 1024,
        },
        TensorSegment {
            tensor: "linear.weight_scale".into(),
            dtype: Some("BF16".into()),
            shape: vec![64, 1],
            shard: "weights.safetensors".into(),
            offset: 1024,
            length: 128,
        },
        TensorSegment {
            tensor: "linear.weight_shape".into(),
            dtype: Some("I32".into()),
            shape: vec![2],
            shard: "weights.safetensors".into(),
            offset: 1152,
            length: 8,
        },
    ];
    assert!(expect_matrix(&segments, "linear.weight", 64, 32, false).is_ok());
    assert!(expect_matrix(&segments, "linear.weight", 64, 64, false).is_err());
}

#[test]
fn packed_expert_widths_must_be_group_aligned() {
    let expert = ExpertLocation { layer: 0, expert: 0, segments: vec![] };
    assert!(matches!(validate_packed_expert_tensors(&expert, 48, 32), Err(MixtralError::Contract(_))));
}

#[test]
fn bf16_expert_needs_down_and_one_gate_up_form() {
    let separate = ExpertLocation {
        layer: 0,
        expert: 0,
        segments: vec![
            tensor("experts.0.w1", "BF16", vec![8, 4], 64),
            tensor("experts.0.w3", "BF16", vec![8, 4], 64),
            tensor("experts.0.w2", "BF16", vec![4, 8], 64),
        ],
    };
    assert!(validate_expert_tensors(&separate, 4, 8, &WeightFormat::Bf16).is_ok());
    assert!(validate_expert_tensors(&separate, 4, 8, &WeightFormat::F32).is_err());
    assert!(validate_expert_tensors(&separate, 4, 8, &WeightFormat::F16).is_err());
    let mut both = separate;
    both.segments.push(tensor("experts.0.gate_up_proj", "BF16", vec![16, 4], 128));
    assert!(validate_expert_tensors(&both, 4, 8, &WeightFormat::Bf16).is_err());
}

#[test]
fn dense_lookup_takes_the_last_tensor_of_a_name() {
    let segments = vec![tensor("norm.weight", "F16", vec![4], 8), tensor("norm.weight", "BF16", vec![4], 8)];
    assert!(sytra::mixtral::expect_float(&segments, "norm.weight", &vec![4], false).is_ok());
    let reversed = vec![tensor("norm.weight", "BF16", vec![4], 8), tensor("norm.weight", "F16", vec![4], 8)];
    assert!(sytra::mixtral::expect_float(&reversed, "norm.weight", &vec![4], false).is_err());
}

pub fn mixtral_config() -> MixtralConfig {
    MixtralConfig {
        model_type: "mixtral".into(),
        vocab_size: 32,
        hidden_size: 32,
        intermediate_size: 64,
        moe_intermediate_size: None,
        shared_expert_intermediate_size: None,
        num_hidden_layers: 1,
        num_attention_heads: 4,
        num_key_value_heads: 2,
        num_local_experts: 4,
        num_experts_per_tok: 2,
        max_position_embeddings: 128,
        rms_norm_eps_bits: 1e-5f32.to_bits(),
        head_dim: None,
        rope_theta_bits: None,
        rope_parameters: None,
        rope_scaling_present: false,
        sliding_window: Some(16),
        use_sliding_window: false,
        attention_bias: false,
        clip_qkv_bits: None,
        decoder_sparse_step: 1,
        mlp_only_layers: None,
        norm_topk_prob: true,
        tie_word_embeddings: false,
        embedding_multiplier_bits: None,
        logits_scaling_bits: None,
        residual_multiplier_bits: None,
        attention_multiplier_bits: None,
    }
}

#[test]
fn mixtral_config_validates_and_derives_its_widths() {
    let config = mixtral_config();
    assert!(config.validate().is_ok());
    assert_eq!(config.head_dimension(), 8);
    assert_eq!(config.expert_intermediate_size(), 64);
    assert_eq!(config.rope_theta_value(), 10_000f32.to_bits());
    assert_eq!(config.attention_window(), Some(16));
    assert!(config.is_moe_layer(0));
}

#[test]
fn mixtral_config_rejects_bad_dimensions_and_rope() {
    let mut config = mixtral_config();
    config.num_experts_per_tok = 5;
    assert!(config.validate().is_err());
    let mut config = mixtral_config();
    config.rms_norm_eps_bits = 0;
    assert!(config.validate().is_err());
    let mut config = mixtral_config();
    config.rope_scaling_present = true;
    assert!(config.validate().is_err());
    let mut config = mixtral_config();
    config.model_type = "llama".into();
    assert!(config.validate().is_err());
    let mut config = mixtral_config();
    config.head_dim = Some(7);
    assert!(config.validate().is_err());
}

#[test]
fn qwen_cadence_skips_mlp_only_layers_and_off_step_layers() {
    let mut config = mixtral_config();
    config.model_type = "qwen3_moe".into();
    config.decoder_sparse_step = 2;
    config.mlp_only_layers = Some(vec![3]);
    assert!(!config.is_moe_layer(0));
    assert!(config.is_moe_layer(1));
    assert!(!config.is_moe_layer(3));
    assert!(config.is_moe_layer(5));
    assert_eq!(config.attention_window(), None);
}

#[test]
fn runtime_cache_plan_follows_the_envelope() {
    let options = MixtralRuntimeOptions::default();
    let plan = plan_caches(&options, 100, 1000, 64, 500, 100, 300, WeightFormat::Bf16);
    assert_eq!(plan.dense_tile_bytes, 64);
    assert_eq!(plan.ram_dense_cache_bytes, 100);
    assert_eq!(plan.ram_expert_cache_bytes, 900);
    assert_eq!(plan.cuda_limit_bytes, 400);
    assert_eq!(plan.accelerator_expert_cache_bytes, 300);
    let f16 = plan_caches(&options, 100, 1000, 64, 500, 100, 300, WeightFormat::F16);
    assert_eq!(f16.accelerator_expert_cache_bytes, 0);
}

fn contract_message(r: Result<(), MixtralError>) -> String {
    match r {
        Err(MixtralError::Contract(m)) => m,
        _ => panic!("expected a contract refusal"),
    }
}

#[test]
fn dense_refusals_name_the_tensor_and_its_shape() {
    let dense = vec![tensor("model.norm.weight", "F16", vec![8], 16)];
    assert_eq!(
        contract_message(expect_float(&dense, "model.norm.weight", &vec![8], false)),
        "dense tensor model.norm.weight must be exact BF16 with shape [8]"
    );
    assert_eq!(
        contract_message(expect_float(&dense, "model.norm.weight", &vec![8], true)),
        "dense tensor model.norm.weight must be exact BF16 or F32 with shape [8]"
    );
    assert_eq!(
        contract_message(expect_float(&dense, "lm_head.weight", &vec![8, 4], false)),
        "dense tensor lm_head.weight is missing"
    );
    assert_eq!(
        contract_message(expect_matrix(&dense, "lm_head.weight", 8, 4, false)),
        "dense matrix lm_head.weight is missing and cannot use packed group-32 dimensions [8, 4]"
    );
    assert_eq!(
        contract_message(expect_matrix(&dense, "lm_head.bias", 8, 32, false)),
        "dense matrix lm_head.bias has no supported logical suffix"
    );
    assert_eq!(
        contract_message(expect_matrix(&dense, "lm_head.weight", 8, 32, false)),
        "dense tensor lm_head.weight_packed is missing"
    );
}

#[test]
fn expert_refusals_name_the_layer_and_expert() {
    let expert = ExpertLocation { layer: 3, expert: 5, segments: vec![] };
    assert_eq!(
        contract_message(validate_expert_tensors(&expert, 32, 32, &WeightFormat::Bf16)),
        "layer 3 expert 5 does not have one exact BF16 gated projection contract"
    );
    assert_eq!(
        contract_message(validate_expert_tensors(&expert, 32, 32, &WeightFormat::F16)),
        "floating expert format F16 has no exact standard-MoE kernel"
    );
    assert_eq!(
        contract_message(validate_packed_expert_tensors(&expert, 32, 32)),
        "layer 3 expert 5 does not have one exact packed INT4/BF16 group-32 gated projection contract"
    );
}

#[test]
fn runtime_memory_plans_are_refused_before_loading() {
    let notes = vec!["context too small".to_string(), "no staging".to_string()];
    assert!(check_memory_envelope(true, 4096, 8, &notes).is_ok());
    assert_eq!(check_memory_envelope(false, 4096, 8, &notes), Err("context too small; no staging".to_string()));
    assert_eq!(check_memory_envelope(true, 0, 8, &Vec::new()), Err(String::new()));
    assert!(check_memory_envelope(true, 4096, 0, &notes).is_err());

    assert!(check_accelerator_device(false, 0).is_ok());
    assert!(check_accelerator_device(true, 1 << 30).is_ok());
    assert_eq!(
        check_accelerator_device(false, 1),
        Err("the plan reserves accelerator memory but no CUDA device was selected".to_string())
    );

    let experts = vec![
        ExpertLocation { layer: 0, expert: 0, segments: vec![tensor("a", "BF16", vec![4], 8), tensor("b", "BF16", vec![2], 4)] },
        ExpertLocation { layer: 0, expert: 1, segments: vec![tensor("a", "BF16", vec![10], 20)] },
    ];
    assert_eq!(largest_expert(&experts), 20);
    assert_eq!(largest_expert(&Vec::new()), 0);
    assert!(check_expert_staging(20, 20).is_ok());
    assert_eq!(check_expert_staging(20, 16), Err("largest expert payload 20 exceeds host staging 16".to_string()));
    assert_eq!(check_expert_staging(0, 16), Err("largest expert payload 0 exceeds host staging 16".to_string()));
}
