use sytra::dense::DenseTileMetrics;
use sytra::kimi::{
    decode_i32_le, decode_u32_le, pack_int4, step_metrics, unpack_int4, CompactMlaKvCache, KimiDecodeState, KimiError,
    KimiK27Config, KimiStepMetrics,
};
use sytra::kimi_config::{KimiConfigFields, QuantizationFields, RopeFields, TextFields, WeightFields};

#[test]
fn compact_mla_cache_is_24_times_smaller_than_materialized_kv() {
    let config = KimiK27Config::official();
    assert_eq!(config.compressed_kv_bytes_per_token(2), 1152);
    assert_eq!(config.materialized_kv_bytes_per_token(2), 40_960);
    assert!(config.materialized_kv_bytes_per_token(2) / config.compressed_kv_bytes_per_token(2) > 24);
}

#[test]
fn unpack_matches_compressed_tensors_offset_binary_order() {
    // [-8,-7,-1,0,1,6,7,-3] -> [0,1,7,8,9,14,15,5]
    let packed = 0x5fe9_8710;
    assert_eq!(unpack_int4(&[packed], 8).ok().unwrap(), vec![-8, -7, -1, 0, 1, 6, 7, -3]);
}

#[test]
fn unpack_needs_enough_words() {
    assert!(matches!(unpack_int4(&[0x5fe9_8710], 9), Err(KimiError::Shape(_))));
    assert_eq!(unpack_int4(&[0x5fe9_8710, 0xf], 9).ok().unwrap()[8], 7);
    assert_eq!(unpack_int4(&[], 0).ok().unwrap(), Vec::<i8>::new());
}

#[test]
fn little_endian_words_decode_without_native_assumptions() {
    assert_eq!(decode_u32_le(&[0x10, 0x87, 0xe9, 0x5f]).ok().unwrap(), vec![0x5fe9_8710]);
    assert_eq!(decode_i32_le(&[0xff, 0xff, 0xff, 0xff, 2, 0, 0, 0]).ok().unwrap(), vec![-1, 2]);
    assert!(matches!(decode_u32_le(&[1, 2, 3]), Err(KimiError::Shape(_))));
}

#[test]
fn official_config_is_the_only_accepted_one() {
    let config = KimiK27Config::official();
    assert!(config.is_official());
    assert_eq!(config.q_head_dim(), 192);
    let mut other = config;
    other.num_hidden_layers = 60;
    assert!(!other.is_official());
    let mut eps = config;
    eps.rms_norm_eps_bits = 1e-6f32.to_bits();
    assert!(!eps.is_official());
    assert_eq!(config.rms_norm_eps_bits, 1e-5f32.to_bits());
    assert_eq!(config.routed_scaling_factor_bits, 2.827f32.to_bits());
}

#[test]
fn compact_cache_rounds_to_bf16_and_truncates() {
    let mut config = KimiK27Config::official();
    config.kv_lora_rank = 2;
    config.qk_rope_head_dim = 1;
    let mut cache = CompactMlaKvCache::new();
    assert!(cache.is_empty());
    assert!(cache.push(&[1.0f32.to_bits(), 2.0f32.to_bits()], &[0.5f32.to_bits()], &config).is_ok());
    assert!(matches!(cache.push(&[1.0f32.to_bits()], &[0.5f32.to_bits()], &config), Err(KimiError::Shape(_))));
    assert_eq!(cache.len(), 1);
    assert_eq!(cache.bytes(), 6);
    cache.truncate(0);
    assert!(cache.is_empty());
}

#[test]
fn decode_state_tracks_positions_across_layers() {
    let mut config = KimiK27Config::official();
    config.num_hidden_layers = 3;
    config.kv_lora_rank = 1;
    config.qk_rope_head_dim = 1;
    let mut state = KimiDecodeState::new(&config);
    assert_eq!(state.position(), 0);
    for layer in state.layers.iter_mut() {
        layer.push(&[0], &[0], &config).ok().unwrap();
        layer.push(&[0], &[0], &config).ok().unwrap();
    }
    assert_eq!(state.position(), 2);
    assert_eq!(state.bytes(), 3 * 2 * 4);
    state.truncate(1);
    assert_eq!(state.position(), 1);
    assert_eq!(state.bytes(), 3 * 4);
}

#[test]
fn step_metrics_merge_saturates_and_keeps_the_peak() {
    let mut total = step_metrics(DenseTileMetrics { tiles: 2, storage_bytes: 10, peak_tile_bytes: 7 });
    assert_eq!(total, KimiStepMetrics { dense_tiles: 2, dense_storage_bytes: 10, peak_dense_tile_bytes: 7, expert_waves: 0 });
    total.merge(KimiStepMetrics { dense_tiles: u64::MAX, dense_storage_bytes: 1, peak_dense_tile_bytes: 3, expert_waves: 4 });
    assert_eq!(total.dense_tiles, u64::MAX);
    assert_eq!(total.dense_storage_bytes, 11);
    assert_eq!(total.peak_dense_tile_bytes, 7);
    assert_eq!(total.expert_waves, 4);
}

#[test]
fn packing_is_undone_by_unpacking() {
    let values: Vec<i8> = vec![-8, -7, -1, 0, 1, 6, 7, -3];
    assert_eq!(pack_int4(&values), vec![0x5fe9_8710]);
    let longer: Vec<i8> = (0..21).map(|i| (i % 16) as i8 - 8).collect();
    let packed = pack_int4(&longer);
    assert_eq!(packed.len(), 3);
    assert_eq!(unpack_int4(&packed, longer.len()).ok().unwrap(), longer);
    assert_eq!(packed[2] >> 20, 0);
}

fn official_fields() -> KimiConfigFields {
    let s = |v: &str| Some(v.to_string());
    KimiConfigFields {
        model_type: s("kimi_k25"),
        text_config: Some(TextFields {
            model_type: s("kimi_k2"),
            hidden_act: s("silu"),
            scoring_func: s("sigmoid"),
            topk_method: s("noaux_tc"),
            norm_topk_prob: Some(true),
            attention_bias: Some(false),
            quantization: Some(QuantizationFields {
                format: s("pack-quantized"),
                quant_method: s("compressed-tensors"),
                weights: Some(WeightFields {
                    num_bits: Some(4),
                    group_size: Some(32),
                    strategy: s("group"),
                    kind: s("int"),
                    symmetric: Some(true),
                }),
            }),
            rope_scaling: Some(RopeFields {
                kind: s("yarn"),
                original_max_position_embeddings: Some(4096),
                factor_bits: Some(64.0f32.to_bits()),
                beta_fast_bits: Some(32.0f32.to_bits()),
                beta_slow_bits: Some(1.0f32.to_bits()),
                mscale_bits: Some(1.0f32.to_bits()),
                mscale_all_dim_bits: Some(1.0f32.to_bits()),
            }),
            hidden_size: Some(7168),
            intermediate_size: Some(18432),
            moe_intermediate_size: Some(2048),
            num_hidden_layers: Some(61),
            num_attention_heads: Some(64),
            n_routed_experts: Some(384),
            n_shared_experts: Some(1),
            num_experts_per_tok: Some(8),
            first_k_dense_replace: Some(1),
            q_lora_rank: Some(1536),
            kv_lora_rank: Some(512),
            qk_nope_head_dim: Some(128),
            qk_rope_head_dim: Some(64),
            v_head_dim: Some(128),
            n_group: Some(1),
            topk_group: Some(1),
            max_position_embeddings: Some(262_144),
            vocab_size: Some(163_840),
            rope_theta_bits: Some(50_000.0f32.to_bits()),
            routed_scaling_factor_bits: Some(2.827f32.to_bits()),
            rms_norm_eps_bits: Some(1e-5f32.to_bits()),
        }),
    }
}

fn contract_message(r: Result<KimiK27Config, KimiError>) -> String {
    match r {
        Err(KimiError::Contract(m)) => m,
        other => panic!("expected a contract refusal, got {:?}", other),
    }
}

#[test]
fn published_config_fields_give_the_compiled_config() {
    let config = KimiK27Config::from_fields(&official_fields()).unwrap();
    assert!(config.is_official());
    assert_eq!(config, KimiK27Config::official());
}

#[test]
fn config_fields_are_refused_at_the_first_mismatch() {
    let mut fields = official_fields();
    fields.text_config = None;
    assert_eq!(contract_message(KimiK27Config::from_fields(&fields)), "text_config is missing");

    let mut fields = official_fields();
    fields.model_type = Some("kimi_k3".to_string());
    fields.text_config.as_mut().unwrap().hidden_act = Some("gelu".to_string());
    assert_eq!(
        contract_message(KimiK27Config::from_fields(&fields)),
        "model_type must be \"kimi_k25\", got Some(\"kimi_k3\")"
    );

    let mut fields = official_fields();
    fields.text_config.as_mut().unwrap().hidden_act = None;
    assert_eq!(
        contract_message(KimiK27Config::from_fields(&fields)),
        "hidden_act must be \"silu\", got None"
    );

    let mut fields = official_fields();
    fields.text_config.as_mut().unwrap().attention_bias = Some(true);
    assert_eq!(
        contract_message(KimiK27Config::from_fields(&fields)),
        "attention_bias must be false, got Some(true)"
    );

    let mut fields = official_fields();
    fields.text_config.as_mut().unwrap().quantization.as_mut().unwrap().weights.as_mut().unwrap().num_bits = Some(8);
    assert_eq!(contract_message(KimiK27Config::from_fields(&fields)), "num_bits must be 4, got Some(8)");

    let mut fields = official_fields();
    fields.text_config.as_mut().unwrap().quantization.as_mut().unwrap().weights = None;
    assert_eq!(contract_message(KimiK27Config::from_fields(&fields)), "group_0.weights is missing");

    let mut fields = official_fields();
    fields.text_config.as_mut().unwrap().rope_scaling = None;
    assert_eq!(contract_message(KimiK27Config::from_fields(&fields)), "rope_scaling is missing");

    let mut fields = official_fields();
    let text = fields.text_config.as_mut().unwrap();
    text.vocab_size = None;
    text.rms_norm_eps_bits = None;
    assert_eq!(
        contract_message(KimiK27Config::from_fields(&fields)),
        "vocab_size must be a positive integer"
    );

    let mut fields = official_fields();
    fields.text_config.as_mut().unwrap().rope_scaling.as_mut().unwrap().beta_fast_bits = None;
    assert_eq!(contract_message(KimiK27Config::from_fields(&fields)), "beta_fast must be numeric");

    let mut fields = official_fields();
    fields.text_config.as_mut().unwrap().hidden_size = Some(4096);
    let parsed = KimiK27Config::from_fields(&fields).unwrap();
    assert!(!parsed.is_official());
}
