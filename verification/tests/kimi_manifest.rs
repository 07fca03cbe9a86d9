use sytra::kimi::{KimiError, KimiK27Config, ADAPTER_ID, OUTER_MODEL_TYPE};
use sytra::manifest::{
    ActivationKind, ArchitectureContract, AttentionContract, AttentionKind, ExpertLocation, ExpertStorageManifest,
    ExpertTensorLayout, ModelFamily, QuantizationContract, RouterContract, RouterSemantics, RuntimeManifest,
    TensorSegment, WeightFormat, CURRENT_SCHEMA,
};

/// A two-layer configuration: one dense layer, then one routed layer with
/// two experts.
fn small_config() -> KimiK27Config {
    let mut c = KimiK27Config::official();
    c.hidden_size = 64;
    c.intermediate_size = 96;
    c.moe_intermediate_size = 32;
    c.num_hidden_layers = 2;
    c.first_k_dense_replace = 1;
    c.num_attention_heads = 2;
    c.n_routed_experts = 2;
    c.n_shared_experts = 1;
    c.num_experts_per_tok = 1;
    c.q_lora_rank = 16;
    c.kv_lora_rank = 8;
    c.qk_nope_head_dim = 4;
    c.qk_rope_head_dim = 2;
    c.v_head_dim = 4;
    c.vocab_size = 10;
    c.group_size = 32;
    c
}

fn seg(name: String, dtype: &str, shape: Vec<u64>, element: u64) -> TensorSegment {
    let length = shape.iter().product::<u64>() * element;
    TensorSegment { tensor: name, dtype: Some(dtype.to_string()), shape, shard: "m.safetensors".to_string(), offset: 0, length }
}

fn expert(c: &KimiK27Config, layer: u32, index: u32) -> ExpertLocation {
    let h = c.hidden_size as u64;
    let m = c.moe_intermediate_size as u64;
    let g = c.group_size as u64;
    let mut segments = Vec::new();
    for (projection, rows, cols) in [("gate_proj", m, h), ("up_proj", m, h), ("down_proj", h, m)] {
        let base = format!("language_model.model.layers.{layer}.mlp.experts.{index}.{projection}");
        segments.push(seg(format!("{base}.weight_packed"), "I32", vec![rows, cols.div_ceil(8)], 4));
        segments.push(seg(format!("{base}.weight_scale"), "BF16", vec![rows, cols.div_ceil(g)], 2));
        segments.push(seg(format!("{base}.weight_shape"), "I32", vec![2], 4));
    }
    ExpertLocation { layer, expert: index, segments }
}

fn dense(c: &KimiK27Config) -> Vec<TensorSegment> {
    let h = c.hidden_size as u64;
    let v = c.vocab_size as u64;
    let heads = c.num_attention_heads as u64;
    let bf16 = |name: String, shape: Vec<u64>| seg(name, "BF16", shape, 2);
    let mut out = vec![
        bf16("language_model.model.embed_tokens.weight".into(), vec![v, h]),
        bf16("language_model.model.norm.weight".into(), vec![h]),
        bf16("language_model.lm_head.weight".into(), vec![v, h]),
    ];
    for layer in 0..c.num_hidden_layers {
        let p = format!("language_model.model.layers.{layer}");
        out.push(bf16(format!("{p}.input_layernorm.weight"), vec![h]));
        out.push(bf16(format!("{p}.post_attention_layernorm.weight"), vec![h]));
        let a = format!("{p}.self_attn");
        out.push(bf16(format!("{a}.q_a_proj.weight"), vec![c.q_lora_rank as u64, h]));
        out.push(bf16(format!("{a}.q_a_layernorm.weight"), vec![c.q_lora_rank as u64]));
        out.push(bf16(
            format!("{a}.q_b_proj.weight"),
            vec![heads * (c.qk_nope_head_dim + c.qk_rope_head_dim) as u64, c.q_lora_rank as u64],
        ));
        out.push(bf16(format!("{a}.kv_a_proj_with_mqa.weight"), vec![(c.kv_lora_rank + c.qk_rope_head_dim) as u64, h]));
        out.push(bf16(format!("{a}.kv_a_layernorm.weight"), vec![c.kv_lora_rank as u64]));
        out.push(bf16(
            format!("{a}.kv_b_proj.weight"),
            vec![heads * (c.qk_nope_head_dim + c.v_head_dim) as u64, c.kv_lora_rank as u64],
        ));
        out.push(bf16(format!("{a}.o_proj.weight"), vec![h, heads * c.v_head_dim as u64]));
        let mlp = format!("{p}.mlp");
        if layer < c.first_k_dense_replace {
            out.push(bf16(format!("{mlp}.gate_proj.weight"), vec![c.intermediate_size as u64, h]));
            out.push(bf16(format!("{mlp}.up_proj.weight"), vec![c.intermediate_size as u64, h]));
            out.push(bf16(format!("{mlp}.down_proj.weight"), vec![h, c.intermediate_size as u64]));
        } else {
            let n = c.n_routed_experts as u64;
            let shared = (c.moe_intermediate_size * c.n_shared_experts) as u64;
            out.push(bf16(format!("{mlp}.gate.weight"), vec![n, h]));
            out.push(seg(format!("{mlp}.gate.e_score_correction_bias"), "F32", vec![n], 4));
            out.push(bf16(format!("{mlp}.shared_experts.gate_proj.weight"), vec![shared, h]));
            out.push(bf16(format!("{mlp}.shared_experts.up_proj.weight"), vec![shared, h]));
            out.push(bf16(format!("{mlp}.shared_experts.down_proj.weight"), vec![h, shared]));
        }
    }
    out
}

fn manifest(c: &KimiK27Config) -> RuntimeManifest {
    RuntimeManifest {
        schema_version: CURRENT_SCHEMA,
        architecture: ArchitectureContract {
            adapter: ADAPTER_ID.into(),
            model_type: OUTER_MODEL_TYPE.into(),
            attention: AttentionKind::Mla,
            router: RouterSemantics::GroupLimitedTopK,
            expert_format: WeightFormat::PackedInt4Group32,
            family: ModelFamily::KimiK27,
            expert_layout: ExpertTensorLayout::Discrete,
            activation: ActivationKind::Silu,
            router_config: RouterContract::default(),
            attention_config: AttentionContract::default(),
            quantization: QuantizationContract::default(),
            hidden_size: c.hidden_size as u32,
            expert_intermediate_size: c.moe_intermediate_size as u32,
            moe_layers: vec![1],
            num_layers: c.num_hidden_layers as u32,
            experts_per_layer: c.n_routed_experts as u32,
            experts_per_token: c.num_experts_per_tok as u32,
            forward_verified: false,
        },
        dense_bytes: 0,
        storage: ExpertStorageManifest {
            contiguous_experts: true,
            experts: vec![expert(c, 1, 1), expert(c, 1, 0)],
            dense_tensors: dense(c),
        },
    }
}

fn contract_message(r: Result<(), KimiError>) -> String {
    match r {
        Err(KimiError::Contract(m)) => m,
        _ => panic!("expected a contract error"),
    }
}

#[test]
fn kimi_runtime_manifest_accepts_the_exact_layout() {
    let c = small_config();
    assert!(c.validate_runtime_manifest(&manifest(&c)).is_ok());
    assert!(c.validate_dense_tensors(&manifest(&c)).is_ok());
}

#[test]
fn kimi_runtime_manifest_reports_the_first_grid_failure() {
    let c = small_config();
    let mut m = manifest(&c);
    m.storage.experts.pop();
    assert_eq!(
        contract_message(c.validate_runtime_manifest(&m)),
        "expert index contains 1 entries; Kimi K2.7 requires 2"
    );

    let mut m = manifest(&c);
    m.storage.experts[1] = expert(&c, 1, 1);
    assert_eq!(contract_message(c.validate_runtime_manifest(&m)), "expert index is missing layer 1 expert 0");

    let mut m = manifest(&c);
    m.storage.experts[1] = expert(&c, 0, 0);
    // Sorted, the stray layer-0 entry comes first, so the grid departs at
    // its very first cell even though that cell is present too.
    m.storage.experts[0] = expert(&c, 1, 0);
    assert_eq!(contract_message(c.validate_runtime_manifest(&m)), "expert index is missing layer 1 expert 0");

    let mut m = manifest(&c);
    m.storage.experts[1].segments[0].dtype = Some("BF16".into());
    assert_eq!(
        contract_message(c.validate_runtime_manifest(&m)),
        "layer 1 expert 0 gate_proj.weight_packed: dtype Some(\"BF16\"), expected I32"
    );

    let mut m = manifest(&c);
    m.storage.experts[1].segments[1].shape = vec![32, 3];
    assert_eq!(
        contract_message(c.validate_runtime_manifest(&m)),
        "layer 1 expert 0 gate_proj.weight_scale: shape [32, 3], expected [32, 2]"
    );

    let mut m = manifest(&c);
    m.storage.experts[0].segments.pop();
    assert_eq!(
        contract_message(c.validate_runtime_manifest(&m)),
        "layer 1 expert 1 has 8 tensors; expected the nine packed/scale/shape tensors"
    );
}

#[test]
fn kimi_dense_tensor_refusals_name_the_tensor() {
    let c = small_config();
    let mut m = manifest(&c);
    m.storage.dense_tensors.remove(1);
    assert_eq!(
        contract_message(c.validate_dense_tensors(&m)),
        "dense tensor language_model.model.norm.weight is missing"
    );

    let mut m = manifest(&c);
    m.storage.dense_tensors[0].shape = vec![10, 63];
    assert_eq!(
        contract_message(c.validate_dense_tensors(&m)),
        "dense tensor language_model.model.embed_tokens.weight has dtype BF16 and shape [10, 63]; expected [\"BF16\"] and [10, 64]"
    );

    let mut m = manifest(&c);
    m.storage.dense_tensors[2].length = 3;
    assert_eq!(
        contract_message(c.validate_dense_tensors(&m)),
        "dense tensor language_model.lm_head.weight has 3 bytes; expected 1280"
    );
}
