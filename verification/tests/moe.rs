use sytra::manifest::{ExpertLocation, RouterContract, TensorSegment};
use sytra::moe::{bind_gated_expert, check_router_inputs, check_router_logits, MoeMathError, StandardKvCache, StandardKvEntry};

fn segment(tensor: &str) -> TensorSegment {
    TensorSegment {
        tensor: tensor.into(),
        dtype: Some("BF16".into()),
        shape: vec![2, 2],
        shard: "model.safetensors".into(),
        offset: 1,
        length: 8,
    }
}

#[test]
fn binds_qwen_mixtral_and_dbrx_projection_names() {
    for names in [
        ["gate_proj.weight", "up_proj.weight", "down_proj.weight"],
        ["w1", "w3", "w2"],
        ["w1", "v1", "w2"],
    ] {
        let location = ExpertLocation { layer: 0, expert: 0, segments: names.into_iter().map(segment).collect() };
        let binding = bind_gated_expert(&location).ok().unwrap();
        assert!(binding.gate.is_some());
        assert!(binding.up.is_some());
        assert!(binding.fused_gate_up.is_none());
    }
}

#[test]
fn fused_binding_ignores_quantisation_metadata() {
    let location = ExpertLocation {
        layer: 0,
        expert: 0,
        segments: vec![
            segment("e.gate_up_proj.weight_packed"),
            segment("e.gate_up_proj.weight_scale"),
            segment("e.down_proj.weight_packed"),
            segment("e.down_proj.weight_shape"),
        ],
    };
    let binding = bind_gated_expert(&location).ok().unwrap();
    assert_eq!(binding.fused_gate_up.unwrap().tensor, "e.gate_up_proj.weight_packed");
    assert_eq!(binding.down.tensor, "e.down_proj.weight_packed");
    assert!(binding.gate.is_none() && binding.up.is_none());
}

#[test]
fn duplicate_or_missing_projections_are_weight_errors() {
    let duplicate = ExpertLocation { layer: 0, expert: 0, segments: vec![segment("w1"), segment("a.w1.weight"), segment("w3"), segment("w2")] };
    assert!(matches!(bind_gated_expert(&duplicate), Err(MoeMathError::Weight(_))));
    let no_down = ExpertLocation { layer: 0, expert: 0, segments: vec![segment("w1"), segment("w3")] };
    assert!(matches!(bind_gated_expert(&no_down), Err(MoeMathError::Weight(_))));
    let mixed = ExpertLocation { layer: 0, expert: 0, segments: vec![segment("gate_up_proj"), segment("w1"), segment("w2")] };
    assert!(matches!(bind_gated_expert(&mixed), Err(MoeMathError::Weight(_))));
    let half = ExpertLocation { layer: 0, expert: 0, segments: vec![segment("w1"), segment("w2")] };
    assert!(matches!(bind_gated_expert(&half), Err(MoeMathError::Weight(_))));
}

#[test]
fn standard_cache_keeps_bf16_halves_and_truncates() {
    let mut cache = StandardKvCache::new();
    assert!(cache.is_empty());
    let entry = StandardKvEntry { key: vec![1.5f32.to_bits(), 0x3f81_ffff], value: vec![2.0f32.to_bits()] };
    assert!(cache.push(entry, 1, 2, 1).is_ok());
    assert_eq!(cache.len(), 1);
    assert_eq!(cache.bytes(), 6);
    let bad = StandardKvEntry { key: vec![0; 3], value: vec![0] };
    match cache.push(bad, 1, 2, 1) {
        Err(MoeMathError::Shape(m)) => assert_eq!(m, "invalid standard KV entry"),
        _ => panic!("expected a shape error"),
    }
    assert_eq!(cache.len(), 1);
    assert!(cache.push(StandardKvEntry { key: vec![0, 0], value: vec![0] }, 1, 2, 1).is_ok());
    cache.truncate(5);
    assert_eq!(cache.len(), 2);
    cache.truncate(1);
    assert_eq!(cache.len(), 1);
    assert_eq!(cache.bytes(), 6);
}

#[test]
fn router_shape_rules_match_the_contract() {
    let mut contract = RouterContract::default();
    assert!(check_router_logits(8, 2, &contract, None).is_ok());
    assert!(check_router_logits(8, 9, &contract, None).is_err());
    assert!(check_router_logits(0, 1, &contract, None).is_err());
    contract.groups = 3;
    match check_router_logits(8, 2, &contract, None) {
        Err(MoeMathError::Shape(m)) => assert_eq!(m, "router logits and group dimensions are inconsistent"),
        _ => panic!("expected a shape error"),
    }
    contract.groups = 4;
    contract.selected_groups = 2;
    contract.correction_bias = true;
    match check_router_logits(8, 2, &contract, Some(7)) {
        Err(MoeMathError::Shape(m)) => assert_eq!(m, "correction-bias router requires one bias per expert"),
        _ => panic!("expected a shape error"),
    }
    assert!(check_router_logits(8, 2, &contract, Some(8)).is_ok());
    assert!(check_router_inputs(4, 32, 8).is_ok());
    assert!(check_router_inputs(4, 31, 8).is_err());
    assert!(check_router_inputs(0, 0, 8).is_err());
    assert!(check_router_inputs(usize::MAX, 0, 2).is_err());
}
