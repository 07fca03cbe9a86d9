use sytra::guider::{lineage_markers_of, Guider, HardwareCapabilities, ModelCatalogEntry, VramEstimate};
use sytra::model_alerts::{alerts_for, peak_alert_level, AlertSizing};
use sytra::merge_config::{MergeMethod, Verdict};
use sytra::telemetry::EventName;

#[test]
fn task_vector_flags_cross_lineage_models() {
    let guider = Guider::new();
    let compat = guider.merge_check_with_base(
        Some("Qwen/Qwen2.5-7B"),
        &[
            "Qwen/Qwen2.5-Coder-7B-Instruct".to_string(),
            "Qwen/Qwen2.5-7B-Instruct".to_string(),
        ],
        MergeMethod::DareTies,
    );
    assert_eq!(compat.verdict, Verdict::Amber);
    assert!(compat.reason.contains("lineage"), "reason: {}", compat.reason);
}

#[test]
fn task_vector_allows_same_lineage_finetunes() {
    let guider = Guider::new();
    let compat = guider.merge_check_with_base(
        Some("Qwen/Qwen2.5-Coder-7B"),
        &[
            "Qwen/Qwen2.5-Coder-7B-Instruct".to_string(),
            "org/my-coder-ft".to_string(),
        ],
        MergeMethod::DareTies,
    );
    assert!(!compat.reason.contains("lineage"), "reason: {}", compat.reason);
}

#[test]
fn slerp_skips_lineage_heuristic() {
    let guider = Guider::new();
    let compat = guider.merge_check_with_base(
        Some("Qwen/Qwen2.5-Coder-7B-Instruct"),
        &[
            "Qwen/Qwen2.5-Coder-7B-Instruct".to_string(),
            "Qwen/Qwen2.5-7B-Instruct".to_string(),
        ],
        MergeMethod::Slerp,
    );
    assert!(!compat.reason.contains("lineage"), "reason: {}", compat.reason);
}

#[test]
fn done_and_error_events_are_terminal() {
    assert!(EventName::Done.is_terminal());
    assert!(EventName::Error.is_terminal());
    assert!(!EventName::Stage.is_terminal());
}

#[test]
fn only_done_and_error_end_an_operation() {
    for name in [EventName::Starting, EventName::Epoch, EventName::Checkpoint, EventName::Eval] {
        assert!(!name.is_terminal());
    }
}

#[test]
fn task_vector_methods_are_exactly_ties_dare_and_arithmetic() {
    assert!(MergeMethod::Ties.is_task_vector());
    assert!(MergeMethod::DareTies.is_task_vector());
    assert!(MergeMethod::TaskArithmetic.is_task_vector());
    assert!(!MergeMethod::Linear.is_task_vector());
    assert!(!MergeMethod::Slerp.is_task_vector());
    assert!(!MergeMethod::Passthrough.is_task_vector());
    assert!(!MergeMethod::Moe.is_task_vector());
}

#[test]
fn lineage_markers_come_from_the_last_path_segment() {
    assert_eq!(lineage_markers_of("Qwen/Qwen2.5-Coder-7B-Instruct"), vec!["coder"]);
    assert_eq!(lineage_markers_of("coder-org/Qwen2.5-7B"), Vec::<&str>::new());
    assert_eq!(lineage_markers_of("org/Math-VL-MoE"), vec!["math", "vl", "moe"]);
}

#[test]
fn empty_guider_has_an_empty_catalog() {
    let guider = Guider::new();
    assert!(guider.catalog().is_empty());
    assert!(guider.resolve_model("Qwen/Qwen2.5-7B").is_none());
}

#[test]
fn lineage_markers_are_whole_tokens_in_marker_order() {
    assert_eq!(lineage_markers_of("acme/Math-Coder-VL-7B"), vec!["coder", "math", "vl"]);
    assert_eq!(lineage_markers_of("meta/CodeLlama-7b"), Vec::<&str>::new());
}

fn entry(model_id: &str, name: &str, format: &str) -> ModelCatalogEntry {
    ModelCatalogEntry {
        model_id: model_id.to_string(),
        name: name.to_string(),
        param_count: 20_000_000_000,
        architecture: "qwen2".to_string(),
        dtype: "bf16".to_string(),
        moe_active_params: None,
        license: "apache-2.0".to_string(),
        default_target_modules: Vec::new(),
        tokenizer_id: String::new(),
        use_case_tags: Vec::new(),
        benchmark_hint: String::new(),
        format: format.to_string(),
        downloadable: true,
        workflows: Vec::new(),
        gated: false,
        explicit_risks: Vec::new(),
    }
}

fn sizing() -> AlertSizing {
    AlertSizing {
        moe_message: "moe".to_string(),
        over_vram: false,
        over_vram_message: "over vram".to_string(),
        over_vram_headroom: false,
        over_hybrid_envelope: None,
        hybrid_envelope_message: "envelope".to_string(),
        needs_hybrid_message: "hybrid".to_string(),
        huge_download: false,
        huge_download_message: "huge".to_string(),
    }
}

fn codes(alerts: &[sytra::model_alerts::ModelAlert]) -> Vec<String> {
    alerts.iter().map(|a| a.code.clone()).collect()
}

#[test]
fn safetensors_checkpoint_of_forty_gb_warns_twice() {
    let e = entry("Qwen/Qwen2.5-7B", "Qwen2.5 7B", "");
    let mut s = sizing();
    s.huge_download = true;
    let alerts = alerts_for(&e, &s, false);
    assert_eq!(codes(&alerts), vec!["never_ollama_safetensors", "huge_download"]);
    assert!(alerts.iter().all(|a| a.level == "warning" && !a.blocks_download));
    assert_eq!(alerts[1].message, "huge");
    assert_eq!(peak_alert_level(&alerts), "warning");
}

#[test]
fn over_vram_is_danger_except_for_gguf() {
    let mut s = sizing();
    s.over_vram = true;
    let alerts = alerts_for(&entry("Qwen/Qwen2.5-7B", "Qwen2.5 7B", ""), &s, false);
    assert_eq!(codes(&alerts), vec!["never_ollama_safetensors", "exceeds_vram"]);
    assert_eq!(alerts[1].level, "danger");
    assert_eq!(alerts[1].message, "over vram");
    let gguf = alerts_for(&entry("bartowski/Qwen2.5-7B-GGUF", "Qwen2.5 7B", ""), &s, false);
    assert!(codes(&gguf).is_empty());
}

#[test]
fn gguf_over_vram_plans_hybrid_offload_when_ram_is_known() {
    let e = entry("bartowski/Qwen2.5-7B-GGUF", "Qwen2.5 7B", "");
    let mut s = sizing();
    s.over_vram_headroom = true;
    assert!(codes(&alerts_for(&e, &s, false)).is_empty());
    s.over_hybrid_envelope = Some(false);
    let fits = alerts_for(&e, &s, false);
    assert_eq!(codes(&fits), vec!["needs_gpu_hybrid"]);
    assert_eq!(fits[0].level, "warning");
    s.over_hybrid_envelope = Some(true);
    let too_big = alerts_for(&e, &s, false);
    assert_eq!(codes(&too_big), vec!["exceeds_hybrid_envelope"]);
    assert_eq!(too_big[0].level, "danger");
    assert_eq!(peak_alert_level(&too_big), "danger");
}

#[test]
fn mlx_package_blocks_download_only_on_windows() {
    let e = entry("mlx-community/Qwen2.5-7B-4bit", "Qwen2.5 7B", "");
    let on_windows = alerts_for(&e, &sizing(), true);
    assert_eq!(codes(&on_windows), vec!["mlx_apple_only"]);
    assert!(on_windows[0].blocks_download);
    let elsewhere = alerts_for(&e, &sizing(), false);
    assert!(!elsewhere[0].blocks_download);
}

#[test]
fn placeholder_ids_block_and_catalog_notes_come_last() {
    let mut e = entry("org/my-merge", "merge", "safetensors");
    e.explicit_risks = vec!["first note".to_string(), "second note".to_string()];
    e.use_case_tags = vec!["unverified".to_string()];
    let alerts = alerts_for(&e, &sizing(), false);
    assert_eq!(
        codes(&alerts),
        vec!["not_a_huggingface_repo", "never_ollama_safetensors", "unverified_generation", "catalog_note", "catalog_note"]
    );
    assert!(alerts[0].blocks_download);
    assert_eq!(alerts[0].message, "org/my-merge is a Sytra merge/train placeholder, not a Hugging Face repository. It cannot be downloaded.");
    assert_eq!(alerts[3].message, "first note");
    assert_eq!(alerts[4].message, "second note");
}

fn hardware(vram: u64, ram: u64) -> HardwareCapabilities {
    HardwareCapabilities { accelerator: "cuda".to_string(), total_vram_mb: vram, total_ram_mb: ram }
}

#[test]
fn more_hardware_never_takes_a_recipe_away() {
    let guider = Guider::with_catalog(vec![entry("Qwen/Qwen2.5-7B", "Qwen2.5 7B", ""), entry("Qwen/Qwen2.5-72B", "Qwen2.5 72B", "")]);
    let estimates = vec![VramEstimate { qlora_mb: 6_000, lora_mb: 18_000 }, VramEstimate { qlora_mb: 48_000, lora_mb: 150_000 }];
    let small = guider.recommend(&hardware(8_000, 32_000), &estimates);
    let kinds = |r: &Vec<sytra::guider::TrainRecipe>| -> Vec<(String, String, String)> {
        r.iter().map(|x| (x.model_id.clone(), x.adapter_type.clone(), x.quality_tier.clone())).collect()
    };
    assert_eq!(
        kinds(&small),
        vec![
            ("Qwen/Qwen2.5-7B".to_string(), "qlora".to_string(), "A".to_string()),
            ("Qwen/Qwen2.5-7B".to_string(), "lora".to_string(), "B".to_string()),
        ]
    );
    let large = guider.recommend(&hardware(24_000, 64_000), &estimates);
    assert_eq!(
        kinds(&large),
        vec![
            ("Qwen/Qwen2.5-7B".to_string(), "qlora".to_string(), "A".to_string()),
            ("Qwen/Qwen2.5-7B".to_string(), "lora".to_string(), "A".to_string()),
        ]
    );
    assert!(large.len() >= small.len());
}

#[test]
fn architecture_names_are_written_in_debug_form() {
    let mut a = entry("org/a", "a", "safetensors");
    a.architecture = "llama".to_string();
    let mut b = entry("org/b", "b", "safetensors");
    b.architecture = "qw\"en".to_string();
    let guider = Guider::with_catalog(vec![a, b]);
    let refs = vec!["org/a".to_string(), "org/b".to_string()];
    let r = guider.merge_check(&refs, MergeMethod::Linear);
    assert_eq!(r.verdict, Verdict::Red);
    assert_eq!(
        r.reason,
        "Merge method Linear does not support merging different architectures: {\"llama\", \"qw\\\"en\"}"
    );
}
