//! Hardware-aware risk alerts for catalog models.
use vstd::prelude::*;
use crate::guider::ModelCatalogEntry;
use crate::text::{
    chars_of, matches_at, push_str, seq_contains, seq_contains_exec, seq_starts_with, str_eq,
    str_starts_with, string_of, unicode_lower, unicode_lower_chars, vec_eq,
};

verus! {

#[derive(Debug, Clone, PartialEq, Eq)]
pub struct ModelAlert {
    pub level: String,
    pub code: String,
    pub message: String,
    pub blocks_download: bool,
}

/// The mathematical content of an alert.
pub struct AlertView {
    pub level: Seq<char>,
    pub code: Seq<char>,
    pub message: Seq<char>,
    pub blocks_download: bool,
}

impl View for ModelAlert {
    type V = AlertView;

    open spec fn view(&self) -> AlertView {
        AlertView {
            level: self.level@,
            code: self.code@,
            message: self.message@,
            blocks_download: self.blocks_download,
        }
    }
}

pub open spec fn alerts_view(v: Seq<ModelAlert>) -> Seq<AlertView> {
    v.map_values(|a: ModelAlert| a@)
}

pub open spec fn any_level(alerts: Seq<ModelAlert>, level: Seq<char>) -> bool {
    exists|i: int| 0 <= i < alerts.len() && (#[trigger] alerts[i]).level@ == level
}

pub open spec fn spec_peak_alert_level(alerts: Seq<ModelAlert>) -> Seq<char> {
    if any_level(alerts, "danger"@) {
        "danger"@
    } else if any_level(alerts, "warning"@) {
        "warning"@
    } else if alerts.len() == 0 {
        "none"@
    } else {
        "info"@
    }
}

fn has_level(alerts: &[ModelAlert], level: &str) -> (b: bool)
    ensures
        b == any_level(alerts@, level@),
{
    let mut i: usize = 0;
    while i < alerts.len()
        invariant
            i <= alerts@.len(),
            forall|k: int| 0 <= k < i ==> (#[trigger] alerts@[k]).level@ != level@,
        decreases alerts@.len() - i,
    {
        if str_eq(alerts[i].level.as_str(), level) {
            return true;
        }
        i += 1;
    }
    false
}

/// The most severe level among the alerts.
pub fn peak_alert_level(alerts: &[ModelAlert]) -> (r: String)
    ensures
        r@ == spec_peak_alert_level(alerts@),
{
    if has_level(alerts, "danger") {
        string_of("danger")
    } else if has_level(alerts, "warning") {
        string_of("warning")
    } else if alerts.len() == 0 {
        string_of("none")
    } else {
        string_of("info")
    }
}

pub open spec fn spec_inferred_format(e: ModelCatalogEntry) -> Seq<char> {
    if e.format@.len() > 0 {
        e.format@
    } else if seq_contains(unicode_lower(e.model_id@), "gguf"@) {
        "gguf"@
    } else if seq_contains(unicode_lower(e.model_id@), "mlx"@) {
        "mlx"@
    } else {
        "safetensors"@
    }
}

pub open spec fn any_tag(tags: Seq<String>, tag: Seq<char>) -> bool {
    exists|i: int| 0 <= i < tags.len() && (#[trigger] tags[i])@ == tag
}

fn has_tag(tags: &Vec<String>, tag: &str) -> (b: bool)
    ensures
        b == any_tag(tags@, tag@),
{
    let mut i: usize = 0;
    while i < tags.len()
        invariant
            i <= tags@.len(),
            forall|k: int| 0 <= k < i ==> (#[trigger] tags@[k])@ != tag@,
        decreases tags@.len() - i,
    {
        if str_eq(tags[i].as_str(), tag) {
            return true;
        }
        i += 1;
    }
    false
}

fn lower_contains(lowered: &Vec<char>, pattern: &str) -> (b: bool)
    ensures
        b == seq_contains(lowered@, pattern@),
{
    let p = chars_of(pattern);
    seq_contains_exec(lowered, &p)
}

impl ModelCatalogEntry {
    /// The packaging format: the declared one, else inferred from the id.
    pub fn inferred_format(&self) -> (r: &str)
        ensures
            r@ == spec_inferred_format(*self),
    {
        if !self.format.as_str().is_empty() {
            return self.format.as_str();
        }
        let id = unicode_lower_chars(self.model_id.as_str());
        if lower_contains(&id, "gguf") {
            "gguf"
        } else if lower_contains(&id, "mlx") {
            "mlx"
        } else {
            "safetensors"
        }
    }

    pub open spec fn spec_allows_download(self) -> bool {
        self.downloadable && !seq_starts_with(self.model_id@, "org/"@)
    }

    pub fn allows_download(&self) -> (b: bool)
        ensures
            b == self.spec_allows_download(),
    {
        self.downloadable && !str_starts_with(self.model_id.as_str(), "org/")
    }

    pub open spec fn spec_allows_finetune(self) -> bool {
        if self.workflows@.len() > 0 {
            any_tag(self.workflows@, "finetune"@)
        } else {
            spec_inferred_format(self) == "safetensors"@
        }
    }

    pub fn allows_finetune(&self) -> (b: bool)
        ensures
            b == self.spec_allows_finetune(),
    {
        if self.workflows.len() > 0 {
            return has_tag(&self.workflows, "finetune");
        }
        str_eq(self.inferred_format(), "safetensors")
    }
}

/// What the size-dependent checks found. The comparisons are made on
/// floating-point download and memory estimates outside this library; the
/// messages carry the formatted estimates. Which alerts follow from them is
/// decided here.
#[derive(Debug, Clone, PartialEq, Eq)]
pub struct AlertSizing {
    /// Message of the `moe_hybrid` warning (total and active parameter counts).
    pub moe_message: String,
    /// The VRAM size is known and the download exceeds 85% of it.
    pub over_vram: bool,
    pub over_vram_message: String,
    /// The VRAM size is known and the download exceeds it by more than 2 GB.
    pub over_vram_headroom: bool,
    /// Known only with the RAM size: whether the download exceeds 80% of
    /// VRAM plus 70% of RAM.
    pub over_hybrid_envelope: Option<bool>,
    pub hybrid_envelope_message: String,
    pub needs_hybrid_message: String,
    /// The download is at least 40 GB.
    pub huge_download: bool,
    pub huge_download_message: String,
}

pub open spec fn alert(level: Seq<char>, code: Seq<char>, message: Seq<char>, blocks: bool) -> AlertView {
    AlertView { level, code, message, blocks_download: blocks }
}

pub open spec fn when(c: bool, a: AlertView) -> Seq<AlertView> {
    if c { seq![a] } else { Seq::empty() }
}

pub open spec fn gated_license(lowered: Seq<char>) -> bool {
    lowered == "llama3"@ || lowered == "llama3.1"@ || lowered == "llama3.2"@ || lowered == "llama3.3"@
        || lowered == "gemma"@ || lowered == "gemma-2"@ || lowered == "llama2"@
}

pub open spec fn is_qwen35(e: ModelCatalogEntry) -> bool {
    let arch = unicode_lower(e.architecture@);
    seq_contains(arch, "qwen3_5"@) || seq_contains(arch, "qwen3.5"@)
        || seq_contains(unicode_lower(e.model_id@), "qwen3.5"@) || seq_contains(unicode_lower(e.name@), "qwen3.5"@)
}

pub open spec fn is_moe_entry(e: ModelCatalogEntry) -> bool {
    let id = unicode_lower(e.model_id@);
    e.moe_active_params is Some || any_tag(e.use_case_tags@, "moe"@)
        || seq_contains(unicode_lower(e.architecture@), "moe"@) || seq_contains(id, "moe"@)
        || seq_contains(id, "mixtral"@) || seq_contains(id, "olmoe"@)
}

pub open spec fn risk_alerts(risks: Seq<String>) -> Seq<AlertView> {
    risks.map_values(|m: String| alert("warning"@, "catalog_note"@, m@, false))
}

/// The alerts raised by the size checks: at most one of `exceeds_vram`,
/// `exceeds_hybrid_envelope` and `needs_gpu_hybrid`, then `huge_download`.
pub open spec fn capacity_alerts(format: Seq<char>, s: AlertSizing) -> Seq<AlertView> {
    (if s.over_vram && format != "gguf"@ {
        seq![alert("danger"@, "exceeds_vram"@, s.over_vram_message@, false)]
    } else if format == "gguf"@ && s.over_vram_headroom && s.over_hybrid_envelope is Some {
        if s.over_hybrid_envelope.unwrap() {
            seq![alert("danger"@, "exceeds_hybrid_envelope"@, s.hybrid_envelope_message@, false)]
        } else {
            seq![alert("warning"@, "needs_gpu_hybrid"@, s.needs_hybrid_message@, false)]
        }
    } else {
        Seq::empty()
    }) + when(s.huge_download, alert("warning"@, "huge_download"@, s.huge_download_message@, false))
}

/// Every alert for `entry`, in the order they are raised.
pub open spec fn spec_alerts(e: ModelCatalogEntry, sizing: AlertSizing, windows: bool) -> Seq<AlertView> {
    let format = spec_inferred_format(e);
    let id = unicode_lower(e.model_id@);
    let arch = unicode_lower(e.architecture@);
    when(seq_starts_with(e.model_id@, "org/"@), alert("danger"@, "not_a_huggingface_repo"@,
        e.model_id@ + " is a Sytra merge/train placeholder, not a Hugging Face repository. It cannot be downloaded."@, true))
    + when(format == "mlx"@ || seq_contains(id, "mlx-community"@), alert("danger"@, "mlx_apple_only"@,
        "This checkpoint is an MLX 4-bit package for Apple Silicon. It will not run on Windows CUDA or llama.cpp."@, windows))
    + when(gated_license(unicode_lower(e.license@)) || e.gated, alert("warning"@, "gated_license"@,
        "License '"@ + e.license@ + "' is gated on Hugging Face. Accept the license and set HF_TOKEN before downloading."@, false))
    + when(format == "safetensors"@, alert("warning"@, "never_ollama_safetensors"@,
        "Never `ollama create` from raw SafeTensors. Convert to GGUF with Sytra first or the tokenizer/architecture can silently break."@, false))
    + when(is_qwen35(e), alert("danger"@, "never_qwen2"@,
        "This is Qwen3.5, not Qwen2. Serving or training it as Qwen2 will load the wrong kernel and corrupt LoRA matches."@, false))
    + when(is_qwen35(e) && (any_tag(e.use_case_tags@, "multimodal"@) || any_tag(e.use_case_tags@, "vision"@)
        || seq_contains(arch, "conditionalgeneration"@)), alert("warning"@, "vision_not_text_lora"@,
        "Qwen3.5 multimodal weights include vision tensors. Sytra text LoRA must target q/k/v/o only; vision modules must stay unmatched."@, false))
    + when(is_moe_entry(e), alert("warning"@, "moe_hybrid"@, sizing.moe_message@, false))
    + capacity_alerts(format, sizing)
    + when(any_tag(e.use_case_tags@, "unverified"@), alert("warning"@, "unverified_generation"@,
        "Sytra has not completed a real load+generation test for this architecture on this machine. The catalog lists it for download, not as a proven runtime."@, false))
    + risk_alerts(e.explicit_risks@)
}

/// The shape every alert has: a danger or a warning; only a placeholder id
/// (always) and an MLX package (on Windows) block the download.
pub open spec fn alert_shape_ok(a: AlertView, windows: bool) -> bool {
    &&& a.level == "danger"@ || a.level == "warning"@
    &&& a.code == "not_a_huggingface_repo"@ ==> a.blocks_download
    &&& a.code == "mlx_apple_only"@ ==> a.blocks_download == windows
    &&& a.blocks_download ==> a.code == "not_a_huggingface_repo"@ || a.code == "mlx_apple_only"@
}

#[verifier::opaque]
pub open spec fn all_shape_ok(s: Seq<AlertView>, windows: bool) -> bool {
    forall|i: int| 0 <= i < s.len() ==> alert_shape_ok(#[trigger] s[i], windows)
}

proof fn lemma_shape_when(c: bool, a: AlertView, windows: bool)
    requires
        alert_shape_ok(a, windows),
    ensures
        all_shape_ok(when(c, a), windows),
{
    reveal(all_shape_ok);
    if c {
        assert forall|i: int| 0 <= i < when(c, a).len() implies alert_shape_ok(#[trigger] when(c, a)[i], windows) by {
            assert(when(c, a)[i] == a);
        }
    }
}

proof fn lemma_shape_concat(a: Seq<AlertView>, b: Seq<AlertView>, windows: bool)
    requires
        all_shape_ok(a, windows),
        all_shape_ok(b, windows),
    ensures
        all_shape_ok(a + b, windows),
{
    reveal(all_shape_ok);
    assert forall|i: int| 0 <= i < (a + b).len() implies alert_shape_ok(#[trigger] (a + b)[i], windows) by {
        if i < a.len() {
            assert((a + b)[i] == a[i]);
        } else {
            assert((a + b)[i] == b[i - a.len()]);
        }
    }
}

/// The codes of the alerts that never block a download differ from the two
/// codes that can.
proof fn lemma_alert_codes()
    ensures
        "not_a_huggingface_repo"@ != "mlx_apple_only"@,
        "gated_license"@ != "not_a_huggingface_repo"@ && "gated_license"@ != "mlx_apple_only"@,
        "never_ollama_safetensors"@ != "not_a_huggingface_repo"@ && "never_ollama_safetensors"@ != "mlx_apple_only"@,
        "never_qwen2"@ != "not_a_huggingface_repo"@ && "never_qwen2"@ != "mlx_apple_only"@,
        "vision_not_text_lora"@ != "not_a_huggingface_repo"@ && "vision_not_text_lora"@ != "mlx_apple_only"@,
        "moe_hybrid"@ != "not_a_huggingface_repo"@ && "moe_hybrid"@ != "mlx_apple_only"@,
        "exceeds_vram"@ != "not_a_huggingface_repo"@ && "exceeds_vram"@ != "mlx_apple_only"@,
        "exceeds_hybrid_envelope"@ != "not_a_huggingface_repo"@ && "exceeds_hybrid_envelope"@ != "mlx_apple_only"@,
        "needs_gpu_hybrid"@ != "not_a_huggingface_repo"@ && "needs_gpu_hybrid"@ != "mlx_apple_only"@,
        "huge_download"@ != "not_a_huggingface_repo"@ && "huge_download"@ != "mlx_apple_only"@,
        "unverified_generation"@ != "not_a_huggingface_repo"@ && "unverified_generation"@ != "mlx_apple_only"@,
        "catalog_note"@ != "not_a_huggingface_repo"@ && "catalog_note"@ != "mlx_apple_only"@,
{
    reveal_strlit("gated_license");
    reveal_strlit("never_ollama_safetensors");
    reveal_strlit("never_qwen2");
    reveal_strlit("vision_not_text_lora");
    reveal_strlit("moe_hybrid");
    reveal_strlit("exceeds_vram");
    reveal_strlit("exceeds_hybrid_envelope");
    reveal_strlit("needs_gpu_hybrid");
    reveal_strlit("huge_download");
    reveal_strlit("unverified_generation");
    reveal_strlit("catalog_note");
    reveal_strlit("not_a_huggingface_repo");
    reveal_strlit("mlx_apple_only");
    assert("not_a_huggingface_repo"@.len() == 22 && "mlx_apple_only"@.len() == 14);
    assert("gated_license"@.len() == 13);
    assert("never_ollama_safetensors"@.len() == 24);
    assert("never_qwen2"@.len() == 11);
    assert("vision_not_text_lora"@.len() == 20);
    assert("moe_hybrid"@.len() == 10);
    assert("exceeds_vram"@.len() == 12);
    assert("exceeds_hybrid_envelope"@.len() == 23);
    assert("needs_gpu_hybrid"@.len() == 16);
    assert("huge_download"@.len() == 13);
    assert("unverified_generation"@.len() == 21);
    assert("catalog_note"@.len() == 12);
}

/// Every alert is a danger or a warning; a download is blocked only by a
/// placeholder id (always) or an MLX package (exactly on Windows); and the
/// alerts end with one `catalog_note` warning per catalog risk, in order.
#[verifier::rlimit(100)]
pub proof fn law_alert_shape(e: ModelCatalogEntry, sizing: AlertSizing, windows: bool)
    ensures
        all_shape_ok(spec_alerts(e, sizing, windows), windows),
        spec_alerts(e, sizing, windows).len() >= e.explicit_risks@.len(),
        spec_alerts(e, sizing, windows).subrange(
            spec_alerts(e, sizing, windows).len() - e.explicit_risks@.len(),
            spec_alerts(e, sizing, windows).len() as int,
        ) == risk_alerts(e.explicit_risks@),
{
    let format = spec_inferred_format(e);
    let id = unicode_lower(e.model_id@);
    let arch = unicode_lower(e.architecture@);
    lemma_alert_codes();
    let c1 = seq_starts_with(e.model_id@, "org/"@);
    let a1 = alert("danger"@, "not_a_huggingface_repo"@,
        e.model_id@ + " is a Sytra merge/train placeholder, not a Hugging Face repository. It cannot be downloaded."@, true);
    let c2 = format == "mlx"@ || seq_contains(id, "mlx-community"@);
    let a2 = alert("danger"@, "mlx_apple_only"@,
        "This checkpoint is an MLX 4-bit package for Apple Silicon. It will not run on Windows CUDA or llama.cpp."@, windows);
    let c3 = gated_license(unicode_lower(e.license@)) || e.gated;
    let a3 = alert("warning"@, "gated_license"@,
        "License '"@ + e.license@ + "' is gated on Hugging Face. Accept the license and set HF_TOKEN before downloading."@, false);
    let c4 = format == "safetensors"@;
    let a4 = alert("warning"@, "never_ollama_safetensors"@,
        "Never `ollama create` from raw SafeTensors. Convert to GGUF with Sytra first or the tokenizer/architecture can silently break."@, false);
    let c5 = is_qwen35(e);
    let a5 = alert("danger"@, "never_qwen2"@,
        "This is Qwen3.5, not Qwen2. Serving or training it as Qwen2 will load the wrong kernel and corrupt LoRA matches."@, false);
    let c6 = is_qwen35(e) && (any_tag(e.use_case_tags@, "multimodal"@) || any_tag(e.use_case_tags@, "vision"@)
        || seq_contains(arch, "conditionalgeneration"@));
    let a6 = alert("warning"@, "vision_not_text_lora"@,
        "Qwen3.5 multimodal weights include vision tensors. Sytra text LoRA must target q/k/v/o only; vision modules must stay unmatched."@, false);
    let c7 = is_moe_entry(e);
    let a7 = alert("warning"@, "moe_hybrid"@, sizing.moe_message@, false);
    let c9 = any_tag(e.use_case_tags@, "unverified"@);
    let a9 = alert("warning"@, "unverified_generation"@,
        "Sytra has not completed a real load+generation test for this architecture on this machine. The catalog lists it for download, not as a proven runtime."@, false);
    let p1 = when(c1, a1);
    let p2 = when(c2, a2);
    let p3 = when(c3, a3);
    let p4 = when(c4, a4);
    let p5 = when(c5, a5);
    let p6 = when(c6, a6);
    let p7 = when(c7, a7);
    let p8 = capacity_alerts(format, sizing);
    let p9 = when(c9, a9);
    let p10 = risk_alerts(e.explicit_risks@);
    lemma_shape_when(c1, a1, windows);
    lemma_shape_when(c2, a2, windows);
    lemma_shape_when(c3, a3, windows);
    lemma_shape_when(c4, a4, windows);
    lemma_shape_when(c5, a5, windows);
    lemma_shape_when(c6, a6, windows);
    lemma_shape_when(c7, a7, windows);
    lemma_shape_when(c9, a9, windows);
    assert(all_shape_ok(p10, windows)) by {
        reveal(all_shape_ok);
        assert forall|i: int| 0 <= i < p10.len() implies alert_shape_ok(#[trigger] p10[i], windows) by {
            assert(p10[i] == alert("warning"@, "catalog_note"@, e.explicit_risks@[i]@, false));
        }
    }
    assert(all_shape_ok(p8, windows)) by {
        let first = if sizing.over_vram && format != "gguf"@ {
            seq![alert("danger"@, "exceeds_vram"@, sizing.over_vram_message@, false)]
        } else if format == "gguf"@ && sizing.over_vram_headroom && sizing.over_hybrid_envelope is Some {
            if sizing.over_hybrid_envelope.unwrap() {
                seq![alert("danger"@, "exceeds_hybrid_envelope"@, sizing.hybrid_envelope_message@, false)]
            } else {
                seq![alert("warning"@, "needs_gpu_hybrid"@, sizing.needs_hybrid_message@, false)]
            }
        } else {
            Seq::<AlertView>::empty()
        };
        let last = when(sizing.huge_download, alert("warning"@, "huge_download"@, sizing.huge_download_message@, false));
        assert(all_shape_ok(first, windows)) by {
            reveal(all_shape_ok);
        }
        lemma_shape_when(sizing.huge_download, alert("warning"@, "huge_download"@, sizing.huge_download_message@, false), windows);
        lemma_shape_concat(first, last, windows);
    }
    lemma_shape_concat(p1, p2, windows);
    lemma_shape_concat(p1 + p2, p3, windows);
    lemma_shape_concat(p1 + p2 + p3, p4, windows);
    lemma_shape_concat(p1 + p2 + p3 + p4, p5, windows);
    lemma_shape_concat(p1 + p2 + p3 + p4 + p5, p6, windows);
    lemma_shape_concat(p1 + p2 + p3 + p4 + p5 + p6, p7, windows);
    lemma_shape_concat(p1 + p2 + p3 + p4 + p5 + p6 + p7, p8, windows);
    lemma_shape_concat(p1 + p2 + p3 + p4 + p5 + p6 + p7 + p8, p9, windows);
    lemma_shape_concat(p1 + p2 + p3 + p4 + p5 + p6 + p7 + p8 + p9, p10, windows);
    let head = p1 + p2 + p3 + p4 + p5 + p6 + p7 + p8 + p9;
    assert(spec_alerts(e, sizing, windows) == head + p10);
    assert((head + p10).subrange(head.len() as int, (head + p10).len() as int) =~= p10);
}

/// A mixture-of-experts model always gets the `moe_hybrid` warning: one whose
/// lowercased id names Mixtral or OLMoE or contains `moe`, or whose catalog
/// entry gives an active parameter count.
#[verifier::rlimit(80)]
#[verifier::spinoff_prover]
pub proof fn law_moe_models_get_hybrid_warning(e: ModelCatalogEntry, sizing: AlertSizing, windows: bool)
    requires
        seq_contains(unicode_lower(e.model_id@), "mixtral"@) || seq_contains(unicode_lower(e.model_id@), "olmoe"@)
            || seq_contains(unicode_lower(e.model_id@), "moe"@) || e.moe_active_params is Some,
    ensures
        spec_alerts(e, sizing, windows).contains(alert("warning"@, "moe_hybrid"@, sizing.moe_message@, false)),
{
    let format = spec_inferred_format(e);
    let id = unicode_lower(e.model_id@);
    let arch = unicode_lower(e.architecture@);
    let p1 = when(seq_starts_with(e.model_id@, "org/"@), alert("danger"@, "not_a_huggingface_repo"@,
        e.model_id@ + " is a Sytra merge/train placeholder, not a Hugging Face repository. It cannot be downloaded."@, true));
    let p2 = when(format == "mlx"@ || seq_contains(id, "mlx-community"@), alert("danger"@, "mlx_apple_only"@,
        "This checkpoint is an MLX 4-bit package for Apple Silicon. It will not run on Windows CUDA or llama.cpp."@, windows));
    let p3 = when(gated_license(unicode_lower(e.license@)) || e.gated, alert("warning"@, "gated_license"@,
        "License '"@ + e.license@ + "' is gated on Hugging Face. Accept the license and set HF_TOKEN before downloading."@, false));
    let p4 = when(format == "safetensors"@, alert("warning"@, "never_ollama_safetensors"@,
        "Never `ollama create` from raw SafeTensors. Convert to GGUF with Sytra first or the tokenizer/architecture can silently break."@, false));
    let p5 = when(is_qwen35(e), alert("danger"@, "never_qwen2"@,
        "This is Qwen3.5, not Qwen2. Serving or training it as Qwen2 will load the wrong kernel and corrupt LoRA matches."@, false));
    let p6 = when(is_qwen35(e) && (any_tag(e.use_case_tags@, "multimodal"@) || any_tag(e.use_case_tags@, "vision"@)
        || seq_contains(arch, "conditionalgeneration"@)), alert("warning"@, "vision_not_text_lora"@,
        "Qwen3.5 multimodal weights include vision tensors. Sytra text LoRA must target q/k/v/o only; vision modules must stay unmatched."@, false));
    let a7 = alert("warning"@, "moe_hybrid"@, sizing.moe_message@, false);
    let p7 = when(is_moe_entry(e), a7);
    let rest = capacity_alerts(format, sizing) + when(any_tag(e.use_case_tags@, "unverified"@), alert("warning"@, "unverified_generation"@,
        "Sytra has not completed a real load+generation test for this architecture on this machine. The catalog lists it for download, not as a proven runtime."@, false))
        + risk_alerts(e.explicit_risks@);
    let head = p1 + p2 + p3 + p4 + p5 + p6;
    assert(is_moe_entry(e));
    assert(p7 == seq![a7]);
    assert(spec_alerts(e, sizing, windows) =~= head + p7 + rest);
    assert((head + p7 + rest)[head.len() as int] == a7);
}

fn make_alert(level: &str, code: &str, message: String, blocks: bool) -> (a: ModelAlert)
    ensures
        a@ == alert(level@, code@, message@, blocks),
{
    ModelAlert { level: string_of(level), code: string_of(code), message, blocks_download: blocks }
}

fn push_when(v: &mut Vec<ModelAlert>, c: bool, a: ModelAlert)
    ensures
        alerts_view(final(v)@) == alerts_view(old(v)@) + when(c, a@),
{
    let ghost before = v@;
    if c {
        v.push(a);
        assert(alerts_view(v@) =~= alerts_view(before) + seq![a@]);
    } else {
        assert(alerts_view(v@) =~= alerts_view(before) + Seq::<AlertView>::empty());
    }
}

fn license_is_gated(license: &str) -> (b: bool)
    ensures
        b == gated_license(unicode_lower(license@)),
{
    let l = unicode_lower_chars(license);
    vec_eq(&l, &chars_of("llama3")) || vec_eq(&l, &chars_of("llama3.1")) || vec_eq(&l, &chars_of("llama3.2"))
        || vec_eq(&l, &chars_of("llama3.3")) || vec_eq(&l, &chars_of("gemma")) || vec_eq(&l, &chars_of("gemma-2"))
        || vec_eq(&l, &chars_of("llama2"))
}

fn push_capacity_alerts(alerts: &mut Vec<ModelAlert>, format: &str, sizing: &AlertSizing)
    ensures
        alerts_view(final(alerts)@) == alerts_view(old(alerts)@) + capacity_alerts(format@, *sizing),
{
    let ghost base = alerts_view(alerts@);
    let ghost first = if sizing.over_vram && format@ != "gguf"@ {
        seq![alert("danger"@, "exceeds_vram"@, sizing.over_vram_message@, false)]
    } else if format@ == "gguf"@ && sizing.over_vram_headroom && sizing.over_hybrid_envelope is Some {
        if sizing.over_hybrid_envelope.unwrap() {
            seq![alert("danger"@, "exceeds_hybrid_envelope"@, sizing.hybrid_envelope_message@, false)]
        } else {
            seq![alert("warning"@, "needs_gpu_hybrid"@, sizing.needs_hybrid_message@, false)]
        }
    } else {
        Seq::<AlertView>::empty()
    };
    let gguf = str_eq(format, "gguf");
    if sizing.over_vram && !gguf {
        push_when(alerts, true,
            make_alert("danger", "exceeds_vram", sizing.over_vram_message.clone(), false));
    } else if gguf && sizing.over_vram_headroom && sizing.over_hybrid_envelope.is_some() {
        if sizing.over_hybrid_envelope.unwrap() {
            push_when(alerts, true,
                make_alert("danger", "exceeds_hybrid_envelope", sizing.hybrid_envelope_message.clone(), false));
        } else {
            push_when(alerts, true,
                make_alert("warning", "needs_gpu_hybrid", sizing.needs_hybrid_message.clone(), false));
        }
    } else {
        assert(alerts_view(alerts@) =~= base + first);
    }
    assert(alerts_view(alerts@) =~= base + first);
    let ghost mid = alerts_view(alerts@);
    push_when(alerts, sizing.huge_download,
        make_alert("warning", "huge_download", sizing.huge_download_message.clone(), false));
    assert(alerts_view(alerts@) =~= base + (first + when(sizing.huge_download,
        alert("warning"@, "huge_download"@, sizing.huge_download_message@, false))));
}

/// The risk alerts for `entry`.
///
/// `sizing` carries what the floating-point size estimates found, and
/// `windows` whether the host runs Windows (where an MLX package blocks the
/// download).
pub fn alerts_for(entry: &ModelCatalogEntry, sizing: &AlertSizing, windows: bool) -> (r: Vec<ModelAlert>)
    ensures
        alerts_view(r@) == spec_alerts(*entry, *sizing, windows),
{
    let mut alerts: Vec<ModelAlert> = Vec::new();
    let format = entry.inferred_format();
    let id_l = unicode_lower_chars(entry.model_id.as_str());
    let arch_l = unicode_lower_chars(entry.architecture.as_str());
    let name_l = unicode_lower_chars(entry.name.as_str());
    assert(alerts_view(alerts@) =~= Seq::<AlertView>::empty());

    let mut m1 = string_of(entry.model_id.as_str());
    push_str(&mut m1, " is a Sytra merge/train placeholder, not a Hugging Face repository. It cannot be downloaded.");
    push_when(&mut alerts, str_starts_with(entry.model_id.as_str(), "org/"),
        make_alert("danger", "not_a_huggingface_repo", m1, true));

    push_when(&mut alerts, str_eq(format, "mlx") || lower_contains(&id_l, "mlx-community"),
        make_alert("danger", "mlx_apple_only",
            string_of("This checkpoint is an MLX 4-bit package for Apple Silicon. It will not run on Windows CUDA or llama.cpp."),
            windows));

    let mut m3 = string_of("License '");
    push_str(&mut m3, entry.license.as_str());
    push_str(&mut m3, "' is gated on Hugging Face. Accept the license and set HF_TOKEN before downloading.");
    push_when(&mut alerts, license_is_gated(entry.license.as_str()) || entry.gated,
        make_alert("warning", "gated_license", m3, false));

    push_when(&mut alerts, str_eq(format, "safetensors"),
        make_alert("warning", "never_ollama_safetensors",
            string_of("Never `ollama create` from raw SafeTensors. Convert to GGUF with Sytra first or the tokenizer/architecture can silently break."),
            false));

    let qwen35 = lower_contains(&arch_l, "qwen3_5") || lower_contains(&arch_l, "qwen3.5")
        || lower_contains(&id_l, "qwen3.5") || lower_contains(&name_l, "qwen3.5");
    push_when(&mut alerts, qwen35,
        make_alert("danger", "never_qwen2",
            string_of("This is Qwen3.5, not Qwen2. Serving or training it as Qwen2 will load the wrong kernel and corrupt LoRA matches."),
            false));
    let vision = has_tag(&entry.use_case_tags, "multimodal") || has_tag(&entry.use_case_tags, "vision")
        || lower_contains(&arch_l, "conditionalgeneration");
    push_when(&mut alerts, qwen35 && vision,
        make_alert("warning", "vision_not_text_lora",
            string_of("Qwen3.5 multimodal weights include vision tensors. Sytra text LoRA must target q/k/v/o only; vision modules must stay unmatched."),
            false));

    let moe = entry.moe_active_params.is_some() || has_tag(&entry.use_case_tags, "moe")
        || lower_contains(&arch_l, "moe") || lower_contains(&id_l, "moe")
        || lower_contains(&id_l, "mixtral") || lower_contains(&id_l, "olmoe");
    push_when(&mut alerts, moe, make_alert("warning", "moe_hybrid", sizing.moe_message.clone(), false));

    push_capacity_alerts(&mut alerts, format, sizing);

    push_when(&mut alerts, has_tag(&entry.use_case_tags, "unverified"),
        make_alert("warning", "unverified_generation",
            string_of("Sytra has not completed a real load+generation test for this architecture on this machine. The catalog lists it for download, not as a proven runtime."),
            false));

    let mut k: usize = 0;
    let ghost base2 = alerts_view(alerts@);
    while k < entry.explicit_risks.len()
        invariant
            k <= entry.explicit_risks@.len(),
            alerts_view(alerts@) == base2 + risk_alerts(entry.explicit_risks@.take(k as int)),
        decreases entry.explicit_risks@.len() - k,
    {
        let a = make_alert("warning", "catalog_note", entry.explicit_risks[k].clone(), false);
        let ghost before = alerts@;
        alerts.push(a);
        assert(risk_alerts(entry.explicit_risks@.take(k + 1)) =~= risk_alerts(entry.explicit_risks@.take(k as int)).push(a@));
        assert(alerts_view(alerts@) =~= alerts_view(before).push(a@));
        k += 1;
    }
    assert(entry.explicit_risks@.take(k as int) =~= entry.explicit_risks@);
    alerts
}

} // verus!
