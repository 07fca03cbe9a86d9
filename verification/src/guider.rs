//! Catalog guidance: merge compatibility verdicts and training recipes.
use vstd::prelude::*;
use crate::merge_config::{MergeMethod, Verdict};
use crate::text::{
    alphanumeric, chars_of, decimal, is_alphanumeric, matches_at, occurs_at,
    push_char, push_decimal, push_str, str_eq, string_of, unicode_lower, unicode_lower_chars,
};

verus! {

#[derive(Debug, Clone, PartialEq, Eq)]
pub struct ModelCatalogEntry {
    pub model_id: String,
    pub name: String,
    pub param_count: u64,
    pub architecture: String,
    pub dtype: String,
    pub moe_active_params: Option<u64>,
    pub license: String,
    pub default_target_modules: Vec<String>,
    pub tokenizer_id: String,
    pub use_case_tags: Vec<String>,
    pub benchmark_hint: String,
    /// Packaging format (`gguf`, `mlx`, `safetensors`); empty when it is inferred from the id.
    pub format: String,
    pub downloadable: bool,
    /// Workflows the entry supports (for example `finetune`); empty when inferred.
    pub workflows: Vec<String>,
    pub gated: bool,
    /// Catalog notes shown as warnings.
    pub explicit_risks: Vec<String>,
}

#[derive(Debug, Clone, PartialEq, Eq)]
pub struct HardwareCapabilities {
    /// "cuda" | "mps" | "cpu" | "rocm"
    pub accelerator: String,
    pub total_vram_mb: u64,
    pub total_ram_mb: u64,
}

#[derive(Debug, Clone, PartialEq, Eq)]
pub struct TrainRecipe {
    pub model_id: String,
    pub adapter_type: String,
    pub quant_bits: Option<u32>,
    /// "A" | "B" | "C"
    pub quality_tier: String,
    pub estimated_vram_mb: u64,
    pub estimated_step_time_ms: u64,
    pub reason: String,
}

#[derive(Debug, Clone, PartialEq, Eq)]
pub struct Compatibility {
    pub verdict: Verdict,
    pub reason: String,
}

/// Memory estimates (MiB) for training one catalog model.
#[derive(Debug, Clone, Copy, PartialEq, Eq)]
pub struct VramEstimate {
    pub qlora_mb: u64,
    pub lora_mb: u64,
}

pub struct Guider {
    catalog: Vec<ModelCatalogEntry>,
}

/// Specialization markers that indicate a continued-pretrained lineage
/// (not a fine-tune). Task-vector merges across lineages produce
/// numerically valid but semantically destroyed models.
pub open spec fn lineage_markers() -> Seq<Seq<char>> {
    seq!["coder"@, "code"@, "math"@, "vl"@, "vision"@, "audio"@, "omni"@, "moe"@]
}

/// The part of a model reference after its last `/`.
pub open spec fn last_segment(s: Seq<char>) -> Seq<char>
    decreases s.len(),
{
    if s.len() == 0 {
        s
    } else if s.last() == '/' {
        Seq::empty()
    } else {
        last_segment(s.drop_last()).push(s.last())
    }
}

/// `m` is one of the maximal alphanumeric runs of `s`, starting at `i`.
pub open spec fn token_at(s: Seq<char>, m: Seq<char>, i: int) -> bool {
    &&& occurs_at(s, m, i)
    &&& forall|k: int| i <= k < i + m.len() ==> alphanumeric(#[trigger] s[k])
    &&& i == 0 || !alphanumeric(s[i - 1])
    &&& i + m.len() == s.len() || !alphanumeric(s[i + m.len()])
}

/// `m` is a non-empty token of `s` when `s` is split at non-alphanumeric characters.
pub open spec fn has_token(s: Seq<char>, m: Seq<char>) -> bool {
    m.len() > 0 && exists|i: int| token_at(s, m, i)
}

/// The markers (in marker order) that occur as tokens of `lowered`.
pub open spec fn markers_in(markers: Seq<Seq<char>>, lowered: Seq<char>) -> Seq<Seq<char>>
    decreases markers.len(),
{
    if markers.len() == 0 {
        Seq::empty()
    } else {
        let rest = markers_in(markers.drop_last(), lowered);
        if has_token(lowered, markers.last()) {
            rest.push(markers.last())
        } else {
            rest
        }
    }
}

/// The lineage markers of a model reference.
pub open spec fn spec_lineage_markers_of(model_ref: Seq<char>) -> Seq<Seq<char>> {
    markers_in(lineage_markers(), unicode_lower(last_segment(model_ref)))
}

pub open spec fn strs_view(v: Seq<&'static str>) -> Seq<Seq<char>> {
    v.map_values(|s: &'static str| s@)
}

fn last_segment_of(s: &str) -> (out: String)
    ensures
        out@ == last_segment(s@),
{
    let cs = chars_of(s);
    let mut start: usize = 0;
    let mut i: usize = 0;
    while i < cs.len()
        invariant
            i <= cs.len(),
            cs@ == s@,
            start <= i,
            last_segment(cs@.take(i as int)) == cs@.subrange(start as int, i as int),
        decreases cs.len() - i,
    {
        assert(cs@.take(i + 1).drop_last() =~= cs@.take(i as int));
        if cs[i] == '/' {
            start = i + 1;
            assert(cs@.subrange(start as int, i + 1) =~= Seq::<char>::empty());
        } else {
            assert(cs@.subrange(start as int, i + 1) =~= cs@.subrange(start as int, i as int).push(cs@[i as int]));
        }
        i += 1;
    }
    assert(cs@.take(cs.len() as int) =~= cs@);
    let mut out = String::new();
    let mut k: usize = start;
    while k < cs.len()
        invariant
            start <= k <= cs.len(),
            out@ == cs@.subrange(start as int, k as int),
        decreases cs.len() - k,
    {
        let c = cs[k];
        let ghost before = out@;
        push_char(&mut out, c);
        assert(out@ =~= cs@.subrange(start as int, k + 1));
        k += 1;
    }
    out
}

/// Whether `m` is a token of `s` starting at `i`.
#[verifier::loop_isolation(false)]
fn token_at_exec(s: &Vec<char>, alnum: &Vec<bool>, m: &Vec<char>, i: usize) -> (b: bool)
    requires
        alnum@.len() == s@.len(),
        forall|k: int| 0 <= k < s@.len() ==> alnum@[k] == alphanumeric(#[trigger] s@[k]),
    ensures
        b == token_at(s@, m@, i as int),
{
    if !matches_at(s, m, i) {
        return false;
    }
    assert(occurs_at(s@, m@, i as int));
    let sl = s.len();
    assert(i + m@.len() <= sl);
    let end = i + m.len();
    let mut k: usize = i;
    while k < end
        invariant
            i <= k <= end,
            end == i + m@.len(),
            end <= s@.len(),
            forall|j: int| i <= j < k ==> alphanumeric(#[trigger] s@[j]),
        decreases end - k,
    {
        if !alnum[k] {
            assert(!alphanumeric(s@[k as int]));
            return false;
        }
        k += 1;
    }
    (i == 0 || !alnum[i - 1]) && (end == s.len() || !alnum[end])
}

#[verifier::loop_isolation(false)]
fn has_token_exec(s: &Vec<char>, alnum: &Vec<bool>, m: &Vec<char>) -> (b: bool)
    requires
        alnum@.len() == s@.len(),
        forall|k: int| 0 <= k < s@.len() ==> alnum@[k] == alphanumeric(#[trigger] s@[k]),
    ensures
        b == has_token(s@, m@),
{
    if m.len() == 0 || m.len() > s.len() {
        return false;
    }
    let mut i: usize = 0;
    while i <= s.len() - m.len()
        invariant
            i <= s@.len(),
            0 < m@.len() <= s@.len(),
            forall|k: int| 0 <= k < i ==> !token_at(s@, m@, k),
        decreases s@.len() - i,
    {
        if token_at_exec(s, alnum, m, i) {
            return true;
        }
        i += 1;
    }
    assert forall|k: int| !token_at(s@, m@, k) by {
        if k >= i {
            assert(!occurs_at(s@, m@, k));
        }
    }
    false
}

fn marker_literal(k: usize) -> (m: &'static str)
    requires
        k < 8,
    ensures
        m@ == lineage_markers()[k as int],
{
    if k == 0 { "coder" } else if k == 1 { "code" } else if k == 2 { "math" } else if k == 3 { "vl" }
    else if k == 4 { "vision" } else if k == 5 { "audio" } else if k == 6 { "omni" } else { "moe" }
}

#[verifier::loop_isolation(false)]
pub fn lineage_markers_of(model_ref: &str) -> (r: Vec<&'static str>)
    ensures
        strs_view(r@) == spec_lineage_markers_of(model_ref@),
{
    let seg = last_segment_of(model_ref);
    let lowered = unicode_lower_chars(seg.as_str());
    let mut alnum: Vec<bool> = Vec::new();
    let mut j: usize = 0;
    while j < lowered.len()
        invariant
            j <= lowered@.len(),
            alnum@.len() == j,
            forall|k: int| 0 <= k < j ==> alnum@[k] == alphanumeric(#[trigger] lowered@[k]),
        decreases lowered@.len() - j,
    {
        alnum.push(is_alphanumeric(lowered[j]));
        j += 1;
    }
    let mut out: Vec<&'static str> = Vec::new();
    let mut k: usize = 0;
    while k < 8
        invariant
            k <= 8,
            alnum@.len() == lowered@.len(),
            forall|q: int| 0 <= q < lowered@.len() ==> alnum@[q] == alphanumeric(#[trigger] lowered@[q]),
            lowered@ == unicode_lower(last_segment(model_ref@)),
            strs_view(out@) == markers_in(lineage_markers().take(k as int), lowered@),
        decreases 8 - k,
    {
        let m = marker_literal(k);
        let mv = chars_of(m);
        assert(lineage_markers().take(k + 1).drop_last() =~= lineage_markers().take(k as int));
        if has_token_exec(&lowered, &alnum, &mv) {
            let ghost before = out@;
            out.push(m);
            assert(strs_view(out@) =~= strs_view(before).push(m@));
        }
        k += 1;
    }
    assert(lineage_markers().take(8) =~= lineage_markers());
    out
}


pub open spec fn entry_named(catalog: Seq<ModelCatalogEntry>, model_ref: Seq<char>) -> Option<ModelCatalogEntry>
    decreases catalog.len(),
{
    if catalog.len() == 0 {
        None
    } else if catalog[0].model_id@ == model_ref {
        Some(catalog[0])
    } else {
        entry_named(catalog.drop_first(), model_ref)
    }
}

/// Every reference resolves in the catalog.
pub open spec fn all_resolved(catalog: Seq<ModelCatalogEntry>, refs: Seq<String>) -> bool {
    forall|i: int| 0 <= i < refs.len() ==> entry_named(catalog, (#[trigger] refs[i])@) is Some
}

/// The first reference that does not resolve.
pub open spec fn first_unresolved(catalog: Seq<ModelCatalogEntry>, refs: Seq<String>, i: int) -> bool {
    &&& 0 <= i < refs.len()
    &&& entry_named(catalog, refs[i]@) is None
    &&& forall|k: int| 0 <= k < i ==> entry_named(catalog, (#[trigger] refs[k])@) is Some
}

/// Two resolved references name models with different architectures.
pub open spec fn architectures_differ(catalog: Seq<ModelCatalogEntry>, refs: Seq<String>) -> bool {
    exists|i: int, j: int|
        0 <= i < refs.len() && 0 <= j < refs.len()
            && (#[trigger] entry_named(catalog, refs[i]@)).unwrap().architecture@
            != (#[trigger] entry_named(catalog, refs[j]@)).unwrap().architecture@
}

pub open spec fn tokenizers_differ(catalog: Seq<ModelCatalogEntry>, refs: Seq<String>) -> bool {
    exists|i: int, j: int|
        0 <= i < refs.len() && 0 <= j < refs.len()
            && (#[trigger] entry_named(catalog, refs[i]@)).unwrap().tokenizer_id@
            != (#[trigger] entry_named(catalog, refs[j]@)).unwrap().tokenizer_id@
}

/// The architectures of the resolved references, in reference order.
pub open spec fn resolved_architectures(catalog: Seq<ModelCatalogEntry>, refs: Seq<String>) -> Seq<Seq<char>> {
    refs.map_values(|r: String| entry_named(catalog, r@).unwrap().architecture@)
}

/// The distinct architectures of the resolved references in first-seen
/// order, written as a set is debug-printed: `{"a", "b"}`.
pub open spec fn architecture_set_text(catalog: Seq<ModelCatalogEntry>, refs: Seq<String>) -> Seq<char> {
    "{"@ + quoted_items(first_seen(resolved_architectures(catalog, refs))) + "}"@
}

/// What `merge_check` answers, branch by branch.
pub open spec fn merge_check_post(
    catalog: Seq<ModelCatalogEntry>,
    refs: Seq<String>,
    method: MergeMethod,
    r: Compatibility,
) -> bool {
    if refs.len() == 0 {
        r.verdict == Verdict::Red && r.reason@ == "No models selected for merge"@
    } else if refs.len() > 3 {
        r.verdict == Verdict::Red && r.reason@ == "Model count "@ + decimal(refs.len())
            + " exceeds the product limit of 3"@
    } else if method == MergeMethod::Slerp && refs.len() > 2 {
        r.verdict == Verdict::Red && r.reason@ == "SLERP method supports at most 2 models"@
    } else if !all_resolved(catalog, refs) {
        r.verdict == Verdict::Amber && exists|i: int| first_unresolved(catalog, refs, i)
            && r.reason@ == "Model '"@ + refs[i]@
            + "' not found in pinned catalog. Merge safety cannot be guaranteed."@
    } else if architectures_differ(catalog, refs) {
        if method.spec_allows_cross_architecture() {
            r.verdict == Verdict::Amber && r.reason@ == "Cross-architecture merge ("@ + architecture_set_text(catalog, refs)
                + ") is experimental and requires healing afterwards."@
        } else {
            r.verdict == Verdict::Red && r.reason@ == "Merge method "@ + method.spec_debug_name()
                + " does not support merging different architectures: "@ + architecture_set_text(catalog, refs)
        }
    } else if tokenizers_differ(catalog, refs) {
        r.verdict == Verdict::Amber && r.reason@
            == "Tokenizers differ. A union tokenizer or token transplantation (tokensurgeon) will be required."@
    } else {
        r.verdict == Verdict::Green && r.reason@
            == "All models are architectural siblings and share identical tokenizers."@
    }
}

/// The first reference whose lineage markers differ from the base's.
pub open spec fn first_lineage_mismatch(base: Seq<char>, refs: Seq<String>, i: int) -> bool {
    &&& 0 <= i < refs.len()
    &&& spec_lineage_markers_of(refs[i]@) != spec_lineage_markers_of(base)
    &&& forall|k: int| 0 <= k < i ==> spec_lineage_markers_of((#[trigger] refs[k])@)
        == spec_lineage_markers_of(base)
}

/// A task-vector merge with a known base where some model's lineage differs.
pub open spec fn lineage_blocks(method: MergeMethod, base_model: Option<&str>, refs: Seq<String>) -> bool {
    &&& method.spec_is_task_vector()
    &&& base_model is Some
    &&& exists|i: int| first_lineage_mismatch(base_model.unwrap()@, refs, i)
}

pub open spec fn lineage_reason(model_ref: Seq<char>, base: Seq<char>, method: MergeMethod) -> Seq<char> {
    "'"@ + model_ref + "' looks like a different lineage than base '"@ + base
        + "' (specialization markers differ). Task-vector methods ("@ + method.spec_debug_name()
        + ") require true fine-tunes of the base — merging across lineages produces a broken model. Use slerp to interpolate related models directly instead."@
}

/// The recipes offered for one model.
pub open spec fn recipes_for(
    entry: ModelCatalogEntry,
    est: VramEstimate,
    hw: HardwareCapabilities,
) -> Seq<RecipeKind> {
    let qlora = if est.qlora_mb < hw.total_vram_mb {
        seq![RecipeKind::Qlora]
    } else {
        Seq::empty()
    };
    let lora = if est.lora_mb < hw.total_vram_mb {
        seq![RecipeKind::Lora]
    } else if est.lora_mb < hw.total_vram_mb + hw.total_ram_mb / 2 {
        seq![RecipeKind::LoraOffload]
    } else {
        Seq::empty()
    };
    qlora + lora
}

/// The three recipe shapes `recommend` produces.
pub enum RecipeKind {
    Qlora,
    Lora,
    LoraOffload,
}

/// The recipe of `kind` for `entry`.
pub open spec fn recipe_matches(r: TrainRecipe, kind: RecipeKind, entry: ModelCatalogEntry, est: VramEstimate) -> bool {
    &&& r.model_id@ == entry.model_id@
    &&& match kind {
        RecipeKind::Qlora => {
            &&& r.adapter_type@ == "qlora"@
            &&& r.quant_bits == Some(4u32)
            &&& r.quality_tier@ == "A"@
            &&& r.estimated_vram_mb == est.qlora_mb
            &&& r.estimated_step_time_ms == 120
            &&& r.reason@ == "Fits comfortably in VRAM using 4-bit quantization."@
        },
        RecipeKind::Lora => {
            &&& r.adapter_type@ == "lora"@
            &&& r.quant_bits is None
            &&& r.quality_tier@ == "A"@
            &&& r.estimated_vram_mb == est.lora_mb
            &&& r.estimated_step_time_ms == 180
            &&& r.reason@ == "Full 16-bit precision weights with low-rank adapter."@
        },
        RecipeKind::LoraOffload => {
            &&& r.adapter_type@ == "lora"@
            &&& r.quant_bits is None
            &&& r.quality_tier@ == "B"@
            &&& r.estimated_vram_mb == est.lora_mb
            &&& r.estimated_step_time_ms == 850
            &&& r.reason@ == "Requires optimizer CPU offloading, which slows step times."@
        },
    }
}

/// All (model index, recipe kind) pairs, in catalog order.
pub open spec fn recipe_plan(
    catalog: Seq<ModelCatalogEntry>,
    ests: Seq<VramEstimate>,
    hw: HardwareCapabilities,
) -> Seq<(int, RecipeKind)>
    decreases catalog.len(),
{
    if catalog.len() == 0 {
        Seq::empty()
    } else {
        let n = catalog.len() - 1;
        recipe_plan(catalog.drop_last(), ests, hw) + recipes_for(catalog.last(), ests[n], hw).map_values(
            |k: RecipeKind| (n, k),
        )
    }
}

/// The offloaded LoRA (tier B) is offered exactly to a model whose LoRA
/// estimate does not fit in VRAM but stays below VRAM plus half the RAM;
/// it is then the model's last recipe, after QLoRA when QLoRA fits.
pub proof fn law_offload_offered_below_vram_plus_half_ram(
    entry: ModelCatalogEntry,
    est: VramEstimate,
    hw: HardwareCapabilities,
)
    ensures
        recipes_for(entry, est, hw).contains(RecipeKind::LoraOffload) <==> (hw.total_vram_mb <= est.lora_mb
            && est.lora_mb < hw.total_vram_mb + hw.total_ram_mb / 2),
        hw.total_vram_mb <= est.lora_mb && est.lora_mb < hw.total_vram_mb + hw.total_ram_mb / 2 ==> {
            &&& recipes_for(entry, est, hw).len() > 0
            &&& recipes_for(entry, est, hw).last() == RecipeKind::LoraOffload
            &&& (recipes_for(entry, est, hw)[0] == RecipeKind::Qlora <==> est.qlora_mb < hw.total_vram_mb)
        },
{
    let r = recipes_for(entry, est, hw);
    if hw.total_vram_mb <= est.lora_mb && est.lora_mb < hw.total_vram_mb + hw.total_ram_mb / 2 {
        assert(r[r.len() - 1] == RecipeKind::LoraOffload);
    } else {
        assert forall|k: int| 0 <= k < r.len() implies r[k] != RecipeKind::LoraOffload by {}
    }
}

/// More hardware never takes a recipe away from a model: with at least as
/// much VRAM and RAM, a model is offered at least as many recipes, QLoRA and
/// in-VRAM LoRA stay offered, and an offloaded LoRA becomes a LoRA or stays.
pub proof fn law_recipes_for_monotone_in_hardware(
    entry: ModelCatalogEntry,
    est: VramEstimate,
    hw: HardwareCapabilities,
    more: HardwareCapabilities,
)
    requires
        hw.total_vram_mb <= more.total_vram_mb,
        hw.total_ram_mb <= more.total_ram_mb,
    ensures
        recipes_for(entry, est, hw).len() <= recipes_for(entry, est, more).len(),
        recipes_for(entry, est, hw).len() > 0 && recipes_for(entry, est, hw)[0] == RecipeKind::Qlora
            ==> recipes_for(entry, est, more)[0] == RecipeKind::Qlora,
        recipes_for(entry, est, hw).last() == RecipeKind::Lora && recipes_for(entry, est, hw).len() > 0
            ==> recipes_for(entry, est, more).last() == RecipeKind::Lora,
{
}

/// More hardware never shrinks the plan: over a whole catalog, at least as
/// much VRAM and RAM yields at least as many recipes.
pub proof fn law_recipe_plan_monotone_in_hardware(
    catalog: Seq<ModelCatalogEntry>,
    ests: Seq<VramEstimate>,
    hw: HardwareCapabilities,
    more: HardwareCapabilities,
)
    requires
        hw.total_vram_mb <= more.total_vram_mb,
        hw.total_ram_mb <= more.total_ram_mb,
    ensures
        recipe_plan(catalog, ests, hw).len() <= recipe_plan(catalog, ests, more).len(),
    decreases catalog.len(),
{
    if catalog.len() > 0 {
        let n = catalog.len() - 1;
        law_recipe_plan_monotone_in_hardware(catalog.drop_last(), ests, hw, more);
        law_recipes_for_monotone_in_hardware(catalog.last(), ests[n], hw, more);
    }
}

/// The adapter type of a recipe shape.
pub open spec fn recipe_adapter(k: RecipeKind) -> Seq<char> {
    match k {
        RecipeKind::Qlora => "qlora"@,
        _ => "lora"@,
    }
}

/// `plan` offers model `model` a recipe of adapter type `adapter`.
pub open spec fn plan_offers(plan: Seq<(int, RecipeKind)>, model: int, adapter: Seq<char>) -> bool {
    exists|j: int| 0 <= j < plan.len() && (#[trigger] plan[j]).0 == model && recipe_adapter(plan[j].1) == adapter
}

/// More hardware keeps every offer: each (model, adapter type) pair
/// recommended with `hw` is also recommended with at least as much VRAM and
/// RAM.
pub proof fn law_recipe_offers_survive_more_hardware(
    catalog: Seq<ModelCatalogEntry>,
    ests: Seq<VramEstimate>,
    hw: HardwareCapabilities,
    more: HardwareCapabilities,
)
    requires
        hw.total_vram_mb <= more.total_vram_mb,
        hw.total_ram_mb <= more.total_ram_mb,
    ensures
        forall|k: int| 0 <= k < recipe_plan(catalog, ests, hw).len() ==> plan_offers(
            recipe_plan(catalog, ests, more),
            (#[trigger] recipe_plan(catalog, ests, hw)[k]).0,
            recipe_adapter(recipe_plan(catalog, ests, hw)[k].1),
        ),
    decreases catalog.len(),
{
    if catalog.len() > 0 {
        let n = catalog.len() - 1;
        let c0 = catalog.drop_last();
        law_recipe_offers_survive_more_hardware(c0, ests, hw, more);
        let p_hw = recipe_plan(catalog, ests, hw);
        let p_more = recipe_plan(catalog, ests, more);
        let front_hw = recipe_plan(c0, ests, hw);
        let front_more = recipe_plan(c0, ests, more);
        let last_hw = recipes_for(catalog.last(), ests[n], hw).map_values(|k: RecipeKind| (n, k));
        let last_more = recipes_for(catalog.last(), ests[n], more).map_values(|k: RecipeKind| (n, k));
        assert(p_hw == front_hw + last_hw);
        assert(p_more == front_more + last_more);
        assert forall|k: int| 0 <= k < p_hw.len() implies plan_offers(p_more, (#[trigger] p_hw[k]).0,
            recipe_adapter(p_hw[k].1)) by {
            if k < front_hw.len() {
                assert(p_hw[k] == front_hw[k]);
                assert(plan_offers(front_more, front_hw[k].0, recipe_adapter(front_hw[k].1)));
                let j = choose|j: int| 0 <= j < front_more.len() && (#[trigger] front_more[j]).0 == front_hw[k].0
                    && recipe_adapter(front_more[j].1) == recipe_adapter(front_hw[k].1);
                assert(p_more[j] == front_more[j]);
            } else {
                let q = k - front_hw.len();
                assert(p_hw[k] == last_hw[q]);
                let kinds = recipes_for(catalog.last(), ests[n], more);
                let est = ests[n];
                let qlora_more = est.qlora_mb < more.total_vram_mb;
                let j0: int = front_more.len() as int;
                if recipe_adapter(last_hw[q].1) == "qlora"@ {
                    assert(last_hw[q].1 == RecipeKind::Qlora) by {
                        reveal_strlit("qlora");
                        reveal_strlit("lora");
                        assert("qlora"@.len() == 5 && "lora"@.len() == 4);
                        assert("qlora"@ != "lora"@);
                    }
                    assert(kinds[0] == RecipeKind::Qlora);
                    assert(p_more[j0] == last_more[0]);
                } else {
                    let off = if qlora_more { 1int } else { 0int };
                    assert(kinds[off] == RecipeKind::Lora || kinds[off] == RecipeKind::LoraOffload);
                    assert(p_more[j0 + off] == last_more[off]);
                    assert(recipe_adapter(kinds[off]) == "lora"@);
                    assert(recipe_adapter(last_hw[q].1) == "lora"@);
                }
            }
        }
    }
}

/// A tier-A recipe fits in VRAM: a QLoRA or in-VRAM LoRA recipe is planned
/// only when its estimate is below the VRAM size.
pub proof fn law_tier_a_recipes_fit_vram(
    catalog: Seq<ModelCatalogEntry>,
    ests: Seq<VramEstimate>,
    hw: HardwareCapabilities,
)
    ensures
        forall|k: int| 0 <= k < recipe_plan(catalog, ests, hw).len() ==> {
            let (i, kind) = #[trigger] recipe_plan(catalog, ests, hw)[k];
            &&& kind == RecipeKind::Qlora ==> ests[i].qlora_mb < hw.total_vram_mb
            &&& kind == RecipeKind::Lora ==> ests[i].lora_mb < hw.total_vram_mb
        },
    decreases catalog.len(),
{
    if catalog.len() > 0 {
        let n = catalog.len() - 1;
        let c0 = catalog.drop_last();
        law_tier_a_recipes_fit_vram(c0, ests, hw);
        let p = recipe_plan(catalog, ests, hw);
        let front = recipe_plan(c0, ests, hw);
        let last = recipes_for(catalog.last(), ests[n], hw).map_values(|k: RecipeKind| (n, k));
        assert(p == front + last);
        assert forall|k: int| 0 <= k < p.len() implies {
            let (i, kind) = #[trigger] p[k];
            &&& kind == RecipeKind::Qlora ==> ests[i].qlora_mb < hw.total_vram_mb
            &&& kind == RecipeKind::Lora ==> ests[i].lora_mb < hw.total_vram_mb
        } by {
            if k < front.len() {
                assert(p[k] == front[k]);
            } else {
                assert(p[k] == last[k - front.len()]);
            }
        }
    }
}

/// `recommend` never adds VRAM and half the RAM past `u64::MAX`.
pub open spec fn offload_sum_fits(
    catalog: Seq<ModelCatalogEntry>,
    ests: Seq<VramEstimate>,
    hw: HardwareCapabilities,
) -> bool {
    forall|i: int|
        0 <= i < catalog.len() && (#[trigger] ests[i]).lora_mb >= hw.total_vram_mb
            ==> hw.total_vram_mb + hw.total_ram_mb / 2 <= u64::MAX
}

impl Guider {
    pub closed spec fn spec_catalog(&self) -> Seq<ModelCatalogEntry> {
        self.catalog@
    }

    /// A guider over an empty catalog.
    pub fn new() -> (g: Self)
        ensures
            g.spec_catalog().len() == 0,
    {
        Guider { catalog: Vec::new() }
    }

    /// A guider over the given pinned catalog.
    pub fn with_catalog(catalog: Vec<ModelCatalogEntry>) -> (g: Self)
        ensures
            g.spec_catalog() == catalog@,
    {
        Guider { catalog }
    }

    pub fn catalog(&self) -> (c: &[ModelCatalogEntry])
        ensures
            c@ == self.spec_catalog(),
    {
        self.catalog.as_slice()
    }

    /// The first catalog entry whose id is `model_ref`.
    pub fn resolve_model(&self, model_ref: &str) -> (r: Option<&ModelCatalogEntry>)
        ensures
            r matches Some(e) ==> entry_named(self.spec_catalog(), model_ref@) == Some(*e),
            r is None ==> entry_named(self.spec_catalog(), model_ref@) is None,
    {
        let mut i: usize = 0;
        assert(self.catalog@.skip(0) =~= self.catalog@);
        while i < self.catalog.len()
            invariant
                i <= self.catalog@.len(),
                entry_named(self.catalog@, model_ref@) == entry_named(self.catalog@.skip(i as int), model_ref@),
            decreases self.catalog@.len() - i,
        {
            assert(self.catalog@.skip(i as int).drop_first() =~= self.catalog@.skip(i + 1));
            if str_eq(self.catalog[i].model_id.as_str(), model_ref) {
                return Some(&self.catalog[i]);
            }
            i += 1;
        }
        None
    }

    /// Checks the compatibility of multiple models for merging.
    #[verifier::loop_isolation(false)]
    pub fn merge_check(&self, model_refs: &[String], method: MergeMethod) -> (r: Compatibility)
        ensures
            merge_check_post(self.spec_catalog(), model_refs@, method, r),
    {
        if model_refs.len() == 0 {
            return Compatibility { verdict: Verdict::Red, reason: string_of("No models selected for merge") };
        }
        if model_refs.len() > 3 {
            let mut m = string_of("Model count ");
            push_decimal(&mut m, model_refs.len() as u64);
            push_str(&mut m, " exceeds the product limit of 3");
            return Compatibility { verdict: Verdict::Red, reason: m };
        }
        if method == MergeMethod::Slerp && model_refs.len() > 2 {
            return Compatibility { verdict: Verdict::Red, reason: string_of("SLERP method supports at most 2 models") };
        }
        let mut resolved: Vec<&ModelCatalogEntry> = Vec::new();
        let mut i: usize = 0;
        while i < model_refs.len()
            invariant
                i <= model_refs@.len(),
                resolved@.len() == i,
                forall|k: int| 0 <= k < i ==> entry_named(self.spec_catalog(), (#[trigger] model_refs@[k])@) == Some(*resolved@[k]),
            decreases model_refs@.len() - i,
        {
            match self.resolve_model(model_refs[i].as_str()) {
                Some(entry) => resolved.push(entry),
                None => {
                    let mut m = string_of("Model '");
                    push_str(&mut m, model_refs[i].as_str());
                    push_str(&mut m, "' not found in pinned catalog. Merge safety cannot be guaranteed.");
                    proof {
                        assert(first_unresolved(self.spec_catalog(), model_refs@, i as int));
                        assert(!all_resolved(self.spec_catalog(), model_refs@));
                    }
                    return Compatibility { verdict: Verdict::Amber, reason: m };
                },
            }
            i += 1;
        }
        let mut k: usize = 1;
        let mut arch_differ = false;
        let mut tok_differ = false;
        while k < resolved.len()
            invariant
                1 <= k <= resolved@.len() || resolved@.len() == 0,
                resolved@.len() == model_refs@.len(),
                resolved@.len() > 0,
                arch_differ == exists|a: int| 1 <= a < k && (#[trigger] resolved@[a]).architecture@ != resolved@[0].architecture@,
                tok_differ == exists|a: int| 1 <= a < k && (#[trigger] resolved@[a]).tokenizer_id@ != resolved@[0].tokenizer_id@,
            decreases resolved@.len() - k,
        {
            if !str_eq(resolved[k].architecture.as_str(), resolved[0].architecture.as_str()) {
                arch_differ = true;
            }
            if !str_eq(resolved[k].tokenizer_id.as_str(), resolved[0].tokenizer_id.as_str()) {
                tok_differ = true;
            }
            k += 1;
        }
        proof {
            assert(all_resolved(self.spec_catalog(), model_refs@));
            assert(arch_differ == architectures_differ(self.spec_catalog(), model_refs@)) by {
                if architectures_differ(self.spec_catalog(), model_refs@) {
                    let (a, b) = choose|a: int, b: int| 0 <= a < model_refs@.len() && 0 <= b < model_refs@.len()
                        && (#[trigger] entry_named(self.spec_catalog(), model_refs@[a]@)).unwrap().architecture@
                        != (#[trigger] entry_named(self.spec_catalog(), model_refs@[b]@)).unwrap().architecture@;
                    assert(entry_named(self.spec_catalog(), model_refs@[a]@) == Some(*resolved@[a]));
                    assert(entry_named(self.spec_catalog(), model_refs@[b]@) == Some(*resolved@[b]));
                    if resolved@[a].architecture@ == resolved@[0].architecture@ {
                        assert(resolved@[b].architecture@ != resolved@[0].architecture@);
                    }
                }
                if arch_differ {
                    let a = choose|a: int| 1 <= a < k && (#[trigger] resolved@[a]).architecture@ != resolved@[0].architecture@;
                    assert(entry_named(self.spec_catalog(), model_refs@[a]@) == Some(*resolved@[a]));
                    assert(entry_named(self.spec_catalog(), model_refs@[0]@) == Some(*resolved@[0]));
                }
            }
            assert(tok_differ == tokenizers_differ(self.spec_catalog(), model_refs@)) by {
                if tokenizers_differ(self.spec_catalog(), model_refs@) {
                    let (a, b) = choose|a: int, b: int| 0 <= a < model_refs@.len() && 0 <= b < model_refs@.len()
                        && (#[trigger] entry_named(self.spec_catalog(), model_refs@[a]@)).unwrap().tokenizer_id@
                        != (#[trigger] entry_named(self.spec_catalog(), model_refs@[b]@)).unwrap().tokenizer_id@;
                    assert(entry_named(self.spec_catalog(), model_refs@[a]@) == Some(*resolved@[a]));
                    assert(entry_named(self.spec_catalog(), model_refs@[b]@) == Some(*resolved@[b]));
                    if resolved@[a].tokenizer_id@ == resolved@[0].tokenizer_id@ {
                        assert(resolved@[b].tokenizer_id@ != resolved@[0].tokenizer_id@);
                    }
                }
                if tok_differ {
                    let a = choose|a: int| 1 <= a < k && (#[trigger] resolved@[a]).tokenizer_id@ != resolved@[0].tokenizer_id@;
                    assert(entry_named(self.spec_catalog(), model_refs@[a]@) == Some(*resolved@[a]));
                    assert(entry_named(self.spec_catalog(), model_refs@[0]@) == Some(*resolved@[0]));
                }
            }
        }
        if arch_differ {
            let names = distinct_architectures(&resolved);
            proof {
                assert(architectures(resolved@) =~= resolved_architectures(self.spec_catalog(), model_refs@)) by {
                    assert forall|q: int| 0 <= q < resolved@.len() implies
                        architectures(resolved@)[q] == resolved_architectures(self.spec_catalog(), model_refs@)[q] by {
                        assert(entry_named(self.spec_catalog(), model_refs@[q]@) == Some(*resolved@[q]));
                    }
                }
            }
            if method.allows_cross_architecture() {
                let mut m = string_of("Cross-architecture merge (");
                push_str(&mut m, names.as_str());
                push_str(&mut m, ") is experimental and requires healing afterwards.");
                return Compatibility { verdict: Verdict::Amber, reason: m };
            } else {
                let mut m = string_of("Merge method ");
                push_str(&mut m, method.debug_name().as_str());
                push_str(&mut m, " does not support merging different architectures: ");
                push_str(&mut m, names.as_str());
                return Compatibility { verdict: Verdict::Red, reason: m };
            }
        }
        if tok_differ {
            return Compatibility {
                verdict: Verdict::Amber,
                reason: string_of("Tokenizers differ. A union tokenizer or token transplantation (tokensurgeon) will be required."),
            };
        }
        Compatibility {
            verdict: Verdict::Green,
            reason: string_of("All models are architectural siblings and share identical tokenizers."),
        }
    }

    /// `merge_check` plus a lineage heuristic for task-vector methods when
    /// the base model is known: a model whose name carries a specialization
    /// marker that the base lacks (or the reverse) is a different lineage.
    #[verifier::loop_isolation(false)]
    pub fn merge_check_with_base(
        &self,
        base_model: Option<&str>,
        model_refs: &[String],
        method: MergeMethod,
    ) -> (r: Compatibility)
        ensures
            lineage_blocks(method, base_model, model_refs@) ==> (r.verdict == Verdict::Amber
                && exists|i: int| first_lineage_mismatch(base_model.unwrap()@, model_refs@, i)
                && r.reason@ == lineage_reason(model_refs@[i]@, base_model.unwrap()@, method)),
            !lineage_blocks(method, base_model, model_refs@) ==> merge_check_post(
                self.spec_catalog(),
                model_refs@,
                method,
                r,
            ),
    {
        if method.is_task_vector() {
            if let Some(base) = base_model {
                let base_markers = lineage_markers_of(base);
                let mut i: usize = 0;
                while i < model_refs.len()
                    invariant
                        i <= model_refs@.len(),
                        strs_view(base_markers@) == spec_lineage_markers_of(base@),
                        forall|k: int| 0 <= k < i ==> spec_lineage_markers_of((#[trigger] model_refs@[k])@)
                            == spec_lineage_markers_of(base@),
                    decreases model_refs@.len() - i,
                {
                    let markers = lineage_markers_of(model_refs[i].as_str());
                    if !strs_eq(&markers, &base_markers) {
                        let mut m = string_of("'");
                        push_str(&mut m, model_refs[i].as_str());
                        push_str(&mut m, "' looks like a different lineage than base '");
                        push_str(&mut m, base);
                        push_str(&mut m, "' (specialization markers differ). Task-vector methods (");
                        push_str(&mut m, method.debug_name().as_str());
                        push_str(&mut m, ") require true fine-tunes of the base — merging across lineages produces a broken model. Use slerp to interpolate related models directly instead.");
                        proof {
                            assert(first_lineage_mismatch(base@, model_refs@, i as int));
                        }
                        return Compatibility { verdict: Verdict::Amber, reason: m };
                    }
                    i += 1;
                }
                proof {
                    assert forall|i: int| !first_lineage_mismatch(base@, model_refs@, i) by {}
                }
            }
        }
        self.merge_check(model_refs, method)
    }

    /// Recommends training recipes from each model's memory estimates.
    ///
    /// `estimates[i]` holds the QLoRA and LoRA memory estimates (MiB) of
    /// catalog entry `i`.
    pub fn recommend(&self, hw: &HardwareCapabilities, estimates: &Vec<VramEstimate>) -> (r: Vec<TrainRecipe>)
        requires
            estimates@.len() == self.spec_catalog().len(),
            offload_sum_fits(self.spec_catalog(), estimates@, *hw),
        ensures
            r@.len() == recipe_plan(self.spec_catalog(), estimates@, *hw).len(),
            forall|k: int| 0 <= k < r@.len() ==> {
                let (i, kind) = #[trigger] recipe_plan(self.spec_catalog(), estimates@, *hw)[k];
                recipe_matches(r@[k], kind, self.spec_catalog()[i], estimates@[i])
            },
            forall|k: int| 0 <= k < r@.len() && (#[trigger] r@[k]).quality_tier@ == "A"@
                ==> r@[k].estimated_vram_mb < hw.total_vram_mb,
    {
        let mut recipes: Vec<TrainRecipe> = Vec::new();
        let mut i: usize = 0;
        while i < self.catalog.len()
            invariant
                i <= self.catalog@.len(),
                estimates@.len() == self.catalog@.len(),
                offload_sum_fits(self.catalog@, estimates@, *hw),
                recipes@.len() == recipe_plan(self.catalog@.take(i as int), estimates@, *hw).len(),
                forall|k: int| 0 <= k < recipes@.len() ==> {
                    let (j, kind) = #[trigger] recipe_plan(self.catalog@.take(i as int), estimates@, *hw)[k];
                    recipe_matches(recipes@[k], kind, self.catalog@[j], estimates@[j])
                },
                forall|k: int| 0 <= k < recipe_plan(self.catalog@.take(i as int), estimates@, *hw).len()
                    ==> 0 <= (#[trigger] recipe_plan(self.catalog@.take(i as int), estimates@, *hw)[k]).0 < i,
            decreases self.catalog@.len() - i,
        {
            let model = &self.catalog[i];
            let est = estimates[i];
            let ghost before = recipes@;
            let ghost prev_plan = recipe_plan(self.catalog@.take(i as int), estimates@, *hw);
            assert(self.catalog@.take(i + 1).drop_last() =~= self.catalog@.take(i as int));
            assert(self.catalog@.take(i + 1).last() == self.catalog@[i as int]);
            let ghost added = recipes_for(*model, est, *hw).map_values(|k: RecipeKind| (i as int, k));
            assert(recipe_plan(self.catalog@.take(i + 1), estimates@, *hw) == prev_plan + added);
            if est.qlora_mb < hw.total_vram_mb {
                recipes.push(TrainRecipe {
                    model_id: model.model_id.clone(),
                    adapter_type: string_of("qlora"),
                    quant_bits: Some(4),
                    quality_tier: string_of("A"),
                    estimated_vram_mb: est.qlora_mb,
                    estimated_step_time_ms: 120,
                    reason: string_of("Fits comfortably in VRAM using 4-bit quantization."),
                });
            }
            if est.lora_mb < hw.total_vram_mb {
                recipes.push(TrainRecipe {
                    model_id: model.model_id.clone(),
                    adapter_type: string_of("lora"),
                    quant_bits: None,
                    quality_tier: string_of("A"),
                    estimated_vram_mb: est.lora_mb,
                    estimated_step_time_ms: 180,
                    reason: string_of("Full 16-bit precision weights with low-rank adapter."),
                });
            } else {
                assert(estimates@[i as int].lora_mb >= hw.total_vram_mb);
                if est.lora_mb < hw.total_vram_mb + hw.total_ram_mb / 2 {
                    recipes.push(TrainRecipe {
                        model_id: model.model_id.clone(),
                        adapter_type: string_of("lora"),
                        quant_bits: None,
                        quality_tier: string_of("B"),
                        estimated_vram_mb: est.lora_mb,
                        estimated_step_time_ms: 850,
                        reason: string_of("Requires optimizer CPU offloading, which slows step times."),
                    });
                }
            }
            proof {
                let plan = recipe_plan(self.catalog@.take(i + 1), estimates@, *hw);
                assert(recipes@.len() == plan.len());
                assert forall|k: int| 0 <= k < recipes@.len() implies {
                    let (j, kind) = #[trigger] plan[k];
                    recipe_matches(recipes@[k], kind, self.catalog@[j], estimates@[j])
                } by {
                    if k < before.len() {
                        assert(plan[k] == prev_plan[k]);
                        assert(recipes@[k] == before[k]);
                    } else {
                        assert(plan[k] == added[k - before.len()]);
                    }
                }
                assert forall|k: int| 0 <= k < plan.len() implies 0 <= (#[trigger] plan[k]).0 < i + 1 by {
                    if k < prev_plan.len() {
                        assert(plan[k] == prev_plan[k]);
                    } else {
                        assert(plan[k] == added[k - prev_plan.len()]);
                    }
                }
            }
            i += 1;
        }
        assert(self.catalog@.take(i as int) =~= self.catalog@);
        proof {
            law_tier_a_recipes_fit_vram(self.catalog@, estimates@, *hw);
            reveal_strlit("A");
            reveal_strlit("B");
            assert("A"@ != "B"@) by {
                assert("A"@[0] == 'A' && "B"@[0] == 'B');
            }
            let plan = recipe_plan(self.catalog@, estimates@, *hw);
            assert forall|k: int| 0 <= k < recipes@.len() && (#[trigger] recipes@[k]).quality_tier@ == "A"@
                implies recipes@[k].estimated_vram_mb < hw.total_vram_mb by {
                let (i, kind) = plan[k];
                assert(recipe_matches(recipes@[k], kind, self.catalog@[i], estimates@[i]));
            }
        }
        recipes
    }
}

/// Whether two marker lists are equal.
fn strs_eq(a: &Vec<&'static str>, b: &Vec<&'static str>) -> (r: bool)
    ensures
        r == (strs_view(a@) == strs_view(b@)),
{
    if a.len() != b.len() {
        assert(strs_view(a@).len() != strs_view(b@).len());
        return false;
    }
    let mut i: usize = 0;
    while i < a.len()
        invariant
            i <= a@.len(),
            a@.len() == b@.len(),
            forall|k: int| 0 <= k < i ==> a@[k]@ == b@[k]@,
        decreases a@.len() - i,
    {
        if !str_eq(a[i], b[i]) {
            assert(strs_view(a@)[i as int] != strs_view(b@)[i as int]);
            return false;
        }
        i += 1;
    }
    assert(strs_view(a@) =~= strs_view(b@));
    true
}

/// The distinct names of `s`, each where it first occurs.
pub open spec fn first_seen(s: Seq<Seq<char>>) -> Seq<Seq<char>>
    decreases s.len(),
{
    if s.len() == 0 {
        Seq::empty()
    } else {
        let d = first_seen(s.drop_last());
        if d.contains(s.last()) { d } else { d.push(s.last()) }
    }
}

/// Names in their debug form (quoted and escaped), separated by `", "`.
pub open spec fn quoted_items(s: Seq<Seq<char>>) -> Seq<char>
    decreases s.len(),
{
    if s.len() == 0 {
        Seq::empty()
    } else if s.len() == 1 {
        crate::fingerprint::debug_quoted(s[0])
    } else {
        quoted_items(s.drop_last()) + ", "@ + crate::fingerprint::debug_quoted(s.last())
    }
}

/// The architecture names of catalog entries.
pub open spec fn architectures(r: Seq<&ModelCatalogEntry>) -> Seq<Seq<char>> {
    r.map_values(|e: &ModelCatalogEntry| e.architecture@)
}

/// The distinct architectures of the resolved models in first-seen order,
/// written as a set is debug-printed: `{"a", "b"}`.
fn distinct_architectures(resolved: &Vec<&ModelCatalogEntry>) -> (m: String)
    ensures
        m@ == "{"@ + quoted_items(first_seen(architectures(resolved@))) + "}"@,
{
    let ghost archs = architectures(resolved@);
    let mut seen: Vec<&str> = Vec::new();
    let mut m = string_of("{");
    let mut i: usize = 0;
    assert(archs.take(0) =~= Seq::<Seq<char>>::empty());
    while i < resolved.len()
        invariant
            i <= resolved@.len(),
            archs == architectures(resolved@),
            seen@.map_values(|x: &str| x@) == first_seen(archs.take(i as int)),
            m@ == "{"@ + quoted_items(seen@.map_values(|x: &str| x@)),
        decreases resolved@.len() - i,
    {
        let arch = resolved[i].architecture.as_str();
        let ghost sv = seen@.map_values(|x: &str| x@);
        let mut dup = false;
        let mut j: usize = 0;
        while j < seen.len()
            invariant
                j <= seen@.len(),
                sv == seen@.map_values(|x: &str| x@),
                dup <==> exists|k: int| 0 <= k < j && sv[k] == arch@,
            decreases seen@.len() - j,
        {
            assert(sv[j as int] == seen@[j as int]@);
            if str_eq(seen[j], arch) {
                dup = true;
            }
            assert(dup <==> exists|k: int| 0 <= k < j + 1 && sv[k] == arch@) by {
                if exists|k: int| 0 <= k < j + 1 && sv[k] == arch@ {
                    let k = choose|k: int| 0 <= k < j + 1 && sv[k] == arch@;
                    if k < j {
                        assert(exists|k2: int| 0 <= k2 < j && sv[k2] == arch@);
                    }
                }
            }
            j += 1;
        }
        let ghost t = archs.take(i + 1);
        assert(t.drop_last() =~= archs.take(i as int));
        assert(t.last() == arch@);
        assert(dup <==> sv.contains(arch@)) by {
            if sv.contains(arch@) {
                let k = choose|k: int| 0 <= k < sv.len() && sv[k] == arch@;
                assert(0 <= k < j);
            }
        }
        if !dup {
            if seen.len() > 0 {
                push_str(&mut m, ", ");
            }
            let q = crate::fingerprint::debug_str(arch);
            push_str(&mut m, q.as_str());
            seen.push(arch);
            assert(seen@.map_values(|x: &str| x@) =~= sv.push(arch@));
            proof {
                let nv = sv.push(arch@);
                assert(nv.drop_last() =~= sv);
                if sv.len() == 0 {
                    assert(quoted_items(nv) == crate::fingerprint::debug_quoted(nv[0]));
                }
            }
            assert(m@ =~= "{"@ + quoted_items(seen@.map_values(|x: &str| x@)));
        }
        i += 1;
    }
    assert(archs.take(i as int) =~= archs);
    push_str(&mut m, "}");
    m
}

} // verus!
