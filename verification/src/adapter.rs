//! The adapters compiled into this engine build and the contract checks
//! that keep model metadata from unlocking capabilities that are not linked.
use vstd::prelude::*;
use crate::manifest::{
    ActivationKind, ArchitectureContract, AttentionKind, ExpertTensorLayout, ModelFamily,
    RouterSemantics, RuntimeManifest, WeightFormat,
};
use crate::text::{ascii_lower, ascii_lower_chars, seq_starts_with, str_eq, str_eq_ignore_ascii_case, push_str, string_of, matches_at, chars_of};

verus! {

/// Static capabilities compiled into this engine build.
#[derive(Debug, Clone, PartialEq, Eq)]
pub struct AdapterDescriptor {
    pub id: &'static str,
    pub model_type_prefixes: &'static [&'static str],
    pub families: &'static [ModelFamily],
    pub attention: &'static [AttentionKind],
    pub routers: &'static [RouterSemantics],
    pub expert_formats: &'static [WeightFormat],
    pub expert_layouts: &'static [ExpertTensorLayout],
    pub activations: &'static [ActivationKind],
    /// A compiled CPU reference exists for the family semantics. This does
    /// not imply that a complete layer or token-serving kernel is ready.
    pub reference_math: bool,
    /// Storage-only profiles can index/stream unknown models but can never
    /// become serving-capable without promotion to an exact compiled family.
    pub storage_only: bool,
    /// True only when a complete forward kernel is linked. Serving still
    /// requires a checkpoint-bound oracle suite to pass at startup.
    pub forward_kernel: bool,
}

/// The mathematical content of a descriptor.
#[verifier::ext_equal]
pub struct DescriptorView {
    pub id: Seq<char>,
    pub prefixes: Seq<Seq<char>>,
    pub families: Seq<ModelFamily>,
    pub attention: Seq<AttentionKind>,
    pub routers: Seq<RouterSemantics>,
    pub expert_formats: Seq<WeightFormat>,
    pub expert_layouts: Seq<ExpertTensorLayout>,
    pub activations: Seq<ActivationKind>,
    pub reference_math: bool,
    pub storage_only: bool,
    pub forward_kernel: bool,
}

impl View for AdapterDescriptor {
    type V = DescriptorView;

    open spec fn view(&self) -> DescriptorView {
        DescriptorView {
            id: self.id@,
            prefixes: self.model_type_prefixes@.map_values(|p: &'static str| p@),
            families: self.families@,
            attention: self.attention@,
            routers: self.routers@,
            expert_formats: self.expert_formats@,
            expert_layouts: self.expert_layouts@,
            activations: self.activations@,
            reference_math: self.reference_math,
            storage_only: self.storage_only,
            forward_kernel: self.forward_kernel,
        }
    }
}

#[derive(Debug, Clone, PartialEq, Eq)]
pub enum AdapterError {
    /// The adapter id is not compiled into this engine.
    Unknown(String),
    /// The manifest asks for something the adapter does not accept.
    Contract(String),
    /// The adapter has no token-verified forward kernel for this contract.
    KernelUnavailable(String),
    /// An adapter kernel failed.
    Kernel(String),
}

/// The first registry entry with id `id`.
pub open spec fn find_adapter(reg: Seq<DescriptorView>, id: Seq<char>) -> Option<DescriptorView>
    decreases reg.len(),
{
    if reg.len() == 0 {
        None
    } else if reg[0].id == id {
        Some(reg[0])
    } else {
        find_adapter(reg.drop_first(), id)
    }
}

pub open spec fn accepts_model_type(d: DescriptorView, model_type: Seq<char>) -> bool {
    d.storage_only || exists|i: int|
        0 <= i < d.prefixes.len() && seq_starts_with(ascii_lower(model_type), #[trigger] d.prefixes[i])
}

/// Every contract field is one the descriptor lists.
pub open spec fn accepts_contract(d: DescriptorView, c: ArchitectureContract) -> bool {
    &&& accepts_model_type(d, c.model_type@)
    &&& d.families.contains(c.family)
    &&& d.attention.contains(c.attention)
    &&& d.routers.contains(c.router)
    &&& d.expert_formats.contains(c.expert_format)
    &&& d.expert_layouts.contains(c.expert_layout)
    &&& d.activations.contains(c.activation)
}

pub open spec fn compiled_contract_ok(c: ArchitectureContract) -> bool {
    find_adapter(registry(), c.adapter@) matches Some(d) && accepts_contract(d, c)
}

/// The adapter looked up by id: the first compiled adapter with that id.
pub fn compiled_adapter(id: &str) -> (r: Option<AdapterDescriptor>)
    ensures
        r matches Some(d) ==> find_adapter(registry(), id@) == Some(d@),
        r is None ==> find_adapter(registry(), id@) is None,
{
    let mut all = compiled_adapters();
    let mut i: usize = 0;
    assert(registry().skip(0) =~= registry());
    while i < all.len()
        invariant
            i <= all@.len(),
            all@.len() == registry().len(),
            forall|k: int| 0 <= k < all@.len() ==> (#[trigger] all@[k])@ == registry()[k],
            find_adapter(registry(), id@) == find_adapter(registry().skip(i as int), id@),
        decreases all@.len() - i,
    {
        assert(registry().skip(i as int).drop_first() =~= registry().skip(i + 1));
        assert(registry().skip(i as int)[0] == registry()[i as int]);
        if str_eq(all[i].id, id) {
            return Some(all.remove(i));
        }
        i += 1;
    }
    None
}

fn contains_family(v: &[ModelFamily], x: ModelFamily) -> (b: bool)
    ensures
        b == v@.contains(x),
{
    let mut i: usize = 0;
    while i < v.len()
        invariant
            i <= v@.len(),
            forall|k: int| 0 <= k < i ==> v@[k] != x,
        decreases v@.len() - i,
    {
        if v[i] == x {
            assert(v@[i as int] == x);
            return true;
        }
        i += 1;
    }
    false
}

fn contains_attention(v: &[AttentionKind], x: AttentionKind) -> (b: bool)
    ensures
        b == v@.contains(x),
{
    let mut i: usize = 0;
    while i < v.len()
        invariant
            i <= v@.len(),
            forall|k: int| 0 <= k < i ==> v@[k] != x,
        decreases v@.len() - i,
    {
        if v[i] == x {
            assert(v@[i as int] == x);
            return true;
        }
        i += 1;
    }
    false
}

fn contains_router(v: &[RouterSemantics], x: RouterSemantics) -> (b: bool)
    ensures
        b == v@.contains(x),
{
    let mut i: usize = 0;
    while i < v.len()
        invariant
            i <= v@.len(),
            forall|k: int| 0 <= k < i ==> v@[k] != x,
        decreases v@.len() - i,
    {
        if v[i] == x {
            assert(v@[i as int] == x);
            return true;
        }
        i += 1;
    }
    false
}

fn contains_format(v: &[WeightFormat], x: WeightFormat) -> (b: bool)
    ensures
        b == v@.contains(x),
{
    let mut i: usize = 0;
    while i < v.len()
        invariant
            i <= v@.len(),
            forall|k: int| 0 <= k < i ==> v@[k] != x,
        decreases v@.len() - i,
    {
        if v[i] == x {
            assert(v@[i as int] == x);
            return true;
        }
        i += 1;
    }
    false
}

fn contains_layout(v: &[ExpertTensorLayout], x: ExpertTensorLayout) -> (b: bool)
    ensures
        b == v@.contains(x),
{
    let mut i: usize = 0;
    while i < v.len()
        invariant
            i <= v@.len(),
            forall|k: int| 0 <= k < i ==> v@[k] != x,
        decreases v@.len() - i,
    {
        if v[i] == x {
            assert(v@[i as int] == x);
            return true;
        }
        i += 1;
    }
    false
}

fn contains_activation(v: &[ActivationKind], x: ActivationKind) -> (b: bool)
    ensures
        b == v@.contains(x),
{
    let mut i: usize = 0;
    while i < v.len()
        invariant
            i <= v@.len(),
            forall|k: int| 0 <= k < i ==> v@[k] != x,
        decreases v@.len() - i,
    {
        if v[i] == x {
            assert(v@[i as int] == x);
            return true;
        }
        i += 1;
    }
    false
}

fn model_type_accepted(d: &AdapterDescriptor, model_type: &str) -> (b: bool)
    ensures
        b == accepts_model_type(d@, model_type@),
{
    if d.storage_only {
        return true;
    }
    let lower = ascii_lower_chars(model_type);
    let mut i: usize = 0;
    while i < d.model_type_prefixes.len()
        invariant
            i <= d.model_type_prefixes@.len(),
            lower@ == ascii_lower(model_type@),
            !d.storage_only,
            forall|k: int| 0 <= k < i ==> !seq_starts_with(ascii_lower(model_type@), #[trigger] d@.prefixes[k]),
        decreases d.model_type_prefixes@.len() - i,
    {
        let p = chars_of(d.model_type_prefixes[i]);
        if matches_at(&lower, &p, 0) {
            assert(seq_starts_with(ascii_lower(model_type@), d@.prefixes[i as int]));
            return true;
        }
        i += 1;
    }
    false
}

/// The `Debug` names of the contract enums, as the refusals print them.
pub open spec fn family_name_spec(x: ModelFamily) -> Seq<char> {
    match x {
        ModelFamily::KimiK27 => "KimiK27"@,
        ModelFamily::DeepseekV3 => "DeepseekV3"@,
        ModelFamily::Qwen3Moe => "Qwen3Moe"@,
        ModelFamily::Qwen2Moe => "Qwen2Moe"@,
        ModelFamily::Mixtral => "Mixtral"@,
        ModelFamily::Olmoe => "Olmoe"@,
        ModelFamily::Dbrx => "Dbrx"@,
        ModelFamily::GraniteMoe => "GraniteMoe"@,
        ModelFamily::Arctic => "Arctic"@,
        ModelFamily::MinimaxMoe => "MinimaxMoe"@,
        ModelFamily::GlmMoe => "GlmMoe"@,
        ModelFamily::KimiK3 => "KimiK3"@,
        ModelFamily::Inkling => "Inkling"@,
        ModelFamily::Generic => "Generic"@,
    }
}

pub open spec fn attention_name_spec(x: AttentionKind) -> Seq<char> {
    match x {
        AttentionKind::Standard => "Standard"@,
        AttentionKind::Mla => "Mla"@,
        AttentionKind::SlidingWindow => "SlidingWindow"@,
        AttentionKind::Hybrid => "Hybrid"@,
        AttentionKind::Custom => "Custom"@,
    }
}

pub open spec fn router_name_spec(x: RouterSemantics) -> Seq<char> {
    match x {
        RouterSemantics::TopKWeighted => "TopKWeighted"@,
        RouterSemantics::TopKNormalized => "TopKNormalized"@,
        RouterSemantics::GroupLimitedTopK => "GroupLimitedTopK"@,
        RouterSemantics::TopKSoftmax => "TopKSoftmax"@,
        RouterSemantics::TopKSigmoid => "TopKSigmoid"@,
        RouterSemantics::NoAuxTc => "NoAuxTc"@,
        RouterSemantics::Custom => "Custom"@,
    }
}

pub open spec fn format_name_spec(x: WeightFormat) -> Seq<char> {
    match x {
        WeightFormat::F32 => "F32"@,
        WeightFormat::F16 => "F16"@,
        WeightFormat::Bf16 => "Bf16"@,
        WeightFormat::Int8 => "Int8"@,
        WeightFormat::Int4Group => "Int4Group"@,
        WeightFormat::PackedInt4Group32 => "PackedInt4Group32"@,
        WeightFormat::Fp8E4m3 => "Fp8E4m3"@,
        WeightFormat::Nvfp4 => "Nvfp4"@,
        WeightFormat::Mxfp4 => "Mxfp4"@,
        WeightFormat::Gguf => "Gguf"@,
        WeightFormat::Custom => "Custom"@,
    }
}

pub open spec fn layout_name_spec(x: ExpertTensorLayout) -> Seq<char> {
    match x {
        ExpertTensorLayout::Discrete => "Discrete"@,
        ExpertTensorLayout::StackedAxis0 => "StackedAxis0"@,
        ExpertTensorLayout::MergedRows => "MergedRows"@,
    }
}

pub open spec fn activation_name_spec(x: ActivationKind) -> Seq<char> {
    match x {
        ActivationKind::Silu => "Silu"@,
        ActivationKind::Gelu => "Gelu"@,
        ActivationKind::GeluTanh => "GeluTanh"@,
        ActivationKind::Relu => "Relu"@,
        ActivationKind::Relu2 => "Relu2"@,
    }
}

/// The refusal of the first contract field that `d` does not accept.
pub open spec fn refusal_message(d: DescriptorView, c: ArchitectureContract) -> Seq<char> {
    let head = d.id + " does not accept "@;
    if !accepts_model_type(d, c.model_type@) {
        head + "model_type "@ + c.model_type@
    } else if !d.families.contains(c.family) {
        head + family_name_spec(c.family) + " family contracts"@
    } else if !d.attention.contains(c.attention) {
        head + attention_name_spec(c.attention) + " attention"@
    } else if !d.routers.contains(c.router) {
        head + router_name_spec(c.router) + " routing"@
    } else if !d.expert_formats.contains(c.expert_format) {
        head + format_name_spec(c.expert_format) + " expert weights"@
    } else if !d.expert_layouts.contains(c.expert_layout) {
        head + layout_name_spec(c.expert_layout) + " expert tensor layout"@
    } else {
        head + activation_name_spec(c.activation) + " expert activation"@
    }
}

/// `"{id} does not accept {name}{what}"`.
fn refusal(id: &str, name: &str, what: &str) -> (m: String)
    ensures
        m@ == id@ + " does not accept "@ + name@ + what@,
{
    let mut m = contract_error(id, name);
    push_str(&mut m, what);
    m
}

fn family_name(f: ModelFamily) -> (n: &'static str)
    ensures
        n@ == family_name_spec(f),
{
    match f {
        ModelFamily::KimiK27 => "KimiK27",
        ModelFamily::DeepseekV3 => "DeepseekV3",
        ModelFamily::Qwen3Moe => "Qwen3Moe",
        ModelFamily::Qwen2Moe => "Qwen2Moe",
        ModelFamily::Mixtral => "Mixtral",
        ModelFamily::Olmoe => "Olmoe",
        ModelFamily::Dbrx => "Dbrx",
        ModelFamily::GraniteMoe => "GraniteMoe",
        ModelFamily::Arctic => "Arctic",
        ModelFamily::MinimaxMoe => "MinimaxMoe",
        ModelFamily::GlmMoe => "GlmMoe",
        ModelFamily::KimiK3 => "KimiK3",
        ModelFamily::Inkling => "Inkling",
        ModelFamily::Generic => "Generic",
    }
}

fn attention_name(a: AttentionKind) -> (n: &'static str)
    ensures
        n@ == attention_name_spec(a),
{
    match a {
        AttentionKind::Standard => "Standard",
        AttentionKind::Mla => "Mla",
        AttentionKind::SlidingWindow => "SlidingWindow",
        AttentionKind::Hybrid => "Hybrid",
        AttentionKind::Custom => "Custom",
    }
}

fn router_name(r: RouterSemantics) -> (n: &'static str)
    ensures
        n@ == router_name_spec(r),
{
    match r {
        RouterSemantics::TopKWeighted => "TopKWeighted",
        RouterSemantics::TopKNormalized => "TopKNormalized",
        RouterSemantics::GroupLimitedTopK => "GroupLimitedTopK",
        RouterSemantics::TopKSoftmax => "TopKSoftmax",
        RouterSemantics::TopKSigmoid => "TopKSigmoid",
        RouterSemantics::NoAuxTc => "NoAuxTc",
        RouterSemantics::Custom => "Custom",
    }
}

fn format_name(f: WeightFormat) -> (n: &'static str)
    ensures
        n@ == format_name_spec(f),
{
    match f {
        WeightFormat::F32 => "F32",
        WeightFormat::F16 => "F16",
        WeightFormat::Bf16 => "Bf16",
        WeightFormat::Int8 => "Int8",
        WeightFormat::Int4Group => "Int4Group",
        WeightFormat::PackedInt4Group32 => "PackedInt4Group32",
        WeightFormat::Fp8E4m3 => "Fp8E4m3",
        WeightFormat::Nvfp4 => "Nvfp4",
        WeightFormat::Mxfp4 => "Mxfp4",
        WeightFormat::Gguf => "Gguf",
        WeightFormat::Custom => "Custom",
    }
}

fn layout_name(l: ExpertTensorLayout) -> (n: &'static str)
    ensures
        n@ == layout_name_spec(l),
{
    match l {
        ExpertTensorLayout::Discrete => "Discrete",
        ExpertTensorLayout::StackedAxis0 => "StackedAxis0",
        ExpertTensorLayout::MergedRows => "MergedRows",
    }
}

fn activation_name(a: ActivationKind) -> (n: &'static str)
    ensures
        n@ == activation_name_spec(a),
{
    match a {
        ActivationKind::Silu => "Silu",
        ActivationKind::Gelu => "Gelu",
        ActivationKind::GeluTanh => "GeluTanh",
        ActivationKind::Relu => "Relu",
        ActivationKind::Relu2 => "Relu2",
    }
}

fn contract_error(id: &str, what: &str) -> (m: String)
    ensures
        m@ == id@ + " does not accept "@ + what@,
{
    let mut m = string_of(id);
    push_str(&mut m, " does not accept ");
    push_str(&mut m, what);
    m
}

/// The compiled adapter that the manifest names, provided that it accepts
/// every field of the manifest's architecture contract.
pub fn validate_compiled_contract(manifest: &RuntimeManifest) -> (r: Result<AdapterDescriptor, AdapterError>)
    ensures
        r is Ok <==> compiled_contract_ok(manifest.architecture),
        r matches Ok(d) ==> find_adapter(registry(), manifest.architecture.adapter@) == Some(d@),
        find_adapter(registry(), manifest.architecture.adapter@) is None ==> (r matches Err(
            AdapterError::Unknown(s)) && s@ == manifest.architecture.adapter@),
        find_adapter(registry(), manifest.architecture.adapter@) is Some && !compiled_contract_ok(
            manifest.architecture) ==> (r matches Err(AdapterError::Contract(m)) && m@ == refusal_message(
            find_adapter(registry(), manifest.architecture.adapter@)->0, manifest.architecture)),
{
    let contract = &manifest.architecture;
    let descriptor = match compiled_adapter(contract.adapter.as_str()) {
        Some(d) => d,
        None => {
            let s = string_of(contract.adapter.as_str());
            return Err(AdapterError::Unknown(s));
        },
    };
    if !model_type_accepted(&descriptor, contract.model_type.as_str()) {
        let mut m = contract_error(descriptor.id, "model_type ");
        push_str(&mut m, contract.model_type.as_str());
        return Err(AdapterError::Contract(m));
    }
    if !contains_family(descriptor.families, contract.family) {
        return Err(AdapterError::Contract(refusal(descriptor.id, family_name(contract.family), " family contracts")));
    }
    if !contains_attention(descriptor.attention, contract.attention) {
        return Err(AdapterError::Contract(refusal(descriptor.id, attention_name(contract.attention), " attention")));
    }
    if !contains_router(descriptor.routers, contract.router) {
        return Err(AdapterError::Contract(refusal(descriptor.id, router_name(contract.router), " routing")));
    }
    if !contains_format(descriptor.expert_formats, contract.expert_format) {
        return Err(AdapterError::Contract(refusal(descriptor.id, format_name(contract.expert_format), " expert weights")));
    }
    if !contains_layout(descriptor.expert_layouts, contract.expert_layout) {
        return Err(AdapterError::Contract(refusal(descriptor.id, layout_name(contract.expert_layout), " expert tensor layout")));
    }
    if !contains_activation(descriptor.activations, contract.activation) {
        return Err(AdapterError::Contract(refusal(descriptor.id, activation_name(contract.activation), " expert activation")));
    }
    Ok(descriptor)
}

/// The adapters whose exact forward subset is checked here.
pub open spec fn standard_forward_adapter(id: Seq<char>) -> bool {
    id == "sytra-mixtral"@ || id == "sytra-qwen3-moe"@ || id == "sytra-qwen2-moe"@
        || id == "sytra-olmoe"@ || id == "sytra-granite-moe"@
}

/// Symmetric packed INT4, group 32, with BF16 scales.
pub open spec fn exact_packed_quantization(c: ArchitectureContract) -> bool {
    &&& c.quantization.bits == 4
    &&& c.quantization.group_size == 32
    &&& c.quantization.symmetric
    &&& c.quantization.scale_dtype matches Some(s) && ascii_lower(s@) == ascii_lower("BF16"@)
}

/// The contract that a standard-attention forward executor handles exactly.
pub open spec fn standard_forward_subset(id: Seq<char>, c: ArchitectureContract) -> bool {
    let exact_format = c.expert_format == WeightFormat::Bf16
        || (id == "sytra-granite-moe"@ && c.expert_format == WeightFormat::F32)
        || (c.expert_format == WeightFormat::PackedInt4Group32 && exact_packed_quantization(c));
    let discrete_or_stacked = c.expert_layout == ExpertTensorLayout::Discrete
        || c.expert_layout == ExpertTensorLayout::StackedAxis0;
    &&& exact_format
    &&& id == "sytra-mixtral"@ ==> discrete_or_stacked
    &&& id == "sytra-qwen3-moe"@ ==> discrete_or_stacked
    &&& id == "sytra-qwen2-moe"@ ==> c.expert_layout == ExpertTensorLayout::Discrete
    &&& id == "sytra-olmoe"@ ==> discrete_or_stacked
    &&& id == "sytra-granite-moe"@ ==> c.expert_layout == ExpertTensorLayout::StackedAxis0
    &&& c.attention == AttentionKind::Standard || c.attention == AttentionKind::SlidingWindow
    &&& id == "sytra-qwen3-moe"@ ==> c.model_type@ == "qwen3_moe"@
    &&& id == "sytra-qwen2-moe"@ ==> c.model_type@ == "qwen2_moe"@
    &&& id == "sytra-olmoe"@ ==> c.model_type@ == "olmoe"@
    &&& id == "sytra-granite-moe"@ ==> c.model_type@ == "granitemoe"@
    &&& c.activation == ActivationKind::Silu
    &&& (c.router == RouterSemantics::TopKSoftmax || c.router == RouterSemantics::TopKNormalized
        || (id == "sytra-olmoe"@ && c.router == RouterSemantics::TopKWeighted))
}

pub open spec fn forward_contract_ok(c: ArchitectureContract) -> bool {
    &&& compiled_contract_ok(c)
    &&& find_adapter(registry(), c.adapter@).unwrap().forward_kernel
    &&& standard_forward_adapter(find_adapter(registry(), c.adapter@).unwrap().id)
        ==> standard_forward_subset(find_adapter(registry(), c.adapter@).unwrap().id, c)
}

fn id_is(id: &str, lit: &str) -> (b: bool)
    ensures
        b == (id@ == lit@),
{
    str_eq(id, lit)
}

/// The compiled adapter, provided that it links a complete forward kernel
/// for exactly this contract.
pub fn validate_forward_contract(manifest: &RuntimeManifest) -> (r: Result<AdapterDescriptor, AdapterError>)
    ensures
        r is Ok <==> forward_contract_ok(manifest.architecture),
        r matches Ok(d) ==> find_adapter(registry(), manifest.architecture.adapter@) == Some(d@),
        find_adapter(registry(), manifest.architecture.adapter@) is None ==> (r matches Err(
            AdapterError::Unknown(s)) && s@ == manifest.architecture.adapter@),
        find_adapter(registry(), manifest.architecture.adapter@) is Some && !compiled_contract_ok(
            manifest.architecture) ==> (r matches Err(AdapterError::Contract(m)) && m@ == refusal_message(
            find_adapter(registry(), manifest.architecture.adapter@)->0, manifest.architecture)),
        compiled_contract_ok(manifest.architecture) && !forward_contract_ok(manifest.architecture)
            ==> (r matches Err(AdapterError::KernelUnavailable(m)) && {
                let d = find_adapter(registry(), manifest.architecture.adapter@)->0;
                m@ == if !d.forward_kernel {
                    d.id
                } else {
                    d.id + " requires its exact BF16 or packed symmetric INT4/BF16 group-32 standard-GQA forward subset"@
                }
            }),
{
    let descriptor = match validate_compiled_contract(manifest) {
        Ok(d) => d,
        Err(e) => {
            return Err(e);
        },
    };
    if !descriptor.forward_kernel {
        return Err(AdapterError::KernelUnavailable(string_of(descriptor.id)));
    }
    let id = descriptor.id;
    proof {
        reveal_strlit("sytra-mixtral");
        reveal_strlit("sytra-qwen3-moe");
        reveal_strlit("sytra-qwen2-moe");
        reveal_strlit("sytra-olmoe");
        reveal_strlit("sytra-granite-moe");
    }
    let mixtral = id_is(id, "sytra-mixtral");
    let qwen3 = id_is(id, "sytra-qwen3-moe");
    let qwen2 = id_is(id, "sytra-qwen2-moe");
    let olmoe = id_is(id, "sytra-olmoe");
    let granite = id_is(id, "sytra-granite-moe");
    if mixtral || qwen3 || qwen2 || olmoe || granite {
        let c = &manifest.architecture;
        let exact_packed = c.quantization.bits == 4 && c.quantization.group_size == 32
            && c.quantization.symmetric && match &c.quantization.scale_dtype {
            Some(s) => str_eq_ignore_ascii_case(s.as_str(), "BF16"),
            None => false,
        };
        let exact_format = c.expert_format == WeightFormat::Bf16
            || (granite && c.expert_format == WeightFormat::F32)
            || (c.expert_format == WeightFormat::PackedInt4Group32 && exact_packed);
        let discrete_or_stacked = c.expert_layout == ExpertTensorLayout::Discrete
            || c.expert_layout == ExpertTensorLayout::StackedAxis0;
        let model_type = c.model_type.as_str();
        if !exact_format
            || (mixtral && !discrete_or_stacked)
            || (qwen3 && !discrete_or_stacked)
            || (qwen2 && c.expert_layout != ExpertTensorLayout::Discrete)
            || (olmoe && !discrete_or_stacked)
            || (granite && c.expert_layout != ExpertTensorLayout::StackedAxis0)
            || !(c.attention == AttentionKind::Standard || c.attention == AttentionKind::SlidingWindow)
            || (qwen3 && !id_is(model_type, "qwen3_moe"))
            || (qwen2 && !id_is(model_type, "qwen2_moe"))
            || (olmoe && !id_is(model_type, "olmoe"))
            || (granite && !id_is(model_type, "granitemoe"))
            || c.activation != ActivationKind::Silu
            || !(c.router == RouterSemantics::TopKSoftmax || c.router == RouterSemantics::TopKNormalized)
                && !(olmoe && c.router == RouterSemantics::TopKWeighted)
        {
            let mut m = string_of(id);
            push_str(&mut m, " requires its exact BF16 or packed symmetric INT4/BF16 group-32 standard-GQA forward subset");
            return Err(AdapterError::KernelUnavailable(m));
        }
    }
    Ok(descriptor)
}

pub open spec fn glm52_view() -> DescriptorView {
    DescriptorView {
        id: "sytra-glm52"@,
        prefixes: seq!["glm"@],
        families: seq![ModelFamily::GlmMoe],
        attention: seq![AttentionKind::Mla, AttentionKind::Custom],
        routers: seq![RouterSemantics::TopKWeighted, RouterSemantics::GroupLimitedTopK],
        expert_formats: seq![WeightFormat::Int4Group, WeightFormat::Int8, WeightFormat::Custom],
        expert_layouts: seq![ExpertTensorLayout::Discrete, ExpertTensorLayout::StackedAxis0],
        activations: seq![ActivationKind::Silu],
        reference_math: false,
        storage_only: false,
        forward_kernel: false,
    }
}

fn glm52() -> (d: AdapterDescriptor)
    ensures
        d@ == glm52_view(),
{
    let d = AdapterDescriptor {
        id: "sytra-glm52",
        model_type_prefixes: &["glm"],
        families: &[ModelFamily::GlmMoe],
        attention: &[AttentionKind::Mla, AttentionKind::Custom],
        routers: &[RouterSemantics::TopKWeighted, RouterSemantics::GroupLimitedTopK],
        expert_formats: &[WeightFormat::Int4Group, WeightFormat::Int8, WeightFormat::Custom],
        expert_layouts: &[ExpertTensorLayout::Discrete, ExpertTensorLayout::StackedAxis0],
        activations: &[ActivationKind::Silu],
        reference_math: false,
        storage_only: false,
        forward_kernel: false,
    };
    assert(d@.prefixes =~= glm52_view().prefixes);
    assert(d@ =~= glm52_view());
    d
}

pub open spec fn kimi_k27_code_view() -> DescriptorView {
    DescriptorView {
        id: "sytra-kimi-k2.7-code"@,
        prefixes: seq!["kimi_k25"@],
        families: seq![ModelFamily::KimiK27],
        attention: seq![AttentionKind::Mla],
        routers: seq![RouterSemantics::GroupLimitedTopK, RouterSemantics::NoAuxTc],
        expert_formats: seq![WeightFormat::PackedInt4Group32],
        expert_layouts: seq![ExpertTensorLayout::Discrete],
        activations: seq![ActivationKind::Silu],
        reference_math: true,
        storage_only: false,
        forward_kernel: true,
    }
}

fn kimi_k27_code() -> (d: AdapterDescriptor)
    ensures
        d@ == kimi_k27_code_view(),
{
    let d = AdapterDescriptor {
        id: "sytra-kimi-k2.7-code",
        model_type_prefixes: &["kimi_k25"],
        families: &[ModelFamily::KimiK27],
        attention: &[AttentionKind::Mla],
        routers: &[RouterSemantics::GroupLimitedTopK, RouterSemantics::NoAuxTc],
        expert_formats: &[WeightFormat::PackedInt4Group32],
        expert_layouts: &[ExpertTensorLayout::Discrete],
        activations: &[ActivationKind::Silu],
        reference_math: true,
        storage_only: false,
        forward_kernel: true,
    };
    assert(d@.prefixes =~= kimi_k27_code_view().prefixes);
    assert(d@ =~= kimi_k27_code_view());
    d
}

pub open spec fn kimi_k3_view() -> DescriptorView {
    DescriptorView {
        id: "sytra-kimi-k3"@,
        prefixes: seq!["kimi_k3"@, "kimi-k3"@],
        families: seq![ModelFamily::KimiK3],
        attention: seq![AttentionKind::Mla, AttentionKind::Custom],
        routers: seq![RouterSemantics::TopKWeighted, RouterSemantics::GroupLimitedTopK],
        expert_formats: seq![WeightFormat::Mxfp4],
        expert_layouts: seq![ExpertTensorLayout::Discrete, ExpertTensorLayout::StackedAxis0],
        activations: seq![ActivationKind::Silu],
        reference_math: false,
        storage_only: false,
        forward_kernel: false,
    }
}

fn kimi_k3() -> (d: AdapterDescriptor)
    ensures
        d@ == kimi_k3_view(),
{
    let d = AdapterDescriptor {
        id: "sytra-kimi-k3",
        model_type_prefixes: &["kimi_k3", "kimi-k3"],
        families: &[ModelFamily::KimiK3],
        attention: &[AttentionKind::Mla, AttentionKind::Custom],
        routers: &[RouterSemantics::TopKWeighted, RouterSemantics::GroupLimitedTopK],
        expert_formats: &[WeightFormat::Mxfp4],
        expert_layouts: &[ExpertTensorLayout::Discrete, ExpertTensorLayout::StackedAxis0],
        activations: &[ActivationKind::Silu],
        reference_math: false,
        storage_only: false,
        forward_kernel: false,
    };
    assert(d@.prefixes =~= kimi_k3_view().prefixes);
    assert(d@ =~= kimi_k3_view());
    d
}

pub open spec fn inkling_view() -> DescriptorView {
    DescriptorView {
        id: "sytra-inkling"@,
        prefixes: seq!["inkling"@],
        families: seq![ModelFamily::Inkling],
        attention: seq![AttentionKind::Standard, AttentionKind::Custom],
        routers: seq![RouterSemantics::TopKWeighted, RouterSemantics::TopKNormalized],
        expert_formats: seq![WeightFormat::Int4Group, WeightFormat::Bf16, WeightFormat::Custom],
        expert_layouts: seq![ExpertTensorLayout::Discrete, ExpertTensorLayout::StackedAxis0],
        activations: seq![ActivationKind::Silu, ActivationKind::Gelu],
        reference_math: false,
        storage_only: false,
        forward_kernel: false,
    }
}

fn inkling() -> (d: AdapterDescriptor)
    ensures
        d@ == inkling_view(),
{
    let d = AdapterDescriptor {
        id: "sytra-inkling",
        model_type_prefixes: &["inkling"],
        families: &[ModelFamily::Inkling],
        attention: &[AttentionKind::Standard, AttentionKind::Custom],
        routers: &[RouterSemantics::TopKWeighted, RouterSemantics::TopKNormalized],
        expert_formats: &[WeightFormat::Int4Group, WeightFormat::Bf16, WeightFormat::Custom],
        expert_layouts: &[ExpertTensorLayout::Discrete, ExpertTensorLayout::StackedAxis0],
        activations: &[ActivationKind::Silu, ActivationKind::Gelu],
        reference_math: false,
        storage_only: false,
        forward_kernel: false,
    };
    assert(d@.prefixes =~= inkling_view().prefixes);
    assert(d@ =~= inkling_view());
    d
}

pub open spec fn deepseek_v3_view() -> DescriptorView {
    DescriptorView {
        id: "sytra-deepseek-v3"@,
        prefixes: seq!["deepseek_v2"@, "deepseek_v3"@],
        families: seq![ModelFamily::DeepseekV3],
        attention: seq![AttentionKind::Mla],
        routers: seq![RouterSemantics::NoAuxTc, RouterSemantics::GroupLimitedTopK],
        expert_formats: seq![WeightFormat::Bf16, WeightFormat::F16, WeightFormat::Fp8E4m3, WeightFormat::Int4Group, WeightFormat::PackedInt4Group32],
        expert_layouts: seq![ExpertTensorLayout::Discrete, ExpertTensorLayout::StackedAxis0],
        activations: seq![ActivationKind::Silu],
        reference_math: true,
        storage_only: false,
        forward_kernel: false,
    }
}

fn deepseek_v3() -> (d: AdapterDescriptor)
    ensures
        d@ == deepseek_v3_view(),
{
    let d = AdapterDescriptor {
        id: "sytra-deepseek-v3",
        model_type_prefixes: &["deepseek_v2", "deepseek_v3"],
        families: &[ModelFamily::DeepseekV3],
        attention: &[AttentionKind::Mla],
        routers: &[RouterSemantics::NoAuxTc, RouterSemantics::GroupLimitedTopK],
        expert_formats: &[WeightFormat::Bf16, WeightFormat::F16, WeightFormat::Fp8E4m3, WeightFormat::Int4Group, WeightFormat::PackedInt4Group32],
        expert_layouts: &[ExpertTensorLayout::Discrete, ExpertTensorLayout::StackedAxis0],
        activations: &[ActivationKind::Silu],
        reference_math: true,
        storage_only: false,
        forward_kernel: false,
    };
    assert(d@.prefixes =~= deepseek_v3_view().prefixes);
    assert(d@ =~= deepseek_v3_view());
    d
}

pub open spec fn qwen3_moe_view() -> DescriptorView {
    DescriptorView {
        id: "sytra-qwen3-moe"@,
        prefixes: seq!["qwen3_moe"@, "qwen3_next"@],
        families: seq![ModelFamily::Qwen3Moe],
        attention: seq![AttentionKind::Standard, AttentionKind::SlidingWindow, AttentionKind::Hybrid],
        routers: seq![RouterSemantics::TopKSoftmax, RouterSemantics::TopKNormalized],
        expert_formats: seq![WeightFormat::Bf16, WeightFormat::F16, WeightFormat::Fp8E4m3, WeightFormat::Int4Group, WeightFormat::PackedInt4Group32],
        expert_layouts: seq![ExpertTensorLayout::Discrete, ExpertTensorLayout::StackedAxis0],
        activations: seq![ActivationKind::Silu],
        reference_math: true,
        storage_only: false,
        forward_kernel: true,
    }
}

fn qwen3_moe() -> (d: AdapterDescriptor)
    ensures
        d@ == qwen3_moe_view(),
{
    let d = AdapterDescriptor {
        id: "sytra-qwen3-moe",
        model_type_prefixes: &["qwen3_moe", "qwen3_next"],
        families: &[ModelFamily::Qwen3Moe],
        attention: &[AttentionKind::Standard, AttentionKind::SlidingWindow, AttentionKind::Hybrid],
        routers: &[RouterSemantics::TopKSoftmax, RouterSemantics::TopKNormalized],
        expert_formats: &[WeightFormat::Bf16, WeightFormat::F16, WeightFormat::Fp8E4m3, WeightFormat::Int4Group, WeightFormat::PackedInt4Group32],
        expert_layouts: &[ExpertTensorLayout::Discrete, ExpertTensorLayout::StackedAxis0],
        activations: &[ActivationKind::Silu],
        reference_math: true,
        storage_only: false,
        forward_kernel: true,
    };
    assert(d@.prefixes =~= qwen3_moe_view().prefixes);
    assert(d@ =~= qwen3_moe_view());
    d
}

pub open spec fn qwen2_moe_view() -> DescriptorView {
    DescriptorView {
        id: "sytra-qwen2-moe"@,
        prefixes: seq!["qwen2_moe"@],
        families: seq![ModelFamily::Qwen2Moe],
        attention: seq![AttentionKind::Standard, AttentionKind::SlidingWindow],
        routers: seq![RouterSemantics::TopKSoftmax, RouterSemantics::TopKNormalized],
        expert_formats: seq![WeightFormat::Bf16, WeightFormat::F16, WeightFormat::Int4Group, WeightFormat::PackedInt4Group32],
        expert_layouts: seq![ExpertTensorLayout::Discrete, ExpertTensorLayout::StackedAxis0],
        activations: seq![ActivationKind::Silu],
        reference_math: true,
        storage_only: false,
        forward_kernel: true,
    }
}

fn qwen2_moe() -> (d: AdapterDescriptor)
    ensures
        d@ == qwen2_moe_view(),
{
    let d = AdapterDescriptor {
        id: "sytra-qwen2-moe",
        model_type_prefixes: &["qwen2_moe"],
        families: &[ModelFamily::Qwen2Moe],
        attention: &[AttentionKind::Standard, AttentionKind::SlidingWindow],
        routers: &[RouterSemantics::TopKSoftmax, RouterSemantics::TopKNormalized],
        expert_formats: &[WeightFormat::Bf16, WeightFormat::F16, WeightFormat::Int4Group, WeightFormat::PackedInt4Group32],
        expert_layouts: &[ExpertTensorLayout::Discrete, ExpertTensorLayout::StackedAxis0],
        activations: &[ActivationKind::Silu],
        reference_math: true,
        storage_only: false,
        forward_kernel: true,
    };
    assert(d@.prefixes =~= qwen2_moe_view().prefixes);
    assert(d@ =~= qwen2_moe_view());
    d
}

pub open spec fn mixtral_view() -> DescriptorView {
    DescriptorView {
        id: "sytra-mixtral"@,
        prefixes: seq!["mixtral"@],
        families: seq![ModelFamily::Mixtral],
        attention: seq![AttentionKind::Standard, AttentionKind::SlidingWindow],
        routers: seq![RouterSemantics::TopKSoftmax, RouterSemantics::TopKNormalized],
        expert_formats: seq![WeightFormat::Bf16, WeightFormat::F16, WeightFormat::Int4Group, WeightFormat::PackedInt4Group32],
        expert_layouts: seq![ExpertTensorLayout::Discrete, ExpertTensorLayout::StackedAxis0],
        activations: seq![ActivationKind::Silu],
        reference_math: true,
        storage_only: false,
        forward_kernel: true,
    }
}

fn mixtral() -> (d: AdapterDescriptor)
    ensures
        d@ == mixtral_view(),
{
    let d = AdapterDescriptor {
        id: "sytra-mixtral",
        model_type_prefixes: &["mixtral"],
        families: &[ModelFamily::Mixtral],
        attention: &[AttentionKind::Standard, AttentionKind::SlidingWindow],
        routers: &[RouterSemantics::TopKSoftmax, RouterSemantics::TopKNormalized],
        expert_formats: &[WeightFormat::Bf16, WeightFormat::F16, WeightFormat::Int4Group, WeightFormat::PackedInt4Group32],
        expert_layouts: &[ExpertTensorLayout::Discrete, ExpertTensorLayout::StackedAxis0],
        activations: &[ActivationKind::Silu],
        reference_math: true,
        storage_only: false,
        forward_kernel: true,
    };
    assert(d@.prefixes =~= mixtral_view().prefixes);
    assert(d@ =~= mixtral_view());
    d
}

pub open spec fn olmoe_view() -> DescriptorView {
    DescriptorView {
        id: "sytra-olmoe"@,
        prefixes: seq!["olmoe"@],
        families: seq![ModelFamily::Olmoe],
        attention: seq![AttentionKind::Standard],
        routers: seq![RouterSemantics::TopKSoftmax, RouterSemantics::TopKWeighted],
        expert_formats: seq![WeightFormat::Bf16, WeightFormat::F16, WeightFormat::Int4Group, WeightFormat::PackedInt4Group32],
        expert_layouts: seq![ExpertTensorLayout::Discrete, ExpertTensorLayout::StackedAxis0],
        activations: seq![ActivationKind::Silu],
        reference_math: true,
        storage_only: false,
        forward_kernel: true,
    }
}

fn olmoe() -> (d: AdapterDescriptor)
    ensures
        d@ == olmoe_view(),
{
    let d = AdapterDescriptor {
        id: "sytra-olmoe",
        model_type_prefixes: &["olmoe"],
        families: &[ModelFamily::Olmoe],
        attention: &[AttentionKind::Standard],
        routers: &[RouterSemantics::TopKSoftmax, RouterSemantics::TopKWeighted],
        expert_formats: &[WeightFormat::Bf16, WeightFormat::F16, WeightFormat::Int4Group, WeightFormat::PackedInt4Group32],
        expert_layouts: &[ExpertTensorLayout::Discrete, ExpertTensorLayout::StackedAxis0],
        activations: &[ActivationKind::Silu],
        reference_math: true,
        storage_only: false,
        forward_kernel: true,
    };
    assert(d@.prefixes =~= olmoe_view().prefixes);
    assert(d@ =~= olmoe_view());
    d
}

pub open spec fn dbrx_view() -> DescriptorView {
    DescriptorView {
        id: "sytra-dbrx"@,
        prefixes: seq!["dbrx"@],
        families: seq![ModelFamily::Dbrx],
        attention: seq![AttentionKind::Standard],
        routers: seq![RouterSemantics::TopKSoftmax, RouterSemantics::TopKNormalized],
        expert_formats: seq![WeightFormat::Bf16, WeightFormat::F16, WeightFormat::Int4Group],
        expert_layouts: seq![ExpertTensorLayout::MergedRows, ExpertTensorLayout::StackedAxis0],
        activations: seq![ActivationKind::Silu, ActivationKind::Gelu],
        reference_math: true,
        storage_only: false,
        forward_kernel: false,
    }
}

fn dbrx() -> (d: AdapterDescriptor)
    ensures
        d@ == dbrx_view(),
{
    let d = AdapterDescriptor {
        id: "sytra-dbrx",
        model_type_prefixes: &["dbrx"],
        families: &[ModelFamily::Dbrx],
        attention: &[AttentionKind::Standard],
        routers: &[RouterSemantics::TopKSoftmax, RouterSemantics::TopKNormalized],
        expert_formats: &[WeightFormat::Bf16, WeightFormat::F16, WeightFormat::Int4Group],
        expert_layouts: &[ExpertTensorLayout::MergedRows, ExpertTensorLayout::StackedAxis0],
        activations: &[ActivationKind::Silu, ActivationKind::Gelu],
        reference_math: true,
        storage_only: false,
        forward_kernel: false,
    };
    assert(d@.prefixes =~= dbrx_view().prefixes);
    assert(d@ =~= dbrx_view());
    d
}

pub open spec fn granite_moe_view() -> DescriptorView {
    DescriptorView {
        id: "sytra-granite-moe"@,
        prefixes: seq!["granitemoe"@, "granite_moe"@],
        families: seq![ModelFamily::GraniteMoe],
        attention: seq![AttentionKind::Standard],
        routers: seq![RouterSemantics::TopKSoftmax, RouterSemantics::TopKNormalized],
        expert_formats: seq![WeightFormat::F32, WeightFormat::Bf16, WeightFormat::F16, WeightFormat::Int4Group, WeightFormat::PackedInt4Group32],
        expert_layouts: seq![ExpertTensorLayout::Discrete, ExpertTensorLayout::StackedAxis0],
        activations: seq![ActivationKind::Silu, ActivationKind::Gelu],
        reference_math: true,
        storage_only: false,
        forward_kernel: true,
    }
}

fn granite_moe() -> (d: AdapterDescriptor)
    ensures
        d@ == granite_moe_view(),
{
    let d = AdapterDescriptor {
        id: "sytra-granite-moe",
        model_type_prefixes: &["granitemoe", "granite_moe"],
        families: &[ModelFamily::GraniteMoe],
        attention: &[AttentionKind::Standard],
        routers: &[RouterSemantics::TopKSoftmax, RouterSemantics::TopKNormalized],
        expert_formats: &[WeightFormat::F32, WeightFormat::Bf16, WeightFormat::F16, WeightFormat::Int4Group, WeightFormat::PackedInt4Group32],
        expert_layouts: &[ExpertTensorLayout::Discrete, ExpertTensorLayout::StackedAxis0],
        activations: &[ActivationKind::Silu, ActivationKind::Gelu],
        reference_math: true,
        storage_only: false,
        forward_kernel: true,
    };
    assert(d@.prefixes =~= granite_moe_view().prefixes);
    assert(d@ =~= granite_moe_view());
    d
}

pub open spec fn arctic_view() -> DescriptorView {
    DescriptorView {
        id: "sytra-arctic"@,
        prefixes: seq!["arctic"@],
        families: seq![ModelFamily::Arctic],
        attention: seq![AttentionKind::Standard],
        routers: seq![RouterSemantics::TopKSoftmax, RouterSemantics::TopKNormalized],
        expert_formats: seq![WeightFormat::Bf16, WeightFormat::F16, WeightFormat::Int4Group],
        expert_layouts: seq![ExpertTensorLayout::Discrete, ExpertTensorLayout::StackedAxis0],
        activations: seq![ActivationKind::Silu, ActivationKind::Gelu],
        reference_math: true,
        storage_only: false,
        forward_kernel: false,
    }
}

fn arctic() -> (d: AdapterDescriptor)
    ensures
        d@ == arctic_view(),
{
    let d = AdapterDescriptor {
        id: "sytra-arctic",
        model_type_prefixes: &["arctic"],
        families: &[ModelFamily::Arctic],
        attention: &[AttentionKind::Standard],
        routers: &[RouterSemantics::TopKSoftmax, RouterSemantics::TopKNormalized],
        expert_formats: &[WeightFormat::Bf16, WeightFormat::F16, WeightFormat::Int4Group],
        expert_layouts: &[ExpertTensorLayout::Discrete, ExpertTensorLayout::StackedAxis0],
        activations: &[ActivationKind::Silu, ActivationKind::Gelu],
        reference_math: true,
        storage_only: false,
        forward_kernel: false,
    };
    assert(d@.prefixes =~= arctic_view().prefixes);
    assert(d@ =~= arctic_view());
    d
}

pub open spec fn minimax_moe_view() -> DescriptorView {
    DescriptorView {
        id: "sytra-minimax-moe"@,
        prefixes: seq!["minimax"@],
        families: seq![ModelFamily::MinimaxMoe],
        attention: seq![AttentionKind::Standard, AttentionKind::Mla, AttentionKind::Hybrid],
        routers: seq![RouterSemantics::TopKSoftmax, RouterSemantics::TopKSigmoid],
        expert_formats: seq![WeightFormat::Bf16, WeightFormat::F16, WeightFormat::Fp8E4m3, WeightFormat::Int4Group],
        expert_layouts: seq![ExpertTensorLayout::Discrete, ExpertTensorLayout::StackedAxis0],
        activations: seq![ActivationKind::Silu],
        reference_math: true,
        storage_only: false,
        forward_kernel: false,
    }
}

fn minimax_moe() -> (d: AdapterDescriptor)
    ensures
        d@ == minimax_moe_view(),
{
    let d = AdapterDescriptor {
        id: "sytra-minimax-moe",
        model_type_prefixes: &["minimax"],
        families: &[ModelFamily::MinimaxMoe],
        attention: &[AttentionKind::Standard, AttentionKind::Mla, AttentionKind::Hybrid],
        routers: &[RouterSemantics::TopKSoftmax, RouterSemantics::TopKSigmoid],
        expert_formats: &[WeightFormat::Bf16, WeightFormat::F16, WeightFormat::Fp8E4m3, WeightFormat::Int4Group],
        expert_layouts: &[ExpertTensorLayout::Discrete, ExpertTensorLayout::StackedAxis0],
        activations: &[ActivationKind::Silu],
        reference_math: true,
        storage_only: false,
        forward_kernel: false,
    };
    assert(d@.prefixes =~= minimax_moe_view().prefixes);
    assert(d@ =~= minimax_moe_view());
    d
}

pub open spec fn generic_moe_view() -> DescriptorView {
    DescriptorView {
        id: "sytra-generic-moe"@,
        prefixes: Seq::empty(),
        families: seq![ModelFamily::Generic],
        attention: seq![AttentionKind::Standard, AttentionKind::Mla, AttentionKind::SlidingWindow, AttentionKind::Hybrid, AttentionKind::Custom],
        routers: seq![RouterSemantics::TopKWeighted, RouterSemantics::TopKNormalized, RouterSemantics::TopKSoftmax, RouterSemantics::TopKSigmoid, RouterSemantics::GroupLimitedTopK, RouterSemantics::NoAuxTc, RouterSemantics::Custom],
        expert_formats: seq![WeightFormat::F32, WeightFormat::F16, WeightFormat::Bf16, WeightFormat::Int8, WeightFormat::Int4Group, WeightFormat::PackedInt4Group32, WeightFormat::Fp8E4m3, WeightFormat::Nvfp4, WeightFormat::Mxfp4, WeightFormat::Custom],
        expert_layouts: seq![ExpertTensorLayout::Discrete, ExpertTensorLayout::StackedAxis0, ExpertTensorLayout::MergedRows],
        activations: seq![ActivationKind::Silu, ActivationKind::Gelu, ActivationKind::GeluTanh, ActivationKind::Relu, ActivationKind::Relu2],
        reference_math: false,
        storage_only: true,
        forward_kernel: false,
    }
}

fn generic_moe() -> (d: AdapterDescriptor)
    ensures
        d@ == generic_moe_view(),
{
    let d = AdapterDescriptor {
        id: "sytra-generic-moe",
        model_type_prefixes: &[],
        families: &[ModelFamily::Generic],
        attention: &[AttentionKind::Standard, AttentionKind::Mla, AttentionKind::SlidingWindow, AttentionKind::Hybrid, AttentionKind::Custom],
        routers: &[RouterSemantics::TopKWeighted, RouterSemantics::TopKNormalized, RouterSemantics::TopKSoftmax, RouterSemantics::TopKSigmoid, RouterSemantics::GroupLimitedTopK, RouterSemantics::NoAuxTc, RouterSemantics::Custom],
        expert_formats: &[WeightFormat::F32, WeightFormat::F16, WeightFormat::Bf16, WeightFormat::Int8, WeightFormat::Int4Group, WeightFormat::PackedInt4Group32, WeightFormat::Fp8E4m3, WeightFormat::Nvfp4, WeightFormat::Mxfp4, WeightFormat::Custom],
        expert_layouts: &[ExpertTensorLayout::Discrete, ExpertTensorLayout::StackedAxis0, ExpertTensorLayout::MergedRows],
        activations: &[ActivationKind::Silu, ActivationKind::Gelu, ActivationKind::GeluTanh, ActivationKind::Relu, ActivationKind::Relu2],
        reference_math: false,
        storage_only: true,
        forward_kernel: false,
    };
    assert(d@.prefixes =~= generic_moe_view().prefixes);
    assert(d@ =~= generic_moe_view());
    d
}

pub open spec fn registry() -> Seq<DescriptorView> {
    seq![
        glm52_view(),
        kimi_k27_code_view(),
        kimi_k3_view(),
        inkling_view(),
        deepseek_v3_view(),
        qwen3_moe_view(),
        qwen2_moe_view(),
        mixtral_view(),
        olmoe_view(),
        dbrx_view(),
        granite_moe_view(),
        arctic_view(),
        minimax_moe_view(),
        generic_moe_view(),
    ]
}

/// A storage-only profile never links a forward kernel: it can index and
/// stream a model but can never serve one.
pub proof fn lemma_storage_only_has_no_kernel(i: int)
    requires
        0 <= i < registry().len(),
    ensures
        registry()[i].storage_only ==> !registry()[i].forward_kernel,
{
    let r = registry();
    if i == 0 { assert(r[0] == glm52_view()); }
    else if i == 1 { assert(r[1] == kimi_k27_code_view()); }
    else if i == 2 { assert(r[2] == kimi_k3_view()); }
    else if i == 3 { assert(r[3] == inkling_view()); }
    else if i == 4 { assert(r[4] == deepseek_v3_view()); }
    else if i == 5 { assert(r[5] == qwen3_moe_view()); }
    else if i == 6 { assert(r[6] == qwen2_moe_view()); }
    else if i == 7 { assert(r[7] == mixtral_view()); }
    else if i == 8 { assert(r[8] == olmoe_view()); }
    else if i == 9 { assert(r[9] == dbrx_view()); }
    else if i == 10 { assert(r[10] == granite_moe_view()); }
    else if i == 11 { assert(r[11] == arctic_view()); }
    else if i == 12 { assert(r[12] == minimax_moe_view()); }
    else { assert(r[13] == generic_moe_view()); }
}

proof fn lemma_find_adapter_member(reg: Seq<DescriptorView>, id: Seq<char>)
    ensures
        find_adapter(reg, id) matches Some(d) ==> exists|i: int| 0 <= i < reg.len() && reg[i] == d,
    decreases reg.len(),
{
    if reg.len() > 0 && reg[0].id != id {
        lemma_find_adapter_member(reg.drop_first(), id);
        if find_adapter(reg, id) is Some {
            let d = find_adapter(reg, id).unwrap();
            let i = choose|i: int| 0 <= i < reg.drop_first().len() && reg.drop_first()[i] == d;
            assert(reg[i + 1] == d);
        }
    }
}

/// A contract that passes forward validation also passes compiled
/// validation, and its adapter is a serving profile with a linked kernel:
/// never a storage-only profile. What the manifest declares cannot change
/// this: the capabilities come from the compiled registry.
pub proof fn lemma_forward_implies_compiled(c: ArchitectureContract)
    requires
        forward_contract_ok(c),
    ensures
        compiled_contract_ok(c),
        find_adapter(registry(), c.adapter@) matches Some(d) && d.forward_kernel && !d.storage_only,
{
    lemma_find_adapter_member(registry(), c.adapter@);
    let d = find_adapter(registry(), c.adapter@).unwrap();
    let i = choose|i: int| 0 <= i < registry().len() && registry()[i] == d;
    lemma_storage_only_has_no_kernel(i);
}

/// The manifest's own `forward_verified` flag never decides anything: a
/// contract is accepted for forward execution, or compiled validation,
/// exactly when the same contract with the flag flipped is.
pub proof fn law_forward_verified_flag_is_ignored(c: ArchitectureContract, flag: bool)
    ensures
        forward_contract_ok(c) == forward_contract_ok(ArchitectureContract { forward_verified: flag, ..c }),
        compiled_contract_ok(c) == compiled_contract_ok(ArchitectureContract { forward_verified: flag, ..c }),
{
}

/// Normalized top-k routing (`norm_topk_prob`) is served exactly like
/// softmax top-k: for an adapter that lists both routers, a contract with
/// router `TopKNormalized` passes forward validation, or compiled
/// validation, exactly when the same contract with `TopKSoftmax` does.
pub proof fn law_normalized_topk_routes_like_softmax(c: ArchitectureContract)
    requires
        find_adapter(registry(), c.adapter@) matches Some(d) && d.routers.contains(RouterSemantics::TopKSoftmax)
            && d.routers.contains(RouterSemantics::TopKNormalized),
    ensures
        forward_contract_ok(ArchitectureContract { router: RouterSemantics::TopKNormalized, ..c })
            == forward_contract_ok(ArchitectureContract { router: RouterSemantics::TopKSoftmax, ..c }),
        compiled_contract_ok(ArchitectureContract { router: RouterSemantics::TopKNormalized, ..c })
            == compiled_contract_ok(ArchitectureContract { router: RouterSemantics::TopKSoftmax, ..c }),
{
}

/// The first entry of `reg` whose id no earlier entry has is the one found
/// by that id.
proof fn lemma_find_adapter_at(reg: Seq<DescriptorView>, i: int)
    requires
        0 <= i < reg.len(),
        forall|j: int| 0 <= j < i ==> #[trigger] reg[j].id != reg[i].id,
    ensures
        find_adapter(reg, reg[i].id) == Some(reg[i]),
    decreases i,
{
    if i > 0 {
        let rest = reg.drop_first();
        assert forall|j: int| 0 <= j < i - 1 implies #[trigger] rest[j].id != rest[i - 1].id by {
            assert(rest[j] == reg[j + 1]);
        }
        lemma_find_adapter_at(rest, i - 1);
    }
}

/// The standard MoE adapters (Mixtral, Qwen3-MoE, Qwen2-MoE, DBRX,
/// Granite-MoE) list both softmax and normalized top-k routing.
pub proof fn law_standard_adapters_list_normalized_topk()
    ensures
        forall|i: int| 0 <= i < registry().len() && (registry()[i].id == "sytra-mixtral"@
            || registry()[i].id == "sytra-qwen3-moe"@ || registry()[i].id == "sytra-qwen2-moe"@
            || registry()[i].id == "sytra-dbrx"@ || registry()[i].id == "sytra-granite-moe"@)
            ==> find_adapter(registry(), #[trigger] registry()[i].id) == Some(registry()[i])
                && registry()[i].routers.contains(RouterSemantics::TopKSoftmax)
                && registry()[i].routers.contains(RouterSemantics::TopKNormalized),
{
    law_registry_ids_and_kernels();
    let r = registry();
    assert forall|i: int| 0 <= i < r.len() && (r[i].id == "sytra-mixtral"@
        || r[i].id == "sytra-qwen3-moe"@ || r[i].id == "sytra-qwen2-moe"@
        || r[i].id == "sytra-dbrx"@ || r[i].id == "sytra-granite-moe"@)
        implies find_adapter(r, #[trigger] r[i].id) == Some(r[i])
            && r[i].routers.contains(RouterSemantics::TopKSoftmax)
            && r[i].routers.contains(RouterSemantics::TopKNormalized) by {
        assert forall|j: int| 0 <= j < i implies #[trigger] r[j].id != r[i].id by {}
        lemma_find_adapter_at(r, i);
        lemma_registry_sig(i);
        reveal_strlit("sytra-mixtral");
        reveal_strlit("sytra-qwen3-moe");
        reveal_strlit("sytra-qwen2-moe");
        reveal_strlit("sytra-dbrx");
        reveal_strlit("sytra-granite-moe");
        if i == 5 { assert(r[5] == qwen3_moe_view()); assert(r[5].routers[0] == RouterSemantics::TopKSoftmax && r[5].routers[1] == RouterSemantics::TopKNormalized); }
        else if i == 6 { assert(r[6] == qwen2_moe_view()); assert(r[6].routers[0] == RouterSemantics::TopKSoftmax && r[6].routers[1] == RouterSemantics::TopKNormalized); }
        else if i == 7 { assert(r[7] == mixtral_view()); assert(r[7].routers[0] == RouterSemantics::TopKSoftmax && r[7].routers[1] == RouterSemantics::TopKNormalized); }
        else if i == 9 { assert(r[9] == dbrx_view()); assert(r[9].routers[0] == RouterSemantics::TopKSoftmax && r[9].routers[1] == RouterSemantics::TopKNormalized); }
        else if i == 10 { assert(r[10] == granite_moe_view()); assert(r[10].routers[0] == RouterSemantics::TopKSoftmax && r[10].routers[1] == RouterSemantics::TopKNormalized); }
        else {
            assert(registry_sig(i) != id_sig("sytra-mixtral"@) && registry_sig(i) != id_sig("sytra-qwen3-moe"@)
                && registry_sig(i) != id_sig("sytra-qwen2-moe"@) && registry_sig(i) != id_sig("sytra-dbrx"@)
                && registry_sig(i) != id_sig("sytra-granite-moe"@));
        }
    }
}

/// The length and the characters at positions 6 and 10 of an id (the
/// latter only where the id is that long).
spec fn id_sig(s: Seq<char>) -> (nat, char, char) {
    (s.len(), s[6], if s.len() > 10 { s[10] } else { 'x' })
}

spec fn registry_sig(i: int) -> (nat, char, char) {
    if i == 0 { (11nat, 'g', '2') }
    else if i == 1 { (20nat, 'k', '-') }
    else if i == 2 { (13nat, 'k', '-') }
    else if i == 3 { (13nat, 'i', 'i') }
    else if i == 4 { (17nat, 'd', 's') }
    else if i == 5 { (15nat, 'q', '3') }
    else if i == 6 { (15nat, 'q', '2') }
    else if i == 7 { (13nat, 'm', 'r') }
    else if i == 8 { (11nat, 'o', 'e') }
    else if i == 9 { (10nat, 'd', 'x') }
    else if i == 10 { (17nat, 'g', 'i') }
    else if i == 11 { (12nat, 'a', 'i') }
    else if i == 12 { (17nat, 'm', 'm') }
    else { (17nat, 'g', 'r') }
}

proof fn lemma_registry_sig(i: int)
    requires
        0 <= i < registry().len(),
    ensures
        id_sig(registry()[i].id) == registry_sig(i),
{
    let r = registry();
    if i == 0 {
        reveal_strlit("sytra-glm52");
        assert(r[0] == glm52_view());
    }
    else if i == 1 {
        reveal_strlit("sytra-kimi-k2.7-code");
        assert(r[1] == kimi_k27_code_view());
    }
    else if i == 2 {
        reveal_strlit("sytra-kimi-k3");
        assert(r[2] == kimi_k3_view());
    }
    else if i == 3 {
        reveal_strlit("sytra-inkling");
        assert(r[3] == inkling_view());
    }
    else if i == 4 {
        reveal_strlit("sytra-deepseek-v3");
        assert(r[4] == deepseek_v3_view());
    }
    else if i == 5 {
        reveal_strlit("sytra-qwen3-moe");
        assert(r[5] == qwen3_moe_view());
    }
    else if i == 6 {
        reveal_strlit("sytra-qwen2-moe");
        assert(r[6] == qwen2_moe_view());
    }
    else if i == 7 {
        reveal_strlit("sytra-mixtral");
        assert(r[7] == mixtral_view());
    }
    else if i == 8 {
        reveal_strlit("sytra-olmoe");
        assert(r[8] == olmoe_view());
    }
    else if i == 9 {
        reveal_strlit("sytra-dbrx");
        assert(r[9] == dbrx_view());
    }
    else if i == 10 {
        reveal_strlit("sytra-granite-moe");
        assert(r[10] == granite_moe_view());
    }
    else if i == 11 {
        reveal_strlit("sytra-arctic");
        assert(r[11] == arctic_view());
    }
    else if i == 12 {
        reveal_strlit("sytra-minimax-moe");
        assert(r[12] == minimax_moe_view());
    }
    else {
        reveal_strlit("sytra-generic-moe");
        assert(r[13] == generic_moe_view());
    }
}

/// The ids of the adapters that link a forward kernel.
pub open spec fn kernel_adapter_ids() -> Seq<Seq<char>> {
    seq![
        "sytra-kimi-k2.7-code"@,
        "sytra-qwen3-moe"@,
        "sytra-qwen2-moe"@,
        "sytra-mixtral"@,
        "sytra-olmoe"@,
        "sytra-granite-moe"@,
    ]
}

/// The compiled registry holds fourteen adapters with pairwise distinct ids,
/// so an id names at most one of them, and the adapters that link a forward
/// kernel are exactly those named by `kernel_adapter_ids`.
pub proof fn law_registry_ids_and_kernels()
    ensures
        registry().len() == 14,
        forall|i: int, j: int| 0 <= i < registry().len() && 0 <= j < registry().len() && i != j
            ==> #[trigger] registry()[i].id != #[trigger] registry()[j].id,
        forall|i: int| 0 <= i < registry().len()
            ==> (#[trigger] registry()[i].forward_kernel <==> kernel_adapter_ids().contains(registry()[i].id)),
{
    let r = registry();
    assert forall|i: int, j: int| 0 <= i < r.len() && 0 <= j < r.len() && i != j
        implies #[trigger] r[i].id != #[trigger] r[j].id by {
        lemma_registry_sig(i);
        lemma_registry_sig(j);
    }
    let k = kernel_adapter_ids();
    assert(r[1] == kimi_k27_code_view() && k[0] == r[1].id);
    assert(r[5] == qwen3_moe_view() && k[1] == r[5].id);
    assert(r[6] == qwen2_moe_view() && k[2] == r[6].id);
    assert(r[7] == mixtral_view() && k[3] == r[7].id);
    assert(r[8] == olmoe_view() && k[4] == r[8].id);
    assert(r[10] == granite_moe_view() && k[5] == r[10].id);
    assert forall|i: int| 0 <= i < r.len() implies (#[trigger] r[i].forward_kernel <==> k.contains(r[i].id)) by {
        if k.contains(r[i].id) {
            let q = choose|q: int| 0 <= q < k.len() && k[q] == r[i].id;
            assert(q == 0 || q == 1 || q == 2 || q == 3 || q == 4 || q == 5);
        }
        if i == 0 { assert(r[0] == glm52_view()); }
        else if i == 1 { assert(r[1] == kimi_k27_code_view()); }
        else if i == 2 { assert(r[2] == kimi_k3_view()); }
        else if i == 3 { assert(r[3] == inkling_view()); }
        else if i == 4 { assert(r[4] == deepseek_v3_view()); }
        else if i == 5 { assert(r[5] == qwen3_moe_view()); }
        else if i == 6 { assert(r[6] == qwen2_moe_view()); }
        else if i == 7 { assert(r[7] == mixtral_view()); }
        else if i == 8 { assert(r[8] == olmoe_view()); }
        else if i == 9 { assert(r[9] == dbrx_view()); }
        else if i == 10 { assert(r[10] == granite_moe_view()); }
        else if i == 11 { assert(r[11] == arctic_view()); }
        else if i == 12 { assert(r[12] == minimax_moe_view()); }
        else { assert(r[13] == generic_moe_view()); }
    }
}

/// Every adapter compiled into this build, in registry order.
pub fn compiled_adapters() -> (r: Vec<AdapterDescriptor>)
    ensures
        r@.len() == registry().len(),
        forall|i: int| 0 <= i < r@.len() ==> (#[trigger] r@[i])@ == registry()[i],
{
    let r = vec![
        glm52(),
        kimi_k27_code(),
        kimi_k3(),
        inkling(),
        deepseek_v3(),
        qwen3_moe(),
        qwen2_moe(),
        mixtral(),
        olmoe(),
        dbrx(),
        granite_moe(),
        arctic(),
        minimax_moe(),
        generic_moe(),
    ];
    r
}

} // verus!
