//! The runtime manifest: the architecture contract of a checkpoint and the
//! byte-exact index of its routed experts and dense tensors.
use vstd::prelude::*;
use std::collections::{HashMap, HashSet};
use crate::text::{chars_of, decimal, is_blank, str_is_blank, push_str, push_decimal, string_of};

verus! {

/// File name of the runtime manifest under a model root.
pub const RUNTIME_MANIFEST: &'static str = ".sytra-runtime.json";
pub const CURRENT_SCHEMA: u32 = 1;

/// Identity of one routed expert.
#[derive(Debug, Clone, Copy, PartialEq, Eq, Hash, Structural)]
pub struct ExpertKey {
    pub layer: u32,
    pub expert: u32,
}

impl ExpertKey {
    pub fn new(layer: u32, expert: u32) -> (k: Self)
        ensures
            k.layer == layer,
            k.expert == expert,
    {
        ExpertKey { layer, expert }
    }

    /// One integer that identifies the key: layer in the high half, expert in the low half.
    pub open spec fn spec_packed(self) -> u64 {
        (self.layer as u64 * 0x1_0000_0000 + self.expert as u64) as u64
    }

    pub fn packed(&self) -> (p: u64)
        ensures
            p == self.spec_packed(),
    {
        self.layer as u64 * 0x1_0000_0000 + self.expert as u64
    }
}

pub proof fn lemma_packed_injective(a: ExpertKey, b: ExpertKey)
    ensures
        a.spec_packed() == b.spec_packed() <==> a == b,
{
    assert(a.spec_packed() == a.layer * 0x1_0000_0000 + a.expert);
    assert(b.spec_packed() == b.layer * 0x1_0000_0000 + b.expert);
    if a.spec_packed() == b.spec_packed() {
        if a.layer < b.layer {
            assert(a.layer * 0x1_0000_0000 + 0x1_0000_0000 <= b.layer * 0x1_0000_0000);
        } else if b.layer < a.layer {
            assert(b.layer * 0x1_0000_0000 + 0x1_0000_0000 <= a.layer * 0x1_0000_0000);
        }
    }
}

#[derive(Debug, Clone, Copy, PartialEq, Eq, Structural)]
pub enum ModelFamily {
    KimiK27,
    DeepseekV3,
    Qwen3Moe,
    Qwen2Moe,
    Mixtral,
    Olmoe,
    Dbrx,
    GraniteMoe,
    Arctic,
    MinimaxMoe,
    GlmMoe,
    KimiK3,
    Inkling,
    /// Storage/index support for an unrecognized discrete-expert model. It
    /// can be inspected and benchmarked but never unlocks token serving.
    Generic,
}

impl Default for ModelFamily {
    fn default() -> (r: Self)
        ensures
            r == ModelFamily::Generic,
    {
        ModelFamily::Generic
    }
}

#[derive(Debug, Clone, Copy, PartialEq, Eq, Structural)]
pub enum ExpertTensorLayout {
    /// Each expert owns separately named projection tensors.
    Discrete,
    /// Tensor axis zero is the expert dimension.
    StackedAxis0,
    /// Expert rows are concatenated along tensor axis zero.
    MergedRows,
}

impl Default for ExpertTensorLayout {
    fn default() -> (r: Self)
        ensures
            r == ExpertTensorLayout::Discrete,
    {
        ExpertTensorLayout::Discrete
    }
}

#[derive(Debug, Clone, Copy, PartialEq, Eq, Structural)]
pub enum ActivationKind {
    Silu,
    Gelu,
    GeluTanh,
    Relu,
    Relu2,
}

impl Default for ActivationKind {
    fn default() -> (r: Self)
        ensures
            r == ActivationKind::Silu,
    {
        ActivationKind::Silu
    }
}

#[derive(Debug, Clone, Copy, PartialEq, Eq, Structural)]
pub enum RouterScoreKind {
    Softmax,
    Sigmoid,
}

impl Default for RouterScoreKind {
    fn default() -> (r: Self)
        ensures
            r == RouterScoreKind::Softmax,
    {
        RouterScoreKind::Softmax
    }
}

/// The IEEE-754 bit pattern of the single-precision number 1.0.
pub const F32_ONE_BITS: u32 = 0x3F80_0000;

/// A single-precision number, given by its bit pattern, that is finite and
/// strictly greater than zero. Positive finite numbers are exactly the bit
/// patterns strictly between +0.0 and +infinity.
pub open spec fn f32_bits_positive_finite(bits: u32) -> bool {
    0 < bits && bits < 0x7F80_0000
}

pub fn f32_bits_is_positive_finite(bits: u32) -> (b: bool)
    ensures
        b == f32_bits_positive_finite(bits),
{
    0 < bits && bits < 0x7F80_0000
}

/// A single-precision number, given by its bit pattern, that is neither
/// infinite nor NaN.
pub open spec fn f32_bits_finite(bits: u32) -> bool {
    bits & 0x7F80_0000 != 0x7F80_0000
}

#[derive(Debug, Clone, PartialEq, Eq)]
pub struct RouterContract {
    pub score: RouterScoreKind,
    pub normalize_selected: bool,
    /// Bit pattern of the single-precision routed scaling factor.
    pub scaling_factor_bits: u32,
    pub correction_bias: bool,
    pub groups: u32,
    pub selected_groups: u32,
}

impl Default for RouterContract {
    fn default() -> (r: Self)
        ensures
            r.score == RouterScoreKind::Softmax,
            !r.normalize_selected,
            r.scaling_factor_bits == F32_ONE_BITS,
            !r.correction_bias,
            r.groups == 1,
            r.selected_groups == 1,
    {
        RouterContract {
            score: RouterScoreKind::Softmax,
            normalize_selected: false,
            scaling_factor_bits: F32_ONE_BITS,
            correction_bias: false,
            groups: 1,
            selected_groups: 1,
        }
    }
}

#[derive(Debug, Clone, PartialEq, Eq)]
pub struct AttentionContract {
    pub heads: u32,
    pub kv_heads: u32,
    pub head_dim: u32,
    pub q_lora_rank: u32,
    pub kv_lora_rank: u32,
    pub qk_nope_head_dim: u32,
    pub qk_rope_head_dim: u32,
    pub value_head_dim: u32,
}

impl Default for AttentionContract {
    fn default() -> (r: Self)
        ensures
            r.heads == 0 && r.kv_heads == 0 && r.head_dim == 0 && r.q_lora_rank == 0
                && r.kv_lora_rank == 0 && r.qk_nope_head_dim == 0 && r.qk_rope_head_dim == 0
                && r.value_head_dim == 0,
    {
        AttentionContract {
            heads: 0,
            kv_heads: 0,
            head_dim: 0,
            q_lora_rank: 0,
            kv_lora_rank: 0,
            qk_nope_head_dim: 0,
            qk_rope_head_dim: 0,
            value_head_dim: 0,
        }
    }
}

#[derive(Debug, Clone, PartialEq, Eq)]
pub struct QuantizationContract {
    pub bits: u8,
    pub group_size: u32,
    pub symmetric: bool,
    pub scale_dtype: Option<String>,
}

impl Default for QuantizationContract {
    fn default() -> (r: Self)
        ensures
            r.bits == 0,
            r.group_size == 0,
            !r.symmetric,
            r.scale_dtype.is_none(),
    {
        QuantizationContract { bits: 0, group_size: 0, symmetric: false, scale_dtype: None }
    }
}

#[derive(Debug, Clone, Copy, PartialEq, Eq, Structural)]
pub enum AttentionKind {
    Standard,
    Mla,
    SlidingWindow,
    Hybrid,
    Custom,
}

#[derive(Debug, Clone, Copy, PartialEq, Eq, Structural)]
pub enum RouterSemantics {
    TopKWeighted,
    TopKNormalized,
    GroupLimitedTopK,
    TopKSoftmax,
    TopKSigmoid,
    NoAuxTc,
    Custom,
}

#[derive(Debug, Clone, Copy, PartialEq, Eq, Structural)]
pub enum WeightFormat {
    F32,
    F16,
    Bf16,
    Int8,
    Int4Group,
    /// compressed-tensors `pack-quantized`, symmetric INT4, group size 32.
    PackedInt4Group32,
    Fp8E4m3,
    Nvfp4,
    Mxfp4,
    Gguf,
    Custom,
}

#[derive(Debug, Clone, PartialEq, Eq)]
pub struct ArchitectureContract {
    /// Stable adapter identifier, not an executable command.
    pub adapter: String,
    pub model_type: String,
    pub attention: AttentionKind,
    pub router: RouterSemantics,
    pub expert_format: WeightFormat,
    pub family: ModelFamily,
    pub expert_layout: ExpertTensorLayout,
    pub activation: ActivationKind,
    pub router_config: RouterContract,
    pub attention_config: AttentionContract,
    pub quantization: QuantizationContract,
    pub hidden_size: u32,
    pub expert_intermediate_size: u32,
    /// Exact decoder layers that contain routed experts.
    pub moe_layers: Vec<u32>,
    pub num_layers: u32,
    pub experts_per_layer: u32,
    pub experts_per_token: u32,
    /// Must be true only after reference-logit/token tests pass.
    pub forward_verified: bool,
}

#[derive(Debug, Clone, PartialEq, Eq)]
pub struct TensorSegment {
    /// Original tensor name used by the architecture adapter.
    pub tensor: String,
    /// SafeTensors dtype (for example `I32` or `BF16`).
    pub dtype: Option<String>,
    /// Logical tensor shape before any packed representation.
    pub shape: Vec<u64>,
    /// Relative path under the model root.
    pub shard: String,
    pub offset: u64,
    pub length: u64,
}

#[derive(Debug, Clone, PartialEq, Eq)]
pub struct ExpertLocation {
    pub layer: u32,
    pub expert: u32,
    pub segments: Vec<TensorSegment>,
}

/// Sum of the lengths of `segs`.
pub open spec fn segments_bytes(segs: Seq<TensorSegment>) -> nat
    decreases segs.len(),
{
    if segs.len() == 0 {
        0
    } else {
        segments_bytes(segs.drop_last()) + segs.last().length as nat
    }
}

impl ExpertLocation {
    pub fn key(&self) -> (k: ExpertKey)
        ensures
            k.layer == self.layer,
            k.expert == self.expert,
    {
        ExpertKey::new(self.layer, self.expert)
    }

    /// Total bytes of the expert's segments.
    pub fn byte_len(&self) -> (n: u64)
        requires
            segments_bytes(self.segments@) <= u64::MAX,
        ensures
            n == segments_bytes(self.segments@),
    {
        let mut total: u64 = 0;
        let mut i: usize = 0;
        while i < self.segments.len()
            invariant
                i <= self.segments@.len(),
                segments_bytes(self.segments@) <= u64::MAX,
                total == segments_bytes(self.segments@.take(i as int)),
            decreases self.segments@.len() - i,
        {
            assert(self.segments@.take(i + 1).drop_last() =~= self.segments@.take(i as int));
            proof { lemma_segments_bytes_monotone(self.segments@, i + 1); }
            total = total + self.segments[i].length;
            i += 1;
        }
        assert(self.segments@.take(i as int) =~= self.segments@);
        total
    }
}

#[derive(Debug, Clone, PartialEq, Eq)]
pub struct ExpertStorageManifest {
    /// True when every expert's matrices occupy one contiguous byte range.
    pub contiguous_experts: bool,
    pub experts: Vec<ExpertLocation>,
    /// Non-routed tensors remain individually addressable.
    pub dense_tensors: Vec<TensorSegment>,
}

#[derive(Debug, Clone, PartialEq, Eq)]
pub struct RuntimeManifest {
    pub schema_version: u32,
    pub architecture: ArchitectureContract,
    /// Total non-routed bytes. Individual dense tensors remain streamable.
    pub dense_bytes: u64,
    pub storage: ExpertStorageManifest,
}

#[derive(Debug, Clone, PartialEq, Eq)]
pub enum ManifestError {
    Read { path: String, message: String },
    Json { path: String, message: String },
    Schema(u32),
    Contract(String),
    Location(String),
    Shard(String),
}

pub open spec fn is_path_sep(c: char) -> bool {
    c == '/' || c == '\\'
}

pub open spec fn is_ascii_alpha(c: char) -> bool {
    ('a' <= c && c <= 'z') || ('A' <= c && c <= 'Z')
}

/// A `..` component starts at position `i`.
pub open spec fn parent_component_at(s: Seq<char>, i: int) -> bool {
    &&& 0 <= i && i + 2 <= s.len()
    &&& s[i] == '.' && s[i + 1] == '.'
    &&& i == 0 || is_path_sep(s[i - 1])
    &&& i + 2 == s.len() || is_path_sep(s[i + 2])
}

/// A non-empty path made only of normal and `.` components: not rooted, no
/// drive prefix, and no `..` component. Both `/` and `\` separate
/// components, and `X:` at the start is a drive prefix.
pub open spec fn spec_safe_relative_path(s: Seq<char>) -> bool {
    &&& s.len() > 0
    &&& !is_path_sep(s[0])
    &&& !(s.len() >= 2 && s[1] == ':' && is_ascii_alpha(s[0]))
    &&& forall|i: int| !parent_component_at(s, i)
}

pub fn safe_relative_path(path: &str) -> (b: bool)
    ensures
        b == spec_safe_relative_path(path@),
{
    let s = chars_of(path);
    if s.len() == 0 {
        return false;
    }
    if s[0] == '/' || s[0] == '\\' {
        return false;
    }
    if s.len() >= 2 && s[1] == ':' && (('a' <= s[0] && s[0] <= 'z') || ('A' <= s[0] && s[0] <= 'Z')) {
        return false;
    }
    let mut i: usize = 0;
    while i < s.len()
        invariant
            i <= s.len(),
            s@ == path@,
            forall|k: int| 0 <= k < i ==> !parent_component_at(s@, k),
        decreases s.len() - i,
    {
        if i + 1 < s.len() && s[i] == '.' && s[i + 1] == '.'
            && (i == 0 || s[i - 1] == '/' || s[i - 1] == '\\')
            && (i + 2 == s.len() || s[i + 2] == '/' || s[i + 2] == '\\')
        {
            assert(parent_component_at(s@, i as int));
            return false;
        }
        i += 1;
    }
    true
}


/// Size of one shard file under the model root, as found on disk (`None`
/// where it could not be read).
#[derive(Debug, Clone, PartialEq, Eq)]
pub struct ShardSize {
    pub shard: String,
    pub size: Option<u64>,
}

/// The size recorded for `shard`: the first matching entry, `None` when the
/// shard is not listed or could not be read.
pub open spec fn shard_size(sizes: Seq<ShardSize>, shard: Seq<char>) -> Option<u64>
    decreases sizes.len(),
{
    if sizes.len() == 0 {
        None
    } else if sizes[0].shard@ == shard {
        sizes[0].size
    } else {
        shard_size(sizes.drop_first(), shard)
    }
}

pub fn lookup_shard_size(sizes: &Vec<ShardSize>, shard: &str) -> (r: Option<u64>)
    ensures
        r == shard_size(sizes@, shard@),
{
    let mut i: usize = 0;
    assert(sizes@.skip(0) =~= sizes@);
    while i < sizes.len()
        invariant
            i <= sizes.len(),
            shard_size(sizes@, shard@) == shard_size(sizes@.skip(i as int), shard@),
        decreases sizes.len() - i,
    {
        assert(sizes@.skip(i as int).drop_first() =~= sizes@.skip(i + 1));
        if crate::text::str_eq(sizes[i].shard.as_str(), shard) {
            return sizes[i].size;
        }
        i += 1;
    }
    None
}

/// The architecture fields that must be consistent before any index entry is read.
pub open spec fn contract_fields_ok(c: ArchitectureContract) -> bool {
    &&& !is_blank(c.adapter@)
    &&& !is_blank(c.model_type@)
    &&& c.num_layers > 0
    &&& c.experts_per_layer > 0
    &&& c.experts_per_token > 0
    &&& c.experts_per_token <= c.experts_per_layer
    &&& c.hidden_size > 0 ==> c.expert_intermediate_size > 0
    &&& c.router_config.groups > 0
    &&& c.router_config.selected_groups > 0
    &&& c.router_config.selected_groups <= c.router_config.groups
    &&& c.experts_per_layer % c.router_config.groups == 0
    &&& f32_bits_positive_finite(c.router_config.scaling_factor_bits)
}

/// The refusal of the first group of architecture fields that is wrong.
pub open spec fn contract_fields_message(c: ArchitectureContract) -> Seq<char> {
    if is_blank(c.adapter@) || is_blank(c.model_type@) {
        "adapter and model_type must be non-empty"@
    } else if c.num_layers == 0 || c.experts_per_layer == 0 || c.experts_per_token == 0
        || c.experts_per_token > c.experts_per_layer {
        "layer/expert counts and top-k must be positive and consistent"@
    } else if c.hidden_size > 0 && c.expert_intermediate_size == 0 {
        "expert_intermediate_size is required when the extended contract is present"@
    } else {
        "router groups and scaling factor are invalid"@
    }
}

/// `moe_layers` has no duplicate and no layer outside the decoder.
pub open spec fn moe_layers_ok(c: ArchitectureContract) -> bool {
    &&& forall|i: int, j: int|
        0 <= i < j < c.moe_layers@.len() ==> c.moe_layers@[i] != c.moe_layers@[j]
    &&& forall|i: int| 0 <= i < c.moe_layers@.len() ==> #[trigger] c.moe_layers@[i] < c.num_layers
}

/// The byte range of `seg` exists in its shard.
pub open spec fn segment_range_ok(seg: TensorSegment, sizes: Seq<ShardSize>) -> bool {
    &&& seg.offset + seg.length <= u64::MAX
    &&& shard_size(sizes, seg.shard@) is Some
    &&& seg.offset + seg.length <= shard_size(sizes, seg.shard@).unwrap()
}

/// A named, non-empty segment of a safe shard whose bytes exist.
pub open spec fn segment_ok(seg: TensorSegment, sizes: Seq<ShardSize>) -> bool {
    &&& !is_blank(seg.tensor@)
    &&& seg.length > 0
    &&& spec_safe_relative_path(seg.shard@)
    &&& segment_range_ok(seg, sizes)
}

pub open spec fn tensor_names_distinct(segs: Seq<TensorSegment>) -> bool {
    forall|i: int, j: int| 0 <= i < j < segs.len() ==> segs[i].tensor@ != segs[j].tensor@
}

pub open spec fn location_ok(loc: ExpertLocation, c: ArchitectureContract, sizes: Seq<ShardSize>) -> bool {
    &&& loc.layer < c.num_layers
    &&& loc.expert < c.experts_per_layer
    &&& loc.segments@.len() > 0
    &&& tensor_names_distinct(loc.segments@)
    &&& forall|k: int| 0 <= k < loc.segments@.len() ==> segment_ok(#[trigger] loc.segments@[k], sizes)
}

pub open spec fn keys_distinct(experts: Seq<ExpertLocation>) -> bool {
    forall|i: int, j: int|
        0 <= i < j < experts.len() ==> !(experts[i].layer == experts[j].layer
            && experts[i].expert == experts[j].expert)
}

pub open spec fn layer_indexed(experts: Seq<ExpertLocation>, layer: u32) -> bool {
    exists|i: int| 0 <= i < experts.len() && #[trigger] experts[i].layer == layer
}

pub open spec fn has_expert(experts: Seq<ExpertLocation>, layer: u32, expert: u32) -> bool {
    exists|i: int|
        0 <= i < experts.len() && #[trigger] experts[i].layer == layer && experts[i].expert == expert
}

/// The indexed layers are exactly the declared routed layers (when any are declared).
pub open spec fn layers_match(c: ArchitectureContract, experts: Seq<ExpertLocation>) -> bool {
    c.moe_layers@.len() == 0 || forall|l: u32|
        layer_indexed(experts, l) <==> #[trigger] c.moe_layers@.contains(l)
}

/// Every indexed layer indexes every routed expert.
pub open spec fn layers_complete(c: ArchitectureContract, experts: Seq<ExpertLocation>) -> bool {
    forall|l: u32, e: u32|
        layer_indexed(experts, l) && e < c.experts_per_layer ==> #[trigger] has_expert(experts, l, e)
}

/// What a segment contributes to an expert's tensor signature.
pub open spec fn seg_sig(seg: TensorSegment) -> (Option<Seq<char>>, Seq<u64>, u64) {
    (
        match seg.dtype {
            Some(d) => Some(d@),
            None => None,
        },
        seg.shape@,
        seg.length,
    )
}

/// How many segments of `segs` have signature `x`.
pub open spec fn sig_count(segs: Seq<TensorSegment>, x: (Option<Seq<char>>, Seq<u64>, u64)) -> nat
    decreases segs.len(),
{
    if segs.len() == 0 {
        0
    } else {
        sig_count(segs.drop_last(), x) + if seg_sig(segs.last()) == x { 1nat } else { 0nat }
    }
}

/// Two experts have the same tensor signature: the same multiset of
/// (dtype, shape, length) triples.
pub open spec fn same_signature(a: Seq<TensorSegment>, b: Seq<TensorSegment>) -> bool {
    forall|x: (Option<Seq<char>>, Seq<u64>, u64)| #[trigger] sig_count(a, x) == sig_count(b, x)
}

/// All experts of one layer share one tensor signature.
pub open spec fn layers_uniform(experts: Seq<ExpertLocation>) -> bool {
    forall|i: int, j: int|
        0 <= i < experts.len() && 0 <= j < experts.len() && experts[i].layer == experts[j].layer
            ==> same_signature(#[trigger] experts[i].segments@, #[trigger] experts[j].segments@)
}

pub open spec fn locations_ok(m: RuntimeManifest, sizes: Seq<ShardSize>) -> bool {
    &&& forall|i: int|
        0 <= i < m.storage.experts@.len() ==> location_ok(
            #[trigger] m.storage.experts@[i],
            m.architecture,
            sizes,
        )
    &&& keys_distinct(m.storage.experts@)
}

pub open spec fn layer_structure_ok(m: RuntimeManifest) -> bool {
    &&& layers_match(m.architecture, m.storage.experts@)
    &&& layers_complete(m.architecture, m.storage.experts@)
    &&& layers_uniform(m.storage.experts@)
}

pub open spec fn dense_entries_ok(m: RuntimeManifest, sizes: Seq<ShardSize>) -> bool {
    &&& tensor_names_distinct(m.storage.dense_tensors@)
    &&& forall|k: int|
        0 <= k < m.storage.dense_tensors@.len() ==> segment_ok(
            #[trigger] m.storage.dense_tensors@[k],
            sizes,
        )
    &&& segments_bytes(m.storage.dense_tensors@) <= u64::MAX
}

pub open spec fn dense_total_ok(m: RuntimeManifest) -> bool {
    m.storage.dense_tensors@.len() == 0 || segments_bytes(m.storage.dense_tensors@)
        == m.dense_bytes
}

pub open spec fn header_ok(m: RuntimeManifest) -> bool {
    &&& m.schema_version == CURRENT_SCHEMA
    &&& contract_fields_ok(m.architecture)
    &&& m.storage.experts@.len() > 0
    &&& moe_layers_ok(m.architecture)
}

/// Everything `validate` checks.
pub open spec fn manifest_ok(m: RuntimeManifest, sizes: Seq<ShardSize>) -> bool {
    &&& header_ok(m)
    &&& locations_ok(m, sizes)
    &&& layer_structure_ok(m)
    &&& dense_entries_ok(m, sizes)
    &&& dense_total_ok(m)
}

pub fn is_contract_err(r: &Result<(), ManifestError>) -> (b: bool)
    ensures
        b == (r matches Err(ManifestError::Contract(_))),
{
    matches!(r, Err(ManifestError::Contract(_)))
}

impl RuntimeManifest {
    #[verifier::loop_isolation(false)]
    fn check_header(&self) -> (r: Result<(), ManifestError>)
        ensures
            r is Ok <==> header_ok(*self),
            self.schema_version != CURRENT_SCHEMA ==> r == Err::<(), ManifestError>(ManifestError::Schema(self.schema_version)),
            self.schema_version == CURRENT_SCHEMA && !contract_fields_ok(self.architecture)
                ==> (r matches Err(ManifestError::Contract(m)) && m@ == contract_fields_message(self.architecture)),
            self.schema_version == CURRENT_SCHEMA && contract_fields_ok(self.architecture)
                && self.storage.experts@.len() == 0 ==> (r matches Err(ManifestError::Location(m))
                && m@ == "the expert index cannot be empty"@),
            self.schema_version == CURRENT_SCHEMA && contract_fields_ok(self.architecture)
                && self.storage.experts@.len() > 0 && !moe_layers_ok(self.architecture)
                ==> (r matches Err(ManifestError::Contract(m))
                && m@ == "moe_layers contains duplicate or out-of-range layers"@),
    {
        if self.schema_version != CURRENT_SCHEMA {
            return Err(ManifestError::Schema(self.schema_version));
        }
        let c = &self.architecture;
        if str_is_blank(c.adapter.as_str()) || str_is_blank(c.model_type.as_str()) {
            return Err(ManifestError::Contract(
                string_of("adapter and model_type must be non-empty"),
            ));
        }
        if c.num_layers == 0 || c.experts_per_layer == 0 || c.experts_per_token == 0
            || c.experts_per_token > c.experts_per_layer
        {
            return Err(ManifestError::Contract(
                string_of("layer/expert counts and top-k must be positive and consistent"),
            ));
        }
        if c.hidden_size > 0 && c.expert_intermediate_size == 0 {
            return Err(ManifestError::Contract(
                string_of("expert_intermediate_size is required when the extended contract is present"),
            ));
        }
        let rc = &c.router_config;
        if rc.groups == 0 || rc.selected_groups == 0 || rc.selected_groups > rc.groups
            || c.experts_per_layer % rc.groups != 0
            || !f32_bits_is_positive_finite(rc.scaling_factor_bits)
        {
            return Err(ManifestError::Contract(string_of("router groups and scaling factor are invalid")));
        }
        if self.storage.experts.len() == 0 {
            return Err(ManifestError::Location(string_of("the expert index cannot be empty")));
        }
        let n = c.moe_layers.len();
        let mut i: usize = 0;
        while i < n
            invariant
                n == c.moe_layers@.len(),
                i <= n,
                forall|a: int, b: int| 0 <= a < b < i ==> c.moe_layers@[a] != c.moe_layers@[b],
                forall|a: int| 0 <= a < i ==> #[trigger] c.moe_layers@[a] < c.num_layers,
            decreases n - i,
        {
            let layer = c.moe_layers[i];
            if layer >= c.num_layers {
                return Err(ManifestError::Contract(
                    string_of("moe_layers contains duplicate or out-of-range layers"),
                ));
            }
            let mut j: usize = 0;
            while j < i
                invariant
                    j <= i,
                    i < n,
                    n == c.moe_layers@.len(),
                    layer == c.moe_layers@[i as int],
                    forall|a: int| 0 <= a < j ==> c.moe_layers@[a] != layer,
                decreases i - j,
            {
                if c.moe_layers[j] == layer {
                    return Err(ManifestError::Contract(
                        string_of("moe_layers contains duplicate or out-of-range layers"),
                    ));
                }
                j += 1;
            }
            i += 1;
        }
        Ok(())
    }
}


fn layer_expert_msg(prefix: &str, layer: u32, expert: u32, suffix: &str) -> (m: String)
    ensures
        m@ == prefix@ + "layer "@ + decimal(layer as nat) + " expert "@ + decimal(expert as nat) + suffix@,
{
    let mut m = string_of(prefix);
    push_str(&mut m, "layer ");
    push_decimal(&mut m, layer as u64);
    push_str(&mut m, " expert ");
    push_decimal(&mut m, expert as u64);
    push_str(&mut m, suffix);
    m
}

fn shard_display(root: &str, shard: &str) -> (m: String)
    ensures
        m@ == root@ + "/"@ + shard@,
{
    let mut m = string_of(root);
    push_str(&mut m, "/");
    push_str(&mut m, shard);
    m
}

/// Lookup structures built while the expert index is checked.
struct LocationIndex {
    /// Packed expert key to its position in the index.
    by_key: HashMap<u64, usize>,
    /// Distinct indexed layers, in first-seen order.
    layers: Vec<u32>,
    layer_set: HashSet<u32>,
}

impl LocationIndex {
    spec fn wf_upto(&self, experts: Seq<ExpertLocation>, n: int) -> bool {
        &&& forall|k: u64| #[trigger] self.by_key@.contains_key(k) ==> {
            &&& 0 <= self.by_key@[k] < n
            &&& ExpertKey { layer: experts[self.by_key@[k] as int].layer, expert: experts[self.by_key@[k] as int].expert }.spec_packed() == k
        }
        &&& forall|i: int| 0 <= i < n ==> #[trigger] self.by_key@.contains_key(
            ExpertKey { layer: experts[i].layer, expert: experts[i].expert }.spec_packed(),
        )
        &&& forall|a: int, b: int| 0 <= a < b < self.layers@.len() ==> self.layers@[a] != self.layers@[b]
        &&& forall|l: u32| #[trigger] self.layers@.contains(l) <==> exists|i: int|
            0 <= i < n && #[trigger] experts[i].layer == l
        &&& forall|l: u32| #[trigger] self.layer_set@.contains(l) <==> self.layers@.contains(l)
    }
}

/// Checks one expert segment (its name was already checked against the
/// earlier segments of the same expert).
fn check_expert_segment(
    seg: &TensorSegment,
    layer: u32,
    expert: u32,
    duplicate: bool,
    root: &str,
    sizes: &Vec<ShardSize>,
) -> (r: Result<(), ManifestError>)
    ensures
        r is Ok <==> (segment_ok(*seg, sizes@) && !duplicate),
        r matches Err(e) ==> (e is Location || e is Shard),
{
    if str_is_blank(seg.tensor.as_str()) || seg.length == 0 || duplicate {
        return Err(ManifestError::Location(
            layer_expert_msg("", layer, expert, " has an empty/duplicate tensor segment"),
        ));
    }
    check_segment_bytes(seg, root, sizes, true)
}

/// The safe-path, byte-range and shard-size checks of one segment.
fn check_segment_bytes(
    seg: &TensorSegment,
    root: &str,
    sizes: &Vec<ShardSize>,
    expert_segment: bool,
) -> (r: Result<(), ManifestError>)
    ensures
        r is Ok <==> (spec_safe_relative_path(seg.shard@) && segment_range_ok(*seg, sizes@)),
        r matches Err(e) ==> (e is Location || e is Shard),
{
    if !safe_relative_path(seg.shard.as_str()) {
        if expert_segment {
            let mut m = string_of("unsafe shard path ");
            push_str(&mut m, seg.shard.as_str());
            return Err(ManifestError::Location(m));
        } else {
            return Err(ManifestError::Location(
                string_of("dense tensor index contains an invalid or duplicate entry"),
            ));
        }
    }
    if seg.offset > u64::MAX - seg.length {
        if expert_segment {
            let mut m = string_of("byte range overflow for ");
            push_str(&mut m, seg.shard.as_str());
            return Err(ManifestError::Location(m));
        } else {
            return Err(ManifestError::Location(string_of("dense byte range overflow")));
        }
    }
    let required = seg.offset + seg.length;
    let shown = shard_display(root, seg.shard.as_str());
    match lookup_shard_size(sizes, seg.shard.as_str()) {
        None => Err(ManifestError::Shard(shown)),
        Some(actual) => {
            if required > actual {
                let mut m = shown;
                push_str(&mut m, " needs ");
                push_decimal(&mut m, required);
                push_str(&mut m, " bytes but has ");
                push_decimal(&mut m, actual);
                Err(ManifestError::Shard(m))
            } else {
                Ok(())
            }
        }
    }
}

/// Whether `segs[k]` repeats the tensor name of an earlier segment.
fn repeats_earlier_name(segs: &Vec<TensorSegment>, k: usize) -> (b: bool)
    requires
        k < segs@.len(),
    ensures
        b == exists|j: int| 0 <= j < k && segs@[j].tensor@ == segs@[k as int].tensor@,
{
    let mut j: usize = 0;
    while j < k
        invariant
            j <= k,
            k < segs@.len(),
            forall|a: int| 0 <= a < j ==> segs@[a].tensor@ != segs@[k as int].tensor@,
        decreases k - j,
    {
        if crate::text::str_eq(segs[j].tensor.as_str(), segs[k].tensor.as_str()) {
            return true;
        }
        j += 1;
    }
    false
}

/// Checks one expert location of the index.
fn check_location(
    loc: &ExpertLocation,
    c: &ArchitectureContract,
    root: &str,
    sizes: &Vec<ShardSize>,
) -> (r: Result<(), ManifestError>)
    ensures
        r is Ok <==> location_ok(*loc, *c, sizes@),
        r matches Err(e) ==> (e is Location || e is Shard),
{
    if loc.layer >= c.num_layers || loc.expert >= c.experts_per_layer || loc.segments.len() == 0 {
        return Err(ManifestError::Location(
            layer_expert_msg("", loc.layer, loc.expert, " is outside the contract or empty"),
        ));
    }
    let mut k: usize = 0;
    while k < loc.segments.len()
        invariant
            k <= loc.segments@.len(),
            tensor_names_distinct(loc.segments@.take(k as int)),
            forall|a: int| 0 <= a < k ==> segment_ok(#[trigger] loc.segments@[a], sizes@),
        decreases loc.segments@.len() - k,
    {
        let duplicate = repeats_earlier_name(&loc.segments, k);
        let checked = check_expert_segment(&loc.segments[k], loc.layer, loc.expert, duplicate, root, sizes);
        if checked.is_err() {
            proof {
                if !duplicate {
                    assert(!segment_ok(loc.segments@[k as int], sizes@));
                } else {
                    let j = choose|j: int| 0 <= j < k && loc.segments@[j].tensor@ == loc.segments@[k as int].tensor@;
                    assert(!tensor_names_distinct(loc.segments@));
                }
            }
            return checked;
        }
        assert(tensor_names_distinct(loc.segments@.take(k + 1)));
        k += 1;
    }
    assert(loc.segments@.take(k as int) =~= loc.segments@);
    Ok(())
}

impl RuntimeManifest {
    #[verifier::loop_isolation(false)]
    fn check_locations(&self, root: &str, sizes: &Vec<ShardSize>) -> (r: Result<LocationIndex, ManifestError>)
        ensures
            r is Ok <==> locations_ok(*self, sizes@),
            r matches Err(e) ==> (e is Location || e is Shard),
            r matches Ok(ix) ==> ix.wf_upto(self.storage.experts@, self.storage.experts@.len() as int),
    {
        broadcast use vstd::std_specs::hash::group_hash_axioms;
        let experts = &self.storage.experts;
        let mut ix = LocationIndex { by_key: HashMap::new(), layers: Vec::new(), layer_set: HashSet::new() };
        let mut i: usize = 0;
        while i < experts.len()
            invariant
                i <= experts@.len(),
                ix.wf_upto(experts@, i as int),
                forall|a: int| 0 <= a < i ==> location_ok(#[trigger] experts@[a], self.architecture, sizes@),
                keys_distinct(experts@.take(i as int)),
            decreases experts@.len() - i,
        {
            let loc = &experts[i];
            let checked = check_location(loc, &self.architecture, root, sizes);
            if checked.is_err() {
                return Err(checked.unwrap_err());
            }
            let key = loc.key();
            let packed = key.packed();
            if ix.by_key.contains_key(&packed) {
                proof {
                    let j = ix.by_key@[packed] as int;
                    lemma_packed_injective(key, ExpertKey { layer: experts@[j].layer, expert: experts@[j].expert });
                    assert(!keys_distinct(experts@));
                }
                return Err(ManifestError::Location(
                    layer_expert_msg("duplicate ", loc.layer, loc.expert, ""),
                ));
            }
            proof {
                assert forall|a: int| 0 <= a < i implies !(experts@[a].layer == loc.layer && experts@[a].expert == loc.expert) by {
                    if experts@[a].layer == loc.layer && experts@[a].expert == loc.expert {
                        assert(ix.by_key@.contains_key(ExpertKey { layer: experts@[a].layer, expert: experts@[a].expert }.spec_packed()));
                    }
                }
            }
            ix.by_key.insert(packed, i);
            let ghost old_layers = ix.layers@;
            if !ix.layer_set.contains(&loc.layer) {
                ix.layers.push(loc.layer);
                ix.layer_set.insert(loc.layer);
            }
            proof {
                assert(old_layers.contains(loc.layer) ==> ix.layers@ == old_layers);
                assert forall|l: u32| #[trigger] ix.layers@.contains(l) <==> (old_layers.contains(l) || l == loc.layer) by {
                    if !old_layers.contains(loc.layer) {
                        assert(ix.layers@ == old_layers.push(loc.layer));
                        if ix.layers@.contains(l) {
                            let a = choose|a: int| 0 <= a < ix.layers@.len() && ix.layers@[a] == l;
                            if a < old_layers.len() {
                                assert(old_layers[a] == l);
                            }
                        }
                        if old_layers.contains(l) {
                            let a = choose|a: int| 0 <= a < old_layers.len() && old_layers[a] == l;
                            assert(ix.layers@[a] == l);
                        }
                        assert(ix.layers@[old_layers.len() as int] == loc.layer);
                    }
                }
                assert forall|k: u64| #[trigger] ix.by_key@.contains_key(k) implies {
                    &&& 0 <= ix.by_key@[k] < i + 1
                    &&& ExpertKey { layer: experts@[ix.by_key@[k] as int].layer, expert: experts@[ix.by_key@[k] as int].expert }.spec_packed() == k
                } by {}
                assert forall|l: u32| #[trigger] ix.layers@.contains(l) <==> exists|a: int|
                    0 <= a < i + 1 && #[trigger] experts@[a].layer == l by {
                    if exists|a: int| 0 <= a < i + 1 && #[trigger] experts@[a].layer == l {
                        let a = choose|a: int| 0 <= a < i + 1 && #[trigger] experts@[a].layer == l;
                        if a < i {
                            assert(exists|b: int| 0 <= b < i && #[trigger] experts@[b].layer == l);
                        } else {
                            assert(l == loc.layer);
                        }
                    }
                    if l == loc.layer {
                        assert(experts@[i as int].layer == l);
                    }
                }
                assert forall|a: int, b: int| 0 <= a < b < ix.layers@.len() implies ix.layers@[a] != ix.layers@[b] by {
                    if !old_layers.contains(loc.layer) && b == old_layers.len() {
                        assert(old_layers[a] == ix.layers@[a]);
                    }
                }
                assert(keys_distinct(experts@.take(i + 1)));
            }
            i += 1;
        }
        assert(experts@.take(i as int) =~= experts@);
        Ok(ix)
    }
}


pub proof fn lemma_sig_count_positive(segs: Seq<TensorSegment>, x: (Option<Seq<char>>, Seq<u64>, u64))
    requires
        sig_count(segs, x) > 0,
    ensures
        exists|i: int| 0 <= i < segs.len() && seg_sig(#[trigger] segs[i]) == x,
    decreases segs.len(),
{
    if seg_sig(segs.last()) == x {
        assert(seg_sig(segs[segs.len() - 1]) == x);
    } else {
        lemma_sig_count_positive(segs.drop_last(), x);
        let i = choose|i: int| 0 <= i < segs.drop_last().len() && seg_sig(#[trigger] segs.drop_last()[i]) == x;
        assert(segs[i] == segs.drop_last()[i]);
    }
}

fn u64_vec_eq(a: &Vec<u64>, b: &Vec<u64>) -> (r: bool)
    ensures
        r == (a@ == b@),
{
    if a.len() != b.len() {
        return false;
    }
    let mut i: usize = 0;
    while i < a.len()
        invariant
            i <= a.len(),
            a.len() == b.len(),
            forall|k: int| 0 <= k < i ==> a@[k] == b@[k],
        decreases a.len() - i,
    {
        if a[i] != b[i] {
            return false;
        }
        i += 1;
    }
    assert(a@ =~= b@);
    true
}

fn opt_str_eq(a: &Option<String>, b: &Option<String>) -> (r: bool)
    ensures
        r == (match (a, b) {
            (Some(x), Some(y)) => x@ == y@,
            (None, None) => true,
            _ => false,
        }),
{
    match (a, b) {
        (Some(x), Some(y)) => crate::text::str_eq(x.as_str(), y.as_str()),
        (None, None) => true,
        _ => false,
    }
}

fn sig_eq(a: &TensorSegment, b: &TensorSegment) -> (r: bool)
    ensures
        r == (seg_sig(*a) == seg_sig(*b)),
{
    opt_str_eq(&a.dtype, &b.dtype) && u64_vec_eq(&a.shape, &b.shape) && a.length == b.length
}

fn count_sig(v: &Vec<TensorSegment>, t: &TensorSegment) -> (n: usize)
    ensures
        n == sig_count(v@, seg_sig(*t)),
{
    let mut n: usize = 0;
    let mut i: usize = 0;
    while i < v.len()
        invariant
            i <= v.len(),
            n == sig_count(v@.take(i as int), seg_sig(*t)),
            n <= i,
        decreases v.len() - i,
    {
        assert(v@.take(i + 1).drop_last() =~= v@.take(i as int));
        if sig_eq(&v[i], t) {
            n += 1;
        }
        i += 1;
    }
    assert(v@.take(i as int) =~= v@);
    n
}

/// Whether every signature of `a` occurs as often in `b`.
fn counts_agree(a: &Vec<TensorSegment>, b: &Vec<TensorSegment>) -> (r: bool)
    ensures
        r == forall|i: int| 0 <= i < a@.len() ==> sig_count(a@, seg_sig(#[trigger] a@[i]))
            == sig_count(b@, seg_sig(a@[i])),
{
    let mut i: usize = 0;
    while i < a.len()
        invariant
            i <= a.len(),
            forall|k: int| 0 <= k < i ==> sig_count(a@, seg_sig(#[trigger] a@[k])) == sig_count(b@, seg_sig(a@[k])),
        decreases a.len() - i,
    {
        if count_sig(a, &a[i]) != count_sig(b, &a[i]) {
            return false;
        }
        i += 1;
    }
    true
}

fn same_signature_exec(a: &Vec<TensorSegment>, b: &Vec<TensorSegment>) -> (r: bool)
    ensures
        r == same_signature(a@, b@),
{
    let r = counts_agree(a, b) && counts_agree(b, a);
    proof {
        if r {
            assert forall|x: (Option<Seq<char>>, Seq<u64>, u64)| #[trigger] sig_count(a@, x) == sig_count(b@, x) by {
                if sig_count(a@, x) > 0 {
                    lemma_sig_count_positive(a@, x);
                } else if sig_count(b@, x) > 0 {
                    lemma_sig_count_positive(b@, x);
                }
            }
        }
    }
    r
}

proof fn lemma_index_of_location(ix: &LocationIndex, experts: Seq<ExpertLocation>, i: int)
    requires
        ix.wf_upto(experts, experts.len() as int),
        keys_distinct(experts),
        0 <= i < experts.len(),
    ensures
        ix.by_key@.contains_key(ExpertKey { layer: experts[i].layer, expert: experts[i].expert }.spec_packed()),
        ix.by_key@[ExpertKey { layer: experts[i].layer, expert: experts[i].expert }.spec_packed()] == i,
{
    let k = ExpertKey { layer: experts[i].layer, expert: experts[i].expert };
    assert(ix.by_key@.contains_key(k.spec_packed()));
    let j = ix.by_key@[k.spec_packed()] as int;
    let kj = ExpertKey { layer: experts[j].layer, expert: experts[j].expert };
    lemma_packed_injective(k, kj);
    if i < j {
        assert(!(experts[i].layer == experts[j].layer && experts[i].expert == experts[j].expert));
    } else if j < i {
        assert(!(experts[j].layer == experts[i].layer && experts[j].expert == experts[i].expert));
    }
}

impl RuntimeManifest {
    /// Declared routed layers against indexed layers.
    #[verifier::loop_isolation(false)]
    fn check_layers_match(&self, ix: &LocationIndex) -> (r: Result<(), ManifestError>)
        requires
            header_ok(*self),
            ix.wf_upto(self.storage.experts@, self.storage.experts@.len() as int),
        ensures
            r is Ok <==> layers_match(self.architecture, self.storage.experts@),
            r matches Err(e) ==> e is Location,
    {
        broadcast use vstd::std_specs::hash::group_hash_axioms;
        let c = &self.architecture;
        let experts = &self.storage.experts;
        if c.moe_layers.len() == 0 {
            return Ok(());
        }
        let mut declared: HashSet<u32> = HashSet::new();
        let mut i: usize = 0;
        while i < c.moe_layers.len()
            invariant
                i <= c.moe_layers@.len(),
                forall|l: u32| #[trigger] declared@.contains(l) <==> exists|a: int| 0 <= a < i && #[trigger] c.moe_layers@[a] == l,
            decreases c.moe_layers@.len() - i,
        {
            declared.insert(c.moe_layers[i]);
            proof {
                assert forall|l: u32| #[trigger] declared@.contains(l) <==> exists|a: int| 0 <= a < i + 1 && #[trigger] c.moe_layers@[a] == l by {
                    if l == c.moe_layers@[i as int] {
                        assert(c.moe_layers@[i as int] == l);
                    }
                }
            }
            i += 1;
        }
        assert forall|l: u32| #[trigger] declared@.contains(l) <==> c.moe_layers@.contains(l) by {
            if c.moe_layers@.contains(l) {
                let a = choose|a: int| 0 <= a < c.moe_layers@.len() && c.moe_layers@[a] == l;
                assert(c.moe_layers@[a] == l);
            }
        }
        let msg = "indexed expert layers do not exactly match architecture.moe_layers";
        let mut j: usize = 0;
        while j < ix.layers.len()
            invariant
                j <= ix.layers@.len(),
                forall|a: int| 0 <= a < j ==> c.moe_layers@.contains(#[trigger] ix.layers@[a]),
            decreases ix.layers@.len() - j,
        {
            if !declared.contains(&ix.layers[j]) {
                proof {
                    let l = ix.layers@[j as int];
                    assert(ix.layers@.contains(l));
                    assert(layer_indexed(experts@, l));
                }
                return Err(ManifestError::Location(string_of(msg)));
            }
            j += 1;
        }
        let mut k: usize = 0;
        while k < c.moe_layers.len()
            invariant
                k <= c.moe_layers@.len(),
                forall|a: int| 0 <= a < k ==> ix.layers@.contains(#[trigger] c.moe_layers@[a]),
            decreases c.moe_layers@.len() - k,
        {
            if !ix.layer_set.contains(&c.moe_layers[k]) {
                proof {
                    let l = c.moe_layers@[k as int];
                    assert(c.moe_layers@.contains(l));
                    assert(!layer_indexed(experts@, l));
                }
                return Err(ManifestError::Location(string_of(msg)));
            }
            k += 1;
        }
        proof {
            assert forall|l: u32| layer_indexed(experts@, l) <==> #[trigger] c.moe_layers@.contains(l) by {
                if layer_indexed(experts@, l) {
                    assert(ix.layers@.contains(l));
                    let a = choose|a: int| 0 <= a < ix.layers@.len() && ix.layers@[a] == l;
                    assert(c.moe_layers@.contains(ix.layers@[a]));
                }
                if c.moe_layers@.contains(l) {
                    let a = choose|a: int| 0 <= a < c.moe_layers@.len() && c.moe_layers@[a] == l;
                    assert(ix.layers@.contains(c.moe_layers@[a]));
                }
            }
        }
        Ok(())
    }
}


impl RuntimeManifest {
    /// Every indexed layer holds every routed expert, all with expert zero's signature.
    #[verifier::loop_isolation(false)]
    fn check_layer_contents(&self, ix: &LocationIndex) -> (r: Result<(), ManifestError>)
        requires
            header_ok(*self),
            keys_distinct(self.storage.experts@),
            forall|i: int| 0 <= i < self.storage.experts@.len() ==>
                (#[trigger] self.storage.experts@[i]).expert < self.architecture.experts_per_layer,
            ix.wf_upto(self.storage.experts@, self.storage.experts@.len() as int),
        ensures
            r is Ok <==> (layers_complete(self.architecture, self.storage.experts@)
                && layers_uniform(self.storage.experts@)),
            r matches Err(e) ==> e is Location,
    {
        broadcast use vstd::std_specs::hash::group_hash_axioms;
        let experts = &self.storage.experts;
        let epl = self.architecture.experts_per_layer;
        let mut li: usize = 0;
        while li < ix.layers.len()
            invariant
                li <= ix.layers@.len(),
                forall|a: int, e: u32| 0 <= a < li && e < epl ==> #[trigger] has_expert(experts@, ix.layers@[a], e),
                forall|a: int, i: int, j: int| #![trigger ix.layers@[a], same_signature(experts@[i].segments@, experts@[j].segments@)]
                    0 <= a < li && 0 <= i < experts@.len() && 0 <= j < experts@.len()
                    && experts@[i].layer == ix.layers@[a] && experts@[j].layer == ix.layers@[a]
                    ==> same_signature(experts@[i].segments@, experts@[j].segments@),
            decreases ix.layers@.len() - li,
        {
            let layer = ix.layers[li];
            let mut e: u32 = 0;
            while e < epl
                invariant
                    e <= epl,
                    forall|f: u32| f < e ==> #[trigger] has_expert(experts@, layer, f),
                decreases epl - e,
            {
                let packed = ExpertKey::new(layer, e).packed();
                if !ix.by_key.contains_key(&packed) {
                    let mut present: u64 = 0;
                    let mut f: u32 = 0;
                    while f < epl
                        invariant
                            f <= epl,
                            present <= f,
                        decreases epl - f,
                    {
                        if ix.by_key.contains_key(&ExpertKey::new(layer, f).packed()) {
                            present = present + 1;
                        }
                        f += 1;
                    }
                    let mut m = string_of("layer ");
                    push_decimal(&mut m, layer as u64);
                    push_str(&mut m, " indexes ");
                    push_decimal(&mut m, present);
                    push_str(&mut m, " of ");
                    push_decimal(&mut m, epl as u64);
                    push_str(&mut m, " routed experts");
                    proof {
                        assert(ix.layers@.contains(layer));
                        assert(layer_indexed(experts@, layer));
                        if has_expert(experts@, layer, e) {
                            let i = choose|i: int| 0 <= i < experts@.len() && #[trigger] experts@[i].layer == layer && experts@[i].expert == e;
                            assert(ix.by_key@.contains_key(ExpertKey { layer: experts@[i].layer, expert: experts@[i].expert }.spec_packed()));
                        }
                    }
                    return Err(ManifestError::Location(m));
                }
                proof {
                    let i = ix.by_key@[packed] as int;
                    lemma_packed_injective(ExpertKey { layer, expert: e }, ExpertKey { layer: experts@[i].layer, expert: experts@[i].expert });
                    assert(experts@[i].layer == layer && experts@[i].expert == e);
                }
                e += 1;
            }
            let zero_key = ExpertKey::new(layer, 0).packed();
            proof {
                assert(has_expert(experts@, layer, 0));
                let i = choose|i: int| 0 <= i < experts@.len() && #[trigger] experts@[i].layer == layer && experts@[i].expert == 0;
                assert(ix.by_key@.contains_key(ExpertKey { layer: experts@[i].layer, expert: experts@[i].expert }.spec_packed()));
            }
            let reference = *ix.by_key.get(&zero_key).unwrap();
            proof {
                lemma_packed_injective(ExpertKey { layer, expert: 0 }, ExpertKey { layer: experts@[reference as int].layer, expert: experts@[reference as int].expert });
            }
            let mut idx: usize = 0;
            while idx < experts.len()
                invariant
                    idx <= experts@.len(),
                    0 <= reference < experts@.len(),
                    experts@[reference as int].layer == layer,
                    forall|i: int| 0 <= i < idx && experts@[i].layer == layer ==> same_signature(
                        #[trigger] experts@[i].segments@, experts@[reference as int].segments@),
                decreases experts@.len() - idx,
            {
                if experts[idx].layer == layer
                    && !same_signature_exec(&experts[reference].segments, &experts[idx].segments)
                {
                    let m = layer_expert_msg("", layer, experts[idx].expert, " has a different tensor signature than expert 0");
                    proof {
                        assert(!layers_uniform(experts@)) by {
                            assert(!same_signature(experts@[reference as int].segments@, experts@[idx as int].segments@));
                        }
                    }
                    return Err(ManifestError::Location(m));
                }
                idx += 1;
            }
            proof {
                assert forall|i: int, j: int| 0 <= i < experts@.len() && 0 <= j < experts@.len()
                    && experts@[i].layer == layer && experts@[j].layer == layer
                    implies same_signature(#[trigger] experts@[i].segments@, #[trigger] experts@[j].segments@) by {
                    let r = experts@[reference as int].segments@;
                    assert(same_signature(experts@[i].segments@, r));
                    assert(same_signature(experts@[j].segments@, r));
                    assert forall|x: (Option<Seq<char>>, Seq<u64>, u64)| #[trigger] sig_count(experts@[i].segments@, x) == sig_count(experts@[j].segments@, x) by {
                        assert(sig_count(experts@[i].segments@, x) == sig_count(r, x));
                        assert(sig_count(experts@[j].segments@, x) == sig_count(r, x));
                    }
                }
            }
            li += 1;
        }
        proof {
            assert forall|l: u32, e: u32| layer_indexed(experts@, l) && e < epl implies #[trigger] has_expert(experts@, l, e) by {
                assert(ix.layers@.contains(l));
                let a = choose|a: int| 0 <= a < ix.layers@.len() && ix.layers@[a] == l;
                assert(has_expert(experts@, ix.layers@[a], e));
            }
            assert forall|i: int, j: int| 0 <= i < experts@.len() && 0 <= j < experts@.len() && experts@[i].layer == experts@[j].layer
                implies same_signature(#[trigger] experts@[i].segments@, #[trigger] experts@[j].segments@) by {
                let l = experts@[i].layer;
                assert(ix.layers@.contains(l));
                let a = choose|a: int| 0 <= a < ix.layers@.len() && ix.layers@[a] == l;
                assert(experts@[i].layer == ix.layers@[a]);
            }
        }
        Ok(())
    }
}


impl RuntimeManifest {
    /// The dense tensor index: valid distinct entries whose bytes exist and
    /// whose total is `dense_bytes`.
    #[verifier::loop_isolation(false)]
    fn check_dense(&self, root: &str, sizes: &Vec<ShardSize>) -> (r: Result<(), ManifestError>)
        ensures
            r is Ok <==> (dense_entries_ok(*self, sizes@) && dense_total_ok(*self)),
            !dense_entries_ok(*self, sizes@) ==> (r matches Err(e) && (e is Location || e is Shard)),
            dense_entries_ok(*self, sizes@) && !dense_total_ok(*self) ==> r matches Err(ManifestError::Contract(_)),
    {
        let dense = &self.storage.dense_tensors;
        let mut total: u64 = 0;
        let mut k: usize = 0;
        while k < dense.len()
            invariant
                k <= dense@.len(),
                tensor_names_distinct(dense@.take(k as int)),
                forall|a: int| 0 <= a < k ==> segment_ok(#[trigger] dense@[a], sizes@),
                total == segments_bytes(dense@.take(k as int)),
            decreases dense@.len() - k,
        {
            let seg = &dense[k];
            let duplicate = repeats_earlier_name(dense, k);
            if str_is_blank(seg.tensor.as_str()) || seg.length == 0 || duplicate {
                proof {
                    if duplicate {
                        assert(!tensor_names_distinct(dense@));
                    } else {
                        assert(!segment_ok(dense@[k as int], sizes@));
                    }
                }
                return Err(ManifestError::Location(
                    string_of("dense tensor index contains an invalid or duplicate entry"),
                ));
            }
            let checked = check_segment_bytes(seg, root, sizes, false);
            if checked.is_err() {
                proof { assert(!segment_ok(dense@[k as int], sizes@)); }
                return checked;
            }
            assert(dense@.take(k + 1).drop_last() =~= dense@.take(k as int));
            if total > u64::MAX - seg.length {
                proof { lemma_segments_bytes_monotone(dense@, k + 1); }
                return Err(ManifestError::Location(string_of("dense byte count overflow")));
            }
            total = total + seg.length;
            assert(tensor_names_distinct(dense@.take(k + 1)));
            k += 1;
        }
        assert(dense@.take(k as int) =~= dense@);
        if dense.len() > 0 && total != self.dense_bytes {
            let mut m = string_of("dense tensor index contains ");
            push_decimal(&mut m, total);
            push_str(&mut m, " bytes but dense_bytes is ");
            push_decimal(&mut m, self.dense_bytes);
            return Err(ManifestError::Contract(m));
        }
        Ok(())
    }

    /// Checks the manifest against the shard sizes found under the model root.
    ///
    /// `shard_sizes` lists the byte size of every shard the index names;
    /// `root` is only used in messages.
    pub fn validate(&self, root: &str, shard_sizes: &Vec<ShardSize>) -> (r: Result<(), ManifestError>)
        ensures
            r is Ok <==> manifest_ok(*self, shard_sizes@),
            self.schema_version != CURRENT_SCHEMA
                ==> r == Err::<(), ManifestError>(ManifestError::Schema(self.schema_version)),
            self.schema_version == CURRENT_SCHEMA && !contract_fields_ok(self.architecture)
                ==> (r matches Err(ManifestError::Contract(m)) && m@ == contract_fields_message(self.architecture)),
            self.schema_version == CURRENT_SCHEMA && contract_fields_ok(self.architecture)
                && self.storage.experts@.len() == 0 ==> (r matches Err(ManifestError::Location(m))
                && m@ == "the expert index cannot be empty"@),
            self.schema_version == CURRENT_SCHEMA && contract_fields_ok(self.architecture)
                && self.storage.experts@.len() > 0 && !moe_layers_ok(self.architecture)
                ==> (r matches Err(ManifestError::Contract(m))
                && m@ == "moe_layers contains duplicate or out-of-range layers"@),
            header_ok(*self) && !locations_ok(*self, shard_sizes@)
                ==> (r matches Err(e) && (e is Location || e is Shard)),
            header_ok(*self) && locations_ok(*self, shard_sizes@) && !layer_structure_ok(*self)
                ==> r matches Err(ManifestError::Location(_)),
            header_ok(*self) && locations_ok(*self, shard_sizes@) && layer_structure_ok(*self)
                && !dense_entries_ok(*self, shard_sizes@)
                ==> (r matches Err(e) && (e is Location || e is Shard)),
            header_ok(*self) && locations_ok(*self, shard_sizes@) && layer_structure_ok(*self)
                && dense_entries_ok(*self, shard_sizes@) && !dense_total_ok(*self)
                ==> r matches Err(ManifestError::Contract(_)),
    {
        let h = self.check_header();
        if h.is_err() {
            return h;
        }
        let ix = match self.check_locations(root, shard_sizes) {
            Ok(ix) => ix,
            Err(e) => return Err(e),
        };
        let m = self.check_layers_match(&ix);
        if m.is_err() {
            return m;
        }
        let c = self.check_layer_contents(&ix);
        if c.is_err() {
            return c;
        }
        self.check_dense(root, shard_sizes)
    }

    /// Total bytes of all routed experts.
    pub fn expert_bytes(&self) -> (n: u64)
        requires
            experts_bytes(self.storage.experts@) <= u64::MAX,
        ensures
            n == experts_bytes(self.storage.experts@),
    {
        let mut total: u64 = 0;
        let mut i: usize = 0;
        while i < self.storage.experts.len()
            invariant
                i <= self.storage.experts@.len(),
                experts_bytes(self.storage.experts@) <= u64::MAX,
                total == experts_bytes(self.storage.experts@.take(i as int)),
            decreases self.storage.experts@.len() - i,
        {
            assert(self.storage.experts@.take(i + 1).drop_last() =~= self.storage.experts@.take(i as int));
            proof { lemma_experts_bytes_monotone(self.storage.experts@, i + 1); }
            let b = self.storage.experts[i].byte_len();
            total = total + b;
            i += 1;
        }
        assert(self.storage.experts@.take(i as int) =~= self.storage.experts@);
        total
    }
}

/// Sum of the byte lengths of all experts.
pub open spec fn experts_bytes(experts: Seq<ExpertLocation>) -> nat
    decreases experts.len(),
{
    if experts.len() == 0 {
        0
    } else {
        experts_bytes(experts.drop_last()) + segments_bytes(experts.last().segments@)
    }
}

proof fn lemma_experts_bytes_monotone(experts: Seq<ExpertLocation>, k: int)
    requires
        0 <= k <= experts.len(),
    ensures
        experts_bytes(experts.take(k)) <= experts_bytes(experts),
        k > 0 ==> segments_bytes(experts[k - 1].segments@) <= experts_bytes(experts),
    decreases experts.len() - k,
{
    if k < experts.len() {
        lemma_experts_bytes_monotone(experts, k + 1);
        assert(experts.take(k + 1).drop_last() =~= experts.take(k));
    } else {
        assert(experts.take(k) =~= experts);
    }
    if k > 0 {
        assert(experts.take(k).drop_last() =~= experts.take(k - 1));
        assert(experts.take(k).last() == experts[k - 1]);
    }
}

proof fn lemma_segments_bytes_monotone(segs: Seq<TensorSegment>, k: int)
    requires
        0 <= k <= segs.len(),
    ensures
        segments_bytes(segs.take(k)) <= segments_bytes(segs),
    decreases segs.len() - k,
{
    if k < segs.len() {
        lemma_segments_bytes_monotone(segs, k + 1);
        assert(segs.take(k + 1).drop_last() =~= segs.take(k));
    } else {
        assert(segs.take(k) =~= segs);
    }
}

} // verus!
