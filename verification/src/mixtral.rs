//! The standard sparse-MoE decoder family (Mixtral, Qwen2/Qwen3-MoE, OLMoE,
//! Granite-MoE): its configuration rules and the exact tensor contract a
//! runtime manifest must meet before the decoder may run on it.
use vstd::prelude::*;
use crate::manifest::{
    ArchitectureContract, ModelFamily, QuantizationContract, RouterSemantics, RuntimeManifest,
    F32_ONE_BITS,
    f32_bits_positive_finite, f32_bits_is_positive_finite, ExpertLocation, TensorSegment,
    WeightFormat,
};
use crate::text::{str_eq, string_of};
use crate::segments::{
    dense_lookup, find_dense,
    dims1, dims2, dims_of, dtype_is, has_dtype, mul_wide, product_is, segment_at, shape_is,
    shape_matches,
};
use crate::text::{
    decimal, push_decimal, push_decimal_wide, str_eq_ignore_ascii_case,
    push_str, str_ends_with,
    ascii_lower, ascii_lower_chars, chars_of, seq_contains, seq_contains_exec, seq_ends_with,
    vec_ends_with,
};

verus! {

/// Bit pattern of the single-precision number 10000.0, the RoPE base used
/// when a configuration names none.
pub const DEFAULT_ROPE_THETA_BITS: u32 = 0x461C_4000;

/// The RoPE parameter object of a configuration, as far as the decoder reads it.
#[derive(Debug, Clone)]
pub struct RopeParameters {
    /// Bit pattern of `rope_theta` narrowed to single precision, when it is a number.
    pub theta_bits: Option<u32>,
    /// `rope_type` (else `type`), when it is a string.
    pub rope_type: Option<String>,
}

/// A standard-MoE `config.json`. Single-precision values are held by their
/// IEEE-754 bit patterns.
#[derive(Debug, Clone)]
pub struct MixtralConfig {
    pub model_type: String,
    pub vocab_size: usize,
    pub hidden_size: usize,
    pub intermediate_size: usize,
    pub moe_intermediate_size: Option<usize>,
    pub shared_expert_intermediate_size: Option<usize>,
    pub num_hidden_layers: usize,
    pub num_attention_heads: usize,
    pub num_key_value_heads: usize,
    pub num_local_experts: usize,
    pub num_experts_per_tok: usize,
    pub max_position_embeddings: usize,
    pub rms_norm_eps_bits: u32,
    pub head_dim: Option<usize>,
    pub rope_theta_bits: Option<u32>,
    /// `Some` when `rope_parameters` is a JSON object.
    pub rope_parameters: Option<RopeParameters>,
    /// `rope_scaling` is present and not null.
    pub rope_scaling_present: bool,
    pub sliding_window: Option<usize>,
    pub use_sliding_window: bool,
    pub attention_bias: bool,
    pub clip_qkv_bits: Option<u32>,
    pub decoder_sparse_step: usize,
    pub mlp_only_layers: Option<Vec<usize>>,
    pub norm_topk_prob: bool,
    pub tie_word_embeddings: bool,
    pub embedding_multiplier_bits: Option<u32>,
    pub logits_scaling_bits: Option<u32>,
    pub residual_multiplier_bits: Option<u32>,
    pub attention_multiplier_bits: Option<u32>,
}

#[derive(Debug)]
pub enum MixtralError {
    Contract(String),
    Execution(String),
}

impl MixtralError {
    pub open spec fn is_contract(&self) -> bool {
        self is Contract
    }

    /// The error's message, as its `Display` form would show it.
    pub fn message(&self) -> (s: String)
        ensures
            s@ == match *self {
                MixtralError::Contract(m) => "Mixtral contract is invalid: "@ + m@,
                MixtralError::Execution(m) => "Mixtral execution failed: "@ + m@,
            },
    {
        let mut s = match self {
            MixtralError::Contract(_) => string_of("Mixtral contract is invalid: "),
            MixtralError::Execution(_) => string_of("Mixtral execution failed: "),
        };
        match self {
            MixtralError::Contract(m) => crate::text::push_str(&mut s, m.as_str()),
            MixtralError::Execution(m) => crate::text::push_str(&mut s, m.as_str()),
        }
        s
    }
}

fn contract_error(message: &str) -> (e: MixtralError)
    ensures
        e matches MixtralError::Contract(m) && m@ == message@,
{
    MixtralError::Contract(string_of(message))
}

/// `"layer {layer}"` followed by `tail`.
fn layer_error(layer: usize, tail: &str) -> (e: MixtralError)
    ensures
        e matches MixtralError::Contract(m) && m@ == "layer "@ + decimal(layer as nat) + tail@,
{
    let mut m = string_of("layer ");
    push_decimal(&mut m, layer as u64);
    push_str(&mut m, tail);
    MixtralError::Contract(m)
}

/// A contract error whose message is `head`, `name` and `tail`.
fn named_error(head: &str, name: &str, tail: &str) -> (e: MixtralError)
    ensures
        e matches MixtralError::Contract(m) && m@ == head@ + name@ + tail@,
{
    let mut m = string_of(head);
    push_str(&mut m, name);
    push_str(&mut m, tail);
    MixtralError::Contract(m)
}

/// `"layer {layer} expert {expert} "` followed by `tail`.
fn expert_error(layer: u32, expert: u32, tail: &str) -> (e: MixtralError)
    ensures
        e matches MixtralError::Contract(m) && m@ == expert_prefix(layer, expert) + tail@,
{
    let mut m = string_of("layer ");
    push_decimal(&mut m, layer as u64);
    push_str(&mut m, " expert ");
    push_decimal(&mut m, expert as u64);
    push_str(&mut m, " ");
    push_str(&mut m, tail);
    MixtralError::Contract(m)
}

/// `"layer {layer} expert {expert} "`.
pub open spec fn expert_prefix(layer: u32, expert: u32) -> Seq<char> {
    "layer "@ + decimal(layer as nat) + " expert "@ + decimal(expert as nat) + " "@
}

/// The numbers of a list, separated by `", "`.
pub open spec fn dims_items(dims: Seq<u128>) -> Seq<char>
    decreases dims.len(),
{
    if dims.len() == 0 {
        Seq::empty()
    } else if dims.len() == 1 {
        decimal(dims[0] as nat)
    } else {
        dims_items(dims.drop_last()) + ", "@ + decimal(dims.last() as nat)
    }
}

/// The debug form of a list of dimensions: `[a, b]`.
pub open spec fn dims_text(dims: Seq<u128>) -> Seq<char> {
    "["@ + dims_items(dims) + "]"@
}

fn push_dims(s: &mut String, dims: &Vec<u128>)
    ensures
        final(s)@ == old(s)@ + dims_text(dims@),
{
    let ghost start = s@;
    push_str(s, "[");
    let mut i: usize = 0;
    assert(dims@.take(0) =~= Seq::<u128>::empty());
    while i < dims.len()
        invariant
            i <= dims@.len(),
            s@ == start + "["@ + dims_items(dims@.take(i as int)),
        decreases dims@.len() - i,
    {
        let ghost t = dims@.take(i + 1);
        assert(t.drop_last() =~= dims@.take(i as int));
        if i > 0 {
            push_str(s, ", ");
        }
        push_decimal_wide(s, dims[i]);
        proof {
            if i == 0 {
                assert(dims_items(t) == decimal(t[0] as nat));
            }
        }
        assert(s@ =~= start + "["@ + dims_items(dims@.take(i + 1)));
        i += 1;
    }
    assert(dims@.take(i as int) =~= dims@);
    push_str(s, "]");
    assert(s@ =~= start + dims_text(dims@));
}

/// The name under which a weight format is reported.
fn weight_format_name(f: &WeightFormat) -> (n: &'static str)
    ensures
        n@ == crate::adapter::format_name_spec(*f),
{
    match f {
        WeightFormat::F32 => "F32",
        WeightFormat::F16 => "F16",
        WeightFormat::Bf16 => "Bf16",
        WeightFormat::Int8 => "Int8",
        WeightFormat::Int4Group => "Int4Group",
        WeightFormat::PackedInt4Group32 => "PackedInt4Group32",
        WeightFormat::Fp8E4m3 => "Fp8E4m3",
        WeightFormat::Nvfp4 => "Nvfp4",
        WeightFormat::Mxfp4 => "Mxfp4",
        WeightFormat::Gguf => "Gguf",
        WeightFormat::Custom => "Custom",
    }
}

/// A positive finite single-precision value, or no value (which stands for a
/// positive finite default).
pub open spec fn optional_positive_bits(b: Option<u32>) -> bool {
    match b {
        Some(x) => f32_bits_positive_finite(x),
        None => true,
    }
}

fn optional_positive(b: Option<u32>) -> (r: bool)
    ensures
        r == optional_positive_bits(b),
{
    match b {
        Some(x) => f32_bits_is_positive_finite(x),
        None => true,
    }
}

impl MixtralConfig {
    pub open spec fn qwen3(&self) -> bool {
        self.model_type@ == "qwen3_moe"@
    }

    pub open spec fn qwen2(&self) -> bool {
        self.model_type@ == "qwen2_moe"@
    }

    pub open spec fn qwen(&self) -> bool {
        self.qwen2() || self.qwen3()
    }

    pub open spec fn olmoe(&self) -> bool {
        self.model_type@ == "olmoe"@
    }

    pub open spec fn granite(&self) -> bool {
        self.model_type@ == "granitemoe"@
    }

    pub open spec fn mixtral(&self) -> bool {
        self.model_type@ == "mixtral"@
    }

    /// Width of one attention head: `head_dim`, else `hidden_size / num_attention_heads`.
    pub open spec fn head_dim_of(&self) -> int {
        match self.head_dim {
            Some(d) => d as int,
            None => self.hidden_size as int / self.num_attention_heads as int,
        }
    }

    pub open spec fn expert_intermediate_of(&self) -> int {
        match self.moe_intermediate_size {
            Some(d) => d as int,
            None => self.intermediate_size as int,
        }
    }

    pub open spec fn mlp_only(&self, layer: int) -> bool {
        match self.mlp_only_layers {
            Some(v) => v@.contains(layer as usize),
            None => false,
        }
    }

    /// Layer `layer` routes through experts: always, except in the Qwen
    /// families, where it must not be listed as MLP-only and `layer + 1` must be
    /// a multiple of the sparse step.
    pub open spec fn moe_layer(&self, layer: int) -> bool {
        !self.qwen() || (!self.mlp_only(layer) && self.decoder_sparse_step != 0
            && (layer + 1) % (self.decoder_sparse_step as int) == 0)
    }

    /// Bit pattern of the RoPE base: `rope_theta`, else the parameter object's
    /// `rope_theta`, else 10000.
    pub open spec fn rope_theta_of(&self) -> u32 {
        match self.rope_theta_bits {
            Some(b) => b,
            None => match self.rope_parameters {
                Some(p) => match p.theta_bits {
                    Some(b) => b,
                    None => DEFAULT_ROPE_THETA_BITS,
                },
                None => DEFAULT_ROPE_THETA_BITS,
            },
        }
    }

    /// No RoPE scaling, and a RoPE type that is absent or `default`.
    pub open spec fn rope_supported(&self) -> bool {
        !self.rope_scaling_present && match self.rope_parameters {
            Some(p) => match p.rope_type {
                Some(t) => t@ == "default"@,
                None => true,
            },
            None => true,
        }
    }

    pub open spec fn known_model(&self) -> bool {
        self.mixtral() || self.qwen3() || self.qwen2() || self.olmoe() || self.granite()
    }

    /// Everything `validate` accepts.
    pub open spec fn config_valid(&self) -> bool {
        &&& self.known_model()
        &&& self.vocab_size != 0
        &&& self.hidden_size != 0
        &&& self.intermediate_size != 0
        &&& self.expert_intermediate_of() != 0
        &&& (self.qwen2() ==> match self.shared_expert_intermediate_size {
            Some(s) => s != 0,
            None => false,
        })
        &&& self.num_hidden_layers != 0
        &&& self.num_attention_heads != 0
        &&& self.num_key_value_heads != 0
        &&& self.num_attention_heads % self.num_key_value_heads == 0
        &&& self.hidden_size % self.num_attention_heads == 0
        &&& self.head_dim_of() != 0
        &&& self.head_dim_of() % 2 == 0
        &&& (self.olmoe() ==> self.num_attention_heads * self.head_dim_of() == self.hidden_size)
        &&& self.num_local_experts != 0
        &&& self.num_experts_per_tok != 0
        &&& self.num_experts_per_tok <= self.num_local_experts
        &&& self.max_position_embeddings != 0
        &&& self.decoder_sparse_step != 0
        &&& f32_bits_positive_finite(self.rms_norm_eps_bits)
        &&& optional_positive_bits(self.clip_qkv_bits)
        &&& optional_positive_bits(self.embedding_multiplier_bits)
        &&& optional_positive_bits(self.logits_scaling_bits)
        &&& optional_positive_bits(self.residual_multiplier_bits)
        &&& optional_positive_bits(self.attention_multiplier_bits)
        &&& f32_bits_positive_finite(self.rope_theta_of())
        &&& self.rope_supported()
    }

    pub fn head_dimension(&self) -> (d: usize)
        requires
            self.head_dim.is_some() || self.num_attention_heads > 0,
        ensures
            d as int == self.head_dim_of(),
    {
        match self.head_dim {
            Some(d) => d,
            None => self.hidden_size / self.num_attention_heads,
        }
    }

    pub fn expert_intermediate_size(&self) -> (d: usize)
        ensures
            d as int == self.expert_intermediate_of(),
    {
        match self.moe_intermediate_size {
            Some(d) => d,
            None => self.intermediate_size,
        }
    }

    pub fn is_qwen3(&self) -> (b: bool)
        ensures
            b == self.qwen3(),
    {
        str_eq(self.model_type.as_str(), "qwen3_moe")
    }

    pub fn is_qwen2(&self) -> (b: bool)
        ensures
            b == self.qwen2(),
    {
        str_eq(self.model_type.as_str(), "qwen2_moe")
    }

    pub fn is_qwen(&self) -> (b: bool)
        ensures
            b == self.qwen(),
    {
        self.is_qwen2() || self.is_qwen3()
    }

    pub fn is_olmoe(&self) -> (b: bool)
        ensures
            b == self.olmoe(),
    {
        str_eq(self.model_type.as_str(), "olmoe")
    }

    pub fn is_granite(&self) -> (b: bool)
        ensures
            b == self.granite(),
    {
        str_eq(self.model_type.as_str(), "granitemoe")
    }

    fn is_mixtral(&self) -> (b: bool)
        ensures
            b == self.mixtral(),
    {
        str_eq(self.model_type.as_str(), "mixtral")
    }

    #[verifier::loop_isolation(false)]
    fn is_mlp_only(&self, layer: usize) -> (b: bool)
        ensures
            b == self.mlp_only(layer as int),
    {
        match &self.mlp_only_layers {
            Some(v) => {
                let mut i: usize = 0;
                while i < v.len()
                    invariant
                        i <= v@.len(),
                        forall|j: int| 0 <= j < i ==> v@[j] != layer,
                    decreases v@.len() - i,
                {
                    if v[i] == layer {
                        assert(v@[i as int] == layer);
                        assert(v@.contains(layer));
                        return true;
                    }
                    i += 1;
                }
                false
            },
            None => false,
        }
    }

    pub fn is_moe_layer(&self, layer: usize) -> (b: bool)
        ensures
            b == self.moe_layer(layer as int),
    {
        if !self.is_qwen() {
            return true;
        }
        if self.is_mlp_only(layer) || self.decoder_sparse_step == 0 {
            return false;
        }
        ((layer as u128) + 1) % (self.decoder_sparse_step as u128) == 0
    }

    /// Bit pattern of the single-precision RoPE base.
    pub fn rope_theta_value(&self) -> (b: u32)
        ensures
            b == self.rope_theta_of(),
    {
        match self.rope_theta_bits {
            Some(b) => b,
            None => match &self.rope_parameters {
                Some(p) => match p.theta_bits {
                    Some(b) => b,
                    None => DEFAULT_ROPE_THETA_BITS,
                },
                None => DEFAULT_ROPE_THETA_BITS,
            },
        }
    }

    /// The attention window: none for Qwen unless sliding windows are switched
    /// on, else `sliding_window`.
    pub fn attention_window(&self) -> (w: Option<usize>)
        ensures
            w == (if self.qwen() && !self.use_sliding_window { None } else { self.sliding_window }),
    {
        if self.is_qwen() && !self.use_sliding_window {
            None
        } else {
            self.sliding_window
        }
    }

    fn has_supported_rope(&self) -> (b: bool)
        ensures
            b == self.rope_supported(),
    {
        if self.rope_scaling_present {
            return false;
        }
        match &self.rope_parameters {
            Some(p) => match &p.rope_type {
                Some(t) => str_eq(t.as_str(), "default"),
                None => true,
            },
            None => true,
        }
    }

    /// Checks the dimensions, RoPE and normalisation settings of the
    /// configuration.
    pub fn validate(&self) -> (r: Result<(), MixtralError>)
        ensures
            r is Ok <==> self.config_valid(),
            r matches Err(e) ==> (e matches MixtralError::Contract(m)
                && m@ == "standard MoE dimensions, RoPE, or normalization are invalid"@),
    {
        let known = self.is_mixtral() || self.is_qwen3() || self.is_qwen2() || self.is_olmoe()
            || self.is_granite();
        if !known || self.vocab_size == 0 || self.hidden_size == 0 || self.intermediate_size == 0
            || self.expert_intermediate_size() == 0 {
            return Err(contract_error("standard MoE dimensions, RoPE, or normalization are invalid"));
        }
        if self.is_qwen2() {
            let shared_zero = match self.shared_expert_intermediate_size {
                Some(s) => s == 0,
                None => true,
            };
            if shared_zero {
                return Err(contract_error("standard MoE dimensions, RoPE, or normalization are invalid"));
            }
        }
        if self.num_hidden_layers == 0 || self.num_attention_heads == 0
            || self.num_key_value_heads == 0
            || self.num_attention_heads % self.num_key_value_heads != 0
            || self.hidden_size % self.num_attention_heads != 0 {
            return Err(contract_error("standard MoE dimensions, RoPE, or normalization are invalid"));
        }
        let head = self.head_dimension();
        if head == 0 || head % 2 != 0 {
            return Err(contract_error("standard MoE dimensions, RoPE, or normalization are invalid"));
        }
        if self.is_olmoe() {
            let product = mul_wide(self.num_attention_heads, head);
            if product != self.hidden_size as u128 {
                return Err(contract_error("standard MoE dimensions, RoPE, or normalization are invalid"));
            }
        }
        if self.num_local_experts == 0 || self.num_experts_per_tok == 0
            || self.num_experts_per_tok > self.num_local_experts
            || self.max_position_embeddings == 0 || self.decoder_sparse_step == 0
            || !f32_bits_is_positive_finite(self.rms_norm_eps_bits)
            || !optional_positive(self.clip_qkv_bits)
            || !optional_positive(self.embedding_multiplier_bits)
            || !optional_positive(self.logits_scaling_bits)
            || !optional_positive(self.residual_multiplier_bits)
            || !optional_positive(self.attention_multiplier_bits)
            || !f32_bits_is_positive_finite(self.rope_theta_value())
            || !self.has_supported_rope() {
            return Err(contract_error("standard MoE dimensions, RoPE, or normalization are invalid"));
        }
        Ok(())
    }
}


/// The four projections of a gated expert.
#[derive(Debug, Clone, Copy, PartialEq, Eq, Structural)]
pub enum Projection {
    Down,
    Fused,
    Gate,
    Up,
}

/// A lowercase tensor name that names `kind` in an unquantised expert.
pub open spec fn float_projection_name(kind: Projection, n: Seq<char>) -> bool {
    match kind {
        Projection::Down => seq_contains(n, "down_proj"@) || seq_contains(n, "output_linear"@)
            || seq_ends_with(n, ".w2"@) || seq_ends_with(n, ".w2.weight"@),
        Projection::Fused => seq_contains(n, "gate_up_proj"@) || seq_contains(n, "gate_up.weight"@)
            || seq_contains(n, "input_linear"@),
        Projection::Gate => seq_contains(n, "gate_proj"@) || seq_ends_with(n, ".w1"@)
            || seq_ends_with(n, ".w1.weight"@),
        Projection::Up => seq_contains(n, "up_proj"@) || seq_ends_with(n, ".w3"@)
            || seq_ends_with(n, ".w3.weight"@) || seq_ends_with(n, ".v1"@)
            || seq_ends_with(n, ".v1.weight"@),
    }
}

/// A lowercase tensor name that names `kind` in a packed INT4 expert.
pub open spec fn packed_projection_name(kind: Projection, n: Seq<char>) -> bool {
    match kind {
        Projection::Down => seq_contains(n, "down_proj"@) || seq_contains(n, ".w2.weight_"@),
        Projection::Fused => seq_contains(n, "gate_up_proj"@) || seq_contains(n, "gate_up.weight_"@),
        Projection::Gate => !seq_contains(n, "gate_up_proj"@) && (seq_contains(n, "gate_proj"@)
            || seq_contains(n, ".w1.weight_"@)),
        Projection::Up => !seq_contains(n, "gate_up_proj"@) && (seq_contains(n, "up_proj"@)
            || seq_contains(n, ".w3.weight_"@) || seq_contains(n, ".v1.weight_"@)),
    }
}

fn contains_lit(n: &Vec<char>, lit: &str) -> (b: bool)
    ensures
        b == seq_contains(n@, lit@),
{
    let p = chars_of(lit);
    seq_contains_exec(n, &p)
}

fn ends_lit(n: &Vec<char>, lit: &str) -> (b: bool)
    ensures
        b == seq_ends_with(n@, lit@),
{
    let p = chars_of(lit);
    vec_ends_with(n, &p)
}

fn float_name_matches(kind: Projection, n: &Vec<char>) -> (b: bool)
    ensures
        b == float_projection_name(kind, n@),
{
    match kind {
        Projection::Down => contains_lit(n, "down_proj") || contains_lit(n, "output_linear")
            || ends_lit(n, ".w2") || ends_lit(n, ".w2.weight"),
        Projection::Fused => contains_lit(n, "gate_up_proj") || contains_lit(n, "gate_up.weight")
            || contains_lit(n, "input_linear"),
        Projection::Gate => contains_lit(n, "gate_proj") || ends_lit(n, ".w1")
            || ends_lit(n, ".w1.weight"),
        Projection::Up => contains_lit(n, "up_proj") || ends_lit(n, ".w3")
            || ends_lit(n, ".w3.weight") || ends_lit(n, ".v1") || ends_lit(n, ".v1.weight"),
    }
}

fn packed_name_matches(kind: Projection, n: &Vec<char>) -> (b: bool)
    ensures
        b == packed_projection_name(kind, n@),
{
    match kind {
        Projection::Down => contains_lit(n, "down_proj") || contains_lit(n, ".w2.weight_"),
        Projection::Fused => contains_lit(n, "gate_up_proj") || contains_lit(n, "gate_up.weight_"),
        Projection::Gate => !contains_lit(n, "gate_up_proj") && (contains_lit(n, "gate_proj")
            || contains_lit(n, ".w1.weight_")),
        Projection::Up => !contains_lit(n, "gate_up_proj") && (contains_lit(n, "up_proj")
            || contains_lit(n, ".w3.weight_") || contains_lit(n, ".v1.weight_")),
    }
}

/// `seg` is an unquantised `kind` matrix of `dtype` with shape `[rows, cols]`.
pub open spec fn float_hit(seg: TensorSegment, dtype: Seq<char>, kind: Projection, rows: int, cols: int) -> bool {
    dtype_is(seg.dtype, dtype) && shape_is(seg.shape@, seq![rows, cols])
        && float_projection_name(kind, ascii_lower(seg.tensor@))
}

pub open spec fn has_float_projection(segs: Seq<TensorSegment>, dtype: Seq<char>, kind: Projection, rows: int, cols: int) -> bool {
    exists|i: int| 0 <= i < segs.len() && #[trigger] float_hit(segs[i], dtype, kind, rows, cols)
}

fn find_float_projection(segs: &Vec<TensorSegment>, dtype: &str, kind: Projection, rows: u128, cols: u128) -> (b: bool)
    ensures
        b == has_float_projection(segs@, dtype@, kind, rows as int, cols as int),
{
    let dims = dims2(rows, cols);
    let mut i: usize = 0;
    while i < segs.len()
        invariant
            i <= segs@.len(),
            dims_of(dims@) == seq![rows as int, cols as int],
            forall|j: int| 0 <= j < i ==> !#[trigger] float_hit(segs@[j], dtype@, kind, rows as int, cols as int),
        decreases segs@.len() - i,
    {
        let seg = &segs[i];
        if has_dtype(&seg.dtype, dtype) && shape_matches(&seg.shape, &dims) {
            let n = ascii_lower_chars(seg.tensor.as_str());
            if float_name_matches(kind, &n) {
                assert(float_hit(segs@[i as int], dtype@, kind, rows as int, cols as int));
                return true;
            }
        }
        i += 1;
    }
    false
}

/// The exact gated-projection contract of an unquantised expert: one down
/// projection, and either one fused gate/up projection or a separate gate and
/// up projection, never both.
pub open spec fn float_expert_ok(segs: Seq<TensorSegment>, dtype: Seq<char>, hidden: int, inter: int) -> bool {
    let down = has_float_projection(segs, dtype, Projection::Down, hidden, inter);
    let fused = has_float_projection(segs, dtype, Projection::Fused, 2 * inter, hidden);
    let gate = has_float_projection(segs, dtype, Projection::Gate, inter, hidden);
    let up = has_float_projection(segs, dtype, Projection::Up, inter, hidden);
    down && (fused || (gate && up)) && !(fused && (gate || up))
}

/// The first segment whose lowercase name ends with `suffix` and names `kind`.
pub open spec fn first_packed(segs: Seq<TensorSegment>, suffix: Seq<char>, kind: Projection) -> Option<TensorSegment>
    decreases segs.len(),
{
    if segs.len() == 0 {
        None
    } else {
        let n = ascii_lower(segs[0].tensor@);
        if seq_ends_with(n, suffix) && packed_projection_name(kind, n) {
            Some(segs[0])
        } else {
            first_packed(segs.drop_first(), suffix, kind)
        }
    }
}

fn find_packed(segs: &Vec<TensorSegment>, suffix: &str, kind: Projection) -> (r: Option<usize>)
    ensures
        match r {
            Some(i) => i < segs@.len() && first_packed(segs@, suffix@, kind) == Some(segs@[i as int]),
            None => first_packed(segs@, suffix@, kind) is None,
        },
{
    let suffix_chars = chars_of(suffix);
    let mut i: usize = 0;
    assert(segs@.skip(0) =~= segs@);
    while i < segs.len()
        invariant
            i <= segs@.len(),
            suffix_chars@ == suffix@,
            first_packed(segs@, suffix@, kind) == first_packed(segs@.skip(i as int), suffix@, kind),
        decreases segs@.len() - i,
    {
        let ghost rest = segs@.skip(i as int);
        assert(rest[0] == segs@[i as int]);
        assert(rest.drop_first() =~= segs@.skip(i + 1));
        let n = ascii_lower_chars(segs[i].tensor.as_str());
        if vec_ends_with(&n, &suffix_chars) && packed_name_matches(kind, &n) {
            return Some(i);
        }
        i += 1;
    }
    None
}

/// A packed INT4 matrix of logical shape `[rows, cols]`: its packed words,
/// its BF16 group-32 scales and its logical-shape record, each exact.
pub open spec fn triplet_ok(p: Option<TensorSegment>, s: Option<TensorSegment>, l: Option<TensorSegment>, rows: int, cols: int) -> bool {
    &&& p matches Some(t) && dtype_is(t.dtype, "I32"@)
        && shape_is(t.shape@, seq![rows, (cols + 7) / 8]) && t.length == rows * ((cols + 7) / 8) * 4
    &&& s matches Some(t) && dtype_is(t.dtype, "BF16"@)
        && shape_is(t.shape@, seq![rows, cols / 32]) && t.length == rows * (cols / 32) * 2
    &&& l matches Some(t) && dtype_is(t.dtype, "I32"@) && shape_is(t.shape@, seq![2int])
        && t.length == 8
}

fn triplet_matches(segs: &Vec<TensorSegment>, p: Option<usize>, s: Option<usize>, l: Option<usize>, rows: u128, cols: u128) -> (b: bool)
    requires
        p matches Some(k) ==> k < segs@.len(),
        s matches Some(k) ==> k < segs@.len(),
        l matches Some(k) ==> k < segs@.len(),
    ensures
        b == triplet_ok(segment_at(segs@, p), segment_at(segs@, s), segment_at(segs@, l), rows as int, cols as int),
{
    let (pi, si, li) = match (p, s, l) {
        (Some(a), Some(b), Some(c)) => (a, b, c),
        _ => return false,
    };
    let words = cols / 8 + if cols % 8 != 0 { 1 } else { 0 };
    assert(words as int == (cols as int + 7) / 8);
    let groups = cols / 32;
    let packed = &segs[pi];
    let scales = &segs[si];
    let logical = &segs[li];
    let packed_dims = dims2(rows, words);
    let scale_dims = dims2(rows, groups);
    let logical_dims = dims1(2);
    has_dtype(&packed.dtype, "I32") && shape_matches(&packed.shape, &packed_dims)
        && product_is(rows, words, 4, packed.length)
        && has_dtype(&scales.dtype, "BF16") && shape_matches(&scales.shape, &scale_dims)
        && product_is(rows, groups, 2, scales.length)
        && has_dtype(&logical.dtype, "I32") && shape_matches(&logical.shape, &logical_dims)
        && logical.length == 8
}

pub open spec fn packed_projection_ok(segs: Seq<TensorSegment>, kind: Projection, rows: int, cols: int) -> bool {
    triplet_ok(
        first_packed(segs, "weight_packed"@, kind),
        first_packed(segs, "weight_scale"@, kind),
        first_packed(segs, "weight_shape"@, kind),
        rows,
        cols,
    )
}

fn packed_projection(segs: &Vec<TensorSegment>, kind: Projection, rows: u128, cols: u128) -> (b: bool)
    ensures
        b == packed_projection_ok(segs@, kind, rows as int, cols as int),
{
    let p = find_packed(segs, "weight_packed", kind);
    let s = find_packed(segs, "weight_scale", kind);
    let l = find_packed(segs, "weight_shape", kind);
    triplet_matches(segs, p, s, l, rows, cols)
}

/// The exact gated-projection contract of a packed INT4 group-32 expert.
pub open spec fn packed_expert_ok(segs: Seq<TensorSegment>, hidden: int, inter: int) -> bool {
    let down = packed_projection_ok(segs, Projection::Down, hidden, inter);
    let fused = packed_projection_ok(segs, Projection::Fused, 2 * inter, hidden);
    let gate = packed_projection_ok(segs, Projection::Gate, inter, hidden);
    let up = packed_projection_ok(segs, Projection::Up, inter, hidden);
    hidden % 32 == 0 && inter % 32 == 0 && down && (fused || (gate && up))
        && !(fused && (gate || up))
}

/// What `validate_expert_tensors` accepts for one expert in `format`.
pub open spec fn expert_tensors_ok(segs: Seq<TensorSegment>, hidden: int, inter: int, format: WeightFormat) -> bool {
    match format {
        WeightFormat::PackedInt4Group32 => packed_expert_ok(segs, hidden, inter),
        WeightFormat::Bf16 => float_expert_ok(segs, "BF16"@, hidden, inter),
        WeightFormat::F32 => float_expert_ok(segs, "F32"@, hidden, inter),
        _ => false,
    }
}

/// The refusal of an expert whose projections do not fit `format`.
pub open spec fn expert_message(e: ExpertLocation, hidden: int, inter: int, format: WeightFormat) -> Seq<char> {
    match format {
        WeightFormat::PackedInt4Group32 => if hidden % 32 != 0 || inter % 32 != 0 {
            "packed INT4 standard-MoE widths must be divisible by group size 32"@
        } else {
            expert_prefix(e.layer, e.expert) + "does not have one exact packed INT4/BF16 group-32 gated projection contract"@
        },
        WeightFormat::Bf16 => expert_prefix(e.layer, e.expert) + "does not have one exact BF16 gated projection contract"@,
        WeightFormat::F32 => expert_prefix(e.layer, e.expert) + "does not have one exact F32 gated projection contract"@,
        _ => "floating expert format "@ + crate::adapter::format_name_spec(format) + " has no exact standard-MoE kernel"@,
    }
}

/// Checks that a packed expert has exactly one group-32 gated projection set.
pub fn validate_packed_expert_tensors(expert: &ExpertLocation, hidden: usize, intermediate: usize) -> (r: Result<(), MixtralError>)
    ensures
        r is Ok <==> packed_expert_ok(expert.segments@, hidden as int, intermediate as int),
        r matches Err(e) ==> (e matches MixtralError::Contract(m)
            && m@ == expert_message(*expert, hidden as int, intermediate as int, WeightFormat::PackedInt4Group32)),
{
    if hidden % 32 != 0 || intermediate % 32 != 0 {
        return Err(contract_error("packed INT4 standard-MoE widths must be divisible by group size 32"));
    }
    let h = hidden as u128;
    let i = intermediate as u128;
    let down = packed_projection(&expert.segments, Projection::Down, h, i);
    let fused = packed_projection(&expert.segments, Projection::Fused, 2 * i, h);
    let gate = packed_projection(&expert.segments, Projection::Gate, i, h);
    let up = packed_projection(&expert.segments, Projection::Up, i, h);
    if !down || !(fused || (gate && up)) || (fused && (gate || up)) {
        return Err(expert_error(expert.layer, expert.expert,
            "does not have one exact packed INT4/BF16 group-32 gated projection contract"));
    }
    Ok(())
}

/// Checks the gated projections of one expert against the expert format.
pub fn validate_expert_tensors(expert: &ExpertLocation, hidden: usize, intermediate: usize, format: &WeightFormat) -> (r: Result<(), MixtralError>)
    ensures
        r is Ok <==> expert_tensors_ok(expert.segments@, hidden as int, intermediate as int, *format),
        r matches Err(e) ==> (e matches MixtralError::Contract(m)
            && m@ == expert_message(*expert, hidden as int, intermediate as int, *format)),
{
    if *format == WeightFormat::PackedInt4Group32 {
        return validate_packed_expert_tensors(expert, hidden, intermediate);
    }
    let (dtype, tail): (&str, &str) = match format {
        WeightFormat::Bf16 => ("BF16", "does not have one exact BF16 gated projection contract"),
        WeightFormat::F32 => ("F32", "does not have one exact F32 gated projection contract"),
        _ => {
            return Err(named_error("floating expert format ", weight_format_name(format), " has no exact standard-MoE kernel"));
        },
    };
    let h = hidden as u128;
    let i = intermediate as u128;
    let segs = &expert.segments;
    let has_down = find_float_projection(segs, dtype, Projection::Down, h, i);
    let has_fused = find_float_projection(segs, dtype, Projection::Fused, 2 * i, h);
    let has_gate = find_float_projection(segs, dtype, Projection::Gate, i, h);
    let has_up = find_float_projection(segs, dtype, Projection::Up, i, h);
    if !has_down || !(has_fused || (has_gate && has_up)) || (has_fused && (has_gate || has_up)) {
        return Err(expert_error(expert.layer, expert.expert, tail));
    }
    Ok(())
}


/// `name` holds a dense BF16 tensor (or F32, where allowed) of shape `dims`.
pub open spec fn float_ok(dense: Seq<TensorSegment>, name: Seq<char>, dims: Seq<int>, allow_f32: bool) -> bool {
    match dense_lookup(dense, name) {
        Some(t) => (dtype_is(t.dtype, "BF16"@) || (allow_f32 && dtype_is(t.dtype, "F32"@)))
            && shape_is(t.shape@, dims),
        None => false,
    }
}

/// `name` holds a dense `[rows, cols]` matrix: either as a floating tensor of
/// that name, or, where no tensor has that name, as an exact packed INT4
/// group-32 triplet named after it.
pub open spec fn matrix_ok(dense: Seq<TensorSegment>, name: Seq<char>, rows: int, cols: int, allow_f32: bool) -> bool {
    match dense_lookup(dense, name) {
        Some(_) => float_ok(dense, name, seq![rows, cols], allow_f32),
        None => cols % 32 == 0 && seq_ends_with(name, ".weight"@) && triplet_ok(
            dense_lookup(dense, name + "_packed"@),
            dense_lookup(dense, name + "_scale"@),
            dense_lookup(dense, name + "_shape"@),
            rows,
            cols,
        ),
    }
}

/// A new string holding `a` followed by `b`.
fn join(a: &str, b: &str) -> (s: String)
    ensures
        s@ == a@ + b@,
{
    let mut s = string_of(a);
    push_str(&mut s, b);
    s
}

/// The refusal of a dense tensor that is not a floating tensor of shape `dims`.
pub open spec fn float_message(dense: Seq<TensorSegment>, name: Seq<char>, dims: Seq<u128>, allow_f32: bool) -> Seq<char> {
    if dense_lookup(dense, name) is None {
        "dense tensor "@ + name + " is missing"@
    } else if allow_f32 {
        "dense tensor "@ + name + " must be exact BF16 or F32 with shape "@ + dims_text(dims)
    } else {
        "dense tensor "@ + name + " must be exact BF16 with shape "@ + dims_text(dims)
    }
}

/// The refusal of a dense matrix that is neither a floating `[rows, cols]`
/// tensor nor an exact packed triplet.
pub open spec fn matrix_message(dense: Seq<TensorSegment>, name: Seq<char>, rows: u128, cols: u128, allow_f32: bool) -> Seq<char> {
    if dense_lookup(dense, name) is Some {
        float_message(dense, name, seq![rows, cols], allow_f32)
    } else if cols % 32 != 0 {
        "dense matrix "@ + name + " is missing and cannot use packed group-32 dimensions "@ + dims_text(seq![rows, cols])
    } else if !seq_ends_with(name, ".weight"@) {
        "dense matrix "@ + name + " has no supported logical suffix"@
    } else if dense_lookup(dense, name + "_packed"@) is None {
        "dense tensor "@ + name + "_packed"@ + " is missing"@
    } else if dense_lookup(dense, name + "_scale"@) is None {
        "dense tensor "@ + name + "_scale"@ + " is missing"@
    } else if dense_lookup(dense, name + "_shape"@) is None {
        "dense tensor "@ + name + "_shape"@ + " is missing"@
    } else {
        "dense matrix "@ + name + " does not have an exact packed INT4/BF16 group-32 triplet"@
    }
}

pub fn expect_float(dense: &Vec<TensorSegment>, name: &str, dims: &Vec<u128>, allow_f32: bool) -> (r: Result<(), MixtralError>)
    ensures
        r is Ok <==> float_ok(dense@, name@, dims_of(dims@), allow_f32),
        r matches Err(e) ==> (e matches MixtralError::Contract(m) && m@ == float_message(dense@, name@, dims@, allow_f32)),
{
    match find_dense(dense, name) {
        None => Err(named_error("dense tensor ", name, " is missing")),
        Some(i) => {
            let t = &dense[i];
            let dtype_ok = has_dtype(&t.dtype, "BF16") || (allow_f32 && has_dtype(&t.dtype, "F32"));
            if !dtype_ok || !shape_matches(&t.shape, dims) {
                let mut m = string_of("dense tensor ");
                push_str(&mut m, name);
                push_str(&mut m, if allow_f32 { " must be exact BF16 or F32 with shape " } else { " must be exact BF16 with shape " });
                push_dims(&mut m, dims);
                return Err(MixtralError::Contract(m));
            }
            Ok(())
        },
    }
}

pub fn expect_matrix(dense: &Vec<TensorSegment>, name: &str, rows: u128, cols: u128, allow_f32: bool) -> (r: Result<(), MixtralError>)
    ensures
        r is Ok <==> matrix_ok(dense@, name@, rows as int, cols as int, allow_f32),
        r matches Err(e) ==> (e matches MixtralError::Contract(m)
            && m@ == matrix_message(dense@, name@, rows, cols, allow_f32)),
{
    if find_dense(dense, name).is_some() {
        let dims = dims2(rows, cols);
        return expect_float(dense, name, &dims, allow_f32);
    }
    if cols % 32 != 0 {
        let mut m = string_of("dense matrix ");
        push_str(&mut m, name);
        push_str(&mut m, " is missing and cannot use packed group-32 dimensions ");
        push_dims(&mut m, &dims2(rows, cols));
        return Err(MixtralError::Contract(m));
    }
    if !str_ends_with(name, ".weight") {
        return Err(named_error("dense matrix ", name, " has no supported logical suffix"));
    }
    let packed_name = join(name, "_packed");
    let scale_name = join(name, "_scale");
    let shape_name = join(name, "_shape");
    let p = find_dense(dense, packed_name.as_str());
    let s = find_dense(dense, scale_name.as_str());
    let l = find_dense(dense, shape_name.as_str());
    if p.is_none() {
        return Err(named_error("dense tensor ", packed_name.as_str(), " is missing"));
    }
    if s.is_none() {
        return Err(named_error("dense tensor ", scale_name.as_str(), " is missing"));
    }
    if l.is_none() {
        return Err(named_error("dense tensor ", shape_name.as_str(), " is missing"));
    }
    if !triplet_matches(dense, p, s, l, rows, cols) {
        return Err(named_error("dense matrix ", name, " does not have an exact packed INT4/BF16 group-32 triplet"));
    }
    Ok(())
}


/// Symmetric 4-bit group-32 quantisation with BF16 scales.
pub open spec fn exact_packed_contract(q: QuantizationContract) -> bool {
    &&& q.bits == 4
    &&& q.group_size == 32
    &&& q.symmetric
    &&& match q.scale_dtype {
        Some(d) => ascii_lower(d@) == ascii_lower("BF16"@),
        None => false,
    }
}

/// Some dense tensor is the packed half of a quantised matrix.
pub open spec fn has_packed_dense(dense: Seq<TensorSegment>) -> bool {
    exists|i: int| 0 <= i < dense.len() && seq_ends_with(#[trigger] dense[i].tensor@, ".weight_packed"@)
}

fn any_packed_dense(dense: &Vec<TensorSegment>) -> (b: bool)
    ensures
        b == has_packed_dense(dense@),
{
    let mut i: usize = 0;
    while i < dense.len()
        invariant
            i <= dense@.len(),
            forall|j: int| 0 <= j < i ==> !seq_ends_with(#[trigger] dense@[j].tensor@, ".weight_packed"@),
        decreases dense@.len() - i,
    {
        if str_ends_with(dense[i].tensor.as_str(), ".weight_packed") {
            assert(seq_ends_with(dense@[i as int].tensor@, ".weight_packed"@));
            return true;
        }
        i += 1;
    }
    false
}

/// `model.layers.{layer}` followed by `suffix`.
pub open spec fn layer_name(layer: int, suffix: Seq<char>) -> Seq<char> {
    "model.layers."@ + decimal(layer as nat) + suffix
}

fn layer_prefix(layer: usize) -> (s: String)
    ensures
        s@ == "model.layers."@ + decimal(layer as nat),
{
    let mut s = string_of("model.layers.");
    push_decimal(&mut s, layer as u64);
    s
}

impl MixtralConfig {
    pub open spec fn expected_family(&self) -> ModelFamily {
        if self.qwen3() {
            ModelFamily::Qwen3Moe
        } else if self.qwen2() {
            ModelFamily::Qwen2Moe
        } else if self.olmoe() {
            ModelFamily::Olmoe
        } else if self.granite() {
            ModelFamily::GraniteMoe
        } else {
            ModelFamily::Mixtral
        }
    }

    pub open spec fn expected_adapter(&self) -> Seq<char> {
        if self.qwen3() {
            "sytra-qwen3-moe"@
        } else if self.qwen2() {
            "sytra-qwen2-moe"@
        } else if self.olmoe() {
            "sytra-olmoe"@
        } else if self.granite() {
            "sytra-granite-moe"@
        } else {
            "sytra-mixtral"@
        }
    }

    /// BF16 experts; F32 experts for Granite; packed INT4 group-32 experts
    /// under the exact packed contract.
    pub open spec fn exact_expert_format(&self, a: ArchitectureContract) -> bool {
        a.expert_format == WeightFormat::Bf16
            || (self.granite() && a.expert_format == WeightFormat::F32)
            || (a.expert_format == WeightFormat::PackedInt4Group32 && exact_packed_contract(a.quantization))
    }

    /// The part of the header comparison that needs no head width.
    pub open spec fn header_prefix_ok(&self, m: RuntimeManifest) -> bool {
        let a = m.architecture;
        &&& a.adapter@ == self.expected_adapter()
        &&& a.family == self.expected_family()
        &&& self.exact_expert_format(a)
        &&& (has_packed_dense(m.storage.dense_tensors@) ==> exact_packed_contract(a.quantization))
        &&& a.hidden_size as int == self.hidden_size as int
        &&& a.expert_intermediate_size as int == self.expert_intermediate_of()
        &&& a.num_layers as int == self.num_hidden_layers as int
        &&& a.experts_per_layer as int == self.num_local_experts as int
        &&& a.experts_per_token as int == self.num_experts_per_tok as int
        &&& a.attention_config.heads as int == self.num_attention_heads as int
        &&& a.attention_config.kv_heads as int == self.num_key_value_heads as int
    }

    /// The manifest's architecture contract is the compiled standard-MoE path
    /// for this configuration.
    pub open spec fn header_ok(&self, m: RuntimeManifest) -> bool {
        let a = m.architecture;
        &&& self.header_prefix_ok(m)
        &&& a.attention_config.head_dim as int == self.head_dim_of()
        &&& (a.router == RouterSemantics::TopKNormalized || a.router == RouterSemantics::TopKSoftmax
            || a.router == RouterSemantics::TopKWeighted)
        &&& a.router_config.normalize_selected == self.norm_topk_prob
        &&& a.router_config.scaling_factor_bits == F32_ONE_BITS
    }

    /// The routed layers below `n`, in order.
    pub open spec fn moe_layers_below(&self, n: nat) -> Seq<u32>
        decreases n,
    {
        if n == 0 {
            Seq::empty()
        } else {
            let before = self.moe_layers_below((n - 1) as nat);
            if self.moe_layer(n - 1) {
                before.push((n - 1) as u32)
            } else {
                before
            }
        }
    }

    pub open spec fn expected_moe_layers(&self) -> Seq<u32> {
        self.moe_layers_below(self.num_hidden_layers as nat)
    }

    pub open spec fn allow_f32(&self, a: ArchitectureContract) -> bool {
        self.granite() && a.expert_format == WeightFormat::F32
    }

    fn header_prefix_matches(&self, m: &RuntimeManifest) -> (b: bool)
        ensures
            b == self.header_prefix_ok(*m),
    {
        let a = &m.architecture;
        let qwen3 = self.is_qwen3();
        let qwen2 = self.is_qwen2();
        let olmoe = self.is_olmoe();
        let granite = self.is_granite();
        let (family, adapter): (ModelFamily, &str) = if qwen3 {
            (ModelFamily::Qwen3Moe, "sytra-qwen3-moe")
        } else if qwen2 {
            (ModelFamily::Qwen2Moe, "sytra-qwen2-moe")
        } else if olmoe {
            (ModelFamily::Olmoe, "sytra-olmoe")
        } else if granite {
            (ModelFamily::GraniteMoe, "sytra-granite-moe")
        } else {
            (ModelFamily::Mixtral, "sytra-mixtral")
        };
        let q = &a.quantization;
        let scale_bf16 = match &q.scale_dtype {
            Some(d) => str_eq_ignore_ascii_case(d.as_str(), "BF16"),
            None => false,
        };
        let exact_packed = q.bits == 4 && q.group_size == 32 && q.symmetric && scale_bf16;
        let exact_format = a.expert_format == WeightFormat::Bf16
            || (granite && a.expert_format == WeightFormat::F32)
            || (a.expert_format == WeightFormat::PackedInt4Group32 && exact_packed);
        let packed_dense = any_packed_dense(&m.storage.dense_tensors);
        str_eq(a.adapter.as_str(), adapter) && a.family == family && exact_format
            && !(packed_dense && !exact_packed)
            && a.hidden_size as usize == self.hidden_size
            && a.expert_intermediate_size as usize == self.expert_intermediate_size()
            && a.num_layers as usize == self.num_hidden_layers
            && a.experts_per_layer as usize == self.num_local_experts
            && a.experts_per_token as usize == self.num_experts_per_tok
            && a.attention_config.heads as usize == self.num_attention_heads
            && a.attention_config.kv_heads as usize == self.num_key_value_heads
    }
}


/// `name` or its packed form is in the dense table.
pub open spec fn present(dense: Seq<TensorSegment>, name: Seq<char>) -> bool {
    dense_lookup(dense, name) is Some || dense_lookup(dense, name + "_packed"@) is Some
}

fn is_present(dense: &Vec<TensorSegment>, name: &str) -> (b: bool)
    ensures
        b == present(dense@, name@),
{
    if find_dense(dense, name).is_some() {
        return true;
    }
    let packed = join(name, "_packed");
    find_dense(dense, packed.as_str()).is_some()
}

impl MixtralConfig {
    /// The attention projection carries a bias: Qwen2 biases Q, K and V; the
    /// other families follow `attention_bias`.
    pub open spec fn bias_on(&self, projection: Seq<char>) -> bool {
        if self.qwen2() {
            projection == "q_proj"@ || projection == "k_proj"@ || projection == "v_proj"@
        } else {
            self.attention_bias
        }
    }

    fn attention_projection_has_bias(&self, projection: &str) -> (b: bool)
        ensures
            b == self.bias_on(projection@),
    {
        if self.is_qwen2() {
            str_eq(projection, "q_proj") || str_eq(projection, "k_proj") || str_eq(projection, "v_proj")
        } else {
            self.attention_bias
        }
    }

    /// The norm, projection and bias tensors of the attention block of `layer`.
    pub open spec fn attention_tensors_ok(&self, dense: Seq<TensorSegment>, layer: int, allow: bool) -> bool {
        let h = self.hidden_size as int;
        let hd = self.head_dim_of();
        let q = self.num_attention_heads * hd;
        let kv = self.num_key_value_heads * hd;
        &&& float_ok(dense, layer_name(layer, ".input_layernorm.weight"@), seq![h], allow)
        &&& float_ok(dense, layer_name(layer, ".post_attention_layernorm.weight"@), seq![h], allow)
        &&& matrix_ok(dense, layer_name(layer, ".self_attn.q_proj.weight"@), q, h, allow)
        &&& matrix_ok(dense, layer_name(layer, ".self_attn.k_proj.weight"@), kv, h, allow)
        &&& matrix_ok(dense, layer_name(layer, ".self_attn.v_proj.weight"@), kv, h, allow)
        &&& matrix_ok(dense, layer_name(layer, ".self_attn.o_proj.weight"@), h, q, allow)
        &&& (self.qwen3() ==> float_ok(dense, layer_name(layer, ".self_attn.q_norm.weight"@), seq![hd], allow)
            && float_ok(dense, layer_name(layer, ".self_attn.k_norm.weight"@), seq![hd], allow))
        &&& (self.olmoe() ==> float_ok(dense, layer_name(layer, ".self_attn.q_norm.weight"@), seq![q], allow)
            && float_ok(dense, layer_name(layer, ".self_attn.k_norm.weight"@), seq![kv], allow))
        &&& (self.bias_on("q_proj"@) ==> float_ok(dense, layer_name(layer, ".self_attn.q_proj.bias"@), seq![q], allow))
        &&& (self.bias_on("k_proj"@) ==> float_ok(dense, layer_name(layer, ".self_attn.k_proj.bias"@), seq![kv], allow))
        &&& (self.bias_on("v_proj"@) ==> float_ok(dense, layer_name(layer, ".self_attn.v_proj.bias"@), seq![kv], allow))
        &&& (self.bias_on("o_proj"@) ==> float_ok(dense, layer_name(layer, ".self_attn.o_proj.bias"@), seq![h], allow))
    }

    /// The block under `prefix` has a router tensor of this family.
    pub open spec fn has_router(&self, dense: Seq<TensorSegment>, prefix: Seq<char>) -> bool {
        if self.granite() {
            present(dense, prefix + ".router.weight"@) || present(dense, prefix + ".router.layer.weight"@)
        } else {
            present(dense, prefix + ".gate.weight"@)
        }
    }

    /// The one MoE block prefix of `layer` that has a router, if exactly one has.
    pub open spec fn moe_prefix(&self, dense: Seq<TensorSegment>, layer: int) -> Option<Seq<char>> {
        let mlp = layer_name(layer, ".mlp"@);
        if self.qwen() || self.olmoe() {
            if self.has_router(dense, mlp) { Some(mlp) } else { None }
        } else {
            let sparse = layer_name(layer, ".block_sparse_moe"@);
            let a = self.has_router(dense, sparse);
            let b = self.has_router(dense, mlp);
            if a && !b { Some(sparse) } else if !a && b { Some(mlp) } else { None }
        }
    }

    /// The one router tensor name under `prefix`, if exactly one is present.
    pub open spec fn router_weight(&self, dense: Seq<TensorSegment>, prefix: Seq<char>) -> Option<Seq<char>> {
        if self.granite() {
            let r1 = prefix + ".router.weight"@;
            let r2 = prefix + ".router.layer.weight"@;
            let a = present(dense, r1);
            let b = present(dense, r2);
            if a && !b { Some(r1) } else if !a && b { Some(r2) } else { None }
        } else {
            let r = prefix + ".gate.weight"@;
            if present(dense, r) { Some(r) } else { None }
        }
    }

    pub open spec fn shared_expert_ok(&self, dense: Seq<TensorSegment>, layer: int, allow: bool) -> bool {
        let h = self.hidden_size as int;
        let shared = match self.shared_expert_intermediate_size { Some(x) => x as int, None => 0 };
        &&& matrix_ok(dense, layer_name(layer, ".mlp.shared_expert_gate.weight"@), 1, h, allow)
        &&& matrix_ok(dense, layer_name(layer, ".mlp.shared_expert.gate_proj.weight"@), shared, h, allow)
        &&& matrix_ok(dense, layer_name(layer, ".mlp.shared_expert.up_proj.weight"@), shared, h, allow)
        &&& matrix_ok(dense, layer_name(layer, ".mlp.shared_expert.down_proj.weight"@), h, shared, allow)
    }

    /// The router (and, for Qwen2, the shared expert) of a routed layer.
    pub open spec fn moe_tensors_ok(&self, dense: Seq<TensorSegment>, layer: int, allow: bool) -> bool {
        match self.moe_prefix(dense, layer) {
            Some(p) => match self.router_weight(dense, p) {
                Some(r) => matrix_ok(dense, r, self.num_local_experts as int, self.hidden_size as int, allow)
                    && (self.qwen2() ==> self.shared_expert_ok(dense, layer, allow)),
                None => false,
            },
            None => false,
        }
    }

    /// The MLP matrices of a layer that has no routed experts.
    pub open spec fn dense_mlp_ok(&self, dense: Seq<TensorSegment>, layer: int, allow: bool) -> bool {
        let h = self.hidden_size as int;
        let i = self.intermediate_size as int;
        &&& matrix_ok(dense, layer_name(layer, ".mlp.gate_proj.weight"@), i, h, allow)
        &&& matrix_ok(dense, layer_name(layer, ".mlp.up_proj.weight"@), i, h, allow)
        &&& matrix_ok(dense, layer_name(layer, ".mlp.down_proj.weight"@), h, i, allow)
    }

    pub open spec fn layer_tensors_ok(&self, dense: Seq<TensorSegment>, layer: int, allow: bool) -> bool {
        &&& self.attention_tensors_ok(dense, layer, allow)
        &&& if self.moe_layer(layer) {
            self.moe_tensors_ok(dense, layer, allow)
        } else {
            self.dense_mlp_ok(dense, layer, allow)
        }
    }

    pub open spec fn global_tensors_ok(&self, dense: Seq<TensorSegment>, allow: bool) -> bool {
        let h = self.hidden_size as int;
        let v = self.vocab_size as int;
        &&& float_ok(dense, "model.embed_tokens.weight"@, seq![v, h], allow)
        &&& float_ok(dense, "model.norm.weight"@, seq![h], allow)
        &&& (!self.tie_word_embeddings ==> matrix_ok(dense, "lm_head.weight"@, v, h, allow))
    }

    /// One expert's projections fit the manifest's expert format.
    pub open spec fn expert_ok(&self, m: RuntimeManifest, e: ExpertLocation) -> bool {
        expert_tensors_ok(e.segments@, self.hidden_size as int, self.expert_intermediate_of(), m.architecture.expert_format)
    }

    /// Every expert's projections fit the manifest's expert format.
    pub open spec fn experts_ok(&self, m: RuntimeManifest) -> bool {
        forall|i: int| 0 <= i < m.storage.experts@.len() ==> self.expert_ok(m, #[trigger] m.storage.experts@[i])
    }

    /// Everything `validate_manifest` accepts.
    pub open spec fn manifest_matches(&self, m: RuntimeManifest) -> bool {
        let a = m.architecture;
        let allow = self.allow_f32(a);
        let dense = m.storage.dense_tensors@;
        let experts = m.storage.experts@;
        &&& self.header_ok(m)
        &&& a.moe_layers@ == self.expected_moe_layers()
        &&& experts.len() == self.expected_moe_layers().len() * self.num_local_experts
        &&& forall|i: int| 0 <= i < experts.len() ==> expert_tensors_ok(
            #[trigger] experts[i].segments@,
            self.hidden_size as int,
            self.expert_intermediate_of(),
            a.expert_format,
        )
        &&& self.global_tensors_ok(dense, allow)
        &&& forall|l: int| 0 <= l < self.num_hidden_layers ==> #[trigger] self.layer_tensors_ok(dense, l, allow)
    }

    /// Why layer `layer` fails `attention_tensors_ok`: the message of its
    /// first failing norm, projection, per-head norm or bias check.
    pub open spec fn attention_message(&self, dense: Seq<TensorSegment>, layer: int, allow: bool) -> Seq<char> {
        let h = self.hidden_size as u128;
        let hd = self.head_dim_of() as u128;
        let q = (self.num_attention_heads * self.head_dim_of()) as u128;
        let kv = (self.num_key_value_heads * self.head_dim_of()) as u128;
        if !float_ok(dense, layer_name(layer, ".input_layernorm.weight"@), seq![h as int], allow) {
            float_message(dense, layer_name(layer, ".input_layernorm.weight"@), seq![h], allow)
        } else if !float_ok(dense, layer_name(layer, ".post_attention_layernorm.weight"@), seq![h as int], allow) {
            float_message(dense, layer_name(layer, ".post_attention_layernorm.weight"@), seq![h], allow)
        } else if !matrix_ok(dense, layer_name(layer, ".self_attn.q_proj.weight"@), q as int, h as int, allow) {
            matrix_message(dense, layer_name(layer, ".self_attn.q_proj.weight"@), q, h, allow)
        } else if !matrix_ok(dense, layer_name(layer, ".self_attn.k_proj.weight"@), kv as int, h as int, allow) {
            matrix_message(dense, layer_name(layer, ".self_attn.k_proj.weight"@), kv, h, allow)
        } else if !matrix_ok(dense, layer_name(layer, ".self_attn.v_proj.weight"@), kv as int, h as int, allow) {
            matrix_message(dense, layer_name(layer, ".self_attn.v_proj.weight"@), kv, h, allow)
        } else if !matrix_ok(dense, layer_name(layer, ".self_attn.o_proj.weight"@), h as int, q as int, allow) {
            matrix_message(dense, layer_name(layer, ".self_attn.o_proj.weight"@), h, q, allow)
        } else if self.qwen3() && !float_ok(dense, layer_name(layer, ".self_attn.q_norm.weight"@), seq![hd as int], allow) {
            float_message(dense, layer_name(layer, ".self_attn.q_norm.weight"@), seq![hd], allow)
        } else if self.qwen3() && !float_ok(dense, layer_name(layer, ".self_attn.k_norm.weight"@), seq![hd as int], allow) {
            float_message(dense, layer_name(layer, ".self_attn.k_norm.weight"@), seq![hd], allow)
        } else if self.olmoe() && !float_ok(dense, layer_name(layer, ".self_attn.q_norm.weight"@), seq![q as int], allow) {
            float_message(dense, layer_name(layer, ".self_attn.q_norm.weight"@), seq![q], allow)
        } else if self.olmoe() && !float_ok(dense, layer_name(layer, ".self_attn.k_norm.weight"@), seq![kv as int], allow) {
            float_message(dense, layer_name(layer, ".self_attn.k_norm.weight"@), seq![kv], allow)
        } else if self.bias_on("q_proj"@) && !float_ok(dense, layer_name(layer, ".self_attn.q_proj.bias"@), seq![q as int], allow) {
            float_message(dense, layer_name(layer, ".self_attn.q_proj.bias"@), seq![q], allow)
        } else if self.bias_on("k_proj"@) && !float_ok(dense, layer_name(layer, ".self_attn.k_proj.bias"@), seq![kv as int], allow) {
            float_message(dense, layer_name(layer, ".self_attn.k_proj.bias"@), seq![kv], allow)
        } else if self.bias_on("v_proj"@) && !float_ok(dense, layer_name(layer, ".self_attn.v_proj.bias"@), seq![kv as int], allow) {
            float_message(dense, layer_name(layer, ".self_attn.v_proj.bias"@), seq![kv], allow)
        } else if self.bias_on("o_proj"@) && !float_ok(dense, layer_name(layer, ".self_attn.o_proj.bias"@), seq![h as int], allow) {
            float_message(dense, layer_name(layer, ".self_attn.o_proj.bias"@), seq![h], allow)
        } else {
            Seq::empty()
        }
    }

    /// Why layer `layer` fails `dense_mlp_ok`: its first failing matrix.
    pub open spec fn dense_mlp_message(&self, dense: Seq<TensorSegment>, layer: int, allow: bool) -> Seq<char> {
        let h = self.hidden_size as u128;
        let i = self.intermediate_size as u128;
        if !matrix_ok(dense, layer_name(layer, ".mlp.gate_proj.weight"@), i as int, h as int, allow) {
            matrix_message(dense, layer_name(layer, ".mlp.gate_proj.weight"@), i, h, allow)
        } else if !matrix_ok(dense, layer_name(layer, ".mlp.up_proj.weight"@), i as int, h as int, allow) {
            matrix_message(dense, layer_name(layer, ".mlp.up_proj.weight"@), i, h, allow)
        } else if !matrix_ok(dense, layer_name(layer, ".mlp.down_proj.weight"@), h as int, i as int, allow) {
            matrix_message(dense, layer_name(layer, ".mlp.down_proj.weight"@), h, i, allow)
        } else {
            Seq::empty()
        }
    }

    /// Why routed layer `layer` fails `moe_tensors_ok`: no or two router
    /// prefixes, no or two router tensors, a router of the wrong shape, or
    /// (for Qwen2) the first failing shared-expert matrix.
    pub open spec fn moe_message(&self, dense: Seq<TensorSegment>, layer: int, allow: bool) -> Seq<char> {
        let h = self.hidden_size as u128;
        match self.moe_prefix(dense, layer) {
            None => if !(self.qwen() || self.olmoe()) && self.has_router(dense, layer_name(layer, ".block_sparse_moe"@))
                && self.has_router(dense, layer_name(layer, ".mlp"@)) {
                "layer "@ + decimal(layer as nat) + " has ambiguous MoE router tensor prefixes"@
            } else {
                "layer "@ + decimal(layer as nat) + " has no supported MoE router tensor prefix"@
            },
            Some(p) => match self.router_weight(dense, p) {
                None => if self.granite() && present(dense, p + ".router.weight"@) && present(dense, p + ".router.layer.weight"@) {
                    "MoE block "@ + p + " has ambiguous router tensors"@
                } else {
                    "MoE block "@ + p + " has no exact router tensor"@
                },
                Some(r) => if !matrix_ok(dense, r, self.num_local_experts as int, h as int, allow) {
                    matrix_message(dense, r, self.num_local_experts as u128, h, allow)
                } else if self.qwen2() {
                    let shared: u128 = match self.shared_expert_intermediate_size { Some(x) => x as u128, None => 0 };
                            if !matrix_ok(dense, layer_name(layer, ".mlp.shared_expert_gate.weight"@), 1u128 as int, h as int, allow) {
                                matrix_message(dense, layer_name(layer, ".mlp.shared_expert_gate.weight"@), 1u128, h, allow)
                            } else if !matrix_ok(dense, layer_name(layer, ".mlp.shared_expert.gate_proj.weight"@), shared as int, h as int, allow) {
                                matrix_message(dense, layer_name(layer, ".mlp.shared_expert.gate_proj.weight"@), shared, h, allow)
                            } else if !matrix_ok(dense, layer_name(layer, ".mlp.shared_expert.up_proj.weight"@), shared as int, h as int, allow) {
                                matrix_message(dense, layer_name(layer, ".mlp.shared_expert.up_proj.weight"@), shared, h, allow)
                            } else if !matrix_ok(dense, layer_name(layer, ".mlp.shared_expert.down_proj.weight"@), h as int, shared as int, allow) {
                                matrix_message(dense, layer_name(layer, ".mlp.shared_expert.down_proj.weight"@), h, shared, allow)
                            } else {
                                Seq::empty()
                            }
                } else {
                    Seq::empty()
                },
            },
        }
    }

    /// Why layer `layer` fails `layer_tensors_ok`.
    pub open spec fn layer_message(&self, dense: Seq<TensorSegment>, layer: int, allow: bool) -> Seq<char> {
        if !self.attention_tensors_ok(dense, layer, allow) {
            self.attention_message(dense, layer, allow)
        } else if self.moe_layer(layer) {
            self.moe_message(dense, layer, allow)
        } else {
            self.dense_mlp_message(dense, layer, allow)
        }
    }

    /// Why the embedding, final norm or LM head fail `global_tensors_ok`.
    pub open spec fn global_message(&self, dense: Seq<TensorSegment>, allow: bool) -> Seq<char> {
        let h = self.hidden_size as u128;
        let v = self.vocab_size as u128;
        if !float_ok(dense, "model.embed_tokens.weight"@, seq![v as int, h as int], allow) {
            float_message(dense, "model.embed_tokens.weight"@, seq![v, h], allow)
        } else if !float_ok(dense, "model.norm.weight"@, seq![h as int], allow) {
            float_message(dense, "model.norm.weight"@, seq![h], allow)
        } else if !self.tie_word_embeddings && !matrix_ok(dense, "lm_head.weight"@, v as int, h as int, allow) {
            matrix_message(dense, "lm_head.weight"@, v, h, allow)
        } else {
            Seq::empty()
        }
    }

    /// The message of a failing decoder binding: that of the global tensors,
    /// else that of the first failing layer.
    pub open spec fn dense_failure_message(&self, dense: Seq<TensorSegment>, allow: bool, msg: Seq<char>) -> bool {
        if !self.global_tensors_ok(dense, allow) {
            msg == self.global_message(dense, allow)
        } else {
            exists|l: int| 0 <= l < self.num_hidden_layers
                && (forall|k: int| 0 <= k < l ==> #[trigger] self.layer_tensors_ok(dense, k, allow))
                && !self.layer_tensors_ok(dense, l, allow) && msg == self.layer_message(dense, l, allow)
        }
    }

    fn expect_bias(&self, dense: &Vec<TensorSegment>, prefix: &str, projection: &str, suffix: &str, width: u128, allow: bool) -> (r: Result<(), MixtralError>)
        ensures
            r is Ok <==> (self.bias_on(projection@) ==> float_ok(dense@, prefix@ + suffix@, seq![width as int], allow)),
            r matches Err(e) ==> e is Contract,
            r matches Err(MixtralError::Contract(m)) ==> m@ == float_message(dense@, prefix@ + suffix@, seq![width], allow),
    {
        if !self.attention_projection_has_bias(projection) {
            return Ok(());
        }
        let name = join(prefix, suffix);
        expect_float(dense, name.as_str(), &dims1(width), allow)
    }

    fn validate_attention_tensors(&self, dense: &Vec<TensorSegment>, layer: usize, allow: bool) -> (r: Result<(), MixtralError>)
        requires
            self.head_dim.is_some() || self.num_attention_heads > 0,
        ensures
            r is Ok <==> self.attention_tensors_ok(dense@, layer as int, allow),
            r matches Err(e) ==> e is Contract,
            r matches Err(MixtralError::Contract(m)) ==> m@ == self.attention_message(dense@, layer as int, allow),
    {
        let prefix = layer_prefix(layer);
        let p = prefix.as_str();
        let h = self.hidden_size as u128;
        let hd = self.head_dimension();
        let q = mul_wide(self.num_attention_heads, hd);
        let kv = mul_wide(self.num_key_value_heads, hd);
        match expect_float(dense, join(p, ".input_layernorm.weight").as_str(), &dims1(h), allow) {
            Ok(()) => {},
            Err(e) => return Err(e),
        }
        match expect_float(dense, join(p, ".post_attention_layernorm.weight").as_str(), &dims1(h), allow) {
            Ok(()) => {},
            Err(e) => return Err(e),
        }
        match expect_matrix(dense, join(p, ".self_attn.q_proj.weight").as_str(), q, h, allow) {
            Ok(()) => {},
            Err(e) => return Err(e),
        }
        match expect_matrix(dense, join(p, ".self_attn.k_proj.weight").as_str(), kv, h, allow) {
            Ok(()) => {},
            Err(e) => return Err(e),
        }
        match expect_matrix(dense, join(p, ".self_attn.v_proj.weight").as_str(), kv, h, allow) {
            Ok(()) => {},
            Err(e) => return Err(e),
        }
        match expect_matrix(dense, join(p, ".self_attn.o_proj.weight").as_str(), h, q, allow) {
            Ok(()) => {},
            Err(e) => return Err(e),
        }
        if self.is_qwen3() {
            match expect_float(dense, join(p, ".self_attn.q_norm.weight").as_str(), &dims1(hd as u128), allow) {
                Ok(()) => {},
                Err(e) => return Err(e),
            }
            match expect_float(dense, join(p, ".self_attn.k_norm.weight").as_str(), &dims1(hd as u128), allow) {
                Ok(()) => {},
                Err(e) => return Err(e),
            }
        }
        if self.is_olmoe() {
            match expect_float(dense, join(p, ".self_attn.q_norm.weight").as_str(), &dims1(q), allow) {
                Ok(()) => {},
                Err(e) => return Err(e),
            }
            match expect_float(dense, join(p, ".self_attn.k_norm.weight").as_str(), &dims1(kv), allow) {
                Ok(()) => {},
                Err(e) => return Err(e),
            }
        }
        match self.expect_bias(dense, p, "q_proj", ".self_attn.q_proj.bias", q, allow) {
            Ok(()) => {},
            Err(e) => return Err(e),
        }
        match self.expect_bias(dense, p, "k_proj", ".self_attn.k_proj.bias", kv, allow) {
            Ok(()) => {},
            Err(e) => return Err(e),
        }
        match self.expect_bias(dense, p, "v_proj", ".self_attn.v_proj.bias", kv, allow) {
            Ok(()) => {},
            Err(e) => return Err(e),
        }
        match self.expect_bias(dense, p, "o_proj", ".self_attn.o_proj.bias", h, allow) {
            Ok(()) => {},
            Err(e) => return Err(e),
        }
        Ok(())
    }
}


fn u32_vec_eq(a: &Vec<u32>, b: &Vec<u32>) -> (r: bool)
    ensures
        r == (a@ == b@),
{
    if a.len() != b.len() {
        return false;
    }
    let mut i: usize = 0;
    while i < a.len()
        invariant
            a@.len() == b@.len(),
            i <= a@.len(),
            forall|k: int| 0 <= k < i ==> a@[k] == b@[k],
        decreases a@.len() - i,
    {
        if a[i] != b[i] {
            return false;
        }
        i += 1;
    }
    assert(a@ =~= b@);
    true
}

impl MixtralConfig {
    fn has_router_at(&self, dense: &Vec<TensorSegment>, prefix: &str) -> (b: bool)
        ensures
            b == self.has_router(dense@, prefix@),
    {
        if self.is_granite() {
            is_present(dense, join(prefix, ".router.weight").as_str())
                || is_present(dense, join(prefix, ".router.layer.weight").as_str())
        } else {
            is_present(dense, join(prefix, ".gate.weight").as_str())
        }
    }

    fn resolve_moe_prefix(&self, dense: &Vec<TensorSegment>, layer: usize) -> (r: Result<String, MixtralError>)
        ensures
            match r {
                Ok(p) => self.moe_prefix(dense@, layer as int) == Some(p@),
                Err(e) => self.moe_prefix(dense@, layer as int) is None && e is Contract
                    && (e matches MixtralError::Contract(m) && m@ == (if !(self.qwen() || self.olmoe())
                        && self.has_router(dense@, layer_name(layer as int, ".block_sparse_moe"@))
                        && self.has_router(dense@, layer_name(layer as int, ".mlp"@)) {
                        "layer "@ + decimal(layer as nat) + " has ambiguous MoE router tensor prefixes"@
                    } else {
                        "layer "@ + decimal(layer as nat) + " has no supported MoE router tensor prefix"@
                    })),
            },
    {
        let prefix = layer_prefix(layer);
        let mlp = join(prefix.as_str(), ".mlp");
        if self.is_qwen() || self.is_olmoe() {
            if self.has_router_at(dense, mlp.as_str()) {
                return Ok(mlp);
            }
            return Err(layer_error(layer, " has no supported MoE router tensor prefix"));
        }
        let sparse = join(prefix.as_str(), ".block_sparse_moe");
        let a = self.has_router_at(dense, sparse.as_str());
        let b = self.has_router_at(dense, mlp.as_str());
        if a && !b {
            Ok(sparse)
        } else if !a && b {
            Ok(mlp)
        } else if a && b {
            Err(layer_error(layer, " has ambiguous MoE router tensor prefixes"))
        } else {
            Err(layer_error(layer, " has no supported MoE router tensor prefix"))
        }
    }

    fn resolve_router_weight(&self, dense: &Vec<TensorSegment>, prefix: &str) -> (r: Result<String, MixtralError>)
        ensures
            match r {
                Ok(n) => self.router_weight(dense@, prefix@) == Some(n@),
                Err(e) => self.router_weight(dense@, prefix@) is None && e is Contract
                    && (e matches MixtralError::Contract(m) && m@ == (if self.granite()
                        && present(dense@, prefix@ + ".router.weight"@) && present(dense@, prefix@ + ".router.layer.weight"@) {
                        "MoE block "@ + prefix@ + " has ambiguous router tensors"@
                    } else {
                        "MoE block "@ + prefix@ + " has no exact router tensor"@
                    })),
            },
    {
        if self.is_granite() {
            let r1 = join(prefix, ".router.weight");
            let r2 = join(prefix, ".router.layer.weight");
            let a = is_present(dense, r1.as_str());
            let b = is_present(dense, r2.as_str());
            if a && !b {
                Ok(r1)
            } else if !a && b {
                Ok(r2)
            } else if a && b {
                Err(named_error("MoE block ", prefix, " has ambiguous router tensors"))
            } else {
                Err(named_error("MoE block ", prefix, " has no exact router tensor"))
            }
        } else {
            let r = join(prefix, ".gate.weight");
            if is_present(dense, r.as_str()) {
                Ok(r)
            } else {
                Err(named_error("MoE block ", prefix, " has no exact router tensor"))
            }
        }
    }

    fn validate_moe_tensors(&self, dense: &Vec<TensorSegment>, layer: usize, allow: bool) -> (r: Result<(), MixtralError>)
        ensures
            r is Ok <==> self.moe_tensors_ok(dense@, layer as int, allow),
            r matches Err(e) ==> e is Contract,
            r matches Err(MixtralError::Contract(m)) ==> m@ == self.moe_message(dense@, layer as int, allow),
    {
        let moe_prefix = match self.resolve_moe_prefix(dense, layer) {
            Ok(p) => p,
            Err(e) => return Err(e),
        };
        let router = match self.resolve_router_weight(dense, moe_prefix.as_str()) {
            Ok(r) => r,
            Err(e) => return Err(e),
        };
        let h = self.hidden_size as u128;
        match expect_matrix(dense, router.as_str(), self.num_local_experts as u128, h, allow) {
            Ok(()) => {},
            Err(e) => return Err(e),
        }
        if self.is_qwen2() {
            let shared: u128 = match self.shared_expert_intermediate_size {
                Some(x) => x as u128,
                None => 0,
            };
            let prefix = layer_prefix(layer);
            let p = prefix.as_str();
            match expect_matrix(dense, join(p, ".mlp.shared_expert_gate.weight").as_str(), 1, h, allow) {
                Ok(()) => {},
                Err(e) => return Err(e),
            }
            match expect_matrix(dense, join(p, ".mlp.shared_expert.gate_proj.weight").as_str(), shared, h, allow) {
                Ok(()) => {},
                Err(e) => return Err(e),
            }
            match expect_matrix(dense, join(p, ".mlp.shared_expert.up_proj.weight").as_str(), shared, h, allow) {
                Ok(()) => {},
                Err(e) => return Err(e),
            }
            match expect_matrix(dense, join(p, ".mlp.shared_expert.down_proj.weight").as_str(), h, shared, allow) {
                Ok(()) => {},
                Err(e) => return Err(e),
            }
        }
        Ok(())
    }

    fn validate_dense_mlp(&self, dense: &Vec<TensorSegment>, layer: usize, allow: bool) -> (r: Result<(), MixtralError>)
        ensures
            r is Ok <==> self.dense_mlp_ok(dense@, layer as int, allow),
            r matches Err(e) ==> e is Contract,
            r matches Err(MixtralError::Contract(m)) ==> m@ == self.dense_mlp_message(dense@, layer as int, allow),
    {
        let prefix = layer_prefix(layer);
        let p = prefix.as_str();
        let h = self.hidden_size as u128;
        let i = self.intermediate_size as u128;
        match expect_matrix(dense, join(p, ".mlp.gate_proj.weight").as_str(), i, h, allow) {
            Ok(()) => {},
            Err(e) => return Err(e),
        }
        match expect_matrix(dense, join(p, ".mlp.up_proj.weight").as_str(), i, h, allow) {
            Ok(()) => {},
            Err(e) => return Err(e),
        }
        match expect_matrix(dense, join(p, ".mlp.down_proj.weight").as_str(), h, i, allow) {
            Ok(()) => {},
            Err(e) => return Err(e),
        }
        Ok(())
    }

    fn validate_layer_tensors(&self, dense: &Vec<TensorSegment>, layer: usize, allow: bool) -> (r: Result<(), MixtralError>)
        requires
            self.head_dim.is_some() || self.num_attention_heads > 0,
        ensures
            r is Ok <==> self.layer_tensors_ok(dense@, layer as int, allow),
            r matches Err(e) ==> e is Contract,
            r matches Err(MixtralError::Contract(m)) ==> m@ == self.layer_message(dense@, layer as int, allow),
    {
        match self.validate_attention_tensors(dense, layer, allow) {
            Ok(()) => {},
            Err(e) => return Err(e),
        }
        if self.is_moe_layer(layer) {
            self.validate_moe_tensors(dense, layer, allow)
        } else {
            self.validate_dense_mlp(dense, layer, allow)
        }
    }

    fn validate_global_tensors(&self, dense: &Vec<TensorSegment>, allow: bool) -> (r: Result<(), MixtralError>)
        ensures
            r is Ok <==> self.global_tensors_ok(dense@, allow),
            r matches Err(e) ==> e is Contract,
            r matches Err(MixtralError::Contract(m)) ==> m@ == self.global_message(dense@, allow),
    {
        let h = self.hidden_size as u128;
        let v = self.vocab_size as u128;
        match expect_float(dense, "model.embed_tokens.weight", &dims2(v, h), allow) {
            Ok(()) => {},
            Err(e) => return Err(e),
        }
        match expect_float(dense, "model.norm.weight", &dims1(h), allow) {
            Ok(()) => {},
            Err(e) => return Err(e),
        }
        if !self.tie_word_embeddings {
            match expect_matrix(dense, "lm_head.weight", v, h, allow) {
                Ok(()) => {},
                Err(e) => return Err(e),
            }
        }
        Ok(())
    }

    fn expected_moe_layer_list(&self) -> (v: Vec<u32>)
        ensures
            v@ == self.expected_moe_layers(),
    {
        let mut v: Vec<u32> = Vec::new();
        let mut layer: usize = 0;
        while layer < self.num_hidden_layers
            invariant
                layer <= self.num_hidden_layers,
                v@ == self.moe_layers_below(layer as nat),
            decreases self.num_hidden_layers - layer,
        {
            if self.is_moe_layer(layer) {
                v.push(layer as u32);
            }
            layer += 1;
        }
        v
    }

    /// Checks a runtime manifest against this configuration: the architecture
    /// header, the routed-layer cadence, the expert count and every expert's
    /// projections, and every dense tensor the decoder reads.
    pub fn validate_manifest(&self, manifest: &RuntimeManifest) -> (r: Result<(), MixtralError>)
        requires
            !(self.header_prefix_ok(*manifest) && self.head_dim is None && self.num_attention_heads == 0),
        ensures
            r is Ok <==> self.manifest_matches(*manifest),
            r matches Err(e) ==> e is Contract,
            !self.header_ok(*manifest) ==> (r matches Err(MixtralError::Contract(m))
                && m@ == "runtime manifest does not match the compiled BF16/packed-INT4 standard-MoE path"@),
            self.header_ok(*manifest) && manifest.architecture.moe_layers@ != self.expected_moe_layers()
                ==> (r matches Err(MixtralError::Contract(m))
                && m@ == "manifest routed layers do not match the decoder sparse cadence"@),
            self.header_ok(*manifest) && manifest.architecture.moe_layers@ == self.expected_moe_layers()
                && manifest.storage.experts@.len() != self.expected_moe_layers().len() * self.num_local_experts
                ==> (r matches Err(MixtralError::Contract(m)) && m@ == "manifest contains "@
                + decimal(manifest.storage.experts@.len()) + " expert payloads, expected "@
                + decimal((self.expected_moe_layers().len() * self.num_local_experts) as nat)),
            self.header_ok(*manifest) && manifest.architecture.moe_layers@ == self.expected_moe_layers()
                && manifest.storage.experts@.len() == self.expected_moe_layers().len() * self.num_local_experts
                && !self.experts_ok(*manifest) ==> exists|i: int| #![trigger manifest.storage.experts@[i]]
                0 <= i < manifest.storage.experts@.len()
                && (forall|k: int| 0 <= k < i ==> self.expert_ok(*manifest, #[trigger] manifest.storage.experts@[k]))
                && (r matches Err(MixtralError::Contract(m)) && m@ == expert_message(manifest.storage.experts@[i],
                    self.hidden_size as int, self.expert_intermediate_of(), manifest.architecture.expert_format)),
            self.header_ok(*manifest) && manifest.architecture.moe_layers@ == self.expected_moe_layers()
                && manifest.storage.experts@.len() == self.expected_moe_layers().len() * self.num_local_experts
                && self.experts_ok(*manifest) ==> (r matches Err(MixtralError::Contract(m)) ==> self.dense_failure_message(
                    manifest.storage.dense_tensors@, self.allow_f32(manifest.architecture), m@)),
    {
        let a = &manifest.architecture;
        if !self.header_prefix_matches(manifest) {
            return Err(contract_error("runtime manifest does not match the compiled BF16/packed-INT4 standard-MoE path"));
        }
        let router_ok = match a.router {
            RouterSemantics::TopKNormalized | RouterSemantics::TopKSoftmax | RouterSemantics::TopKWeighted => true,
            _ => false,
        };
        if a.attention_config.head_dim as usize != self.head_dimension() || !router_ok
            || a.router_config.normalize_selected != self.norm_topk_prob
            || a.router_config.scaling_factor_bits != F32_ONE_BITS {
            return Err(contract_error("runtime manifest does not match the compiled BF16/packed-INT4 standard-MoE path"));
        }
        let expected = self.expected_moe_layer_list();
        let same = u32_vec_eq(&a.moe_layers, &expected);
        if !same {
            return Err(contract_error("manifest routed layers do not match the decoder sparse cadence"));
        }
        let expected_experts = mul_wide(expected.len(), self.num_local_experts);
        let experts = &manifest.storage.experts;
        if experts.len() as u128 != expected_experts {
            let mut m = string_of("manifest contains ");
            push_decimal(&mut m, experts.len() as u64);
            push_str(&mut m, " expert payloads, expected ");
            push_decimal_wide(&mut m, expected_experts);
            return Err(MixtralError::Contract(m));
        }
        let hidden = self.hidden_size;
        let inter = self.expert_intermediate_size();
        let mut i: usize = 0;
        while i < experts.len()
            invariant
                i <= experts@.len(),
                experts == &manifest.storage.experts,
                self.header_ok(*manifest),
                manifest.architecture.moe_layers@ == self.expected_moe_layers(),
                manifest.storage.experts@.len() == self.expected_moe_layers().len() * self.num_local_experts,
                a == &manifest.architecture,
                hidden == self.hidden_size,
                inter as int == self.expert_intermediate_of(),
                forall|k: int| 0 <= k < i ==> expert_tensors_ok(
                    #[trigger] experts@[k].segments@, hidden as int, inter as int, a.expert_format),
            decreases experts@.len() - i,
        {
            let checked = validate_expert_tensors(&experts[i], hidden, inter, &a.expert_format);
            if checked.is_err() {
                assert(!expert_tensors_ok(experts@[i as int].segments@, hidden as int, inter as int, a.expert_format));
                assert(forall|k: int| 0 <= k < i ==> self.expert_ok(*manifest, #[trigger] manifest.storage.experts@[k]));
                assert(manifest.storage.experts@[i as int] == experts@[i as int]);
                return checked;
            }
            i += 1;
        }
        assert(self.experts_ok(*manifest)) by {
            assert forall|k: int| 0 <= k < manifest.storage.experts@.len()
                implies self.expert_ok(*manifest, #[trigger] manifest.storage.experts@[k]) by {
                assert(expert_tensors_ok(experts@[k].segments@, hidden as int, inter as int, a.expert_format));
            }
        }
        let dense = &manifest.storage.dense_tensors;
        let allow = self.is_granite() && a.expert_format == WeightFormat::F32;
        match self.validate_global_tensors(dense, allow) {
            Ok(()) => {},
            Err(e) => return Err(e),
        }
        let mut layer: usize = 0;
        while layer < self.num_hidden_layers
            invariant
                layer <= self.num_hidden_layers,
                self.global_tensors_ok(dense@, allow),
                self.head_dim.is_some() || self.num_attention_heads > 0,
                dense == &manifest.storage.dense_tensors,
                self.experts_ok(*manifest),
                self.header_ok(*manifest),
                manifest.architecture.moe_layers@ == self.expected_moe_layers(),
                manifest.storage.experts@.len() == self.expected_moe_layers().len() * self.num_local_experts,
                allow == self.allow_f32(manifest.architecture),
                forall|l: int| 0 <= l < layer ==> #[trigger] self.layer_tensors_ok(dense@, l, allow),
            decreases self.num_hidden_layers - layer,
        {
            match self.validate_layer_tensors(dense, layer, allow) {
                Ok(()) => {},
                Err(e) => {
                    assert(!self.layer_tensors_ok(dense@, layer as int, allow));
                    return Err(e);
                },
            }
            layer += 1;
        }
        Ok(())
    }
}


/// Runtime knobs of the standard-MoE decoder.
#[derive(Debug, Clone, Copy, PartialEq, Eq, Structural)]
pub struct MixtralRuntimeOptions {
    pub cuda_device: Option<i32>,
    pub dense_tile_bytes: u64,
    pub ram_dense_cache_bytes: Option<u64>,
    pub ram_expert_cache_bytes: Option<u64>,
    pub accelerator_expert_cache_bytes: Option<u64>,
}

impl Default for MixtralRuntimeOptions {
    fn default() -> (o: Self)
        ensures
            o.cuda_device is None && o.dense_tile_bytes == 0 && o.ram_dense_cache_bytes is None
                && o.ram_expert_cache_bytes is None && o.accelerator_expert_cache_bytes is None,
    {
        MixtralRuntimeOptions {
            cuda_device: None,
            dense_tile_bytes: 0,
            ram_dense_cache_bytes: None,
            ram_expert_cache_bytes: None,
            accelerator_expert_cache_bytes: None,
        }
    }
}

/// How a runtime divides its memory envelope between caches.
#[derive(Debug, Clone, Copy, PartialEq, Eq, Structural)]
pub struct CachePlan {
    pub dense_tile_bytes: u64,
    pub ram_dense_cache_bytes: u64,
    pub ram_expert_cache_bytes: u64,
    pub cuda_limit_bytes: u64,
    pub accelerator_expert_cache_bytes: u64,
}

pub open spec fn sat_sub(a: u64, b: u64) -> u64 {
    if a >= b { (a - b) as u64 } else { 0 }
}

/// The cache plan of a standard-MoE runtime: the requested dense tile (else
/// the host staging size); a dense cache of the whole dense set when it fits
/// the RAM cache (unless one is requested); an expert cache of what the dense
/// cache leaves (unless requested); both split within the RAM cache; the
/// accelerator limit less its runtime reserve; and an accelerator expert
/// cache, capped by the envelope, for BF16 and packed INT4 experts only.
/// `o`'s value, or `d` when it is absent.
pub open spec fn chosen(o: Option<u64>, d: u64) -> u64 {
    match o { Some(v) => v, None => d }
}

pub open spec fn min_u64(a: u64, b: u64) -> u64 {
    if a <= b { a } else { b }
}

pub open spec fn cache_plan_spec(
    options: MixtralRuntimeOptions,
    dense_bytes: u64,
    ram_cache_bytes: u64,
    host_staging_bytes: u64,
    accelerator_limit_bytes: u64,
    accelerator_runtime_reserve_bytes: u64,
    accelerator_cache_bytes: u64,
    expert_format: WeightFormat,
) -> CachePlan {
    let dense = chosen(options.ram_dense_cache_bytes, if dense_bytes <= ram_cache_bytes { dense_bytes } else { 0 });
    let split = crate::cli::split_spec(ram_cache_bytes, dense,
        chosen(options.ram_expert_cache_bytes, sat_sub(ram_cache_bytes, dense)));
    CachePlan {
        dense_tile_bytes: if options.dense_tile_bytes == 0 { host_staging_bytes } else { options.dense_tile_bytes },
        ram_dense_cache_bytes: split.0,
        ram_expert_cache_bytes: split.1,
        cuda_limit_bytes: sat_sub(accelerator_limit_bytes, accelerator_runtime_reserve_bytes),
        accelerator_expert_cache_bytes: if expert_format == WeightFormat::Bf16 || expert_format == WeightFormat::PackedInt4Group32 {
            min_u64(chosen(options.accelerator_expert_cache_bytes, accelerator_cache_bytes), accelerator_cache_bytes)
        } else {
            0
        },
    }
}

pub fn plan_caches(
    options: &MixtralRuntimeOptions,
    dense_bytes: u64,
    ram_cache_bytes: u64,
    host_staging_bytes: u64,
    accelerator_limit_bytes: u64,
    accelerator_runtime_reserve_bytes: u64,
    accelerator_cache_bytes: u64,
    expert_format: WeightFormat,
) -> (p: CachePlan)
    ensures
        p == cache_plan_spec(*options, dense_bytes, ram_cache_bytes, host_staging_bytes, accelerator_limit_bytes,
            accelerator_runtime_reserve_bytes, accelerator_cache_bytes, expert_format),
{
    let auto_dense = if dense_bytes <= ram_cache_bytes { dense_bytes } else { 0 };
    let dense = match options.ram_dense_cache_bytes { Some(d) => d, None => auto_dense };
    let expert = match options.ram_expert_cache_bytes {
        Some(e) => e,
        None => ram_cache_bytes.saturating_sub(dense),
    };
    let (ram_dense, ram_expert) = crate::cli::split_budget(ram_cache_bytes, dense, expert);
    let accel = if expert_format == WeightFormat::Bf16 || expert_format == WeightFormat::PackedInt4Group32 {
        let wanted = match options.accelerator_expert_cache_bytes { Some(a) => a, None => accelerator_cache_bytes };
        if wanted <= accelerator_cache_bytes { wanted } else { accelerator_cache_bytes }
    } else {
        0
    };
    CachePlan {
        dense_tile_bytes: if options.dense_tile_bytes == 0 { host_staging_bytes } else { options.dense_tile_bytes },
        ram_dense_cache_bytes: ram_dense,
        ram_expert_cache_bytes: ram_expert,
        cuda_limit_bytes: accelerator_limit_bytes.saturating_sub(accelerator_runtime_reserve_bytes),
        accelerator_expert_cache_bytes: accel,
    }
}

/// `items` separated by `sep`.
pub open spec fn joined(items: Seq<String>, sep: Seq<char>) -> Seq<char>
    decreases items.len(),
{
    if items.len() == 0 {
        Seq::empty()
    } else if items.len() == 1 {
        items[0]@
    } else {
        joined(items.drop_last(), sep) + sep + items.last()@
    }
}

/// A memory plan a standard-MoE runtime can start from: feasible, with some
/// context and some verification positions. Otherwise the refusal is the
/// plan's notes, joined by `"; "`.
pub fn check_memory_envelope(
    feasible: bool,
    effective_context_tokens: u64,
    max_verification_positions: u64,
    notes: &Vec<String>,
) -> (r: Result<(), String>)
    ensures
        r is Ok <==> (feasible && effective_context_tokens != 0 && max_verification_positions != 0),
        r matches Err(m) ==> m@ == joined(notes@, "; "@),
{
    if feasible && effective_context_tokens != 0 && max_verification_positions != 0 {
        return Ok(());
    }
    let mut m = String::new();
    let mut i: usize = 0;
    while i < notes.len()
        invariant
            i <= notes@.len(),
            m@ == joined(notes@.take(i as int), "; "@),
        decreases notes@.len() - i,
    {
        let ghost before = m@;
        if i > 0 {
            crate::text::push_str(&mut m, "; ");
        }
        crate::text::push_str(&mut m, notes[i].as_str());
        proof {
            let t = notes@.take(i + 1);
            assert(t.drop_last() =~= notes@.take(i as int));
            if i == 0 {
                assert(before == Seq::<char>::empty());
                assert(m@ =~= t[0]@);
            } else {
                assert(m@ =~= before + "; "@ + t.last()@);
            }
        }
        i += 1;
    }
    assert(notes@.take(notes@.len() as int) =~= notes@);
    Err(m)
}

/// A plan that reserves accelerator memory needs a selected device.
pub fn check_accelerator_device(has_device: bool, accelerator_limit_bytes: u64) -> (r: Result<(), String>)
    ensures
        r is Ok <==> (has_device || accelerator_limit_bytes == 0),
        r matches Err(m) ==> m@ == "the plan reserves accelerator memory but no CUDA device was selected"@,
{
    if !has_device && accelerator_limit_bytes > 0 {
        return Err(string_of("the plan reserves accelerator memory but no CUDA device was selected"));
    }
    Ok(())
}

/// The largest byte size among the experts (zero for none).
pub open spec fn largest_expert_spec(experts: Seq<ExpertLocation>) -> nat
    decreases experts.len(),
{
    if experts.len() == 0 {
        0
    } else {
        let rest = largest_expert_spec(experts.drop_last());
        let last = crate::manifest::segments_bytes(experts.last().segments@);
        if last > rest { last } else { rest }
    }
}

/// The largest expert payload, in bytes.
pub fn largest_expert(experts: &Vec<ExpertLocation>) -> (n: u64)
    requires
        forall|i: int| 0 <= i < experts@.len() ==> crate::manifest::segments_bytes(#[trigger] experts@[i].segments@) <= u64::MAX,
    ensures
        n == largest_expert_spec(experts@),
{
    let mut best: u64 = 0;
    let mut i: usize = 0;
    while i < experts.len()
        invariant
            i <= experts@.len(),
            forall|k: int| 0 <= k < experts@.len() ==> crate::manifest::segments_bytes(#[trigger] experts@[k].segments@) <= u64::MAX,
            best == largest_expert_spec(experts@.take(i as int)),
        decreases experts@.len() - i,
    {
        assert(experts@.take(i + 1).drop_last() =~= experts@.take(i as int));
        let b = experts[i].byte_len();
        if b > best {
            best = b;
        }
        i += 1;
    }
    assert(experts@.take(experts@.len() as int) =~= experts@);
    best
}

/// Every expert load must fit host staging, and there must be some expert
/// bytes to load.
pub fn check_expert_staging(max_expert: u64, host_staging_bytes: u64) -> (r: Result<(), String>)
    ensures
        r is Ok <==> (max_expert != 0 && max_expert <= host_staging_bytes),
        r matches Err(m) ==> m@ == "largest expert payload "@ + decimal(max_expert as nat) + " exceeds host staging "@
            + decimal(host_staging_bytes as nat),
{
    if max_expert == 0 || max_expert > host_staging_bytes {
        let mut m = string_of("largest expert payload ");
        push_decimal(&mut m, max_expert);
        push_str(&mut m, " exceeds host staging ");
        push_decimal(&mut m, host_staging_bytes);
        return Err(m);
    }
    Ok(())
}

} // verus!
