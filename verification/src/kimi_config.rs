//! The checks that a Kimi K2.7 `config.json` must pass before its numbers
//! are read: the model types, activation, router and quantization scheme
//! are fixed, and every dimension must be present.
use vstd::prelude::*;
use crate::fingerprint::{debug_quoted, debug_str};
use crate::kimi::{KimiError, KimiK27Config, OUTER_MODEL_TYPE, TEXT_MODEL_TYPE};
use crate::text::{decimal, push_decimal, push_str, str_eq, string_of};

verus! {

/// `quantization_config.config_groups.group_0.weights`; each field is `None`
/// where the key is absent or holds another JSON type (`kind` is `type`).
pub struct WeightFields {
    pub num_bits: Option<u64>,
    pub group_size: Option<u64>,
    pub strategy: Option<String>,
    pub kind: Option<String>,
    pub symmetric: Option<bool>,
}

/// `text_config.quantization_config`.
pub struct QuantizationFields {
    pub format: Option<String>,
    pub quant_method: Option<String>,
    /// `None` where the weights object is absent.
    pub weights: Option<WeightFields>,
}

/// `text_config.rope_scaling` (`kind` is `type`). Numbers are held as the
/// bit patterns of their single-precision values.
pub struct RopeFields {
    pub kind: Option<String>,
    pub original_max_position_embeddings: Option<u64>,
    pub factor_bits: Option<u32>,
    pub beta_fast_bits: Option<u32>,
    pub beta_slow_bits: Option<u32>,
    pub mscale_bits: Option<u32>,
    pub mscale_all_dim_bits: Option<u32>,
}

/// `text_config`.
pub struct TextFields {
    pub model_type: Option<String>,
    pub hidden_act: Option<String>,
    pub scoring_func: Option<String>,
    pub topk_method: Option<String>,
    pub norm_topk_prob: Option<bool>,
    pub attention_bias: Option<bool>,
    pub quantization: Option<QuantizationFields>,
    pub rope_scaling: Option<RopeFields>,
    pub hidden_size: Option<u64>,
    pub intermediate_size: Option<u64>,
    pub moe_intermediate_size: Option<u64>,
    pub num_hidden_layers: Option<u64>,
    pub num_attention_heads: Option<u64>,
    pub n_routed_experts: Option<u64>,
    pub n_shared_experts: Option<u64>,
    pub num_experts_per_tok: Option<u64>,
    pub first_k_dense_replace: Option<u64>,
    pub q_lora_rank: Option<u64>,
    pub kv_lora_rank: Option<u64>,
    pub qk_nope_head_dim: Option<u64>,
    pub qk_rope_head_dim: Option<u64>,
    pub v_head_dim: Option<u64>,
    pub n_group: Option<u64>,
    pub topk_group: Option<u64>,
    pub max_position_embeddings: Option<u64>,
    pub vocab_size: Option<u64>,
    pub rope_theta_bits: Option<u32>,
    pub routed_scaling_factor_bits: Option<u32>,
    pub rms_norm_eps_bits: Option<u32>,
}

/// The fields of `config.json` that the contract reads.
pub struct KimiConfigFields {
    pub model_type: Option<String>,
    /// `None` where `text_config` is absent or not an object.
    pub text_config: Option<TextFields>,
}

/// The first problem found, if any.
pub open spec fn or_else(a: Option<Seq<char>>, b: Option<Seq<char>>) -> Option<Seq<char>> {
    if a is Some { a } else { b }
}

/// `format!("{:?}")` of an optional string.
pub open spec fn debug_opt_str(a: Option<String>) -> Seq<char> {
    match a {
        Some(s) => "Some("@ + debug_quoted(s@) + ")"@,
        None => "None"@,
    }
}

pub open spec fn bool_text(b: bool) -> Seq<char> {
    if b { "true"@ } else { "false"@ }
}

pub open spec fn debug_opt_bool(a: Option<bool>) -> Seq<char> {
    match a {
        Some(b) => "Some("@ + bool_text(b) + ")"@,
        None => "None"@,
    }
}

pub open spec fn debug_opt_u64(a: Option<u64>) -> Seq<char> {
    match a {
        Some(n) => "Some("@ + decimal(n as nat) + ")"@,
        None => "None"@,
    }
}

/// `key` must hold the string `expected`.
pub open spec fn str_problem(key: Seq<char>, expected: Seq<char>, actual: Option<String>) -> Option<Seq<char>> {
    if actual matches Some(a) && a@ == expected {
        None
    } else {
        Some(key + " must be "@ + debug_quoted(expected) + ", got "@ + debug_opt_str(actual))
    }
}

/// `key` must hold the boolean `expected`.
pub open spec fn bool_problem(key: Seq<char>, expected: bool, actual: Option<bool>) -> Option<Seq<char>> {
    if actual == Some(expected) {
        None
    } else {
        Some(key + " must be "@ + bool_text(expected) + ", got "@ + debug_opt_bool(actual))
    }
}

/// `key` must hold the number `expected`.
pub open spec fn u64_problem(key: Seq<char>, expected: u64, actual: Option<u64>) -> Option<Seq<char>> {
    if actual == Some(expected) {
        None
    } else {
        Some(key + " must be "@ + decimal(expected as nat) + ", got "@ + debug_opt_u64(actual))
    }
}

/// `key` must hold a number that fits `usize`.
pub open spec fn size_problem(key: Seq<char>, v: Option<u64>) -> Option<Seq<char>> {
    if v matches Some(n) && n <= usize::MAX {
        None
    } else {
        Some(key + " must be a positive integer"@)
    }
}

/// `key` must hold a number.
pub open spec fn float_problem(key: Seq<char>, v: Option<u32>) -> Option<Seq<char>> {
    if v is Some {
        None
    } else {
        Some(key + " must be numeric"@)
    }
}

pub open spec fn weights_problem(w: Option<WeightFields>) -> Option<Seq<char>> {
    match w {
        None => Some("group_0.weights is missing"@),
        Some(w) => or_else(u64_problem("num_bits"@, 4, w.num_bits), or_else(u64_problem("group_size"@, 32, w.group_size), or_else(str_problem("strategy"@, "group"@, w.strategy), or_else(str_problem("type"@, "int"@, w.kind), bool_problem("symmetric"@, true, w.symmetric))))),
    }
}

pub open spec fn quantization_problem(q: Option<QuantizationFields>) -> Option<Seq<char>> {
    match q {
        None => Some("quantization_config is missing"@),
        Some(q) => or_else(str_problem("format"@, "pack-quantized"@, q.format), or_else(str_problem("quant_method"@, "compressed-tensors"@, q.quant_method), weights_problem(q.weights))),
    }
}

pub open spec fn rope_problem(r: Option<RopeFields>) -> Option<Seq<char>> {
    match r {
        None => Some("rope_scaling is missing"@),
        Some(r) => str_problem("type"@, "yarn"@, r.kind),
    }
}

/// The fixed strings, flags and objects of the contract.
pub open spec fn scheme_problem(outer: Option<String>, t: TextFields) -> Option<Seq<char>> {
    or_else(str_problem("model_type"@, OUTER_MODEL_TYPE@, outer), or_else(str_problem("model_type"@, TEXT_MODEL_TYPE@, t.model_type), or_else(str_problem("hidden_act"@, "silu"@, t.hidden_act), or_else(str_problem("scoring_func"@, "sigmoid"@, t.scoring_func), or_else(str_problem("topk_method"@, "noaux_tc"@, t.topk_method), or_else(bool_problem("norm_topk_prob"@, true, t.norm_topk_prob), or_else(bool_problem("attention_bias"@, false, t.attention_bias), or_else(quantization_problem(t.quantization), rope_problem(t.rope_scaling)))))))))
}

/// The dimensions, read once the scheme is known to hold.
pub open spec fn sizes_problem(t: TextFields) -> Option<Seq<char>> {
    let r = t.rope_scaling->0;
    let w = t.quantization->0.weights->0;
    or_else(size_problem("hidden_size"@, t.hidden_size), or_else(size_problem("intermediate_size"@, t.intermediate_size), or_else(size_problem("moe_intermediate_size"@, t.moe_intermediate_size), or_else(size_problem("num_hidden_layers"@, t.num_hidden_layers), or_else(size_problem("num_attention_heads"@, t.num_attention_heads), or_else(size_problem("n_routed_experts"@, t.n_routed_experts), or_else(size_problem("n_shared_experts"@, t.n_shared_experts), or_else(size_problem("num_experts_per_tok"@, t.num_experts_per_tok), or_else(size_problem("first_k_dense_replace"@, t.first_k_dense_replace), or_else(size_problem("q_lora_rank"@, t.q_lora_rank), or_else(size_problem("kv_lora_rank"@, t.kv_lora_rank), or_else(size_problem("qk_nope_head_dim"@, t.qk_nope_head_dim), or_else(size_problem("qk_rope_head_dim"@, t.qk_rope_head_dim), or_else(size_problem("v_head_dim"@, t.v_head_dim), or_else(size_problem("n_group"@, t.n_group), or_else(size_problem("topk_group"@, t.topk_group), or_else(size_problem("max_position_embeddings"@, t.max_position_embeddings), or_else(size_problem("original_max_position_embeddings"@, r.original_max_position_embeddings), or_else(size_problem("vocab_size"@, t.vocab_size), size_problem("group_size"@, w.group_size))))))))))))))))))))
}

/// The single-precision values, read after the dimensions.
pub open spec fn floats_problem(t: TextFields) -> Option<Seq<char>> {
    let r = t.rope_scaling->0;
    or_else(float_problem("rope_theta"@, t.rope_theta_bits), or_else(float_problem("factor"@, r.factor_bits), or_else(float_problem("beta_fast"@, r.beta_fast_bits), or_else(float_problem("beta_slow"@, r.beta_slow_bits), or_else(float_problem("mscale"@, r.mscale_bits), or_else(float_problem("mscale_all_dim"@, r.mscale_all_dim_bits), or_else(float_problem("routed_scaling_factor"@, t.routed_scaling_factor_bits), float_problem("rms_norm_eps"@, t.rms_norm_eps_bits))))))))
}

/// The first problem of a configuration, in the order the fields are read.
pub open spec fn fields_problem(f: KimiConfigFields) -> Option<Seq<char>> {
    match f.text_config {
        None => Some("text_config is missing"@),
        Some(t) => or_else(scheme_problem(f.model_type, t), or_else(sizes_problem(t), floats_problem(t))),
    }
}

/// The configuration the fields describe.
pub open spec fn parsed_config(t: TextFields) -> KimiK27Config {
    let r = t.rope_scaling->0;
    let w = t.quantization->0.weights->0;
    KimiK27Config {
        hidden_size: t.hidden_size->0 as usize,
        intermediate_size: t.intermediate_size->0 as usize,
        moe_intermediate_size: t.moe_intermediate_size->0 as usize,
        num_hidden_layers: t.num_hidden_layers->0 as usize,
        num_attention_heads: t.num_attention_heads->0 as usize,
        n_routed_experts: t.n_routed_experts->0 as usize,
        n_shared_experts: t.n_shared_experts->0 as usize,
        num_experts_per_tok: t.num_experts_per_tok->0 as usize,
        first_k_dense_replace: t.first_k_dense_replace->0 as usize,
        q_lora_rank: t.q_lora_rank->0 as usize,
        kv_lora_rank: t.kv_lora_rank->0 as usize,
        qk_nope_head_dim: t.qk_nope_head_dim->0 as usize,
        qk_rope_head_dim: t.qk_rope_head_dim->0 as usize,
        v_head_dim: t.v_head_dim->0 as usize,
        n_group: t.n_group->0 as usize,
        topk_group: t.topk_group->0 as usize,
        max_position_embeddings: t.max_position_embeddings->0 as usize,
        original_max_position_embeddings: r.original_max_position_embeddings->0 as usize,
        vocab_size: t.vocab_size->0 as usize,
        group_size: w.group_size->0 as usize,
        rope_theta_bits: t.rope_theta_bits->0,
        rope_factor_bits: r.factor_bits->0,
        beta_fast_bits: r.beta_fast_bits->0,
        beta_slow_bits: r.beta_slow_bits->0,
        rope_mscale_bits: r.mscale_bits->0,
        rope_mscale_all_dim_bits: r.mscale_all_dim_bits->0,
        routed_scaling_factor_bits: t.routed_scaling_factor_bits->0,
        rms_norm_eps_bits: t.rms_norm_eps_bits->0,
    }
}

fn debug_opt_string(a: &Option<String>) -> (s: String)
    ensures
        s@ == debug_opt_str(*a),
{
    match a {
        Some(v) => {
            let mut s = string_of("Some(");
            push_str(&mut s, debug_str(v.as_str()).as_str());
            push_str(&mut s, ")");
            s
        },
        None => string_of("None"),
    }
}

fn push_bool(s: &mut String, b: bool)
    ensures
        final(s)@ == old(s)@ + bool_text(b),
{
    if b {
        push_str(s, "true");
    } else {
        push_str(s, "false");
    }
}

fn check_str(key: &str, expected: &str, actual: &Option<String>) -> (r: Option<String>)
    ensures
        match r {
            None => str_problem(key@, expected@, *actual) is None,
            Some(m) => str_problem(key@, expected@, *actual) == Some(m@),
        },
{
    let same = match actual {
        Some(a) => str_eq(a.as_str(), expected),
        None => false,
    };
    if same {
        return None;
    }
    let mut m = string_of(key);
    push_str(&mut m, " must be ");
    push_str(&mut m, debug_str(expected).as_str());
    push_str(&mut m, ", got ");
    push_str(&mut m, debug_opt_string(actual).as_str());
    Some(m)
}

fn check_bool(key: &str, expected: bool, actual: Option<bool>) -> (r: Option<String>)
    ensures
        match r {
            None => bool_problem(key@, expected, actual) is None,
            Some(m) => bool_problem(key@, expected, actual) == Some(m@),
        },
{
    if actual == Some(expected) {
        return None;
    }
    let mut m = string_of(key);
    push_str(&mut m, " must be ");
    push_bool(&mut m, expected);
    push_str(&mut m, ", got ");
    match actual {
        Some(b) => {
            push_str(&mut m, "Some(");
            push_bool(&mut m, b);
            push_str(&mut m, ")");
        },
        None => push_str(&mut m, "None"),
    }
    Some(m)
}

fn check_u64(key: &str, expected: u64, actual: Option<u64>) -> (r: Option<String>)
    ensures
        match r {
            None => u64_problem(key@, expected, actual) is None,
            Some(m) => u64_problem(key@, expected, actual) == Some(m@),
        },
{
    if actual == Some(expected) {
        return None;
    }
    let mut m = string_of(key);
    push_str(&mut m, " must be ");
    push_decimal(&mut m, expected);
    push_str(&mut m, ", got ");
    match actual {
        Some(n) => {
            push_str(&mut m, "Some(");
            push_decimal(&mut m, n);
            push_str(&mut m, ")");
        },
        None => push_str(&mut m, "None"),
    }
    Some(m)
}

fn read_size(key: &str, v: Option<u64>) -> (r: Result<usize, String>)
    ensures
        match r {
            Ok(n) => size_problem(key@, v) is None && n == v->0,
            Err(m) => size_problem(key@, v) == Some(m@),
        },
{
    match v {
        Some(n) => {
            if n <= usize::MAX as u64 {
                return Ok(n as usize);
            }
        },
        None => {},
    }
    let mut m = string_of(key);
    push_str(&mut m, " must be a positive integer");
    Err(m)
}

fn read_float(key: &str, v: Option<u32>) -> (r: Result<u32, String>)
    ensures
        match r {
            Ok(b) => float_problem(key@, v) is None && b == v->0,
            Err(m) => float_problem(key@, v) == Some(m@),
        },
{
    match v {
        Some(b) => Ok(b),
        None => {
            let mut m = string_of(key);
            push_str(&mut m, " must be numeric");
            Err(m)
        },
    }
}

impl KimiK27Config {
    /// Checks the fields of a Kimi K2.7 `config.json` in the order they are
    /// read and builds the configuration they describe; the first field that
    /// does not fit the contract is reported.
    pub fn from_fields(f: &KimiConfigFields) -> (r: Result<KimiK27Config, KimiError>)
        ensures
            r is Ok <==> fields_problem(*f) is None,
            r matches Ok(c) ==> c == parsed_config(f.text_config->0),
            r matches Err(e) ==> (e matches KimiError::Contract(m) && fields_problem(*f) == Some(m@)),
    {
        let t = match &f.text_config {
            None => return Err(KimiError::Contract(string_of("text_config is missing"))),
            Some(t) => t,
        };
        match check_str("model_type", OUTER_MODEL_TYPE, &f.model_type) {
            Some(m) => return Err(KimiError::Contract(m)),
            None => {},
        }
        match check_str("model_type", TEXT_MODEL_TYPE, &t.model_type) {
            Some(m) => return Err(KimiError::Contract(m)),
            None => {},
        }
        match check_str("hidden_act", "silu", &t.hidden_act) {
            Some(m) => return Err(KimiError::Contract(m)),
            None => {},
        }
        match check_str("scoring_func", "sigmoid", &t.scoring_func) {
            Some(m) => return Err(KimiError::Contract(m)),
            None => {},
        }
        match check_str("topk_method", "noaux_tc", &t.topk_method) {
            Some(m) => return Err(KimiError::Contract(m)),
            None => {},
        }
        match check_bool("norm_topk_prob", true, t.norm_topk_prob) {
            Some(m) => return Err(KimiError::Contract(m)),
            None => {},
        }
        match check_bool("attention_bias", false, t.attention_bias) {
            Some(m) => return Err(KimiError::Contract(m)),
            None => {},
        }
        let q = match &t.quantization {
            None => return Err(KimiError::Contract(string_of("quantization_config is missing"))),
            Some(q) => q,
        };
        match check_str("format", "pack-quantized", &q.format) {
            Some(m) => return Err(KimiError::Contract(m)),
            None => {},
        }
        match check_str("quant_method", "compressed-tensors", &q.quant_method) {
            Some(m) => return Err(KimiError::Contract(m)),
            None => {},
        }
        let w = match &q.weights {
            None => return Err(KimiError::Contract(string_of("group_0.weights is missing"))),
            Some(w) => w,
        };
        match check_u64("num_bits", 4, w.num_bits) {
            Some(m) => return Err(KimiError::Contract(m)),
            None => {},
        }
        match check_u64("group_size", 32, w.group_size) {
            Some(m) => return Err(KimiError::Contract(m)),
            None => {},
        }
        match check_str("strategy", "group", &w.strategy) {
            Some(m) => return Err(KimiError::Contract(m)),
            None => {},
        }
        match check_str("type", "int", &w.kind) {
            Some(m) => return Err(KimiError::Contract(m)),
            None => {},
        }
        match check_bool("symmetric", true, w.symmetric) {
            Some(m) => return Err(KimiError::Contract(m)),
            None => {},
        }
        let r = match &t.rope_scaling {
            None => return Err(KimiError::Contract(string_of("rope_scaling is missing"))),
            Some(r) => r,
        };
        match check_str("type", "yarn", &r.kind) {
            Some(m) => return Err(KimiError::Contract(m)),
            None => {},
        }
        let hidden_size = match read_size("hidden_size", t.hidden_size) {
            Ok(n) => n,
            Err(m) => return Err(KimiError::Contract(m)),
        };
        let intermediate_size = match read_size("intermediate_size", t.intermediate_size) {
            Ok(n) => n,
            Err(m) => return Err(KimiError::Contract(m)),
        };
        let moe_intermediate_size = match read_size("moe_intermediate_size", t.moe_intermediate_size) {
            Ok(n) => n,
            Err(m) => return Err(KimiError::Contract(m)),
        };
        let num_hidden_layers = match read_size("num_hidden_layers", t.num_hidden_layers) {
            Ok(n) => n,
            Err(m) => return Err(KimiError::Contract(m)),
        };
        let num_attention_heads = match read_size("num_attention_heads", t.num_attention_heads) {
            Ok(n) => n,
            Err(m) => return Err(KimiError::Contract(m)),
        };
        let n_routed_experts = match read_size("n_routed_experts", t.n_routed_experts) {
            Ok(n) => n,
            Err(m) => return Err(KimiError::Contract(m)),
        };
        let n_shared_experts = match read_size("n_shared_experts", t.n_shared_experts) {
            Ok(n) => n,
            Err(m) => return Err(KimiError::Contract(m)),
        };
        let num_experts_per_tok = match read_size("num_experts_per_tok", t.num_experts_per_tok) {
            Ok(n) => n,
            Err(m) => return Err(KimiError::Contract(m)),
        };
        let first_k_dense_replace = match read_size("first_k_dense_replace", t.first_k_dense_replace) {
            Ok(n) => n,
            Err(m) => return Err(KimiError::Contract(m)),
        };
        let q_lora_rank = match read_size("q_lora_rank", t.q_lora_rank) {
            Ok(n) => n,
            Err(m) => return Err(KimiError::Contract(m)),
        };
        let kv_lora_rank = match read_size("kv_lora_rank", t.kv_lora_rank) {
            Ok(n) => n,
            Err(m) => return Err(KimiError::Contract(m)),
        };
        let qk_nope_head_dim = match read_size("qk_nope_head_dim", t.qk_nope_head_dim) {
            Ok(n) => n,
            Err(m) => return Err(KimiError::Contract(m)),
        };
        let qk_rope_head_dim = match read_size("qk_rope_head_dim", t.qk_rope_head_dim) {
            Ok(n) => n,
            Err(m) => return Err(KimiError::Contract(m)),
        };
        let v_head_dim = match read_size("v_head_dim", t.v_head_dim) {
            Ok(n) => n,
            Err(m) => return Err(KimiError::Contract(m)),
        };
        let n_group = match read_size("n_group", t.n_group) {
            Ok(n) => n,
            Err(m) => return Err(KimiError::Contract(m)),
        };
        let topk_group = match read_size("topk_group", t.topk_group) {
            Ok(n) => n,
            Err(m) => return Err(KimiError::Contract(m)),
        };
        let max_position_embeddings = match read_size("max_position_embeddings", t.max_position_embeddings) {
            Ok(n) => n,
            Err(m) => return Err(KimiError::Contract(m)),
        };
        let original_max_position_embeddings = match read_size("original_max_position_embeddings", r.original_max_position_embeddings) {
            Ok(n) => n,
            Err(m) => return Err(KimiError::Contract(m)),
        };
        let vocab_size = match read_size("vocab_size", t.vocab_size) {
            Ok(n) => n,
            Err(m) => return Err(KimiError::Contract(m)),
        };
        let group_size = match read_size("group_size", w.group_size) {
            Ok(n) => n,
            Err(m) => return Err(KimiError::Contract(m)),
        };
        let rope_theta_bits = match read_float("rope_theta", t.rope_theta_bits) {
            Ok(b) => b,
            Err(m) => return Err(KimiError::Contract(m)),
        };
        let rope_factor_bits = match read_float("factor", r.factor_bits) {
            Ok(b) => b,
            Err(m) => return Err(KimiError::Contract(m)),
        };
        let beta_fast_bits = match read_float("beta_fast", r.beta_fast_bits) {
            Ok(b) => b,
            Err(m) => return Err(KimiError::Contract(m)),
        };
        let beta_slow_bits = match read_float("beta_slow", r.beta_slow_bits) {
            Ok(b) => b,
            Err(m) => return Err(KimiError::Contract(m)),
        };
        let rope_mscale_bits = match read_float("mscale", r.mscale_bits) {
            Ok(b) => b,
            Err(m) => return Err(KimiError::Contract(m)),
        };
        let rope_mscale_all_dim_bits = match read_float("mscale_all_dim", r.mscale_all_dim_bits) {
            Ok(b) => b,
            Err(m) => return Err(KimiError::Contract(m)),
        };
        let routed_scaling_factor_bits = match read_float("routed_scaling_factor", t.routed_scaling_factor_bits) {
            Ok(b) => b,
            Err(m) => return Err(KimiError::Contract(m)),
        };
        let rms_norm_eps_bits = match read_float("rms_norm_eps", t.rms_norm_eps_bits) {
            Ok(b) => b,
            Err(m) => return Err(KimiError::Contract(m)),
        };
        Ok(KimiK27Config {
            hidden_size,
            intermediate_size,
            moe_intermediate_size,
            num_hidden_layers,
            num_attention_heads,
            n_routed_experts,
            n_shared_experts,
            num_experts_per_tok,
            first_k_dense_replace,
            q_lora_rank,
            kv_lora_rank,
            qk_nope_head_dim,
            qk_rope_head_dim,
            v_head_dim,
            n_group,
            topk_group,
            max_position_embeddings,
            original_max_position_embeddings,
            vocab_size,
            group_size,
            rope_theta_bits,
            rope_factor_bits,
            beta_fast_bits,
            beta_slow_bits,
            rope_mscale_bits,
            rope_mscale_all_dim_bits,
            routed_scaling_factor_bits,
            rms_norm_eps_bits,
        })
    }
}

} // verus!
