//! The Kimi K2.7 text tower: its compiled configuration, the packed INT4
//! decoding it relies on, its compact MLA cache, and the exact tensor
//! contract of its runtime manifest.
use vstd::prelude::*;
use crate::dense::DenseTileMetrics;
use crate::moe::MoeMathError;
use crate::manifest::{
    ArchitectureContract, AttentionKind, ExpertLocation, RouterSemantics, RuntimeManifest,
    TensorSegment, WeightFormat,
};
use crate::segments::{
    dense_lookup, dims1, dims2, dims_of, dtype_is, find_dense, has_dtype, mul_wide, shape_is,
    shape_matches,
};
use crate::text::{decimal, push_decimal, push_decimal_wide, push_str, seq_ends_with, str_ends_with, str_eq, string_of};

verus! {

/// Stable adapter identifier of the Kimi K2.7 code path.
pub const ADAPTER_ID: &'static str = "sytra-kimi-k2.7-code";
pub const OUTER_MODEL_TYPE: &'static str = "kimi_k25";
pub const TEXT_MODEL_TYPE: &'static str = "kimi_k2";

/// The Kimi K2.7 text configuration. Single-precision values are held by
/// their IEEE-754 bit patterns.
#[derive(Debug, Clone, Copy, PartialEq, Eq, Structural)]
pub struct KimiK27Config {
    pub hidden_size: usize,
    pub intermediate_size: usize,
    pub moe_intermediate_size: usize,
    pub num_hidden_layers: usize,
    pub num_attention_heads: usize,
    pub n_routed_experts: usize,
    pub n_shared_experts: usize,
    pub num_experts_per_tok: usize,
    pub first_k_dense_replace: usize,
    pub q_lora_rank: usize,
    pub kv_lora_rank: usize,
    pub qk_nope_head_dim: usize,
    pub qk_rope_head_dim: usize,
    pub v_head_dim: usize,
    pub n_group: usize,
    pub topk_group: usize,
    pub max_position_embeddings: usize,
    pub original_max_position_embeddings: usize,
    pub vocab_size: usize,
    pub group_size: usize,
    pub rope_theta_bits: u32,
    pub rope_factor_bits: u32,
    pub beta_fast_bits: u32,
    pub beta_slow_bits: u32,
    pub rope_mscale_bits: u32,
    pub rope_mscale_all_dim_bits: u32,
    pub routed_scaling_factor_bits: u32,
    pub rms_norm_eps_bits: u32,
}

/// The published Kimi K2.7 text configuration.
pub open spec fn official_config() -> KimiK27Config {
    KimiK27Config {
        hidden_size: 7168,
        intermediate_size: 18432,
        moe_intermediate_size: 2048,
        num_hidden_layers: 61,
        num_attention_heads: 64,
        n_routed_experts: 384,
        n_shared_experts: 1,
        num_experts_per_tok: 8,
        first_k_dense_replace: 1,
        q_lora_rank: 1536,
        kv_lora_rank: 512,
        qk_nope_head_dim: 128,
        qk_rope_head_dim: 64,
        v_head_dim: 128,
        n_group: 1,
        topk_group: 1,
        max_position_embeddings: 262_144,
        original_max_position_embeddings: 4096,
        vocab_size: 163_840,
        group_size: 32,
        // 50000.0, 64.0, 32.0, 1.0, 1.0, 1.0, 2.827, 1e-5
        rope_theta_bits: 0x4743_5000,
        rope_factor_bits: 0x4280_0000,
        beta_fast_bits: 0x4200_0000,
        beta_slow_bits: 0x3F80_0000,
        rope_mscale_bits: 0x3F80_0000,
        rope_mscale_all_dim_bits: 0x3F80_0000,
        routed_scaling_factor_bits: 0x4034_ED91,
        rms_norm_eps_bits: 0x3727_C5AC,
    }
}

#[derive(Debug)]
pub enum KimiError {
    ConfigRead { path: String, message: String },
    ConfigJson { path: String, message: String },
    Contract(String),
    Shape(String),
    Dense(crate::dense::DenseExecutionError),
    Tensor(String),
    Math(MoeMathError),
    Scheduler(String),
}

fn shape_error(message: &str) -> (e: KimiError)
    ensures
        e matches KimiError::Shape(m) && m@ == message@,
{
    KimiError::Shape(crate::text::string_of(message))
}

fn contract_error(message: &str) -> (e: KimiError)
    ensures
        e matches KimiError::Contract(m) && m@ == message@,
{
    KimiError::Contract(crate::text::string_of(message))
}

/// The debug form of an optional dtype (`Some("BF16")` or `None`), as
/// `format!("{:?}")` writes it.
pub open spec fn debug_dtype_text(dtype: Option<String>) -> Seq<char> {
    match dtype {
        None => "None"@,
        Some(s) => "Some("@ + crate::fingerprint::debug_quoted(s@) + ")"@,
    }
}

fn debug_dtype(dtype: &Option<String>) -> (r: String)
    ensures
        r@ == debug_dtype_text(*dtype),
{
    match dtype {
        None => crate::text::string_of("None"),
        Some(s) => {
            let mut r = crate::text::string_of("Some(");
            let q = crate::fingerprint::debug_str(s.as_str());
            push_str(&mut r, q.as_str());
            push_str(&mut r, ")");
            r
        },
    }
}

/// Appends the debug form of a list of numbers: `[a, b]`.
fn push_list(s: &mut String, values: &Vec<u128>)
    ensures
        final(s)@ == old(s)@ + crate::mixtral::dims_text(values@),
{
    let ghost start = s@;
    push_str(s, "[");
    let mut i: usize = 0;
    assert(values@.take(0) =~= Seq::<u128>::empty());
    while i < values.len()
        invariant
            i <= values@.len(),
            s@ == start + "["@ + crate::mixtral::dims_items(values@.take(i as int)),
        decreases values@.len() - i,
    {
        let ghost t = values@.take(i + 1);
        assert(t.drop_last() =~= values@.take(i as int));
        if i > 0 {
            push_str(s, ", ");
        }
        push_decimal_wide(s, values[i]);
        proof {
            if i == 0 {
                assert(crate::mixtral::dims_items(t) == decimal(t[0] as nat));
            }
        }
        assert(s@ =~= start + "["@ + crate::mixtral::dims_items(values@.take(i + 1)));
        i += 1;
    }
    assert(values@.take(i as int) =~= values@);
    push_str(s, "]");
    assert(s@ =~= start + crate::mixtral::dims_text(values@));
}

/// The values of a shape, widened.
pub open spec fn widened(values: Seq<u64>) -> Seq<u128> {
    values.map_values(|v: u64| v as u128)
}

fn widen(values: &Vec<u64>) -> (out: Vec<u128>)
    ensures
        out@ == widened(values@),
{
    let mut out: Vec<u128> = Vec::new();
    let mut i: usize = 0;
    while i < values.len()
        invariant
            i <= values@.len(),
            out@ == widened(values@.take(i as int)),
        decreases values@.len() - i,
    {
        out.push(values[i] as u128);
        assert(widened(values@.take(i + 1)) =~= widened(values@.take(i as int)).push(values@[i as int] as u128));
        i += 1;
    }
    assert(values@.take(values@.len() as int) =~= values@);
    out
}

/// `"layer {layer} expert {expert}"`.
fn expert_label(entry: &ExpertLocation) -> (m: String)
    ensures
        m@ == "layer "@ + decimal(entry.layer as nat) + " expert "@ + decimal(entry.expert as nat),
{
    let mut m = string_of("layer ");
    push_decimal(&mut m, entry.layer as u64);
    push_str(&mut m, " expert ");
    push_decimal(&mut m, entry.expert as u64);
    m
}

/// `"dense tensor {name}"`.
fn dense_label(name: &str) -> (m: String)
    ensures
        m@ == "dense tensor "@ + name@,
{
    let mut m = string_of("dense tensor ");
    push_str(&mut m, name);
    m
}

impl KimiK27Config {
    pub fn official() -> (c: Self)
        ensures
            c == official_config(),
    {
        KimiK27Config {
            hidden_size: 7168,
            intermediate_size: 18432,
            moe_intermediate_size: 2048,
            num_hidden_layers: 61,
            num_attention_heads: 64,
            n_routed_experts: 384,
            n_shared_experts: 1,
            num_experts_per_tok: 8,
            first_k_dense_replace: 1,
            q_lora_rank: 1536,
            kv_lora_rank: 512,
            qk_nope_head_dim: 128,
            qk_rope_head_dim: 64,
            v_head_dim: 128,
            n_group: 1,
            topk_group: 1,
            max_position_embeddings: 262_144,
            original_max_position_embeddings: 4096,
            vocab_size: 163_840,
            group_size: 32,
            rope_theta_bits: 0x4743_5000,
            rope_factor_bits: 0x4280_0000,
            beta_fast_bits: 0x4200_0000,
            beta_slow_bits: 0x3F80_0000,
            rope_mscale_bits: 0x3F80_0000,
            rope_mscale_all_dim_bits: 0x3F80_0000,
            routed_scaling_factor_bits: 0x4034_ED91,
            rms_norm_eps_bits: 0x3727_C5AC,
        }
    }

    /// A parsed configuration is accepted only when it is exactly the
    /// compiled one.
    pub fn is_official(&self) -> (b: bool)
        ensures
            b == (*self == official_config()),
    {
        *self == Self::official()
    }

    pub fn q_head_dim(&self) -> (d: usize)
        requires
            self.qk_nope_head_dim + self.qk_rope_head_dim <= usize::MAX,
        ensures
            d == self.qk_nope_head_dim + self.qk_rope_head_dim,
    {
        self.qk_nope_head_dim + self.qk_rope_head_dim
    }

    /// Bytes of the compact per-layer MLA cache for one token: the latent
    /// plus the shared rotated positional key.
    pub fn compressed_kv_bytes_per_token(&self, scalar_bytes: usize) -> (n: usize)
        requires
            (self.kv_lora_rank + self.qk_rope_head_dim) * scalar_bytes <= usize::MAX,
        ensures
            n == (self.kv_lora_rank + self.qk_rope_head_dim) * scalar_bytes,
    {
        assert((self.kv_lora_rank + self.qk_rope_head_dim) * scalar_bytes
            == self.kv_lora_rank * scalar_bytes + self.qk_rope_head_dim * scalar_bytes) by (nonlinear_arith);
        let a = crate::segments::mul_wide(self.kv_lora_rank, scalar_bytes);
        let b = crate::segments::mul_wide(self.qk_rope_head_dim, scalar_bytes);
        let width = a + b;
        width as usize
    }

    /// Bytes of fully materialised per-head keys and values for one token.
    pub fn materialized_kv_bytes_per_token(&self, scalar_bytes: usize) -> (n: usize)
        requires
            self.num_attention_heads * (self.qk_nope_head_dim + self.qk_rope_head_dim + self.v_head_dim)
                * scalar_bytes <= usize::MAX,
        ensures
            n == self.num_attention_heads * (self.qk_nope_head_dim + self.qk_rope_head_dim + self.v_head_dim)
                * scalar_bytes,
    {
        let h = self.num_attention_heads as u128;
        let w = self.qk_nope_head_dim as u128 + self.qk_rope_head_dim as u128 + self.v_head_dim as u128;
        let s = scalar_bytes as u128;
        let bound = usize::MAX as u128;
        if h == 0 || w == 0 || s == 0 {
            assert(h * w * s == 0) by (nonlinear_arith)
                requires
                    h == 0 || w == 0 || s == 0,
            ;
            return 0;
        }
        assert(h * w <= h * w * s) by (nonlinear_arith)
            requires
                s >= 1,
                h >= 0,
                w >= 0,
        ;
        let hw = h * w;
        let n = hw * s;
        n as usize
    }
}

/// The offset-binary nibble `k` (0..8, low to high) of a packed word, as a
/// signed value in `[-8, 7]`.
pub open spec fn int4_at(word: u32, k: int) -> int {
    ((word >> ((k * 4) as u32)) & 0xf) as int - 8
}

/// Decodes compressed-tensors' dense INT4 packing: eight offset-binary
/// nibbles per little-endian word, low to high.
pub fn unpack_int4(packed: &[u32], element_count: usize) -> (r: Result<Vec<i8>, KimiError>)
    ensures
        r is Err <==> packed@.len() < (element_count as int + 7) / 8,
        match r {
            Ok(v) => v@.len() == element_count && (forall|i: int| 0 <= i < element_count
                ==> v@[i] as int == int4_at(packed@[i / 8], i % 8))
                && forall|i: int| 0 <= i < element_count ==> -8 <= #[trigger] v@[i] <= 7,
            Err(e) => e matches KimiError::Shape(m) && m@ == "packed INT4 needs "@ + decimal(((element_count as int + 7) / 8) as nat)
                + " words, received "@ + decimal(packed@.len()),
        },
{
    let needed = element_count / 8 + if element_count % 8 != 0 { 1 } else { 0 };
    if packed.len() < needed {
        let n = packed.len();
        let mut m = string_of("packed INT4 needs ");
        push_decimal(&mut m, needed as u64);
        push_str(&mut m, " words, received ");
        push_decimal(&mut m, n as u64);
        return Err(KimiError::Shape(m));
    }
    let mut out: Vec<i8> = Vec::new();
    let mut i: usize = 0;
    while i < element_count
        invariant
            i <= element_count,
            needed == (element_count as int + 7) / 8,
            packed@.len() >= needed,
            out@.len() == i,
            forall|j: int| 0 <= j < i ==> out@[j] as int == int4_at(packed@[j / 8], j % 8),
            forall|j: int| 0 <= j < i ==> -8 <= #[trigger] out@[j] <= 7,
        decreases element_count - i,
    {
        let word = packed[i / 8];
        let shift: u32 = ((i % 8) * 4) as u32;
        let nibble: u32 = (word >> shift) & 0x0f;
        assert(nibble <= 15) by (bit_vector)
            requires
                nibble == (word >> shift) & 0x0f,
        ;
        let value: i8 = nibble as i8 - 8;
        out.push(value);
        i += 1;
    }
    Ok(out)
}

/// Nibble `k` (0..8, low to high) of a word.
pub open spec fn nibble(word: u32, k: int) -> u32 {
    (word >> ((k * 4) as u32)) & 0xf
}

proof fn lemma_zero_nibble(shift: u32)
    by (bit_vector)
    ensures
        (0u32 >> shift) & 0xf == 0,
{
}

proof fn lemma_set_nibble(w: u32, x: u32, j: u32, k: u32)
    by (bit_vector)
    requires
        x < 16,
        j < 8,
        k < 8,
        (w >> (j * 4)) & 0xf == 0,
    ensures
        ((w | (x << (j * 4))) >> (k * 4)) & 0xf == (if j == k { x } else { (w >> (k * 4)) & 0xf }),
{
}

/// Packs signed values in `[-8, 7]` eight to a word in offset-binary
/// nibbles, low to high: the layout `unpack_int4` reads.
pub fn pack_int4(values: &[i8]) -> (packed: Vec<u32>)
    requires
        forall|i: int| 0 <= i < values@.len() ==> -8 <= #[trigger] values@[i] <= 7,
    ensures
        packed@.len() == (values@.len() + 7) / 8,
        forall|i: int| 0 <= i < values@.len() ==> #[trigger] int4_at(packed@[i / 8], i % 8) == values@[i] as int,
{
    let n = values.len();
    let words = n / 8 + if n % 8 != 0 { 1 } else { 0 };
    let mut packed: Vec<u32> = Vec::new();
    let mut w: usize = 0;
    while w < words
        invariant
            n == values@.len(),
            words == (n + 7) / 8,
            w <= words,
            packed@.len() == w,
            forall|i: int| 0 <= i < values@.len() ==> -8 <= #[trigger] values@[i] <= 7,
            forall|i: int| 0 <= i < w * 8 && i < n ==> #[trigger] int4_at(packed@[i / 8], i % 8) == values@[i] as int,
        decreases words - w,
    {
        let mut word: u32 = 0;
        proof {
            assert forall|k: int| 0 <= k < 8 implies #[trigger] nibble(word, k) == 0 by {
                lemma_zero_nibble((k * 4) as u32);
            }
        }
        let mut j: usize = 0;
        while j < 8
            invariant
                n == values@.len(),
                w < words,
                words == (n + 7) / 8,
                j <= 8,
                forall|i: int| 0 <= i < values@.len() ==> -8 <= #[trigger] values@[i] <= 7,
                forall|k: int| 0 <= k < j && w * 8 + k < n ==> #[trigger] nibble(word, k) as int - 8 == values@[w * 8 + k] as int,
                forall|k: int| j <= k < 8 ==> #[trigger] nibble(word, k) == 0,
            decreases 8 - j,
        {
            assert(w * 8 + j <= usize::MAX) by (nonlinear_arith)
                requires
                    w < words,
                    words == (n + 7) / 8,
                    n <= usize::MAX,
                    j < 8,
            ;
            let index = w * 8 + j;
            if index < n {
                let v = values[index];
                let x: u32 = (v + 8) as u32;
                let ghost before = word;
                proof {
                    assert(nibble(before, j as int) == 0);
                }
                word = word | (x << ((j * 4) as u32));
                proof {
                    assert forall|k: int| 0 <= k < 8 implies #[trigger] nibble(word, k)
                        == (if j == k { x } else { nibble(before, k) }) by {
                        lemma_set_nibble(before, x, j as u32, k as u32);
                        assert(((k * 4) as u32) == (k as u32) * 4);
                        assert(((j * 4) as u32) == (j as u32) * 4);
                    }
                }
            }
            j += 1;
        }
        packed.push(word);
        proof {
            assert forall|i: int| 0 <= i < (w + 1) * 8 && i < n implies #[trigger] int4_at(packed@[i / 8], i % 8) == values@[i] as int by {
                if i >= w * 8 {
                    assert(i / 8 == w && i % 8 == i - w * 8) by (nonlinear_arith)
                        requires
                            w * 8 <= i < (w + 1) * 8,
                    ;
                    assert(nibble(word, i - w * 8) as int - 8 == values@[w * 8 + (i - w * 8)] as int);
                } else {
                    assert(i / 8 < w) by (nonlinear_arith)
                        requires
                            0 <= i < w * 8,
                    ;
                }
            }
        }
        w += 1;
    }
    assert forall|i: int| 0 <= i < values@.len() implies #[trigger] int4_at(packed@[i / 8], i % 8) == values@[i] as int by {
        assert(i < words * 8) by (nonlinear_arith)
            requires
                0 <= i < n,
                words == (n + 7) / 8,
        ;
    }
    packed
}

/// Unpacking what `pack_int4` packed gives the values back.
pub proof fn lemma_pack_unpack(values: Seq<i8>, packed: Seq<u32>, unpacked: Seq<i8>)
    requires
        forall|i: int| 0 <= i < values.len() ==> #[trigger] int4_at(packed[i / 8], i % 8) == values[i] as int,
        unpacked.len() == values.len(),
        forall|i: int| 0 <= i < values.len() ==> unpacked[i] as int == #[trigger] int4_at(packed[i / 8], i % 8),
    ensures
        unpacked == values,
{
    assert forall|i: int| 0 <= i < values.len() implies unpacked[i] == values[i] by {
        assert(unpacked[i] as int == int4_at(packed[i / 8], i % 8));
    }
    assert(unpacked =~= values);
}

/// The little-endian word at `bytes[4 * i .. 4 * i + 4]`.
pub open spec fn le_word(bytes: Seq<u8>, i: int) -> u32 {
    (bytes[4 * i] as int + bytes[4 * i + 1] as int * 0x100 + bytes[4 * i + 2] as int * 0x1_0000
        + bytes[4 * i + 3] as int * 0x100_0000) as u32
}

/// Decodes little-endian 32-bit words.
pub fn decode_u32_le(bytes: &[u8]) -> (r: Result<Vec<u32>, KimiError>)
    ensures
        r is Err <==> bytes@.len() % 4 != 0,
        match r {
            Ok(v) => v@.len() == bytes@.len() / 4 && forall|i: int| 0 <= i < v@.len() ==> v@[i] == le_word(bytes@, i),
            Err(e) => e is Shape,
        },
{
    if bytes.len() % 4 != 0 {
        return Err(shape_error("I32 tensor byte length is not divisible by four"));
    }
    let n = bytes.len();
    let words = n / 4;
    let mut out: Vec<u32> = Vec::new();
    let mut i: usize = 0;
    while i < words
        invariant
            n == bytes@.len(),
            i <= words,
            words == bytes@.len() / 4,
            bytes@.len() % 4 == 0,
            out@.len() == i,
            forall|j: int| 0 <= j < i ==> out@[j] == le_word(bytes@, j),
        decreases words - i,
    {
        assert(4 * i + 3 < bytes@.len()) by (nonlinear_arith)
            requires
                i < words,
                words == bytes@.len() / 4,
                bytes@.len() % 4 == 0,
        ;
        let b = 4 * i;
        let w: u32 = bytes[b] as u32 + bytes[b + 1] as u32 * 0x100 + bytes[b + 2] as u32 * 0x1_0000
            + bytes[b + 3] as u32 * 0x100_0000;
        out.push(w);
        i += 1;
    }
    Ok(out)
}

/// Decodes little-endian two's-complement 32-bit integers.
pub fn decode_i32_le(bytes: &[u8]) -> (r: Result<Vec<i32>, KimiError>)
    ensures
        r is Err <==> bytes@.len() % 4 != 0,
        match r {
            Ok(v) => v@.len() == bytes@.len() / 4 && forall|i: int| 0 <= i < v@.len() ==> v@[i] == le_word(bytes@, i) as i32,
            Err(e) => e is Shape,
        },
{
    let words = decode_u32_le(bytes)?;
    let mut out: Vec<i32> = Vec::new();
    let mut i: usize = 0;
    while i < words.len()
        invariant
            i <= words@.len(),
            out@.len() == i,
            forall|j: int| 0 <= j < i ==> out@[j] == words@[j] as i32,
        decreases words@.len() - i,
    {
        out.push(words[i] as i32);
        i += 1;
    }
    Ok(out)
}

/// Rounds a single-precision bit pattern to BF16 (round half to even).
pub open spec fn bf16_of(bits: u32) -> u16 {
    (((bits as int + 0x7fff + (bits as int / 0x1_0000) % 2) % 0x1_0000_0000) / 0x1_0000) as u16
}

fn f32_bits_to_bf16(bits: u32) -> (r: u16)
    ensures
        r == bf16_of(bits),
{
    let low: u32 = (bits >> 16) & 1;
    assert(low <= 1) by (bit_vector)
        requires
            low == (bits >> 16) & 1,
    ;
    let bias: u32 = 0x7fff + low;
    assert(low == (bits / 0x1_0000) % 2) by (bit_vector)
        requires
            low == (bits >> 16) & 1,
    ;
    let sum = bits.wrapping_add(bias);
    let high = sum >> 16;
    assert(sum >> 16 == sum / 0x1_0000) by (bit_vector);
    high as u16
}

/// One token's entry in the compact MLA cache: BF16 latent and rotated key.
pub struct CompactMlaCacheEntry {
    latent: Vec<u16>,
    rope_key: Vec<u16>,
}

/// The production compact MLA cache: per position, the BF16 latent used by
/// `kv_b_proj` and the shared rotated positional key.
pub struct CompactMlaKvCache {
    entries: Vec<CompactMlaCacheEntry>,
}

impl CompactMlaCacheEntry {
    pub closed spec fn width(&self) -> nat {
        self.latent@.len() + self.rope_key@.len()
    }

    pub closed spec fn latent_spec(&self) -> Seq<u16> {
        self.latent@
    }

    pub closed spec fn rope_key_spec(&self) -> Seq<u16> {
        self.rope_key@
    }
}

/// Total stored BF16 values of `entries`.
pub open spec fn stored_values(entries: Seq<CompactMlaCacheEntry>) -> nat
    decreases entries.len(),
{
    if entries.len() == 0 {
        0
    } else {
        stored_values(entries.drop_last()) + entries.last().width()
    }
}

proof fn lemma_stored_values_prefix(entries: Seq<CompactMlaCacheEntry>, i: int)
    requires
        0 <= i <= entries.len(),
    ensures
        stored_values(entries.take(i)) <= stored_values(entries),
    decreases entries.len(),
{
    if i == entries.len() {
        assert(entries.take(i) =~= entries);
    } else {
        lemma_stored_values_prefix(entries.drop_last(), i);
        assert(entries.drop_last().take(i) =~= entries.take(i));
    }
}

impl CompactMlaKvCache {
    pub closed spec fn entries_spec(&self) -> Seq<CompactMlaCacheEntry> {
        self.entries@
    }

    pub fn new() -> (c: Self)
        ensures
            c.entries_spec().len() == 0,
    {
        CompactMlaKvCache { entries: Vec::new() }
    }

    /// Appends one position, rounding the single-precision values (given by
    /// their bit patterns) to BF16.
    pub fn push(&mut self, latent: &[u32], rope_key: &[u32], config: &KimiK27Config) -> (r: Result<(), KimiError>)
        ensures
            r is Ok <==> latent@.len() == config.kv_lora_rank && rope_key@.len() == config.qk_rope_head_dim,
            match r {
                Ok(_) => final(self).entries_spec().len() == old(self).entries_spec().len() + 1
                    && final(self).entries_spec().drop_last() == old(self).entries_spec()
                    && final(self).entries_spec().last().latent_spec() == latent@.map_values(|b: u32| bf16_of(b))
                    && final(self).entries_spec().last().rope_key_spec() == rope_key@.map_values(|b: u32| bf16_of(b)),
                Err(e) => e is Shape && final(self).entries_spec() == old(self).entries_spec(),
            },
    {
        if latent.len() != config.kv_lora_rank || rope_key.len() != config.qk_rope_head_dim {
            return Err(shape_error("invalid compact BF16 MLA cache entry"));
        }
        let l = to_bf16_all(latent);
        let k = to_bf16_all(rope_key);
        self.entries.push(CompactMlaCacheEntry { latent: l, rope_key: k });
        assert(self.entries@.drop_last() =~= old(self).entries@);
        Ok(())
    }

    pub fn len(&self) -> (n: usize)
        ensures
            n == self.entries_spec().len(),
    {
        self.entries.len()
    }

    pub fn is_empty(&self) -> (b: bool)
        ensures
            b == (self.entries_spec().len() == 0),
    {
        self.entries.len() == 0
    }

    /// Bytes stored: two per BF16 value.
    pub fn bytes(&self) -> (n: usize)
        requires
            stored_values(self.entries_spec()) * 2 <= usize::MAX,
        ensures
            n == stored_values(self.entries_spec()) * 2,
    {
        let mut total: usize = 0;
        let mut i: usize = 0;
        while i < self.entries.len()
            invariant
                i <= self.entries@.len(),
                stored_values(self.entries@) * 2 <= usize::MAX,
                total == stored_values(self.entries@.take(i as int)) * 2,
            decreases self.entries@.len() - i,
        {
            assert(self.entries@.take(i + 1).drop_last() =~= self.entries@.take(i as int));
            proof { lemma_stored_values_prefix(self.entries@, i + 1); }
            let e = &self.entries[i];
            total = total + (e.latent.len() + e.rope_key.len()) * 2;
            i += 1;
        }
        assert(self.entries@.take(i as int) =~= self.entries@);
        total
    }

    /// Keeps the first `positions` entries.
    pub fn truncate(&mut self, positions: usize)
        ensures
            positions <= old(self).entries_spec().len() ==> final(self).entries_spec() == old(self).entries_spec().take(positions as int),
            positions > old(self).entries_spec().len() ==> final(self).entries_spec() == old(self).entries_spec(),
    {
        self.entries.truncate(positions);
    }
}

fn to_bf16_all(values: &[u32]) -> (out: Vec<u16>)
    ensures
        out@ == values@.map_values(|b: u32| bf16_of(b)),
{
    let mut out: Vec<u16> = Vec::new();
    let mut i: usize = 0;
    while i < values.len()
        invariant
            i <= values@.len(),
            out@ == values@.take(i as int).map_values(|b: u32| bf16_of(b)),
        decreases values@.len() - i,
    {
        out.push(f32_bits_to_bf16(values[i]));
        assert(values@.take(i + 1).map_values(|b: u32| bf16_of(b))
            =~= values@.take(i as int).map_values(|b: u32| bf16_of(b)).push(bf16_of(values@[i as int])));
        i += 1;
    }
    assert(values@.take(values@.len() as int) =~= values@);
    out
}

/// The decoder's per-layer compact MLA caches.
pub struct KimiDecodeState {
    pub layers: Vec<CompactMlaKvCache>,
}

/// Bytes stored across `layers`.
pub open spec fn layers_bytes(layers: Seq<CompactMlaKvCache>) -> nat
    decreases layers.len(),
{
    if layers.len() == 0 {
        0
    } else {
        layers_bytes(layers.drop_last()) + stored_values(layers.last().entries_spec()) * 2
    }
}

proof fn lemma_layers_bytes_prefix(layers: Seq<CompactMlaKvCache>, i: int)
    requires
        0 <= i <= layers.len(),
    ensures
        layers_bytes(layers.take(i)) <= layers_bytes(layers),
    decreases layers.len(),
{
    if i == layers.len() {
        assert(layers.take(i) =~= layers);
    } else {
        lemma_layers_bytes_prefix(layers.drop_last(), i);
        assert(layers.drop_last().take(i) =~= layers.take(i));
    }
}

impl KimiDecodeState {
    pub fn new(config: &KimiK27Config) -> (s: Self)
        ensures
            s.layers@.len() == config.num_hidden_layers,
            forall|i: int| 0 <= i < s.layers@.len() ==> #[trigger] s.layers@[i].entries_spec().len() == 0,
    {
        let mut layers: Vec<CompactMlaKvCache> = Vec::new();
        let mut i: usize = 0;
        while i < config.num_hidden_layers
            invariant
                i <= config.num_hidden_layers,
                layers@.len() == i,
                forall|j: int| 0 <= j < i ==> #[trigger] layers@[j].entries_spec().len() == 0,
            decreases config.num_hidden_layers - i,
        {
            layers.push(CompactMlaKvCache::new());
            i += 1;
        }
        KimiDecodeState { layers }
    }

    /// Positions cached, read from the first layer.
    pub fn position(&self) -> (p: usize)
        ensures
            p == (if self.layers@.len() == 0 { 0 } else { self.layers@[0].entries_spec().len() }),
    {
        if self.layers.len() == 0 {
            0
        } else {
            self.layers[0].len()
        }
    }

    pub fn bytes(&self) -> (n: usize)
        requires
            layers_bytes(self.layers@) <= usize::MAX,
        ensures
            n == layers_bytes(self.layers@),
    {
        let mut total: usize = 0;
        let mut i: usize = 0;
        while i < self.layers.len()
            invariant
                i <= self.layers@.len(),
                layers_bytes(self.layers@) <= usize::MAX,
                total == layers_bytes(self.layers@.take(i as int)),
            decreases self.layers@.len() - i,
        {
            assert(self.layers@.take(i + 1).drop_last() =~= self.layers@.take(i as int));
            proof { lemma_layers_bytes_prefix(self.layers@, i + 1); }
            total = total + self.layers[i].bytes();
            i += 1;
        }
        assert(self.layers@.take(i as int) =~= self.layers@);
        total
    }

    /// Keeps the first `positions` entries of every layer.
    pub fn truncate(&mut self, positions: usize)
        ensures
            final(self).layers@.len() == old(self).layers@.len(),
            forall|i: int| 0 <= i < old(self).layers@.len() ==> {
                let before = #[trigger] old(self).layers@[i].entries_spec();
                final(self).layers@[i].entries_spec() == if positions <= before.len() {
                    before.take(positions as int)
                } else {
                    before
                }
            },
    {
        let mut i: usize = 0;
        while i < self.layers.len()
            invariant
                i <= self.layers@.len(),
                self.layers@.len() == old(self).layers@.len(),
                forall|j: int| i <= j < self.layers@.len() ==> self.layers@[j] == old(self).layers@[j],
                forall|j: int| 0 <= j < i ==> {
                    let before = #[trigger] old(self).layers@[j].entries_spec();
                    self.layers@[j].entries_spec() == if positions <= before.len() {
                        before.take(positions as int)
                    } else {
                        before
                    }
                },
            decreases self.layers@.len() - i,
        {
            let mut layer = self.layers.remove(i);
            layer.truncate(positions);
            self.layers.insert(i, layer);
            i += 1;
        }
    }
}

#[derive(Debug, Clone, Copy, PartialEq, Eq, Structural)]
pub struct KimiStepMetrics {
    pub dense_tiles: u64,
    pub dense_storage_bytes: u64,
    pub peak_dense_tile_bytes: u64,
    pub expert_waves: u64,
}

impl Default for KimiStepMetrics {
    fn default() -> (m: Self)
        ensures
            m == (KimiStepMetrics { dense_tiles: 0, dense_storage_bytes: 0, peak_dense_tile_bytes: 0, expert_waves: 0 }),
    {
        KimiStepMetrics { dense_tiles: 0, dense_storage_bytes: 0, peak_dense_tile_bytes: 0, expert_waves: 0 }
    }
}

/// The outcome of verifying a greedy draft against the target model.
#[derive(Debug, Clone, PartialEq, Eq)]
pub struct GreedyVerification {
    /// Draft tokens that were verified.
    pub drafted_tokens: usize,
    /// Leading draft tokens the target model agreed with.
    pub accepted_draft_tokens: usize,
    /// Tokens the generation takes from this step.
    pub emitted_tokens: Vec<u32>,
    /// Every draft token was accepted and the target's next token is kept too.
    pub used_bonus_token: bool,
}

/// A verified speculative step: the verification, the target model's greedy
/// prediction at every verified position, and the step's costs.
#[derive(Debug, Clone, PartialEq, Eq)]
pub struct KimiSpeculativeOutput {
    pub verification: GreedyVerification,
    pub target_predictions: Vec<u32>,
    pub metrics: KimiStepMetrics,
}

pub open spec fn sat_add(a: u64, b: u64) -> u64 {
    if a + b <= u64::MAX { (a + b) as u64 } else { u64::MAX }
}

pub open spec fn max_u64(a: u64, b: u64) -> u64 {
    if a >= b { a } else { b }
}

impl KimiStepMetrics {
    /// Adds the counters of `other` (saturating) and keeps the larger peak.
    pub fn merge(&mut self, other: Self)
        ensures
            final(self).dense_tiles == sat_add(old(self).dense_tiles, other.dense_tiles),
            final(self).dense_storage_bytes == sat_add(old(self).dense_storage_bytes, other.dense_storage_bytes),
            final(self).peak_dense_tile_bytes == max_u64(old(self).peak_dense_tile_bytes, other.peak_dense_tile_bytes),
            final(self).expert_waves == sat_add(old(self).expert_waves, other.expert_waves),
    {
        self.dense_tiles = self.dense_tiles.saturating_add(other.dense_tiles);
        self.dense_storage_bytes = self.dense_storage_bytes.saturating_add(other.dense_storage_bytes);
        if other.peak_dense_tile_bytes > self.peak_dense_tile_bytes {
            self.peak_dense_tile_bytes = other.peak_dense_tile_bytes;
        }
        self.expert_waves = self.expert_waves.saturating_add(other.expert_waves);
    }
}

/// Step counters of one dense pass.
pub fn step_metrics(dense: DenseTileMetrics) -> (m: KimiStepMetrics)
    ensures
        m == (KimiStepMetrics {
            dense_tiles: dense.tiles,
            dense_storage_bytes: dense.storage_bytes,
            peak_dense_tile_bytes: dense.peak_tile_bytes,
            expert_waves: 0,
        }),
{
    let mut result = KimiStepMetrics::default();
    merge_step_dense(&mut result, dense);
    result
}

pub fn merge_step_dense(total: &mut KimiStepMetrics, next: DenseTileMetrics)
    requires
        old(total).dense_tiles + next.tiles <= u64::MAX,
        old(total).dense_storage_bytes + next.storage_bytes <= u64::MAX,
    ensures
        *final(total) == (KimiStepMetrics {
            dense_tiles: (old(total).dense_tiles + next.tiles) as u64,
            dense_storage_bytes: (old(total).dense_storage_bytes + next.storage_bytes) as u64,
            peak_dense_tile_bytes: max_u64(old(total).peak_dense_tile_bytes, next.peak_tile_bytes),
            expert_waves: old(total).expert_waves,
        }),
{
    total.dense_tiles = total.dense_tiles + next.tiles;
    total.dense_storage_bytes = total.dense_storage_bytes + next.storage_bytes;
    if next.peak_tile_bytes > total.peak_dense_tile_bytes {
        total.peak_dense_tile_bytes = next.peak_tile_bytes;
    }
}

pub fn merge_step_metrics(total: &mut KimiStepMetrics, next: KimiStepMetrics)
    requires
        old(total).dense_tiles + next.dense_tiles <= u64::MAX,
        old(total).dense_storage_bytes + next.dense_storage_bytes <= u64::MAX,
        old(total).expert_waves + next.expert_waves <= u64::MAX,
    ensures
        *final(total) == (KimiStepMetrics {
            dense_tiles: (old(total).dense_tiles + next.dense_tiles) as u64,
            dense_storage_bytes: (old(total).dense_storage_bytes + next.dense_storage_bytes) as u64,
            peak_dense_tile_bytes: max_u64(old(total).peak_dense_tile_bytes, next.peak_dense_tile_bytes),
            expert_waves: (old(total).expert_waves + next.expert_waves) as u64,
        }),
{
    total.dense_tiles = total.dense_tiles + next.dense_tiles;
    total.dense_storage_bytes = total.dense_storage_bytes + next.dense_storage_bytes;
    if next.peak_dense_tile_bytes > total.peak_dense_tile_bytes {
        total.peak_dense_tile_bytes = next.peak_dense_tile_bytes;
    }
    total.expert_waves = total.expert_waves + next.expert_waves;
}

pub fn merge_dense_metrics(total: &mut DenseTileMetrics, next: DenseTileMetrics)
    requires
        old(total).tiles + next.tiles <= u64::MAX,
        old(total).storage_bytes + next.storage_bytes <= u64::MAX,
    ensures
        *final(total) == (DenseTileMetrics {
            tiles: (old(total).tiles + next.tiles) as u64,
            storage_bytes: (old(total).storage_bytes + next.storage_bytes) as u64,
            peak_tile_bytes: max_u64(old(total).peak_tile_bytes, next.peak_tile_bytes),
        }),
{
    total.tiles = total.tiles + next.tiles;
    total.storage_bytes = total.storage_bytes + next.storage_bytes;
    if next.peak_tile_bytes > total.peak_tile_bytes {
        total.peak_tile_bytes = next.peak_tile_bytes;
    }
}


/// The product `acc * dims[0] * dims[1] * ...`, computed left to right, or
/// `None` as soon as a partial product leaves the 64-bit range.
pub open spec fn checked_product(acc: int, dims: Seq<int>) -> Option<int>
    decreases dims.len(),
{
    if dims.len() == 0 {
        Some(acc)
    } else if acc * dims[0] > u64::MAX {
        None
    } else {
        checked_product(acc * dims[0], dims.drop_first())
    }
}

fn checked_bytes(element: u64, shape: &Vec<u64>) -> (r: Option<u64>)
    ensures
        match r {
            Some(n) => checked_product(element as int, shape@.map_values(|d: u64| d as int)) == Some(n as int),
            None => checked_product(element as int, shape@.map_values(|d: u64| d as int)) is None,
        },
{
    let ghost dims = shape@.map_values(|d: u64| d as int);
    let mut acc: u64 = element;
    let mut i: usize = 0;
    assert(dims.skip(0) =~= dims);
    while i < shape.len()
        invariant
            i <= shape@.len(),
            dims == shape@.map_values(|d: u64| d as int),
            checked_product(element as int, dims) == checked_product(acc as int, dims.skip(i as int)),
        decreases shape@.len() - i,
    {
        assert(dims.skip(i as int)[0] == shape@[i as int] as int);
        assert(dims.skip(i as int).drop_first() =~= dims.skip(i + 1));
        match acc.checked_mul(shape[i]) {
            Some(next) => {
                acc = next;
            },
            None => {
                return None;
            },
        }
        i += 1;
    }
    assert(dims.skip(i as int) =~= Seq::<int>::empty());
    Some(acc)
}

/// Bytes per element of the packed expert tensors' dtypes.
pub open spec fn packed_element_bytes(dtype: Seq<char>) -> Option<int> {
    if dtype == "I32"@ {
        Some(4)
    } else if dtype == "BF16"@ {
        Some(2)
    } else {
        None
    }
}

/// `t` has dtype `dtype`, shape `dims`, and exactly the bytes they imply.
pub open spec fn metadata_ok(t: TensorSegment, dtype: Seq<char>, dims: Seq<int>) -> bool {
    &&& dtype_is(t.dtype, dtype)
    &&& shape_is(t.shape@, dims)
    &&& match packed_element_bytes(dtype) {
        Some(eb) => checked_product(eb, dims) == Some(t.length as int),
        None => false,
    }
}

proof fn lemma_shape_dims(t: TensorSegment, dims: Seq<int>)
    requires
        shape_is(t.shape@, dims),
    ensures
        t.shape@.map_values(|d: u64| d as int) == dims,
{
    assert(t.shape@.map_values(|d: u64| d as int) =~= dims);
}

/// Why `t` fails `metadata_ok`: its dtype, its shape, an unsupported dtype,
/// its byte length, or a byte size beyond `u64`.
pub open spec fn metadata_message(t: TensorSegment, dtype: Seq<char>, dims: Seq<u128>) -> Seq<char> {
    if !dtype_is(t.dtype, dtype) {
        "dtype "@ + debug_dtype_text(t.dtype) + ", expected "@ + dtype
    } else if !shape_is(t.shape@, dims_of(dims)) {
        "shape "@ + crate::mixtral::dims_text(widened(t.shape@)) + ", expected "@ + crate::mixtral::dims_text(dims)
    } else {
        match packed_element_bytes(dtype) {
            None => "unsupported dtype "@ + dtype,
            Some(eb) => match checked_product(eb, dims_of(dims)) {
                Some(n) => decimal(t.length as nat) + " bytes, expected "@ + decimal(n as nat),
                None => "tensor byte size overflow"@,
            },
        }
    }
}

fn validate_tensor_metadata(segment: &TensorSegment, dtype: &str, dims: &Vec<u128>) -> (r: Result<(), String>)
    ensures
        r is Ok <==> metadata_ok(*segment, dtype@, dims_of(dims@)),
        r matches Err(m) ==> m@ == metadata_message(*segment, dtype@, dims@),
{
    if !has_dtype(&segment.dtype, dtype) {
        let mut m = string_of("dtype ");
        push_str(&mut m, debug_dtype(&segment.dtype).as_str());
        push_str(&mut m, ", expected ");
        push_str(&mut m, dtype);
        return Err(m);
    }
    if !shape_matches(&segment.shape, dims) {
        let mut m = string_of("shape ");
        push_list(&mut m, &widen(&segment.shape));
        push_str(&mut m, ", expected ");
        push_list(&mut m, dims);
        return Err(m);
    }
    let element: u64 = if str_eq(dtype, "I32") {
        4
    } else if str_eq(dtype, "BF16") {
        2
    } else {
        let mut m = string_of("unsupported dtype ");
        push_str(&mut m, dtype);
        return Err(m);
    };
    proof { lemma_shape_dims(*segment, dims_of(dims@)); }
    match checked_bytes(element, &segment.shape) {
        Some(n) => {
            if segment.length != n {
                let mut m = String::new();
                push_decimal(&mut m, segment.length);
                push_str(&mut m, " bytes, expected ");
                push_decimal(&mut m, n);
                return Err(m);
            }
            Ok(())
        },
        None => Err(string_of("tensor byte size overflow")),
    }
}

/// The first segment whose tensor name ends with `suffix`.
pub open spec fn first_with_suffix(segs: Seq<TensorSegment>, suffix: Seq<char>) -> Option<TensorSegment>
    decreases segs.len(),
{
    if segs.len() == 0 {
        None
    } else if seq_ends_with(segs[0].tensor@, suffix) {
        Some(segs[0])
    } else {
        first_with_suffix(segs.drop_first(), suffix)
    }
}

pub open spec fn tensor_ok(segs: Seq<TensorSegment>, suffix: Seq<char>, dtype: Seq<char>, dims: Seq<int>) -> bool {
    match first_with_suffix(segs, suffix) {
        Some(t) => metadata_ok(t, dtype, dims),
        None => false,
    }
}

/// `"layer {layer} expert {expert}"`.
pub open spec fn expert_label_text(entry: ExpertLocation) -> Seq<char> {
    "layer "@ + decimal(entry.layer as nat) + " expert "@ + decimal(entry.expert as nat)
}

/// Why the expert's tensor ending with `suffix` fails: it is missing, or
/// the first such tensor fails `metadata_ok`.
pub open spec fn tensor_message(entry: ExpertLocation, suffix: Seq<char>, dtype: Seq<char>, dims: Seq<u128>) -> Seq<char> {
    match first_with_suffix(entry.segments@, suffix) {
        Some(t) => expert_label_text(entry) + " "@ + suffix + ": "@ + metadata_message(t, dtype, dims),
        None => expert_label_text(entry) + " is missing "@ + suffix,
    }
}

fn expect_tensor(entry: &ExpertLocation, suffix: &str, dtype: &str, dims: &Vec<u128>) -> (r: Result<(), KimiError>)
    ensures
        r is Ok <==> tensor_ok(entry.segments@, suffix@, dtype@, dims_of(dims@)),
        r matches Err(e) ==> e is Contract,
        r matches Err(KimiError::Contract(m)) ==> m@ == tensor_message(*entry, suffix@, dtype@, dims@),
{
    let segs = &entry.segments;
    let mut i: usize = 0;
    assert(segs@.skip(0) =~= segs@);
    while i < segs.len()
        invariant
            i <= segs@.len(),
            segs == &entry.segments,
            first_with_suffix(segs@, suffix@) == first_with_suffix(segs@.skip(i as int), suffix@),
        decreases segs@.len() - i,
    {
        let ghost rest = segs@.skip(i as int);
        assert(rest[0] == segs@[i as int]);
        assert(rest.drop_first() =~= segs@.skip(i + 1));
        if str_ends_with(segs[i].tensor.as_str(), suffix) {
            return match validate_tensor_metadata(&segs[i], dtype, dims) {
                Ok(()) => Ok(()),
                Err(reason) => {
                    let mut m = expert_label(entry);
                    push_str(&mut m, " ");
                    push_str(&mut m, suffix);
                    push_str(&mut m, ": ");
                    push_str(&mut m, reason.as_str());
                    Err(KimiError::Contract(m))
                },
            };
        }
        i += 1;
    }
    assert(segs@.skip(i as int) =~= Seq::<TensorSegment>::empty());
    let mut m = expert_label(entry);
    push_str(&mut m, " is missing ");
    push_str(&mut m, suffix);
    Err(KimiError::Contract(m))
}

pub open spec fn ceil_div(a: int, b: int) -> int {
    (a + b - 1) / b
}

fn div_ceil(a: usize, b: usize) -> (r: u128)
    requires
        b > 0,
    ensures
        r as int == ceil_div(a as int, b as int),
{
    let q = (a / b) as u128;
    if a % b != 0 {
        assert(q + 1 == ceil_div(a as int, b as int)) by (nonlinear_arith)
            requires
                b > 0,
                q == a / b,
                a % b != 0,
        ;
        q + 1
    } else {
        assert(q == ceil_div(a as int, b as int)) by (nonlinear_arith)
            requires
                b > 0,
                q == a / b,
                a % b == 0,
        ;
        q
    }
}

impl KimiK27Config {
    /// The nine packed, scale and shape tensors of one routed expert, each exact.
    pub open spec fn expert_segments_ok(&self, segs: Seq<TensorSegment>) -> bool {
        let h = self.hidden_size as int;
        let m = self.moe_intermediate_size as int;
        let g = self.group_size as int;
        &&& segs.len() == 9
        &&& tensor_ok(segs, "gate_proj.weight_packed"@, "I32"@, seq![m, ceil_div(h, 8)])
        &&& tensor_ok(segs, "gate_proj.weight_scale"@, "BF16"@, seq![m, ceil_div(h, g)])
        &&& tensor_ok(segs, "gate_proj.weight_shape"@, "I32"@, seq![2int])
        &&& tensor_ok(segs, "up_proj.weight_packed"@, "I32"@, seq![m, ceil_div(h, 8)])
        &&& tensor_ok(segs, "up_proj.weight_scale"@, "BF16"@, seq![m, ceil_div(h, g)])
        &&& tensor_ok(segs, "up_proj.weight_shape"@, "I32"@, seq![2int])
        &&& tensor_ok(segs, "down_proj.weight_packed"@, "I32"@, seq![h, ceil_div(m, 8)])
        &&& tensor_ok(segs, "down_proj.weight_scale"@, "BF16"@, seq![h, ceil_div(m, g)])
        &&& tensor_ok(segs, "down_proj.weight_shape"@, "I32"@, seq![2int])
    }

    /// Why an expert's tensors fail `expert_segments_ok`: the wrong number
    /// of tensors, else the first of the nine checks that fails.
    pub open spec fn expert_message(&self, entry: ExpertLocation) -> Seq<char> {
        let segs = entry.segments@;
        let h = self.hidden_size as int;
        let m = self.moe_intermediate_size as int;
        let g = self.group_size as int;
        if segs.len() != 9 {
            expert_label_text(entry) + " has "@ + decimal(segs.len()) + " tensors; expected the nine packed/scale/shape tensors"@
        } else if !tensor_ok(segs, "gate_proj.weight_packed"@, "I32"@, dims_of(seq![m as u128, ceil_div(h, 8) as u128])) {
            tensor_message(entry, "gate_proj.weight_packed"@, "I32"@, seq![m as u128, ceil_div(h, 8) as u128])
        } else if !tensor_ok(segs, "gate_proj.weight_scale"@, "BF16"@, dims_of(seq![m as u128, ceil_div(h, g) as u128])) {
            tensor_message(entry, "gate_proj.weight_scale"@, "BF16"@, seq![m as u128, ceil_div(h, g) as u128])
        } else if !tensor_ok(segs, "gate_proj.weight_shape"@, "I32"@, dims_of(seq![2u128])) {
            tensor_message(entry, "gate_proj.weight_shape"@, "I32"@, seq![2u128])
        } else if !tensor_ok(segs, "up_proj.weight_packed"@, "I32"@, dims_of(seq![m as u128, ceil_div(h, 8) as u128])) {
            tensor_message(entry, "up_proj.weight_packed"@, "I32"@, seq![m as u128, ceil_div(h, 8) as u128])
        } else if !tensor_ok(segs, "up_proj.weight_scale"@, "BF16"@, dims_of(seq![m as u128, ceil_div(h, g) as u128])) {
            tensor_message(entry, "up_proj.weight_scale"@, "BF16"@, seq![m as u128, ceil_div(h, g) as u128])
        } else if !tensor_ok(segs, "up_proj.weight_shape"@, "I32"@, dims_of(seq![2u128])) {
            tensor_message(entry, "up_proj.weight_shape"@, "I32"@, seq![2u128])
        } else if !tensor_ok(segs, "down_proj.weight_packed"@, "I32"@, dims_of(seq![h as u128, ceil_div(m, 8) as u128])) {
            tensor_message(entry, "down_proj.weight_packed"@, "I32"@, seq![h as u128, ceil_div(m, 8) as u128])
        } else if !tensor_ok(segs, "down_proj.weight_scale"@, "BF16"@, dims_of(seq![h as u128, ceil_div(m, g) as u128])) {
            tensor_message(entry, "down_proj.weight_scale"@, "BF16"@, seq![h as u128, ceil_div(m, g) as u128])
        } else if !tensor_ok(segs, "down_proj.weight_shape"@, "I32"@, dims_of(seq![2u128])) {
            tensor_message(entry, "down_proj.weight_shape"@, "I32"@, seq![2u128])
        } else {
            Seq::empty()
        }
    }

    fn validate_expert_segments(&self, entry: &ExpertLocation) -> (r: Result<(), KimiError>)
        requires
            self.group_size > 0,
        ensures
            r is Ok <==> self.expert_segments_ok(entry.segments@),
            r matches Err(e) ==> e is Contract,
            r matches Err(KimiError::Contract(msg)) ==> msg@ == self.expert_message(*entry),
    {
        if entry.segments.len() != 9 {
            let mut m = expert_label(entry);
            push_str(&mut m, " has ");
            push_decimal(&mut m, entry.segments.len() as u64);
            push_str(&mut m, " tensors; expected the nine packed/scale/shape tensors");
            return Err(KimiError::Contract(m));
        }
        let h = self.hidden_size;
        let m = self.moe_intermediate_size;
        let g = self.group_size;
        let two = dims1(2);
        match expect_tensor(entry, "gate_proj.weight_packed", "I32", &dims2(m as u128, div_ceil(h, 8))) {
            Ok(()) => {},
            Err(e) => return Err(e),
        }
        match expect_tensor(entry, "gate_proj.weight_scale", "BF16", &dims2(m as u128, div_ceil(h, g))) {
            Ok(()) => {},
            Err(e) => return Err(e),
        }
        match expect_tensor(entry, "gate_proj.weight_shape", "I32", &two) {
            Ok(()) => {},
            Err(e) => return Err(e),
        }
        match expect_tensor(entry, "up_proj.weight_packed", "I32", &dims2(m as u128, div_ceil(h, 8))) {
            Ok(()) => {},
            Err(e) => return Err(e),
        }
        match expect_tensor(entry, "up_proj.weight_scale", "BF16", &dims2(m as u128, div_ceil(h, g))) {
            Ok(()) => {},
            Err(e) => return Err(e),
        }
        match expect_tensor(entry, "up_proj.weight_shape", "I32", &two) {
            Ok(()) => {},
            Err(e) => return Err(e),
        }
        match expect_tensor(entry, "down_proj.weight_packed", "I32", &dims2(h as u128, div_ceil(m, 8))) {
            Ok(()) => {},
            Err(e) => return Err(e),
        }
        match expect_tensor(entry, "down_proj.weight_scale", "BF16", &dims2(h as u128, div_ceil(m, g))) {
            Ok(()) => {},
            Err(e) => return Err(e),
        }
        match expect_tensor(entry, "down_proj.weight_shape", "I32", &two) {
            Ok(()) => {},
            Err(e) => return Err(e),
        }
        Ok(())
    }
}


/// `name` holds a dense tensor of one of `dtypes`, of shape `dims`, with
/// exactly the bytes they imply.
pub open spec fn dense_ok(dense: Seq<TensorSegment>, name: Seq<char>, dtypes: Seq<Seq<char>>, dims: Seq<int>) -> bool {
    match dense_lookup(dense, name) {
        Some(t) => match t.dtype {
            Some(d) => dtypes.contains(d@) && shape_is(t.shape@, dims)
                && checked_product(if d@ == "BF16"@ { 2int } else { 4int }, dims) == Some(t.length as int),
            None => false,
        },
        None => false,
    }
}

pub open spec fn bf16_only() -> Seq<Seq<char>> {
    seq!["BF16"@]
}

pub open spec fn f32_or_bf16() -> Seq<Seq<char>> {
    seq!["F32"@, "BF16"@]
}

/// Why the dense tensor `name` fails `dense_ok`: missing, without a dtype,
/// of another dtype or shape, of another byte length, or of a byte size
/// beyond `u64`.
pub open spec fn dense_message(dense: Seq<TensorSegment>, name: Seq<char>, allow_f32: bool, dims: Seq<u128>) -> Seq<char> {
    let label = "dense tensor "@ + name;
    match dense_lookup(dense, name) {
        None => label + " is missing"@,
        Some(t) => match t.dtype {
            None => label + " has no dtype"@,
            Some(d) => if !(d@ == "BF16"@ || (allow_f32 && d@ == "F32"@)) || !shape_is(t.shape@, dims_of(dims)) {
                label + " has dtype "@ + d@ + " and shape "@ + crate::mixtral::dims_text(widened(t.shape@))
                    + (if allow_f32 { "; expected [\"F32\", \"BF16\"] and "@ } else { "; expected [\"BF16\"] and "@ })
                    + crate::mixtral::dims_text(dims)
            } else {
                match checked_product(if d@ == "BF16"@ { 2int } else { 4int }, dims_of(dims)) {
                    Some(n) => label + " has "@ + decimal(t.length as nat) + " bytes; expected "@ + decimal(n as nat),
                    None => label + " byte size overflow"@,
                }
            },
        },
    }
}

fn expect_dense(dense: &Vec<TensorSegment>, name: &str, allow_f32: bool, dims: &Vec<u128>) -> (r: Result<(), KimiError>)
    ensures
        r is Ok <==> dense_ok(dense@, name@, if allow_f32 { f32_or_bf16() } else { bf16_only() }, dims_of(dims@)),
        r matches Err(e) ==> e is Contract,
        r matches Err(KimiError::Contract(m)) ==> m@ == dense_message(dense@, name@, allow_f32, dims@),
{
    let ghost dtypes = if allow_f32 { f32_or_bf16() } else { bf16_only() };
    let i = match find_dense(dense, name) {
        Some(i) => i,
        None => {
            let mut m = dense_label(name);
            push_str(&mut m, " is missing");
            return Err(KimiError::Contract(m));
        },
    };
    let t = &dense[i];
    let d = match &t.dtype {
        Some(d) => d,
        None => {
            let mut m = dense_label(name);
            push_str(&mut m, " has no dtype");
            return Err(KimiError::Contract(m));
        },
    };
    let is_bf16 = str_eq(d.as_str(), "BF16");
    let is_f32 = str_eq(d.as_str(), "F32");
    proof {
        assert(dtypes.contains(d@) <==> (is_bf16 || (allow_f32 && is_f32))) by {
            if allow_f32 {
                assert(f32_or_bf16()[0] == "F32"@);
                assert(f32_or_bf16()[1] == "BF16"@);
            } else {
                assert(bf16_only()[0] == "BF16"@);
            }
        }
    }
    if !(is_bf16 || (allow_f32 && is_f32)) || !shape_matches(&t.shape, dims) {
        let mut m = dense_label(name);
        push_str(&mut m, " has dtype ");
        push_str(&mut m, d.as_str());
        push_str(&mut m, " and shape ");
        push_list(&mut m, &widen(&t.shape));
        push_str(&mut m, if allow_f32 { "; expected [\"F32\", \"BF16\"] and " } else { "; expected [\"BF16\"] and " });
        push_list(&mut m, dims);
        return Err(KimiError::Contract(m));
    }
    let element: u64 = if is_bf16 { 2 } else { 4 };
    proof { lemma_shape_dims(*t, dims_of(dims@)); }
    match checked_bytes(element, &t.shape) {
        Some(n) => {
            if t.length != n {
                let mut m = dense_label(name);
                push_str(&mut m, " has ");
                push_decimal(&mut m, t.length);
                push_str(&mut m, " bytes; expected ");
                push_decimal(&mut m, n);
                return Err(KimiError::Contract(m));
            }
            Ok(())
        },
        None => {
            let mut m = dense_label(name);
            push_str(&mut m, " byte size overflow");
            Err(KimiError::Contract(m))
        },
    }
}

/// `language_model.model.layers.{layer}` followed by `suffix`.
pub open spec fn kimi_layer_name(layer: int, suffix: Seq<char>) -> Seq<char> {
    "language_model.model.layers."@ + decimal(layer as nat) + suffix
}

fn join(a: &str, b: &str) -> (s: String)
    ensures
        s@ == a@ + b@,
{
    let mut s = string_of(a);
    push_str(&mut s, b);
    s
}

impl KimiK27Config {
    /// The norm, attention and MLP tensors of decoder layer `layer`.
    pub open spec fn layer_tensors_ok(&self, dense: Seq<TensorSegment>, layer: int) -> bool {
        let h = self.hidden_size as int;
        let heads = self.num_attention_heads as int;
        let ql = self.q_lora_rank as int;
        let kvl = self.kv_lora_rank as int;
        let nope = self.qk_nope_head_dim as int;
        let rope = self.qk_rope_head_dim as int;
        let v = self.v_head_dim as int;
        let bf = bf16_only();
        &&& dense_ok(dense, kimi_layer_name(layer, ".input_layernorm.weight"@), bf, seq![h])
        &&& dense_ok(dense, kimi_layer_name(layer, ".post_attention_layernorm.weight"@), bf, seq![h])
        &&& dense_ok(dense, kimi_layer_name(layer, ".self_attn.q_a_proj.weight"@), bf, seq![ql, h])
        &&& dense_ok(dense, kimi_layer_name(layer, ".self_attn.q_a_layernorm.weight"@), bf, seq![ql])
        &&& dense_ok(dense, kimi_layer_name(layer, ".self_attn.q_b_proj.weight"@), bf, seq![heads * (nope + rope), ql])
        &&& dense_ok(dense, kimi_layer_name(layer, ".self_attn.kv_a_proj_with_mqa.weight"@), bf, seq![kvl + rope, h])
        &&& dense_ok(dense, kimi_layer_name(layer, ".self_attn.kv_a_layernorm.weight"@), bf, seq![kvl])
        &&& dense_ok(dense, kimi_layer_name(layer, ".self_attn.kv_b_proj.weight"@), bf, seq![heads * (nope + v), kvl])
        &&& dense_ok(dense, kimi_layer_name(layer, ".self_attn.o_proj.weight"@), bf, seq![h, heads * v])
        &&& if layer < self.first_k_dense_replace {
            let i = self.intermediate_size as int;
            &&& dense_ok(dense, kimi_layer_name(layer, ".mlp.gate_proj.weight"@), bf, seq![i, h])
            &&& dense_ok(dense, kimi_layer_name(layer, ".mlp.up_proj.weight"@), bf, seq![i, h])
            &&& dense_ok(dense, kimi_layer_name(layer, ".mlp.down_proj.weight"@), bf, seq![h, i])
        } else {
            let n = self.n_routed_experts as int;
            let shared = self.moe_intermediate_size as int * self.n_shared_experts as int;
            &&& dense_ok(dense, kimi_layer_name(layer, ".mlp.gate.weight"@), bf, seq![n, h])
            &&& dense_ok(dense, kimi_layer_name(layer, ".mlp.gate.e_score_correction_bias"@), f32_or_bf16(), seq![n])
            &&& dense_ok(dense, kimi_layer_name(layer, ".mlp.shared_experts.gate_proj.weight"@), bf, seq![shared, h])
            &&& dense_ok(dense, kimi_layer_name(layer, ".mlp.shared_experts.up_proj.weight"@), bf, seq![shared, h])
            &&& dense_ok(dense, kimi_layer_name(layer, ".mlp.shared_experts.down_proj.weight"@), bf, seq![h, shared])
        }
    }

    /// The complete text-tower tensor binding. Other tensors (such as those
    /// of a vision tower) are ignored.
    pub open spec fn dense_tensors_ok(&self, dense: Seq<TensorSegment>) -> bool {
        let h = self.hidden_size as int;
        let vocab = self.vocab_size as int;
        &&& dense_ok(dense, "language_model.model.embed_tokens.weight"@, bf16_only(), seq![vocab, h])
        &&& dense_ok(dense, "language_model.model.norm.weight"@, bf16_only(), seq![h])
        &&& dense_ok(dense, "language_model.lm_head.weight"@, bf16_only(), seq![vocab, h])
        &&& forall|l: int| 0 <= l < self.num_hidden_layers ==> #[trigger] self.layer_tensors_ok(dense, l)
    }

    /// Why decoder layer `layer` fails `layer_tensors_ok`: the message of
    /// its first failing tensor check (or of a shape that overflows).
    pub open spec fn layer_message(&self, dense: Seq<TensorSegment>, layer: int) -> Seq<char> {
        let h = self.hidden_size as u128;
        let heads = self.num_attention_heads as u128;
        let ql = self.q_lora_rank as u128;
        let kvl = self.kv_lora_rank as u128;
        let nope = self.qk_nope_head_dim as u128;
        let rope = self.qk_rope_head_dim as u128;
        let v = self.v_head_dim as u128;
        if !dense_ok(dense, kimi_layer_name(layer, ".input_layernorm.weight"@), bf16_only(), dims_of(seq![h])) {
            dense_message(dense, kimi_layer_name(layer, ".input_layernorm.weight"@), false, seq![h])
        } else if !dense_ok(dense, kimi_layer_name(layer, ".post_attention_layernorm.weight"@), bf16_only(), dims_of(seq![h])) {
            dense_message(dense, kimi_layer_name(layer, ".post_attention_layernorm.weight"@), false, seq![h])
        } else if !dense_ok(dense, kimi_layer_name(layer, ".self_attn.q_a_proj.weight"@), bf16_only(), dims_of(seq![ql, h])) {
            dense_message(dense, kimi_layer_name(layer, ".self_attn.q_a_proj.weight"@), false, seq![ql, h])
        } else if !dense_ok(dense, kimi_layer_name(layer, ".self_attn.q_a_layernorm.weight"@), bf16_only(), dims_of(seq![ql])) {
            dense_message(dense, kimi_layer_name(layer, ".self_attn.q_a_layernorm.weight"@), false, seq![ql])
        } else if heads * (nope + rope) > u128::MAX {
            "q_b_proj shape overflows"@
        } else if !dense_ok(dense, kimi_layer_name(layer, ".self_attn.q_b_proj.weight"@), bf16_only(), dims_of(seq![(heads * (nope + rope)) as u128, ql])) {
            dense_message(dense, kimi_layer_name(layer, ".self_attn.q_b_proj.weight"@), false, seq![(heads * (nope + rope)) as u128, ql])
        } else if !dense_ok(dense, kimi_layer_name(layer, ".self_attn.kv_a_proj_with_mqa.weight"@), bf16_only(), dims_of(seq![(kvl + rope) as u128, h])) {
            dense_message(dense, kimi_layer_name(layer, ".self_attn.kv_a_proj_with_mqa.weight"@), false, seq![(kvl + rope) as u128, h])
        } else if !dense_ok(dense, kimi_layer_name(layer, ".self_attn.kv_a_layernorm.weight"@), bf16_only(), dims_of(seq![kvl])) {
            dense_message(dense, kimi_layer_name(layer, ".self_attn.kv_a_layernorm.weight"@), false, seq![kvl])
        } else if heads * (nope + v) > u128::MAX {
            "kv_b_proj shape overflows"@
        } else if !dense_ok(dense, kimi_layer_name(layer, ".self_attn.kv_b_proj.weight"@), bf16_only(), dims_of(seq![(heads * (nope + v)) as u128, kvl])) {
            dense_message(dense, kimi_layer_name(layer, ".self_attn.kv_b_proj.weight"@), false, seq![(heads * (nope + v)) as u128, kvl])
        } else if !dense_ok(dense, kimi_layer_name(layer, ".self_attn.o_proj.weight"@), bf16_only(), dims_of(seq![h, (heads * v) as u128])) {
            dense_message(dense, kimi_layer_name(layer, ".self_attn.o_proj.weight"@), false, seq![h, (heads * v) as u128])
        } else {
            if layer < self.first_k_dense_replace {
                let i = self.intermediate_size as u128;
                if !dense_ok(dense, kimi_layer_name(layer, ".mlp.gate_proj.weight"@), bf16_only(), dims_of(seq![i, h])) {
                    dense_message(dense, kimi_layer_name(layer, ".mlp.gate_proj.weight"@), false, seq![i, h])
                } else if !dense_ok(dense, kimi_layer_name(layer, ".mlp.up_proj.weight"@), bf16_only(), dims_of(seq![i, h])) {
                    dense_message(dense, kimi_layer_name(layer, ".mlp.up_proj.weight"@), false, seq![i, h])
                } else if !dense_ok(dense, kimi_layer_name(layer, ".mlp.down_proj.weight"@), bf16_only(), dims_of(seq![h, i])) {
                    dense_message(dense, kimi_layer_name(layer, ".mlp.down_proj.weight"@), false, seq![h, i])
                } else {
                    Seq::empty()
                }
            } else {
                let n = self.n_routed_experts as u128;
                let shared = (self.moe_intermediate_size as int * self.n_shared_experts as int) as u128;
                if !dense_ok(dense, kimi_layer_name(layer, ".mlp.gate.weight"@), bf16_only(), dims_of(seq![n, h])) {
                    dense_message(dense, kimi_layer_name(layer, ".mlp.gate.weight"@), false, seq![n, h])
                } else if !dense_ok(dense, kimi_layer_name(layer, ".mlp.gate.e_score_correction_bias"@), f32_or_bf16(), dims_of(seq![n])) {
                    dense_message(dense, kimi_layer_name(layer, ".mlp.gate.e_score_correction_bias"@), true, seq![n])
                } else if !dense_ok(dense, kimi_layer_name(layer, ".mlp.shared_experts.gate_proj.weight"@), bf16_only(), dims_of(seq![shared, h])) {
                    dense_message(dense, kimi_layer_name(layer, ".mlp.shared_experts.gate_proj.weight"@), false, seq![shared, h])
                } else if !dense_ok(dense, kimi_layer_name(layer, ".mlp.shared_experts.up_proj.weight"@), bf16_only(), dims_of(seq![shared, h])) {
                    dense_message(dense, kimi_layer_name(layer, ".mlp.shared_experts.up_proj.weight"@), false, seq![shared, h])
                } else if !dense_ok(dense, kimi_layer_name(layer, ".mlp.shared_experts.down_proj.weight"@), bf16_only(), dims_of(seq![h, shared])) {
                    dense_message(dense, kimi_layer_name(layer, ".mlp.shared_experts.down_proj.weight"@), false, seq![h, shared])
                } else {
                    Seq::empty()
                }
            }
        }
    }

    fn validate_layer_tensors(&self, dense: &Vec<TensorSegment>, layer: usize) -> (r: Result<(), KimiError>)
        ensures
            r is Ok <==> self.layer_tensors_ok(dense@, layer as int),
            r matches Err(e) ==> e is Contract,
            r matches Err(KimiError::Contract(m)) ==> m@ == self.layer_message(dense@, layer as int),
    {
        let mut prefix = string_of("language_model.model.layers.");
        push_decimal(&mut prefix, layer as u64);
        let p = prefix.as_str();
        let h = self.hidden_size as u128;
        let heads = self.num_attention_heads as u128;
        let ql = self.q_lora_rank as u128;
        let kvl = self.kv_lora_rank as u128;
        let nope = self.qk_nope_head_dim as u128;
        let rope = self.qk_rope_head_dim as u128;
        let v = self.v_head_dim as u128;
        match expect_dense(dense, join(p, ".input_layernorm.weight").as_str(), false, &dims1(h)) {
            Ok(()) => {},
            Err(e) => return Err(e),
        }
        match expect_dense(dense, join(p, ".post_attention_layernorm.weight").as_str(), false, &dims1(h)) {
            Ok(()) => {},
            Err(e) => return Err(e),
        }
        match expect_dense(dense, join(p, ".self_attn.q_a_proj.weight").as_str(), false, &dims2(ql, h)) {
            Ok(()) => {},
            Err(e) => return Err(e),
        }
        match expect_dense(dense, join(p, ".self_attn.q_a_layernorm.weight").as_str(), false, &dims1(ql)) {
            Ok(()) => {},
            Err(e) => return Err(e),
        }
        let q_rows = match heads.checked_mul(nope + rope) {
            Some(x) => x,
            None => return Err(contract_error("q_b_proj shape overflows")),
        };
        match expect_dense(dense, join(p, ".self_attn.q_b_proj.weight").as_str(), false, &dims2(q_rows, ql)) {
            Ok(()) => {},
            Err(e) => return Err(e),
        }
        match expect_dense(dense, join(p, ".self_attn.kv_a_proj_with_mqa.weight").as_str(), false, &dims2(kvl + rope, h)) {
            Ok(()) => {},
            Err(e) => return Err(e),
        }
        match expect_dense(dense, join(p, ".self_attn.kv_a_layernorm.weight").as_str(), false, &dims1(kvl)) {
            Ok(()) => {},
            Err(e) => return Err(e),
        }
        let kv_rows = match heads.checked_mul(nope + v) {
            Some(x) => x,
            None => return Err(contract_error("kv_b_proj shape overflows")),
        };
        match expect_dense(dense, join(p, ".self_attn.kv_b_proj.weight").as_str(), false, &dims2(kv_rows, kvl)) {
            Ok(()) => {},
            Err(e) => return Err(e),
        }
        let o_cols = mul_wide(self.num_attention_heads, self.v_head_dim);
        match expect_dense(dense, join(p, ".self_attn.o_proj.weight").as_str(), false, &dims2(h, o_cols)) {
            Ok(()) => {},
            Err(e) => return Err(e),
        }
        if layer < self.first_k_dense_replace {
            let i = self.intermediate_size as u128;
            match expect_dense(dense, join(p, ".mlp.gate_proj.weight").as_str(), false, &dims2(i, h)) {
                Ok(()) => {},
                Err(e) => return Err(e),
            }
            match expect_dense(dense, join(p, ".mlp.up_proj.weight").as_str(), false, &dims2(i, h)) {
                Ok(()) => {},
                Err(e) => return Err(e),
            }
            match expect_dense(dense, join(p, ".mlp.down_proj.weight").as_str(), false, &dims2(h, i)) {
                Ok(()) => {},
                Err(e) => return Err(e),
            }
        } else {
            let n = self.n_routed_experts as u128;
            let shared = mul_wide(self.moe_intermediate_size, self.n_shared_experts);
            match expect_dense(dense, join(p, ".mlp.gate.weight").as_str(), false, &dims2(n, h)) {
                Ok(()) => {},
                Err(e) => return Err(e),
            }
            match expect_dense(dense, join(p, ".mlp.gate.e_score_correction_bias").as_str(), true, &dims1(n)) {
                Ok(()) => {},
                Err(e) => return Err(e),
            }
            match expect_dense(dense, join(p, ".mlp.shared_experts.gate_proj.weight").as_str(), false, &dims2(shared, h)) {
                Ok(()) => {},
                Err(e) => return Err(e),
            }
            match expect_dense(dense, join(p, ".mlp.shared_experts.up_proj.weight").as_str(), false, &dims2(shared, h)) {
                Ok(()) => {},
                Err(e) => return Err(e),
            }
            match expect_dense(dense, join(p, ".mlp.shared_experts.down_proj.weight").as_str(), false, &dims2(h, shared)) {
                Ok(()) => {},
                Err(e) => return Err(e),
            }
        }
        Ok(())
    }

    /// The message of a failing text-tower binding: that of the embedding,
    /// the final norm or the LM head, in that order, else that of the first
    /// failing decoder layer.
    pub open spec fn dense_failure_message(&self, dense: Seq<TensorSegment>, msg: Seq<char>) -> bool {
        let h = self.hidden_size as u128;
        let vocab = self.vocab_size as u128;
        if !dense_ok(dense, "language_model.model.embed_tokens.weight"@, bf16_only(), dims_of(seq![vocab, h])) {
            msg == dense_message(dense, "language_model.model.embed_tokens.weight"@, false, seq![vocab, h])
        } else if !dense_ok(dense, "language_model.model.norm.weight"@, bf16_only(), dims_of(seq![h])) {
            msg == dense_message(dense, "language_model.model.norm.weight"@, false, seq![h])
        } else if !dense_ok(dense, "language_model.lm_head.weight"@, bf16_only(), dims_of(seq![vocab, h])) {
            msg == dense_message(dense, "language_model.lm_head.weight"@, false, seq![vocab, h])
        } else {
            exists|l: int| 0 <= l < self.num_hidden_layers
                && (forall|k: int| 0 <= k < l ==> #[trigger] self.layer_tensors_ok(dense, k))
                && !self.layer_tensors_ok(dense, l) && msg == self.layer_message(dense, l)
        }
    }

    /// Validates the complete text-tower tensor binding before any checkpoint
    /// bytes are executed.
    pub fn validate_dense_tensors(&self, manifest: &RuntimeManifest) -> (r: Result<(), KimiError>)
        ensures
            r is Ok <==> self.dense_tensors_ok(manifest.storage.dense_tensors@),
            r matches Err(e) ==> e is Contract,
            r matches Err(KimiError::Contract(m)) ==> self.dense_failure_message(manifest.storage.dense_tensors@, m@),
    {
        let dense = &manifest.storage.dense_tensors;
        let h = self.hidden_size as u128;
        let vocab = self.vocab_size as u128;
        match expect_dense(dense, "language_model.model.embed_tokens.weight", false, &dims2(vocab, h)) {
            Ok(()) => {},
            Err(e) => return Err(e),
        }
        match expect_dense(dense, "language_model.model.norm.weight", false, &dims1(h)) {
            Ok(()) => {},
            Err(e) => return Err(e),
        }
        match expect_dense(dense, "language_model.lm_head.weight", false, &dims2(vocab, h)) {
            Ok(()) => {},
            Err(e) => return Err(e),
        }
        let mut layer: usize = 0;
        while layer < self.num_hidden_layers
            invariant
                layer <= self.num_hidden_layers,
                dense == &manifest.storage.dense_tensors,
                h == self.hidden_size as u128,
                vocab == self.vocab_size as u128,
                dense_ok(dense@, "language_model.model.embed_tokens.weight"@, bf16_only(), dims_of(seq![vocab, h])),
                dense_ok(dense@, "language_model.model.norm.weight"@, bf16_only(), dims_of(seq![h])),
                dense_ok(dense@, "language_model.lm_head.weight"@, bf16_only(), dims_of(seq![vocab, h])),
                forall|l: int| 0 <= l < layer ==> #[trigger] self.layer_tensors_ok(dense@, l),
            decreases self.num_hidden_layers - layer,
        {
            match self.validate_layer_tensors(dense, layer) {
                Ok(()) => {},
                Err(e) => {
                    assert(!self.layer_tensors_ok(dense@, layer as int));
                    return Err(e);
                },
            }
            layer += 1;
        }
        Ok(())
    }
}


proof fn lemma_grid_injective(a1: int, e1: int, a2: int, e2: int, n: int)
    requires
        0 <= e1 < n,
        0 <= e2 < n,
        0 <= a1,
        0 <= a2,
        a1 * n + e1 == a2 * n + e2,
    ensures
        a1 == a2,
        e1 == e2,
{
    if a1 < a2 {
        assert(a1 * n + n <= a2 * n) by (nonlinear_arith)
            requires
                a1 < a2,
                n > 0,
        ;
    } else if a2 < a1 {
        assert(a2 * n + n <= a1 * n) by (nonlinear_arith)
            requires
                a2 < a1,
                n > 0,
        ;
    }
}

proof fn lemma_grid_bound(a: int, e: int, big_a: int, n: int)
    requires
        0 <= a < big_a,
        0 <= e < n,
    ensures
        a * n + e < big_a * n,
{
    assert(a * n + n <= big_a * n) by (nonlinear_arith)
        requires
            a < big_a,
            n > 0,
    ;
}

impl KimiK27Config {
    /// The architecture header names the compiled Kimi K2.7 path.
    pub open spec fn runtime_header_ok(&self, a: ArchitectureContract) -> bool {
        &&& a.adapter@ == ADAPTER_ID@
        &&& a.model_type@ == OUTER_MODEL_TYPE@
        &&& a.attention == AttentionKind::Mla
        &&& a.router == RouterSemantics::GroupLimitedTopK
        &&& a.expert_format == WeightFormat::PackedInt4Group32
        &&& a.num_layers as int == self.num_hidden_layers as int
        &&& a.experts_per_layer as int == self.n_routed_experts as int
        &&& a.experts_per_token as int == self.num_experts_per_tok as int
    }

    /// A routed layer and an expert index within it.
    pub open spec fn in_grid(&self, e: ExpertLocation) -> bool {
        self.first_k_dense_replace <= e.layer < self.num_hidden_layers && e.expert < self.n_routed_experts
    }

    pub open spec fn grid_index(&self, e: ExpertLocation) -> int {
        (e.layer - self.first_k_dense_replace) * self.n_routed_experts + e.expert
    }

    /// The expert index holds every expert of every routed layer exactly once.
    pub open spec fn experts_exact(&self, es: Seq<ExpertLocation>) -> bool {
        &&& es.len() == (self.num_hidden_layers - self.first_k_dense_replace) * self.n_routed_experts
        &&& forall|i: int| 0 <= i < es.len() ==> #[trigger] self.in_grid(es[i])
        &&& forall|i: int, j: int| 0 <= i < j < es.len() ==> !(#[trigger] es[i].layer == #[trigger] es[j].layer
            && es[i].expert == es[j].expert)
    }

    /// Everything `validate_runtime_manifest` accepts.
    pub open spec fn runtime_manifest_ok(&self, m: RuntimeManifest) -> bool {
        let es = m.storage.experts@;
        &&& self.runtime_header_ok(m.architecture)
        &&& self.experts_exact(es)
        &&& forall|i: int| 0 <= i < es.len() ==> self.expert_segments_ok(#[trigger] es[i].segments@)
        &&& self.dense_tensors_ok(m.storage.dense_tensors@)
    }

    fn experts_cover_grid(&self, es: &Vec<ExpertLocation>) -> (b: bool)
        requires
            es@.len() == (self.num_hidden_layers - self.first_k_dense_replace) * self.n_routed_experts,
            self.first_k_dense_replace <= self.num_hidden_layers,
        ensures
            b == ((forall|i: int| 0 <= i < es@.len() ==> #[trigger] self.in_grid(es@[i]))
                && forall|i: int, j: int| 0 <= i < j < es@.len() ==> !(#[trigger] es@[i].layer == #[trigger] es@[j].layer
                    && es@[i].expert == es@[j].expert)),
    {
        let total = es.len();
        let mut seen: Vec<bool> = Vec::new();
        let mut k: usize = 0;
        while k < total
            invariant
                k <= total,
                seen@.len() == k,
                forall|x: int| 0 <= x < k ==> !#[trigger] seen@[x],
            decreases total - k,
        {
            seen.push(false);
            k += 1;
        }
        let first = self.first_k_dense_replace;
        let layers = self.num_hidden_layers;
        let n = self.n_routed_experts;
        let mut i: usize = 0;
        while i < total
            invariant
                total == es@.len(),
                total == (layers - first) * n,
                first == self.first_k_dense_replace,
                layers == self.num_hidden_layers,
                n == self.n_routed_experts,
                first <= layers,
                i <= total,
                seen@.len() == total,
                forall|k: int| 0 <= k < i ==> #[trigger] self.in_grid(es@[k]),
                forall|k: int| 0 <= k < i ==> 0 <= #[trigger] self.grid_index(es@[k]) < total,
                forall|k: int| 0 <= k < i ==> seen@[#[trigger] self.grid_index(es@[k])],
                forall|x: int| 0 <= x < total && #[trigger] seen@[x] ==> exists|k: int| 0 <= k < i && self.grid_index(es@[k]) == x,
                forall|k1: int, k2: int| 0 <= k1 < k2 < i ==> !(#[trigger] es@[k1].layer == #[trigger] es@[k2].layer
                    && es@[k1].expert == es@[k2].expert),
            decreases total - i,
        {
            let e = &es[i];
            if !((e.layer as usize) >= first && (e.layer as usize) < layers && (e.expert as usize) < n) {
                assert(!self.in_grid(es@[i as int]));
                return false;
            }
            let a = (e.layer as usize) - first;
            proof { lemma_grid_bound(a as int, e.expert as int, (layers - first) as int, n as int); }
            let idx = (mul_wide(a, n) + e.expert as u128) as usize;
            assert(idx as int == self.grid_index(es@[i as int]));
            if seen[idx] {
                proof {
                    let k = choose|k: int| 0 <= k < i && self.grid_index(es@[k]) == idx;
                    assert(self.in_grid(es@[k]));
                    lemma_grid_injective(es@[k].layer - first, es@[k].expert as int, a as int, e.expert as int, n as int);
                    assert(es@[k].layer == es@[i as int].layer && es@[k].expert == es@[i as int].expert);
                }
                return false;
            }
            proof {
                assert forall|k: int| 0 <= k < i implies !(#[trigger] es@[k].layer == es@[i as int].layer
                    && es@[k].expert == es@[i as int].expert) by {
                    if es@[k].layer == es@[i as int].layer && es@[k].expert == es@[i as int].expert {
                        assert(self.grid_index(es@[k]) == idx);
                        assert(seen@[self.grid_index(es@[k])]);
                    }
                }
            }
            let ghost before = seen@;
            seen.set(idx, true);
            proof {
                assert forall|k: int| 0 <= k < i + 1 implies seen@[#[trigger] self.grid_index(es@[k])] by {
                    if k < i {
                        assert(before[self.grid_index(es@[k])]);
                    }
                }
                assert forall|x: int| 0 <= x < total && #[trigger] seen@[x] implies exists|k: int| 0 <= k < i + 1
                    && self.grid_index(es@[k]) == x by {
                    if x != idx {
                        let k = choose|k: int| 0 <= k < i && self.grid_index(es@[k]) == x;
                        assert(0 <= k < i + 1 && self.grid_index(es@[k]) == x);
                    } else {
                        assert(self.grid_index(es@[i as int]) == x);
                    }
                }
            }
            i += 1;
        }
        true
    }

    /// Layer of grid cell `m`: cells run over the routed layers, experts
    /// ascending within each.
    pub open spec fn cell_layer(&self, m: int) -> int {
        self.first_k_dense_replace + m / (self.n_routed_experts as int)
    }

    /// Expert of grid cell `m`.
    pub open spec fn cell_expert(&self, m: int) -> int {
        m % (self.n_routed_experts as int)
    }

    pub open spec fn at_cell(&self, e: ExpertLocation, m: int) -> bool {
        e.layer == self.cell_layer(m) && e.expert == self.cell_expert(m)
    }

    /// `e` comes no later than grid cell `m` in (layer, expert) order.
    pub open spec fn sorts_by(&self, e: ExpertLocation, m: int) -> bool {
        e.layer < self.cell_layer(m) || (e.layer == self.cell_layer(m) && e.expert <= self.cell_expert(m))
    }

    /// How many entries come no later than grid cell `m`.
    pub open spec fn count_by(&self, es: Seq<ExpertLocation>, m: int) -> nat
        decreases es.len(),
    {
        if es.len() == 0 {
            0
        } else {
            self.count_by(es.drop_last(), m) + if self.sorts_by(es.last(), m) { 1nat } else { 0nat }
        }
    }

    /// `i` is the first entry at grid cell `m`.
    pub open spec fn first_at(&self, es: Seq<ExpertLocation>, m: int, i: int) -> bool {
        &&& 0 <= i < es.len()
        &&& self.at_cell(es[i], m)
        &&& forall|j: int| 0 <= j < i ==> !self.at_cell(#[trigger] es[j], m)
    }

    /// In the index sorted by (layer, expert), position `m` holds grid cell
    /// `m`: some entry is at the cell and exactly `m + 1` entries come no
    /// later.
    pub open spec fn cell_in_place(&self, es: Seq<ExpertLocation>, m: int) -> bool {
        &&& exists|i: int| 0 <= i < es.len() && self.at_cell(#[trigger] es[i], m)
        &&& self.count_by(es, m) == m + 1
    }

    /// Grid cell `m` is in place and its entry has its exact tensors.
    pub open spec fn cell_passes(&self, es: Seq<ExpertLocation>, m: int) -> bool {
        &&& self.cell_in_place(es, m)
        &&& forall|i: int| self.first_at(es, m, i) ==> self.expert_segments_ok(#[trigger] es[i].segments@)
    }

    proof fn lemma_missing_cell(&self, es: Seq<ExpertLocation>, m: int, msg: Seq<char>)
        requires
            0 <= m < es.len(),
            forall|c: int| 0 <= c < m ==> #[trigger] self.cell_passes(es, c),
            !self.cell_in_place(es, m),
            msg == "expert index is missing layer "@ + decimal(self.cell_layer(m) as nat) + " expert "@
                + decimal(self.cell_expert(m) as nat),
        ensures
            exists|m2: int| 0 <= m2 < es.len() && (forall|c: int| 0 <= c < m2 ==> #[trigger] self.cell_passes(es, c))
                && !self.cell_passes(es, m2) && if !self.cell_in_place(es, m2) {
                    msg == "expert index is missing layer "@ + decimal(self.cell_layer(m2) as nat) + " expert "@
                        + decimal(self.cell_expert(m2) as nat)
                } else {
                    false
                },
    {
        assert(!self.cell_passes(es, m));
    }

    /// The first failure in routed-grid order, (layer, expert) ascending: the
    /// expert index sorted by (layer, expert) must list exactly the grid
    /// cells, and each listed expert must have its nine exact tensors. The
    /// first grid cell at which the sorted index departs from the grid is
    /// reported missing, unless an earlier cell's tensors are wrong.
    /// The message for an expert index that fails: for the first grid cell
    /// (in layer, then expert order) that fails, the missing entry or why the
    /// first entry at it fails `expert_segments_ok`; when every cell passes,
    /// that the index does not match the grid.
    pub open spec fn grid_failure_message(&self, es: Seq<ExpertLocation>, msg: Seq<char>) -> bool {
        (exists|m: int| 0 <= m < es.len() && (forall|c: int| 0 <= c < m ==> #[trigger] self.cell_passes(es, c))
            && !self.cell_passes(es, m) && if !self.cell_in_place(es, m) {
                msg == "expert index is missing layer "@
                    + decimal(self.cell_layer(m) as nat) + " expert "@ + decimal(self.cell_expert(m) as nat)
            } else {
                exists|i: int| self.first_at(es, m, i) && !self.expert_segments_ok(es[i].segments@)
                    && msg == self.expert_message(es[i])
            })
        || ((forall|c: int| 0 <= c < es.len() ==> #[trigger] self.cell_passes(es, c))
            && msg == "expert index does not match the routed expert grid"@)
    }

    fn first_grid_failure(&self, experts: &Vec<ExpertLocation>) -> (e: KimiError)
        requires
            self.first_k_dense_replace <= self.num_hidden_layers,
            self.group_size > 0,
            experts@.len() == (self.num_hidden_layers - self.first_k_dense_replace) * self.n_routed_experts,
        ensures
            e is Contract,
            e matches KimiError::Contract(msg) && self.grid_failure_message(experts@, msg@),
    {
        let first = self.first_k_dense_replace;
        let n = self.n_routed_experts;
        let total = experts.len();
        let ghost es = experts@;
        let mut m: usize = 0;
        while m < total
            invariant
                es == experts@,
                total == es.len(),
                total == (self.num_hidden_layers - first) * n,
                first == self.first_k_dense_replace,
                n == self.n_routed_experts,
                first <= self.num_hidden_layers,
                self.group_size > 0,
                m <= total,
                forall|c: int| 0 <= c < m ==> #[trigger] self.cell_passes(es, c),
            decreases total - m,
        {
            assert(n > 0) by (nonlinear_arith)
                requires
                    m < total,
                    total == (self.num_hidden_layers - first) * n,
            ;
            assert(m / n < self.num_hidden_layers - first) by (nonlinear_arith)
                requires
                    m < total,
                    total == (self.num_hidden_layers - first) * n,
                    n > 0,
            ;
            let layer = first + m / n;
            let expert = m % n;
            let mut count: usize = 0;
            let mut found: Option<usize> = None;
            let mut i: usize = 0;
            assert(es.take(0) =~= Seq::<ExpertLocation>::empty());
            while i < total
                invariant
                    es == experts@,
                    total == es.len(),
                    n == self.n_routed_experts,
                    n > 0,
                    layer as int == self.cell_layer(m as int),
                    expert as int == self.cell_expert(m as int),
                    i <= total,
                    count <= i,
                    count == self.count_by(es.take(i as int), m as int),
                    match found {
                        None => forall|j: int| 0 <= j < i ==> !self.at_cell(#[trigger] es[j], m as int),
                        Some(k) => k < i && self.first_at(es, m as int, k as int),
                    },
                decreases total - i,
            {
                let el = experts[i].layer as usize;
                let ex = experts[i].expert as usize;
                let ghost t = es.take(i + 1);
                assert(t.drop_last() =~= es.take(i as int));
                assert(t.last() == es[i as int]);
                if el < layer || (el == layer && ex <= expert) {
                    count = count + 1;
                }
                if found.is_none() && el == layer && ex == expert {
                    found = Some(i);
                }
                i += 1;
            }
            assert(es.take(total as int) =~= es);
            let k = match found {
                None => {
                    let mut msg = string_of("expert index is missing layer ");
                    push_decimal_wide(&mut msg, first as u128 + (m / n) as u128);
                    push_str(&mut msg, " expert ");
                    push_decimal(&mut msg, (m % n) as u64);
                    proof { self.lemma_missing_cell(es, m as int, msg@); }
                    return KimiError::Contract(msg);
                },
                Some(k) => k,
            };
            if count != m + 1 {
                let mut msg = string_of("expert index is missing layer ");
                push_decimal_wide(&mut msg, first as u128 + (m / n) as u128);
                push_str(&mut msg, " expert ");
                push_decimal(&mut msg, (m % n) as u64);
                proof { self.lemma_missing_cell(es, m as int, msg@); }
                return KimiError::Contract(msg);
            }
            assert(self.cell_in_place(es, m as int));
            match self.validate_expert_segments(&experts[k]) {
                Ok(()) => {},
                Err(e) => {
                    assert(!self.cell_passes(es, m as int));
                    return e;
                },
            }
            assert forall|i2: int| self.first_at(es, m as int, i2) implies self.expert_segments_ok(#[trigger] es[i2].segments@) by {
                if i2 < k {
                    assert(!self.at_cell(es[i2], m as int));
                } else if i2 > k {
                    assert(!self.at_cell(es[k as int], m as int));
                }
            }
            m += 1;
        }
        contract_error("expert index does not match the routed expert grid")
    }

    /// Checks a runtime manifest against the compiled Kimi K2.7 contract: the
    /// architecture header, an expert index holding every routed expert once
    /// with its nine exact packed tensors, and the complete text-tower
    /// tensor binding.
    pub fn validate_runtime_manifest(&self, manifest: &RuntimeManifest) -> (r: Result<(), KimiError>)
        requires
            self.runtime_header_ok(manifest.architecture) ==> self.first_k_dense_replace <= self.num_hidden_layers
                && self.group_size > 0,
        ensures
            r is Ok <==> self.runtime_manifest_ok(*manifest),
            r matches Err(e) ==> e is Contract,
            !self.runtime_header_ok(manifest.architecture) ==> (r matches Err(KimiError::Contract(m))
                && m@ == "runtime manifest does not match the exact Kimi K2.7 architecture"@),
            self.runtime_header_ok(manifest.architecture) && manifest.storage.experts@.len()
                != (self.num_hidden_layers - self.first_k_dense_replace) * self.n_routed_experts
                ==> (r matches Err(KimiError::Contract(m)) && m@ == "expert index contains "@
                + decimal(manifest.storage.experts@.len()) + " entries; Kimi K2.7 requires "@
                + decimal(((self.num_hidden_layers - self.first_k_dense_replace) * self.n_routed_experts) as nat)),
            self.runtime_header_ok(manifest.architecture) && manifest.storage.experts@.len()
                == (self.num_hidden_layers - self.first_k_dense_replace) * self.n_routed_experts
                && !(self.experts_exact(manifest.storage.experts@) && forall|i: int| 0 <= i < manifest.storage.experts@.len()
                    ==> self.expert_segments_ok(#[trigger] manifest.storage.experts@[i].segments@))
                ==> (r matches Err(KimiError::Contract(m)) && self.grid_failure_message(manifest.storage.experts@, m@)),
            self.runtime_header_ok(manifest.architecture) && self.experts_exact(manifest.storage.experts@)
                && (forall|i: int| 0 <= i < manifest.storage.experts@.len()
                    ==> self.expert_segments_ok(#[trigger] manifest.storage.experts@[i].segments@))
                ==> (r matches Err(KimiError::Contract(m)) ==> self.dense_failure_message(manifest.storage.dense_tensors@, m@)),
    {
        let a = &manifest.architecture;
        if !str_eq(a.adapter.as_str(), ADAPTER_ID) || !str_eq(a.model_type.as_str(), OUTER_MODEL_TYPE)
            || a.attention != AttentionKind::Mla || a.router != RouterSemantics::GroupLimitedTopK
            || a.expert_format != WeightFormat::PackedInt4Group32
            || a.num_layers as usize != self.num_hidden_layers
            || a.experts_per_layer as usize != self.n_routed_experts
            || a.experts_per_token as usize != self.num_experts_per_tok {
            return Err(contract_error("runtime manifest does not match the exact Kimi K2.7 architecture"));
        }
        let experts = &manifest.storage.experts;
        let expected = mul_wide(self.num_hidden_layers - self.first_k_dense_replace, self.n_routed_experts);
        if experts.len() as u128 != expected {
            let mut m = string_of("expert index contains ");
            push_decimal(&mut m, experts.len() as u64);
            push_str(&mut m, " entries; Kimi K2.7 requires ");
            push_decimal_wide(&mut m, expected);
            return Err(KimiError::Contract(m));
        }
        if !self.experts_cover_grid(experts) {
            return Err(self.first_grid_failure(experts));
        }
        let mut i: usize = 0;
        while i < experts.len()
            invariant
                i <= experts@.len(),
                experts == &manifest.storage.experts,
                self.group_size > 0,
                self.first_k_dense_replace <= self.num_hidden_layers,
                self.runtime_header_ok(manifest.architecture),
                experts@.len() == (self.num_hidden_layers - self.first_k_dense_replace) * self.n_routed_experts,
                forall|k: int| 0 <= k < i ==> self.expert_segments_ok(#[trigger] experts@[k].segments@),
            decreases experts@.len() - i,
        {
            let checked = self.validate_expert_segments(&experts[i]);
            if checked.is_err() {
                assert(!self.expert_segments_ok(experts@[i as int].segments@));
                return Err(self.first_grid_failure(experts));
            }
            i += 1;
        }
        self.validate_dense_tensors(manifest)
    }
}

} // verus!
