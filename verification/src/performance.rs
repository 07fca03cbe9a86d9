//! Storage-I/O bounds for out-of-core MoE execution: the integer part of
//! the estimate, the bytes one decode step must read.
use vstd::prelude::*;
use crate::manifest::{segments_bytes, ExpertLocation, ModelFamily, RuntimeManifest, TensorSegment};
use crate::text::{seq_contains, seq_ends_with, seq_starts_with, str_contains, str_ends_with, str_starts_with};

verus! {

#[derive(Debug, Clone, Copy, PartialEq, Eq, Structural)]
pub enum PerformanceError {
    InvalidInput,
    Overflow,
}

impl PerformanceError {
    /// The error's message, as its `Display` form shows it.
    pub fn message(&self) -> (s: String)
        ensures
            s@ == match *self {
                PerformanceError::InvalidInput => "verification positions and storage bandwidth must be positive"@,
                PerformanceError::Overflow => "performance arithmetic overflow"@,
            },
    {
        match self {
            PerformanceError::InvalidInput => crate::text::string_of("verification positions and storage bandwidth must be positive"),
            PerformanceError::Overflow => crate::text::string_of("performance arithmetic overflow"),
        }
    }
}

/// A dense tensor the decoder reads every step: for Kimi K2.7 only the
/// language tower, for other families everything but vision towers and
/// multimodal projectors.
pub open spec fn decode_uses(family: ModelFamily, name: Seq<char>) -> bool {
    if family == ModelFamily::KimiK27 {
        seq_starts_with(name, "language_model.model."@) || seq_starts_with(name, "language_model.lm_head."@)
    } else {
        !seq_contains(name, "vision_tower"@) && !seq_contains(name, "mm_projector"@)
    }
}

/// Bytes a decode step reads from one dense tensor: only the looked-up rows
/// (one BF16 row of width `hidden`) of an embedding table.
pub open spec fn decode_bytes_of(t: TensorSegment, hidden: u32) -> int {
    if seq_ends_with(t.tensor@, "embed_tokens.weight"@) { hidden as int * 2 } else { t.length as int }
}

pub open spec fn decode_total(segs: Seq<TensorSegment>, family: ModelFamily, hidden: u32) -> int
    decreases segs.len(),
{
    if segs.len() == 0 {
        0
    } else {
        decode_total(segs.drop_last(), family, hidden)
            + if decode_uses(family, segs.last().tensor@) { decode_bytes_of(segs.last(), hidden) } else { 0 }
    }
}

proof fn lemma_decode_total_prefix(segs: Seq<TensorSegment>, family: ModelFamily, hidden: u32, i: int)
    requires
        0 <= i <= segs.len(),
    ensures
        decode_total(segs.take(i), family, hidden) <= decode_total(segs, family, hidden),
    decreases segs.len() - i,
{
    if i < segs.len() {
        let t = segs.take(i + 1);
        assert(t.drop_last() =~= segs.take(i));
        lemma_decode_total_prefix(segs, family, hidden, i + 1);
    } else {
        assert(segs.take(i) =~= segs);
    }
}

/// For Kimi K2.7 the whole language tower is read at every decode step: a
/// dense tensor under `language_model.model.` or `language_model.lm_head.`
/// (other than a token-embedding table, of which only one row is read) adds
/// its full length to the decode bytes.
pub proof fn law_kimi_language_tower_read_each_step(segs: Seq<TensorSegment>, t: TensorSegment, hidden: u32)
    requires
        seq_starts_with(t.tensor@, "language_model.lm_head."@) || seq_starts_with(t.tensor@, "language_model.model."@),
        !seq_ends_with(t.tensor@, "embed_tokens.weight"@),
    ensures
        decode_total(segs.push(t), ModelFamily::KimiK27, hidden)
            == decode_total(segs, ModelFamily::KimiK27, hidden) + t.length,
{
    assert(segs.push(t).drop_last() =~= segs);
    assert(segs.push(t).last() == t);
}

/// Bytes one decode step reads from the dense tensors: the manifest's
/// `dense_bytes` when it lists no dense tensors, else the sum over the
/// tensors the decoder uses.
pub fn decode_dense_bytes(manifest: &RuntimeManifest) -> (r: Result<u64, PerformanceError>)
    ensures
        manifest.storage.dense_tensors@.len() == 0 ==> r == Ok::<u64, PerformanceError>(manifest.dense_bytes),
        manifest.storage.dense_tensors@.len() > 0 ==> {
            let total = decode_total(manifest.storage.dense_tensors@, manifest.architecture.family,
                manifest.architecture.hidden_size);
            match r {
                Ok(n) => n == total,
                Err(e) => e is Overflow && total > u64::MAX,
            }
        },
        manifest.storage.dense_tensors@.len() > 0 ==> (r is Err <==> decode_total(
            manifest.storage.dense_tensors@, manifest.architecture.family, manifest.architecture.hidden_size) > u64::MAX),
{
    let segs = &manifest.storage.dense_tensors;
    if segs.len() == 0 {
        return Ok(manifest.dense_bytes);
    }
    let family = manifest.architecture.family;
    let hidden = manifest.architecture.hidden_size;
    let mut total: u64 = 0;
    let mut i: usize = 0;
    while i < segs.len()
        invariant
            i <= segs@.len(),
            segs == &manifest.storage.dense_tensors,
            family == manifest.architecture.family,
            hidden == manifest.architecture.hidden_size,
            total as int == decode_total(segs@.take(i as int), family, hidden),
        decreases segs@.len() - i,
    {
        let ghost t = segs@.take(i + 1);
        assert(t.drop_last() =~= segs@.take(i as int));
        let name = segs[i].tensor.as_str();
        let used = if family == ModelFamily::KimiK27 {
            str_starts_with(name, "language_model.model.") || str_starts_with(name, "language_model.lm_head.")
        } else {
            !str_contains(name, "vision_tower") && !str_contains(name, "mm_projector")
        };
        if used {
            let bytes: u64 = if str_ends_with(name, "embed_tokens.weight") {
                hidden as u64 * 2
            } else {
                segs[i].length
            };
            match total.checked_add(bytes) {
                Some(n) => {
                    total = n;
                },
                None => {
                    proof { lemma_decode_total_prefix(segs@, family, hidden, i + 1); }
                    return Err(PerformanceError::Overflow);
                },
            }
        }
        i += 1;
    }
    assert(segs@.take(i as int) =~= segs@);
    Ok(total)
}

/// Bytes of the experts of layer `layer`.
pub open spec fn layer_bytes(es: Seq<ExpertLocation>, layer: u32) -> nat
    decreases es.len(),
{
    if es.len() == 0 {
        0
    } else {
        layer_bytes(es.drop_last(), layer) + if es.last().layer == layer { segments_bytes(es.last().segments@) } else { 0 }
    }
}

/// Number of experts of layer `layer`.
pub open spec fn layer_count(es: Seq<ExpertLocation>, layer: u32) -> nat
    decreases es.len(),
{
    if es.len() == 0 {
        0
    } else {
        layer_count(es.drop_last(), layer) + if es.last().layer == layer { 1nat } else { 0nat }
    }
}

/// The layers of `es`, each once, in order of first appearance.
pub open spec fn distinct_layers(es: Seq<ExpertLocation>) -> Seq<u32>
    decreases es.len(),
{
    if es.len() == 0 {
        Seq::empty()
    } else {
        let d = distinct_layers(es.drop_last());
        if d.contains(es.last().layer) { d } else { d.push(es.last().layer) }
    }
}

/// `x` held to what a `u64` counts.
pub open spec fn saturated(x: nat) -> nat {
    if x > u64::MAX { u64::MAX as nat } else { x }
}

/// The cold bytes one token reads of layer `layer`: `top_k` experts of the
/// layer's average size (the layer's bytes held to `u64`, divided by its
/// expert count).
pub open spec fn layer_cold_bytes(es: Seq<ExpertLocation>, layer: u32, top_k: u32) -> int {
    if layer_count(es, layer) == 0 {
        0
    } else {
        (saturated(layer_bytes(es, layer)) / layer_count(es, layer)) as int * top_k
    }
}

pub open spec fn cold_sum(es: Seq<ExpertLocation>, layers: Seq<u32>, top_k: u32) -> int
    decreases layers.len(),
{
    if layers.len() == 0 {
        0
    } else {
        cold_sum(es, layers.drop_last(), top_k) + layer_cold_bytes(es, layers.last(), top_k)
    }
}

/// Some layer's cold bytes exceed what a `u64` counts.
pub open spec fn some_layer_overflows(es: Seq<ExpertLocation>, top_k: u32) -> bool {
    exists|j: int| 0 <= j < distinct_layers(es).len() && #[trigger] layer_cold_bytes(es, distinct_layers(es)[j], top_k) > u64::MAX
}

/// One row of the per-layer table: a layer, its saturated bytes and count.
struct LayerTally {
    layer: u32,
    bytes: u64,
    count: u64,
}

proof fn lemma_layer_count_of_member(es: Seq<ExpertLocation>, layer: u32)
    ensures
        distinct_layers(es).contains(layer) <==> layer_count(es, layer) > 0,
        forall|j: int, k: int| 0 <= j < k < distinct_layers(es).len() ==> distinct_layers(es)[j] != distinct_layers(es)[k],
        layer_count(es, layer) <= es.len(),
    decreases es.len(),
{
    if es.len() > 0 {
        lemma_layer_count_of_member(es.drop_last(), layer);
        let d = distinct_layers(es.drop_last());
        if !d.contains(es.last().layer) {
            assert forall|j: int, k: int| 0 <= j < k < d.push(es.last().layer).len() implies d.push(es.last().layer)[j]
                != d.push(es.last().layer)[k] by {
                if k == d.len() {
                    assert(d[j] != es.last().layer);
                }
            }
            if layer == es.last().layer {
                assert(d.push(es.last().layer)[d.len() as int] == layer);
            } else {
                if d.push(es.last().layer).contains(layer) {
                    let j = choose|j: int| 0 <= j < d.push(es.last().layer).len() && d.push(es.last().layer)[j] == layer;
                    assert(d[j] == layer);
                }
                if d.contains(layer) {
                    let j = choose|j: int| 0 <= j < d.len() && d[j] == layer;
                    assert(d.push(es.last().layer)[j] == layer);
                }
            }
        }
    }
}

fn find_tally(t: &Vec<LayerTally>, layer: u32) -> (r: Option<usize>)
    ensures
        r matches Some(i) ==> i < t@.len() && t@[i as int].layer == layer,
        r is None ==> forall|i: int| 0 <= i < t@.len() ==> t@[i].layer != layer,
{
    let mut i: usize = 0;
    while i < t.len()
        invariant
            i <= t@.len(),
            forall|k: int| 0 <= k < i ==> t@[k].layer != layer,
        decreases t@.len() - i,
    {
        if t[i].layer == layer {
            return Some(i);
        }
        i += 1;
    }
    None
}

/// The cold expert bytes one decoded token reads from storage: for every
/// layer in the expert index, `top_k` experts of the layer's average size.
pub fn cold_expert_bytes(experts: &Vec<ExpertLocation>, top_k: u32) -> (r: Result<u64, PerformanceError>)
    requires
        forall|i: int| 0 <= i < experts@.len() ==> segments_bytes(#[trigger] experts@[i].segments@) <= u64::MAX,
    ensures
        r is Err <==> some_layer_overflows(experts@, top_k)
            || cold_sum(experts@, distinct_layers(experts@), top_k) > u64::MAX,
        r matches Ok(n) ==> n == cold_sum(experts@, distinct_layers(experts@), top_k),
        r matches Err(e) ==> e is Overflow,
{
    let mut table: Vec<LayerTally> = Vec::new();
    let mut i: usize = 0;
    while i < experts.len()
        invariant
            i <= experts@.len(),
            forall|k: int| 0 <= k < experts@.len() ==> segments_bytes(#[trigger] experts@[k].segments@) <= u64::MAX,
            table@.len() == distinct_layers(experts@.take(i as int)).len(),
            forall|j: int| 0 <= j < table@.len() ==> {
                let l = (#[trigger] table@[j]).layer;
                &&& l == distinct_layers(experts@.take(i as int))[j]
                &&& table@[j].bytes == saturated(layer_bytes(experts@.take(i as int), l))
                &&& table@[j].count == layer_count(experts@.take(i as int), l)
            },
        decreases experts@.len() - i,
    {
        let ghost pre = experts@.take(i as int);
        let ghost post = experts@.take(i + 1);
        assert(post.drop_last() =~= pre);
        let e = &experts[i];
        let b = e.byte_len();
        proof {
            lemma_layer_count_of_member(pre, e.layer);
            assert forall|l: u32| #![auto] layer_bytes(post, l) == layer_bytes(pre, l) + if l == e.layer { b as nat } else { 0 }
                && layer_count(post, l) == layer_count(pre, l) + if l == e.layer { 1nat } else { 0nat } by {}
        }
        match find_tally(&table, e.layer) {
            Some(j) => {
                proof {
                    assert(distinct_layers(pre)[j as int] == e.layer);
                    assert(distinct_layers(pre).contains(e.layer));
                    assert(distinct_layers(post) == distinct_layers(pre));
                    assert(layer_count(pre, e.layer) <= i);
                }
                let row = LayerTally {
                    layer: e.layer,
                    bytes: table[j].bytes.saturating_add(b),
                    count: table[j].count + 1,
                };
                let ghost old_table = table@;
                table.set(j, row);
                proof {
                    assert forall|k: int| 0 <= k < table@.len() implies {
                        let l = (#[trigger] table@[k]).layer;
                        &&& l == distinct_layers(post)[k]
                        &&& table@[k].bytes == saturated(layer_bytes(post, l))
                        &&& table@[k].count == layer_count(post, l)
                    } by {
                        lemma_layer_count_of_member(pre, e.layer);
                        if k != j {
                            assert(table@[k] == old_table[k]);
                            assert(distinct_layers(pre)[k] != distinct_layers(pre)[j as int]);
                        }
                    }
                }
            },
            None => {
                proof {
                    assert(!distinct_layers(pre).contains(e.layer)) by {
                        if distinct_layers(pre).contains(e.layer) {
                            let k = choose|k: int| 0 <= k < distinct_layers(pre).len() && distinct_layers(pre)[k] == e.layer;
                            assert(table@[k].layer == e.layer);
                        }
                    }
                    assert(distinct_layers(post) == distinct_layers(pre).push(e.layer));
                    assert(layer_count(pre, e.layer) == 0) by {
                        lemma_layer_count_of_member(pre, e.layer);
                    }
                    assert(layer_bytes(pre, e.layer) == 0) by {
                        lemma_zero_count_zero_bytes(pre, e.layer);
                    }
                }
                let ghost old_table = table@;
                table.push(LayerTally { layer: e.layer, bytes: b, count: 1 });
                proof {
                    assert forall|k: int| 0 <= k < table@.len() implies {
                        let l = (#[trigger] table@[k]).layer;
                        &&& l == distinct_layers(post)[k]
                        &&& table@[k].bytes == saturated(layer_bytes(post, l))
                        &&& table@[k].count == layer_count(post, l)
                    } by {
                        if k < old_table.len() {
                            assert(table@[k] == old_table[k]);
                            assert(old_table[k].layer != e.layer);
                        }
                    }
                }
            },
        }
        i += 1;
    }
    assert(experts@.take(i as int) =~= experts@);
    let ghost d = distinct_layers(experts@);
    let mut total: u64 = 0;
    let mut j: usize = 0;
    while j < table.len()
        invariant
            j <= table@.len(),
            table@.len() == d.len(),
            d == distinct_layers(experts@),
            forall|k: int| 0 <= k < table@.len() ==> {
                let l = (#[trigger] table@[k]).layer;
                &&& l == d[k]
                &&& table@[k].bytes == saturated(layer_bytes(experts@, l))
                &&& table@[k].count == layer_count(experts@, l)
            },
            forall|k: int| 0 <= k < j ==> layer_cold_bytes(experts@, #[trigger] d[k], top_k) <= u64::MAX,
            total == cold_sum(experts@, d.take(j as int), top_k),
        decreases table@.len() - j,
    {
        let row = &table[j];
        proof {
            assert(d.take(j + 1).drop_last() =~= d.take(j as int));
            lemma_layer_count_of_member(experts@, row.layer);
            assert(d.contains(row.layer)) by {
                assert(d[j as int] == row.layer);
            }
        }
        let average = row.bytes / row.count;
        let term = match average.checked_mul(top_k as u64) {
            Some(t) => t,
            None => {
                proof {
                    assert(layer_cold_bytes(experts@, d[j as int], top_k) > u64::MAX);
                    assert(some_layer_overflows(experts@, top_k));
                }
                return Err(PerformanceError::Overflow);
            },
        };
        total = match total.checked_add(term) {
            Some(t) => t,
            None => {
                proof {
                    lemma_cold_sum_prefix(experts@, d, top_k, j + 1);
                }
                return Err(PerformanceError::Overflow);
            },
        };
        j += 1;
    }
    assert(d.take(j as int) =~= d);
    proof {
        assert(!some_layer_overflows(experts@, top_k)) by {
            if some_layer_overflows(experts@, top_k) {
                let k = choose|k: int| 0 <= k < d.len() && #[trigger] layer_cold_bytes(experts@, d[k], top_k) > u64::MAX;
                assert(layer_cold_bytes(experts@, d[k], top_k) <= u64::MAX);
            }
        }
    }
    Ok(total)
}

proof fn lemma_zero_count_zero_bytes(es: Seq<ExpertLocation>, layer: u32)
    requires
        layer_count(es, layer) == 0,
    ensures
        layer_bytes(es, layer) == 0,
    decreases es.len(),
{
    if es.len() > 0 {
        lemma_zero_count_zero_bytes(es.drop_last(), layer);
    }
}

proof fn lemma_cold_sum_prefix(es: Seq<ExpertLocation>, d: Seq<u32>, top_k: u32, j: int)
    requires
        0 <= j <= d.len(),
    ensures
        cold_sum(es, d.take(j), top_k) <= cold_sum(es, d, top_k),
    decreases d.len() - j,
{
    if j < d.len() {
        if layer_count(es, d[j]) > 0 {
            let a: nat = saturated(layer_bytes(es, d[j])) / layer_count(es, d[j]);
            assert(a as int * top_k >= 0) by (nonlinear_arith)
                requires
                    a >= 0,
                    top_k >= 0,
            ;
        }
        lemma_cold_sum_prefix(es, d, top_k, j + 1);
        assert(d.take(j + 1).drop_last() =~= d.take(j));
    } else {
        assert(d.take(j) =~= d);
    }
}

/// Bytes one decode step reads from the dense tensors (see `decode_dense_bytes`).
pub open spec fn dense_decode_spec(m: RuntimeManifest) -> int {
    if m.storage.dense_tensors@.len() == 0 {
        m.dense_bytes as int
    } else {
        decode_total(m.storage.dense_tensors@, m.architecture.family, m.architecture.hidden_size)
    }
}

/// The cold expert bytes of one token (see `cold_expert_bytes`).
pub open spec fn cold_spec(m: RuntimeManifest) -> int {
    cold_sum(m.storage.experts@, distinct_layers(m.storage.experts@), m.architecture.experts_per_token)
}

/// The storage bytes an estimate is built on.
#[derive(Debug, Clone, Copy, PartialEq, Eq, Structural)]
pub struct IoBytes {
    /// Dense bytes one forward pass reads.
    pub dense_bytes_per_forward: u64,
    /// Dense bytes read from storage: none when the whole decode set fits
    /// the dense cache (a cyclic scan larger than the cache gets no reuse).
    pub dense_storage_bytes_per_forward: u64,
    /// Expert bytes one token reads when nothing is cached.
    pub cold_expert_bytes_per_token: u64,
    /// Dense plus cold expert bytes of one token.
    pub cold_storage_bytes_per_token: u64,
}

/// The integer part of a storage-bandwidth estimate for `manifest`.
pub fn io_bytes(manifest: &RuntimeManifest, verification_positions: u64, storage_bandwidth_bytes_per_second: u64, dense_cache_bytes: u64) -> (r: Result<IoBytes, PerformanceError>)
    requires
        forall|i: int| 0 <= i < manifest.storage.experts@.len() ==> segments_bytes(#[trigger] manifest.storage.experts@[i].segments@) <= u64::MAX,
    ensures
        verification_positions == 0 || storage_bandwidth_bytes_per_second == 0 ==> r == Err::<IoBytes, PerformanceError>(PerformanceError::InvalidInput),
        verification_positions > 0 && storage_bandwidth_bytes_per_second > 0 ==> (r is Ok <==> dense_decode_spec(*manifest) <= u64::MAX
            && !some_layer_overflows(manifest.storage.experts@, manifest.architecture.experts_per_token)
            && dense_decode_spec(*manifest) + cold_spec(*manifest) <= u64::MAX),
        verification_positions > 0 && storage_bandwidth_bytes_per_second > 0 ==> (r matches Err(e) ==> e is Overflow),
        r matches Ok(b) ==> b.dense_bytes_per_forward == dense_decode_spec(*manifest)
            && b.dense_storage_bytes_per_forward == (if dense_cache_bytes >= b.dense_bytes_per_forward { 0 } else { b.dense_bytes_per_forward })
            && b.cold_expert_bytes_per_token == cold_spec(*manifest)
            && b.cold_storage_bytes_per_token == b.dense_bytes_per_forward + b.cold_expert_bytes_per_token,
{
    if verification_positions == 0 || storage_bandwidth_bytes_per_second == 0 {
        return Err(PerformanceError::InvalidInput);
    }
    let dense = decode_dense_bytes(manifest)?;
    let dense_storage = if dense_cache_bytes >= dense { 0 } else { dense };
    let cold = match cold_expert_bytes(&manifest.storage.experts, manifest.architecture.experts_per_token) {
        Ok(c) => c,
        Err(e) => {
            proof {
                lemma_cold_sum_prefix(manifest.storage.experts@, distinct_layers(manifest.storage.experts@),
                    manifest.architecture.experts_per_token, 0);
                assert(distinct_layers(manifest.storage.experts@).take(0) =~= Seq::<u32>::empty());
            }
            return Err(e);
        },
    };
    let per_token = match dense.checked_add(cold) {
        Some(t) => t,
        None => return Err(PerformanceError::Overflow),
    };
    Ok(IoBytes {
        dense_bytes_per_forward: dense,
        dense_storage_bytes_per_forward: dense_storage,
        cold_expert_bytes_per_token: cold,
        cold_storage_bytes_per_token: per_token,
    })
}

/// Storage bytes per emitted token when every one of `verification_positions`
/// positions yields a token: the forward pass's dense and expert storage
/// bytes, divided among the positions, rounded up.
pub fn bytes_per_emitted_token(dense_storage: u64, expert_storage: u64, verification_positions: u64) -> (r: Result<u64, PerformanceError>)
    requires
        verification_positions > 0,
    ensures
        r is Err <==> dense_storage + expert_storage > u64::MAX,
        r matches Err(e) ==> e is Overflow,
        r matches Ok(n) ==> n == (dense_storage + expert_storage + verification_positions - 1) / (verification_positions as int),
{
    let total = match dense_storage.checked_add(expert_storage) {
        Some(t) => t,
        None => return Err(PerformanceError::Overflow),
    };
    let q = total / verification_positions;
    if total % verification_positions == 0 {
        assert(q == (total + verification_positions - 1) / (verification_positions as int)) by (nonlinear_arith)
            requires
                verification_positions > 0,
                q == total / verification_positions,
                total % verification_positions == 0,
        ;
        Ok(q)
    } else {
        assert(q + 1 == (total + verification_positions - 1) / (verification_positions as int)) by (nonlinear_arith)
            requires
                verification_positions > 0,
                q == total / verification_positions,
                total % verification_positions != 0,
        ;
        assert(q + 1 <= u64::MAX) by (nonlinear_arith)
            requires
                verification_positions > 0,
                q == total / verification_positions,
                total % verification_positions != 0,
                total <= u64::MAX,
        ;
        Ok(q + 1)
    }
}

} // verus!
