//! Binding the gated-MLP projections of one routed expert, and the shape
//! rules that router inputs must meet before any score is computed.
use vstd::prelude::*;
use crate::manifest::{ExpertLocation, RouterContract, TensorSegment};
use crate::text::{
    ascii_lower, ascii_lower_chars, chars_of, seq_contains, seq_contains_exec, seq_ends_with,
    vec_ends_with, vec_eq, string_of,
};

verus! {

#[derive(Debug)]
pub enum MoeMathError {
    Shape(String),
    Router(String),
    Weight(String),
    Execution(String),
}

/// Router logits of `experts` experts can be routed `top_k` at a time under
/// `contract`: at least one expert and one selection, no more selections than
/// experts, a non-empty group selection within the groups, and whole groups.
pub open spec fn router_logits_shape_ok(experts: int, top_k: int, contract: RouterContract) -> bool {
    &&& experts > 0
    &&& top_k > 0
    &&& top_k <= experts
    &&& contract.groups > 0
    &&& contract.selected_groups > 0
    &&& contract.selected_groups <= contract.groups
    &&& experts % (contract.groups as int) == 0
}

/// Checks router logits and the correction bias against the router contract
/// before scores are computed.
pub fn check_router_logits(experts: usize, top_k: usize, contract: &RouterContract, bias_len: Option<usize>) -> (r: Result<(), MoeMathError>)
    ensures
        !router_logits_shape_ok(experts as int, top_k as int, *contract) ==> (r matches Err(MoeMathError::Shape(m))
            && m@ == "router logits and group dimensions are inconsistent"@),
        router_logits_shape_ok(experts as int, top_k as int, *contract) && contract.correction_bias
            && bias_len != Some(experts) ==> (r matches Err(MoeMathError::Shape(m))
            && m@ == "correction-bias router requires one bias per expert"@),
        router_logits_shape_ok(experts as int, top_k as int, *contract) && !(contract.correction_bias
            && bias_len != Some(experts)) ==> r is Ok,
{
    if experts == 0 || top_k == 0 || top_k > experts || contract.groups == 0 || contract.selected_groups == 0
        || contract.selected_groups > contract.groups || experts % (contract.groups as usize) != 0
    {
        return Err(MoeMathError::Shape(string_of("router logits and group dimensions are inconsistent")));
    }
    let bias_matches = match bias_len {
        Some(n) => n == experts,
        None => false,
    };
    if contract.correction_bias && !bias_matches {
        return Err(MoeMathError::Shape(string_of("correction-bias router requires one bias per expert")));
    }
    Ok(())
}

/// Checks a router's hidden state and gate matrix: a non-empty hidden state,
/// at least one expert, and one gate row of the hidden width per expert.
pub fn check_router_inputs(hidden_len: usize, gate_len: usize, experts: usize) -> (r: Result<(), MoeMathError>)
    ensures
        r is Ok <==> hidden_len > 0 && experts > 0 && gate_len == experts * hidden_len,
        r matches Err(MoeMathError::Shape(m)) ==> m@ == "router dimensions are inconsistent"@,
        r is Err ==> r matches Err(MoeMathError::Shape(_)),
{
    let product = experts.checked_mul(hidden_len);
    let ok = match product {
        Some(p) => hidden_len > 0 && experts > 0 && gate_len == p,
        None => false,
    };
    if !ok {
        return Err(MoeMathError::Shape(string_of("router dimensions are inconsistent")));
    }
    Ok(())
}

/// The projection matrices of a gated expert: gate and up (separate or
/// fused) and down.
pub struct GatedExpertBinding<'a> {
    pub gate: Option<&'a TensorSegment>,
    pub up: Option<&'a TensorSegment>,
    pub fused_gate_up: Option<&'a TensorSegment>,
    pub down: &'a TensorSegment,
}

#[derive(Debug, Clone, Copy, PartialEq, Eq, Structural)]
pub enum Role {
    FusedGateUp,
    Gate,
    Up,
    Down,
}

/// The characters after the last `.` (the whole name when it has none).
pub open spec fn dot_tail(n: Seq<char>) -> Seq<char>
    decreases n.len(),
{
    if n.len() == 0 {
        n
    } else if n.last() == '.' {
        Seq::empty()
    } else {
        dot_tail(n.drop_last()).push(n.last())
    }
}

/// The projection a lowercase tensor name denotes, if any. Quantisation
/// metadata (scales, zero points, logical shapes) denotes none.
pub open spec fn role_of(n: Seq<char>) -> Option<Role> {
    let tail = dot_tail(n);
    if seq_contains(n, "scale"@) || seq_contains(n, "zero_point"@) || seq_contains(n, "weight_shape"@) {
        None
    } else if seq_contains(n, "gate_up_proj"@) || seq_contains(n, "gate_up.weight"@) {
        Some(Role::FusedGateUp)
    } else if seq_contains(n, "gate_proj"@) || tail == "w1"@ || seq_ends_with(n, ".w1.weight"@) {
        Some(Role::Gate)
    } else if seq_contains(n, "up_proj"@) || tail == "w3"@ || tail == "v1"@
        || seq_ends_with(n, ".w3.weight"@) || seq_ends_with(n, ".v1.weight"@) {
        Some(Role::Up)
    } else if seq_contains(n, "down_proj"@) || tail == "w2"@ || seq_ends_with(n, ".w2.weight"@) {
        Some(Role::Down)
    } else {
        None
    }
}

pub open spec fn segment_role(s: TensorSegment) -> Option<Role> {
    role_of(ascii_lower(s.tensor@))
}

/// How many of `segs` denote `r`.
pub open spec fn role_count(segs: Seq<TensorSegment>, r: Role) -> nat
    decreases segs.len(),
{
    if segs.len() == 0 {
        0
    } else {
        role_count(segs.drop_last(), r) + if segment_role(segs.last()) == Some(r) { 1nat } else { 0nat }
    }
}

/// The expert has one down projection and either one fused gate/up
/// projection or one separate gate and one separate up projection.
pub open spec fn binding_ok(segs: Seq<TensorSegment>) -> bool {
    let f = role_count(segs, Role::FusedGateUp);
    let g = role_count(segs, Role::Gate);
    let u = role_count(segs, Role::Up);
    let d = role_count(segs, Role::Down);
    f <= 1 && g <= 1 && u <= 1 && d == 1 && ((f == 1 && g == 0 && u == 0) || (f == 0 && g == 1 && u == 1))
}

/// `t` is the segment of `segs` that denotes `r`.
pub open spec fn bound_to(segs: Seq<TensorSegment>, r: Role, t: TensorSegment) -> bool {
    exists|i: int| 0 <= i < segs.len() && segs[i] == t && segment_role(segs[i]) == Some(r)
}

pub open spec fn slot_ok(segs: Seq<TensorSegment>, r: Role, slot: Option<&TensorSegment>) -> bool {
    match slot {
        Some(t) => bound_to(segs, r, *t),
        None => role_count(segs, r) == 0,
    }
}

proof fn lemma_count_positive(s: Seq<TensorSegment>, r: Role, t: TensorSegment)
    requires
        bound_to(s, r, t),
    ensures
        role_count(s, r) >= 1,
    decreases s.len(),
{
    let k = choose|k: int| 0 <= k < s.len() && s[k] == t && segment_role(s[k]) == Some(r);
    if k < s.len() - 1 {
        assert(s.drop_last()[k] == s[k]);
        lemma_count_positive(s.drop_last(), r, t);
    }
}

proof fn lemma_count_prefix(s: Seq<TensorSegment>, j: int, r: Role)
    requires
        0 <= j <= s.len(),
    ensures
        role_count(s.take(j), r) <= role_count(s, r),
    decreases s.len(),
{
    if j == s.len() {
        assert(s.take(j) =~= s);
    } else {
        lemma_count_prefix(s.drop_last(), j, r);
        assert(s.drop_last().take(j) =~= s.take(j));
    }
}

fn tail_after_dot(n: &Vec<char>) -> (t: Vec<char>)
    ensures
        t@ == dot_tail(n@),
{
    let mut start: usize = n.len();
    assert(n@.take(start as int) =~= n@);
    assert(n@.subrange(start as int, n@.len() as int) =~= Seq::<char>::empty());
    while start > 0 && n[start - 1] != '.'
        invariant
            start <= n@.len(),
            dot_tail(n@) == dot_tail(n@.take(start as int)) + n@.subrange(start as int, n@.len() as int),
        decreases start,
    {
        let ghost p = n@.take(start as int);
        assert(p.drop_last() =~= n@.take(start - 1));
        assert(dot_tail(p) == dot_tail(n@.take(start - 1)).push(n@[start - 1]));
        assert(n@.subrange(start - 1, n@.len() as int) =~= seq![n@[start - 1]] + n@.subrange(start as int, n@.len() as int));
        start -= 1;
    }
    proof {
        if start > 0 {
            assert(n@.take(start as int).last() == '.');
        } else {
            assert(n@.take(0) =~= Seq::<char>::empty());
        }
    }
    let mut t: Vec<char> = Vec::new();
    let mut i: usize = start;
    while i < n.len()
        invariant
            start <= i <= n@.len(),
            t@ == n@.subrange(start as int, i as int),
        decreases n@.len() - i,
    {
        t.push(n[i]);
        assert(n@.subrange(start as int, i + 1) =~= n@.subrange(start as int, i as int).push(n@[i as int]));
        i += 1;
    }
    assert(dot_tail(n@.take(start as int)) =~= Seq::<char>::empty());
    t
}

fn has(n: &Vec<char>, lit: &str) -> (b: bool)
    ensures
        b == seq_contains(n@, lit@),
{
    let p = chars_of(lit);
    seq_contains_exec(n, &p)
}

fn ends(n: &Vec<char>, lit: &str) -> (b: bool)
    ensures
        b == seq_ends_with(n@, lit@),
{
    let p = chars_of(lit);
    vec_ends_with(n, &p)
}

fn is(t: &Vec<char>, lit: &str) -> (b: bool)
    ensures
        b == (t@ == lit@),
{
    let p = chars_of(lit);
    vec_eq(t, &p)
}

fn role_of_name(name: &str) -> (r: Option<Role>)
    ensures
        r == role_of(ascii_lower(name@)),
{
    let n = ascii_lower_chars(name);
    let tail = tail_after_dot(&n);
    if has(&n, "scale") || has(&n, "zero_point") || has(&n, "weight_shape") {
        None
    } else if has(&n, "gate_up_proj") || has(&n, "gate_up.weight") {
        Some(Role::FusedGateUp)
    } else if has(&n, "gate_proj") || is(&tail, "w1") || ends(&n, ".w1.weight") {
        Some(Role::Gate)
    } else if has(&n, "up_proj") || is(&tail, "w3") || is(&tail, "v1") || ends(&n, ".w3.weight")
        || ends(&n, ".v1.weight") {
        Some(Role::Up)
    } else if has(&n, "down_proj") || is(&tail, "w2") || ends(&n, ".w2.weight") {
        Some(Role::Down)
    } else {
        None
    }
}

fn weight_error(message: &str) -> (e: MoeMathError)
    ensures
        e matches MoeMathError::Weight(m) && m@ == message@,
{
    MoeMathError::Weight(string_of(message))
}

/// Resolves the projection matrices of the common gated-MLP layouts:
/// gate/up/down, Mixtral w1/w3/w2 and DBRX w1/v1/w2. Quantisation metadata is
/// never taken for a matrix.
pub fn bind_gated_expert<'a>(location: &'a ExpertLocation) -> (r: Result<GatedExpertBinding<'a>, MoeMathError>)
    ensures
        r is Ok <==> binding_ok(location.segments@),
        match r {
            Ok(b) => slot_ok(location.segments@, Role::Gate, b.gate)
                && slot_ok(location.segments@, Role::Up, b.up)
                && slot_ok(location.segments@, Role::FusedGateUp, b.fused_gate_up)
                && bound_to(location.segments@, Role::Down, *b.down),
            Err(e) => e is Weight,
        },
{
    let segs = &location.segments;
    let mut gate: Option<&'a TensorSegment> = None;
    let mut up: Option<&'a TensorSegment> = None;
    let mut fused: Option<&'a TensorSegment> = None;
    let mut down: Option<&'a TensorSegment> = None;
    let mut i: usize = 0;
    while i < segs.len()
        invariant
            i <= segs@.len(),
            segs == &location.segments,
            role_count(segs@.take(i as int), Role::Gate) <= 1,
            role_count(segs@.take(i as int), Role::Up) <= 1,
            role_count(segs@.take(i as int), Role::FusedGateUp) <= 1,
            role_count(segs@.take(i as int), Role::Down) <= 1,
            slot_ok(segs@.take(i as int), Role::Gate, gate),
            slot_ok(segs@.take(i as int), Role::Up, up),
            slot_ok(segs@.take(i as int), Role::FusedGateUp, fused),
            slot_ok(segs@.take(i as int), Role::Down, down),
        decreases segs@.len() - i,
    {
        let ghost before = segs@.take(i as int);
        let ghost after = segs@.take(i + 1);
        assert(after.drop_last() =~= before);
        assert(after.last() == segs@[i as int]);
        let role = role_of_name(segs[i].tensor.as_str());
        let seg: &'a TensorSegment = &segs[i];
        proof {
            assert forall|r: Role, t: TensorSegment| bound_to(before, r, t) implies bound_to(after, r, t) by {
                let k = choose|k: int| 0 <= k < before.len() && before[k] == t && segment_role(before[k]) == Some(r);
                assert(after[k] == before[k]);
            }
            assert(segment_role(after[i as int]) == role);
        }
        proof {
            lemma_count_prefix(segs@, i + 1, Role::FusedGateUp);
            lemma_count_prefix(segs@, i + 1, Role::Gate);
            lemma_count_prefix(segs@, i + 1, Role::Up);
            lemma_count_prefix(segs@, i + 1, Role::Down);
            match fused { Some(t) => lemma_count_positive(before, Role::FusedGateUp, *t), None => {} }
            match gate { Some(t) => lemma_count_positive(before, Role::Gate, *t), None => {} }
            match up { Some(t) => lemma_count_positive(before, Role::Up, *t), None => {} }
            match down { Some(t) => lemma_count_positive(before, Role::Down, *t), None => {} }
        }
        match role {
            Some(Role::FusedGateUp) => {
                if fused.is_some() {
                    return Err(weight_error("expert has duplicate fused gate/up matrices"));
                }
                fused = Some(seg);
            },
            Some(Role::Gate) => {
                if gate.is_some() {
                    return Err(weight_error("expert has duplicate gate/w1 matrices"));
                }
                gate = Some(seg);
            },
            Some(Role::Up) => {
                if up.is_some() {
                    return Err(weight_error("expert has duplicate up/w3/v1 matrices"));
                }
                up = Some(seg);
            },
            Some(Role::Down) => {
                if down.is_some() {
                    return Err(weight_error("expert has duplicate down/w2 matrices"));
                }
                down = Some(seg);
            },
            None => {},
        }
        i += 1;
    }
    assert(segs@.take(segs@.len() as int) =~= segs@);
    proof {
        match fused { Some(t) => lemma_count_positive(segs@, Role::FusedGateUp, *t), None => {} }
        match gate { Some(t) => lemma_count_positive(segs@, Role::Gate, *t), None => {} }
        match up { Some(t) => lemma_count_positive(segs@, Role::Up, *t), None => {} }
        match down { Some(t) => lemma_count_positive(segs@, Role::Down, *t), None => {} }
    }
    let down = match down {
        Some(d) => d,
        None => return Err(weight_error("expert is missing down/w2")),
    };
    if fused.is_some() == (gate.is_some() || up.is_some()) {
        return Err(weight_error("expert must contain either fused gate/up or separate gate and up projections"));
    }
    if fused.is_none() && (gate.is_none() || up.is_none()) {
        return Err(weight_error("expert is missing gate or up projection"));
    }
    Ok(GatedExpertBinding { gate, up, fused_gate_up: fused, down })
}

/// One position of a standard (MHA/GQA) attention cache, as single-precision
/// bit patterns: `key` is `[kv_heads, head_dim]`, `value` is
/// `[kv_heads, value_dim]`.
pub struct StandardKvEntry {
    pub key: Vec<u32>,
    pub value: Vec<u32>,
}

/// The BF16 form of a single-precision bit pattern kept by the standard
/// cache: its upper half (truncation).
pub open spec fn bf16_truncated(bits: u32) -> u16 {
    (bits as int / 0x1_0000) as u16
}

struct CompactStandardKvEntry {
    key: Vec<u16>,
    value: Vec<u16>,
}

/// The host standard KV cache: per position, BF16 keys and values.
pub struct StandardKvCache {
    entries: Vec<CompactStandardKvEntry>,
}

/// Keys and values stored at one position.
pub open spec fn position_values(key: Seq<u16>, value: Seq<u16>) -> nat {
    key.len() + value.len()
}

fn truncate_all(values: &Vec<u32>) -> (out: Vec<u16>)
    ensures
        out@ == values@.map_values(|b: u32| bf16_truncated(b)),
{
    let mut out: Vec<u16> = Vec::new();
    let mut i: usize = 0;
    while i < values.len()
        invariant
            i <= values@.len(),
            out@ == values@.take(i as int).map_values(|b: u32| bf16_truncated(b)),
        decreases values@.len() - i,
    {
        let b = values[i];
        let h: u16 = (b >> 16u32) as u16;
        assert((b >> 16u32) == b / 0x1_0000) by (bit_vector);
        out.push(h);
        assert(values@.take(i + 1).map_values(|b: u32| bf16_truncated(b))
            =~= values@.take(i as int).map_values(|b: u32| bf16_truncated(b)).push(bf16_truncated(values@[i as int])));
        i += 1;
    }
    assert(values@.take(values@.len() as int) =~= values@);
    out
}

impl StandardKvCache {
    /// Number of cached positions.
    pub closed spec fn positions(&self) -> nat {
        self.entries@.len()
    }

    /// The BF16 keys cached at position `i`.
    pub closed spec fn key_at(&self, i: int) -> Seq<u16> {
        self.entries@[i].key@
    }

    /// The BF16 values cached at position `i`.
    pub closed spec fn value_at(&self, i: int) -> Seq<u16> {
        self.entries@[i].value@
    }

    /// Total BF16 numbers stored in the first `n` positions.
    pub closed spec fn stored(&self, n: int) -> nat
        decreases n,
    {
        if n <= 0 || n > self.entries@.len() {
            0
        } else {
            self.stored(n - 1) + position_values(self.entries@[n - 1].key@, self.entries@[n - 1].value@)
        }
    }

    pub fn new() -> (c: Self)
        ensures
            c.positions() == 0,
    {
        StandardKvCache { entries: Vec::new() }
    }

    /// Appends one position after checking its dimensions.
    pub fn push(&mut self, entry: StandardKvEntry, kv_heads: usize, head_dim: usize, value_dim: usize) -> (r: Result<(), MoeMathError>)
        ensures
            r is Ok <==> entry.key@.len() == kv_heads * head_dim && entry.value@.len() == kv_heads * value_dim,
            match r {
                Ok(_) => final(self).positions() == old(self).positions() + 1
                    && (forall|i: int| 0 <= i < old(self).positions() ==> final(self).key_at(i) == old(self).key_at(i)
                        && final(self).value_at(i) == old(self).value_at(i))
                    && final(self).key_at(old(self).positions() as int) == entry.key@.map_values(|b: u32| bf16_truncated(b))
                    && final(self).value_at(old(self).positions() as int) == entry.value@.map_values(|b: u32| bf16_truncated(b)),
                Err(e) => (e matches MoeMathError::Shape(m) && m@ == "invalid standard KV entry"@)
                    && final(self).positions() == old(self).positions()
                    && (forall|i: int| 0 <= i < old(self).positions() ==> final(self).key_at(i) == old(self).key_at(i)
                        && final(self).value_at(i) == old(self).value_at(i)),
            },
    {
        let key_ok = match kv_heads.checked_mul(head_dim) {
            Some(n) => entry.key.len() == n,
            None => false,
        };
        let value_ok = match kv_heads.checked_mul(value_dim) {
            Some(n) => entry.value.len() == n,
            None => false,
        };
        if !key_ok || !value_ok {
            assert(entry.key.len() <= usize::MAX && entry.value.len() <= usize::MAX);
            return Err(MoeMathError::Shape(string_of("invalid standard KV entry")));
        }
        let key = truncate_all(&entry.key);
        let value = truncate_all(&entry.value);
        self.entries.push(CompactStandardKvEntry { key, value });
        Ok(())
    }

    pub fn len(&self) -> (n: usize)
        ensures
            n == self.positions(),
    {
        self.entries.len()
    }

    pub fn is_empty(&self) -> (b: bool)
        ensures
            b == (self.positions() == 0),
    {
        self.entries.len() == 0
    }

    /// Bytes held: two per BF16 number.
    pub fn bytes(&self) -> (n: usize)
        requires
            self.stored(self.positions() as int) * 2 <= usize::MAX,
        ensures
            n == self.stored(self.positions() as int) * 2,
    {
        let mut total: usize = 0;
        let mut i: usize = 0;
        while i < self.entries.len()
            invariant
                i <= self.entries@.len(),
                self.stored(self.entries@.len() as int) * 2 <= usize::MAX,
                total == self.stored(i as int) * 2,
            decreases self.entries@.len() - i,
        {
            proof { self.lemma_stored_monotone(i + 1, self.entries@.len() as int); }
            let e = &self.entries[i];
            total = total + (e.key.len() + e.value.len()) * 2;
            i += 1;
        }
        total
    }

    proof fn lemma_stored_monotone(&self, a: int, b: int)
        requires
            0 <= a <= b <= self.entries@.len(),
        ensures
            self.stored(a) <= self.stored(b),
        decreases b - a,
    {
        if a < b {
            self.lemma_stored_monotone(a, b - 1);
        }
    }

    /// Keeps the first `positions` positions.
    pub fn truncate(&mut self, positions: usize)
        ensures
            final(self).positions() == (if positions < old(self).positions() { positions as nat } else { old(self).positions() }),
            forall|i: int| 0 <= i < final(self).positions() ==> final(self).key_at(i) == old(self).key_at(i)
                && final(self).value_at(i) == old(self).value_at(i),
    {
        self.entries.truncate(positions);
    }
}

impl Default for StandardKvCache {
    fn default() -> (c: Self)
        ensures
            c.positions() == 0,
    {
        StandardKvCache::new()
    }
}

} // verus!
