//! Token-generation errors and the deterministic sampler state.
use vstd::prelude::*;
use vstd::string::StrSliceExecFns;
pub use crate::text::common_prefix_bytes;
use crate::text::{chars_of, matches_at, occurs_at, push_decimal, push_str, string_of, decimal};

verus! {

#[derive(Debug)]
pub enum GenerationError {
    Invalid(String),
    Runtime(String),
    Tokenizer(String),
    Cancelled(String),
}

/// Seed used when the caller gives zero (a xorshift state must be non-zero).
pub const DEFAULT_SEED: u64 = 0x9e37_79b9_7f4a_7c15;

/// One xorshift64 step (shifts 13, 7, 17).
pub open spec fn xorshift_step(x: u64) -> u64 {
    let a = x ^ ((x << 13u64) as u64);
    let b = a ^ (a >> 7u64);
    b ^ ((b << 17u64) as u64)
}

/// A xorshift64 step never reaches zero from a non-zero state, so the
/// sampler never gets stuck.
pub proof fn lemma_xorshift_nonzero(x: u64)
    ensures
        x != 0 ==> xorshift_step(x) != 0,
{
    assert(x != 0 ==> xorshift_step(x) != 0) by (bit_vector);
}

/// The sampler's xorshift64 random state; it is never zero.
pub struct XorShift64 {
    state: u64,
}

impl XorShift64 {
    #[verifier::type_invariant]
    spec fn nonzero(&self) -> bool {
        self.state != 0
    }

    pub closed spec fn state_spec(&self) -> u64 {
        self.state
    }

    pub fn new(seed: u64) -> (r: Self)
        ensures
            r.state_spec() == (if seed == 0 { DEFAULT_SEED } else { seed }),
            r.state_spec() != 0,
    {
        XorShift64 { state: if seed == 0 { DEFAULT_SEED } else { seed } }
    }

    /// Advances the state and returns it (never zero).
    pub fn next_raw(&mut self) -> (v: u64)
        ensures
            v == xorshift_step(old(self).state_spec()),
            final(self).state_spec() == v,
            v != 0,
    {
        proof {
            use_type_invariant(&*self);
            lemma_xorshift_nonzero(self.state);
        }
        let mut value = self.state;
        value = value ^ (value << 13u64);
        value = value ^ (value >> 7u64);
        value = value ^ (value << 17u64);
        self.state = value;
        value
    }
}

/// The usable context in tokens: the envelope's effective context (held to
/// what `usize` can count) capped at the model's position limit.
pub open spec fn context_limit(effective_context_tokens: u64, max_positions: usize) -> int {
    let e = if effective_context_tokens > usize::MAX { usize::MAX as int } else { effective_context_tokens as int };
    if e < max_positions { e } else { max_positions as int }
}

pub open spec fn min_int(a: int, b: int) -> int {
    if a < b { a } else { b }
}

fn usable_context(effective_context_tokens: u64, max_positions: usize) -> (c: usize)
    ensures
        c == context_limit(effective_context_tokens, max_positions),
{
    let e: usize = if effective_context_tokens > usize::MAX as u64 {
        usize::MAX
    } else {
        effective_context_tokens as usize
    };
    if e < max_positions { e } else { max_positions }
}

fn empty_prompt_error() -> (e: GenerationError)
    ensures
        e matches GenerationError::Invalid(m) && m@ == "prompt must contain at least one token"@,
{
    GenerationError::Invalid(string_of("prompt must contain at least one token"))
}

/// How many tokens one sampled generation may produce: the request's
/// `max_tokens` within the context left after the prompt.
pub fn generation_budget(prompt_len: usize, max_tokens: usize, effective_context_tokens: u64, max_positions: usize) -> (r: Result<usize, GenerationError>)
    ensures
        prompt_len == 0 ==> (r matches Err(GenerationError::Invalid(m)) && m@ == "prompt must contain at least one token"@),
        prompt_len > 0 && context_limit(effective_context_tokens, max_positions) <= prompt_len ==> (r matches Err(GenerationError::Invalid(m))
            && m@ == "prompt consumes the complete bounded context of "@ + decimal(context_limit(effective_context_tokens, max_positions) as nat) + " tokens"@),
        prompt_len > 0 && context_limit(effective_context_tokens, max_positions) > prompt_len ==> (r matches Ok(n)
            && n == min_int(max_tokens as int, context_limit(effective_context_tokens, max_positions) - prompt_len)),
{
    if prompt_len == 0 {
        return Err(empty_prompt_error());
    }
    let context = usable_context(effective_context_tokens, max_positions);
    if context <= prompt_len {
        let mut m = string_of("prompt consumes the complete bounded context of ");
        push_decimal(&mut m, context as u64);
        push_str(&mut m, " tokens");
        return Err(GenerationError::Invalid(m));
    }
    let available = context - prompt_len;
    Ok(if max_tokens < available { max_tokens } else { available })
}

/// A runtime step that appends `additional` positions to a state at
/// `position` stays within the bounded context.
pub fn check_capacity(position: usize, additional: usize, effective_context_tokens: u64, max_positions: usize) -> (r: Result<(), String>)
    ensures
        r is Ok <==> additional > 0 && position + additional <= context_limit(effective_context_tokens, max_positions),
        r matches Err(m) ==> m@ == "request would exceed bounded context "@
            + decimal(context_limit(effective_context_tokens, max_positions) as nat),
{
    let maximum = usable_context(effective_context_tokens, max_positions);
    if additional == 0 || additional > maximum || position > maximum - additional {
        let mut m = string_of("request would exceed bounded context ");
        push_decimal(&mut m, maximum as u64);
        return Err(m);
    }
    Ok(())
}

/// How a greedy generation with a draft model proceeds.
#[derive(Debug, Clone, Copy, PartialEq, Eq, Structural)]
pub enum SpeculativePlan {
    /// Fewer than two verification positions: decode one token at a time.
    Sequential,
    /// Verify drafts of at most `draft_limit` tokens, up to `maximum` tokens.
    Speculate { maximum: usize, draft_limit: usize },
}

/// The budget of a speculative generation: `maximum` as for a sampled
/// generation, and drafts bounded by the verification positions less one.
pub fn speculative_budget(
    prompt_len: usize,
    max_tokens: usize,
    effective_context_tokens: u64,
    max_positions: usize,
    max_verification_positions: u64,
) -> (r: Result<SpeculativePlan, GenerationError>)
    ensures
        prompt_len == 0 ==> (r matches Err(GenerationError::Invalid(m)) && m@ == "prompt must contain at least one token"@),
        prompt_len > 0 && min_int(max_tokens as int, context_limit(effective_context_tokens, max_positions) - prompt_len) <= 0
            ==> (r matches Err(GenerationError::Invalid(m)) && m@ == "prompt consumes the complete bounded context"@),
        prompt_len > 0 && min_int(max_tokens as int, context_limit(effective_context_tokens, max_positions) - prompt_len) > 0
            ==> (r matches Ok(plan) && (if max_verification_positions < 2 {
                plan == SpeculativePlan::Sequential
            } else {
                plan == SpeculativePlan::Speculate {
                    maximum: min_int(max_tokens as int, context_limit(effective_context_tokens, max_positions) - prompt_len) as usize,
                    draft_limit: (if max_verification_positions > usize::MAX { usize::MAX as int } else { max_verification_positions as int } - 1) as usize,
                }
            })),
{
    if prompt_len == 0 {
        return Err(empty_prompt_error());
    }
    let context = usable_context(effective_context_tokens, max_positions);
    let available: usize = if context > prompt_len { context - prompt_len } else { 0 };
    let maximum = if max_tokens < available { max_tokens } else { available };
    if maximum == 0 {
        return Err(GenerationError::Invalid(string_of("prompt consumes the complete bounded context")));
    }
    let cap: usize = if max_verification_positions > usize::MAX as u64 {
        usize::MAX
    } else {
        max_verification_positions as usize
    };
    if cap < 2 {
        return Ok(SpeculativePlan::Sequential);
    }
    Ok(SpeculativePlan::Speculate { maximum, draft_limit: cap - 1 })
}

/// What a speculative generation does after taking the token in hand.
#[derive(Debug, Clone, Copy, PartialEq, Eq, Structural)]
pub enum SpeculativeAction {
    /// Generation ends: on an end-of-sequence token or a stop string
    /// (`stopped`), or with the token budget used up.
    Finish { stopped: bool },
    /// Ask the draft model for this many tokens and verify them.
    Propose(usize),
}

/// One decision of the speculative loop, made after the token in hand was
/// checked for end of sequence (`current_is_eos`) and, when it was not,
/// emitted (`stop_hit`: its text reached a stop string; `generated`: the
/// tokens emitted so far). Drafts are bounded by what the controller asks
/// for, the tokens left in the budget, and `draft_limit`.
pub fn speculative_step(
    current_is_eos: bool,
    stop_hit: bool,
    generated: usize,
    maximum: usize,
    controller_draft: usize,
    draft_limit: usize,
) -> (a: SpeculativeAction)
    ensures
        current_is_eos || stop_hit ==> a == (SpeculativeAction::Finish { stopped: true }),
        !current_is_eos && !stop_hit && generated >= maximum ==> a == (SpeculativeAction::Finish { stopped: false }),
        !current_is_eos && !stop_hit && generated < maximum ==> a == SpeculativeAction::Propose(
            min_int(min_int(controller_draft as int, maximum - generated), draft_limit as int) as usize,
        ),
{
    if current_is_eos || stop_hit {
        return SpeculativeAction::Finish { stopped: true };
    }
    if generated >= maximum {
        return SpeculativeAction::Finish { stopped: false };
    }
    let remaining = maximum - generated;
    let mut count = if controller_draft < remaining { controller_draft } else { remaining };
    if draft_limit < count {
        count = draft_limit;
    }
    SpeculativeAction::Propose(count)
}

/// What follows the draft model's answer in a speculative generation.
#[derive(Debug, Clone, Copy, PartialEq, Eq, Structural)]
pub enum DraftOutcome {
    /// The draft failed or proposed nothing: decode one token with the
    /// target model alone; the failure is not an error of the generation.
    TargetStep,
    /// Verify the proposed tokens with the target model.
    Verify,
}

/// Draft failures fall back to one target step: a failed or empty proposal
/// is decoded with the target model alone, any other is verified.
pub fn draft_outcome(proposal: &Result<Vec<u32>, crate::draft::DraftError>) -> (o: DraftOutcome)
    ensures
        o == (match proposal {
            Ok(tokens) => if tokens@.len() == 0 { DraftOutcome::TargetStep } else { DraftOutcome::Verify },
            Err(_) => DraftOutcome::TargetStep,
        }),
{
    match proposal {
        Ok(tokens) => if tokens.len() == 0 { DraftOutcome::TargetStep } else { DraftOutcome::Verify },
        Err(_) => DraftOutcome::TargetStep,
    }
}

/// Whether a token the target model emitted during verification is taken:
/// not once the budget is used up, and not an end-of-sequence token, which
/// stops the generation instead.
pub fn verified_token_taken(generated: usize, maximum: usize, is_eos: bool) -> (taken: bool)
    ensures
        taken == (generated < maximum && !is_eos),
{
    generated < maximum && !is_eos
}

/// A non-empty stop string of `stops` starts at position `i` of `s`.
pub open spec fn stop_at(s: Seq<char>, stops: Seq<String>, i: int) -> bool {
    exists|k: int| 0 <= k < stops.len() && stops[k]@.len() > 0 && #[trigger] occurs_at(s, stops[k]@, i)
}

/// `c` is the earliest position at which a non-empty stop string starts.
pub open spec fn is_cut(s: Seq<char>, stops: Seq<String>, c: int) -> bool {
    stop_at(s, stops, c) && forall|j: int| 0 <= j < c ==> !stop_at(s, stops, j)
}

/// The text that may be shown of decoded text `s`: everything before the
/// earliest stop string, or all of `s` when none occurs.
pub open spec fn visible_text(s: Seq<char>, stops: Seq<String>, v: Seq<char>) -> bool {
    ||| (forall|i: int| !stop_at(s, stops, i)) && v == s
    ||| exists|c: int| is_cut(s, stops, c) && v == s.take(c)
}

/// `k` is the length of the longest common prefix of `a` and `b`.
pub open spec fn is_common_prefix_len(a: Seq<char>, b: Seq<char>, k: int) -> bool {
    0 <= k <= a.len() && k <= b.len() && a.take(k) == b.take(k) && (k == a.len() || k == b.len()
        || a[k] != b[k])
}

/// The earliest position of `s` at which a non-empty stop string starts.
pub fn find_stop(s: &Vec<char>, stops: &Vec<String>) -> (r: Option<usize>)
    ensures
        r is None ==> forall|i: int| !stop_at(s@, stops@, i),
        r matches Some(c) ==> is_cut(s@, stops@, c as int),
{
    let mut pats: Vec<Vec<char>> = Vec::new();
    let mut k: usize = 0;
    while k < stops.len()
        invariant
            k <= stops@.len(),
            pats@.len() == k,
            forall|j: int| 0 <= j < k ==> (#[trigger] pats@[j])@ == stops@[j]@,
        decreases stops@.len() - k,
    {
        pats.push(chars_of(stops[k].as_str()));
        k += 1;
    }
    let mut i: usize = 0;
    while i < s.len()
        invariant
            i <= s@.len(),
            pats@.len() == stops@.len(),
            forall|j: int| 0 <= j < stops@.len() ==> (#[trigger] pats@[j])@ == stops@[j]@,
            forall|j: int| 0 <= j < i ==> !stop_at(s@, stops@, j),
        decreases s@.len() - i,
    {
        let mut k: usize = 0;
        while k < pats.len()
            invariant
                i < s@.len(),
                k <= pats@.len(),
                pats@.len() == stops@.len(),
                forall|j: int| 0 <= j < stops@.len() ==> (#[trigger] pats@[j])@ == stops@[j]@,
                forall|j: int| 0 <= j < i ==> !stop_at(s@, stops@, j),
                forall|j: int| 0 <= j < k ==> !(stops@[j]@.len() > 0 && #[trigger] occurs_at(s@, stops@[j]@, i as int)),
            decreases pats@.len() - k,
        {
            if pats[k].len() > 0 && matches_at(s, &pats[k], i) {
                assert(stops@[k as int]@.len() > 0 && occurs_at(s@, stops@[k as int]@, i as int));
                return Some(i);
            }
            k += 1;
        }
        i += 1;
    }
    assert forall|j: int| !stop_at(s@, stops@, j) by {
        if stop_at(s@, stops@, j) {
            let w = choose|w: int| 0 <= w < stops@.len() && stops@[w]@.len() > 0 && #[trigger] occurs_at(s@, stops@[w]@, j);
            assert(0 <= j < s@.len());
        }
    }
    None
}

/// The length of the longest common prefix of `a` and `b`, in characters.
pub fn common_prefix_chars(a: &Vec<char>, b: &Vec<char>) -> (k: usize)
    ensures
        is_common_prefix_len(a@, b@, k as int),
{
    let mut k: usize = 0;
    while k < a.len() && k < b.len() && a[k] == b[k]
        invariant
            k <= a@.len(),
            k <= b@.len(),
            a@.take(k as int) == b@.take(k as int),
        decreases a@.len() - k,
    {
        assert(a@.take(k + 1) =~= a@.take(k as int).push(a@[k as int]));
        assert(b@.take(k + 1) =~= b@.take(k as int).push(b@[k as int]));
        k += 1;
    }
    k
}

/// What one decoding step adds to the stream.
pub struct StreamUpdate {
    /// Text to hand to the listener (possibly empty).
    pub delta: String,
    /// A stop string was reached; generation ends.
    pub stopped: bool,
}

/// Brings the streamed text up to date with freshly decoded text.
///
/// The visible part of `decoded` ends before the earliest non-empty stop
/// string. A byte-level tokenizer may revise an incomplete trailing
/// character, so `emitted` is first cut back to its longest common prefix
/// with the visible text; `delta` is the rest of the visible text. On a
/// stop, `decoded` itself is cut to the visible text.
pub fn stream_decoded(decoded: &mut String, emitted: &mut String, stops: &Vec<String>) -> (u: StreamUpdate)
    ensures
        visible_text(old(decoded)@, stops@, final(decoded)@),
        u.stopped <==> exists|i: int| stop_at(old(decoded)@, stops@, i),
        !u.stopped ==> final(decoded)@ == old(decoded)@,
        forall|i: int| !stop_at(final(decoded)@, stops@, i),
        final(emitted)@ == final(decoded)@,
        exists|k: int| is_common_prefix_len(old(emitted)@, final(decoded)@, k)
            && u.delta@ == final(decoded)@.skip(k),
        old(emitted)@.len() <= final(decoded)@.len() && final(decoded)@.take(old(emitted)@.len() as int)
            == old(emitted)@ ==> old(emitted)@ + u.delta@ == final(decoded)@,
{
    let chars = chars_of(decoded.as_str());
    let cut = find_stop(&chars, stops);
    let visible: String = match cut {
        Some(c) => string_of(decoded.as_str().substring_char(0, c)),
        None => string_of(decoded.as_str()),
    };
    let ghost v = visible@;
    proof {
        match cut {
            Some(c) => {
                assert forall|i: int| !stop_at(v, stops@, i) by {
                    if stop_at(v, stops@, i) {
                        let w = choose|w: int| 0 <= w < stops@.len() && stops@[w]@.len() > 0 && #[trigger] occurs_at(v, stops@[w]@, i);
                        let p = stops@[w]@;
                        assert(v.subrange(i, i + p.len()) =~= chars@.subrange(i, i + p.len()));
                        assert(occurs_at(chars@, p, i));
                        assert(stop_at(chars@, stops@, i));
                    }
                }
            },
            None => {},
        }
    }
    let emitted_chars = chars_of(emitted.as_str());
    let visible_chars = chars_of(visible.as_str());
    let k = common_prefix_chars(&emitted_chars, &visible_chars);
    let delta = string_of(visible.as_str().substring_char(k, visible_chars.len()));
    *emitted = string_of(visible.as_str());
    proof {
        let e = old(emitted)@;
        if e.len() <= v.len() && v.take(e.len() as int) == e {
            if (k as int) < e.len() {
                assert(e[k as int] == v.take(e.len() as int)[k as int]);
            }
            assert(e + delta@ =~= v);
        }
    }
    let stopped = cut.is_some();
    if stopped {
        *decoded = visible;
    }
    StreamUpdate { delta, stopped }
}

} // verus!
