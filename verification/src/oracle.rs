//! Checkpoint-bound correctness gates. An oracle suite holds teacher-forced
//! predictions and selected reference logits that the runtime recomputes
//! before it may serve; this module decides whether a suite is strong
//! enough to be used at all.
use vstd::prelude::*;
use vstd::utf8::encode_utf8;
use crate::manifest::f32_bits_finite;
use crate::text::{
    decimal, push_decimal, push_str,
    byte_len, is_blank, seq_starts_with, str_eq, str_is_blank, str_starts_with, string_of, trim_ws,
    trimmed_byte_len,
};

verus! {

pub const ORACLE_FILE: &'static str = ".sytra-oracle.json";
pub const ORACLE_SCHEMA: u32 = 1;

/// Bit pattern of the single-precision number 0.1.
pub const MAX_ABSOLUTE_TOLERANCE_BITS: u32 = 0x3DCC_CCCD;
/// Bit pattern of the single-precision number 0.05.
pub const MAX_RELATIVE_TOLERANCE_BITS: u32 = 0x3D4C_CCCD;

/// One reference logit. Single-precision values are held by their bit patterns.
#[derive(Debug, Clone, Copy, PartialEq, Eq, Structural)]
pub struct LogitProbe {
    pub token: u32,
    pub expected_bits: u32,
    pub absolute_tolerance_bits: u32,
    pub relative_tolerance_bits: u32,
}

pub struct OracleCase {
    pub name: String,
    pub input_tokens: Vec<u32>,
    pub teacher_forced_predictions: Vec<u32>,
    pub final_logit_probes: Vec<LogitProbe>,
}

pub struct OracleSuite {
    pub schema_version: u32,
    pub adapter: String,
    pub model_fingerprint: String,
    pub reference_implementation: String,
    pub reference_revision: String,
    pub cases: Vec<OracleCase>,
}

#[derive(Debug)]
pub enum OracleError {
    Read { path: String, message: String },
    Json { path: String, message: String },
    Contract(String),
    Identity(String),
    Mismatch { case: String, reason: String },
    Runtime(String),
}

/// A single-precision value, given by its bit pattern, in `[0.0, limit]`
/// where `limit` is the bit pattern of a positive number. Negative zero
/// compares equal to zero and is inside; NaN and negative numbers are not.
pub open spec fn bits_within(bits: u32, limit: u32) -> bool {
    bits <= limit || bits == 0x8000_0000
}

/// A probe on an in-vocabulary token with finite values and tolerances no
/// looser than 0.1 absolute and 0.05 relative.
pub open spec fn probe_ok(p: LogitProbe, vocab_size: usize) -> bool {
    &&& (p.token as int) < vocab_size as int
    &&& f32_bits_finite(p.expected_bits)
    &&& f32_bits_finite(p.absolute_tolerance_bits)
    &&& f32_bits_finite(p.relative_tolerance_bits)
    &&& bits_within(p.absolute_tolerance_bits, MAX_ABSOLUTE_TOLERANCE_BITS)
    &&& bits_within(p.relative_tolerance_bits, MAX_RELATIVE_TOLERANCE_BITS)
}

pub open spec fn tokens_in_vocab(tokens: Seq<u32>, vocab_size: usize) -> bool {
    forall|i: int| 0 <= i < tokens.len() ==> (#[trigger] tokens[i] as int) < vocab_size as int
}

/// A named case with input tokens, one teacher-forced prediction per input,
/// every token inside the vocabulary, and only acceptable probes.
pub open spec fn case_ok(c: OracleCase, vocab_size: usize) -> bool {
    &&& !is_blank(c.name@)
    &&& c.input_tokens@.len() > 0
    &&& c.teacher_forced_predictions@.len() == c.input_tokens@.len()
    &&& tokens_in_vocab(c.input_tokens@, vocab_size)
    &&& tokens_in_vocab(c.teacher_forced_predictions@, vocab_size)
    &&& forall|j: int| 0 <= j < c.final_logit_probes@.len() ==> probe_ok(#[trigger] c.final_logit_probes@[j], vocab_size)
}

impl OracleSuite {
    /// Everything `validate` accepts: the current schema, the expected adapter,
    /// a 64-byte fingerprint, a named reference implementation and a revision
    /// of at least seven bytes, two or more acceptable cases, some reference
    /// logits and some multi-position teacher forcing.
    pub open spec fn suite_ok(&self, adapter: Seq<char>, vocab_size: usize) -> bool {
        let cs = self.cases@;
        &&& self.schema_version == ORACLE_SCHEMA
        &&& self.adapter@ == adapter
        &&& encode_utf8(self.model_fingerprint@).len() as usize == 64
        &&& (seq_starts_with(self.reference_implementation@, "transformers@"@)
            || seq_starts_with(self.reference_implementation@, "vllm@"@))
        &&& encode_utf8(trim_ws(self.reference_revision@)).len() as usize >= 7
        &&& cs.len() >= 2
        &&& forall|i: int| 0 <= i < cs.len() ==> case_ok(#[trigger] cs[i], vocab_size)
        &&& exists|i: int| 0 <= i < cs.len() && (#[trigger] cs[i]).final_logit_probes@.len() > 0
        &&& exists|i: int| 0 <= i < cs.len() && (#[trigger] cs[i]).teacher_forced_predictions@.len() >= 2
    }

    /// The suite names `adapter` and carries a 64-byte fingerprint.
    pub open spec fn identity_ok(&self, adapter: Seq<char>) -> bool {
        self.adapter@ == adapter && encode_utf8(self.model_fingerprint@).len() as usize == 64
    }

    /// The suite names its reference implementation and a source revision.
    pub open spec fn reference_ok(&self) -> bool {
        &&& (seq_starts_with(self.reference_implementation@, "transformers@"@)
            || seq_starts_with(self.reference_implementation@, "vllm@"@))
        &&& encode_utf8(trim_ws(self.reference_revision@)).len() as usize >= 7
    }

    /// Decides whether the suite can gate serving for `adapter` over a
    /// vocabulary of `vocab_size` tokens.
    pub fn validate(&self, adapter: &str, vocab_size: usize) -> (r: Result<(), OracleError>)
        ensures
            r is Ok <==> self.suite_ok(adapter@, vocab_size),
            r matches Err(e) ==> e is Contract,
            self.schema_version != ORACLE_SCHEMA ==> (r matches Err(OracleError::Contract(m))
                && m@ == "schema "@ + decimal(self.schema_version as nat) + " is unsupported"@),
            self.schema_version == ORACLE_SCHEMA && !self.identity_ok(adapter@) ==> (r matches Err(
                OracleError::Contract(m)) && m@ == "adapter or SHA-256 model fingerprint is invalid"@),
            self.schema_version == ORACLE_SCHEMA && self.identity_ok(adapter@) && !self.reference_ok()
                ==> (r matches Err(OracleError::Contract(m))
                && m@ == "reference implementation/version and source revision are required"@),
            self.schema_version == ORACLE_SCHEMA && self.identity_ok(adapter@) && self.reference_ok()
                && self.cases@.len() < 2 ==> (r matches Err(OracleError::Contract(m))
                && m@ == "at least two independent oracle cases are required"@),
            self.schema_version == ORACLE_SCHEMA && self.identity_ok(adapter@) && self.reference_ok()
                && self.cases@.len() >= 2
                && (forall|i: int| 0 <= i < self.cases@.len() ==> case_ok(#[trigger] self.cases@[i], vocab_size))
                && !self.suite_ok(adapter@, vocab_size) ==> (r matches Err(OracleError::Contract(m))
                && m@ == "suite must cover both reference logits and multi-position teacher forcing"@),
            self.schema_version == ORACLE_SCHEMA && self.identity_ok(adapter@) && self.reference_ok()
                && self.cases@.len() >= 2
                && !(forall|i: int| 0 <= i < self.cases@.len() ==> case_ok(#[trigger] self.cases@[i], vocab_size))
                ==> (r matches Err(OracleError::Contract(m)) && exists|i: int| 0 <= i < self.cases@.len()
                    && (forall|k: int| 0 <= k < i ==> case_ok(#[trigger] self.cases@[k], vocab_size))
                    && !case_ok(self.cases@[i], vocab_size) && m@ == case_message(self.cases@[i], vocab_size)),
    {
        if self.schema_version != ORACLE_SCHEMA {
            let mut m = string_of("schema ");
            push_decimal(&mut m, self.schema_version as u64);
            push_str(&mut m, " is unsupported");
            return Err(OracleError::Contract(m));
        }
        if !str_eq(self.adapter.as_str(), adapter) || byte_len(self.model_fingerprint.as_str()) != 64 {
            return Err(OracleError::Contract(string_of("adapter or SHA-256 model fingerprint is invalid")));
        }
        if !(str_starts_with(self.reference_implementation.as_str(), "transformers@")
            || str_starts_with(self.reference_implementation.as_str(), "vllm@"))
            || trimmed_byte_len(self.reference_revision.as_str()) < 7 {
            return Err(OracleError::Contract(string_of(
                "reference implementation/version and source revision are required")));
        }
        if self.cases.len() < 2 {
            return Err(OracleError::Contract(string_of("at least two independent oracle cases are required")));
        }
        let mut has_logits = false;
        let mut has_teacher_forcing = false;
        let mut i: usize = 0;
        while i < self.cases.len()
            invariant
                i <= self.cases@.len(),
                self.schema_version == ORACLE_SCHEMA,
                self.identity_ok(adapter@),
                self.reference_ok(),
                self.cases@.len() >= 2,
                forall|k: int| 0 <= k < i ==> case_ok(#[trigger] self.cases@[k], vocab_size),
                has_logits <==> exists|k: int| 0 <= k < i && (#[trigger] self.cases@[k]).final_logit_probes@.len() > 0,
                has_teacher_forcing <==> exists|k: int| 0 <= k < i
                    && (#[trigger] self.cases@[k]).teacher_forced_predictions@.len() >= 2,
            decreases self.cases@.len() - i,
        {
            let case = &self.cases[i];
            match check_case(case, vocab_size) {
                Ok(()) => {},
                Err(m) => {
                    assert(!case_ok(self.cases@[i as int], vocab_size));
                    return Err(OracleError::Contract(m));
                },
            }
            if case.final_logit_probes.len() > 0 {
                has_logits = true;
            }
            if case.teacher_forced_predictions.len() >= 2 {
                has_teacher_forcing = true;
            }
            i += 1;
        }
        if !has_logits || !has_teacher_forcing {
            return Err(OracleError::Contract(string_of(
                "suite must cover both reference logits and multi-position teacher forcing")));
        }
        Ok(())
    }
}

fn check_probe(p: &LogitProbe, vocab_size: usize) -> (b: bool)
    ensures
        b == probe_ok(*p, vocab_size),
{
    (p.token as usize) < vocab_size
        && p.expected_bits & 0x7F80_0000 != 0x7F80_0000
        && p.absolute_tolerance_bits & 0x7F80_0000 != 0x7F80_0000
        && p.relative_tolerance_bits & 0x7F80_0000 != 0x7F80_0000
        && (p.absolute_tolerance_bits <= MAX_ABSOLUTE_TOLERANCE_BITS || p.absolute_tolerance_bits == 0x8000_0000)
        && (p.relative_tolerance_bits <= MAX_RELATIVE_TOLERANCE_BITS || p.relative_tolerance_bits == 0x8000_0000)
}

/// The first token outside the vocabulary, if any.
pub open spec fn first_outside(tokens: Seq<u32>, vocab_size: usize) -> Option<u32>
    decreases tokens.len(),
{
    if tokens.len() == 0 {
        None
    } else if tokens[0] as int >= vocab_size as int {
        Some(tokens[0])
    } else {
        first_outside(tokens.drop_first(), vocab_size)
    }
}

fn first_out_of_vocab(tokens: &Vec<u32>, vocab_size: usize) -> (r: Option<u32>)
    ensures
        r is None <==> tokens_in_vocab(tokens@, vocab_size),
        r matches Some(t) ==> t as int >= vocab_size as int,
        r == first_outside(tokens@, vocab_size),
{
    let mut i: usize = 0;
    assert(tokens@.skip(0) =~= tokens@);
    while i < tokens.len()
        invariant
            i <= tokens@.len(),
            forall|k: int| 0 <= k < i ==> (#[trigger] tokens@[k] as int) < vocab_size as int,
            first_outside(tokens@, vocab_size) == first_outside(tokens@.skip(i as int), vocab_size),
        decreases tokens@.len() - i,
    {
        assert(tokens@.skip(i as int)[0] == tokens@[i as int]);
        assert(tokens@.skip(i as int).drop_first() =~= tokens@.skip(i + 1));
        if tokens[i] as usize >= vocab_size {
            return Some(tokens[i]);
        }
        i += 1;
    }
    assert(tokens@.skip(i as int) =~= Seq::<u32>::empty());
    None
}

fn case_error(name: &str, what: &str) -> (m: String)
    ensures
        m@ == "case "@ + name@ + what@,
{
    let mut m = string_of("case ");
    push_str(&mut m, name);
    push_str(&mut m, what);
    m
}

/// Why a case fails `case_ok`: no name or no inputs, a prediction count
/// that differs from the input count, the first token outside the
/// vocabulary (inputs first), or an unacceptable logit probe.
pub open spec fn case_message(c: OracleCase, vocab_size: usize) -> Seq<char> {
    if is_blank(c.name@) || c.input_tokens@.len() == 0 {
        "oracle cases need names and input tokens"@
    } else if c.teacher_forced_predictions@.len() != c.input_tokens@.len() {
        "case "@ + c.name@ + " has "@ + decimal(c.input_tokens@.len()) + " inputs but "@
            + decimal(c.teacher_forced_predictions@.len()) + " teacher-forced predictions"@
    } else {
        let outside = match first_outside(c.input_tokens@, vocab_size) {
            Some(t) => Some(t),
            None => first_outside(c.teacher_forced_predictions@, vocab_size),
        };
        match outside {
            Some(t) => "case "@ + c.name@ + " contains token "@ + decimal(t as nat) + " outside vocabulary "@
                + decimal(vocab_size as nat),
            None => "case "@ + c.name@ + " has an invalid or excessively loose logit probe"@,
        }
    }
}

/// Checks one case; the refusal names the case and what is wrong.
fn check_case(case: &OracleCase, vocab_size: usize) -> (r: Result<(), String>)
    ensures
        r is Ok <==> case_ok(*case, vocab_size),
        r matches Err(m) ==> m@ == case_message(*case, vocab_size),
{
    if str_is_blank(case.name.as_str()) || case.input_tokens.len() == 0 {
        return Err(string_of("oracle cases need names and input tokens"));
    }
    if case.teacher_forced_predictions.len() != case.input_tokens.len() {
        let mut m = case_error(case.name.as_str(), " has ");
        push_decimal(&mut m, case.input_tokens.len() as u64);
        push_str(&mut m, " inputs but ");
        push_decimal(&mut m, case.teacher_forced_predictions.len() as u64);
        push_str(&mut m, " teacher-forced predictions");
        return Err(m);
    }
    let outside = match first_out_of_vocab(&case.input_tokens, vocab_size) {
        Some(t) => Some(t),
        None => first_out_of_vocab(&case.teacher_forced_predictions, vocab_size),
    };
    match outside {
        Some(t) => {
            let mut m = case_error(case.name.as_str(), " contains token ");
            push_decimal(&mut m, t as u64);
            push_str(&mut m, " outside vocabulary ");
            push_decimal(&mut m, vocab_size as u64);
            return Err(m);
        },
        None => {},
    }
    let mut j: usize = 0;
    while j < case.final_logit_probes.len()
        invariant
            j <= case.final_logit_probes@.len(),
            forall|k: int| 0 <= k < j ==> probe_ok(#[trigger] case.final_logit_probes@[k], vocab_size),
            !is_blank(case.name@) && case.input_tokens@.len() > 0,
            case.teacher_forced_predictions@.len() == case.input_tokens@.len(),
            first_outside(case.input_tokens@, vocab_size) is None,
            first_outside(case.teacher_forced_predictions@, vocab_size) is None,
        decreases case.final_logit_probes@.len() - j,
    {
        if !check_probe(&case.final_logit_probes[j], vocab_size) {
            return Err(case_error(case.name.as_str(), " has an invalid or excessively loose logit probe"));
        }
        j += 1;
    }
    Ok(())
}

/// The suite was recorded on the checkpoint being served.
pub fn check_fingerprint(expected: &str, actual: &str) -> (r: Result<(), OracleError>)
    ensures
        r is Ok <==> expected@ == actual@,
        r is Err ==> (r matches Err(OracleError::Identity(m))
            && m@ == "suite targets "@ + expected@ + ", but checkpoint is "@ + actual@),
{
    if str_eq(expected, actual) {
        return Ok(());
    }
    let mut m = string_of("suite targets ");
    push_str(&mut m, expected);
    push_str(&mut m, ", but checkpoint is ");
    push_str(&mut m, actual);
    Err(OracleError::Identity(m))
}

/// Two token sequences agree on their common length.
pub open spec fn agree_on_common(a: Seq<u32>, b: Seq<u32>) -> bool {
    forall|i: int| 0 <= i < a.len() && i < b.len() ==> a[i] == b[i]
}

/// The position reported for differing predictions: the first differing
/// position within the common length, or zero when one is a prefix of the
/// other.
pub open spec fn reported_mismatch(a: Seq<u32>, b: Seq<u32>, m: int) -> bool {
    ||| agree_on_common(a, b) && m == 0
    ||| 0 <= m < a.len() && m < b.len() && a[m] != b[m] && forall|i: int| 0 <= i < m ==> a[i] == b[i]
}

fn first_difference(a: &Vec<u32>, b: &Vec<u32>) -> (r: Option<usize>)
    ensures
        r is None ==> agree_on_common(a@, b@),
        r matches Some(m) ==> m < a@.len() && m < b@.len() && a@[m as int] != b@[m as int]
            && forall|i: int| 0 <= i < m ==> a@[i] == b@[i],
{
    let mut i: usize = 0;
    while i < a.len() && i < b.len()
        invariant
            i <= a@.len(),
            i <= b@.len(),
            forall|j: int| 0 <= j < i ==> a@[j] == b@[j],
        decreases a@.len() - i,
    {
        if a[i] != b[i] {
            return Some(i);
        }
        i += 1;
    }
    None
}

/// Compares the teacher-forced predictions that the runtime computed with
/// those the suite recorded for case `case`.
pub fn check_predictions(case: &str, actual: &Vec<u32>, expected: &Vec<u32>) -> (r: Result<(), OracleError>)
    requires
        actual@ != expected@ && agree_on_common(actual@, expected@) ==> actual@.len() > 0 && expected@.len() > 0,
    ensures
        r is Ok <==> actual@ == expected@,
        r is Err ==> (r matches Err(OracleError::Mismatch { case: c, reason }) && c@ == case@
            && exists|m: int| reported_mismatch(actual@, expected@, m) && reason@ == "teacher-forced token "@
                + decimal(m as nat) + " is "@ + decimal(actual@[m] as nat) + ", expected "@ + decimal(expected@[m] as nat)),
{
    let found = first_difference(actual, expected);
    let m: usize = match found {
        Some(p) => p,
        None => {
            if actual.len() == expected.len() {
                assert(actual@ =~= expected@);
                return Ok(());
            }
            0
        },
    };
    proof {
        if found is None {
            assert(agree_on_common(actual@, expected@));
            assert(actual@ != expected@);
        } else {
            assert(actual@ != expected@) by {
                assert(actual@[m as int] != expected@[m as int]);
            }
        }
    }
    let mut reason = string_of("teacher-forced token ");
    push_decimal(&mut reason, m as u64);
    push_str(&mut reason, " is ");
    push_decimal(&mut reason, actual[m] as u64);
    push_str(&mut reason, ", expected ");
    push_decimal(&mut reason, expected[m] as u64);
    assert(reported_mismatch(actual@, expected@, m as int));
    assert(reason@ == "teacher-forced token "@ + decimal(m as nat) + " is "@ + decimal(actual@[m as int] as nat)
        + ", expected "@ + decimal(expected@[m as int] as nat));
    Err(OracleError::Mismatch { case: string_of(case), reason })
}

/// Which compiled executor recomputes an adapter's oracle suite.
#[derive(Debug, Clone, Copy, PartialEq, Eq, Structural)]
pub enum OracleExecutor {
    /// The Kimi K2.7 MLA executor.
    Kimi,
    /// The standard-attention MoE executor (Mixtral, Qwen, OLMoE, Granite).
    Standard,
}

/// The executor for `adapter`, if this build has one.
pub fn oracle_executor(adapter: &str) -> (r: Result<OracleExecutor, String>)
    ensures
        adapter@ == "sytra-kimi-k2.7-code"@ ==> r == Ok::<OracleExecutor, String>(OracleExecutor::Kimi),
        (adapter@ == "sytra-mixtral"@ || adapter@ == "sytra-qwen3-moe"@ || adapter@ == "sytra-qwen2-moe"@
            || adapter@ == "sytra-olmoe"@ || adapter@ == "sytra-granite-moe"@)
            ==> r == Ok::<OracleExecutor, String>(OracleExecutor::Standard),
        !(adapter@ == "sytra-kimi-k2.7-code"@ || adapter@ == "sytra-mixtral"@ || adapter@ == "sytra-qwen3-moe"@
            || adapter@ == "sytra-qwen2-moe"@ || adapter@ == "sytra-olmoe"@ || adapter@ == "sytra-granite-moe"@)
            ==> (r matches Err(m) && m@ == adapter@ + " has no checkpoint oracle executor in this build"@),
{
    proof {
        reveal_strlit("sytra-kimi-k2.7-code");
        reveal_strlit("sytra-mixtral");
        reveal_strlit("sytra-qwen3-moe");
        reveal_strlit("sytra-qwen2-moe");
        reveal_strlit("sytra-olmoe");
        reveal_strlit("sytra-granite-moe");
        assert("sytra-kimi-k2.7-code"@.len() == 20);
        assert("sytra-mixtral"@.len() == 13);
        assert("sytra-qwen3-moe"@.len() == 15);
        assert("sytra-qwen2-moe"@.len() == 15);
        assert("sytra-olmoe"@.len() == 11);
        assert("sytra-granite-moe"@.len() == 17);
    }
    if str_eq(adapter, "sytra-kimi-k2.7-code") {
        return Ok(OracleExecutor::Kimi);
    }
    if str_eq(adapter, "sytra-mixtral") || str_eq(adapter, "sytra-qwen3-moe") || str_eq(adapter, "sytra-qwen2-moe")
        || str_eq(adapter, "sytra-olmoe") || str_eq(adapter, "sytra-granite-moe")
    {
        return Ok(OracleExecutor::Standard);
    }
    let mut m = string_of(adapter);
    push_str(&mut m, " has no checkpoint oracle executor in this build");
    Err(m)
}

} // verus!
