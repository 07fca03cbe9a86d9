//! Draft-model proposals for speculative decoding: the errors, the trait a
//! draft backend implements, and the request rules every backend shares.
use vstd::prelude::*;
use crate::text::{is_blank, seq_starts_with, str_is_blank, str_starts_with, string_of};

verus! {

/// Largest draft response body, in bytes.
pub const MAX_DRAFT_RESPONSE_BYTES: u64 = 1024 * 1024;

#[derive(Debug)]
pub enum DraftError {
    Invalid(String),
    Request(String),
    Response(String),
}

/// A model that proposes up to `max_tokens` continuation tokens of `context`.
pub trait DraftModel {
    fn propose(&self, context: &[u32], max_tokens: usize) -> Result<Vec<u32>, DraftError>;
}

/// `s` without its trailing `/` characters (`trim_end_matches('/')`).
pub open spec fn strip_trailing_slashes(s: Seq<char>) -> Seq<char>
    decreases s.len(),
{
    if s.len() > 0 && s.last() == '/' {
        strip_trailing_slashes(s.drop_last())
    } else {
        s
    }
}

/// An explicit loopback HTTP endpoint.
pub open spec fn loopback_endpoint(s: Seq<char>) -> bool {
    seq_starts_with(s, "http://127.0.0.1:"@) || seq_starts_with(s, "http://localhost:"@)
}

/// Checks the draft backend's target: an explicit loopback HTTP endpoint, a
/// named model and a positive timeout. Returns the endpoint without trailing
/// slashes.
pub fn validate_draft_target(endpoint: &str, model: &str, timeout_ms: u64) -> (r: Result<String, DraftError>)
    ensures
        r is Ok <==> loopback_endpoint(strip_trailing_slashes(endpoint@)) && !is_blank(model@) && timeout_ms > 0,
        match r {
            Ok(e) => e@ == strip_trailing_slashes(endpoint@),
            Err(e) => e matches DraftError::Invalid(m) && m@ == (if !loopback_endpoint(strip_trailing_slashes(endpoint@)) {
                "draft endpoint must be an explicit loopback HTTP URL"@
            } else {
                "draft model and positive timeout are required"@
            }),
        },
{
    let chars = crate::text::chars_of(endpoint);
    let mut end: usize = chars.len();
    assert(chars@.take(end as int) =~= endpoint@);
    while end > 0 && chars[end - 1] == '/'
        invariant
            end <= chars@.len(),
            chars@ == endpoint@,
            strip_trailing_slashes(endpoint@) == strip_trailing_slashes(chars@.take(end as int)),
        decreases end,
    {
        assert(chars@.take(end as int).drop_last() =~= chars@.take(end - 1));
        end -= 1;
    }
    let mut trimmed = String::new();
    let mut i: usize = 0;
    while i < end
        invariant
            end <= chars@.len(),
            i <= end,
            trimmed@ == chars@.take(i as int),
        decreases end - i,
    {
        crate::text::push_char(&mut trimmed, chars[i]);
        assert(chars@.take(i + 1) =~= chars@.take(i as int).push(chars@[i as int]));
        i += 1;
    }
    assert(trimmed@ == strip_trailing_slashes(endpoint@));
    if !(str_starts_with(trimmed.as_str(), "http://127.0.0.1:") || str_starts_with(trimmed.as_str(), "http://localhost:")) {
        return Err(DraftError::Invalid(string_of("draft endpoint must be an explicit loopback HTTP URL")));
    }
    if str_is_blank(model) || timeout_ms == 0 {
        return Err(DraftError::Invalid(string_of("draft model and positive timeout are required")));
    }
    Ok(trimmed)
}

/// A proposal request needs some context and a positive token budget.
pub fn check_proposal_request(context_len: usize, max_tokens: usize) -> (r: Result<(), DraftError>)
    ensures
        r is Ok <==> context_len > 0 && max_tokens > 0,
        r matches Err(e) ==> e matches DraftError::Invalid(m) && m@ == "draft context and token budget must be non-empty"@,
{
    if context_len == 0 || max_tokens == 0 {
        return Err(DraftError::Invalid(string_of("draft context and token budget must be non-empty")));
    }
    Ok(())
}

/// Keeps at most `max_tokens` of the tokens a draft server returned; an empty
/// proposal is an error.
pub fn finish_proposal(tokens: Vec<u32>, max_tokens: usize) -> (r: Result<Vec<u32>, DraftError>)
    ensures
        match r {
            Ok(v) => v@ == (if max_tokens < tokens@.len() { tokens@.take(max_tokens as int) } else { tokens@ })
                && v@.len() > 0,
            Err(e) => (e matches DraftError::Response(m) && m@ == "draft returned no tokens"@)
                && (max_tokens == 0 || tokens@.len() == 0),
        },
        r is Err <==> (max_tokens == 0 || tokens@.len() == 0),
{
    let mut tokens = tokens;
    tokens.truncate(max_tokens);
    if tokens.len() == 0 {
        return Err(DraftError::Response(string_of("draft returned no tokens")));
    }
    Ok(tokens)
}

/// A response body within the size limit.
pub fn response_size_ok(bytes: u64) -> (b: bool)
    ensures
        b == (bytes <= MAX_DRAFT_RESPONSE_BYTES),
{
    bytes <= MAX_DRAFT_RESPONSE_BYTES
}

} // verus!
