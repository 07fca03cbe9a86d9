use sytra::generation::{
    check_capacity, common_prefix_chars, find_stop, generation_budget, speculative_budget, stream_decoded, GenerationError,
    draft_outcome, speculative_step, verified_token_taken, DraftOutcome, SpeculativeAction, SpeculativePlan, XorShift64,
};
use sytra::draft::DraftError;

fn chars(s: &str) -> Vec<char> {
    s.chars().collect()
}

fn stops(list: &[&str]) -> Vec<String> {
    list.iter().map(|s| s.to_string()).collect()
}

#[test]
fn stream_emits_only_the_new_suffix() {
    let mut decoded = "Hello".to_string();
    let mut emitted = "Hel".to_string();
    let update = stream_decoded(&mut decoded, &mut emitted, &stops(&[]));
    assert_eq!(update.delta, "lo");
    assert!(!update.stopped);
    assert_eq!(emitted, "Hello");
    assert_eq!(decoded, "Hello");
}

#[test]
fn stream_cuts_at_the_earliest_stop_string() {
    let mut decoded = "abc END xyz STOP".to_string();
    let mut emitted = String::new();
    let update = stream_decoded(&mut decoded, &mut emitted, &stops(&["STOP", "", " END"]));
    assert!(update.stopped);
    assert_eq!(update.delta, "abc");
    assert_eq!(decoded, "abc");
    assert_eq!(emitted, "abc");
}

#[test]
fn stream_holds_back_a_revised_trailing_character() {
    // The previous step showed a provisional replacement character; the new
    // decoding revises it, so the stream restarts from the common prefix.
    let mut decoded = "caf\u{e9}!".to_string();
    let mut emitted = "caf\u{fffd}".to_string();
    let update = stream_decoded(&mut decoded, &mut emitted, &stops(&[]));
    assert_eq!(update.delta, "\u{e9}!");
    assert_eq!(emitted, "caf\u{e9}!");
}

#[test]
fn empty_stop_strings_never_stop() {
    let mut decoded = "text".to_string();
    let mut emitted = "text".to_string();
    let update = stream_decoded(&mut decoded, &mut emitted, &stops(&[""]));
    assert!(!update.stopped);
    assert_eq!(update.delta, "");
}

#[test]
fn stop_search_and_common_prefix() {
    assert_eq!(find_stop(&chars("one two"), &stops(&["two", "e t"])), Some(2));
    assert_eq!(find_stop(&chars("one two"), &stops(&["three"])), None);
    assert_eq!(common_prefix_chars(&chars("abcd"), &chars("abxy")), 2);
    assert_eq!(common_prefix_chars(&chars("ab"), &chars("abc")), 2);
}

#[test]
fn generation_budget_is_bounded_by_the_context() {
    assert_eq!(generation_budget(10, 256, 4096, 2048).ok(), Some(256));
    assert_eq!(generation_budget(2000, 256, 4096, 2048).ok(), Some(48));
    match generation_budget(0, 256, 4096, 2048) {
        Err(GenerationError::Invalid(m)) => assert_eq!(m, "prompt must contain at least one token"),
        _ => panic!("expected an invalid request"),
    }
    match generation_budget(2048, 256, 4096, 2048) {
        Err(GenerationError::Invalid(m)) => {
            assert_eq!(m, "prompt consumes the complete bounded context of 2048 tokens")
        }
        _ => panic!("expected an invalid request"),
    }
}

#[test]
fn speculative_budget_limits_drafts_to_verification_positions() {
    assert_eq!(
        speculative_budget(4, 100, 64, 1024, 8).ok(),
        Some(SpeculativePlan::Speculate { maximum: 60, draft_limit: 7 })
    );
    assert_eq!(speculative_budget(4, 100, 64, 1024, 1).ok(), Some(SpeculativePlan::Sequential));
    match speculative_budget(64, 100, 64, 1024, 8) {
        Err(GenerationError::Invalid(m)) => assert_eq!(m, "prompt consumes the complete bounded context"),
        _ => panic!("expected an invalid request"),
    }
}

#[test]
fn xorshift_follows_the_13_7_17_recurrence() {
    let mut r = XorShift64::new(1);
    let mut x: u64 = 1;
    for _ in 0..5 {
        x ^= x << 13;
        x ^= x >> 7;
        x ^= x << 17;
        assert_eq!(r.next_raw(), x);
    }
}

#[test]
fn zero_seed_uses_the_default_and_never_reaches_zero() {
    let mut r = XorShift64::new(0);
    let mut x: u64 = 0x9e37_79b9_7f4a_7c15;
    for _ in 0..1000 {
        x ^= x << 13;
        x ^= x >> 7;
        x ^= x << 17;
        let v = r.next_raw();
        assert_eq!(v, x);
        assert_ne!(v, 0);
    }
}

#[test]
fn capacity_checks_bound_every_runtime_step() {
    assert!(check_capacity(0, 4, 8, 100).is_ok());
    assert!(check_capacity(4, 4, 8, 100).is_ok());
    assert_eq!(check_capacity(5, 4, 8, 100), Err("request would exceed bounded context 8".to_string()));
    assert_eq!(check_capacity(0, 0, 8, 100), Err("request would exceed bounded context 8".to_string()));
    assert_eq!(check_capacity(0, 7, 1000, 6), Err("request would exceed bounded context 6".to_string()));
    assert!(check_capacity(usize::MAX, 1, u64::MAX, usize::MAX).is_err());
}

#[test]
fn speculative_steps_stop_finish_or_propose_bounded_drafts() {
    assert_eq!(speculative_step(true, false, 0, 10, 4, 7), SpeculativeAction::Finish { stopped: true });
    assert_eq!(speculative_step(false, true, 3, 10, 4, 7), SpeculativeAction::Finish { stopped: true });
    assert_eq!(speculative_step(false, false, 10, 10, 4, 7), SpeculativeAction::Finish { stopped: false });
    assert_eq!(speculative_step(false, false, 3, 10, 4, 7), SpeculativeAction::Propose(4));
    assert_eq!(speculative_step(false, false, 8, 10, 4, 7), SpeculativeAction::Propose(2));
    assert_eq!(speculative_step(false, false, 0, 10, 9, 3), SpeculativeAction::Propose(3));
    assert!(verified_token_taken(3, 10, false));
    assert!(!verified_token_taken(10, 10, false));
    assert!(!verified_token_taken(3, 10, true));
}

#[test]
fn failed_or_empty_drafts_fall_back_to_one_target_step() {
    assert_eq!(draft_outcome(&Err(DraftError::Request("refused".to_string()))), DraftOutcome::TargetStep);
    assert_eq!(draft_outcome(&Ok(Vec::new())), DraftOutcome::TargetStep);
    assert_eq!(draft_outcome(&Ok(vec![7, 8])), DraftOutcome::Verify);
}
