use sytra::oracle::{check_fingerprint, check_predictions, oracle_executor, OracleExecutor, LogitProbe, OracleCase, OracleError, OracleSuite, ORACLE_SCHEMA};

fn probe(token: u32, absolute: f32, relative: f32) -> LogitProbe {
    LogitProbe {
        token,
        expected_bits: 1.0f32.to_bits(),
        absolute_tolerance_bits: absolute.to_bits(),
        relative_tolerance_bits: relative.to_bits(),
    }
}

fn case(name: &str, inputs: Vec<u32>, predictions: Vec<u32>, probes: Vec<LogitProbe>) -> OracleCase {
    OracleCase { name: name.into(), input_tokens: inputs, teacher_forced_predictions: predictions, final_logit_probes: probes }
}

fn suite(cases: Vec<OracleCase>) -> OracleSuite {
    OracleSuite {
        schema_version: ORACLE_SCHEMA,
        adapter: "sytra-kimi-k2.7-code".into(),
        model_fingerprint: "0".repeat(64),
        reference_implementation: "transformers@4.57.0".into(),
        reference_revision: "abcdef12".into(),
        cases,
    }
}

#[test]
fn suite_rejects_loose_or_incomplete_oracles() {
    let suite = suite(vec![case("only", vec![1], vec![2], vec![probe(2, 1.0, 0.0)])]);
    assert!(matches!(suite.validate("sytra-kimi-k2.7-code", 3), Err(OracleError::Contract(_))));
}

fn good_suite() -> OracleSuite {
    suite(vec![
        case("logits", vec![1], vec![2], vec![probe(2, 0.1, 0.05)]),
        case("teacher", vec![1, 2], vec![2, 0], vec![]),
    ])
}

#[test]
fn strong_suite_is_accepted() {
    assert!(good_suite().validate("sytra-kimi-k2.7-code", 3).is_ok());
}

#[test]
fn suite_checks_identity_and_reference() {
    assert!(good_suite().validate("sytra-mixtral", 3).is_err());
    let mut s = good_suite();
    s.model_fingerprint = "0".repeat(63);
    assert!(s.validate("sytra-kimi-k2.7-code", 3).is_err());
    let mut s = good_suite();
    s.reference_implementation = "pytorch@2".into();
    assert!(s.validate("sytra-kimi-k2.7-code", 3).is_err());
    let mut s = good_suite();
    s.reference_revision = "  abc123  ".into();
    assert!(s.validate("sytra-kimi-k2.7-code", 3).is_err());
    let mut s = good_suite();
    s.reference_revision = "  abcdefg  ".into();
    assert!(s.validate("sytra-kimi-k2.7-code", 3).is_ok());
    let mut s = good_suite();
    s.schema_version = 2;
    assert!(s.validate("sytra-kimi-k2.7-code", 3).is_err());
}

#[test]
fn suite_checks_tokens_and_tolerances() {
    assert!(good_suite().validate("sytra-kimi-k2.7-code", 2).is_err());
    let loose = suite(vec![
        case("logits", vec![1], vec![2], vec![probe(2, 0.11, 0.0)]),
        case("teacher", vec![1, 2], vec![2, 0], vec![]),
    ]);
    assert!(loose.validate("sytra-kimi-k2.7-code", 3).is_err());
    let negative_zero = suite(vec![
        case("logits", vec![1], vec![2], vec![probe(2, -0.0, 0.0)]),
        case("teacher", vec![1, 2], vec![2, 0], vec![]),
    ]);
    assert!(negative_zero.validate("sytra-kimi-k2.7-code", 3).is_ok());
    let nan = suite(vec![
        case("logits", vec![1], vec![2], vec![probe(2, f32::NAN, 0.0)]),
        case("teacher", vec![1, 2], vec![2, 0], vec![]),
    ]);
    assert!(nan.validate("sytra-kimi-k2.7-code", 3).is_err());
    let unnamed = suite(vec![
        case(" ", vec![1], vec![2], vec![probe(2, 0.0, 0.0)]),
        case("teacher", vec![1, 2], vec![2, 0], vec![]),
    ]);
    assert!(unnamed.validate("sytra-kimi-k2.7-code", 3).is_err());
}

#[test]
fn fingerprint_must_match_the_served_checkpoint() {
    assert!(check_fingerprint("abc", "abc").is_ok());
    match check_fingerprint("abc", "def") {
        Err(OracleError::Identity(m)) => assert_eq!(m, "suite targets abc, but checkpoint is def"),
        _ => panic!("expected an identity error"),
    }
}

#[test]
fn prediction_mismatch_names_the_first_differing_token() {
    assert!(check_predictions("c", &vec![1, 2, 3], &vec![1, 2, 3]).is_ok());
    match check_predictions("case-a", &vec![1, 9, 3, 7], &vec![1, 2, 3, 8]) {
        Err(OracleError::Mismatch { case, reason }) => {
            assert_eq!(case, "case-a");
            assert_eq!(reason, "teacher-forced token 1 is 9, expected 2");
        }
        _ => panic!("expected a mismatch"),
    }
    match check_predictions("short", &vec![5, 6], &vec![5, 6, 7]) {
        Err(OracleError::Mismatch { reason, .. }) => assert_eq!(reason, "teacher-forced token 0 is 5, expected 5"),
        _ => panic!("expected a mismatch"),
    }
}

fn contract_text(r: Result<(), OracleError>) -> String {
    match r {
        Err(OracleError::Contract(m)) => m,
        _ => panic!("expected a contract refusal"),
    }
}

#[test]
fn suite_refusals_say_which_case_is_wrong() {
    let mut s = good_suite();
    s.schema_version = 9;
    assert_eq!(contract_text(s.validate("sytra-kimi-k2.7-code", 3)), "schema 9 is unsupported");
    let s = suite(vec![case("a", vec![1], vec![2], vec![])]);
    assert_eq!(
        contract_text(s.validate("sytra-kimi-k2.7-code", 3)),
        "at least two independent oracle cases are required"
    );
    let s = suite(vec![case("a", vec![1, 2], vec![2], vec![]), case("b", vec![1], vec![2], vec![])]);
    assert_eq!(contract_text(s.validate("sytra-kimi-k2.7-code", 3)), "case a has 2 inputs but 1 teacher-forced predictions");
    let s = suite(vec![case("a", vec![1], vec![2], vec![]), case("b", vec![1], vec![7], vec![])]);
    assert_eq!(contract_text(s.validate("sytra-kimi-k2.7-code", 3)), "case b contains token 7 outside vocabulary 3");
    let s = suite(vec![case("a", vec![1], vec![2], vec![probe(1, 0.2, 0.0)]), case("b", vec![1], vec![2], vec![])]);
    assert_eq!(
        contract_text(s.validate("sytra-kimi-k2.7-code", 3)),
        "case a has an invalid or excessively loose logit probe"
    );
    let s = suite(vec![case(" ", vec![1], vec![2], vec![]), case("b", vec![1], vec![2], vec![])]);
    assert_eq!(contract_text(s.validate("sytra-kimi-k2.7-code", 3)), "oracle cases need names and input tokens");
    let s = suite(vec![case("a", vec![1], vec![2], vec![]), case("b", vec![1], vec![2], vec![])]);
    assert_eq!(
        contract_text(s.validate("sytra-kimi-k2.7-code", 3)),
        "suite must cover both reference logits and multi-position teacher forcing"
    );
}

#[test]
fn each_serving_adapter_has_its_oracle_executor() {
    assert_eq!(oracle_executor("sytra-kimi-k2.7-code"), Ok(OracleExecutor::Kimi));
    for adapter in ["sytra-mixtral", "sytra-qwen3-moe", "sytra-qwen2-moe", "sytra-olmoe", "sytra-granite-moe"] {
        assert_eq!(oracle_executor(adapter), Ok(OracleExecutor::Standard));
    }
    assert_eq!(
        oracle_executor("sytra-generic-moe"),
        Err("sytra-generic-moe has no checkpoint oracle executor in this build".to_string())
    );
}
