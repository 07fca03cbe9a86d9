use sytra::operation::{MergeSpec, Operation, PublishSpec, TrainSpec};

#[test]
fn train_runs_the_runner_module_on_its_config() {
    let op = Operation::Train(TrainSpec { run_id: None, config_path: "/runs/a/config.yaml".to_string() });
    assert_eq!(op.kind(), "train");
    let cmd = op.runner_cmd();
    assert_eq!(cmd.program, "python");
    assert_eq!(cmd.args, vec!["-m", "sytra_runner", "/runs/a/config.yaml"]);
    assert_eq!(op.op_id(), 0);
}

#[test]
fn merge_uses_the_merge_module_and_its_op_id() {
    let op = Operation::Merge(MergeSpec { op_id: Some(42), config_path: "m.yaml".to_string() });
    assert_eq!(op.kind(), "merge");
    assert_eq!(op.runner_cmd().args, vec!["-m", "sytra_runner.merge", "m.yaml"]);
    assert_eq!(op.op_id(), 42);
}

#[test]
fn publish_passes_repository_visibility_and_token() {
    let op = Operation::Publish(PublishSpec {
        op_id: 7,
        artifact_path: "out/adapter".to_string(),
        repo_id: "org/model".to_string(),
        private: true,
        token: "SECRET-REDACTED".to_string(),
    });
    assert_eq!(op.kind(), "publish");
    assert_eq!(
        op.runner_cmd().args,
        vec![
            "-m",
            "sytra_runner.publish",
            "out/adapter",
            "--repo-id",
            "org/model",
            "--private",
            "true",
            "--token",
            "SECRET-REDACTED"
        ]
    );
    assert_eq!(op.op_id(), 7);
}
