//! Operations handed to the Python runner, their commands and status.
use vstd::prelude::*;
use crate::text::string_of;

verus! {

/// A training run: its configuration file and the run id it declares.
pub struct TrainSpec {
    /// `run_id` of the run configuration (a UUID as a 128-bit integer).
    pub run_id: Option<u128>,
    pub config_path: String,
}

/// A merge: its configuration file and the operation id it declares.
pub struct MergeSpec {
    /// `op_id` of the merge configuration (a UUID as a 128-bit integer).
    pub op_id: Option<u128>,
    pub config_path: String,
}

/// A publication of an artifact to a model repository.
pub struct PublishSpec {
    pub op_id: u128,
    pub artifact_path: String,
    pub repo_id: String,
    pub private: bool,
    pub token: String,
}

pub enum Operation {
    Train(TrainSpec),
    Merge(MergeSpec),
    Publish(PublishSpec),
}

pub open spec fn views(v: Seq<String>) -> Seq<Seq<char>> {
    v.map_values(|s: String| s@)
}

/// The runner invocation of an operation.
pub open spec fn runner_args(op: Operation) -> Seq<Seq<char>> {
    match op {
        Operation::Train(spec) => seq!["-m"@, "sytra_runner"@, spec.config_path@],
        Operation::Merge(spec) => seq!["-m"@, "sytra_runner.merge"@, spec.config_path@],
        Operation::Publish(spec) => seq![
            "-m"@,
            "sytra_runner.publish"@,
            spec.artifact_path@,
            "--repo-id"@,
            spec.repo_id@,
            "--private"@,
            if spec.private { "true"@ } else { "false"@ },
            "--token"@,
            spec.token@,
        ],
    }
}

impl Operation {
    pub fn kind(&self) -> (k: &'static str)
        ensures
            k@ == (match *self {
                Operation::Train(_) => "train"@,
                Operation::Merge(_) => "merge"@,
                Operation::Publish(_) => "publish"@,
            }),
    {
        match self {
            Operation::Train(_) => "train",
            Operation::Merge(_) => "merge",
            Operation::Publish(_) => "publish",
        }
    }

    /// The Python runner command for this operation.
    pub fn runner_cmd(&self) -> (c: RunnerCmd)
        ensures
            c.program@ == "python"@,
            views(c.args@) == runner_args(*self),
    {
        let args: Vec<String> = match self {
            Operation::Train(spec) => vec![string_of("-m"), string_of("sytra_runner"), string_of(spec.config_path.as_str())],
            Operation::Merge(spec) => vec![
                string_of("-m"),
                string_of("sytra_runner.merge"),
                string_of(spec.config_path.as_str()),
            ],
            Operation::Publish(spec) => vec![
                string_of("-m"),
                string_of("sytra_runner.publish"),
                string_of(spec.artifact_path.as_str()),
                string_of("--repo-id"),
                string_of(spec.repo_id.as_str()),
                string_of("--private"),
                if spec.private { string_of("true") } else { string_of("false") },
                string_of("--token"),
                string_of(spec.token.as_str()),
            ],
        };
        assert(views(args@) =~= runner_args(*self));
        RunnerCmd { program: string_of("python"), args }
    }

    /// The operation id; a configuration written by hand without one gives
    /// the nil id (zero).
    pub fn op_id(&self) -> (id: u128)
        ensures
            id == (match *self {
                Operation::Train(spec) => match spec.run_id { Some(v) => v, None => 0 },
                Operation::Merge(spec) => match spec.op_id { Some(v) => v, None => 0 },
                Operation::Publish(spec) => spec.op_id,
            }),
    {
        match self {
            Operation::Train(spec) => match spec.run_id {
                Some(v) => v,
                None => 0,
            },
            Operation::Merge(spec) => match spec.op_id {
                Some(v) => v,
                None => 0,
            },
            Operation::Publish(spec) => spec.op_id,
        }
    }
}

#[derive(Debug, Clone, PartialEq, Eq)]
pub struct RunnerCmd {
    pub program: String,
    pub args: Vec<String>,
}

#[derive(Debug, Clone, Copy, PartialEq, Eq, Structural)]
pub enum OpStatus {
    Running,
    Done,
    Error,
    /// Cancelled by the user: distinct from `Error`, and the run stays
    /// eligible for resume.
    Stopped,
}

} // verus!
