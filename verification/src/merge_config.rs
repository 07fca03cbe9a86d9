//! Merge configuration vocabulary shared with the merge runner.
use vstd::prelude::*;
use crate::text::string_of;

verus! {

#[derive(Debug, Clone, Copy, PartialEq, Eq, Structural)]
pub enum MergeMethod {
    Linear,
    Slerp,
    Ties,
    DareTies,
    TaskArithmetic,
    Passthrough,
    Moe,
}

impl MergeMethod {
    pub open spec fn spec_is_task_vector(self) -> bool {
        self == MergeMethod::Ties || self == MergeMethod::DareTies || self == MergeMethod::TaskArithmetic
    }

    /// Task-vector methods merge deltas against a shared base model.
    pub fn is_task_vector(&self) -> (b: bool)
        ensures
            b == self.spec_is_task_vector(),
    {
        matches!(self, MergeMethod::Ties | MergeMethod::DareTies | MergeMethod::TaskArithmetic)
    }

    pub open spec fn spec_allows_cross_architecture(self) -> bool {
        self == MergeMethod::Passthrough || self == MergeMethod::Moe
    }

    /// Methods that can stitch models of different architectures.
    pub fn allows_cross_architecture(&self) -> (b: bool)
        ensures
            b == self.spec_allows_cross_architecture(),
    {
        matches!(self, MergeMethod::Passthrough | MergeMethod::Moe)
    }

    pub open spec fn spec_debug_name(self) -> Seq<char> {
        match self {
            MergeMethod::Linear => "Linear"@,
            MergeMethod::Slerp => "Slerp"@,
            MergeMethod::Ties => "Ties"@,
            MergeMethod::DareTies => "DareTies"@,
            MergeMethod::TaskArithmetic => "TaskArithmetic"@,
            MergeMethod::Passthrough => "Passthrough"@,
            MergeMethod::Moe => "Moe"@,
        }
    }

    /// The variant's name as `{:?}` shows it.
    pub fn debug_name(&self) -> (s: String)
        ensures
            s@ == self.spec_debug_name(),
    {
        match self {
            MergeMethod::Linear => string_of("Linear"),
            MergeMethod::Slerp => string_of("Slerp"),
            MergeMethod::Ties => string_of("Ties"),
            MergeMethod::DareTies => string_of("DareTies"),
            MergeMethod::TaskArithmetic => string_of("TaskArithmetic"),
            MergeMethod::Passthrough => string_of("Passthrough"),
            MergeMethod::Moe => string_of("Moe"),
        }
    }
}

#[derive(Debug, Clone, PartialEq, Eq)]
pub enum TokenizerSource {
    Named(TokenizerNamed),
    Index(u32),
}

#[derive(Debug, Clone, Copy, PartialEq, Eq, Structural)]
pub enum TokenizerNamed {
    Base,
    Union,
}

#[derive(Debug, Clone, PartialEq, Eq)]
pub struct TokenizerConfig {
    pub source: TokenizerSource,
}

#[derive(Debug, Clone, Copy, PartialEq, Eq, Structural)]
pub enum Verdict {
    Green,
    Amber,
    Red,
}

#[derive(Debug, Clone, PartialEq, Eq)]
pub struct CompatConfig {
    pub verdict: Verdict,
    pub fingerprint: Option<String>,
}

#[derive(Debug, Clone, PartialEq, Eq)]
pub struct MergeOutput {
    pub model_path: String,
}

/// The merge config schema version this library reads and writes.
pub const MERGE_CONFIG_SUPPORTED_VERSION: u32 = 1;

} // verus!
