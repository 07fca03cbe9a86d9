//! Training run configuration vocabulary shared with the training runner.
use vstd::prelude::*;
use crate::text::string_of;
use std::collections::BTreeMap;

verus! {

#[derive(Debug, Clone, Copy, PartialEq, Eq, Structural)]
pub enum TrainMode {
    Sft,
    Dpo,
    Cpo,
    Orpo,
    Grpo,
    OnlineDpo,
    Xpo,
    RlhfReinforce,
    Ppo,
}

#[derive(Debug, Clone, Copy, PartialEq, Eq, Structural)]
pub enum BackendKind {
    Auto,
    Cuda,
    Rocm,
    Mps,
    Cpu,
}

#[derive(Debug, Clone, PartialEq, Eq)]
pub struct BackendConfig {
    pub kind: BackendKind,
    pub judge_model: Option<String>,
}

#[derive(Debug, Clone, PartialEq, Eq)]
pub struct HfParams {
    pub repo_id: String,
    pub split: String,
    pub revision: Option<String>,
    pub config: Option<String>,
}

/// The dataset split used when a config names none.
pub fn default_split() -> (s: String)
    ensures
        s@ == "train"@,
{
    string_of("train")
}

#[derive(Debug, Clone, Copy, PartialEq, Eq, Structural)]
pub enum LocalFormat {
    Jsonl,
    Csv,
    Parquet,
}

#[derive(Debug, Clone, PartialEq, Eq)]
pub struct LocalParams {
    pub path: String,
    pub format: LocalFormat,
    pub mapping: BTreeMap<String, String>,
}

#[derive(Debug, Clone, Copy, PartialEq, Eq, Structural)]
pub enum SyntheticMode {
    Prompts,
    Sft,
    Dpo,
}

#[derive(Debug, Clone, PartialEq, Eq)]
pub struct SyntheticParams {
    pub generator_model: String,
    pub judge_model: String,
    pub mode: SyntheticMode,
    pub count: u32,
    pub topic: String,
}

#[derive(Debug, Clone, PartialEq, Eq)]
pub struct KlayerParams {
    pub query: String,
    pub min_trust_tier: String,
    pub snapshot: String,
}

/// Discriminated union on `source`; the `source` value is also the key
/// holding the source-specific block.
#[derive(Debug, PartialEq, Eq)]
pub enum DataSpec {
    Hf { jsonl_path: Option<String>, fingerprint: Option<String>, hf: HfParams },
    Local { jsonl_path: Option<String>, fingerprint: Option<String>, local: LocalParams },
    Synthetic { jsonl_path: Option<String>, fingerprint: Option<String>, synthetic: SyntheticParams },
    Klayer { jsonl_path: Option<String>, fingerprint: Option<String>, klayer: KlayerParams },
    Multi { jsonl_path: Option<String>, fingerprint: Option<String>, datasets: Vec<DataSpec> },
}

impl DataSpec {
    pub open spec fn spec_jsonl_path(&self) -> Option<String> {
        match self {
            DataSpec::Hf { jsonl_path, .. } => *jsonl_path,
            DataSpec::Local { jsonl_path, .. } => *jsonl_path,
            DataSpec::Synthetic { jsonl_path, .. } => *jsonl_path,
            DataSpec::Klayer { jsonl_path, .. } => *jsonl_path,
            DataSpec::Multi { jsonl_path, .. } => *jsonl_path,
        }
    }

    pub open spec fn spec_fingerprint(&self) -> Option<String> {
        match self {
            DataSpec::Hf { fingerprint, .. } => *fingerprint,
            DataSpec::Local { fingerprint, .. } => *fingerprint,
            DataSpec::Synthetic { fingerprint, .. } => *fingerprint,
            DataSpec::Klayer { fingerprint, .. } => *fingerprint,
            DataSpec::Multi { fingerprint, .. } => *fingerprint,
        }
    }

    /// The materialized JSONL path, whatever the source.
    pub fn jsonl_path(&self) -> (r: Option<&String>)
        ensures
            r matches Some(p) ==> self.spec_jsonl_path() == Some(*p),
            r is None ==> self.spec_jsonl_path() is None,
    {
        match self {
            DataSpec::Hf { jsonl_path, .. } => jsonl_path.as_ref(),
            DataSpec::Local { jsonl_path, .. } => jsonl_path.as_ref(),
            DataSpec::Synthetic { jsonl_path, .. } => jsonl_path.as_ref(),
            DataSpec::Klayer { jsonl_path, .. } => jsonl_path.as_ref(),
            DataSpec::Multi { jsonl_path, .. } => jsonl_path.as_ref(),
        }
    }

    /// The dataset fingerprint, whatever the source.
    pub fn fingerprint(&self) -> (r: Option<&String>)
        ensures
            r matches Some(p) ==> self.spec_fingerprint() == Some(*p),
            r is None ==> self.spec_fingerprint() is None,
    {
        match self {
            DataSpec::Hf { fingerprint, .. } => fingerprint.as_ref(),
            DataSpec::Local { fingerprint, .. } => fingerprint.as_ref(),
            DataSpec::Synthetic { fingerprint, .. } => fingerprint.as_ref(),
            DataSpec::Klayer { fingerprint, .. } => fingerprint.as_ref(),
            DataSpec::Multi { fingerprint, .. } => fingerprint.as_ref(),
        }
    }
}

#[derive(Debug, Clone, Copy, PartialEq, Eq, Structural)]
pub enum AdapterType {
    Lora,
    Dora,
    Qlora,
    Full,
    Qat,
}

#[derive(Debug, Clone, Copy, PartialEq, Eq, Structural)]
pub enum Schedule {
    Cosine,
    Linear,
    Constant,
}

#[derive(Debug, Clone, Copy, PartialEq, Eq, Structural)]
pub struct TrainParams {
    pub max_steps: Option<u64>,
    pub epochs: Option<u32>,
    pub batch_size: u32,
    pub max_seq_len: u32,
    pub save_every: u64,
    pub packing: bool,
}

#[derive(Debug, Clone, PartialEq, Eq)]
pub struct RunOutput {
    pub adapter_path: String,
    pub resume_from: Option<String>,
}

/// The run config schema version this library reads and writes.
pub const RUN_CONFIG_SUPPORTED_VERSION: u32 = 1;

} // verus!
