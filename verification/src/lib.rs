pub mod adapter;
pub mod cache;
pub mod cli;
pub mod cuda;
pub mod dense;
pub mod draft;
pub mod fingerprint;
pub mod generation;
pub mod guider;
pub mod kimi;
pub mod kimi_config;
pub mod manifest;
pub mod merge_config;
pub mod mixtral;
pub mod model_alerts;
pub mod moe;
pub mod operation;
pub mod oracle;
pub mod performance;
pub mod run_config;
pub mod segments;
pub mod telemetry;
pub mod text;
