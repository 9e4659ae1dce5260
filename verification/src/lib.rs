//! Decision logic of a personal knowledge base: what may be registered, prepared,
//! approved and published, and how every refusal is reported.

pub mod error;
pub mod text;
pub mod order;
pub mod unicode;
pub mod json_v1;
pub mod model;
pub mod path_policy;
pub mod catalog;
pub mod digest;
pub mod fingerprint;
pub mod version;
pub mod context;
pub mod config;
pub mod provider_scan;
pub mod paths;
pub mod local_path;
pub mod inbox;
pub mod inbox_laws;
pub mod add;
pub mod add_laws;
pub mod clock;
pub mod pdf;
pub mod asset_validation;
pub mod canonical_source;
pub mod prepare;
pub mod bundle_text;
pub mod front_matter;
pub mod hooks;
pub mod check;
pub mod check_laws;
pub mod repository_files;
pub mod lock;
pub mod doctor;
pub mod approve;
pub mod source_laws;
pub mod slug;
pub mod json_text;
pub mod knowledge;
pub mod atomic;
pub mod knowledge_store;
pub mod json_v2;
pub mod model_v2;
pub mod config_v2;
pub mod capture_v1;
pub mod asset_v2;
pub mod attempt_v2;
pub mod judgment_v2;
pub mod home;
pub mod dashboard_v2;
pub mod perspective_v2;
pub mod status_laws;
pub mod record_laws;
pub mod setup_laws;
pub mod lock_laws;
pub mod operation_laws;
pub mod text_laws;
pub mod detail_laws;
