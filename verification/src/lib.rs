//! The operator-only admin plane: session and request security, the local-first
//! sync write path, cluster insight, cron debugging, and the decisions behind
//! every admin route.

pub mod access_laws;
pub mod action_laws;
pub mod admission;
pub mod audit;
pub mod calendar;
pub mod call_laws;
pub mod clock;
pub mod cluster_api;
pub mod cluster_insight;
pub mod cluster_laws;
pub mod cluster_views;
pub mod config;
pub mod cookies;
pub mod cron_debug;
pub mod cron_laws;
pub mod cron_redaction;
pub mod event_laws;
pub mod fingerprint;
pub mod guards;
pub mod headers;
pub mod infra;
pub mod insight_json;
pub mod json;
pub mod json_laws;
pub mod login;
pub mod notices;
pub mod observability;
pub mod page_laws;
pub mod records;
pub mod reply;
pub mod request_security;
pub mod response_headers;
pub mod session;
pub mod shard_merge;
pub mod streaming;
pub mod sync;
pub mod sync_laws;
pub mod sync_reply_laws;
pub mod sync_transaction;
pub mod text;
pub mod text_laws;
pub mod upstream;
pub mod views;
