pub mod access_logs;
pub mod audit;
pub mod backfill;
pub mod backoff;
pub mod cli;
pub mod clock;
pub mod config;
pub mod decimal;
pub mod dedup;
pub mod document;
pub mod event;
pub mod events_socket;
pub mod filter;
pub mod health;
pub mod interpolate;
pub mod json;
pub mod json_file;
pub mod normalize;
pub mod order;
pub mod probe;
pub mod slack_api;
pub mod source;
pub mod spool;
pub mod string_map;
pub mod supervisor;
pub mod text;
pub mod unix_socket;
pub mod web_inventory;
