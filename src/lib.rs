//! Live state synchronisation core of a cluster inspection tool: per-cluster
//! resource caches kept consistent with a remote control plane, the decisions
//! of the watch and reconciliation drivers, connection deduplication, and the
//! notification queue that feeds the user interface.
pub mod load_status;
pub mod callback_queue;
pub mod cluster;
pub mod snapshot;
pub mod text;
pub mod pod;
pub mod node;
pub mod resource;
pub mod cache;
pub mod keys;
pub mod connection;
pub mod watch;
pub mod delete;
pub mod coordinator;
pub mod env;
pub mod tab_ids;
pub mod tab;
pub mod key_handler;
pub mod user_config;
pub mod main_view;
pub mod view_model;
pub mod timestamps;
pub mod config_watch;
