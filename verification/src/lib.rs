//! Verified core logic of an SSH session manager: the SSH agent wire protocol
//! filter, SFTP path handling, tunnel request validation and bookkeeping,
//! host key trust decisions, loaded-store normalization and related parsers.
pub mod text;
pub mod keyed;
pub mod identity;
pub mod agent_protocol;
pub mod remote_path;
pub mod sftp_resume;
pub mod sftp_walk;
pub mod profile;
pub mod auth;
pub mod gssapi_cache;
pub mod libssh_auth;
pub mod libssh_establish;
pub mod agent_auth;
pub mod key_auth;
pub mod channel;
pub mod establish;
pub mod store_commit;
pub mod reader;
pub mod remote_command;
pub mod listener_probe;
pub mod tunnel;
pub mod tunnel_request;
pub mod tunnel_health;
pub mod tunnel_capacity;
pub mod tunnel_store;
pub mod forward_routes;
pub mod tunnel_listing;
pub mod workers;
pub mod shell_launch;
pub mod local_path;
pub mod health;
pub mod reconnect;
pub mod host_keys;
pub mod jump_hosts;
pub mod jump_chain;
pub mod host_key_store;
pub mod host_key_verify;
pub mod one_time_keys;
pub mod record_ids;
pub mod session_remap;
