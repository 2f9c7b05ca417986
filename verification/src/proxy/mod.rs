//! The proxy: client authentication, notifications and queries over HTTP.
pub mod auth;
pub mod auth_flow;
pub mod conn_info;
pub mod error;
pub mod hacks;
pub mod http_parts;
pub mod notifications;
pub mod request_flow;
pub mod sql_over_http;
