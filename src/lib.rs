//! The request plane of a local-development reverse proxy and DNS
//! responder for the `.roxy` zone: domain patterns and routes, the
//! registry snapshot and dispatch, proxy header rules, static-file path
//! handling and pages, DNS reply decisions, and certificate selection with
//! a bounded on-demand cache. Sockets, files and TLS live with the caller.

pub mod config;
pub mod dns;
pub mod domain;
pub mod headers;
pub mod listing;
pub mod pages;
pub mod registration;
pub mod route;
pub mod router;
pub mod static_files;
pub mod text;
pub mod theme;
pub mod tls;
