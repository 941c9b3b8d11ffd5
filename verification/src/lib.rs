//! A TLS-terminating reverse proxy's routing logic: its configuration,
//! the table from incoming host to upstream target, and the decision of
//! what to do with each request, with the answers it gives when it cannot
//! forward one.
pub mod address_map;
pub mod config;
pub mod laws;
pub mod paths;
pub mod response;
pub mod reverse_proxy;
pub mod text;
pub mod uri;
