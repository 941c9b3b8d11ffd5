//! Resolving the key and certificate paths of a configuration against
//! the directory that holds the configuration file.
use vstd::prelude::*;

pub use crate::config::Config;
use crate::paths::{join_path, joined_path};

verus! {

/// Makes the key and certificate paths of `config` relative to
/// `parent_dir`, as `Path::join` does on Unix; the other fields stay.
pub fn resolve_relative_paths(config: Config, parent_dir: &str) -> (c: Config)
    ensures
        c.key_filepath@ == joined_path(parent_dir@, config.key_filepath@),
        c.cert_filepath@ == joined_path(parent_dir@, config.cert_filepath@),
        c.host_and_port == config.host_and_port,
        c.addresses == config.addresses,
        c.dangerous_self_signed_addresses == config.dangerous_self_signed_addresses,
{
    let key_filepath = join_path(parent_dir, config.key_filepath.as_str());
    let cert_filepath = join_path(parent_dir, config.cert_filepath.as_str());
    Config {
        host_and_port: config.host_and_port,
        key_filepath,
        cert_filepath,
        addresses: config.addresses,
        dangerous_self_signed_addresses: config.dangerous_self_signed_addresses,
    }
}

} // verus!
