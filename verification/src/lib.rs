//! Resolves the connection profile of a host from an OpenSSH-style client
//! configuration: the user, the real host name, the port, the identity file,
//! the proxy directives and the policies on known hosts and on the key agent.

pub mod error;
pub mod glob;
pub mod laws;
pub mod model;
pub mod parser;
pub mod profile;
pub mod system;
pub mod text;
pub mod transport;

pub use error::Error;
pub use glob::check_host_against_glob_pattern;
pub use parser::{parse, parse_with};
pub use profile::{AddKeysToAgent, Config};
pub use system::HomeDir;
pub use transport::{first_resolved, Transport};
