//! What the library asks of the machine it runs on: who the current user is
//! and where that user's home directory lies.

use vstd::prelude::*;

verus! {

/// What is known of the current user's home directory.
#[derive(Debug)]
pub enum HomeDir {
    /// There is none, or it cannot be determined.
    Unknown,
    /// Its path.
    Path(String),
    /// There is one, and its path is not valid Unicode.
    NotUnicode,
}

/// `whoami::username`: the name of the user that runs the process. It is
/// read from the operating system, so nothing is claimed of it.
#[verifier::external_body]
pub(crate) fn current_user() -> String {
    whoami::username()
}

/// `home::home_dir`: the current user's home directory. It is read from the
/// variables of the process and from the operating system, so nothing is
/// claimed of it. The path is handed on as a string where it is valid
/// Unicode.
#[verifier::external_body]
pub(crate) fn home_dir() -> HomeDir {
    match home::home_dir() {
        None => HomeDir::Unknown,
        Some(path) => match path.into_os_string().into_string() {
            Ok(text) => HomeDir::Path(text),
            Err(_) => HomeDir::NotUnicode,
        },
    }
}

} // verus!
