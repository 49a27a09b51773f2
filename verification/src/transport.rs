//! How the host of a profile is reached: through a proxy command or by a
//! direct connection. The library decides; opening the stream is left to the
//! caller.

use crate::error::Error;
use crate::model;
use crate::profile::{expand, Config, Profile};
use crate::text;
use vstd::prelude::*;

verus! {

/// The way to the host of a profile.
#[derive(Debug)]
pub enum Transport {
    /// Run `command` with `args` and talk to the host through its standard
    /// input and output.
    Proxy { command: String, args: Vec<String> },
    /// Resolve `host_name` and connect to `port` at its first address.
    Direct { host_name: String, port: u16 },
}

/// What a `Transport` holds, as mathematical values.
pub enum Route {
    Proxy { command: Seq<char>, args: Seq<Seq<char>> },
    Direct { host_name: Seq<char>, port: u16 },
}

impl View for Transport {
    type V = Route;

    open spec fn view(&self) -> Route {
        match self {
            Transport::Proxy { command, args } => Route::Proxy {
                command: command@,
                args: Seq::new(args@.len(), |i: int| args@[i]@),
            },
            Transport::Direct { host_name, port } => Route::Direct {
                host_name: host_name@,
                port: *port,
            },
        }
    }
}

/// The way to the host of `profile`. Where a proxy command is set, it is
/// expanded against the profile and cut at every single space: the first
/// piece is the command, which may be empty, and the others are its
/// arguments. Else the host is reached directly.
pub open spec fn route(profile: Profile) -> Route {
    match profile.proxy_command {
        Some(proxy_command) => {
            let pieces = model::split(expand(proxy_command, profile), ' ');
            Route::Proxy { command: pieces[0], args: pieces.skip(1) }
        },
        None => Route::Direct { host_name: profile.host_name, port: profile.port },
    }
}

impl Config {
    /// The way to the host of this profile.
    pub fn transport(&self) -> (way: Transport)
        ensures
            way@ == route(self@),
    {
        match &self.proxy_command {
            Some(proxy_command) => {
                let template = text::chars_of(proxy_command.as_str());
                let expanded = self.expand_chars(template.as_slice());
                let pieces = text::split(expanded.as_slice(), ' ');
                let command = text::string_of(pieces[0]);
                let mut args: Vec<String> = Vec::new();
                let mut i: usize = 1;
                while i < pieces.len()
                    invariant
                        1 <= i <= pieces@.len(),
                        args@.len() == i - 1,
                        forall|k: int| 0 <= k < args@.len() ==> (#[trigger] args@[k])@ == pieces@[k
                            + 1]@,
                    decreases pieces.len() - i,
                {
                    args.push(text::string_of(pieces[i]));
                    i += 1;
                }
                proof {
                    let expected = model::split(expand(proxy_command@, self@), ' ');
                    assert(Seq::new(args@.len(), |i: int| args@[i]@) =~= expected.skip(1));
                }
                Transport::Proxy { command, args }
            },
            None => Transport::Direct { host_name: self.host_name.clone(), port: self.port },
        }
    }
}

/// The address to connect to, among those that resolving a host gave: the
/// first one. Where there is none, the host is not resolvable.
pub fn first_resolved<A>(candidates: Vec<A>) -> (address: Result<A, Error>)
    ensures
        candidates@.len() == 0 ==> address is Err && address->Err_0 is NotResolvable,
        candidates@.len() > 0 ==> address is Ok && address->Ok_0 == candidates@[0],
{
    let mut candidates = candidates;
    if candidates.len() == 0 {
        Err(Error::NotResolvable)
    } else {
        Ok(candidates.swap_remove(0))
    }
}

} // verus!
