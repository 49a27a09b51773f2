//! The connection profile of a host, and the expansion of percent tokens
//! against it.

use crate::model;
use crate::system::current_user;
use crate::text;
use vstd::prelude::*;

verus! {

/// Whether keys that a connection uses are handed to the running key agent.
#[derive(Debug, Clone, Copy, PartialEq, Eq, Structural)]
pub enum AddKeysToAgent {
    Yes,
    Confirm,
    Ask,
    No,
}

impl Default for AddKeysToAgent {
    fn default() -> (policy: Self)
        ensures
            policy == AddKeysToAgent::No,
    {
        AddKeysToAgent::No
    }
}

/// The policy that a lower-cased directive value asks for.
pub open spec fn agent_policy(lowered: Seq<char>) -> AddKeysToAgent {
    if lowered == "yes"@ {
        AddKeysToAgent::Yes
    } else if lowered == "confirm"@ {
        AddKeysToAgent::Confirm
    } else if lowered == "ask"@ {
        AddKeysToAgent::Ask
    } else {
        AddKeysToAgent::No
    }
}

impl AddKeysToAgent {
    /// The policy that a directive value asks for, the value given in lower
    /// case: `yes`, `confirm` or `ask`; anything else is `No`.
    pub fn from_lowered(lowered: &[char]) -> (policy: Self)
        ensures
            policy == agent_policy(lowered@),
    {
        if text::equals(lowered, "yes") {
            AddKeysToAgent::Yes
        } else if text::equals(lowered, "confirm") {
            AddKeysToAgent::Confirm
        } else if text::equals(lowered, "ask") {
            AddKeysToAgent::Ask
        } else {
            AddKeysToAgent::No
        }
    }
}

/// The resolved connection profile of one host.
#[derive(Debug)]
pub struct Config {
    pub user: String,
    pub host_name: String,
    pub port: u16,
    pub identity_file: Option<String>,
    pub proxy_command: Option<String>,
    pub proxy_jump: Option<String>,
    pub add_keys_to_agent: AddKeysToAgent,
    pub user_known_hosts_file: Option<String>,
    pub strict_host_key_checking: bool,
}

/// What a `Config` holds, as mathematical values.
pub struct Profile {
    pub user: Seq<char>,
    pub host_name: Seq<char>,
    pub port: u16,
    pub identity_file: Option<Seq<char>>,
    pub proxy_command: Option<Seq<char>>,
    pub proxy_jump: Option<Seq<char>>,
    pub add_keys_to_agent: AddKeysToAgent,
    pub user_known_hosts_file: Option<Seq<char>>,
    pub strict_host_key_checking: bool,
}

/// The characters of an optional string.
pub open spec fn text_of(s: Option<String>) -> Option<Seq<char>> {
    match s {
        Some(text) => Some(text@),
        None => None,
    }
}

impl View for Config {
    type V = Profile;

    open spec fn view(&self) -> Profile {
        Profile {
            user: self.user@,
            host_name: self.host_name@,
            port: self.port,
            identity_file: text_of(self.identity_file),
            proxy_command: text_of(self.proxy_command),
            proxy_jump: text_of(self.proxy_jump),
            add_keys_to_agent: self.add_keys_to_agent,
            user_known_hosts_file: text_of(self.user_known_hosts_file),
            strict_host_key_checking: self.strict_host_key_checking,
        }
    }
}

impl Profile {
    /// The profile that resolving starts from: the given user, the alias as
    /// host name, port 22, strict host key checking, keys not added to the
    /// agent, and nothing else set.
    pub open spec fn seeded(user: Seq<char>, alias: Seq<char>) -> Profile {
        Profile {
            user,
            host_name: alias,
            port: 22,
            identity_file: None,
            proxy_command: None,
            proxy_jump: None,
            add_keys_to_agent: AddKeysToAgent::No,
            user_known_hosts_file: None,
            strict_host_key_checking: true,
        }
    }
}

/// `template` with its percent tokens replaced from `profile`, in five
/// passes, each over the whole result of the one before: `%u` by the user,
/// `%h` and then `%H` by the host name, `%p` by the port in decimal, and
/// last `%%` by `%`. A token that an earlier pass brought in is replaced by a
/// later one.
pub open spec fn expand(template: Seq<char>, profile: Profile) -> Seq<char> {
    let user = model::substitute(template, 'u', profile.user);
    let host = model::substitute(user, 'h', profile.host_name);
    let host = model::substitute(host, 'H', profile.host_name);
    let port = model::substitute(host, 'p', model::decimal(profile.port as nat));
    model::substitute(port, '%', seq!['%'])
}

impl Config {
    /// The profile that resolving starts from for `host_name`, with the
    /// current user of the process as user.
    pub fn default(host_name: &str) -> (config: Self)
        ensures
            config@ == Profile::seeded(config.user@, host_name@),
    {
        let user = current_user();
        Config::with_user(user.as_str(), host_name)
    }

    /// The profile that resolving starts from for `host_name`, with `user` as
    /// user.
    pub fn with_user(user: &str, host_name: &str) -> (config: Self)
        ensures
            config@ == Profile::seeded(user@, host_name@),
    {
        Config {
            user: user.to_owned(),
            host_name: host_name.to_owned(),
            port: 22,
            identity_file: None,
            proxy_command: None,
            proxy_jump: None,
            add_keys_to_agent: AddKeysToAgent::default(),
            user_known_hosts_file: None,
            strict_host_key_checking: true,
        }
    }

    /// `template` with its percent tokens replaced from this profile.
    pub fn expand_chars(&self, template: &[char]) -> (expanded: Vec<char>)
        ensures
            expanded@ == expand(template@, self@),
    {
        let user = text::chars_of(self.user.as_str());
        let host_name = text::chars_of(self.host_name.as_str());
        let port = text::decimal(self.port);
        let mut percent: Vec<char> = Vec::new();
        percent.push('%');
        assert(percent@ =~= seq!['%']);
        let expanded = text::substitute(template, 'u', user.as_slice());
        let expanded = text::substitute(expanded.as_slice(), 'h', host_name.as_slice());
        let expanded = text::substitute(expanded.as_slice(), 'H', host_name.as_slice());
        let expanded = text::substitute(expanded.as_slice(), 'p', port.as_slice());
        text::substitute(expanded.as_slice(), '%', percent.as_slice())
    }

    /// `template` with its percent tokens replaced from this profile: `%u` by
    /// the user, `%h` and `%H` by the host name, `%p` by the port and `%%` by
    /// `%`, one pass after the other.
    pub fn expand_tokens(&self, template: &str) -> (expanded: String)
        ensures
            expanded@ == expand(template@, self@),
    {
        let template = text::chars_of(template);
        let expanded = self.expand_chars(template.as_slice());
        text::string_of(expanded.as_slice())
    }
}

} // verus!
