//! The directive parser: a state machine over the lines of a configuration
//! text, gated by the most recent `Host` line, that fills in the profile of
//! one host alias.

use crate::error::{unrepresentable_path, Error, Failure};
use crate::glob::{check_host_against_glob_pattern, host_matches};
use crate::model;
use crate::profile::{agent_policy, expand, AddKeysToAgent, Config, Profile};
use crate::system::{current_user, home_dir, HomeDir};
use crate::text;
use vstd::prelude::*;
use vstd::slice::slice_subrange;

verus! {

/// The key and the value of a line: the line is trimmed and cut at its first
/// space. `None` for a line that holds no space once trimmed.
pub open spec fn directive(line: Seq<char>) -> Option<(Seq<char>, Seq<char>)> {
    let trimmed = model::trim(line);
    let cut = model::index_of(trimmed, ' ') as int;
    if cut < trimmed.len() {
        Some((trimmed.take(cut), trimmed.skip(cut + 1)))
    } else {
        None
    }
}

/// Whether `alias` matches one of the patterns that `patterns` lists,
/// separated by white space.
pub open spec fn matches_any(alias: Seq<char>, patterns: Seq<char>) -> bool {
    exists|i: int|
        0 <= i < model::words(patterns).len() && host_matches(
            alias,
            #[trigger] model::words(patterns)[i],
        )
}

/// `s` without the pair of straight single quotes around it, where it has
/// one.
pub open spec fn unquote(s: Seq<char>) -> Seq<char> {
    if s.len() > 1 && s[0] == '\'' && s.last() == '\'' {
        s.subrange(1, s.len() - 1)
    } else {
        s
    }
}

/// The path `rest` taken from the directory `home`: `rest` itself where it
/// begins with `/`, else `home` and `rest` with one `/` between them, which
/// is left out where `home` is empty or ends with one. The library joins
/// with `/` on every platform, whatever separator the platform's own paths
/// are written with.
pub open spec fn join(home: Seq<char>, rest: Seq<char>) -> Seq<char> {
    if rest.len() > 0 && rest[0] == '/' {
        rest
    } else if home.len() == 0 || home.last() == '/' {
        home + rest
    } else {
        home + seq!['/'] + rest
    }
}

/// The path `rest` taken from the home directory.
pub open spec fn under_home(rest: Seq<char>, home: HomeDir) -> Result<Seq<char>, Failure> {
    match home {
        HomeDir::Unknown => Err(Failure::NoHome),
        HomeDir::Path(dir) => Ok(join(dir@, rest)),
        HomeDir::NotUnicode => if rest.len() > 0 && rest[0] == '/' {
            Ok(rest)
        } else {
            Err(Failure::Unrepresentable)
        },
    }
}

/// The path that the value of a path directive names: the value without its
/// leading white space and without its quotes; where that begins with `~/`,
/// what follows, taken from the home directory.
pub open spec fn located(value: Seq<char>, home: HomeDir) -> Result<Seq<char>, Failure> {
    let path = unquote(model::trim_start(value));
    if path.len() >= 2 && path[0] == '~' && path[1] == '/' {
        under_home(path.skip(2), home)
    } else {
        Ok(path)
    }
}

/// Whether a lower-cased directive value leaves strict host key checking on:
/// every value but `no` does.
pub open spec fn strict_checking(lowered: Seq<char>) -> bool {
    lowered != "no"@
}

/// What the directive `key value` does to `profile`, the key given in lower
/// case. A key that is not known changes nothing.
pub open spec fn effect(profile: Profile, key: Seq<char>, value: Seq<char>, home: HomeDir) -> Result<
    Profile,
    Failure,
> {
    let argument = model::trim_start(value);
    if key == "user"@ {
        Ok(Profile { user: argument, ..profile })
    } else if key == "hostname"@ {
        Ok(Profile { host_name: expand(argument, profile), ..profile })
    } else if key == "port"@ {
        match model::parse_u16(argument) {
            Some(port) => Ok(Profile { port, ..profile }),
            None => Ok(profile),
        }
    } else if key == "identityfile"@ {
        match located(value, home) {
            Ok(path) => Ok(Profile { identity_file: Some(path), ..profile }),
            Err(failure) => Err(failure),
        }
    } else if key == "proxycommand"@ {
        Ok(Profile { proxy_command: Some(argument), ..profile })
    } else if key == "proxyjump"@ {
        Ok(Profile { proxy_jump: Some(argument), ..profile })
    } else if key == "addkeystoagent"@ {
        Ok(Profile { add_keys_to_agent: agent_policy(model::lowercase(value)), ..profile })
    } else if key == "userknownhostsfile"@ {
        match located(value, home) {
            Ok(path) => Ok(Profile { user_known_hosts_file: Some(path), ..profile }),
            Err(failure) => Err(failure),
        }
    } else if key == "stricthostkeychecking"@ {
        Ok(Profile { strict_host_key_checking: strict_checking(model::lowercase(value)), ..profile })
    } else {
        Ok(profile)
    }
}

/// The state of the parser between two lines.
pub struct Scan {
    /// Whether the most recent `Host` line matches the alias.
    pub applies: bool,
    /// The profile as the lines so far have left it.
    pub profile: Profile,
}

/// The state after `line`. A line without a value is skipped. A `Host` line
/// decides whether the lines after it apply; every other directive takes
/// effect where the most recent `Host` line matches.
pub open spec fn step(state: Scan, line: Seq<char>, alias: Seq<char>, home: HomeDir) -> Result<
    Scan,
    Failure,
> {
    match directive(line) {
        None => Ok(state),
        Some((key, value)) => {
            let key = model::lowercase(key);
            let applies = if key == "host"@ {
                matches_any(alias, value)
            } else {
                state.applies
            };
            if applies {
                match effect(state.profile, key, value, home) {
                    Ok(profile) => Ok(Scan { applies, profile }),
                    Err(failure) => Err(failure),
                }
            } else {
                Ok(Scan { applies, profile: state.profile })
            }
        },
    }
}

/// The state after `lines`, taken in order from `state`. The first failure
/// ends the scan.
pub open spec fn scan(lines: Seq<Seq<char>>, state: Scan, alias: Seq<char>, home: HomeDir) -> Result<
    Scan,
    Failure,
>
    decreases lines.len(),
{
    if lines.len() == 0 {
        Ok(state)
    } else {
        match step(state, lines[0], alias, home) {
            Ok(next) => scan(lines.skip(1), next, alias, home),
            Err(failure) => Err(failure),
        }
    }
}

/// The profile that a scan ends with.
pub open spec fn outcome(end: Result<Scan, Failure>) -> Result<Profile, Failure> {
    match end {
        Ok(state) => Ok(state.profile),
        Err(failure) => Err(failure),
    }
}

/// The state that every scan starts from: no `Host` line matches yet, and
/// the profile holds the defaults for `alias`.
pub open spec fn initial(alias: Seq<char>, user: Seq<char>) -> Scan {
    Scan { applies: false, profile: Profile::seeded(user, alias) }
}

/// The profile of `alias` that the configuration `text` gives, for the
/// current user `user` and the home directory `home`.
pub open spec fn resolve(text: Seq<char>, alias: Seq<char>, user: Seq<char>, home: HomeDir) -> Result<
    Profile,
    Failure,
> {
    outcome(scan(model::split(text, '\n'), initial(alias, user), alias, home))
}

/// Whether the result `got` is what the contracts expect: the same profile,
/// or the error that reports the same failure.
pub open spec fn agrees(got: Result<Config, Error>, expected: Result<Profile, Failure>) -> bool {
    match expected {
        Ok(profile) => got is Ok && got->Ok_0@ == profile,
        Err(failure) => got is Err && got->Err_0.reports(failure),
    }
}

/// The key and the value of a line, or `None` for a line without a value.
pub fn split_directive<'a>(line: &'a [char]) -> (parts: Option<(&'a [char], &'a [char])>)
    ensures
        match directive(line@) {
            Some((key, value)) => parts matches Some(pair) && (pair.0)@ == key && (pair.1)@
                == value,
            None => parts is None,
        },
{
    let trimmed = text::trim(line);
    let cut = text::find(trimmed, ' ');
    if cut < trimmed.len() {
        Some((slice_subrange(trimmed, 0, cut), slice_subrange(trimmed, cut + 1, trimmed.len())))
    } else {
        None
    }
}

/// Whether `alias` matches one of the patterns that `patterns` lists,
/// separated by white space.
pub fn host_line_matches(alias: &str, patterns: &[char]) -> (b: bool)
    ensures
        b == matches_any(alias@, patterns@),
{
    let list = text::words(patterns);
    let mut i: usize = 0;
    while i < list.len()
        invariant
            i <= list@.len(),
            list@.len() == model::words(patterns@).len(),
            forall|k: int| 0 <= k < list@.len() ==> (#[trigger] list@[k])@ == model::words(patterns@)[k],
            forall|k: int| 0 <= k < i ==> !host_matches(alias@, #[trigger] model::words(patterns@)[k]),
        decreases list.len() - i,
    {
        let pattern = text::string_of(list[i]);
        if check_host_against_glob_pattern(alias, pattern.as_str()) {
            assert(host_matches(alias@, model::words(patterns@)[i as int]));
            return true;
        }
        i += 1;
    }
    false
}

/// The path `rest` taken from the home directory.
pub fn path_under_home(rest: &[char], home: &HomeDir) -> (path: Result<String, Error>)
    ensures
        match under_home(rest@, *home) {
            Ok(joined) => path is Ok && path->Ok_0@ == joined,
            Err(failure) => path is Err && path->Err_0.reports(failure),
        },
{
    let absolute = rest.len() > 0 && rest[0] == '/';
    match home {
        HomeDir::Unknown => Err(Error::NoHome),
        HomeDir::Path(dir) => {
            if absolute {
                Ok(text::string_of(rest))
            } else {
                let mut joined = text::chars_of(dir.as_str());
                if joined.len() > 0 && joined[joined.len() - 1] != '/' {
                    joined.push('/');
                }
                text::append(&mut joined, rest);
                Ok(text::string_of(joined.as_slice()))
            }
        },
        HomeDir::NotUnicode => {
            if absolute {
                Ok(text::string_of(rest))
            } else {
                Err(Error::Io(unrepresentable_path()))
            }
        },
    }
}

/// The path that the value of a path directive names.
pub fn locate(value: &[char], home: &HomeDir) -> (path: Result<String, Error>)
    ensures
        match located(value@, *home) {
            Ok(found) => path is Ok && path->Ok_0@ == found,
            Err(failure) => path is Err && path->Err_0.reports(failure),
        },
{
    let mut path = text::trim_start(value);
    if path.len() > 1 && path[0] == '\'' && path[path.len() - 1] == '\'' {
        path = slice_subrange(path, 1, path.len() - 1);
    }
    if path.len() >= 2 && path[0] == '~' && path[1] == '/' {
        path_under_home(slice_subrange(path, 2, path.len()), home)
    } else {
        Ok(text::string_of(path))
    }
}

/// Whether a lower-cased directive value leaves strict host key checking on.
pub fn strict_from_lowered(lowered: &[char]) -> (strict: bool)
    ensures
        strict == strict_checking(lowered@),
{
    !text::equals(lowered, "no")
}

/// Lets the directive `key value` take effect on `config`, the key given in
/// lower case. On a failure `config` is left as it was.
pub fn apply_directive(config: &mut Config, key: &[char], value: &[char], home: &HomeDir) -> (done:
    Result<(), Error>)
    ensures
        match effect(old(config)@, key@, value@, *home) {
            Ok(profile) => done is Ok && final(config)@ == profile,
            Err(failure) => done is Err && done->Err_0.reports(failure) && final(config)@ == old(
                config,
            )@,
        },
{
    let argument = text::trim_start(value);
    if text::equals(key, "user") {
        config.user = text::string_of(argument);
    } else if text::equals(key, "hostname") {
        let expanded = config.expand_chars(argument);
        config.host_name = text::string_of(expanded.as_slice());
    } else if text::equals(key, "port") {
        match text::parse_u16(argument) {
            Some(port) => {
                config.port = port;
            },
            None => {},
        }
    } else if text::equals(key, "identityfile") {
        match locate(value, home) {
            Ok(path) => {
                config.identity_file = Some(path);
            },
            Err(error) => {
                return Err(error);
            },
        }
    } else if text::equals(key, "proxycommand") {
        config.proxy_command = Some(text::string_of(argument));
    } else if text::equals(key, "proxyjump") {
        config.proxy_jump = Some(text::string_of(argument));
    } else if text::equals(key, "addkeystoagent") {
        let lowered = text::lowercase(value);
        config.add_keys_to_agent = AddKeysToAgent::from_lowered(lowered.as_slice());
    } else if text::equals(key, "userknownhostsfile") {
        match locate(value, home) {
            Ok(path) => {
                config.user_known_hosts_file = Some(path);
            },
            Err(error) => {
                return Err(error);
            },
        }
    } else if text::equals(key, "stricthostkeychecking") {
        let lowered = text::lowercase(value);
        config.strict_host_key_checking = strict_from_lowered(lowered.as_slice());
    }
    Ok(())
}

/// Takes the parser over `line`: returns whether the lines that follow
/// apply, and lets the line take effect on `config` where it applies itself.
/// On a failure `config` is left as it was.
pub fn scan_line(config: &mut Config, applies: bool, line: &[char], alias: &str, home: &HomeDir) -> (next:
    Result<bool, Error>)
    ensures
        match step(Scan { applies, profile: old(config)@ }, line@, alias@, *home) {
            Ok(state) => next is Ok && next->Ok_0 == state.applies && final(config)@
                == state.profile,
            Err(failure) => next is Err && next->Err_0.reports(failure) && final(config)@ == old(
                config,
            )@,
        },
{
    match split_directive(line) {
        None => Ok(applies),
        Some((key, value)) => {
            let key = text::lowercase(key);
            let applies = if text::equals(key.as_slice(), "host") {
                host_line_matches(alias, value)
            } else {
                applies
            };
            if applies {
                match apply_directive(config, key.as_slice(), value, home) {
                    Ok(()) => Ok(applies),
                    Err(error) => Err(error),
                }
            } else {
                Ok(applies)
            }
        },
    }
}

/// The profile of `host` that the configuration `file` gives, for the
/// current user `user` and the home directory `home`.
///
/// Every field holds what the last directive for it said, among those that
/// stand under a `Host` line matching `host`; a field that no such directive
/// names keeps its default. Resolving fails only where a path begins with
/// `~/` and the home directory is missing or cannot be written as a string.
pub fn parse_with(file: &str, host: &str, user: &str, home: &HomeDir) -> (found: Result<
    Config,
    Error,
>)
    ensures
        agrees(found, resolve(file@, host@, user@, *home)),
        found is Err ==> found->Err_0 is NoHome || found->Err_0 is Io,
{
    let content = text::chars_of(file);
    let mut config = Config::with_user(user, host);
    let mut applies = false;
    let mut position: usize = 0;
    let mut finished = false;
    proof {
        assert(content@.skip(0) =~= content@);
    }
    while !finished
        invariant
            position <= content@.len(),
            content@ == file@,
            !finished ==> resolve(file@, host@, user@, *home) == outcome(
                scan(
                    model::split(content@.skip(position as int), '\n'),
                    Scan { applies, profile: config@ },
                    host@,
                    *home,
                ),
            ),
            finished ==> resolve(file@, host@, user@, *home) == Ok::<Profile, Failure>(config@),
        decreases content@.len() - position + (if finished { 0int } else { 1int }),
    {
        let rest = slice_subrange(content.as_slice(), position, content.len());
        let end = text::find(rest, '\n');
        let line = slice_subrange(rest, 0, end);
        let ghost state = Scan { applies, profile: config@ };
        let ghost lines = model::split(rest@, '\n');
        proof {
            assert(rest@ =~= content@.skip(position as int));
            assert(line@ =~= rest@.take(end as int));
            assert(lines[0] == line@);
            if end < rest@.len() {
                assert(lines.skip(1) =~= model::split(rest@.skip(end + 1), '\n'));
                assert(rest@.skip(end + 1) =~= content@.skip(position + end + 1));
            } else {
                assert(lines.skip(1) =~= Seq::<Seq<char>>::empty());
            }
        }
        match scan_line(&mut config, applies, line, host, home) {
            Ok(next) => {
                applies = next;
            },
            Err(error) => {
                return Err(error);
            },
        }
        if end < rest.len() {
            position = position + end + 1;
        } else {
            proof {
                let reached = Scan { applies, profile: config@ };
                assert(scan(lines.skip(1), reached, host@, *home) == Ok::<Scan, Failure>(reached));
            }
            finished = true;
        }
    }
    Ok(config)
}

/// The profile of `host` that the configuration `file` gives, for the user
/// that runs the process and that user's home directory.
///
/// Both are asked of the operating system when the call is made, so the
/// contract holds for whatever they turn out to be.
pub fn parse(file: &str, host: &str) -> (found: Result<Config, Error>)
    ensures
        exists|user: Seq<char>, home: HomeDir|
            agrees(found, #[trigger] resolve(file@, host@, user, home)),
        found is Err ==> found->Err_0 is NoHome || found->Err_0 is Io,
{
    let user = current_user();
    let home = home_dir();
    let found = parse_with(file, host, user.as_str(), &home);
    assert(agrees(found, resolve(file@, host@, user@, home)));
    found
}

} // verus!
