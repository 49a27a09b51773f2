//! What holds of the parser for every configuration text: which directive
//! decides a setting, and when nothing changes or fails.

use crate::error::Failure;
use crate::glob::{host_matches, is_special, no_backslash, plain};
use crate::model;
use crate::parser::{directive, effect, initial, matches_any, resolve, scan, step, strict_checking, Scan};
use crate::profile::{agent_policy, AddKeysToAgent, Profile};
use crate::system::HomeDir;
use vstd::prelude::*;

verus! {

/// Whether `line` is a directive whose key, in lower case, is `key`.
pub open spec fn names(line: Seq<char>, key: Seq<char>) -> bool {
    directive(line) matches Some(parts) && model::lowercase(parts.0) == key
}

/// The value of the directive `line`; empty where `line` is none.
pub open spec fn value_of(line: Seq<char>) -> Seq<char> {
    match directive(line) {
        Some(parts) => parts.1,
        None => Seq::empty(),
    }
}

/// Whether the profiles `a` and `b` agree on the setting that the directive
/// `key` governs. They agree on every key that governs none.
pub open spec fn same_setting(a: Profile, b: Profile, key: Seq<char>) -> bool {
    &&& key == "user"@ ==> a.user == b.user
    &&& key == "hostname"@ ==> a.host_name == b.host_name
    &&& key == "port"@ ==> a.port == b.port
    &&& key == "identityfile"@ ==> a.identity_file == b.identity_file
    &&& key == "proxycommand"@ ==> a.proxy_command == b.proxy_command
    &&& key == "proxyjump"@ ==> a.proxy_jump == b.proxy_jump
    &&& key == "addkeystoagent"@ ==> a.add_keys_to_agent == b.add_keys_to_agent
    &&& key == "userknownhostsfile"@ ==> a.user_known_hosts_file == b.user_known_hosts_file
    &&& key == "stricthostkeychecking"@ ==> a.strict_host_key_checking
        == b.strict_host_key_checking
}

/// The keys of the directives are ten different words.
proof fn lemma_keys_differ()
    ensures
        "user"@.len() == 4 && "user"@[0] == 'u',
        "hostname"@.len() == 8,
        "port"@.len() == 4 && "port"@[0] == 'p',
        "identityfile"@.len() == 12 && "identityfile"@[0] == 'i',
        "proxycommand"@.len() == 12 && "proxycommand"@[0] == 'p',
        "proxyjump"@.len() == 9,
        "addkeystoagent"@.len() == 14,
        "userknownhostsfile"@.len() == 18,
        "stricthostkeychecking"@.len() == 21,
        "host"@.len() == 4 && "host"@[0] == 'h',
{
    reveal_strlit("user");
    reveal_strlit("hostname");
    reveal_strlit("port");
    reveal_strlit("identityfile");
    reveal_strlit("proxycommand");
    reveal_strlit("proxyjump");
    reveal_strlit("addkeystoagent");
    reveal_strlit("userknownhostsfile");
    reveal_strlit("stricthostkeychecking");
    reveal_strlit("host");
}

/// A directive leaves alone every setting that another key governs.
pub proof fn lemma_directive_keeps_other_settings(
    profile: Profile,
    key: Seq<char>,
    value: Seq<char>,
    home: HomeDir,
    other: Seq<char>,
)
    requires
        key != other,
        effect(profile, key, value, home) is Ok,
    ensures
        same_setting(profile, effect(profile, key, value, home)->Ok_0, other),
{
}

/// Scanning `first` and then `second` is scanning the two in one go.
pub proof fn lemma_scan_in_two_parts(
    first: Seq<Seq<char>>,
    second: Seq<Seq<char>>,
    start: Scan,
    alias: Seq<char>,
    home: HomeDir,
)
    ensures
        scan(first + second, start, alias, home) == match scan(first, start, alias, home) {
            Ok(reached) => scan(second, reached, alias, home),
            Err(failure) => Err(failure),
        },
    decreases first.len(),
{
    if first.len() == 0 {
        assert(first + second =~= second);
    } else {
        assert((first + second)[0] == first[0]);
        assert((first + second).skip(1) =~= first.skip(1) + second);
        match step(start, first[0], alias, home) {
            Ok(next) => {
                lemma_scan_in_two_parts(first.skip(1), second, next, alias, home);
            },
            Err(_) => {},
        }
    }
}

/// A setting stays as it is over lines of which none is a directive for its
/// key: a key that a text never names keeps its default.
pub proof fn lemma_unnamed_setting_is_kept(
    lines: Seq<Seq<char>>,
    start: Scan,
    alias: Seq<char>,
    home: HomeDir,
    key: Seq<char>,
)
    requires
        forall|i: int| 0 <= i < lines.len() ==> !names(#[trigger] lines[i], key),
        scan(lines, start, alias, home) is Ok,
    ensures
        same_setting(start.profile, scan(lines, start, alias, home)->Ok_0.profile, key),
    decreases lines.len(),
{
    if lines.len() > 0 {
        let next = step(start, lines[0], alias, home)->Ok_0;
        assert(!names(lines[0], key));
        match directive(lines[0]) {
            Some((name, value)) => {
                let name = model::lowercase(name);
                if next.profile != start.profile {
                    lemma_directive_keeps_other_settings(start.profile, name, value, home, key);
                }
            },
            None => {},
        }
        assert forall|i: int| 0 <= i < lines.skip(1).len() implies !names(
            #[trigger] lines.skip(1)[i],
            key,
        ) by {
            assert(lines.skip(1)[i] == lines[i + 1]);
        }
        lemma_unnamed_setting_is_kept(lines.skip(1), next, alias, home, key);
    }
}

/// The last match wins. Where `line` is a directive for `key` that stands
/// under a matching `Host` line, and no line after it is a directive for
/// `key`, the setting that `key` governs ends as `line` left it, whatever the
/// lines before it had made of it.
pub proof fn lemma_last_directive_wins(
    before: Seq<Seq<char>>,
    line: Seq<char>,
    after: Seq<Seq<char>>,
    start: Scan,
    alias: Seq<char>,
    home: HomeDir,
    key: Seq<char>,
)
    requires
        names(line, key),
        key != "host"@,
        scan(before, start, alias, home) is Ok,
        scan(before, start, alias, home)->Ok_0.applies,
        forall|i: int| 0 <= i < after.len() ==> !names(#[trigger] after[i], key),
        scan(before + seq![line] + after, start, alias, home) is Ok,
    ensures
        ({
            let reached = scan(before, start, alias, home)->Ok_0;
            let value = value_of(line);
            let end = scan(before + seq![line] + after, start, alias, home)->Ok_0;
            &&& effect(reached.profile, key, value, home) is Ok
            &&& same_setting(end.profile, effect(reached.profile, key, value, home)->Ok_0, key)
        }),
{
    let reached = scan(before, start, alias, home)->Ok_0;
    assert(before + seq![line] + after =~= before + (seq![line] + after));
    lemma_scan_in_two_parts(before, seq![line] + after, start, alias, home);
    lemma_scan_in_two_parts(seq![line], after, reached, alias, home);
    assert(seq![line].skip(1) =~= Seq::<Seq<char>>::empty());
    assert(seq![line][0] == line);
    let next = step(reached, line, alias, home)->Ok_0;
    assert(scan(seq![line], reached, alias, home) == Ok::<Scan, Failure>(next)) by {
        assert(scan(seq![line].skip(1), next, alias, home) == Ok::<Scan, Failure>(next));
    }
    lemma_unnamed_setting_is_kept(after, next, alias, home, key);
}

/// Of two blocks that both match the alias and both hold a directive for
/// `key`, the second decides: the setting ends as the directive of the second
/// block leaves it.
pub proof fn lemma_second_block_wins(
    first_host: Seq<char>,
    first: Seq<char>,
    second_host: Seq<char>,
    second: Seq<char>,
    alias: Seq<char>,
    user: Seq<char>,
    home: HomeDir,
    key: Seq<char>,
)
    requires
        names(first_host, "host"@) && matches_any(alias, value_of(first_host)),
        names(second_host, "host"@) && matches_any(alias, value_of(second_host)),
        names(first, key) && names(second, key),
        key != "host"@,
        scan(seq![first_host, first, second_host, second], initial(alias, user), alias, home) is Ok,
    ensures
        ({
            let before = seq![first_host, first, second_host];
            let reached = scan(before, initial(alias, user), alias, home)->Ok_0;
            let end = scan(
                seq![first_host, first, second_host, second],
                initial(alias, user),
                alias,
                home,
            )->Ok_0;
            &&& effect(reached.profile, key, value_of(second), home) is Ok
            &&& same_setting(
                end.profile,
                effect(reached.profile, key, value_of(second), home)->Ok_0,
                key,
            )
        }),
{
    lemma_keys_differ();
    let start = initial(alias, user);
    let before = seq![first_host, first, second_host];
    let all = seq![first_host, first, second_host, second];
    assert(all =~= before + seq![second] + Seq::<Seq<char>>::empty());
    assert(before =~= seq![first_host, first] + seq![second_host]);
    lemma_scan_in_two_parts(before, seq![second], start, alias, home);
    lemma_scan_in_two_parts(seq![first_host, first], seq![second_host], start, alias, home);
    assert(all =~= before + seq![second]);
    let opened = scan(seq![first_host, first], start, alias, home)->Ok_0;
    assert(seq![second_host].skip(1) =~= Seq::<Seq<char>>::empty());
    assert(seq![second_host][0] == second_host);
    let reached = step(opened, second_host, alias, home)->Ok_0;
    assert(scan(seq![second_host], opened, alias, home) == Ok::<Scan, Failure>(reached)) by {
        assert(scan(seq![second_host].skip(1), reached, alias, home) == Ok::<Scan, Failure>(
            reached,
        ));
    }
    lemma_last_directive_wins(before, second, Seq::empty(), start, alias, home, key);
}

/// A pattern without a character of special meaning matches the alias that
/// is the same text, and no other.
pub proof fn lemma_plain_pattern_matches_itself_only(alias: Seq<char>, pattern: Seq<char>)
    requires
        plain(pattern),
        no_backslash(alias),
    ensures
        host_matches(alias, pattern) == (alias == pattern),
{
    if pattern == seq!['*'] {
        assert(is_special(pattern[0]));
    }
}

/// A `Host` line of plain patterns opens a block for the aliases that it
/// lists, and for no other.
pub proof fn lemma_plain_host_line_lists_its_aliases(alias: Seq<char>, patterns: Seq<char>)
    requires
        no_backslash(alias),
        forall|i: int|
            0 <= i < model::words(patterns).len() ==> plain(#[trigger] model::words(patterns)[i]),
    ensures
        matches_any(alias, patterns) == model::words(patterns).contains(alias),
{
    let listed = model::words(patterns);
    if matches_any(alias, patterns) {
        let i = choose|i: int| 0 <= i < listed.len() && host_matches(alias, #[trigger] listed[i]);
        lemma_plain_pattern_matches_itself_only(alias, listed[i]);
        assert(listed[i] == alias);
    }
    if listed.contains(alias) {
        let i = choose|i: int| 0 <= i < listed.len() && listed[i] == alias;
        lemma_plain_pattern_matches_itself_only(alias, listed[i]);
        assert(host_matches(alias, listed[i]));
    }
}

/// A list of patterns matches where any one of its patterns does.
pub proof fn lemma_any_pattern_suffices(alias: Seq<char>, patterns: Seq<char>, i: int)
    requires
        0 <= i < model::words(patterns).len(),
        host_matches(alias, model::words(patterns)[i]),
    ensures
        matches_any(alias, patterns),
{
}

/// Where no `Host` line of `text` matches `alias`, the profile is the one
/// that resolving starts from: the defaults, the alias as host name.
pub proof fn lemma_unmatched_alias_keeps_defaults(
    text: Seq<char>,
    alias: Seq<char>,
    user: Seq<char>,
    home: HomeDir,
)
    requires
        forall|i: int|
            0 <= i < model::split(text, '\n').len() && names(
                #[trigger] model::split(text, '\n')[i],
                "host"@,
            ) ==> !matches_any(alias, value_of(model::split(text, '\n')[i])),
    ensures
        resolve(text, alias, user, home) == Ok::<Profile, Failure>(Profile::seeded(user, alias)),
{
    lemma_unmatched_lines_change_nothing(
        model::split(text, '\n'),
        initial(alias, user),
        alias,
        home,
    );
}

/// Lines that stand under no matching `Host` line, and bring none, leave the
/// state of the parser as it is.
pub proof fn lemma_unmatched_lines_change_nothing(
    lines: Seq<Seq<char>>,
    start: Scan,
    alias: Seq<char>,
    home: HomeDir,
)
    requires
        !start.applies,
        forall|i: int|
            0 <= i < lines.len() && names(#[trigger] lines[i], "host"@) ==> !matches_any(
                alias,
                value_of(lines[i]),
            ),
    ensures
        scan(lines, start, alias, home) == Ok::<Scan, Failure>(start),
    decreases lines.len(),
{
    if lines.len() > 0 {
        assert(names(lines[0], "host"@) ==> !matches_any(alias, value_of(lines[0])));
        assert(step(start, lines[0], alias, home) == Ok::<Scan, Failure>(start));
        assert forall|i: int|
            0 <= i < lines.skip(1).len() && names(
                #[trigger] lines.skip(1)[i],
                "host"@,
            ) implies !matches_any(alias, value_of(lines.skip(1)[i])) by {
            assert(lines.skip(1)[i] == lines[i + 1]);
        }
        lemma_unmatched_lines_change_nothing(lines.skip(1), start, alias, home);
    }
}

/// Every alias matches a list of patterns that holds `*`.
pub proof fn lemma_star_matches_every_alias(alias: Seq<char>, patterns: Seq<char>)
    requires
        model::words(patterns).contains(seq!['*']),
    ensures
        matches_any(alias, patterns),
{
    let i = choose|i: int|
        0 <= i < model::words(patterns).len() && model::words(patterns)[i] == seq!['*'];
    assert(host_matches(alias, model::words(patterns)[i]));
}

/// A `Host` line that lists `*` opens a block that applies to every alias.
pub proof fn lemma_host_star_applies(state: Scan, line: Seq<char>, alias: Seq<char>, home: HomeDir)
    requires
        names(line, "host"@),
        model::words(value_of(line)).contains(seq!['*']),
    ensures
        step(state, line, alias, home) is Ok,
        step(state, line, alias, home)->Ok_0.applies,
        step(state, line, alias, home)->Ok_0.profile == state.profile,
{
    lemma_keys_differ();
    lemma_star_matches_every_alias(alias, value_of(line));
}

/// Resolving fails only for want of a home directory: with one whose path is
/// known, every text gives a profile.
pub proof fn lemma_known_home_always_resolves(
    text: Seq<char>,
    alias: Seq<char>,
    user: Seq<char>,
    home: HomeDir,
)
    requires
        home is Path,
    ensures
        resolve(text, alias, user, home) is Ok,
{
    lemma_known_home_never_fails(model::split(text, '\n'), initial(alias, user), alias, home);
}

/// With a home directory whose path is known, no directive fails.
pub proof fn lemma_known_home_never_fails(
    lines: Seq<Seq<char>>,
    start: Scan,
    alias: Seq<char>,
    home: HomeDir,
)
    requires
        home is Path,
    ensures
        scan(lines, start, alias, home) is Ok,
    decreases lines.len(),
{
    if lines.len() > 0 {
        assert(step(start, lines[0], alias, home) is Ok);
        lemma_known_home_never_fails(
            lines.skip(1),
            step(start, lines[0], alias, home)->Ok_0,
            alias,
            home,
        );
    }
}

/// A `Port` directive whose value writes no 16-bit number changes nothing.
pub proof fn lemma_unreadable_port_is_ignored(profile: Profile, value: Seq<char>, home: HomeDir)
    requires
        model::parse_u16(model::trim_start(value)) is None,
    ensures
        effect(profile, "port"@, value, home) == Ok::<Profile, Failure>(profile),
{
    lemma_keys_differ();
}

/// A `Port` directive whose value writes a 16-bit number sets the port to it.
pub proof fn lemma_port_is_set(profile: Profile, value: Seq<char>, home: HomeDir)
    requires
        model::parse_u16(model::trim_start(value)) is Some,
    ensures
        effect(profile, "port"@, value, home) == Ok::<Profile, Failure>(
            Profile { port: model::parse_u16(model::trim_start(value))->0, ..profile },
        ),
{
    lemma_keys_differ();
}

/// An `AddKeysToAgent` directive sets the policy that its value, in lower
/// case, asks for: `No` for every value but `yes`, `confirm` and `ask`.
pub proof fn lemma_agent_policy_is_set(profile: Profile, value: Seq<char>, home: HomeDir)
    ensures
        effect(profile, "addkeystoagent"@, value, home) == Ok::<Profile, Failure>(
            Profile { add_keys_to_agent: agent_policy(model::lowercase(value)), ..profile },
        ),
        model::lowercase(value) == "confirm"@ ==> agent_policy(model::lowercase(value))
            == AddKeysToAgent::Confirm,
        model::lowercase(value) != "yes"@ && model::lowercase(value) != "confirm"@
            && model::lowercase(value) != "ask"@ ==> agent_policy(model::lowercase(value))
            == AddKeysToAgent::No,
{
    lemma_keys_differ();
    reveal_strlit("yes");
    reveal_strlit("confirm");
    assert("yes"@.len() == 3 && "confirm"@.len() == 7);
}

/// A `StrictHostKeyChecking` directive turns the checking off where its
/// value, in lower case, is `no`, and on for every other value.
pub proof fn lemma_strict_checking_is_set(profile: Profile, value: Seq<char>, home: HomeDir)
    ensures
        effect(profile, "stricthostkeychecking"@, value, home) == Ok::<Profile, Failure>(
            Profile {
                strict_host_key_checking: strict_checking(model::lowercase(value)),
                ..profile
            },
        ),
{
    lemma_keys_differ();
}

/// Strict host key checking is on in the profile of every text that holds no
/// `StrictHostKeyChecking` directive.
pub proof fn lemma_strict_checking_by_default(
    text: Seq<char>,
    alias: Seq<char>,
    user: Seq<char>,
    home: HomeDir,
)
    requires
        forall|i: int|
            0 <= i < model::split(text, '\n').len() ==> !names(
                #[trigger] model::split(text, '\n')[i],
                "stricthostkeychecking"@,
            ),
        resolve(text, alias, user, home) is Ok,
    ensures
        resolve(text, alias, user, home)->Ok_0.strict_host_key_checking,
{
    lemma_unnamed_setting_is_kept(
        model::split(text, '\n'),
        initial(alias, user),
        alias,
        home,
        "stricthostkeychecking"@,
    );
}

} // verus!
