use russh_config::check_host_against_glob_pattern;
use russh_config::glob::{accepted, is_compilable, is_searchable, is_special_char, LENGTH_LIMIT, NESTING_LIMIT};
use russh_config::parser::host_line_matches;

fn chars(s: &str) -> Vec<char> {
    s.chars().collect()
}

#[test]
fn star_matches_every_alias() {
    for alias in ["", "a", "example", "web1.example.com", "user@host", "a/b", "a b", "*", "\n", "é"] {
        assert!(check_host_against_glob_pattern(alias, "*"), "{:?}", alias);
    }
}

#[test]
fn question_mark_matches_one_character() {
    assert!(check_host_against_glob_pattern("web1", "web?"));
    assert!(!check_host_against_glob_pattern("webapp", "web?"));
    assert!(!check_host_against_glob_pattern("web", "web?"));
}

#[test]
fn literal_patterns_and_classes() {
    assert!(check_host_against_glob_pattern("example", "example"));
    assert!(!check_host_against_glob_pattern("example", "other"));
    assert!(check_host_against_glob_pattern("db2", "db[123]"));
    assert!(!check_host_against_glob_pattern("db4", "db[123]"));
    assert!(check_host_against_glob_pattern("a.example.com", "*.example.com"));
    assert!(!check_host_against_glob_pattern("example.org", "*.example.com"));
}

#[test]
fn a_malformed_pattern_matches_nothing() {
    assert!(!check_host_against_glob_pattern("a", "[a"));
    assert!(!check_host_against_glob_pattern("[a", "[a"));
    assert!(!check_host_against_glob_pattern("a", "{a"));
    assert!(!check_host_against_glob_pattern("a", "a}"));
}

#[test]
fn a_pattern_without_metacharacters_matches_itself_only() {
    let patterns = [
        "example", "web1.example.com", "a", "user@host", "a-b_c", "héllo", "a/b", "", "a|b", "(x)",
        "^a$", "a+b", "!x", "a b", "x.", "$", "a\nb", "\u{10348}",
    ];
    let candidates = [
        "example", "web1.example.com", "a", "user@host", "a-b_c", "héllo", "a/b", "", "exampl",
        "examples", "xexample", "EXAMPLE", "a|b", "b", "(x)", "x", "^a$", "a+b", "aab", "!x", "a b",
        "x.", "xy", "$", "a\nb", "a\n", "\u{10348}",
    ];
    for pattern in patterns {
        for candidate in candidates {
            assert_eq!(
                check_host_against_glob_pattern(candidate, pattern),
                candidate == pattern,
                "{:?} against {:?}",
                candidate,
                pattern
            );
        }
    }
}

#[test]
fn a_long_pattern_matches_itself() {
    for length in [255, 256, 300, 1000, LENGTH_LIMIT, LENGTH_LIMIT + 1, 16384, 100000, 1000000] {
        let alias = "a".repeat(length);
        assert!(check_host_against_glob_pattern(&alias, &alias), "{}", length);
        assert!(!check_host_against_glob_pattern(&alias[1..], &alias), "{}", length);
        assert!(!check_host_against_glob_pattern(&format!("{}a", alias), &alias), "{}", length);
    }
    for length in [LENGTH_LIMIT, LENGTH_LIMIT + 1, 50000] {
        let wide = "é".repeat(length);
        assert!(check_host_against_glob_pattern(&wide, &wide));
        assert!(!check_host_against_glob_pattern(&wide[2..], &wide));
        let widest = "\u{10348}".repeat(length);
        assert!(check_host_against_glob_pattern(&widest, &widest));
    }
}

#[test]
fn patterns_over_the_length_limit_are_matched() {
    let stars = "*".repeat(LENGTH_LIMIT + 1);
    assert!(check_host_against_glob_pattern("a", &stars));
    let name = "a".repeat(LENGTH_LIMIT);
    assert!(check_host_against_glob_pattern(&format!("{}.example.com", name), &format!("{}.*", name)));
    assert!(!check_host_against_glob_pattern(&format!("{}.example.com", &name[1..]), &format!("{}.*", name)));
    assert!(check_host_against_glob_pattern(&format!("web.{}", name), &format!("*.{}", name)));
    assert!(!check_host_against_glob_pattern(&format!("web.{}x", name), &format!("*.{}", name)));
    assert!(check_host_against_glob_pattern(&format!("{}7", name), &format!("{}?", name)));
    assert!(!check_host_against_glob_pattern(&format!("{}77", name), &format!("{}?", name)));
    assert!(check_host_against_glob_pattern(&format!("{}b", name), &format!("{}[abc]", name)));
    assert!(!check_host_against_glob_pattern(&format!("{}d", name), &format!("{}[abc]", name)));
    assert!(check_host_against_glob_pattern(&format!("{}x", name), &format!("{}{{x,y}}", name)));
    assert!(!check_host_against_glob_pattern(&format!("{}z", name), &format!("{}{{x,y}}", name)));
    let marks = "?".repeat(LENGTH_LIMIT + 1);
    assert!(check_host_against_glob_pattern(&"x".repeat(LENGTH_LIMIT + 1), &marks));
    assert!(!check_host_against_glob_pattern(&"x".repeat(LENGTH_LIMIT), &marks));
    let class = format!("[{}]", "a".repeat(1000000));
    assert!(check_host_against_glob_pattern("a", &class));
    assert!(!check_host_against_glob_pattern("b", &class));
    assert!(!check_host_against_glob_pattern("a", &format!("{}[", name)));
}

#[test]
fn a_pattern_too_large_for_its_expression_matches_nothing() {
    let marks = "?".repeat(500000);
    assert!(!check_host_against_glob_pattern(&"x".repeat(500000), &marks));
}

#[test]
fn repeated_choices_are_matched() {
    let choices = format!("{{{}}}", "ab,".repeat(400000));
    assert!(check_host_against_glob_pattern("ab", &choices));
    assert!(!check_host_against_glob_pattern("abab", &choices));
}

#[test]
fn large_patterns_within_the_limits_are_compiled() {
    let stars = "*a".repeat(LENGTH_LIMIT / 2);
    assert!(check_host_against_glob_pattern(&"a".repeat(LENGTH_LIMIT), &stars));
    assert!(!check_host_against_glob_pattern("b", &stars));
    let marks = "?".repeat(LENGTH_LIMIT);
    assert!(check_host_against_glob_pattern(&"x".repeat(LENGTH_LIMIT), &marks));
    assert!(!check_host_against_glob_pattern("x", &marks));
    let mixed = "*?".repeat(LENGTH_LIMIT / 2);
    assert!(check_host_against_glob_pattern(&"x".repeat(LENGTH_LIMIT), &mixed));
    let classes = "[a-z]".repeat(LENGTH_LIMIT / 5);
    assert!(check_host_against_glob_pattern(&"q".repeat(LENGTH_LIMIT / 5), &classes));
    let negated = "[!a]".repeat(LENGTH_LIMIT / 4);
    assert!(check_host_against_glob_pattern(&"q".repeat(LENGTH_LIMIT / 4), &negated));
    let wide_classes = "[\u{10348}é]".repeat(LENGTH_LIMIT / 4);
    let _ = check_host_against_glob_pattern("x", &wide_classes);
    let directories = format!("a{}", "/**/a".repeat((LENGTH_LIMIT - 1) / 5));
    assert!(check_host_against_glob_pattern(&format!("a{}", "/a".repeat((LENGTH_LIMIT - 1) / 5)), &directories));
    let choices = "{a,b}".repeat(NESTING_LIMIT);
    assert!(check_host_against_glob_pattern(&"ab".repeat(NESTING_LIMIT / 2), &choices));
    let many = format!("{{{}}}", "a,".repeat((LENGTH_LIMIT - 2) / 2));
    assert!(check_host_against_glob_pattern("a", &many));
}

#[test]
fn nested_braces_within_the_limit_are_compiled() {
    let nested = format!("{}{}", "{a,b".repeat(NESTING_LIMIT), "}".repeat(NESTING_LIMIT));
    assert!(check_host_against_glob_pattern("a", &nested));
    assert!(check_host_against_glob_pattern("ba", &nested));
    assert!(check_host_against_glob_pattern(&format!("{}a", "b".repeat(NESTING_LIMIT - 1)), &nested));
    assert!(!check_host_against_glob_pattern("c", &nested));
    let deepest = format!(
        "{}{}{}",
        "{a,b".repeat(NESTING_LIMIT - 1),
        "{a,b/**/[cd]*",
        "}".repeat(NESTING_LIMIT)
    );
    assert!(check_host_against_glob_pattern("a", &deepest));
    assert!(check_host_against_glob_pattern(&format!("{}/x/y/dz", "b".repeat(NESTING_LIMIT)), &deepest));
    let bare = format!("{}{}", "{".repeat(NESTING_LIMIT), "}".repeat(NESTING_LIMIT));
    let _ = check_host_against_glob_pattern("a", &bare);
    let open = "{".repeat(NESTING_LIMIT);
    assert!(!check_host_against_glob_pattern("a", &open));
}

#[test]
fn patterns_over_the_nesting_limit_are_matched() {
    let flat = "{a,b}".repeat(NESTING_LIMIT + 1);
    assert!(check_host_against_glob_pattern(&"a".repeat(NESTING_LIMIT + 1), &flat));
    assert!(check_host_against_glob_pattern(&"ab".repeat(NESTING_LIMIT / 2 + 1)[1..], &flat));
    assert!(!check_host_against_glob_pattern(&"a".repeat(NESTING_LIMIT), &flat));
    let flat = "{a,b}".repeat(1000);
    assert!(check_host_against_glob_pattern(&"b".repeat(1000), &flat));
    let in_class = "[{]".repeat(NESTING_LIMIT + 1);
    assert!(check_host_against_glob_pattern(&"{".repeat(NESTING_LIMIT + 1), &in_class));
    assert!(!check_host_against_glob_pattern(&"}".repeat(NESTING_LIMIT + 1), &in_class));
    let nested = format!("{}{}", "{a,b".repeat(NESTING_LIMIT + 1), "}".repeat(NESTING_LIMIT + 1));
    assert!(check_host_against_glob_pattern("a", &nested));
    assert!(check_host_against_glob_pattern(&format!("{}a", "b".repeat(NESTING_LIMIT)), &nested));
    assert!(!check_host_against_glob_pattern("c", &nested));
}

#[test]
fn a_pattern_nested_too_deep_for_its_expression_matches_nothing() {
    let deep = format!("{}{}", "{a".repeat(1000), "}".repeat(1000));
    assert!(!check_host_against_glob_pattern("a", &deep));
    assert!(!check_host_against_glob_pattern(&"a".repeat(1000), &deep));
    let deep = format!("{}{}", "{a,b".repeat(200), "}".repeat(200));
    assert!(!check_host_against_glob_pattern("a", &deep));
}

#[test]
fn a_trailing_dot_is_matched_like_any_character() {
    assert!(check_host_against_glob_pattern("web1.example.com.", "web?.example.com."));
    assert!(check_host_against_glob_pattern("web1.example.com.", "*.example.com."));
    assert!(check_host_against_glob_pattern("example.", "*."));
    assert!(check_host_against_glob_pattern("example.com.", "example.[a-z][a-z][a-z]."));
    assert!(!check_host_against_glob_pattern("web1.example.com", "web?.example.com."));
}

#[test]
fn the_limits_are_on_length_and_on_opening_braces() {
    assert!(is_compilable(""));
    assert!(is_compilable("*"));
    assert!(is_compilable(&"a".repeat(LENGTH_LIMIT)));
    assert!(!is_compilable(&"a".repeat(LENGTH_LIMIT + 1)));
    assert!(is_compilable(&"é".repeat(LENGTH_LIMIT)));
    assert!(!is_compilable(&"é".repeat(LENGTH_LIMIT + 1)));
    assert!(is_compilable(&"{".repeat(NESTING_LIMIT)));
    assert!(!is_compilable(&"{".repeat(NESTING_LIMIT + 1)));
    assert!(is_compilable(&"}".repeat(NESTING_LIMIT + 1)));
    assert!(is_compilable(&format!("{}{}", "{x".repeat(NESTING_LIMIT), "y".repeat(100))));
    assert!(!is_compilable(&format!("{}{}", "x{".repeat(NESTING_LIMIT + 1), "y".repeat(100))));
}

#[test]
fn the_set_matcher_takes_what_the_single_one_does_not() {
    assert!(is_searchable(""));
    assert!(is_searchable("example.com"));
    assert!(is_searchable(&"a".repeat(LENGTH_LIMIT + 1)));
    assert!(is_searchable(&"*".repeat(LENGTH_LIMIT + 1)));
    assert!(is_searchable(&"{".repeat(NESTING_LIMIT + 1)));
    for c in ['*', '?', '[', ']', '{', '}', ',', '\\'] {
        assert!(is_special_char(c), "{:?}", c);
    }
    for c in ['a', '.', '-', '_', '/', '!', '^', '@', ':', ' ', 'é', '%', '~'] {
        assert!(!is_special_char(c), "{:?}", c);
    }
}

#[test]
fn accepted_takes_a_match_only() {
    assert!(accepted(Some(true)));
    assert!(!accepted(Some(false)));
    assert!(!accepted(None));
}

#[test]
fn a_host_line_matches_where_any_pattern_does() {
    assert!(host_line_matches("web1", &chars("db? web?")));
    assert!(host_line_matches("web1", &chars("web? db?")));
    assert!(host_line_matches("web1", &chars("  a   b\tweb1  ")));
    assert!(!host_line_matches("web1", &chars("db? app*")));
    assert!(!host_line_matches("web1", &chars("")));
    assert!(!host_line_matches("web1", &chars("   ")));
    assert!(host_line_matches("anything", &chars("[bad *")));
    assert!(!host_line_matches("anything", &chars("[bad other")));
}
