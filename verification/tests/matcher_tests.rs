use skip_rm::matcher::{make_matcher, make_matchers, match_any, Matcher, MatcherError, MatcherKind};

fn str_matcher(pattern: &str) -> Matcher {
    make_matcher(MatcherKind::Str, pattern.to_string()).unwrap()
}

fn glob_matcher(pattern: &str) -> Matcher {
    make_matcher(MatcherKind::Glob, pattern.to_string()).unwrap()
}

fn regex_matcher(pattern: &str) -> Matcher {
    make_matcher(MatcherKind::Regex, pattern.to_string()).unwrap()
}

#[test]
fn absolutize_cases() {
    // The candidate side is always absolutized against the given base
    // directory before the exact-string comparison.
    assert!(str_matcher("/").is_match("/", "/cwd"));
    assert!(str_matcher("/bin").is_match("/bin", "/cwd"));
    assert!(str_matcher("/bin/ls").is_match("/bin/ls", "/cwd"));
    assert!(str_matcher("/foo/baz").is_match("/foo/bar/../baz", "/cwd"));
    assert!(str_matcher("/home/nobody").is_match("/home/nobody", "/cwd"));
    assert!(str_matcher("/cwd").is_match(".", "/cwd"));
    assert!(str_matcher("/cwd/foo").is_match("./foo", "/cwd"));
    assert!(str_matcher("/cwd/foo/baz").is_match("foo/bar/../baz", "/cwd"));
    assert!(str_matcher("/cwd/foo/baz").is_match("./foo/bar/../baz", "/cwd"));
}

#[test]
fn absolutize_already_normal_is_unchanged() {
    // An absolute, already-collapsed candidate is compared as it stands.
    assert!(str_matcher("/foo/baz").is_match("/foo/baz", "/elsewhere"));
    // A trailing separator is collapsed away by absolutization.
    assert!(str_matcher("/foo/baz").is_match("/foo/baz/", "/elsewhere"));
}

#[test]
fn str_matcher_is_exact() {
    assert!(!str_matcher("/etc/pass").is_match("/etc/passwd", "/"));
    assert!(!str_matcher("/etc/passwd").is_match("/etc", "/"));
}

#[test]
fn str_pattern_side_never_expanded() {
    // The exact-string kind expands and absolutizes only the candidate side:
    // a pattern written with a home shorthand can never match.
    let m = str_matcher("~/.bashrc");
    assert!(!m.is_match("~/.bashrc", "/home/nobody"));
    assert!(!m.is_match("/home/nobody/.bashrc", "/home/nobody"));
    // The candidate "~/.bashrc" is a relative path joined onto the base.
    assert!(str_matcher("/home/nobody/~/.bashrc").is_match("~/.bashrc", "/home/nobody"));
}

#[test]
fn glob_matcher_single_star_stops_at_separator() {
    let m = glob_matcher("/tmp/*");
    assert!(m.is_match("/tmp/x", "/"));
    assert!(!m.is_match("/tmp/a/b", "/"));
    assert!(!m.is_match("/etc/passwd", "/"));
}

#[test]
fn glob_matcher_globstar_crosses_separators() {
    let m = glob_matcher("/tmp/**");
    assert!(m.is_match("/tmp/a/b", "/"));
    assert!(m.is_match("/tmp/x", "/"));
    assert!(!m.is_match("/tmpx", "/"));
}

#[test]
fn glob_matcher_absolutizes_candidate() {
    let m = glob_matcher("/tmp/*");
    assert!(m.is_match("x", "/tmp"));
    assert!(m.is_match("/tmp/a/../b", "/"));
}

#[test]
fn glob_matcher_bracket() {
    let m = glob_matcher("/src/*.[ch]");
    assert!(m.is_match("/src/a.c", "/"));
    assert!(m.is_match("/src/a.h", "/"));
    assert!(!m.is_match("/src/a.o", "/"));
}

#[test]
fn regex_matcher_is_anchored() {
    let m = regex_matcher("/etc/.*");
    assert!(m.is_match("/etc/passwd", "/"));
    assert!(!regex_matcher("etc").is_match("/etc", "/"));
    assert!(!regex_matcher("/etc").is_match("/etc/passwd", "/"));
}

#[test]
fn regex_matcher_rejects_bad_pattern() {
    let r = make_matcher(MatcherKind::Regex, "(".to_string());
    assert!(matches!(r, Err(MatcherError::RegexCompile)));
}

#[test]
fn empty_pattern_line_is_harmless() {
    // An empty list line builds a matcher that matches no real path.
    assert!(!str_matcher("").is_match("/etc/passwd", "/"));
    assert!(!glob_matcher("").is_match("/etc/passwd", "/"));
    assert!(!regex_matcher("").is_match("/etc/passwd", "/"));
}

#[test]
fn make_matchers_builds_in_order() {
    let patterns = vec!["/a".to_string(), "/b".to_string()];
    let ms = make_matchers(MatcherKind::Str, &patterns).unwrap();
    assert_eq!(ms.len(), 2);
    assert!(match_any(&ms, "/a", "/"));
    assert!(match_any(&ms, "/b", "/"));
    assert!(!match_any(&ms, "/c", "/"));
}

#[test]
fn make_matchers_reports_first_failure() {
    let patterns = vec!["/a".to_string(), "(".to_string()];
    let r = make_matchers(MatcherKind::Regex, &patterns);
    assert!(matches!(r, Err(MatcherError::RegexCompile)));
}

#[test]
fn matcher_kind_from_name_parses() {
    assert_eq!(MatcherKind::from_name("string"), Some(MatcherKind::Str));
    assert_eq!(MatcherKind::from_name("glob"), Some(MatcherKind::Glob));
    assert_eq!(MatcherKind::from_name("regex"), Some(MatcherKind::Regex));
    assert_eq!(MatcherKind::from_name("globs"), None);
    assert_eq!(MatcherKind::from_name(""), None);
}

#[test]
fn glob_matcher_reports_home_expansion_failure() {
    // A glob pattern naming a home directory that cannot be resolved is a
    // fatal configuration error.
    let r = make_matcher(MatcherKind::Glob, "~no_such_user_zzz/x".to_string());
    assert!(matches!(r, Err(MatcherError::HomeExpansion)));
}
