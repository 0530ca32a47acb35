use skip_rm::filter::{filter_args, Mode};
use skip_rm::matcher::{make_matcher, Matcher, MatcherKind};

fn args_of(tokens: &[&str]) -> Vec<String> {
    tokens.iter().map(|t| t.to_string()).collect()
}

fn str_matchers(patterns: &[&str]) -> Vec<Matcher> {
    patterns
        .iter()
        .map(|p| make_matcher(MatcherKind::Str, p.to_string()).unwrap())
        .collect()
}

fn glob_matchers(patterns: &[&str]) -> Vec<Matcher> {
    patterns
        .iter()
        .map(|p| make_matcher(MatcherKind::Glob, p.to_string()).unwrap())
        .collect()
}

#[test]
fn blacklist_suppresses_matching_path() {
    let matchers = str_matchers(&["/etc/passwd"]);
    let args = args_of(&["-rf", "/etc/passwd", "/tmp/x"]);
    let (kept, skipped) = filter_args(Mode::Blacklist, &matchers, &args, "/");
    assert_eq!(kept, args_of(&["-rf", "/tmp/x"]));
    assert_eq!(skipped, args_of(&["/etc/passwd"]));
}

#[test]
fn whitelist_suppresses_everything_else() {
    let matchers = glob_matchers(&["/tmp/*"]);
    let args = args_of(&["-rf", "/etc/passwd", "/tmp/x"]);
    let (kept, skipped) = filter_args(Mode::Whitelist, &matchers, &args, "/");
    assert_eq!(kept, args_of(&["-rf", "/tmp/x"]));
    assert_eq!(skipped, args_of(&["/etc/passwd"]));
}

#[test]
fn double_dash_turns_flag_like_tokens_into_paths() {
    // "-rf" absolutized against "/cwd" is "/cwd/-rf"; it is only tested
    // once a preceding "--" was seen.
    let matchers = str_matchers(&["/cwd/-rf"]);
    let (kept, skipped) = filter_args(Mode::Blacklist, &matchers, &args_of(&["--", "-rf"]), "/cwd");
    assert_eq!(kept, args_of(&["--"]));
    assert_eq!(skipped, args_of(&["-rf"]));
    let (kept, skipped) = filter_args(Mode::Blacklist, &matchers, &args_of(&["-rf"]), "/cwd");
    assert_eq!(kept, args_of(&["-rf"]));
    assert_eq!(skipped, args_of(&[]));
}

#[test]
fn bare_dash_is_always_tested() {
    let matchers = str_matchers(&["/cwd/-"]);
    let (kept, skipped) = filter_args(Mode::Blacklist, &matchers, &args_of(&["-", "/x"]), "/cwd");
    assert_eq!(kept, args_of(&["/x"]));
    assert_eq!(skipped, args_of(&["-"]));
}

#[test]
fn flags_before_double_dash_pass_untested_in_whitelist() {
    // In whitelist mode a flag-like token before "--" passes although it
    // matches nothing; after "--" it is tested and suppressed.
    let matchers = glob_matchers(&["/tmp/*"]);
    let (kept, skipped) =
        filter_args(Mode::Whitelist, &matchers, &args_of(&["-rf", "--", "-rf"]), "/");
    assert_eq!(kept, args_of(&["-rf", "--"]));
    assert_eq!(skipped, args_of(&["-rf"]));
}

#[test]
fn filter_is_idempotent_on_its_output() {
    let matchers = glob_matchers(&["/tmp/*"]);
    let args = args_of(&["-rf", "/etc/passwd", "--", "-x", "/tmp/x"]);
    let (kept, _) = filter_args(Mode::Whitelist, &matchers, &args, "/");
    let (kept2, skipped2) = filter_args(Mode::Whitelist, &matchers, &kept, "/");
    assert_eq!(kept2, kept);
    assert_eq!(skipped2, args_of(&[]));
}

#[test]
fn empty_inputs_are_preserved() {
    let matchers = str_matchers(&[]);
    let (kept, skipped) = filter_args(Mode::Blacklist, &matchers, &args_of(&[]), "/");
    assert_eq!(kept, args_of(&[]));
    assert_eq!(skipped, args_of(&[]));
    // With an empty matcher list, whitelist mode suppresses every tested token.
    let (kept, skipped) =
        filter_args(Mode::Whitelist, &matchers, &args_of(&["-a", "/x"]), "/");
    assert_eq!(kept, args_of(&["-a"]));
    assert_eq!(skipped, args_of(&["/x"]));
}

#[test]
fn mode_from_name_parses() {
    assert_eq!(Mode::from_name("blacklist"), Some(Mode::Blacklist));
    assert_eq!(Mode::from_name("whitelist"), Some(Mode::Whitelist));
    assert_eq!(Mode::from_name("greylist"), None);
    assert_eq!(Mode::from_name(""), None);
}
