use skip_rm::glob::glob2regex;

#[test]
fn test_glob2regex() {
    let tcases = vec![
        (r"*", r"[^/]*"), //  input, output
        (r"**", r".*"),
        (r"*.[ch]", r"[^/]*\.[ch]"),
        (r"?", r"[^/]"),
        (r"[!a-z]", r"[^a-z]"),
        (r"[^a-z]", r"[^a-z]"),
        (r"[", r"\["),
    ];
    for (tinp, texp) in tcases {
        let tout = glob2regex(tinp);
        assert_eq!(tout.as_str(), texp);
    }
}

#[test]
fn glob2regex_empty_input() {
    assert_eq!(glob2regex("").as_str(), "");
}

#[test]
fn glob2regex_plain_path() {
    assert_eq!(glob2regex("/etc/passwd").as_str(), r"/etc/passwd");
}

#[test]
fn glob2regex_escapes_metacharacters() {
    assert_eq!(glob2regex("a.b").as_str(), r"a\.b");
    assert_eq!(glob2regex("a+b").as_str(), r"a\+b");
    assert_eq!(glob2regex("a b").as_str(), r"a\ b");
    assert_eq!(glob2regex("a~#b").as_str(), r"a\~\#b");
    assert_eq!(glob2regex("]").as_str(), r"\]");
}

#[test]
fn glob2regex_globstar_mixed() {
    assert_eq!(glob2regex("/tmp/**").as_str(), r"/tmp/.*");
    assert_eq!(glob2regex("a*b?c").as_str(), r"a[^/]*b[^/]c");
}

#[test]
fn glob2regex_bracket_backslash_doubled() {
    assert_eq!(glob2regex(r"[a\b]").as_str(), r"[a\\b]");
}

#[test]
fn glob2regex_unterminated_bracket_continues() {
    assert_eq!(glob2regex(r"[ab").as_str(), r"\[ab");
}

#[test]
fn glob2regex_empty_bracket_body() {
    assert_eq!(glob2regex(r"[]").as_str(), r"[]");
}
