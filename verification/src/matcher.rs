//! Matchers: exact-string, glob-derived-regex and raw-regex tests against
//! absolutized candidate paths, and their construction from pattern lines.

use vstd::prelude::*;
use vstd::string::*;

use crate::glob::{glob2regex, glob_translation};
use crate::strutil::str_equal;
use path_absolutize::Absolutize;

verus! {

/// Name for the result of `path_absolutize`'s lexical absolutization: the
/// absolute, `.`/`..`-collapsed form of `path` resolved against the base
/// directory `cwd`.  It depends on those two strings alone.
pub uninterp spec fn absolutized(path: Seq<char>, cwd: Seq<char>) -> Seq<char>;

/// Name for the outcome of `regex::Regex::new`: whether a pattern text is a
/// well-formed regular expression.
pub uninterp spec fn regex_compiles(pat: Seq<char>) -> bool;

/// Name for the result of `regex::Regex::is_match`: whether the compiled
/// pattern matches somewhere in the text.  It depends on the pattern text and
/// the searched text alone.
pub uninterp spec fn regex_accepts(pat: Seq<char>, text: Seq<char>) -> bool;

/// An absolute path already in collapsed form: rooted, no empty, `.` or `..`
/// segment, and no trailing separator (except the root itself).
pub open spec fn is_normal_path(p: Seq<char>) -> bool {
    &&& p.len() > 0
    &&& p[0] == '/'
    &&& (forall|i: int| 0 <= i < p.len() - 1 ==> !(#[trigger] p[i] == '/' && p[i + 1] == '/'))
    &&& (p.len() > 1 ==> p[p.len() - 1] != '/')
    &&& (forall|i: int|
        0 <= i < p.len() ==> !(#[trigger] p[i] == '/' && p.len() - i >= 2 && p[i + 1] == '.' && (
        p.len() - i == 2 || p[i + 2] == '/')))
    &&& (forall|i: int|
        0 <= i < p.len() ==> !(#[trigger] p[i] == '/' && p.len() - i >= 3 && p[i + 1] == '.' && p[i
            + 2] == '.' && (p.len() - i == 3 || p[i + 3] == '/')))
}

/// Relies on `path_absolutize::Absolutize::absolutize_from`: the lexical
/// absolute form is computed from the path and the given base directory
/// alone, without touching the filesystem, and a rooted path that is already
/// in collapsed form comes back unchanged.
#[verifier::external_body]
fn absolutize_from_str(path: &str, cwd: &str) -> (r: String)
    ensures
        r@ == absolutized(path@, cwd@),
        is_normal_path(path@) ==> r@ == path@,
{
    std::path::Path::new(path).absolutize_from(std::path::Path::new(cwd)).to_string_lossy()
        .into_owned()
}

/// True of a pattern that home-directory expansion leaves alone.
pub open spec fn tilde_free(s: Seq<char>) -> bool {
    s.len() == 0 || s[0] != '~'
}

/// Relies on `expanduser::expanduser`: an input that does not start with `~`
/// is turned into a path unchanged; one that does gets its leading `~` or
/// `~user` replaced by the named home directory, which only the environment
/// determines.
#[verifier::external_body]
fn expand_user(s: &str) -> (r: Option<String>)
    ensures
        tilde_free(s@) ==> r is Some && r.unwrap()@ == s@,
{
    expanduser::expanduser(s).ok().and_then(|p| p.to_str().map(|t| t.to_string()))
}

#[verifier::external_type_specification]
#[verifier::external_body]
pub struct ExRegex(regex::Regex);

/// A compiled regular expression together with the text it was compiled
/// from; the text is the value the contracts speak of.
pub struct CompiledRegex {
    regex: regex::Regex,
    source: String,
}

impl View for CompiledRegex {
    type V = Seq<char>;

    closed spec fn view(&self) -> Seq<char> {
        self.source@
    }
}

impl CompiledRegex {
    /// Relies on `regex::Regex::new`: whether compilation succeeds depends on
    /// the pattern text alone.
    #[verifier::external_body]
    fn compile(source: String) -> (r: Option<CompiledRegex>)
        ensures
            r is Some <==> regex_compiles(source@),
            r matches Some(c) ==> c@ == source@,
    {
        match regex::Regex::new(source.as_str()) {
            Ok(regex) => Some(CompiledRegex { regex, source }),
            Err(_) => None,
        }
    }

    /// Relies on `regex::Regex::is_match`: whether some match exists depends
    /// on the pattern text and the haystack alone.
    #[verifier::external_body]
    fn is_match(&self, text: &str) -> (b: bool)
        ensures
            b == regex_accepts(self@, text@),
    {
        self.regex.is_match(text)
    }
}

/// Which interpretation the configuration gives to pattern lines.
#[derive(Clone, Copy, PartialEq, Eq, Structural, Debug)]
pub enum MatcherKind {
    Str,
    Glob,
    Regex,
}

impl MatcherKind {
    /// Parse the configuration value that names a matcher kind.
    pub fn from_name(name: &str) -> (r: Option<MatcherKind>)
        ensures
            r == (if name@ == "string"@ {
                Some(MatcherKind::Str)
            } else if name@ == "glob"@ {
                Some(MatcherKind::Glob)
            } else if name@ == "regex"@ {
                Some(MatcherKind::Regex)
            } else {
                None::<MatcherKind>
            }),
    {
        if str_equal(name, "string") {
            Some(MatcherKind::Str)
        } else if str_equal(name, "glob") {
            Some(MatcherKind::Glob)
        } else if str_equal(name, "regex") {
            Some(MatcherKind::Regex)
        } else {
            None
        }
    }
}

/// One compiled, immutable test of whether a candidate path satisfies one
/// configured pattern.
pub enum Matcher {
    Str { pattern: String },
    Glob { pattern: CompiledRegex },
    Regex { pattern: CompiledRegex },
}

/// The mathematical content of a matcher: its kind and the pattern text it
/// effectively holds (for the regex-backed kinds, the anchored regex text).
pub enum MatcherModel {
    Str(Seq<char>),
    Glob(Seq<char>),
    Regex(Seq<char>),
}

impl View for Matcher {
    type V = MatcherModel;

    open spec fn view(&self) -> MatcherModel {
        match self {
            Matcher::Str { pattern } => MatcherModel::Str(pattern@),
            Matcher::Glob { pattern } => MatcherModel::Glob(pattern@),
            Matcher::Regex { pattern } => MatcherModel::Regex(pattern@),
        }
    }
}

/// A pattern text wrapped in start-of-string and end-of-string anchors.
pub open spec fn anchored(body: Seq<char>) -> Seq<char> {
    seq!['^'] + body + seq!['$']
}

/// What it means for a matcher to match a raw argument: the argument is
/// first absolutized against `cwd`, then tested whole.
pub open spec fn matcher_matches(m: MatcherModel, arg: Seq<char>, cwd: Seq<char>) -> bool {
    match m {
        MatcherModel::Str(pat) => pat == absolutized(arg, cwd),
        MatcherModel::Glob(src) => regex_accepts(src, absolutized(arg, cwd)),
        MatcherModel::Regex(src) => regex_accepts(src, absolutized(arg, cwd)),
    }
}

impl Matcher {
    /// True iff the raw argument, absolutized against `cwd`, satisfies this
    /// matcher.  The pattern side is never absolutized: an exact-string
    /// pattern is compared literally against the absolutized candidate.
    pub fn is_match(&self, fname: &str, cwd: &str) -> (b: bool)
        ensures
            b == matcher_matches(self@, fname@, cwd@),
    {
        let abs = absolutize_from_str(fname, cwd);
        match self {
            Matcher::Str { pattern } => str_equal(pattern.as_str(), abs.as_str()),
            Matcher::Glob { pattern } => pattern.is_match(abs.as_str()),
            Matcher::Regex { pattern } => pattern.is_match(abs.as_str()),
        }
    }
}

/// Why building a matcher failed; both are configuration errors that the
/// caller treats as fatal.
#[derive(Clone, Copy, PartialEq, Eq, Structural, Debug)]
pub enum MatcherError {
    /// The pattern's home-directory shorthand could not be expanded.
    HomeExpansion,
    /// The pattern's (derived) regular expression does not compile.
    RegexCompile,
}

/// How a built matcher relates to the pattern line it came from.  For a glob
/// pattern the text first has a leading home-directory shorthand expanded
/// (pinned down only when there is none), is then translated, then anchored.
pub open spec fn matcher_built(kind: MatcherKind, pat: Seq<char>, m: MatcherModel) -> bool {
    match kind {
        MatcherKind::Str => m == MatcherModel::Str(pat),
        MatcherKind::Glob => {
            &&& (m matches MatcherModel::Glob(src) && (exists|e: Seq<char>|
                src == anchored(glob_translation(e))))
            &&& (tilde_free(pat) ==> m == MatcherModel::Glob(anchored(glob_translation(pat))))
        },
        MatcherKind::Regex => m == MatcherModel::Regex(anchored(pat)),
    }
}

/// Wrap a regex body in anchors and compile it.
fn compile_anchored(body: String) -> (r: Option<CompiledRegex>)
    ensures
        r is Some <==> regex_compiles(anchored(body@)),
        r matches Some(c) ==> c@ == anchored(body@),
{
    let source = String::from_str("^").concat(body.as_str()).concat("$");
    proof {
        reveal_strlit("^");
        reveal_strlit("$");
        assert(source@ =~= anchored(body@));
    }
    CompiledRegex::compile(source)
}

/// Make a matcher for one pattern line, interpreted per `kind`.
pub fn make_matcher(kind: MatcherKind, pattern: String) -> (r: Result<Matcher, MatcherError>)
    ensures
        r matches Ok(m) ==> matcher_built(kind, pattern@, m@),
        kind is Str ==> r is Ok,
        kind is Regex ==> (r is Ok <==> regex_compiles(anchored(pattern@))),
        kind is Regex && r is Err ==> r->Err_0 == MatcherError::RegexCompile,
        kind is Glob && tilde_free(pattern@) ==> (r is Ok <==> regex_compiles(
            anchored(glob_translation(pattern@)),
        )),
        kind is Glob && tilde_free(pattern@) && r is Err ==> r->Err_0
            == MatcherError::RegexCompile,
{
    match kind {
        MatcherKind::Str => Ok(Matcher::Str { pattern }),
        MatcherKind::Glob => {
            let expanded = match expand_user(pattern.as_str()) {
                Some(e) => e,
                None => {
                    return Err(MatcherError::HomeExpansion);
                },
            };
            let body = glob2regex(expanded.as_str());
            match compile_anchored(body) {
                Some(c) => {
                    proof {
                        assert(anchored(glob_translation(expanded@)) == c@);
                    }
                    Ok(Matcher::Glob { pattern: c })
                },
                None => Err(MatcherError::RegexCompile),
            }
        },
        MatcherKind::Regex => {
            match compile_anchored(pattern) {
                Some(c) => Ok(Matcher::Regex { pattern: c }),
                None => Err(MatcherError::RegexCompile),
            }
        },
    }
}

/// The models of a sequence of matchers, in order.
pub open spec fn models_of(ms: Seq<Matcher>) -> Seq<MatcherModel> {
    Seq::new(ms.len(), |t: int| ms[t]@)
}

/// Whether one pattern line compiles under a kind whose outcome depends on
/// the pattern text alone (any exact-string pattern; a glob pattern without
/// a home-directory shorthand; any raw-regex pattern).
pub open spec fn pattern_ok(kind: MatcherKind, pat: Seq<char>) -> bool {
    match kind {
        MatcherKind::Str => true,
        MatcherKind::Glob => regex_compiles(anchored(glob_translation(pat))),
        MatcherKind::Regex => regex_compiles(anchored(pat)),
    }
}

/// Make matchers for all pattern lines of a list file, in order; the first
/// failing line aborts the build.
pub fn make_matchers(kind: MatcherKind, patterns: &Vec<String>) -> (r: Result<
    Vec<Matcher>,
    MatcherError,
>)
    ensures
        r matches Ok(ms) ==> ms@.len() == patterns@.len() && (forall|t: int|
            0 <= t < patterns@.len() ==> matcher_built(kind, patterns@[t]@, ms@[t]@)),
        kind is Str ==> r is Ok,
        kind is Regex ==> (r is Ok <==> (forall|t: int|
            0 <= t < patterns@.len() ==> pattern_ok(kind, patterns@[t]@))),
        kind is Glob && (forall|t: int| 0 <= t < patterns@.len() ==> tilde_free(patterns@[t]@))
            ==> (r is Ok <==> (forall|t: int|
            0 <= t < patterns@.len() ==> pattern_ok(kind, patterns@[t]@))),
{
    let mut ms: Vec<Matcher> = Vec::new();
    let n: usize = patterns.len();
    let mut i: usize = 0;
    while i < n
        invariant
            n == patterns@.len(),
            i <= n,
            ms@.len() == i,
            forall|t: int| 0 <= t < i ==> matcher_built(kind, patterns@[t]@, ms@[t]@),
            kind is Regex ==> (forall|t: int| 0 <= t < i ==> pattern_ok(kind, patterns@[t]@)),
            kind is Glob ==> (forall|t: int|
                0 <= t < i ==> (tilde_free(patterns@[t]@) ==> pattern_ok(kind, patterns@[t]@))),
        decreases n - i,
    {
        let line = patterns[i].clone();
        proof {
            assert(line@ == patterns@[i as int]@);
        }
        match make_matcher(kind, line) {
            Ok(m) => {
                ms.push(m);
            },
            Err(e) => {
                proof {
                    assert(kind !is Str);
                    if kind is Regex {
                        assert(!pattern_ok(kind, patterns@[i as int]@));
                    }
                    if kind is Glob && tilde_free(patterns@[i as int]@) {
                        assert(!pattern_ok(kind, patterns@[i as int]@));
                    }
                }
                return Err(e);
            },
        }
        i = i + 1;
    }
    Ok(ms)
}

/// Whether any matcher of the list matches the argument.
pub open spec fn any_match(ms: Seq<MatcherModel>, arg: Seq<char>, cwd: Seq<char>) -> bool {
    exists|t: int| 0 <= t < ms.len() && matcher_matches(ms[t], arg, cwd)
}

/// True iff the argument matches any of these matchers.
pub fn match_any(matchers: &Vec<Matcher>, fname: &str, cwd: &str) -> (b: bool)
    ensures
        b == any_match(models_of(matchers@), fname@, cwd@),
{
    let n: usize = matchers.len();
    let mut t: usize = 0;
    while t < n
        invariant
            n == matchers@.len(),
            t <= n,
            forall|q: int| 0 <= q < t ==> !matcher_matches(models_of(matchers@)[q], fname@, cwd@),
        decreases n - t,
    {
        if matchers[t].is_match(fname, cwd) {
            proof {
                assert(matcher_matches(models_of(matchers@)[t as int], fname@, cwd@));
            }
            return true;
        }
        t = t + 1;
    }
    false
}

} // verus!
