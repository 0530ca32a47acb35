//! The argument classifier/filter: walks the raw argument list, decides per
//! token whether it is tested against the matcher list, and splits the list
//! into the forwarded tokens and the suppressed ones.

use vstd::prelude::*;
use vstd::string::*;

use crate::matcher::{any_match, match_any, models_of, Matcher, MatcherModel};
use crate::strutil::str_equal;

verus! {

/// Whether suppressed tokens are the matching ones (blacklist) or the
/// non-matching ones (whitelist).
#[derive(Clone, Copy, PartialEq, Eq, Structural, Debug)]
pub enum Mode {
    Blacklist,
    Whitelist,
}

impl Mode {
    /// Parse the configuration value that names a filtering mode.
    pub fn from_name(name: &str) -> (r: Option<Mode>)
        ensures
            r == (if name@ == "blacklist"@ {
                Some(Mode::Blacklist)
            } else if name@ == "whitelist"@ {
                Some(Mode::Whitelist)
            } else {
                None::<Mode>
            }),
    {
        if str_equal(name, "blacklist") {
            Some(Mode::Blacklist)
        } else if str_equal(name, "whitelist") {
            Some(Mode::Whitelist)
        } else {
            None
        }
    }
}

/// Whether a token is tested against the matcher list.  A bare `-` always
/// is; `--` never is; any other token starting with `-` only after a `--`
/// was seen; everything else (a path-like token) always is.
pub open spec fn arg_is_tested(arg: Seq<char>, ddash: bool) -> bool {
    if arg == seq!['-'] {
        true
    } else if arg == seq!['-', '-'] {
        false
    } else if arg.len() > 0 && arg[0] == '-' {
        ddash
    } else {
        true
    }
}

/// The end-of-options state after one token: `--` switches it on, for good.
pub open spec fn next_ddash(arg: Seq<char>, ddash: bool) -> bool {
    ddash || arg == seq!['-', '-']
}

/// Whether a token is suppressed: it is tested, and the mode's policy
/// rejects it (blacklist: it matches some matcher; whitelist: it matches
/// none).
pub open spec fn arg_suppressed(
    mode: Mode,
    ms: Seq<MatcherModel>,
    arg: Seq<char>,
    cwd: Seq<char>,
    ddash: bool,
) -> bool {
    arg_is_tested(arg, ddash) && (match mode {
        Mode::Blacklist => any_match(ms, arg, cwd),
        Mode::Whitelist => !any_match(ms, arg, cwd),
    })
}

/// The forwarded tokens of an argument list, in their original order.
pub open spec fn filter_kept(
    mode: Mode,
    ms: Seq<MatcherModel>,
    args: Seq<Seq<char>>,
    cwd: Seq<char>,
    ddash: bool,
) -> Seq<Seq<char>>
    decreases args.len(),
{
    if args.len() == 0 {
        Seq::empty()
    } else {
        let rest = filter_kept(mode, ms, args.drop_first(), cwd, next_ddash(args[0], ddash));
        if arg_suppressed(mode, ms, args[0], cwd, ddash) {
            rest
        } else {
            seq![args[0]] + rest
        }
    }
}

/// The suppressed tokens of an argument list, in their original order; one
/// diagnostic line is owed for each.
pub open spec fn filter_skipped(
    mode: Mode,
    ms: Seq<MatcherModel>,
    args: Seq<Seq<char>>,
    cwd: Seq<char>,
    ddash: bool,
) -> Seq<Seq<char>>
    decreases args.len(),
{
    if args.len() == 0 {
        Seq::empty()
    } else {
        let rest = filter_skipped(mode, ms, args.drop_first(), cwd, next_ddash(args[0], ddash));
        if arg_suppressed(mode, ms, args[0], cwd, ddash) {
            seq![args[0]] + rest
        } else {
            rest
        }
    }
}

/// The views of a sequence of strings, in order.
pub open spec fn string_views(ss: Seq<String>) -> Seq<Seq<char>> {
    Seq::new(ss.len(), |t: int| ss[t]@)
}

/// Filter the raw arguments (the program's own name already removed) against
/// the matcher list: the first vector is forwarded to the wrapped command,
/// the second holds the suppressed tokens, each owed a diagnostic.
pub fn filter_args(mode: Mode, matchers: &Vec<Matcher>, args: &Vec<String>, cwd: &str) -> (r: (
    Vec<String>,
    Vec<String>,
))
    ensures
        string_views(r.0@) == filter_kept(
            mode,
            models_of(matchers@),
            string_views(args@),
            cwd@,
            false,
        ),
        string_views(r.1@) == filter_skipped(
            mode,
            models_of(matchers@),
            string_views(args@),
            cwd@,
            false,
        ),
{
    let ghost ms: Seq<MatcherModel> = models_of(matchers@);
    let ghost av: Seq<Seq<char>> = string_views(args@);
    let n: usize = args.len();
    let mut kept: Vec<String> = Vec::new();
    let mut skipped: Vec<String> = Vec::new();
    let mut ddash: bool = false;
    let mut i: usize = 0;
    proof {
        assert(av.skip(0) =~= av);
        assert(string_views(kept@) =~= Seq::<Seq<char>>::empty());
        assert(string_views(skipped@) =~= Seq::<Seq<char>>::empty());
        assert(Seq::<Seq<char>>::empty() + filter_kept(mode, ms, av, cwd@, false) =~= filter_kept(
            mode,
            ms,
            av,
            cwd@,
            false,
        ));
        assert(Seq::<Seq<char>>::empty() + filter_skipped(mode, ms, av, cwd@, false)
            =~= filter_skipped(mode, ms, av, cwd@, false));
    }
    while i < n
        invariant
            n == args@.len(),
            i <= n,
            ms == models_of(matchers@),
            av == string_views(args@),
            av.len() == n,
            string_views(kept@) + filter_kept(mode, ms, av.skip(i as int), cwd@, ddash)
                == filter_kept(mode, ms, av, cwd@, false),
            string_views(skipped@) + filter_skipped(mode, ms, av.skip(i as int), cwd@, ddash)
                == filter_skipped(mode, ms, av, cwd@, false),
        decreases n - i,
    {
        let ghost kept0: Seq<Seq<char>> = string_views(kept@);
        let ghost skipped0: Seq<Seq<char>> = string_views(skipped@);
        let ghost dd0: bool = ddash;
        let arg = &args[i];
        let ghost a: Seq<char> = av[i as int];
        proof {
            assert(arg@ == a);
            assert(av.skip(i as int).len() > 0);
            assert(av.skip(i as int)[0] == a);
            assert(av.skip(i as int).drop_first() =~= av.skip(i as int + 1));
        }
        let na: usize = arg.as_str().unicode_len();
        let first_dash = na >= 1 && arg.as_str().get_char(0) == '-';
        let is_dash = first_dash && na == 1;
        let is_ddash = first_dash && na == 2 && arg.as_str().get_char(1) == '-';
        proof {
            assert(is_dash == (a == seq!['-'])) by {
                if is_dash {
                    assert(a =~= seq!['-']);
                }
            }
            assert(is_ddash == (a == seq!['-', '-'])) by {
                if is_ddash {
                    assert(a =~= seq!['-', '-']);
                }
            }
        }
        let tested = if is_dash {
            true
        } else if is_ddash {
            false
        } else if first_dash {
            ddash
        } else {
            true
        };
        proof {
            assert(tested == arg_is_tested(a, dd0));
        }
        let suppress = if tested {
            let matched = match_any(matchers, arg.as_str(), cwd);
            match mode {
                Mode::Blacklist => matched,
                Mode::Whitelist => !matched,
            }
        } else {
            false
        };
        proof {
            assert(suppress == arg_suppressed(mode, ms, a, cwd@, dd0));
        }
        if suppress {
            skipped.push(arg.clone());
        } else {
            kept.push(arg.clone());
        }
        if is_ddash {
            ddash = true;
        }
        i = i + 1;
        proof {
            assert(ddash == next_ddash(a, dd0));
            if suppress {
                assert(string_views(skipped@) =~= skipped0 + seq![a]);
                assert(string_views(kept@) =~= kept0);
            } else {
                assert(string_views(kept@) =~= kept0 + seq![a]);
                assert(string_views(skipped@) =~= skipped0);
            }
            assert(filter_kept(mode, ms, av.skip(i - 1), cwd@, dd0) == (if arg_suppressed(
                mode,
                ms,
                a,
                cwd@,
                dd0,
            ) {
                filter_kept(mode, ms, av.skip(i as int), cwd@, ddash)
            } else {
                seq![a] + filter_kept(mode, ms, av.skip(i as int), cwd@, ddash)
            }));
            assert(filter_skipped(mode, ms, av.skip(i - 1), cwd@, dd0) == (if arg_suppressed(
                mode,
                ms,
                a,
                cwd@,
                dd0,
            ) {
                seq![a] + filter_skipped(mode, ms, av.skip(i as int), cwd@, ddash)
            } else {
                filter_skipped(mode, ms, av.skip(i as int), cwd@, ddash)
            }));
            assert(string_views(kept@) + filter_kept(mode, ms, av.skip(i as int), cwd@, ddash)
                =~= kept0 + filter_kept(mode, ms, av.skip(i - 1), cwd@, dd0));
            assert(string_views(skipped@) + filter_skipped(mode, ms, av.skip(i as int), cwd@, ddash)
                =~= skipped0 + filter_skipped(mode, ms, av.skip(i - 1), cwd@, dd0));
        }
    }
    proof {
        assert(av.skip(n as int) =~= Seq::<Seq<char>>::empty());
        assert(string_views(kept@) + filter_kept(mode, ms, av.skip(n as int), cwd@, ddash)
            =~= string_views(kept@));
        assert(string_views(skipped@) + filter_skipped(mode, ms, av.skip(n as int), cwd@, ddash)
            =~= string_views(skipped@));
    }
    (kept, skipped)
}

/// Re-running the filter on its own forwarded output, with the same mode,
/// matcher list and base directory, changes nothing further: every token
/// is forwarded again and none is suppressed.
pub proof fn lemma_filter_idempotent(
    mode: Mode,
    ms: Seq<MatcherModel>,
    args: Seq<Seq<char>>,
    cwd: Seq<char>,
    ddash: bool,
)
    ensures
        filter_kept(mode, ms, filter_kept(mode, ms, args, cwd, ddash), cwd, ddash) == filter_kept(
            mode,
            ms,
            args,
            cwd,
            ddash,
        ),
        filter_skipped(mode, ms, filter_kept(mode, ms, args, cwd, ddash), cwd, ddash)
            == Seq::<Seq<char>>::empty(),
    decreases args.len(),
{
    if args.len() == 0 {
    } else {
        let a = args[0];
        let dd1 = next_ddash(a, ddash);
        let rest = args.drop_first();
        let kept_rest = filter_kept(mode, ms, rest, cwd, dd1);
        lemma_filter_idempotent(mode, ms, rest, cwd, dd1);
        if arg_suppressed(mode, ms, a, cwd, ddash) {
            assert(dd1 == ddash) by {
                if a == seq!['-', '-'] {
                    assert(seq!['-', '-'].len() == 2);
                    assert(seq!['-'].len() == 1);
                    assert(!arg_is_tested(a, ddash));
                }
            }
            assert(filter_kept(mode, ms, args, cwd, ddash) == kept_rest);
        } else {
            let whole = seq![a] + kept_rest;
            assert(filter_kept(mode, ms, args, cwd, ddash) == whole);
            assert(whole.len() > 0);
            assert(whole[0] == a);
            assert(whole.drop_first() =~= kept_rest);
            assert(filter_kept(mode, ms, whole, cwd, ddash) == seq![a] + filter_kept(
                mode,
                ms,
                kept_rest,
                cwd,
                dd1,
            ));
            assert(filter_kept(mode, ms, whole, cwd, ddash) =~= whole);
            assert(filter_skipped(mode, ms, whole, cwd, ddash) =~= Seq::<Seq<char>>::empty());
        }
    }
}

} // verus!
