//! Translation of shell-glob patterns into anchored-regex bodies.
//!
//! `?` matches one non-separator character, `*` any run of non-separator
//! characters, `**` any run including separators.  A bracket expression is
//! copied through, with a leading `!` rewritten to `^` and inner backslashes
//! doubled; an unterminated `[` is emitted as a literal.  Every other regex
//! metacharacter is escaped.

use vstd::prelude::*;
use vstd::string::*;

use crate::strutil::{chars_to_string, str_to_chars};

verus! {

/// Characters that the translator escapes with a backslash when they occur
/// outside a bracket expression.
pub open spec fn is_regex_meta(c: char) -> bool {
    ||| c == '('
    ||| c == ')'
    ||| c == '['
    ||| c == ']'
    ||| c == '{'
    ||| c == '}'
    ||| c == '?'
    ||| c == '*'
    ||| c == '+'
    ||| c == '-'
    ||| c == '|'
    ||| c == '^'
    ||| c == '$'
    ||| c == '\\'
    ||| c == '.'
    ||| c == '&'
    ||| c == '~'
    ||| c == '#'
    ||| c == ' '
}

/// Distance from position `i` to the first `]` at or after it
/// (or to the end of the pattern if none follows).
pub open spec fn close_off(p: Seq<char>, i: int) -> nat
    decreases p.len() - i,
{
    if i < 0 || i >= p.len() {
        0
    } else if p[i] == ']' {
        0
    } else {
        (close_off(p, i + 1) + 1) as nat
    }
}

/// A leading `!` of a bracket body is the glob negation marker; the regex
/// engine wants `^` there.
pub open spec fn negate_mark(body: Seq<char>) -> Seq<char> {
    if body.len() > 0 && body[0] == '!' {
        body.update(0, '^')
    } else {
        body
    }
}

/// Inside a copied bracket body every backslash is doubled, so the regex
/// engine treats it literally.
pub open spec fn escape_backslashes(body: Seq<char>) -> Seq<char>
    decreases body.len(),
{
    if body.len() == 0 {
        Seq::empty()
    } else if body[0] == '\\' {
        seq!['\\', '\\'] + escape_backslashes(body.drop_first())
    } else {
        seq![body[0]] + escape_backslashes(body.drop_first())
    }
}

/// The regex text produced for the glob suffix that starts at position `i`.
pub open spec fn glob_regex_from(p: Seq<char>, i: int) -> Seq<char>
    decreases p.len() - i,
{
    if i < 0 || i >= p.len() {
        Seq::empty()
    } else if p[i] == '?' {
        seq!['[', '^', '/', ']'] + glob_regex_from(p, i + 1)
    } else if p[i] == '*' {
        if i + 1 < p.len() && p[i + 1] == '*' {
            seq!['.', '*'] + glob_regex_from(p, i + 2)
        } else {
            seq!['[', '^', '/', ']', '*'] + glob_regex_from(p, i + 1)
        }
    } else if p[i] == '[' {
        let j = i + 1 + close_off(p, i + 1);
        if j < p.len() {
            seq!['['] + escape_backslashes(negate_mark(p.subrange(i + 1, j))) + seq![']']
                + glob_regex_from(p, j + 1)
        } else {
            seq!['\\', '['] + glob_regex_from(p, i + 1)
        }
    } else if is_regex_meta(p[i]) {
        seq!['\\', p[i]] + glob_regex_from(p, i + 1)
    } else {
        seq![p[i]] + glob_regex_from(p, i + 1)
    }
}

/// The regex body equivalent to a whole glob pattern (unanchored).
pub open spec fn glob_translation(p: Seq<char>) -> Seq<char> {
    glob_regex_from(p, 0)
}

/// `close_off` lands exactly on the first closing bracket: if every character
/// of `[i, j)` differs from `]` and `j` is the end or holds `]`, then the
/// first `]` at or after `i` sits at `j`.
proof fn lemma_close_off_at(p: Seq<char>, i: int, j: int)
    requires
        0 <= i <= j <= p.len(),
        forall|k: int| i <= k < j ==> p[k] != ']',
        j == p.len() || p[j] == ']',
    ensures
        i + close_off(p, i) == j,
    decreases j - i,
{
    if i < j {
        lemma_close_off_at(p, i + 1, j);
    }
}

/// Doubling backslashes distributes over concatenation of bracket bodies.
proof fn lemma_escape_concat(a: Seq<char>, b: Seq<char>)
    ensures
        escape_backslashes(a + b) == escape_backslashes(a) + escape_backslashes(b),
    decreases a.len(),
{
    if a.len() == 0 {
        assert(a + b =~= b);
        assert(escape_backslashes(a) + escape_backslashes(b) =~= escape_backslashes(b));
    } else {
        assert((a + b).drop_first() =~= a.drop_first() + b);
        lemma_escape_concat(a.drop_first(), b);
        assert(escape_backslashes(a + b) =~= escape_backslashes(a) + escape_backslashes(b));
    }
}

/// Runtime twin of `is_regex_meta`.
fn is_meta(c: char) -> (b: bool)
    ensures
        b == is_regex_meta(c),
{
    c == '(' || c == ')' || c == '[' || c == ']' || c == '{' || c == '}' || c == '?' || c == '*'
        || c == '+' || c == '-' || c == '|' || c == '^' || c == '$' || c == '\\' || c == '.'
        || c == '&' || c == '~' || c == '#' || c == ' '
}

/// Convert a glob pattern to the body of an equivalent regular expression;
/// supports globstar (`**`); does not support extglob; `[:class:]` contents
/// inside brackets are copied, not interpreted.
pub fn glob2regex(globpat: &str) -> (r: String)
    ensures
        r@ == glob_translation(globpat@),
{
    let pat = str_to_chars(globpat);
    let n: usize = pat.len();
    let mut ans: Vec<char> = Vec::new();
    let mut i: usize = 0;
    while i < n
        invariant
            n == pat@.len(),
            i <= n,
            ans@ + glob_regex_from(pat@, i as int) == glob_regex_from(pat@, 0),
        decreases n - i,
    {
        let ghost i0: int = i as int;
        let ghost ans0: Seq<char> = ans@;
        let c = pat[i];
        if c == '?' {
            ans.push('[');
            ans.push('^');
            ans.push('/');
            ans.push(']');
            i = i + 1;
            proof {
                assert(glob_regex_from(pat@, i0) =~= seq!['[', '^', '/', ']'] + glob_regex_from(
                    pat@,
                    i0 + 1,
                ));
                assert(ans@ + glob_regex_from(pat@, i as int) =~= ans0 + glob_regex_from(
                    pat@,
                    i0,
                ));
            }
        } else if c == '*' {
            if i + 1 < n && pat[i + 1] == '*' {
                ans.push('.');
                ans.push('*');
                i = i + 2;
                proof {
                    assert(glob_regex_from(pat@, i0) =~= seq!['.', '*'] + glob_regex_from(
                        pat@,
                        i0 + 2,
                    ));
                    assert(ans@ + glob_regex_from(pat@, i as int) =~= ans0 + glob_regex_from(
                        pat@,
                        i0,
                    ));
                }
            } else {
                ans.push('[');
                ans.push('^');
                ans.push('/');
                ans.push(']');
                ans.push('*');
                i = i + 1;
                proof {
                    assert(glob_regex_from(pat@, i0) =~= seq!['[', '^', '/', ']', '*']
                        + glob_regex_from(pat@, i0 + 1));
                    assert(ans@ + glob_regex_from(pat@, i as int) =~= ans0 + glob_regex_from(
                        pat@,
                        i0,
                    ));
                }
            }
        } else if c == '[' {
            let mut j: usize = i + 1;
            while j < n && pat[j] != ']'
                invariant
                    n == pat@.len(),
                    i + 1 <= j <= n,
                    forall|k: int| i + 1 <= k < j ==> pat@[k] != ']',
                decreases n - j,
            {
                j = j + 1;
            }
            proof {
                lemma_close_off_at(pat@, i0 + 1, j as int);
            }
            if j >= n {
                ans.push('\\');
                ans.push('[');
                i = i + 1;
                proof {
                    assert(glob_regex_from(pat@, i0) =~= seq!['\\', '['] + glob_regex_from(
                        pat@,
                        i0 + 1,
                    ));
                    assert(ans@ + glob_regex_from(pat@, i as int) =~= ans0 + glob_regex_from(
                        pat@,
                        i0,
                    ));
                }
            } else {
                let ghost body: Seq<char> = pat@.subrange(i0 + 1, j as int);
                let ghost nb: Seq<char> = negate_mark(body);
                ans.push('[');
                let mut k: usize = i + 1;
                while k < j
                    invariant
                        n == pat@.len(),
                        0 <= i0,
                        i as int == i0,
                        i0 + 1 <= k <= j < n,
                        body == pat@.subrange(i0 + 1, j as int),
                        nb == negate_mark(body),
                        nb.len() == j - (i0 + 1),
                        forall|t: int| 1 <= t < nb.len() ==> nb[t] == body[t],
                        ans@ == ans0 + seq!['['] + escape_backslashes(
                            nb.subrange(0, k - (i0 + 1)),
                        ),
                    decreases j - k,
                {
                    let ghost pre: Seq<char> = nb.subrange(0, k - (i0 + 1));
                    let mut c2 = pat[k];
                    if k == i + 1 && c2 == '!' {
                        c2 = '^';
                    }
                    proof {
                        assert(nb[k - (i0 + 1)] == c2);
                    }
                    if c2 == '\\' {
                        ans.push('\\');
                        ans.push('\\');
                    } else {
                        ans.push(c2);
                    }
                    k = k + 1;
                    proof {
                        let post = nb.subrange(0, k - (i0 + 1));
                        assert(post =~= pre + seq![nb[k - 1 - (i0 + 1)]]);
                        lemma_escape_concat(pre, seq![nb[k - 1 - (i0 + 1)]]);
                        let single = seq![c2];
                        assert(single.drop_first() =~= Seq::<char>::empty());
                        assert(escape_backslashes(Seq::<char>::empty()) =~= Seq::<char>::empty());
                        assert(escape_backslashes(single) =~= if c2 == '\\' {
                            seq!['\\', '\\']
                        } else {
                            seq![c2]
                        });
                        assert(ans@ =~= ans0 + seq!['['] + escape_backslashes(post));
                    }
                }
                ans.push(']');
                i = j + 1;
                proof {
                    assert(nb.subrange(0, nb.len() as int) =~= nb);
                    assert(glob_regex_from(pat@, i0) =~= seq!['['] + escape_backslashes(nb)
                        + seq![']'] + glob_regex_from(pat@, i as int));
                    assert(ans@ =~= ans0 + seq!['['] + escape_backslashes(nb) + seq![']']);
                    assert(ans@ + glob_regex_from(pat@, i as int) =~= ans0 + glob_regex_from(
                        pat@,
                        i0,
                    ));
                }
            }
        } else if is_meta(c) {
            ans.push('\\');
            ans.push(c);
            i = i + 1;
            proof {
                assert(glob_regex_from(pat@, i0) =~= seq!['\\', pat@[i0]] + glob_regex_from(
                    pat@,
                    i0 + 1,
                ));
                assert(ans@ + glob_regex_from(pat@, i as int) =~= ans0 + glob_regex_from(
                    pat@,
                    i0,
                ));
            }
        } else {
            ans.push(c);
            i = i + 1;
            proof {
                assert(glob_regex_from(pat@, i0) =~= seq![pat@[i0]] + glob_regex_from(
                    pat@,
                    i0 + 1,
                ));
                assert(ans@ + glob_regex_from(pat@, i as int) =~= ans0 + glob_regex_from(
                    pat@,
                    i0,
                ));
            }
        }
    }
    proof {
        assert(ans@ + glob_regex_from(pat@, n as int) =~= ans@);
    }
    chars_to_string(&ans)
}

} // verus!
