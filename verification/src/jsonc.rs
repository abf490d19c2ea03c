//! Utilities for working with JSONC (JSON with comments).
use vstd::prelude::*;

use crate::text::{chars_of, string_of};

verus! {

/// Where a `/* ... */` comment whose body starts at `k` ends: just past the first
/// `*/`, or at the end of the text.
pub open spec fn block_comment_end(s: Seq<char>, k: int) -> int
    decreases s.len() - k,
{
    if k >= s.len() {
        s.len() as int
    } else if s[k] == '*' && k + 1 < s.len() && s[k + 1] == '/' {
        k + 2
    } else {
        block_comment_end(s, k + 1)
    }
}

/// Where a `// ...` comment whose body starts at `k` ends: at its newline, which
/// is kept, or at the end of the text.
pub open spec fn line_comment_end(s: Seq<char>, k: int) -> int
    decreases s.len() - k,
{
    if k >= s.len() {
        s.len() as int
    } else if s[k] == '\n' {
        k
    } else {
        line_comment_end(s, k + 1)
    }
}

/// The text from position `i` on with comments removed, given whether `i` is
/// inside a string literal and whether the previous character escaped this one.
///
/// A `"` that is not escaped opens or closes a string. Inside a string a `\`
/// toggles escaping. Outside strings, `//` removes the rest of the line but not
/// its newline, and `/*` removes everything up to and including the next `*/`.
/// Any other character is kept, and any character but `\` ends an escape.
pub open spec fn strip_from(s: Seq<char>, i: int, in_string: bool, escaped: bool) -> Seq<char>
    decreases s.len() - i,
{
    if i < 0 || i >= s.len() {
        seq![]
    } else {
        let ch = s[i];
        if ch == '"' && !escaped {
            seq![ch] + strip_from(s, i + 1, !in_string, escaped)
        } else if ch == '\\' && in_string {
            seq![ch] + strip_from(s, i + 1, in_string, !escaped)
        } else if ch == '/' && !in_string && !escaped {
            if i + 1 < s.len() {
                if s[i + 1] == '/' {
                    let e = line_comment_end(s, i + 2);
                    if i < e < s.len() {
                        seq!['\n'] + strip_from(s, e + 1, in_string, escaped)
                    } else {
                        seq![]
                    }
                } else if s[i + 1] == '*' {
                    let e = block_comment_end(s, i + 2);
                    if i < e <= s.len() {
                        strip_from(s, e, in_string, escaped)
                    } else {
                        seq![]
                    }
                } else {
                    seq!['/'] + strip_from(s, i + 1, in_string, escaped)
                }
            } else {
                seq!['/']
            }
        } else {
            seq![ch] + strip_from(s, i + 1, in_string, if ch != '\\' { false } else { escaped })
        }
    }
}

/// `content` with its comments removed.
pub open spec fn strip_json_comments_spec(content: Seq<char>) -> Seq<char> {
    strip_from(content, 0, false, false)
}

proof fn lemma_block_comment_end(s: Seq<char>, k: int)
    requires
        0 <= k,
    ensures
        k <= block_comment_end(s, k) <= s.len() || (k > s.len() && block_comment_end(s, k) == s.len()),
    decreases s.len() - k,
{
    if k < s.len() && !(s[k] == '*' && k + 1 < s.len() && s[k + 1] == '/') {
        lemma_block_comment_end(s, k + 1);
    }
}

proof fn lemma_line_comment_end(s: Seq<char>, k: int)
    requires
        0 <= k,
    ensures
        k <= line_comment_end(s, k) <= s.len() || (k > s.len() && line_comment_end(s, k) == s.len()),
        line_comment_end(s, k) < s.len() ==> s[line_comment_end(s, k)] == '\n',
    decreases s.len() - k,
{
    if k < s.len() && s[k] != '\n' {
        lemma_line_comment_end(s, k + 1);
    }
}

/// Removes `//` and `/* */` comments from JSONC text, leaving string contents alone.
pub fn strip_json_comments(content: &str) -> (result: String)
    ensures
        result@ == strip_json_comments_spec(content@),
{
    let s = chars_of(content);
    let ghost sv = s@;
    let mut out: Vec<char> = Vec::new();
    let mut i: usize = 0;
    let mut in_string = false;
    let mut escaped = false;
    while i < s.len()
        invariant
            sv == s@,
            sv == content@,
            i <= s.len(),
            out@ + strip_from(sv, i as int, in_string, escaped) == strip_from(sv, 0, false, false),
        decreases s.len() - i,
    {
        let ghost before = out@;
        let ghost (st, es) = (in_string, escaped);
        let ch = s[i];
        i = i + 1;
        if ch == '"' && !escaped {
            in_string = !in_string;
            out.push(ch);
            assert(out@ + strip_from(sv, i as int, in_string, escaped) =~= before + strip_from(sv, i - 1, st, es));
        } else if ch == '\\' && in_string {
            escaped = !escaped;
            out.push(ch);
            assert(out@ + strip_from(sv, i as int, in_string, escaped) =~= before + strip_from(sv, i - 1, st, es));
        } else if ch == '/' && !in_string && !escaped {
            if i < s.len() {
                let next = s[i];
                if next == '/' {
                    i = i + 1;
                    let ghost k = i as int;
                    proof {
                        lemma_line_comment_end(sv, k);
                    }
                    let mut done = false;
                    while i < s.len()
                        invariant_except_break
                            !done,
                            line_comment_end(sv, k) == line_comment_end(sv, i as int),
                            out@ == before,
                        invariant
                            sv == s@,
                            k <= i <= s.len(),
                        ensures
                            done ==> i - 1 == line_comment_end(sv, k) && out@ == before.push('\n'),
                            !done ==> i == s.len() && line_comment_end(sv, k) == s.len() && out@ == before,
                        decreases s.len() - i,
                    {
                        let c = s[i];
                        i = i + 1;
                        if c == '\n' {
                            out.push(c);
                            done = true;
                            break;
                        }
                    }
                    proof {
                        if !done {
                            assert(strip_from(sv, i as int, in_string, escaped) =~= seq![]);
                        }
                    }
                    assert(out@ + strip_from(sv, i as int, in_string, escaped) =~= before + strip_from(sv, k - 2, st, es));
                } else if next == '*' {
                    i = i + 1;
                    let ghost k = i as int;
                    proof {
                        lemma_block_comment_end(sv, k);
                    }
                    while i < s.len()
                        invariant_except_break
                            block_comment_end(sv, k) == block_comment_end(sv, i as int),
                        invariant
                            sv == s@,
                            k <= i <= s.len(),
                        ensures
                            i as int == block_comment_end(sv, k),
                        decreases s.len() - i,
                    {
                        let c = s[i];
                        i = i + 1;
                        if c == '*' {
                            if i < s.len() && s[i] == '/' {
                                i = i + 1;
                                break;
                            }
                        }
                    }
                    assert(out@ + strip_from(sv, i as int, in_string, escaped) =~= before + strip_from(sv, k - 2, st, es));
                } else {
                    out.push(ch);
                    assert(out@ + strip_from(sv, i as int, in_string, escaped) =~= before + strip_from(sv, i - 1, st, es));
                }
            } else {
                out.push(ch);
                assert(strip_from(sv, i as int, in_string, escaped) =~= seq![]);
                assert(out@ + strip_from(sv, i as int, in_string, escaped) =~= before + strip_from(sv, i - 1, st, es));
            }
        } else {
            out.push(ch);
            if ch != '\\' {
                escaped = false;
            }
            assert(out@ + strip_from(sv, i as int, in_string, escaped) =~= before + strip_from(sv, i - 1, st, es));
        }
    }
    assert(strip_from(sv, i as int, in_string, escaped) =~= seq![]);
    assert(out@ =~= strip_json_comments_spec(content@));
    string_of(&out)
}

/// No `/` of the text is followed by a `/` or a `*`: it opens no comment.
pub open spec fn no_comment_opener(s: Seq<char>) -> bool {
    forall|i: int| 0 <= i < s.len() - 1 && #[trigger] s[i] == '/' ==> s[i + 1] != '/' && s[i + 1] != '*'
}

/// Text in which no `/` is followed by `/` or `*` has no comments, and is left
/// as it is.
pub proof fn lemma_no_comment_unchanged(s: Seq<char>)
    requires
        no_comment_opener(s),
    ensures
        strip_json_comments_spec(s) == s,
{
    lemma_no_opener_from(s, 0, false, false);
    assert(s.skip(0) =~= s);
}

proof fn lemma_no_opener_from(s: Seq<char>, i: int, in_string: bool, escaped: bool)
    requires
        0 <= i <= s.len(),
        no_comment_opener(s),
    ensures
        strip_from(s, i, in_string, escaped) == s.skip(i),
    decreases s.len() - i,
{
    if i < s.len() {
        let ch = s[i];
        if ch == '"' && !escaped {
            lemma_no_opener_from(s, i + 1, !in_string, escaped);
        } else if ch == '\\' && in_string {
            lemma_no_opener_from(s, i + 1, in_string, !escaped);
        } else if ch == '/' && !in_string && !escaped {
            if i + 1 < s.len() {
                assert(s[i + 1] != '/' && s[i + 1] != '*');
                lemma_no_opener_from(s, i + 1, in_string, escaped);
            } else {
                assert(s.skip(i) =~= seq!['/']);
            }
        } else {
            lemma_no_opener_from(s, i + 1, in_string, if ch != '\\' { false } else { escaped });
        }
        assert(s.skip(i) =~= seq![ch] + s.skip(i + 1));
    } else {
        assert(s.skip(i) =~= Seq::<char>::empty());
    }
}

/// Whether `a` is a subsequence of `b`: `b` with some characters left out.
pub open spec fn is_subsequence(a: Seq<char>, b: Seq<char>) -> bool
    decreases b.len(),
{
    if a.len() == 0 {
        true
    } else if b.len() == 0 {
        false
    } else if a[0] == b[0] {
        is_subsequence(a.drop_first(), b.drop_first())
    } else {
        is_subsequence(a, b.drop_first())
    }
}

proof fn lemma_subsequence_tail(a: Seq<char>, b: Seq<char>)
    requires
        a.len() > 0,
        is_subsequence(a, b),
    ensures
        is_subsequence(a.drop_first(), b),
    decreases b.len(), 1int,
{
    if a[0] == b[0] {
        lemma_subsequence_cons(a.drop_first(), b);
    } else {
        lemma_subsequence_tail(a, b.drop_first());
        lemma_subsequence_cons(a.drop_first(), b);
    }
}

proof fn lemma_subsequence_cons(x: Seq<char>, b: Seq<char>)
    requires
        b.len() > 0,
        is_subsequence(x, b.drop_first()),
    ensures
        is_subsequence(x, b),
    decreases b.len(), 0int,
{
    if x.len() > 0 && x[0] == b[0] {
        lemma_subsequence_tail(x, b.drop_first());
    }
}

proof fn lemma_subsequence_skip(a: Seq<char>, b: Seq<char>, k: int)
    requires
        0 <= k <= b.len(),
        is_subsequence(a, b.skip(k)),
    ensures
        is_subsequence(a, b),
    decreases k,
{
    if k > 0 {
        assert(b.skip(k - 1).drop_first() =~= b.skip(k));
        lemma_subsequence_cons(a, b.skip(k - 1));
        lemma_subsequence_skip(a, b, k - 1);
    } else {
        assert(b.skip(0) =~= b);
    }
}

proof fn lemma_subsequence_len(a: Seq<char>, b: Seq<char>)
    requires
        is_subsequence(a, b),
    ensures
        a.len() <= b.len(),
    decreases b.len(),
{
    if a.len() > 0 {
        if a[0] == b[0] {
            lemma_subsequence_len(a.drop_first(), b.drop_first());
        } else {
            lemma_subsequence_len(a, b.drop_first());
        }
    }
}

proof fn lemma_strip_from_subsequence(s: Seq<char>, i: int, in_string: bool, escaped: bool)
    requires
        0 <= i <= s.len(),
    ensures
        is_subsequence(strip_from(s, i, in_string, escaped), s.skip(i)),
    decreases s.len() - i,
{
    if i < s.len() {
        let ch = s[i];
        let t = s.skip(i);
        assert(t[0] == ch);
        assert(t.drop_first() =~= s.skip(i + 1));
        if ch == '"' && !escaped {
            lemma_strip_from_subsequence(s, i + 1, !in_string, escaped);
            let r = strip_from(s, i + 1, !in_string, escaped);
            assert(strip_from(s, i, in_string, escaped) == seq![ch] + r);
            assert((seq![ch] + r).drop_first() =~= r);
            assert((seq![ch] + r)[0] == t[0]);
        } else if ch == '\\' && in_string {
            lemma_strip_from_subsequence(s, i + 1, in_string, !escaped);
            let r = strip_from(s, i + 1, in_string, !escaped);
            assert(strip_from(s, i, in_string, escaped) == seq![ch] + r);
            assert((seq![ch] + r).drop_first() =~= r);
            assert((seq![ch] + r)[0] == t[0]);
        } else if ch == '/' && !in_string && !escaped {
            if i + 1 < s.len() {
                if s[i + 1] == '/' {
                    let e = line_comment_end(s, i + 2);
                    lemma_line_comment_end(s, i + 2);
                    if i < e < s.len() {
                        lemma_strip_from_subsequence(s, e + 1, in_string, escaped);
                        let r = strip_from(s, e + 1, in_string, escaped);
                        let u = s.skip(e);
                        assert(u[0] == '\n');
                        assert(u.drop_first() =~= s.skip(e + 1));
                        assert((seq!['\n'] + r).drop_first() =~= r);
                        assert(is_subsequence(seq!['\n'] + r, u));
                        assert(s.skip(i).skip(e - i) =~= u);
                        lemma_subsequence_skip(seq!['\n'] + r, s.skip(i), e - i);
                    }
                } else if s[i + 1] == '*' {
                    let e = block_comment_end(s, i + 2);
                    lemma_block_comment_end(s, i + 2);
                    if i < e <= s.len() {
                        lemma_strip_from_subsequence(s, e, in_string, escaped);
                        assert(s.skip(i).skip(e - i) =~= s.skip(e));
                        lemma_subsequence_skip(strip_from(s, e, in_string, escaped), s.skip(i), e - i);
                    }
                } else {
                    lemma_strip_from_subsequence(s, i + 1, in_string, escaped);
                    let r = strip_from(s, i + 1, in_string, escaped);
                    assert(strip_from(s, i, in_string, escaped) == seq!['/'] + r);
                    assert((seq!['/'] + r).drop_first() =~= r);
                    assert((seq!['/'] + r)[0] == t[0]);
                }
            } else {
                assert(strip_from(s, i, in_string, escaped) == seq!['/']);
                assert(seq!['/'].drop_first() =~= Seq::<char>::empty());
                assert(is_subsequence(Seq::<char>::empty(), t.drop_first()));
            }
        } else {
            let esc = if ch != '\\' { false } else { escaped };
            lemma_strip_from_subsequence(s, i + 1, in_string, esc);
            let r = strip_from(s, i + 1, in_string, esc);
            assert(strip_from(s, i, in_string, escaped) == seq![ch] + r);
            assert((seq![ch] + r).drop_first() =~= r);
            assert((seq![ch] + r)[0] == t[0]);
        }
    }
}

proof fn lemma_line_end_shift(s: Seq<char>, j: int, k: int)
    requires
        0 <= j <= k,
        j <= s.len(),
    ensures
        line_comment_end(s, k) == line_comment_end(s.skip(j), k - j) + j,
    decreases s.len() - k,
{
    if k < s.len() {
        assert(s.skip(j)[k - j] == s[k]);
        if s[k] != '\n' {
            lemma_line_end_shift(s, j, k + 1);
        }
    }
}

proof fn lemma_block_end_shift(s: Seq<char>, j: int, k: int)
    requires
        0 <= j <= k,
        j <= s.len(),
    ensures
        block_comment_end(s, k) == block_comment_end(s.skip(j), k - j) + j,
    decreases s.len() - k,
{
    if k < s.len() {
        assert(s.skip(j)[k - j] == s[k]);
        if k + 1 < s.len() {
            assert(s.skip(j)[k + 1 - j] == s[k + 1]);
        }
        if !(s[k] == '*' && k + 1 < s.len() && s[k + 1] == '/') {
            lemma_block_end_shift(s, j, k + 1);
        }
    }
}

/// What is left of the text from `k` on depends on that part of the text alone.
proof fn lemma_strip_shift(s: Seq<char>, j: int, k: int, in_string: bool, escaped: bool)
    requires
        0 <= j <= k <= s.len(),
    ensures
        strip_from(s, k, in_string, escaped) == strip_from(s.skip(j), k - j, in_string, escaped),
    decreases s.len() - k,
{
    let t = s.skip(j);
    if k < s.len() {
        let ch = s[k];
        assert(t[k - j] == ch);
        if k + 1 < s.len() {
            assert(t[k + 1 - j] == s[k + 1]);
        }
        if ch == '"' && !escaped {
            lemma_strip_shift(s, j, k + 1, !in_string, escaped);
        } else if ch == '\\' && in_string {
            lemma_strip_shift(s, j, k + 1, in_string, !escaped);
        } else if ch == '/' && !in_string && !escaped {
            if k + 1 < s.len() {
                if s[k + 1] == '/' {
                    lemma_line_end_shift(s, j, k + 2);
                    lemma_line_comment_end(s, k + 2);
                    let e = line_comment_end(s, k + 2);
                    if k < e < s.len() {
                        lemma_strip_shift(s, j, e + 1, in_string, escaped);
                    }
                } else if s[k + 1] == '*' {
                    lemma_block_end_shift(s, j, k + 2);
                    lemma_block_comment_end(s, k + 2);
                    let e = block_comment_end(s, k + 2);
                    if k < e <= s.len() {
                        lemma_strip_shift(s, j, e, in_string, escaped);
                    }
                } else {
                    lemma_strip_shift(s, j, k + 1, in_string, escaped);
                }
            }
        } else {
            lemma_strip_shift(s, j, k + 1, in_string, if ch != '\\' { false } else { escaped });
        }
    }
}

/// Where the next character is not `/`, the text left from there starts with it.
proof fn lemma_strip_first(s: Seq<char>, k: int, in_string: bool, escaped: bool)
    requires
        0 <= k < s.len(),
        s[k] != '/',
    ensures
        strip_from(s, k, in_string, escaped).len() > 0,
        strip_from(s, k, in_string, escaped)[0] == s[k],
{
}

/// What is left of the text is left as it is by a second pass from the same
/// state.
proof fn lemma_strip_from_idempotent(s: Seq<char>, i: int, in_string: bool, escaped: bool)
    requires
        0 <= i <= s.len(),
    ensures
        strip_from(strip_from(s, i, in_string, escaped), 0, in_string, escaped) == strip_from(s, i, in_string, escaped),
    decreases s.len() - i,
{
    let t = strip_from(s, i, in_string, escaped);
    if i < s.len() {
        let ch = s[i];
        if ch == '"' && !escaped {
            let r = strip_from(s, i + 1, !in_string, escaped);
            lemma_strip_from_idempotent(s, i + 1, !in_string, escaped);
            assert(t == seq![ch] + r);
            assert(t.skip(1) =~= r);
            lemma_strip_shift(t, 1, 1, !in_string, escaped);
            assert(strip_from(t, 0, in_string, escaped) == seq![ch] + strip_from(t, 1, !in_string, escaped));
        } else if ch == '\\' && in_string {
            let r = strip_from(s, i + 1, in_string, !escaped);
            lemma_strip_from_idempotent(s, i + 1, in_string, !escaped);
            assert(t == seq![ch] + r);
            assert(t.skip(1) =~= r);
            lemma_strip_shift(t, 1, 1, in_string, !escaped);
            assert(strip_from(t, 0, in_string, escaped) == seq![ch] + strip_from(t, 1, in_string, !escaped));
        } else if ch == '/' && !in_string && !escaped {
            if i + 1 < s.len() {
                if s[i + 1] == '/' {
                    let e = line_comment_end(s, i + 2);
                    lemma_line_comment_end(s, i + 2);
                    if i < e < s.len() {
                        let r = strip_from(s, e + 1, in_string, escaped);
                        lemma_strip_from_idempotent(s, e + 1, in_string, escaped);
                        assert(t == seq!['\n'] + r);
                        assert(t.skip(1) =~= r);
                        lemma_strip_shift(t, 1, 1, in_string, escaped);
                        assert(strip_from(t, 0, in_string, escaped) == seq!['\n'] + strip_from(t, 1, in_string, false));
                    } else {
                        assert(t == Seq::<char>::empty());
                    }
                } else if s[i + 1] == '*' {
                    let e = block_comment_end(s, i + 2);
                    lemma_block_comment_end(s, i + 2);
                    if i < e <= s.len() {
                        lemma_strip_from_idempotent(s, e, in_string, escaped);
                    } else {
                        assert(t == Seq::<char>::empty());
                    }
                } else {
                    let r = strip_from(s, i + 1, in_string, escaped);
                    lemma_strip_from_idempotent(s, i + 1, in_string, escaped);
                    lemma_strip_first(s, i + 1, in_string, escaped);
                    assert(t == seq!['/'] + r);
                    assert(t.skip(1) =~= r);
                    assert(t[1] == s[i + 1]);
                    lemma_strip_shift(t, 1, 1, in_string, escaped);
                    assert(strip_from(t, 0, in_string, escaped) == seq!['/'] + strip_from(t, 1, in_string, escaped));
                }
            } else {
                assert(t == seq!['/']);
                assert(strip_from(t, 0, in_string, escaped) == seq!['/']);
            }
        } else {
            let esc = if ch != '\\' { false } else { escaped };
            let r = strip_from(s, i + 1, in_string, esc);
            lemma_strip_from_idempotent(s, i + 1, in_string, esc);
            assert(t == seq![ch] + r);
            assert(t.skip(1) =~= r);
            lemma_strip_shift(t, 1, 1, in_string, esc);
            assert(strip_from(t, 0, in_string, escaped) == seq![ch] + strip_from(t, 1, in_string, esc));
        }
    }
}

/// Removing comments twice removes nothing more than once.
pub proof fn lemma_strip_idempotent(s: Seq<char>)
    ensures
        strip_json_comments_spec(strip_json_comments_spec(s)) == strip_json_comments_spec(s),
{
    lemma_strip_from_idempotent(s, 0, false, false);
}

/// Removing comments only leaves characters out: the result is a subsequence of
/// the text, and no longer than it.
pub proof fn lemma_strip_is_subsequence(s: Seq<char>)
    ensures
        is_subsequence(strip_json_comments_spec(s), s),
        strip_json_comments_spec(s).len() <= s.len(),
{
    lemma_strip_from_subsequence(s, 0, false, false);
    assert(s.skip(0) =~= s);
    lemma_subsequence_len(strip_json_comments_spec(s), s);
}

} // verus!
