//! Character-level helpers shared by the parsers and formatters of this crate:
//! conversions between `str`/`String` and `Vec<char>`, searching, splitting,
//! and decimal integers (parsed the way `u64::from_str` parses them, printed the
//! way `Display` prints them).
use vstd::prelude::*;

verus! {

/// The characters of `s`, in order.
pub fn chars_of(s: &str) -> (out: Vec<char>)
    ensures
        out@ == s@,
{
    let mut out: Vec<char> = Vec::new();
    for c in it: s.chars()
        invariant
            out@ == it.seq().take(it.index() as int),
            it.seq() == s@,
    {
        out.push(c);
    }
    out
}

/// `String::push`: appends one character.
#[verifier::external_body]
pub fn string_push(s: &mut String, c: char)
    ensures
        final(s)@ == old(s)@.push(c),
{
    s.push(c);
}

/// A `String` holding exactly the characters of `v`.
pub fn string_of(v: &Vec<char>) -> (out: String)
    ensures
        out@ == v@,
{
    let mut out = String::new();
    let mut i: usize = 0;
    while i < v.len()
        invariant
            i <= v.len(),
            out@ == v@.take(i as int),
        decreases v.len() - i,
    {
        string_push(&mut out, v[i]);
        i = i + 1;
        assert(out@ =~= v@.take(i as int));
    }
    assert(v@.take(v.len() as int) =~= v@);
    out
}

/// Appends the characters of `s` to `out`.
pub fn push_str(out: &mut Vec<char>, s: &str)
    ensures
        final(out)@ == old(out)@ + s@,
{
    let cs = chars_of(s);
    push_all(out, &cs);
}

/// Appends all of `src` to `out`.
pub fn push_all(out: &mut Vec<char>, src: &Vec<char>)
    ensures
        final(out)@ == old(out)@ + src@,
{
    let ghost start = out@;
    let mut i: usize = 0;
    while i < src.len()
        invariant
            i <= src.len(),
            out@ == start + src@.take(i as int),
        decreases src.len() - i,
    {
        out.push(src[i]);
        i = i + 1;
        assert(out@ =~= start + src@.take(i as int));
    }
    assert(src@.take(src.len() as int) =~= src@);
}

/// Appends `src[start..end]` to `out`.
pub fn push_range(out: &mut Vec<char>, src: &Vec<char>, start: usize, end: usize)
    requires
        start <= end <= src.len(),
    ensures
        final(out)@ == old(out)@ + src@.subrange(start as int, end as int),
{
    let ghost first = out@;
    let mut i: usize = start;
    while i < end
        invariant
            start <= i <= end <= src.len(),
            out@ == first + src@.subrange(start as int, i as int),
        decreases end - i,
    {
        out.push(src[i]);
        i = i + 1;
        assert(out@ =~= first + src@.subrange(start as int, i as int));
    }
}

/// A copy of `src[start..end]`.
pub fn slice_chars(src: &Vec<char>, start: usize, end: usize) -> (out: Vec<char>)
    requires
        start <= end <= src.len(),
    ensures
        out@ == src@.subrange(start as int, end as int),
{
    let mut out: Vec<char> = Vec::new();
    push_range(&mut out, src, start, end);
    assert(out@ =~= src@.subrange(start as int, end as int));
    out
}

/// Whether `a` and `b` hold the same characters.
/// Whether two texts are the same.
pub fn text_eq(a: &str, b: &str) -> (r: bool)
    ensures
        r == (a@ == b@),
{
    let x = chars_of(a);
    let y = chars_of(b);
    chars_eq(&x, &y)
}

pub fn chars_eq(a: &Vec<char>, b: &Vec<char>) -> (r: bool)
    ensures
        r == (a@ == b@),
{
    if a.len() != b.len() {
        return false;
    }
    let mut i: usize = 0;
    while i < a.len()
        invariant
            a.len() == b.len(),
            i <= a.len(),
            forall|j: int| 0 <= j < i ==> a@[j] == b@[j],
        decreases a.len() - i,
    {
        if a[i] != b[i] {
            return false;
        }
        i = i + 1;
    }
    assert(a@ =~= b@);
    true
}

/// `i` is the first position of `c` in `s`.
pub open spec fn is_first_index(s: Seq<char>, c: char, i: int) -> bool {
    &&& 0 <= i < s.len()
    &&& s[i] == c
    &&& forall|j: int| 0 <= j < i ==> s[j] != c
}

/// The first position of `c` in `s`, if `c` occurs in it.
pub open spec fn first_index_of(s: Seq<char>, c: char) -> Option<int> {
    if exists|i: int| 0 <= i < s.len() && s[i] == c {
        Some(choose|i: int| is_first_index(s, c, i))
    } else {
        None
    }
}

/// Two first positions are the same position.
pub proof fn lemma_first_index_unique(s: Seq<char>, c: char, i: int, k: int)
    requires
        is_first_index(s, c, i),
        is_first_index(s, c, k),
    ensures
        i == k,
{
    if i < k {
        assert(s[i] != c);
    } else if k < i {
        assert(s[k] != c);
    }
}

/// `first_index_of` is `Some(i)` exactly when `i` is the first position.
pub proof fn lemma_first_index_of(s: Seq<char>, c: char, i: int)
    requires
        is_first_index(s, c, i),
    ensures
        first_index_of(s, c) == Some(i),
{
    assert(exists|i: int| 0 <= i < s.len() && s[i] == c);
    let k = choose|k: int| is_first_index(s, c, k);
    lemma_first_index_unique(s, c, i, k);
}

/// `first_index_of` is `None` exactly when `c` does not occur.
pub proof fn lemma_first_index_of_none(s: Seq<char>, c: char)
    requires
        forall|j: int| 0 <= j < s.len() ==> s[j] != c,
    ensures
        first_index_of(s, c) == None::<int>,
{
}

/// A `Some` from `first_index_of` is a first position.
pub proof fn lemma_first_index_of_some(s: Seq<char>, c: char)
    requires
        first_index_of(s, c) is Some,
    ensures
        is_first_index(s, c, first_index_of(s, c)->0),
{
    let w = choose|i: int| 0 <= i < s.len() && s[i] == c;
    lemma_min_exists(s, c, w);
}

/// If `c` occurs at or before `w`, it has a first position.
proof fn lemma_min_exists(s: Seq<char>, c: char, w: int)
    requires
        0 <= w < s.len(),
        s[w] == c,
    ensures
        exists|i: int| is_first_index(s, c, i),
    decreases w,
{
    if forall|j: int| 0 <= j < w ==> s[j] != c {
        assert(is_first_index(s, c, w));
    } else {
        let j = choose|j: int| 0 <= j < w && s[j] == c;
        lemma_min_exists(s, c, j);
    }
}

/// The first position of `c` in `src[start..end]`, relative to `start`.
pub fn find_char(src: &Vec<char>, start: usize, end: usize, c: char) -> (r: Option<usize>)
    requires
        start <= end <= src.len(),
    ensures
        r matches Some(i) ==> start + i < end && first_index_of(
            src@.subrange(start as int, end as int),
            c,
        ) == Some(i as int),
        r is None ==> first_index_of(src@.subrange(start as int, end as int), c) == None::<int>,
{
    let ghost s = src@.subrange(start as int, end as int);
    let mut i: usize = start;
    while i < end
        invariant
            start <= i <= end <= src.len(),
            s == src@.subrange(start as int, end as int),
            forall|j: int| 0 <= j < i - start ==> s[j] != c,
        decreases end - i,
    {
        if src[i] == c {
            proof {
                assert(is_first_index(s, c, i - start));
                lemma_first_index_of(s, c, i - start);
            }
            return Some(i - start);
        }
        i = i + 1;
    }
    None
}

/// `s` split at every occurrence of `c`, as `str::split` splits it.
pub open spec fn split_char(s: Seq<char>, c: char) -> Seq<Seq<char>>
    decreases s.len(),
{
    match first_index_of(s, c) {
        None => seq![s],
        Some(i) => if 0 <= i < s.len() {
            seq![s.take(i)] + split_char(s.skip(i + 1), c)
        } else {
            seq![s]
        },
    }
}

/// The ranges of the pieces of `src[start..end]` split at every `c`.
pub fn split_ranges(src: &Vec<char>, start: usize, end: usize, c: char) -> (r: Vec<(usize, usize)>)
    requires
        start <= end <= src.len(),
    ensures
        r.len() == split_char(src@.subrange(start as int, end as int), c).len(),
        forall|k: int|
            0 <= k < r.len() ==> {
                &&& start <= (#[trigger] r@[k]).0 <= r@[k].1 <= end
                &&& src@.subrange(r@[k].0 as int, r@[k].1 as int) == split_char(
                    src@.subrange(start as int, end as int),
                    c,
                )[k]
            },
{
    let ghost whole = split_char(src@.subrange(start as int, end as int), c);
    let mut r: Vec<(usize, usize)> = Vec::new();
    let mut cur: usize = start;
    loop
        invariant
            start <= cur <= end <= src.len(),
            whole == split_char(src@.subrange(start as int, end as int), c),
            whole =~= r@.map_values(|p: (usize, usize)| src@.subrange(p.0 as int, p.1 as int))
                + split_char(src@.subrange(cur as int, end as int), c),
            forall|k: int| 0 <= k < r.len() ==> start <= (#[trigger] r@[k]).0 <= r@[k].1 <= end,
        decreases end - cur,
    {
        let ghost rest = src@.subrange(cur as int, end as int);
        let ghost before = r@;
        match find_char(src, cur, end, c) {
            None => {
                r.push((cur, end));
                proof {
                    assert(split_char(rest, c) == seq![rest]);
                    assert(r@.map_values(|p: (usize, usize)| src@.subrange(p.0 as int, p.1 as int))
                        =~= before.map_values(|p: (usize, usize)| src@.subrange(p.0 as int, p.1 as int))
                        + seq![rest]);
                    assert(whole =~= r@.map_values(|p: (usize, usize)| src@.subrange(p.0 as int, p.1 as int)));
                    assert forall|k: int| 0 <= k < r.len() implies src@.subrange(
                        r@[k].0 as int,
                        r@[k].1 as int,
                    ) == whole[k] by {
                        assert(whole[k] == r@.map_values(|p: (usize, usize)| src@.subrange(p.0 as int, p.1 as int))[k]);
                    }
                }
                return r;
            },
            Some(i) => {
                let j = cur + i;
                r.push((cur, j));
                proof {
                    assert(rest.take(i as int) =~= src@.subrange(cur as int, j as int));
                    assert(rest.skip(i + 1) =~= src@.subrange(j + 1, end as int));
                    assert(split_char(rest, c) == seq![rest.take(i as int)] + split_char(rest.skip(i + 1), c));
                    assert(r@.map_values(|p: (usize, usize)| src@.subrange(p.0 as int, p.1 as int))
                        =~= before.map_values(|p: (usize, usize)| src@.subrange(p.0 as int, p.1 as int))
                        + seq![src@.subrange(cur as int, j as int)]);
                }
                cur = j + 1;
            },
        }
    }
}

/// The kinds of failure of `u64::from_str`.
#[derive(Clone, Copy, Debug, PartialEq, Eq)]
pub enum IntErrorKind {
    Empty,
    InvalidDigit,
    PosOverflow,
}

pub open spec fn is_digit(c: char) -> bool {
    '0' <= c && c <= '9'
}

pub open spec fn digit_value(c: char) -> int {
    (c as int) - ('0' as int)
}

pub open spec fn digit_char(d: int) -> char {
    (d + ('0' as int)) as char
}

/// The value of a run of decimal digits, read left to right the way
/// `u64::from_str` reads it: the first bad character or the first overflow,
/// from the left, decides the error.
pub open spec fn digits_value(s: Seq<char>) -> Result<u64, IntErrorKind>
    decreases s.len(),
{
    if s.len() == 0 {
        Ok(0)
    } else {
        match digits_value(s.drop_last()) {
            Err(e) => Err(e),
            Ok(v) => if !is_digit(s.last()) {
                Err(IntErrorKind::InvalidDigit)
            } else if v * 10 + digit_value(s.last()) > u64::MAX {
                Err(IntErrorKind::PosOverflow)
            } else {
                Ok((v * 10 + digit_value(s.last())) as u64)
            },
        }
    }
}

/// What `u64::from_str` returns on `s`.
pub open spec fn parse_u64_spec(s: Seq<char>) -> Result<u64, IntErrorKind> {
    if s.len() == 0 {
        Err(IntErrorKind::Empty)
    } else if (s[0] == '+' || s[0] == '-') && s.len() == 1 {
        Err(IntErrorKind::InvalidDigit)
    } else if s[0] == '+' {
        digits_value(s.drop_first())
    } else {
        digits_value(s)
    }
}

/// The decimal digits of `n`, as `Display` prints it.
pub open spec fn u64_text(n: nat) -> Seq<char>
    decreases n,
{
    if n < 10 {
        seq![digit_char(n as int)]
    } else {
        u64_text(n / 10).push(digit_char((n % 10) as int))
    }
}

/// The message of `ParseIntError` for each kind of failure.
pub open spec fn int_error_message(k: IntErrorKind) -> Seq<char> {
    match k {
        IntErrorKind::Empty => "cannot parse integer from empty string"@,
        IntErrorKind::InvalidDigit => "invalid digit found in string"@,
        IntErrorKind::PosOverflow => "number too large to fit in target type"@,
    }
}

/// The message of `ParseIntError` for `k`.
pub fn int_error_string(k: IntErrorKind) -> (s: String)
    ensures
        s@ == int_error_message(k),
{
    match k {
        IntErrorKind::Empty => "cannot parse integer from empty string".to_string(),
        IntErrorKind::InvalidDigit => "invalid digit found in string".to_string(),
        IntErrorKind::PosOverflow => "number too large to fit in target type".to_string(),
    }
}

/// Parses `src[start..end]` as `u64::from_str` does.
pub fn parse_u64(src: &Vec<char>, start: usize, end: usize) -> (r: Result<u64, IntErrorKind>)
    requires
        start <= end <= src.len(),
    ensures
        r == parse_u64_spec(src@.subrange(start as int, end as int)),
{
    let ghost s = src@.subrange(start as int, end as int);
    if start == end {
        return Err(IntErrorKind::Empty);
    }
    let first = src[start];
    if (first == '+' || first == '-') && end - start == 1 {
        return Err(IntErrorKind::InvalidDigit);
    }
    let ds: usize = if first == '+' {
        start + 1
    } else {
        start
    };
    let ghost digits = src@.subrange(ds as int, end as int);
    assert(first == '+' ==> digits =~= s.drop_first());
    assert(first != '+' ==> digits =~= s);
    let mut acc: u64 = 0;
    let mut i: usize = ds;
    while i < end
        invariant
            ds <= i <= end <= src.len(),
            digits == src@.subrange(ds as int, end as int),
            digits_value(src@.subrange(ds as int, i as int)) == Ok::<u64, IntErrorKind>(acc),
            parse_u64_spec(src@.subrange(start as int, end as int)) == digits_value(digits),
        decreases end - i,
    {
        let c = src[i];
        let ghost pre = src@.subrange(ds as int, (i + 1) as int);
        assert(pre.drop_last() =~= src@.subrange(ds as int, i as int));
        assert(pre.last() == c);
        if !('0' <= c && c <= '9') {
            proof {
                assert(digits.take((i - ds) as int + 1) =~= pre);
                lemma_digits_value_prefix_err(digits, (i - ds) as int + 1);
            }
            return Err(IntErrorKind::InvalidDigit);
        }
        let d = (c as u32 - '0' as u32) as u64;
        assert(d == digit_value(c));
        if acc > 1844674407370955161 || (acc == 1844674407370955161 && d > 5) {
            proof {
                assert(digits.take((i - ds) as int + 1) =~= pre);
                lemma_digits_value_prefix_err(digits, (i - ds) as int + 1);
            }
            return Err(IntErrorKind::PosOverflow);
        }
        acc = acc * 10 + d;
        i = i + 1;
    }
    assert(src@.subrange(ds as int, i as int) =~= digits);
    Ok(acc)
}

/// An error in a prefix is the error of the whole.
pub proof fn lemma_digits_value_prefix_err(s: Seq<char>, k: int)
    requires
        0 <= k <= s.len(),
        digits_value(s.take(k)) is Err,
    ensures
        digits_value(s) == digits_value(s.take(k)),
    decreases s.len() - k,
{
    if k < s.len() {
        assert(s.take(k + 1).drop_last() =~= s.take(k));
        lemma_digits_value_prefix_err(s, k + 1);
    } else {
        assert(s.take(k) =~= s);
    }
}

/// Appends the decimal digits of `n`.
pub fn push_u64(out: &mut Vec<char>, n: u64)
    ensures
        final(out)@ == old(out)@ + u64_text(n as nat),
    decreases n,
{
    if n >= 10 {
        push_u64(out, n / 10);
    }
    let d = (n % 10) as u32;
    let c = char_of_digit(d);
    out.push(c);
    proof {
        if n >= 10 {
            assert(u64_text(n as nat) == u64_text((n / 10) as nat).push(digit_char((n % 10) as int)));
        }
    }
    assert(final(out)@ =~= old(out)@ + u64_text(n as nat));
}

fn char_of_digit(d: u32) -> (c: char)
    requires
        d < 10,
    ensures
        c == digit_char(d as int),
{
    match d {
        0 => '0',
        1 => '1',
        2 => '2',
        3 => '3',
        4 => '4',
        5 => '5',
        6 => '6',
        7 => '7',
        8 => '8',
        _ => '9',
    }
}

/// The digits of `n` are decimal digits, there is at least one, and they read back as `n`.
pub proof fn lemma_u64_text(n: u64)
    ensures
        u64_text(n as nat).len() > 0,
        forall|i: int| 0 <= i < u64_text(n as nat).len() ==> is_digit(#[trigger] u64_text(n as nat)[i]),
        digits_value(u64_text(n as nat)) == Ok::<u64, IntErrorKind>(n),
    decreases n,
{
    let t = u64_text(n as nat);
    lemma_digit_char((n % 10) as int);
    if n < 10 {
        assert(t.drop_last() =~= Seq::<char>::empty());
        assert(digits_value(t.drop_last()) == Ok::<u64, IntErrorKind>(0));
    } else {
        let q = (n / 10) as u64;
        lemma_u64_text(q);
        assert(t == u64_text(q as nat).push(digit_char((n % 10) as int)));
        assert(t.drop_last() =~= u64_text(q as nat));
        assert(t.last() == digit_char((n % 10) as int));
        assert(q * 10 + (n % 10) == n);
        assert(forall|i: int| 0 <= i < t.len() ==> is_digit(#[trigger] t[i])) by {
            assert forall|i: int| 0 <= i < t.len() implies is_digit(#[trigger] t[i]) by {
                if i < t.len() - 1 {
                    assert(t[i] == u64_text(q as nat)[i]);
                }
            }
        }
    }
}

/// The character of a decimal digit is a digit, of that value.
pub proof fn lemma_digit_char(d: int)
    requires
        0 <= d < 10,
    ensures
        is_digit(digit_char(d)),
        digit_value(digit_char(d)) == d,
        digit_char(d) != '.',
        digit_char(d) != '-',
{
    assert(digit_char(d) as int == d + 48);
}

/// A run of digits printed from a `u64` parses back to it.
pub proof fn lemma_parse_u64_text(n: u64)
    ensures
        parse_u64_spec(u64_text(n as nat)) == Ok::<u64, IntErrorKind>(n),
{
    lemma_u64_text(n);
    let t = u64_text(n as nat);
    assert(is_digit(t[0]));
}

} // verus!

verus! {

// ---------------------------------------------------------------------------
// Whitespace, lines, joining
// ---------------------------------------------------------------------------

/// `char::is_whitespace`: the Unicode `White_Space` property.
pub open spec fn is_whitespace(c: char) -> bool {
    ||| c == '\t' || c == '\n' || c == '\u{0B}' || c == '\u{0C}' || c == '\r' || c == ' '
    ||| c == '\u{85}' || c == '\u{A0}' || c == '\u{1680}'
    ||| ('\u{2000}' <= c && c <= '\u{200A}')
    ||| c == '\u{2028}' || c == '\u{2029}' || c == '\u{202F}' || c == '\u{205F}' || c == '\u{3000}'
}

/// Whether `c` is whitespace, as `char::is_whitespace` decides.
pub fn char_is_whitespace(c: char) -> (r: bool)
    ensures
        r == is_whitespace(c),
{
    c == '\t' || c == '\n' || c == '\u{0B}' || c == '\u{0C}' || c == '\r' || c == ' ' || c
        == '\u{85}' || c == '\u{A0}' || c == '\u{1680}' || ('\u{2000}' <= c && c <= '\u{200A}')
        || c == '\u{2028}' || c == '\u{2029}' || c == '\u{202F}' || c == '\u{205F}' || c
        == '\u{3000}'
}

/// `s` without its leading whitespace.
pub open spec fn trim_start(s: Seq<char>) -> Seq<char>
    decreases s.len(),
{
    if s.len() > 0 && is_whitespace(s[0]) {
        trim_start(s.drop_first())
    } else {
        s
    }
}

/// `s` without its trailing whitespace.
pub open spec fn trim_end(s: Seq<char>) -> Seq<char>
    decreases s.len(),
{
    if s.len() > 0 && is_whitespace(s.last()) {
        trim_end(s.drop_last())
    } else {
        s
    }
}

/// `str::trim`.
pub open spec fn trim(s: Seq<char>) -> Seq<char> {
    trim_end(trim_start(s))
}

/// The bounds of `src[start..end]` with surrounding whitespace removed.
pub fn trim_range(src: &Vec<char>, start: usize, end: usize) -> (r: (usize, usize))
    requires
        start <= end <= src.len(),
    ensures
        start <= r.0 <= r.1 <= end,
        src@.subrange(r.0 as int, r.1 as int) == trim(src@.subrange(start as int, end as int)),
{
    let mut a = start;
    while a < end && char_is_whitespace(src[a])
        invariant
            start <= a <= end <= src.len(),
            trim_start(src@.subrange(start as int, end as int)) == trim_start(
                src@.subrange(a as int, end as int),
            ),
        decreases end - a,
    {
        assert(src@.subrange(a as int, end as int).drop_first() =~= src@.subrange(a + 1, end as int));
        a = a + 1;
    }
    let mut b = end;
    assert(trim_start(src@.subrange(a as int, end as int)) =~= src@.subrange(a as int, end as int));
    while b > a && char_is_whitespace(src[b - 1])
        invariant
            start <= a <= b <= end <= src.len(),
            trim(src@.subrange(start as int, end as int)) == trim_end(
                src@.subrange(a as int, b as int),
            ),
        decreases b - a,
    {
        assert(src@.subrange(a as int, b as int).drop_last() =~= src@.subrange(a as int, b - 1));
        b = b - 1;
    }
    (a, b)
}

/// A line without the `\r` of a `\r\n` ending.
pub open spec fn strip_cr(l: Seq<char>) -> Seq<char> {
    if l.len() > 0 && l.last() == '\r' {
        l.drop_last()
    } else {
        l
    }
}

/// `str::lines`: split at `\n`, a `\r` before it dropped, no line after a final `\n`.
pub open spec fn lines_of(s: Seq<char>) -> Seq<Seq<char>>
    decreases s.len(),
{
    if s.len() == 0 {
        seq![]
    } else {
        match first_index_of(s, '\n') {
            None => seq![s],
            Some(i) => if 0 <= i < s.len() {
                seq![strip_cr(s.take(i))] + lines_of(s.skip(i + 1))
            } else {
                seq![s]
            },
        }
    }
}

// ---------------------------------------------------------------------------
// Lines and their text
// ---------------------------------------------------------------------------

/// A line as `str::lines` gives it back: no `\n` and no `\r` in it.
pub open spec fn plain_line(l: Seq<char>) -> bool {
    forall|i: int| 0 <= i < l.len() ==> #[trigger] l[i] != '\n' && l[i] != '\r'
}

/// Each line followed by `\n`.
pub open spec fn unlines(ls: Seq<Seq<char>>) -> Seq<char>
    decreases ls.len(),
{
    if ls.len() == 0 {
        seq![]
    } else {
        ls[0] + seq!['\n'] + unlines(ls.drop_first())
    }
}

/// A plain line and a `\n` give that line, then the lines of the rest.
pub proof fn lemma_lines_cons(a: Seq<char>, b: Seq<char>)
    requires
        plain_line(a),
    ensures
        lines_of(a + seq!['\n'] + b) == seq![a] + lines_of(b),
{
    let s = a + seq!['\n'] + b;
    assert(s[a.len() as int] == '\n');
    assert forall|j: int| 0 <= j < a.len() implies s[j] != '\n' by {
        assert(s[j] == a[j]);
    }
    lemma_first_index_of(s, '\n', a.len() as int);
    assert(s.take(a.len() as int) =~= a);
    assert(s.skip(a.len() + 1int) =~= b);
    if a.len() > 0 {
        assert(a.last() == a[a.len() - 1]);
    }
}

/// The text of plain lines, then more text, gives those lines, then the lines of
/// the rest.
pub proof fn lemma_lines_unlines(ls: Seq<Seq<char>>, b: Seq<char>)
    requires
        forall|k: int| 0 <= k < ls.len() ==> plain_line(#[trigger] ls[k]),
    ensures
        lines_of(unlines(ls) + b) == ls + lines_of(b),
    decreases ls.len(),
{
    if ls.len() > 0 {
        let rest = ls.drop_first();
        assert(plain_line(ls[0]));
        assert forall|k: int| 0 <= k < rest.len() implies plain_line(#[trigger] rest[k]) by {
            assert(rest[k] == ls[k + 1]);
        }
        lemma_lines_unlines(rest, b);
        assert(unlines(ls) + b =~= ls[0] + seq!['\n'] + (unlines(rest) + b));
        lemma_lines_cons(ls[0], unlines(rest) + b);
        assert(seq![ls[0]] + (rest + lines_of(b)) =~= ls + lines_of(b));
    } else {
        assert(unlines(ls) + b =~= b);
        assert(ls + lines_of(b) =~= lines_of(b));
    }
}

/// A non-empty plain line is one line.
pub proof fn lemma_lines_single(a: Seq<char>)
    requires
        plain_line(a),
        a.len() > 0,
    ensures
        lines_of(a) == seq![a],
{
    lemma_first_index_of_none(a, '\n');
}

/// Adding a line at the end of the text of lines.
pub proof fn lemma_unlines_push(ls: Seq<Seq<char>>, l: Seq<char>)
    ensures
        unlines(ls.push(l)) == unlines(ls) + l + seq!['\n'],
    decreases ls.len(),
{
    if ls.len() == 0 {
        assert(ls.push(l).drop_first() =~= Seq::<Seq<char>>::empty());
        assert(unlines(Seq::<Seq<char>>::empty()) == Seq::<char>::empty());
        assert(ls.push(l)[0] == l);
        assert(unlines(ls.push(l)) =~= unlines(ls) + l + seq!['\n']);
    } else {
        assert(ls.push(l).drop_first() =~= ls.drop_first().push(l));
        lemma_unlines_push(ls.drop_first(), l);
        assert(unlines(ls.push(l)) =~= unlines(ls) + l + seq!['\n']);
    }
}

/// Lines joined with `\n`: the text of all but the last, then the last.
pub proof fn lemma_join_newlines(ls: Seq<Seq<char>>)
    requires
        ls.len() > 0,
    ensures
        join_with(ls, seq!['\n']) == unlines(ls.drop_last()) + ls.last(),
    decreases ls.len(),
{
    if ls.len() == 1 {
        assert(unlines(ls.drop_last()) =~= Seq::<char>::empty());
        assert(join_with(ls, seq!['\n']) =~= unlines(ls.drop_last()) + ls.last());
    } else {
        let init = ls.drop_last();
        lemma_join_newlines(init);
        assert(init.drop_last().push(init.last()) =~= init);
        lemma_unlines_push(init.drop_last(), init.last());
        assert(join_with(ls, seq!['\n']) =~= unlines(ls.drop_last()) + ls.last());
    }
}

/// Plain lines joined with `\n`, the last not empty, read back as those lines.
pub proof fn lemma_lines_of_joined(ls: Seq<Seq<char>>)
    requires
        ls.len() > 0,
        ls.last().len() > 0,
        forall|k: int| 0 <= k < ls.len() ==> plain_line(#[trigger] ls[k]),
    ensures
        lines_of(join_with(ls, seq!['\n'])) == ls,
        lines_of(join_with(ls, seq!['\n']) + seq!['\n']) == ls,
        join_with(ls, seq!['\n']) + seq!['\n'] == unlines(ls),
{
    let init = ls.drop_last();
    lemma_join_newlines(ls);
    assert forall|k: int| 0 <= k < init.len() implies plain_line(#[trigger] init[k]) by {
        assert(init[k] == ls[k]);
    }
    assert(plain_line(ls.last()));
    lemma_lines_unlines(init, ls.last());
    lemma_lines_single(ls.last());
    assert(init + seq![ls.last()] =~= ls);
    lemma_unlines_push(init, ls.last());
    assert(init.push(ls.last()) =~= ls);
    lemma_lines_unlines(ls, Seq::<char>::empty());
    assert(unlines(ls) + Seq::<char>::empty() =~= unlines(ls));
    assert(ls + Seq::<Seq<char>>::empty() =~= ls);
}

/// The lines of a text without `\r` are plain.
pub proof fn lemma_lines_plain(s: Seq<char>)
    requires
        forall|i: int| 0 <= i < s.len() ==> #[trigger] s[i] != '\r',
    ensures
        forall|k: int| 0 <= k < lines_of(s).len() ==> plain_line(#[trigger] lines_of(s)[k]),
    decreases s.len(),
{
    if s.len() > 0 {
        match first_index_of(s, '\n') {
            None => {
                assert forall|i: int| 0 <= i < s.len() implies s[i] != '\n' by {
                    if s[i] == '\n' {
                        assert(exists|j: int| 0 <= j < s.len() && s[j] == '\n');
                    }
                }
            },
            Some(i) => {
                lemma_first_index_of_some(s, '\n');
                let rest = s.skip(i + 1);
                assert forall|x: int| 0 <= x < rest.len() implies rest[x] != '\r' by {
                    assert(rest[x] == s[x + i + 1]);
                }
                lemma_lines_plain(rest);
                let first = s.take(i);
                if first.len() > 0 {
                    assert(first.last() == s[i - 1]);
                }
                assert(plain_line(strip_cr(first)));
                assert forall|k: int| 0 <= k < lines_of(s).len() implies plain_line(#[trigger] lines_of(s)[k]) by {
                    if k > 0 {
                        assert(lines_of(s)[k] == lines_of(rest)[k - 1]);
                    }
                }
            },
        }
    }
}

/// A text without `\r` that does not end with `\n` is its lines joined with
/// `\n`; its last line, if any, is not empty.
pub proof fn lemma_join_lines_of(s: Seq<char>)
    requires
        forall|i: int| 0 <= i < s.len() ==> #[trigger] s[i] != '\r',
        s.len() == 0 || s.last() != '\n',
    ensures
        join_with(lines_of(s), seq!['\n']) == s,
        lines_of(s).len() > 0 ==> lines_of(s).last().len() > 0,
        s.len() > 0 ==> lines_of(s).len() > 0,
    decreases s.len(),
{
    if s.len() > 0 {
        match first_index_of(s, '\n') {
            None => {},
            Some(i) => {
                lemma_first_index_of_some(s, '\n');
                let rest = s.skip(i + 1);
                assert(i < s.len() - 1);
                assert(rest.last() == s.last());
                assert forall|x: int| 0 <= x < rest.len() implies rest[x] != '\r' by {
                    assert(rest[x] == s[x + i + 1]);
                }
                lemma_join_lines_of(rest);
                let first = s.take(i);
                if first.len() > 0 {
                    assert(first.last() == s[i - 1]);
                }
                assert(strip_cr(first) == first);
                let ls = lines_of(s);
                assert(ls == seq![first] + lines_of(rest));
                lemma_join_cons(first, lines_of(rest), seq!['\n']);
                assert(s =~= first + seq!['\n'] + rest);
                assert(ls.last() == lines_of(rest).last());
            },
        }
    }
}

/// Joining a first part to others.
pub proof fn lemma_join_cons(x: Seq<char>, ys: Seq<Seq<char>>, sep: Seq<char>)
    requires
        ys.len() > 0,
    ensures
        join_with(seq![x] + ys, sep) == x + sep + join_with(ys, sep),
    decreases ys.len(),
{
    if ys.len() == 1 {
        assert((seq![x] + ys).drop_last() =~= seq![x]);
        assert(join_with(seq![x], sep) == x);
        assert(join_with(ys, sep) == ys[0]);
        assert((seq![x] + ys).last() == ys[0]);
        assert(join_with(seq![x] + ys, sep) =~= x + sep + join_with(ys, sep));
    } else {
        assert((seq![x] + ys).drop_last() =~= seq![x] + ys.drop_last());
        lemma_join_cons(x, ys.drop_last(), sep);
        assert(join_with(seq![x] + ys, sep) =~= x + sep + join_with(ys, sep));
    }
}

pub open spec fn views_of(v: Seq<Vec<char>>) -> Seq<Seq<char>> {
    v.map_values(|x: Vec<char>| x@)
}

/// The lines of `src[start..end]`.
pub fn lines_in(src: &Vec<char>, start: usize, end: usize) -> (r: Vec<Vec<char>>)
    requires
        start <= end <= src.len(),
    ensures
        views_of(r@) == lines_of(src@.subrange(start as int, end as int)),
{
    let ghost whole = lines_of(src@.subrange(start as int, end as int));
    let mut r: Vec<Vec<char>> = Vec::new();
    let mut cur: usize = start;
    while cur < end
        invariant
            start <= cur <= end <= src.len(),
            whole == lines_of(src@.subrange(start as int, end as int)),
            whole == views_of(r@) + lines_of(src@.subrange(cur as int, end as int)),
        decreases end - cur,
    {
        let ghost rest = src@.subrange(cur as int, end as int);
        let ghost before = r@;
        match find_char(src, cur, end, '\n') {
            None => {
                r.push(slice_chars(src, cur, end));
                proof {
                    assert(lines_of(rest) == seq![rest]);
                    assert(views_of(r@) =~= views_of(before) + seq![rest]);
                    assert(lines_of(src@.subrange(end as int, end as int)) =~= Seq::<Seq<char>>::empty());
                }
                cur = end;
                assert(whole =~= views_of(r@) + lines_of(src@.subrange(cur as int, end as int)));
            },
            Some(i) => {
                let j = cur + i;
                let mut stop = j;
                if stop > cur && src[stop - 1] == '\r' {
                    stop = stop - 1;
                }
                r.push(slice_chars(src, cur, stop));
                proof {
                    assert(rest.take(i as int) =~= src@.subrange(cur as int, j as int));
                    assert(strip_cr(rest.take(i as int)) =~= src@.subrange(cur as int, stop as int));
                    assert(rest.skip(i + 1) =~= src@.subrange(j + 1, end as int));
                    assert(views_of(r@) =~= views_of(before) + seq![src@.subrange(cur as int, stop as int)]);
                }
                cur = j + 1;
            },
        }
    }
    assert(lines_of(src@.subrange(cur as int, end as int)) =~= Seq::<Seq<char>>::empty());
    r
}

/// `parts` joined with `sep` between them.
pub open spec fn join_with(parts: Seq<Seq<char>>, sep: Seq<char>) -> Seq<char>
    decreases parts.len(),
{
    if parts.len() == 0 {
        seq![]
    } else if parts.len() == 1 {
        parts[0]
    } else {
        join_with(parts.drop_last(), sep) + sep + parts.last()
    }
}

/// Appends `parts[from..]` joined with `sep`.
pub fn push_joined(out: &mut Vec<char>, parts: &Vec<Vec<char>>, from: usize, sep: &Vec<char>)
    requires
        from <= parts.len(),
    ensures
        final(out)@ == old(out)@ + join_with(views_of(parts@).skip(from as int), sep@),
{
    let ghost start = out@;
    let ghost ps = views_of(parts@).skip(from as int);
    let mut k: usize = from;
    assert(ps.take(0) =~= Seq::<Seq<char>>::empty());
    while k < parts.len()
        invariant
            from <= k <= parts.len(),
            ps == views_of(parts@).skip(from as int),
            out@ == start + join_with(ps.take(k - from as int), sep@),
        decreases parts.len() - k,
    {
        let ghost before = out@;
        let ghost t = ps.take(k + 1 - from);
        assert(t.drop_last() =~= ps.take(k - from as int));
        assert(t.last() == parts@[k as int]@);
        if k > from {
            push_all(out, sep);
        }
        push_all(out, &parts[k]);
        proof {
            if k == from {
                assert(ps.take(k - from as int) =~= Seq::<Seq<char>>::empty());
            }
        }
        assert(out@ =~= start + join_with(t, sep@));
        k = k + 1;
    }
    assert(ps.take(k - from as int) =~= ps);
}

/// `s` starts with `prefix`.
pub open spec fn has_prefix(s: Seq<char>, prefix: Seq<char>) -> bool {
    prefix.len() <= s.len() && s.take(prefix.len() as int) == prefix
}

/// Whether `s[start..]` starts with `prefix`.
pub fn starts_with_at(s: &Vec<char>, start: usize, prefix: &Vec<char>) -> (r: bool)
    requires
        start <= s.len(),
    ensures
        r == has_prefix(s@.skip(start as int), prefix@),
{
    if prefix.len() > s.len() - start {
        return false;
    }
    let mut i: usize = 0;
    while i < prefix.len()
        invariant
            start + prefix.len() <= s.len(),
            i <= prefix.len(),
            forall|j: int| 0 <= j < i ==> s@[start + j] == prefix@[j],
        decreases prefix.len() - i,
    {
        if s[start + i] != prefix[i] {
            assert(s@.skip(start as int).take(prefix@.len() as int)[i as int] != prefix@[i as int]);
            return false;
        }
        i = i + 1;
    }
    assert(s@.skip(start as int).take(prefix@.len() as int) =~= prefix@);
    true
}

/// Whether `s` starts with `prefix`.
pub fn starts_with(s: &Vec<char>, prefix: &Vec<char>) -> (r: bool)
    ensures
        r == has_prefix(s@, prefix@),
{
    assert(s@.skip(0) =~= s@);
    starts_with_at(s, 0, prefix)
}

} // verus!

verus! {

// ---------------------------------------------------------------------------
// Substrings
// ---------------------------------------------------------------------------

/// `pat` occurs in `s` at `i`.
pub open spec fn occurs_at(s: Seq<char>, pat: Seq<char>, i: int) -> bool {
    0 <= i && i + pat.len() <= s.len() && s.subrange(i, i + pat.len()) == pat
}

/// `s` contains `pat`.
pub open spec fn contains_sub(s: Seq<char>, pat: Seq<char>) -> bool {
    exists|i: int| occurs_at(s, pat, i)
}

pub open spec fn is_first_occurrence(s: Seq<char>, pat: Seq<char>, i: int) -> bool {
    occurs_at(s, pat, i) && forall|j: int| 0 <= j < i ==> !occurs_at(s, pat, j)
}

/// Where `pat` first occurs in `s`.
pub open spec fn find_sub(s: Seq<char>, pat: Seq<char>) -> Option<int> {
    if contains_sub(s, pat) {
        Some(choose|i: int| is_first_occurrence(s, pat, i))
    } else {
        None
    }
}

/// `str::replace`: every occurrence of `pat`, from the left and without overlap,
/// replaced by `rep`.
pub open spec fn replace_all(s: Seq<char>, pat: Seq<char>, rep: Seq<char>) -> Seq<char>
    decreases s.len(),
{
    if pat.len() == 0 {
        s
    } else {
        match find_sub(s, pat) {
            None => s,
            Some(i) => if 0 <= i && i + pat.len() <= s.len() {
                s.take(i) + rep + replace_all(s.skip(i + pat.len()), pat, rep)
            } else {
                s
            },
        }
    }
}

proof fn lemma_find_sub(s: Seq<char>, pat: Seq<char>, i: int)
    requires
        is_first_occurrence(s, pat, i),
    ensures
        find_sub(s, pat) == Some(i),
{
    let k = choose|k: int| is_first_occurrence(s, pat, k);
    if k < i {
        assert(!occurs_at(s, pat, k));
    } else if i < k {
        assert(!occurs_at(s, pat, i));
    }
}

/// Whether `pat` occurs in `s` at `i`.
pub fn occurs_at_exec(s: &Vec<char>, pat: &Vec<char>, i: usize) -> (r: bool)
    requires
        i <= s.len(),
    ensures
        r == occurs_at(s@, pat@, i as int),
{
    if pat.len() > s.len() - i {
        return false;
    }
    let mut k: usize = 0;
    while k < pat.len()
        invariant
            i + pat.len() <= s.len(),
            k <= pat.len(),
            forall|j: int| 0 <= j < k ==> s@[i + j] == pat@[j],
        decreases pat.len() - k,
    {
        if s[i + k] != pat[k] {
            assert(s@.subrange(i as int, i + pat@.len())[k as int] != pat@[k as int]);
            return false;
        }
        k = k + 1;
    }
    assert(s@.subrange(i as int, i + pat@.len()) =~= pat@);
    true
}

/// Where `pat` first occurs in `s[start..]`, counted from `start`.
pub fn find_sub_from(s: &Vec<char>, start: usize, pat: &Vec<char>) -> (r: Option<usize>)
    requires
        start <= s.len(),
    ensures
        match r {
            Some(i) => find_sub(s@.skip(start as int), pat@) == Some(i as int) && start + i + pat.len() <= s.len(),
            None => find_sub(s@.skip(start as int), pat@) is None,
        },
{
    let ghost t = s@.skip(start as int);
    let mut i: usize = start;
    loop
        invariant
            start <= i <= s.len(),
            t == s@.skip(start as int),
            forall|j: int| 0 <= j < i - start ==> !occurs_at(t, pat@, j),
        ensures
            t == s@.skip(start as int),
            forall|j: int| 0 <= j <= s.len() - start ==> !occurs_at(t, pat@, j),
        decreases s.len() - i,
    {
        if occurs_at_exec(s, pat, i) {
            proof {
                assert(t.subrange(i - start, i - start + pat@.len()) =~= s@.subrange(i as int, i + pat@.len()));
                assert(occurs_at(t, pat@, i - start));
                lemma_find_sub(t, pat@, i - start);
            }
            return Some(i - start);
        }
        proof {
            if occurs_at(t, pat@, i - start) {
                assert(t.subrange(i - start, i - start + pat@.len()) =~= s@.subrange(i as int, i + pat@.len()));
            }
        }
        if i == s.len() {
            break;
        }
        i = i + 1;
    }
    proof {
        assert forall|j: int| !occurs_at(t, pat@, j) by {
            if 0 <= j && j <= s.len() - start {
            }
        }
    }
    None
}

/// Whether `s` contains `pat`.
pub fn contains_exec(s: &Vec<char>, pat: &Vec<char>) -> (r: bool)
    ensures
        r == contains_sub(s@, pat@),
{
    assert(s@.skip(0) =~= s@);
    match find_sub_from(s, 0, pat) {
        Some(_) => true,
        None => false,
    }
}

/// `str::replace` with a non-empty pattern.
pub fn replace_exec(s: &Vec<char>, pat: &Vec<char>, rep: &Vec<char>) -> (r: Vec<char>)
    ensures
        r@ == replace_all(s@, pat@, rep@),
{
    if pat.len() == 0 {
        return slice_chars(s, 0, s.len());
    }
    let mut out: Vec<char> = Vec::new();
    let mut cur: usize = 0;
    assert(s@.skip(0) =~= s@);
    while cur <= s.len()
        invariant
            cur <= s.len(),
            pat.len() > 0,
            out@ + replace_all(s@.skip(cur as int), pat@, rep@) == replace_all(s@, pat@, rep@),
        decreases s.len() - cur,
    {
        let ghost rest = s@.skip(cur as int);
        match find_sub_from(s, cur, pat) {
            None => {
                push_range(&mut out, s, cur, s.len());
                assert(rest =~= s@.subrange(cur as int, s@.len() as int));
                return out;
            },
            Some(i) => {
                push_range(&mut out, s, cur, cur + i);
                push_all(&mut out, rep);
                proof {
                    assert(rest.take(i as int) =~= s@.subrange(cur as int, cur + i));
                    assert(rest.skip(i + pat@.len()) =~= s@.skip(cur + i + pat@.len()));
                }
                cur = cur + i + pat.len();
            },
        }
    }
    out
}

/// `s` ends with `suffix`.
pub open spec fn has_suffix(s: Seq<char>, suffix: Seq<char>) -> bool {
    suffix.len() <= s.len() && s.skip(s.len() - suffix.len()) == suffix
}

/// ASCII whitespace, as `split_ascii_whitespace` splits at it.
pub open spec fn is_ascii_ws(c: char) -> bool {
    c == ' ' || c == '\t' || c == '\n' || c == '\u{0C}' || c == '\r'
}

/// What splits words: ASCII whitespace, or all whitespace.
pub open spec fn is_sep(c: char, ascii: bool) -> bool {
    if ascii {
        is_ascii_ws(c)
    } else {
        is_whitespace(c)
    }
}

/// `str::split_ascii_whitespace` (with `ascii`) or `str::split_whitespace`: the
/// runs of non-whitespace, in order.
pub open spec fn words(s: Seq<char>, ascii: bool) -> Seq<Seq<char>>
    decreases s.len(),
{
    if s.len() == 0 {
        seq![]
    } else if is_sep(s[0], ascii) {
        words(s.drop_first(), ascii)
    } else {
        let n = word_len(s, 0, ascii);
        if 0 < n <= s.len() {
            seq![s.take(n)] + words(s.skip(n), ascii)
        } else {
            seq![]
        }
    }
}

/// The length of the run of non-whitespace starting at `k`, plus `k`.
pub open spec fn word_len(s: Seq<char>, k: int, ascii: bool) -> int
    decreases s.len() - k,
{
    if 0 <= k < s.len() && !is_sep(s[k], ascii) {
        word_len(s, k + 1, ascii)
    } else {
        k
    }
}

proof fn lemma_word_len(s: Seq<char>, k: int, ascii: bool)
    requires
        0 <= k <= s.len(),
    ensures
        k <= word_len(s, k, ascii) <= s.len(),
        forall|j: int| k <= j < word_len(s, k, ascii) ==> !is_sep(s[j], ascii),
        word_len(s, k, ascii) < s.len() ==> is_sep(s[word_len(s, k, ascii)], ascii),
    decreases s.len() - k,
{
    if k < s.len() && !is_sep(s[k], ascii) {
        lemma_word_len(s, k + 1, ascii);
    }
}

/// A word followed by a separator, or by nothing, is the first word.
pub proof fn lemma_words_word(w: Seq<char>, rest: Seq<char>, ascii: bool)
    requires
        w.len() > 0,
        forall|i: int| 0 <= i < w.len() ==> !is_sep(#[trigger] w[i], ascii),
        rest.len() == 0 || is_sep(rest[0], ascii),
    ensures
        words(w + rest, ascii) == seq![w] + words(rest, ascii),
{
    let s = w + rest;
    lemma_word_len_of(s, w.len() as int, 0, ascii);
    assert(s.take(w.len() as int) =~= w);
    assert(s.skip(w.len() as int) =~= rest);
}

proof fn lemma_word_len_of(s: Seq<char>, n: int, k: int, ascii: bool)
    requires
        0 <= k <= n <= s.len(),
        forall|i: int| 0 <= i < n ==> !is_sep(#[trigger] s[i], ascii),
        n == s.len() || is_sep(s[n], ascii),
    ensures
        word_len(s, k, ascii) == n,
    decreases n - k,
{
    if k < n {
        lemma_word_len_of(s, n, k + 1, ascii);
    }
}

/// A leading separator does not start a word.
pub proof fn lemma_words_sep(c: char, rest: Seq<char>, ascii: bool)
    requires
        is_sep(c, ascii),
    ensures
        words(seq![c] + rest, ascii) == words(rest, ascii),
{
    assert((seq![c] + rest).drop_first() =~= rest);
}

fn char_is_ascii_ws(c: char) -> (r: bool)
    ensures
        r == is_ascii_ws(c),
{
    c == ' ' || c == '\t' || c == '\n' || c == '\u{0C}' || c == '\r'
}

fn char_is_sep(c: char, ascii: bool) -> (r: bool)
    ensures
        r == is_sep(c, ascii),
{
    if ascii {
        char_is_ascii_ws(c)
    } else {
        char_is_whitespace(c)
    }
}

/// The words of `s`, split at ASCII whitespace (with `ascii`) or at all whitespace.
pub fn words_of(s: &Vec<char>, ascii: bool) -> (r: Vec<Vec<char>>)
    ensures
        views_of(r@) == words(s@, ascii),
{
    let mut r: Vec<Vec<char>> = Vec::new();
    let mut cur: usize = 0;
    assert(s@.skip(0) =~= s@);
    while cur < s.len()
        invariant
            cur <= s.len(),
            views_of(r@) + words(s@.skip(cur as int), ascii) == words(s@, ascii),
        decreases s.len() - cur,
    {
        let ghost rest = s@.skip(cur as int);
        let ghost before = r@;
        if char_is_sep(s[cur], ascii) {
            assert(rest.drop_first() =~= s@.skip(cur + 1));
            cur = cur + 1;
        } else {
            let mut e = cur;
            proof {
                lemma_word_len(rest, 0, ascii);
            }
            while e < s.len() && !char_is_sep(s[e], ascii)
                invariant
                    cur <= e <= s.len(),
                    rest == s@.skip(cur as int),
                    word_len(rest, 0, ascii) == word_len(rest, e - cur, ascii),
                decreases s.len() - e,
            {
                e = e + 1;
            }
            r.push(slice_chars(s, cur, e));
            proof {
                let n = word_len(rest, 0, ascii);
                assert(n == e - cur);
                assert(rest.take(n) =~= s@.subrange(cur as int, e as int));
                assert(rest.skip(n) =~= s@.skip(e as int));
                assert(views_of(r@) =~= views_of(before) + seq![s@.subrange(cur as int, e as int)]);
            }
            cur = e;
        }
    }
    assert(s@.skip(cur as int) =~= Seq::<char>::empty());
    r
}

/// Where `c` last occurs in `s`.
pub open spec fn last_index_of(s: Seq<char>, c: char) -> Option<int>
    decreases s.len(),
{
    if s.len() == 0 {
        None
    } else if s.last() == c {
        Some(s.len() - 1)
    } else {
        last_index_of(s.drop_last(), c)
    }
}

/// Where `c` last occurs in `src`.
pub fn rfind_char(src: &Vec<char>, c: char) -> (r: Option<usize>)
    ensures
        r matches Some(i) ==> last_index_of(src@, c) == Some(i as int) && i < src.len(),
        r is None ==> last_index_of(src@, c) is None,
{
    let mut e: usize = src.len();
    assert(src@.take(e as int) =~= src@);
    while e > 0
        invariant
            e <= src.len(),
            last_index_of(src@, c) == last_index_of(src@.take(e as int), c),
        decreases e,
    {
        if src[e - 1] == c {
            return Some(e - 1);
        }
        assert(src@.take(e as int).drop_last() =~= src@.take(e - 1));
        e = e - 1;
    }
    None
}

} // verus!
