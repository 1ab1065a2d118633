//! Character-level text helpers shared by the kernel-file and compositor
//! parsers. Every helper is specified over the character sequence of its
//! input, mirroring the corresponding `str` operation.
use vstd::prelude::*;
use vstd::utf8::{encode_scalar, encode_utf8, is_scalar};

verus! {

/// The views of a sequence of character vectors.
pub open spec fn views(v: Seq<Vec<char>>) -> Seq<Seq<char>> {
    v.map_values(|x: Vec<char>| x@)
}

/// The characters of a string slice, in order.
pub fn chars_of(s: &str) -> (out: Vec<char>)
    ensures
        out@ == s@,
{
    let mut out: Vec<char> = Vec::new();
    for c in it: s.chars()
        invariant
            out@ == it.seq().take(it.index() as int),
            it.seq() == s@,
    {
        out.push(c);
    }
    out
}

/// Appends one character to a string (`String::push`).
#[verifier::external_body]
pub(crate) fn push_char(s: &mut String, c: char)
    ensures
        final(s)@ == old(s)@.push(c),
{
    s.push(c);
}

/// A string holding exactly the given characters.
pub fn string_of(chars: &[char]) -> (out: String)
    ensures
        out@ == chars@,
{
    let mut out = String::new();
    let mut i: usize = 0;
    while i < chars.len()
        invariant
            i <= chars@.len(),
            out@ == chars@.take(i as int),
        decreases chars@.len() - i,
    {
        push_char(&mut out, chars[i]);
        i = i + 1;
        assert(out@ =~= chars@.take(i as int));
    }
    assert(chars@.take(i as int) =~= chars@);
    out
}

/// `u8::is_ascii_whitespace` lifted to characters: space, tab, line feed,
/// form feed and carriage return.
pub open spec fn is_ascii_ws(c: char) -> bool {
    c == ' ' || c == '\t' || c == '\n' || c == '\x0C' || c == '\r'
}

pub fn ascii_ws(c: char) -> (b: bool)
    ensures
        b == is_ascii_ws(c),
{
    c == ' ' || c == '\t' || c == '\n' || c == '\x0C' || c == '\r'
}

/// `char::is_whitespace`: the Unicode `White_Space` property.
pub open spec fn is_ws(c: char) -> bool {
    ||| c == ' '
    ||| ('\t' <= c && c <= '\r')
    ||| c == '\u{85}'
    ||| c == '\u{A0}'
    ||| c == '\u{1680}'
    ||| ('\u{2000}' <= c && c <= '\u{200A}')
    ||| c == '\u{2028}'
    ||| c == '\u{2029}'
    ||| c == '\u{202F}'
    ||| c == '\u{205F}'
    ||| c == '\u{3000}'
}

pub fn unicode_ws(c: char) -> (b: bool)
    ensures
        b == is_ws(c),
{
    c == ' ' || ('\t' <= c && c <= '\r') || c == '\u{85}' || c == '\u{A0}' || c == '\u{1680}'
        || ('\u{2000}' <= c && c <= '\u{200A}') || c == '\u{2028}' || c == '\u{2029}'
        || c == '\u{202F}' || c == '\u{205F}' || c == '\u{3000}'
}

/// `str::split_ascii_whitespace`: the maximal runs of non-whitespace
/// characters, in order.
pub open spec fn tokens(s: Seq<char>) -> Seq<Seq<char>>
    decreases s.len(),
{
    if s.len() == 0 {
        Seq::empty()
    } else {
        let prefix = s.drop_last();
        let c = s.last();
        if is_ascii_ws(c) {
            tokens(prefix)
        } else if prefix.len() > 0 && !is_ascii_ws(prefix.last()) {
            let t = tokens(prefix);
            t.update(t.len() - 1, t.last().push(c))
        } else {
            tokens(prefix).push(seq![c])
        }
    }
}

/// A sequence ending in a non-whitespace character has at least one token.
pub proof fn lemma_tokens_nonempty(s: Seq<char>)
    requires
        s.len() > 0,
        !is_ascii_ws(s.last()),
    ensures
        tokens(s).len() > 0,
    decreases s.len(),
{
    let prefix = s.drop_last();
    if prefix.len() > 0 && !is_ascii_ws(prefix.last()) {
        lemma_tokens_nonempty(prefix);
    }
}

pub fn split_ascii_whitespace(s: &[char]) -> (out: Vec<Vec<char>>)
    ensures
        views(out@) == tokens(s@),
{
    let mut out: Vec<Vec<char>> = Vec::new();
    let mut cur: Vec<char> = Vec::new();
    let mut i: usize = 0;
    while i < s.len()
        invariant
            i <= s@.len(),
            cur@.len() > 0 <==> (i > 0 && !is_ascii_ws(s@[i - 1])),
            cur@.len() > 0 ==> tokens(s@.take(i as int)) == views(out@).push(cur@),
            cur@.len() == 0 ==> tokens(s@.take(i as int)) == views(out@),
        decreases s@.len() - i,
    {
        let c = s[i];
        let ghost prev = s@.take(i as int);
        assert(s@.take(i + 1).drop_last() =~= prev);
        assert(s@.take(i + 1).last() == c);
        if ascii_ws(c) {
            if cur.len() > 0 {
                let ghost before = views(out@);
                out.push(cur);
                assert(views(out@) =~= before.push(cur@));
                cur = Vec::new();
            }
        } else {
            if cur.len() > 0 {
                proof {
                    assert(prev.len() > 0 && !is_ascii_ws(prev.last()));
                    let t = tokens(prev);
                    assert(t.update(t.len() - 1, t.last().push(c)) =~= views(out@).push(
                        cur@.push(c),
                    ));
                }
                cur.push(c);
            } else {
                cur.push(c);
                assert(cur@ =~= seq![c]);
            }
        }
        i = i + 1;
    }
    assert(s@.take(i as int) =~= s@);
    if cur.len() > 0 {
        let ghost before = views(out@);
        out.push(cur);
        assert(views(out@) =~= before.push(cur@));
    }
    out
}

/// The pieces of `s` between `'\n'` characters; always one more piece than
/// there are newlines.
pub open spec fn newline_pieces(s: Seq<char>) -> Seq<Seq<char>>
    decreases s.len(),
{
    if s.len() == 0 {
        seq![Seq::empty()]
    } else {
        let p = newline_pieces(s.drop_last());
        if s.last() == '\n' {
            p.push(Seq::empty())
        } else {
            p.update(p.len() - 1, p.last().push(s.last()))
        }
    }
}

pub proof fn lemma_newline_pieces_nonempty(s: Seq<char>)
    ensures
        newline_pieces(s).len() > 0,
    decreases s.len(),
{
    if s.len() > 0 {
        lemma_newline_pieces_nonempty(s.drop_last());
    }
}

/// Whether two character sequences are equal.
pub fn chars_eq(a: &[char], b: &[char]) -> (r: bool)
    ensures
        r == (a@ == b@),
{
    if a.len() != b.len() {
        return false;
    }
    let mut i: usize = 0;
    while i < a.len()
        invariant
            i <= a@.len() == b@.len(),
            forall|j: int| 0 <= j < i ==> a@[j] == b@[j],
        decreases a@.len() - i,
    {
        if a[i] != b[i] {
            return false;
        }
        i = i + 1;
    }
    assert(a@ =~= b@);
    true
}

/// The pieces of `s` between `sep` characters (`str::split` on one
/// character); always one more piece than there are separators.
pub open spec fn pieces(s: Seq<char>, sep: char) -> Seq<Seq<char>>
    decreases s.len(),
{
    if s.len() == 0 {
        seq![Seq::empty()]
    } else {
        let p = pieces(s.drop_last(), sep);
        if s.last() == sep {
            p.push(Seq::empty())
        } else {
            p.update(p.len() - 1, p.last().push(s.last()))
        }
    }
}

pub proof fn lemma_pieces_nonempty(s: Seq<char>, sep: char)
    ensures
        pieces(s, sep).len() > 0,
    decreases s.len(),
{
    if s.len() > 0 {
        lemma_pieces_nonempty(s.drop_last(), sep);
    }
}

pub fn split_on(s: &[char], sep: char) -> (out: Vec<Vec<char>>)
    ensures
        views(out@) == pieces(s@, sep),
{
    let mut out: Vec<Vec<char>> = Vec::new();
    let mut cur: Vec<char> = Vec::new();
    let mut i: usize = 0;
    while i < s.len()
        invariant
            i <= s@.len(),
            pieces(s@.take(i as int), sep).drop_last() == views(out@),
            pieces(s@.take(i as int), sep).last() == cur@,
        decreases s@.len() - i,
    {
        let c = s[i];
        let ghost prev = s@.take(i as int);
        proof {
            assert(s@.take(i + 1).drop_last() =~= prev);
            lemma_pieces_nonempty(prev, sep);
        }
        if c == sep {
            let ghost before = views(out@);
            let ghost p = pieces(prev, sep);
            out.push(cur);
            proof {
                assert(pieces(s@.take(i + 1), sep) == p.push(Seq::empty()));
                assert(p.push(Seq::<char>::empty()).drop_last() =~= p);
                assert(views(out@) =~= before.push(p.last()));
                assert(p =~= p.drop_last().push(p.last()));
            }
            cur = Vec::new();
            assert(cur@ =~= Seq::<char>::empty());
        } else {
            proof {
                let p = pieces(prev, sep);
                let q = p.update(p.len() - 1, p.last().push(c));
                assert(q.drop_last() =~= p.drop_last());
            }
            cur.push(c);
        }
        i = i + 1;
    }
    assert(s@.take(i as int) =~= s@);
    let ghost before = views(out@);
    out.push(cur);
    proof {
        let p = pieces(s@, sep);
        lemma_pieces_nonempty(s@, sep);
        assert(views(out@) =~= before.push(p.last()));
        assert(p =~= p.drop_last().push(p.last()));
    }
    out
}

/// One terminated line without its line ending: a trailing `'\r'` (of a
/// `"\r\n"` ending) is removed.
pub open spec fn strip_cr(line: Seq<char>) -> Seq<char> {
    if line.len() > 0 && line.last() == '\r' {
        line.drop_last()
    } else {
        line
    }
}

/// `str::lines`: pieces terminated by `'\n'` lose a trailing `'\r'`; a final
/// unterminated piece is kept as it is when it is not empty.
pub open spec fn lines(s: Seq<char>) -> Seq<Seq<char>> {
    let p = newline_pieces(s);
    let terminated = p.drop_last().map_values(|l: Seq<char>| strip_cr(l));
    if p.last().len() > 0 {
        terminated.push(p.last())
    } else {
        terminated
    }
}

fn strip_cr_exec(line: Vec<char>) -> (out: Vec<char>)
    ensures
        out@ == strip_cr(line@),
{
    let mut line = line;
    if line.len() > 0 && line[line.len() - 1] == '\r' {
        line.pop();
    }
    line
}

pub fn split_lines(s: &[char]) -> (out: Vec<Vec<char>>)
    ensures
        views(out@) == lines(s@),
{
    let mut out: Vec<Vec<char>> = Vec::new();
    let mut cur: Vec<char> = Vec::new();
    let mut i: usize = 0;
    while i < s.len()
        invariant
            i <= s@.len(),
            newline_pieces(s@.take(i as int)).drop_last().map_values(|l: Seq<char>| strip_cr(l))
                == views(out@),
            newline_pieces(s@.take(i as int)).last() == cur@,
        decreases s@.len() - i,
    {
        let c = s[i];
        let ghost prev = s@.take(i as int);
        proof {
            assert(s@.take(i + 1).drop_last() =~= prev);
            lemma_newline_pieces_nonempty(prev);
        }
        if c == '\n' {
            let ghost before = views(out@);
            let done = strip_cr_exec(cur);
            out.push(done);
            proof {
                let p = newline_pieces(prev);
                assert(newline_pieces(s@.take(i + 1)) == p.push(Seq::empty()));
                assert(p.push(Seq::<char>::empty()).drop_last() =~= p);
                assert(p =~= p.drop_last().push(p.last()));
                assert(views(out@) =~= before.push(strip_cr(p.last())));
                assert(p.drop_last().push(p.last()).map_values(|l: Seq<char>| strip_cr(l))
                    =~= p.drop_last().map_values(|l: Seq<char>| strip_cr(l)).push(
                    strip_cr(p.last()),
                ));
            }
            cur = Vec::new();
            assert(cur@ =~= Seq::<char>::empty());
        } else {
            proof {
                let p = newline_pieces(prev);
                let q = p.update(p.len() - 1, p.last().push(c));
                assert(q.drop_last() =~= p.drop_last());
            }
            cur.push(c);
        }
        i = i + 1;
    }
    assert(s@.take(i as int) =~= s@);
    if cur.len() > 0 {
        let ghost before = views(out@);
        out.push(cur);
        assert(views(out@) =~= before.push(cur@));
    }
    out
}

/// `str::trim_start`.
pub open spec fn trim_start(s: Seq<char>) -> Seq<char>
    decreases s.len(),
{
    if s.len() > 0 && is_ws(s[0]) {
        trim_start(s.drop_first())
    } else {
        s
    }
}

/// `str::trim_end`.
pub open spec fn trim_end(s: Seq<char>) -> Seq<char>
    decreases s.len(),
{
    if s.len() > 0 && is_ws(s.last()) {
        trim_end(s.drop_last())
    } else {
        s
    }
}

/// `str::trim`: leading and trailing Unicode whitespace removed.
pub open spec fn trim(s: Seq<char>) -> Seq<char> {
    trim_end(trim_start(s))
}

/// The trimmed text is a contiguous piece of the input.
pub proof fn lemma_trim_start_is_suffix(s: Seq<char>)
    ensures
        trim_start(s).len() <= s.len(),
        trim_start(s) =~= s.skip(s.len() - trim_start(s).len()),
    decreases s.len(),
{
    if s.len() > 0 && is_ws(s[0]) {
        lemma_trim_start_is_suffix(s.drop_first());
    }
}

pub proof fn lemma_trim_end_is_prefix(s: Seq<char>)
    ensures
        trim_end(s).len() <= s.len(),
        trim_end(s) =~= s.take(trim_end(s).len() as int),
    decreases s.len(),
{
    if s.len() > 0 && is_ws(s.last()) {
        lemma_trim_end_is_prefix(s.drop_last());
    }
}

pub fn trim_chars(s: &[char]) -> (out: Vec<char>)
    ensures
        out@ == trim(s@),
{
    let mut start: usize = 0;
    assert(s@.skip(0) =~= s@);
    while start < s.len() && unicode_ws(s[start])
        invariant
            start <= s@.len(),
            trim_start(s@) == trim_start(s@.skip(start as int)),
        decreases s@.len() - start,
    {
        assert(s@.skip(start as int).drop_first() =~= s@.skip(start + 1));
        start = start + 1;
    }
    let ghost rest = s@.skip(start as int);
    assert(trim_start(s@) == rest);
    let mut end: usize = s.len();
    while end > start && unicode_ws(s[end - 1])
        invariant
            start <= end <= s@.len(),
            trim(s@) == trim_end(s@.subrange(start as int, end as int)),
        decreases end,
    {
        assert(s@.subrange(start as int, end as int).drop_last() =~= s@.subrange(
            start as int,
            end - 1,
        ));
        end = end - 1;
    }
    let mut out: Vec<char> = Vec::new();
    let mut k: usize = start;
    while k < end
        invariant
            start <= k <= end <= s@.len(),
            out@ == s@.subrange(start as int, k as int),
        decreases end - k,
    {
        out.push(s[k]);
        k = k + 1;
        assert(out@ =~= s@.subrange(start as int, k as int));
    }
    out
}

pub open spec fn is_digit(c: char) -> bool {
    '0' <= c && c <= '9'
}

pub open spec fn all_digits(s: Seq<char>) -> bool {
    forall|i: int| 0 <= i < s.len() ==> is_digit(#[trigger] s[i])
}

pub open spec fn digit_value(c: char) -> nat {
    (c as nat - '0' as nat) as nat
}

/// The number written by decimal digits, most significant first.
pub open spec fn decimal_value(s: Seq<char>) -> nat
    decreases s.len(),
{
    if s.len() == 0 {
        0
    } else {
        decimal_value(s.drop_last()) * 10 + digit_value(s.last())
    }
}

/// The digits that `u64::from_str` reads: one leading `'+'` is allowed.
pub open spec fn unsigned_digits(s: Seq<char>) -> Seq<char> {
    if s.len() > 0 && s[0] == '+' {
        s.drop_first()
    } else {
        s
    }
}

/// What `FromStr` for an unsigned integer type whose largest value is `max`
/// yields: the value of one or more decimal digits after an optional `'+'`,
/// when it does not exceed `max`.
pub open spec fn parse_unsigned_spec(s: Seq<char>, max: nat) -> Option<nat> {
    let d = unsigned_digits(s);
    if d.len() > 0 && all_digits(d) && decimal_value(d) <= max {
        Some(decimal_value(d))
    } else {
        None
    }
}

proof fn lemma_decimal_value_monotone(s: Seq<char>, n: int)
    requires
        0 <= n <= s.len(),
        all_digits(s),
    ensures
        decimal_value(s.take(n)) <= decimal_value(s),
    decreases s.len() - n,
{
    if n < s.len() {
        lemma_decimal_value_monotone(s, n + 1);
        assert(s.take(n + 1).drop_last() =~= s.take(n));
    } else {
        assert(s.take(n) =~= s);
    }
}

/// Parses an unsigned decimal integer that may not exceed `max`.
pub fn parse_unsigned(s: &[char], max: u64) -> (out: Option<u64>)
    ensures
        match out {
            Some(v) => parse_unsigned_spec(s@, max as nat) == Some(v as nat),
            None => parse_unsigned_spec(s@, max as nat).is_none(),
        },
{
    let start: usize = if s.len() > 0 && s[0] == '+' {
        1
    } else {
        0
    };
    let ghost d = unsigned_digits(s@);
    assert(d =~= s@.skip(start as int));
    if start >= s.len() {
        return None;
    }
    let mut value: u64 = 0;
    let mut i: usize = start;
    while i < s.len()
        invariant
            start <= i <= s@.len(),
            d == s@.skip(start as int),
            d == unsigned_digits(s@),
            all_digits(d.take(i - start)),
            value as nat == decimal_value(d.take(i - start)),
            value <= max,
        decreases s@.len() - i,
    {
        let c = s[i];
        proof {
            assert(d.take(i - start + 1).drop_last() =~= d.take(i - start));
            assert(d.take(i - start + 1).last() == c);
        }
        if !('0' <= c && c <= '9') {
            proof {
                assert(d[i - start] == c);
                assert(!is_digit(d[i - start]));
                assert(!all_digits(d));
                assert(unsigned_digits(s@) == d);
                assert(parse_unsigned_spec(s@, max as nat).is_none());
            }
            return None;
        }
        let digit: u64 = (c as u32 - '0' as u32) as u64;
        if digit > max || value > (max - digit) / 10 {
            proof {
                assert(all_digits(d.take(i - start + 1)));
                assert(decimal_value(d.take(i - start + 1)) > max) by (nonlinear_arith)
                    requires
                        decimal_value(d.take(i - start + 1)) == value * 10 + digit,
                        digit > max || value > (max - digit) / 10,
                        digit <= 9,
                {
                }
                if all_digits(d) {
                    lemma_decimal_value_monotone(d, i - start + 1);
                }
                assert(unsigned_digits(s@) == d);
                assert(parse_unsigned_spec(s@, max as nat).is_none());
            }
            return None;
        }
        proof {
            assert(value * 10 + digit <= max) by (nonlinear_arith)
                requires
                    value <= (max - digit) / 10,
                    digit <= max,
            {
            }
            assert(all_digits(d.take(i - start + 1)));
        }
        value = value * 10 + digit;
        i = i + 1;
    }
    assert(d.take(i - start) =~= d);
    Some(value)
}

/// The position of the first occurrence of `c`, if any.
pub open spec fn find_char(s: Seq<char>, c: char) -> Option<int> {
    if exists|i: int| 0 <= i < s.len() && s[i] == c {
        Some(choose|i: int| 0 <= i < s.len() && s[i] == c && forall|j: int| 0 <= j < i ==> s[j] != c)
    } else {
        None
    }
}

/// `str::split_once` on a character: the text before and after the first
/// occurrence.
pub open spec fn split_once_spec(s: Seq<char>, c: char) -> Option<(Seq<char>, Seq<char>)> {
    match find_char(s, c) {
        Some(i) => Some((s.take(i), s.skip(i + 1))),
        None => None,
    }
}

pub fn find_char_exec(s: &[char], c: char) -> (out: Option<usize>)
    ensures
        match out {
            Some(i) => find_char(s@, c) == Some(i as int) && i < s@.len() && s@[i as int] == c,
            None => find_char(s@, c).is_none(),
        },
{
    let mut i: usize = 0;
    while i < s.len()
        invariant
            i <= s@.len(),
            forall|j: int| 0 <= j < i ==> s@[j] != c,
        decreases s@.len() - i,
    {
        if s[i] == c {
            proof {
                let k = choose|k: int|
                    0 <= k < s@.len() && s@[k] == c && forall|j: int| 0 <= j < k ==> s@[j] != c;
                assert(k == i as int) by {
                    if k < i {
                    } else if k > i {
                        assert(s@[i as int] != c);
                    }
                }
            }
            return Some(i);
        }
        i = i + 1;
    }
    None
}

pub fn copy_range(s: &[char], start: usize, end: usize) -> (out: Vec<char>)
    requires
        start <= end <= s@.len(),
    ensures
        out@ == s@.subrange(start as int, end as int),
{
    let mut out: Vec<char> = Vec::new();
    let mut k: usize = start;
    while k < end
        invariant
            start <= k <= end <= s@.len(),
            out@ == s@.subrange(start as int, k as int),
        decreases end - k,
    {
        out.push(s[k]);
        k = k + 1;
        assert(out@ =~= s@.subrange(start as int, k as int));
    }
    out
}

pub fn split_once(s: &[char], c: char) -> (out: Option<(Vec<char>, Vec<char>)>)
    ensures
        match out {
            Some((a, b)) => split_once_spec(s@, c) == Some((a@, b@)),
            None => split_once_spec(s@, c).is_none(),
        },
{
    match find_char_exec(s, c) {
        Some(i) => {
            let a = copy_range(s, 0, i);
            let n = s.len();
            let b = copy_range(s, i + 1, n);
            assert(a@ =~= s@.take(i as int));
            assert(b@ =~= s@.skip(i + 1));
            Some((a, b))
        },
        None => None,
    }
}

/// Whether the characters equal those of `lit`.
pub fn eq_str(a: &[char], lit: &str) -> (b: bool)
    ensures
        b == (a@ == lit@),
{
    let l = chars_of(lit);
    if a.len() != l.len() {
        assert(a@.len() != lit@.len());
        return false;
    }
    let mut i: usize = 0;
    while i < a.len()
        invariant
            i <= a@.len(),
            a@.len() == l@.len(),
            l@ == lit@,
            forall|j: int| 0 <= j < i ==> a@[j] == l@[j],
        decreases a@.len() - i,
    {
        if a[i] != l[i] {
            assert(a@[i as int] != l@[i as int]);
            return false;
        }
        i = i + 1;
    }
    assert(a@ =~= l@);
    true
}

/// Whether `a` begins with the characters of `lit`.
pub fn starts_with_str(a: &[char], lit: &str) -> (b: bool)
    ensures
        b == (lit@.len() <= a@.len() && a@.take(lit@.len() as int) == lit@),
{
    let l = chars_of(lit);
    if a.len() < l.len() {
        assert(lit@.len() > a@.len());
        return false;
    }
    let mut i: usize = 0;
    while i < l.len()
        invariant
            i <= l@.len() <= a@.len(),
            l@ == lit@,
            forall|j: int| 0 <= j < i ==> a@[j] == l@[j],
        decreases l@.len() - i,
    {
        if a[i] != l[i] {
            assert(a@.take(l@.len() as int)[i as int] != l@[i as int]);
            return false;
        }
        i = i + 1;
    }
    assert(a@.take(l@.len() as int) =~= l@);
    true
}

/// Whether every character is an ASCII digit.
pub fn all_digits_exec(s: &[char]) -> (b: bool)
    ensures
        b == all_digits(s@),
{
    let mut i: usize = 0;
    while i < s.len()
        invariant
            i <= s@.len(),
            forall|j: int| 0 <= j < i ==> is_digit(s@[j]),
        decreases s@.len() - i,
    {
        if !('0' <= s[i] && s[i] <= '9') {
            return false;
        }
        i = i + 1;
    }
    true
}

/// Whether every character is an ASCII lowercase letter.
pub open spec fn all_lowercase(s: Seq<char>) -> bool {
    forall|i: int| 0 <= i < s.len() ==> 'a' <= #[trigger] s[i] && s[i] <= 'z'
}

pub fn all_lowercase_exec(s: &[char]) -> (b: bool)
    ensures
        b == all_lowercase(s@),
{
    let mut i: usize = 0;
    while i < s.len()
        invariant
            i <= s@.len(),
            forall|j: int| 0 <= j < i ==> 'a' <= #[trigger] s@[j] && s@[j] <= 'z',
        decreases s@.len() - i,
    {
        if !('a' <= s[i] && s[i] <= 'z') {
            return false;
        }
        i = i + 1;
    }
    true
}

/// The decimal digit character for `d < 10`.
pub open spec fn digit_char(d: nat) -> char {
    (d + 48) as char
}

/// The decimal representation of `n`, without leading zeros.
pub open spec fn decimal_chars(n: nat) -> Seq<char>
    decreases n,
{
    if n < 10 {
        seq![digit_char(n)]
    } else {
        decimal_chars(n / 10).push(digit_char(n % 10))
    }
}

fn digit_char_exec(d: u64) -> (c: char)
    requires
        d < 10,
    ensures
        c == digit_char(d as nat),
{
    ((d as u8) + 48u8) as char
}

/// Reading back a decimal representation gives the number.
pub proof fn lemma_decimal_round_trip(n: nat)
    ensures
        decimal_value(decimal_chars(n)) == n,
        decimal_chars(n).len() > 0,
    decreases n,
{
    let s = decimal_chars(n);
    let d = (n % 10) as nat;
    assert(digit_char(d) as nat == d + 48);
    assert(digit_value(digit_char(d)) == d);
    if n >= 10 {
        lemma_decimal_round_trip(n / 10);
        assert(s.drop_last() =~= decimal_chars(n / 10));
        assert(s.last() == digit_char(d));
        assert(decimal_value(s) == decimal_value(s.drop_last()) * 10 + digit_value(s.last()));
        assert((n / 10) * 10 + n % 10 == n);
    } else {
        assert(d == n);
        assert(s.drop_last() =~= Seq::<char>::empty());
        assert(s.last() == digit_char(d));
        assert(decimal_value(s) == decimal_value(s.drop_last()) * 10 + digit_value(s.last()));
    }
}

/// The decimal representation of `n` (`format!("{n}")`).
pub fn decimal_of(n: u64) -> (out: Vec<char>)
    ensures
        out@ == decimal_chars(n as nat),
    decreases n,
{
    if n < 10 {
        let mut v: Vec<char> = Vec::new();
        v.push(digit_char_exec(n));
        assert(v@ =~= seq![digit_char(n as nat)]);
        v
    } else {
        let mut v = decimal_of(n / 10);
        v.push(digit_char_exec(n % 10));
        v
    }
}

/// Appends the characters of `b` to `a`.
pub fn append_chars(a: &mut Vec<char>, b: &[char])
    ensures
        final(a)@ == old(a)@ + b@,
{
    let mut i: usize = 0;
    while i < b.len()
        invariant
            i <= b@.len(),
            a@ == old(a)@ + b@.take(i as int),
        decreases b@.len() - i,
    {
        a.push(b[i]);
        i = i + 1;
        assert(a@ =~= old(a)@ + b@.take(i as int));
    }
    assert(b@.take(i as int) =~= b@);
}

/// Appends the characters of `lit` to `a`.
pub fn append_str(a: &mut Vec<char>, lit: &str)
    ensures
        final(a)@ == old(a)@ + lit@,
{
    let l = chars_of(lit);
    append_chars(a, l.as_slice());
}

/// `s` begins with `p`.
pub open spec fn starts_with(s: Seq<char>, p: Seq<char>) -> bool {
    p.len() <= s.len() && s.take(p.len() as int) == p
}

/// `str::strip_prefix` with a literal prefix.
pub fn strip_prefix_str(a: &[char], lit: &str) -> (r: Option<Vec<char>>)
    ensures
        match r {
            Some(rest) => starts_with(a@, lit@) && rest@ == a@.skip(lit@.len() as int),
            None => !starts_with(a@, lit@),
        },
{
    if starts_with_str(a, lit) {
        let n = chars_of(lit).len();
        let rest = copy_range(a, n, a.len());
        assert(rest@ =~= a@.skip(lit@.len() as int));
        Some(rest)
    } else {
        None
    }
}

/// The number of bytes UTF-8 uses for `c`.
pub open spec fn char_width(c: char) -> nat {
    if (c as u32) <= 0x7F {
        1
    } else if (c as u32) <= 0x7FF {
        2
    } else if (c as u32) <= 0xFFFF {
        3
    } else {
        4
    }
}

/// The length of the UTF-8 encoding of `s`.
pub open spec fn utf8_len(s: Seq<char>) -> nat
    decreases s.len(),
{
    if s.len() == 0 {
        0
    } else {
        char_width(s[0]) + utf8_len(s.drop_first())
    }
}

pub proof fn lemma_encode_scalar_len(c: char)
    ensures
        encode_scalar(c as u32).len() == char_width(c),
{
    broadcast use vstd::utf8::char_is_scalar;

    assert(is_scalar(c as u32));
}

/// The UTF-8 encoding has `utf8_len` bytes.
pub proof fn lemma_utf8_len_encode(s: Seq<char>)
    ensures
        encode_utf8(s).len() == utf8_len(s),
    decreases s.len(),
{
    if s.len() > 0 {
        lemma_encode_scalar_len(s[0]);
        lemma_utf8_len_encode(s.drop_first());
    }
}

pub proof fn lemma_utf8_len_concat(a: Seq<char>, b: Seq<char>)
    ensures
        utf8_len(a + b) == utf8_len(a) + utf8_len(b),
    decreases a.len(),
{
    if a.len() > 0 {
        assert((a + b).drop_first() =~= a.drop_first() + b);
        lemma_utf8_len_concat(a.drop_first(), b);
    } else {
        assert(a + b =~= b);
    }
}

pub proof fn lemma_utf8_len_push(s: Seq<char>, c: char)
    ensures
        utf8_len(s.push(c)) == utf8_len(s) + char_width(c),
{
    assert(s.push(c) =~= s + seq![c]);
    lemma_utf8_len_concat(s, seq![c]);
    assert(seq![c].drop_first() =~= Seq::<char>::empty());
    assert(utf8_len(Seq::<char>::empty()) == 0);
    assert(utf8_len(seq![c]) == char_width(c) + utf8_len(seq![c].drop_first()));
}

/// The prefix of `s` with `n` characters is no longer in bytes than `s`.
pub proof fn lemma_utf8_len_take(s: Seq<char>, n: int)
    requires
        0 <= n <= s.len(),
    ensures
        utf8_len(s.take(n)) <= utf8_len(s),
    decreases s.len() - n,
{
    if n < s.len() {
        lemma_utf8_len_take(s, n + 1);
        assert(s.take(n + 1) =~= s.take(n).push(s[n]));
        lemma_utf8_len_push(s.take(n), s[n]);
    } else {
        assert(s.take(n) =~= s);
    }
}

pub fn char_utf8_width(c: char) -> (w: usize)
    ensures
        w == char_width(c),
{
    if (c as u32) <= 0x7F {
        1
    } else if (c as u32) <= 0x7FF {
        2
    } else if (c as u32) <= 0xFFFF {
        3
    } else {
        4
    }
}

/// The UTF-8 length of `s` when it is at most `cap`, else `cap + 1`.
pub fn utf8_len_capped(s: &[char], cap: usize) -> (n: usize)
    requires
        cap < usize::MAX - 4,
    ensures
        n == if utf8_len(s@) <= cap {
            utf8_len(s@)
        } else {
            cap as nat + 1
        },
{
    let mut total: usize = 0;
    let mut i: usize = 0;
    while i < s.len()
        invariant
            i <= s@.len(),
            total == utf8_len(s@.take(i as int)),
            total <= cap,
            cap < usize::MAX - 4,
        decreases s@.len() - i,
    {
        proof {
            assert(s@.take(i + 1) =~= s@.take(i as int).push(s@[i as int]));
            lemma_utf8_len_push(s@.take(i as int), s@[i as int]);
        }
        total = total + char_utf8_width(s[i]);
        i = i + 1;
        if total > cap {
            proof {
                lemma_utf8_len_take(s@, i as int);
            }
            return cap + 1;
        }
    }
    assert(s@.take(i as int) =~= s@);
    total
}

/// The concatenation of two strings.
pub fn concat(a: &str, b: &str) -> (r: String)
    ensures
        r@ == a@ + b@,
{
    let mut out = chars_of(a);
    append_str(&mut out, b);
    string_of(out.as_slice())
}

/// The longest prefix of `t` whose UTF-8 encoding fits in `budget` bytes.
pub open spec fn prefix_within(t: Seq<char>, budget: nat) -> Seq<char>
    decreases t.len(),
{
    if t.len() == 0 || char_width(t[0]) > budget {
        Seq::empty()
    } else {
        seq![t[0]] + prefix_within(t.drop_first(), (budget - char_width(t[0])) as nat)
    }
}

/// The prefix fits, is a prefix, and the next character would not fit.
pub proof fn lemma_prefix_within(t: Seq<char>, budget: nat)
    ensures
        prefix_within(t, budget).len() <= t.len(),
        prefix_within(t, budget) == t.take(prefix_within(t, budget).len() as int),
        utf8_len(prefix_within(t, budget)) <= budget,
        prefix_within(t, budget).len() < t.len() ==> utf8_len(prefix_within(t, budget))
            + char_width(t[prefix_within(t, budget).len() as int]) > budget,
    decreases t.len(),
{
    if t.len() > 0 && char_width(t[0]) <= budget {
        let rest = t.drop_first();
        let b = (budget - char_width(t[0])) as nat;
        lemma_prefix_within(rest, b);
        let p = prefix_within(rest, b);
        assert(seq![t[0]] + p =~= t.take(p.len() + 1 as int));
        assert((seq![t[0]] + p).drop_first() =~= p);
        assert((seq![t[0]] + p)[0] == t[0]);
        if p.len() < rest.len() {
            assert(rest[p.len() as int] == t[p.len() + 1 as int]);
        }
    }
}

/// The text trimmed and cut to at most `max_bytes` UTF-8 bytes, never
/// inside a character.
pub fn byte_bounded(value: &str, max_bytes: usize) -> (r: String)
    ensures
        r@ == prefix_within(trim(value@), max_bytes as nat),
{
    let chars = chars_of(value);
    let t = trim_chars(chars.as_slice());
    let mut out: Vec<char> = Vec::new();
    let mut used: usize = 0;
    let mut i: usize = 0;
    assert(t@.skip(0) =~= t@);
    assert(out@ + prefix_within(t@, max_bytes as nat) =~= prefix_within(t@, max_bytes as nat));
    while i < t.len() && char_utf8_width(t[i]) <= max_bytes - used
        invariant
            i <= t@.len(),
            used <= max_bytes,
            out@ == t@.take(i as int),
            prefix_within(t@, max_bytes as nat) == out@ + prefix_within(t@.skip(i as int), (max_bytes - used) as nat),
        decreases t@.len() - i,
    {
        let c = t[i];
        let ghost before = out@;
        proof {
            let rest = t@.skip(i as int);
            assert(rest[0] == c);
            assert(rest.drop_first() =~= t@.skip(i + 1));
        }
        out.push(c);
        assert(before + (seq![c] + prefix_within(t@.skip(i + 1), (max_bytes - used - char_width(c)) as nat)) =~= out@ + prefix_within(t@.skip(i + 1), (max_bytes - used - char_width(c)) as nat));
        used = used + char_utf8_width(c);
        i = i + 1;
        assert(out@ =~= t@.take(i as int));
    }
    proof {
        let rest = t@.skip(i as int);
        if i < t@.len() {
            assert(rest[0] == t@[i as int]);
        }
        assert(prefix_within(rest, (max_bytes - used) as nat) =~= Seq::<char>::empty());
    }
    string_of(out.as_slice())
}

/// The longest prefix of `value` that fits in `budget` UTF-8 bytes.
pub fn prefix_bytes(value: &str, budget: usize) -> (r: String)
    ensures
        r@ == prefix_within(value@, budget as nat),
{
    let t = chars_of(value);
    let mut out: Vec<char> = Vec::new();
    let mut used: usize = 0;
    let mut i: usize = 0;
    assert(t@.skip(0) =~= t@);
    assert(out@ + prefix_within(t@, budget as nat) =~= prefix_within(t@, budget as nat));
    while i < t.len() && char_utf8_width(t[i]) <= budget - used
        invariant
            i <= t@.len(),
            used <= budget,
            out@ == t@.take(i as int),
            prefix_within(t@, budget as nat) == out@ + prefix_within(t@.skip(i as int), (budget - used) as nat),
        decreases t@.len() - i,
    {
        let c = t[i];
        let ghost before = out@;
        proof {
            let rest = t@.skip(i as int);
            assert(rest[0] == c);
            assert(rest.drop_first() =~= t@.skip(i + 1));
        }
        out.push(c);
        assert(before + (seq![c] + prefix_within(t@.skip(i + 1), (budget - used - char_width(c)) as nat)) =~= out@ + prefix_within(t@.skip(i + 1), (budget - used - char_width(c)) as nat));
        used = used + char_utf8_width(c);
        i = i + 1;
        assert(out@ =~= t@.take(i as int));
    }
    proof {
        let rest = t@.skip(i as int);
        if i < t@.len() {
            assert(rest[0] == t@[i as int]);
        }
        assert(prefix_within(rest, (budget - used) as nat) =~= Seq::<char>::empty());
    }
    string_of(out.as_slice())
}


/// Lexicographic order of texts by code point, which is also the byte order
/// of their UTF-8 encodings (the order of `str`).
pub open spec fn text_le(a: Seq<char>, b: Seq<char>) -> bool
    decreases a.len(),
{
    if a.len() == 0 {
        true
    } else if b.len() == 0 {
        false
    } else if a[0] != b[0] {
        (a[0] as u32) < (b[0] as u32)
    } else {
        text_le(a.drop_first(), b.drop_first())
    }
}

pub fn text_le_exec(a: &String, b: &String) -> (r: bool)
    ensures
        r == text_le(a@, b@),
{
    let x = chars_of(a.as_str());
    let y = chars_of(b.as_str());
    let mut i: usize = 0;
    assert(x@.skip(0) =~= x@);
    assert(y@.skip(0) =~= y@);
    while i < x.len() && i < y.len() && x[i] == y[i]
        invariant
            i <= x@.len(),
            i <= y@.len(),
            text_le(a@, b@) == text_le(x@.skip(i as int), y@.skip(i as int)),
            x@ == a@,
            y@ == b@,
        decreases x@.len() - i,
    {
        assert(x@.skip(i as int).drop_first() =~= x@.skip(i + 1));
        assert(y@.skip(i as int).drop_first() =~= y@.skip(i + 1));
        i = i + 1;
    }
    if i == x.len() {
        return true;
    }
    if i == y.len() {
        return false;
    }
    (x[i] as u32) < (y[i] as u32)
}

} // verus!
