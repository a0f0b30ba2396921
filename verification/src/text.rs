//! Character-level string helpers shared by the rest of the library.
//!
//! Strings are reasoned about through their view, a `Seq<char>`.
use vstd::prelude::*;
use vstd::string::*;
use vstd::utf8::*;

verus! {

/// Number of bytes of the UTF-8 encoding of a character sequence
/// (what `str::len` returns).
pub open spec fn utf8_len(s: Seq<char>) -> nat {
    encode_utf8(s).len()
}

pub open spec fn is_ascii_lower(c: char) -> bool {
    'a' <= c && c <= 'z'
}

pub open spec fn is_ascii_upper(c: char) -> bool {
    'A' <= c && c <= 'Z'
}

pub open spec fn is_ascii_digit(c: char) -> bool {
    '0' <= c && c <= '9'
}

pub open spec fn is_ascii_alnum(c: char) -> bool {
    is_ascii_lower(c) || is_ascii_upper(c) || is_ascii_digit(c)
}

/// The characters with the Unicode `White_Space` property, which is what
/// `char::is_whitespace` tests.
pub open spec fn is_unicode_whitespace(c: char) -> bool {
    ||| ('\u{9}' <= c && c <= '\u{d}')
    ||| c == ' '
    ||| c == '\u{85}'
    ||| c == '\u{a0}'
    ||| c == '\u{1680}'
    ||| ('\u{2000}' <= c && c <= '\u{200a}')
    ||| c == '\u{2028}'
    ||| c == '\u{2029}'
    ||| c == '\u{202f}'
    ||| c == '\u{205f}'
    ||| c == '\u{3000}'
}

pub open spec fn seq_starts_with(s: Seq<char>, p: Seq<char>) -> bool {
    p.len() <= s.len() && s.subrange(0, p.len() as int) == p
}

pub open spec fn seq_ends_with(s: Seq<char>, p: Seq<char>) -> bool {
    p.len() <= s.len() && s.subrange(s.len() - p.len(), s.len() as int) == p
}

/// `p` occurs in `s` at position `i`.
pub open spec fn occurs_at(s: Seq<char>, p: Seq<char>, i: int) -> bool {
    0 <= i && i + p.len() <= s.len() && s.subrange(i, i + p.len()) == p
}

pub open spec fn seq_contains_sub(s: Seq<char>, p: Seq<char>) -> bool {
    exists|i: int| occurs_at(s, p, i)
}

/// `i` is the first position of `c` in `s`.
pub open spec fn is_first_index(s: Seq<char>, c: char, i: int) -> bool {
    0 <= i < s.len() && s[i] == c && forall|j: int| 0 <= j < i ==> s[j] != c
}

/// The length of the longest prefix of `s` made of whitespace.
pub open spec fn leading_ws(s: Seq<char>) -> nat
    decreases s.len(),
{
    if s.len() > 0 && is_unicode_whitespace(s[0]) {
        1 + leading_ws(s.drop_first())
    } else {
        0
    }
}

/// The length of the longest suffix of `s` made of whitespace.
pub open spec fn trailing_ws(s: Seq<char>) -> nat
    decreases s.len(),
{
    if s.len() > 0 && is_unicode_whitespace(s.last()) {
        1 + trailing_ws(s.drop_last())
    } else {
        0
    }
}

/// `s` without leading whitespace (`str::trim_start`).
pub open spec fn trim_start_seq(s: Seq<char>) -> Seq<char> {
    s.subrange(leading_ws(s) as int, s.len() as int)
}

/// `s` without trailing whitespace (`str::trim_end`).
pub open spec fn trim_end_seq(s: Seq<char>) -> Seq<char> {
    s.subrange(0, s.len() - trailing_ws(s))
}

/// `s` without leading and trailing whitespace (`str::trim`).
pub open spec fn trim_seq(s: Seq<char>) -> Seq<char> {
    trim_end_seq(trim_start_seq(s))
}

/// The pieces of `s` between occurrences of `sep` (`str::split` on a char).
/// There is always at least one piece.
pub open spec fn split_seq(s: Seq<char>, sep: char) -> Seq<Seq<char>> {
    split_acc(s, sep, Seq::empty())
}

/// Helper for `split_seq`: `cur` is the piece being read.
pub open spec fn split_acc(s: Seq<char>, sep: char, cur: Seq<char>) -> Seq<Seq<char>>
    decreases s.len(),
{
    if s.len() == 0 {
        seq![cur]
    } else if s[0] == sep {
        seq![cur] + split_acc(s.drop_first(), sep, Seq::empty())
    } else {
        split_acc(s.drop_first(), sep, cur.push(s[0]))
    }
}

/// The views of a sequence of strings.
pub open spec fn views(v: Seq<String>) -> Seq<Seq<char>> {
    v.map_values(|x: String| x@)
}

/// The maximal runs of non-whitespace characters of `s`, in order
/// (`str::split_whitespace`).
pub open spec fn words(s: Seq<char>) -> Seq<Seq<char>>
    decreases s.len(),
{
    words_acc(s, Seq::empty())
}

/// Helper for `words`: `cur` is the word being read.
pub open spec fn words_acc(s: Seq<char>, cur: Seq<char>) -> Seq<Seq<char>>
    decreases s.len(),
{
    if s.len() == 0 {
        if cur.len() == 0 { Seq::empty() } else { seq![cur] }
    } else if is_unicode_whitespace(s[0]) {
        if cur.len() == 0 {
            words_acc(s.drop_first(), cur)
        } else {
            seq![cur] + words_acc(s.drop_first(), Seq::empty())
        }
    } else {
        words_acc(s.drop_first(), cur.push(s[0]))
    }
}

/// Appends one character to a string (`String::push`).
#[verifier::external_body]
pub fn push_char(s: &mut String, c: char)
    ensures
        final(s)@ == old(s)@.push(c),
{
    s.push(c);
}

pub fn is_whitespace_char(c: char) -> (r: bool)
    ensures
        r == is_unicode_whitespace(c),
{
    ('\u{9}' <= c && c <= '\u{d}') || c == ' ' || c == '\u{85}' || c == '\u{a0}' || c == '\u{1680}'
        || ('\u{2000}' <= c && c <= '\u{200a}') || c == '\u{2028}' || c == '\u{2029}' || c
        == '\u{202f}' || c == '\u{205f}' || c == '\u{3000}'
}

pub fn is_ascii_alnum_char(c: char) -> (r: bool)
    ensures
        r == is_ascii_alnum(c),
{
    ('a' <= c && c <= 'z') || ('A' <= c && c <= 'Z') || ('0' <= c && c <= '9')
}

/// The characters of a string.
pub fn to_chars(s: &str) -> (r: Vec<char>)
    ensures
        r@ == s@,
{
    let n = s.unicode_len();
    let mut r: Vec<char> = Vec::new();
    let mut i: usize = 0;
    while i < n
        invariant
            n == s@.len(),
            i <= n,
            r@ == s@.subrange(0, i as int),
        decreases n - i,
    {
        let c = s.get_char(i);
        r.push(c);
        i = i + 1;
        assert(r@ =~= s@.subrange(0, i as int));
    }
    assert(r@ =~= s@);
    r
}

/// A string made of `v[from..to]`.
pub fn string_of(v: &[char], from: usize, to: usize) -> (r: String)
    requires
        from <= to <= v@.len(),
    ensures
        r@ == v@.subrange(from as int, to as int),
{
    let mut r = String::new();
    let mut i = from;
    while i < to
        invariant
            from <= i <= to <= v@.len(),
            r@ == v@.subrange(from as int, i as int),
        decreases to - i,
    {
        push_char(&mut r, v[i]);
        i = i + 1;
        assert(r@ =~= v@.subrange(from as int, i as int));
    }
    r
}

/// Whether `v[at..]` starts with `p`.
pub fn chars_match_at(v: &[char], at: usize, p: &[char]) -> (r: bool)
    requires
        at <= v@.len(),
    ensures
        r == seq_starts_with(v@.subrange(at as int, v@.len() as int), p@),
{
    if p.len() > v.len() - at {
        return false;
    }
    let mut j: usize = 0;
    while j < p.len()
        invariant
            at + p@.len() <= v@.len(),
            v@.len() == v.len(),
            j <= p@.len(),
            forall|k: int| 0 <= k < j ==> v@[at + k] == p@[k],
        decreases p@.len() - j,
    {
        if v[at + j] != p[j] {
            assert(v@.subrange(at as int, v@.len() as int).subrange(0, p@.len() as int)[j as int]
                != p@[j as int]);
            return false;
        }
        j = j + 1;
    }
    assert(v@.subrange(at as int, v@.len() as int).subrange(0, p@.len() as int) =~= p@);
    true
}

/// Whether `s` starts with `p` (`str::starts_with`).
pub fn starts_with(s: &str, p: &str) -> (r: bool)
    ensures
        r == seq_starts_with(s@, p@),
{
    let v = to_chars(s);
    let q = to_chars(p);
    let r = chars_match_at(v.as_slice(), 0, q.as_slice());
    assert(v@.subrange(0, v@.len() as int) =~= v@);
    r
}

/// Whether `s` ends with `p` (`str::ends_with`).
pub fn ends_with(s: &str, p: &str) -> (r: bool)
    ensures
        r == seq_ends_with(s@, p@),
{
    let v = to_chars(s);
    let q = to_chars(p);
    if q.len() > v.len() {
        return false;
    }
    let at = v.len() - q.len();
    let r = chars_match_at(v.as_slice(), at, q.as_slice());
    assert(v@.subrange(at as int, v@.len() as int).subrange(0, q@.len() as int)
        =~= v@.subrange(at as int, v@.len() as int));
    r
}

/// Whether two strings are equal.
pub fn str_eq(a: &str, b: &str) -> (r: bool)
    ensures
        r == (a@ == b@),
{
    let v = to_chars(a);
    let w = to_chars(b);
    if v.len() != w.len() {
        return false;
    }
    let r = chars_match_at(v.as_slice(), 0, w.as_slice());
    assert(v@.subrange(0, v@.len() as int) =~= v@);
    r
}

/// First position of `c` in `v[from..]`, as an index into `v`.
pub fn find_char_from(v: &[char], from: usize, c: char) -> (r: Option<usize>)
    requires
        from <= v@.len(),
    ensures
        match r {
            Some(i) => from <= i < v@.len() && v@[i as int] == c && forall|j: int|
                from <= j < i ==> v@[j] != c,
            None => forall|j: int| from <= j < v@.len() ==> v@[j] != c,
        },
{
    let mut i = from;
    while i < v.len()
        invariant
            from <= i <= v@.len(),
            forall|j: int| from <= j < i ==> v@[j] != c,
        decreases v@.len() - i,
    {
        if v[i] == c {
            return Some(i);
        }
        i = i + 1;
    }
    None
}

/// Whether `p` occurs somewhere in `s` (`str::contains`).
pub fn contains_str(s: &str, p: &str) -> (r: bool)
    ensures
        r == seq_contains_sub(s@, p@),
{
    let v = to_chars(s);
    let q = to_chars(p);
    let mut i: usize = 0;
    while i < v.len()
        invariant
            v@ == s@,
            q@ == p@,
            i <= v@.len(),
            forall|j: int| 0 <= j < i ==> !occurs_at(s@, p@, j),
        decreases v@.len() - i,
    {
        let m = chars_match_at(v.as_slice(), i, q.as_slice());
        proof {
            let t = v@.subrange(i as int, v@.len() as int);
            if q@.len() <= t.len() {
                assert(t.subrange(0, q@.len() as int) =~= v@.subrange(i as int, i + q@.len()));
            }
        }
        if m {
            assert(occurs_at(s@, p@, i as int));
            return true;
        }
        i = i + 1;
    }
    let m = chars_match_at(v.as_slice(), i, q.as_slice());
    proof {
        let t = v@.subrange(i as int, v@.len() as int);
        if q@.len() <= t.len() {
            assert(t.subrange(0, q@.len() as int) =~= v@.subrange(i as int, i + q@.len()));
        }
    }
    if m {
        assert(occurs_at(s@, p@, i as int));
        return true;
    }
    proof {
        assert forall|j: int| !occurs_at(s@, p@, j) by {
            if 0 <= j && j + p@.len() <= s@.len() {
                assert(j <= i);
            }
        }
    }
    false
}

/// The length of the whitespace prefix of `v[from..to]`.
fn skip_ws_forward(v: &[char], from: usize, to: usize) -> (r: usize)
    requires
        from <= to <= v@.len(),
    ensures
        from <= r <= to,
        r - from == leading_ws(v@.subrange(from as int, to as int)),
    decreases to - from,
{
    if from < to && is_whitespace_char(v[from]) {
        let r = skip_ws_forward(v, from + 1, to);
        assert(v@.subrange(from as int, to as int).drop_first() =~= v@.subrange(
            from + 1,
            to as int,
        ));
        r
    } else {
        from
    }
}

/// The end of `v[from..to]` after dropping its whitespace suffix.
fn skip_ws_backward(v: &[char], from: usize, to: usize) -> (r: usize)
    requires
        from <= to <= v@.len(),
    ensures
        from <= r <= to,
        to - r == trailing_ws(v@.subrange(from as int, to as int)),
    decreases to - from,
{
    if from < to && is_whitespace_char(v[to - 1]) {
        let r = skip_ws_backward(v, from, to - 1);
        assert(v@.subrange(from as int, to as int).drop_last() =~= v@.subrange(
            from as int,
            to - 1,
        ));
        r
    } else {
        to
    }
}

/// Bounds of `trim(v[from..to])` inside `v`.
pub fn trim_bounds(v: &[char], from: usize, to: usize) -> (r: (usize, usize))
    requires
        from <= to <= v@.len(),
    ensures
        from <= r.0 <= r.1 <= to,
        v@.subrange(r.0 as int, r.1 as int) == trim_seq(v@.subrange(from as int, to as int)),
{
    let a = skip_ws_forward(v, from, to);
    let b = skip_ws_backward(v, a, to);
    proof {
        let s = v@.subrange(from as int, to as int);
        assert(trim_start_seq(s) =~= v@.subrange(a as int, to as int));
        assert(trim_end_seq(trim_start_seq(s)) =~= v@.subrange(a as int, b as int));
    }
    (a, b)
}

/// `str::split` on a single character.
pub fn split_char(s: &str, sep: char) -> (r: Vec<String>)
    ensures
        views(r@) == split_seq(s@, sep),
{
    let v = to_chars(s);
    let n = v.len();
    let mut out: Vec<String> = Vec::new();
    let mut start: usize = 0;
    let mut i: usize = 0;
    assert(v@.subrange(0, n as int) =~= v@);
    assert(v@.subrange(0, 0) =~= Seq::<char>::empty());
    while i < n
        invariant
            n == v@.len(),
            v@ == s@,
            start <= i <= n,
            views(out@) + split_acc(v@.subrange(i as int, n as int), sep, v@.subrange(start as int, i as int))
                == split_seq(s@, sep),
        decreases n - i,
    {
        let ghost rest = v@.subrange(i as int, n as int);
        assert(rest.drop_first() =~= v@.subrange(i + 1, n as int));
        assert(rest[0] == v@[i as int]);
        if v[i] == sep {
            let piece = string_of(v.as_slice(), start, i);
            let ghost before = views(out@);
            out.push(piece);
            assert(views(out@) =~= before.push(piece@));
            assert(v@.subrange((i + 1) as int, (i + 1) as int) =~= Seq::<char>::empty());
            assert(before + (seq![piece@] + split_acc(v@.subrange(i + 1, n as int), sep, Seq::empty()))
                =~= before.push(piece@) + split_acc(v@.subrange(i + 1, n as int), sep, Seq::empty()));
            i = i + 1;
            start = i;
        } else {
            assert(v@.subrange(start as int, i as int).push(v@[i as int]) =~= v@.subrange(
                start as int,
                i + 1,
            ));
            i = i + 1;
        }
    }
    let piece = string_of(v.as_slice(), start, n);
    let ghost before = views(out@);
    out.push(piece);
    assert(views(out@) =~= before.push(piece@));
    assert(v@.subrange(n as int, n as int) =~= Seq::<char>::empty());
    assert(before + seq![piece@] =~= before.push(piece@));
    out
}

/// `str::split_whitespace`.
pub fn split_whitespace(s: &str) -> (r: Vec<String>)
    ensures
        views(r@) == words(s@),
{
    let v = to_chars(s);
    let n = v.len();
    let mut out: Vec<String> = Vec::new();
    let mut start: usize = 0;
    let mut i: usize = 0;
    assert(v@.subrange(0, n as int) =~= v@);
    assert(v@.subrange(0, 0) =~= Seq::<char>::empty());
    while i < n
        invariant
            n == v@.len(),
            v@ == s@,
            start <= i <= n,
            views(out@) + words_acc(v@.subrange(i as int, n as int), v@.subrange(start as int, i as int))
                == words(s@),
        decreases n - i,
    {
        let ghost rest = v@.subrange(i as int, n as int);
        assert(rest.drop_first() =~= v@.subrange(i + 1, n as int));
        assert(rest[0] == v@[i as int]);
        assert(v@.subrange((i + 1) as int, (i + 1) as int) =~= Seq::<char>::empty());
        if is_whitespace_char(v[i]) {
            if start < i {
                let piece = string_of(v.as_slice(), start, i);
                let ghost before = views(out@);
                out.push(piece);
                assert(views(out@) =~= before.push(piece@));
                assert(before + (seq![piece@] + words_acc(v@.subrange(i + 1, n as int), Seq::empty()))
                    =~= before.push(piece@) + words_acc(v@.subrange(i + 1, n as int), Seq::empty()));
            } else {
                assert(v@.subrange(start as int, i as int) =~= Seq::<char>::empty());
            }
            i = i + 1;
            start = i;
        } else {
            assert(v@.subrange(start as int, i as int).push(v@[i as int]) =~= v@.subrange(
                start as int,
                i + 1,
            ));
            i = i + 1;
        }
    }
    if start < n {
        let piece = string_of(v.as_slice(), start, n);
        let ghost before = views(out@);
        out.push(piece);
        assert(views(out@) =~= before.push(piece@));
        assert(before + seq![piece@] =~= before.push(piece@));
    } else {
        assert(views(out@) + Seq::<Seq<char>>::empty() =~= views(out@));
    }
    out
}

/// `str::trim`.
pub fn trim(s: &str) -> (r: String)
    ensures
        r@ == trim_seq(s@),
{
    let v = to_chars(s);
    let (a, b) = trim_bounds(v.as_slice(), 0, v.len());
    assert(v@.subrange(0, v@.len() as int) =~= v@);
    string_of(v.as_slice(), a, b)
}

/// The first position at or after `i` where `p` occurs in `s`.
pub open spec fn first_occ_from(s: Seq<char>, p: Seq<char>, i: int) -> Option<int>
    decreases s.len() + 1 - i,
{
    if i < 0 || i + p.len() > s.len() {
        None
    } else if occurs_at(s, p, i) {
        Some(i)
    } else {
        first_occ_from(s, p, i + 1)
    }
}

/// `s` after the last `c`, or all of `s` when it holds no `c`
/// (`s.rsplit(c).next()`).
pub open spec fn after_last(s: Seq<char>, c: char) -> Seq<char>
    decreases s.len(),
{
    if s.len() == 0 {
        s
    } else if s.last() == c {
        Seq::empty()
    } else {
        after_last(s.drop_last(), c).push(s.last())
    }
}

/// The first position at or after `from` where `p` occurs in `v`.
pub fn find_sub_from(v: &[char], from: usize, p: &[char]) -> (r: Option<usize>)
    requires
        from <= v@.len(),
    ensures
        first_occ_from(v@, p@, from as int) == match r {
            Some(i) => Some(i as int),
            None => None::<int>,
        },
        r matches Some(i) ==> from <= i && i + p@.len() <= v@.len() && occurs_at(v@, p@, i as int),
    decreases v@.len() - from,
{
    let m = chars_match_at(v, from, p);
    proof {
        let t = v@.subrange(from as int, v@.len() as int);
        if p@.len() <= t.len() {
            assert(t.subrange(0, p@.len() as int) =~= v@.subrange(from as int, from + p@.len()));
        }
        if p@.len() == 0 {
            assert(v@.subrange(from as int, from as int) =~= p@);
        }
    }
    if m {
        return Some(from);
    }
    if p.len() > v.len() - from || from == v.len() {
        return None;
    }
    find_sub_from(v, from + 1, p)
}

/// Start of the part of `v[from..to]` after its last `c`.
pub fn after_last_start(v: &[char], from: usize, to: usize, c: char) -> (r: usize)
    requires
        from <= to <= v@.len(),
    ensures
        from <= r <= to,
        v@.subrange(r as int, to as int) == after_last(v@.subrange(from as int, to as int), c),
    decreases to - from,
{
    if from == to {
        return to;
    }
    let ghost s = v@.subrange(from as int, to as int);
    assert(s.drop_last() =~= v@.subrange(from as int, to - 1));
    if v[to - 1] == c {
        assert(v@.subrange(to as int, to as int) =~= Seq::<char>::empty());
        return to;
    }
    let r = after_last_start(v, from, to - 1, c);
    assert(v@.subrange(r as int, to as int) =~= v@.subrange(r as int, to - 1).push(v@[to - 1]));
    r
}


/// Number of bytes of the UTF-8 encoding of one character.
pub open spec fn char_utf8_width(c: char) -> nat {
    if (c as u32) <= 0x7F {
        1
    } else if (c as u32) <= 0x7FF {
        2
    } else if (c as u32) <= 0xFFFF {
        3
    } else {
        4
    }
}

/// The encoding of a concatenation is the concatenation of the encodings.
pub proof fn lemma_encode_utf8_concat(a: Seq<char>, b: Seq<char>)
    ensures
        encode_utf8(a + b) == encode_utf8(a) + encode_utf8(b),
    decreases a.len(),
{
    if a.len() == 0 {
        assert(a + b =~= b);
        assert(encode_utf8(a) + encode_utf8(b) =~= encode_utf8(b));
    } else {
        assert((a + b).drop_first() =~= a.drop_first() + b);
        assert((a + b)[0] == a[0]);
        lemma_encode_utf8_concat(a.drop_first(), b);
        assert(encode_utf8(a + b) =~= encode_utf8(a) + encode_utf8(b));
    }
}

/// Appending a character adds its width to the encoded length.
pub proof fn lemma_utf8_len_push(s: Seq<char>, c: char)
    ensures
        utf8_len(s.push(c)) == utf8_len(s) + char_utf8_width(c),
{
    lemma_encode_utf8_concat(s, seq![c]);
    assert(s.push(c) =~= s + seq![c]);
    assert(seq![c].drop_first() =~= Seq::<char>::empty());
    assert(encode_utf8(Seq::<char>::empty()) =~= Seq::<u8>::empty());
    assert(seq![c][0] == c);
    assert(encode_utf8(seq![c]) =~= encode_scalar(c as u32));
    char_is_scalar(c);
}

/// Number of bytes of the UTF-8 encoding of a character.
pub fn char_width(c: char) -> (r: usize)
    ensures
        r == char_utf8_width(c),
{
    let v = c as u32;
    if v <= 0x7F {
        1
    } else if v <= 0x7FF {
        2
    } else if v <= 0xFFFF {
        3
    } else {
        4
    }
}

/// The value of a sequence of decimal digits.
pub open spec fn digits_value(s: Seq<char>) -> int
    decreases s.len(),
{
    if s.len() == 0 {
        0
    } else {
        digits_value(s.drop_last()) * 10 + (s.last() as int - '0' as int)
    }
}

pub open spec fn all_digits(s: Seq<char>) -> bool {
    forall|i: int| 0 <= i < s.len() ==> is_ascii_digit(#[trigger] s[i])
}

/// What `str::parse::<i64>` accepts: an optional `+` or `-`, then at least
/// one ASCII digit and nothing else, with a value in the range of `i64`.
pub open spec fn spec_parse_i64(s: Seq<char>) -> Option<int> {
    let neg = s.len() > 0 && s[0] == '-';
    let signed = s.len() > 0 && (s[0] == '-' || s[0] == '+');
    let ds = if signed { s.skip(1) } else { s };
    if ds.len() == 0 || !all_digits(ds) {
        None
    } else {
        let v = if neg { -digits_value(ds) } else { digits_value(ds) };
        if i64::MIN <= v && v <= i64::MAX {
            Some(v)
        } else {
            None
        }
    }
}

proof fn lemma_digits_value_grows(s: Seq<char>, k: int)
    requires
        0 <= k <= s.len(),
        all_digits(s),
    ensures
        digits_value(s.subrange(0, k)) <= digits_value(s),
        0 <= digits_value(s.subrange(0, k)),
    decreases s.len() - k,
{
    if k < s.len() {
        lemma_digits_value_grows(s, k + 1);
        assert(s.subrange(0, k + 1).drop_last() =~= s.subrange(0, k));
        assert(is_ascii_digit(s[k]));
    } else {
        assert(s.subrange(0, k) =~= s);
        lemma_digits_value_nonneg(s);
    }
}

proof fn lemma_digits_value_nonneg(s: Seq<char>)
    requires
        all_digits(s),
    ensures
        0 <= digits_value(s),
    decreases s.len(),
{
    if s.len() > 0 {
        assert(all_digits(s.drop_last())) by {
            assert forall|i: int| 0 <= i < s.drop_last().len() implies is_ascii_digit(
                #[trigger] s.drop_last()[i],
            ) by {
                assert(s.drop_last()[i] == s[i]);
            }
        }
        lemma_digits_value_nonneg(s.drop_last());
        assert(is_ascii_digit(s[s.len() - 1]));
    }
}

/// Whether `v[from..]` is made of ASCII digits only.
fn digits_from(v: &[char], from: usize) -> (r: bool)
    requires
        from <= v@.len(),
    ensures
        r == all_digits(v@.subrange(from as int, v@.len() as int)),
{
    let mut i: usize = from;
    while i < v.len()
        invariant
            from <= i <= v@.len(),
            forall|j: int| from <= j < i ==> is_ascii_digit(#[trigger] v@[j]),
        decreases v@.len() - i,
    {
        if !('0' <= v[i] && v[i] <= '9') {
            assert(v@.subrange(from as int, v@.len() as int)[i - from] == v@[i as int]);
            return false;
        }
        i = i + 1;
    }
    assert forall|j: int| 0 <= j < v@.len() - from implies is_ascii_digit(
        #[trigger] v@.subrange(from as int, v@.len() as int)[j],
    ) by {
        assert(v@.subrange(from as int, v@.len() as int)[j] == v@[from + j]);
    }
    true
}

/// Parses a decimal `i64` as `str::parse::<i64>` does.
pub fn parse_i64(s: &str) -> (r: Option<i64>)
    ensures
        match r {
            Some(v) => spec_parse_i64(s@) == Some(v as int),
            None => spec_parse_i64(s@) is None,
        },
{
    let v = to_chars(s);
    let n = v.len();
    if n == 0 {
        return None;
    }
    let neg = v[0] == '-';
    let start: usize = if v[0] == '-' || v[0] == '+' {
        1
    } else {
        0
    };
    let ghost ds = s@.skip(start as int);
    assert(ds =~= v@.subrange(start as int, n as int));
    assert(ds == (if s@[0] == '-' || s@[0] == '+' { s@.skip(1) } else { s@ }));
    if start == n {
        return None;
    }
    if !digits_from(v.as_slice(), start) {
        return None;
    }
    let limit: u64 = 9_223_372_036_854_775_808;
    let mut acc: u64 = 0;
    let mut i: usize = start;
    while i < n
        invariant
            v@ == s@,
            n == v@.len(),
            start <= i <= n,
            ds == v@.subrange(start as int, n as int),
            all_digits(ds),
            acc as int == digits_value(ds.subrange(0, i - start)),
            acc <= limit,
            limit == 9_223_372_036_854_775_808u64,
            s@.len() > 0,
            neg == (s@[0] == '-'),
            ds == (if s@[0] == '-' || s@[0] == '+' { s@.skip(1) } else { s@ }),
        decreases n - i,
    {
        let c = v[i];
        assert(ds[i - start] == c);
        let d = (c as u32 - '0' as u32) as u64;
        proof {
            let pre = ds.subrange(0, i - start);
            let next = ds.subrange(0, i + 1 - start);
            assert(next.drop_last() =~= pre);
            assert(next.last() == c);
        }
        if acc > (limit - d) / 10 {
            proof {
                let next = ds.subrange(0, i + 1 - start);
                assert(digits_value(next) == acc * 10 + d);
                assert(acc * 10 + d > limit) by (nonlinear_arith)
                    requires
                        acc > (limit - d) / 10,
                        d <= 9,
                        limit == 9_223_372_036_854_775_808u64,
                ;
                lemma_digits_value_grows(ds, i + 1 - start);
            }
            return None;
        }
        acc = acc * 10 + d;
        i = i + 1;
    }
    proof {
        assert(ds.subrange(0, i - start) =~= ds);
    }
    if neg {
        Some((0 - (acc as i128)) as i64)
    } else if acc == limit {
        None
    } else {
        Some(acc as i64)
    }
}

} // verus!
