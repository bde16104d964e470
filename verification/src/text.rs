//! Character-level text primitives of the console command language: Unicode
//! whitespace, trimming, splitting into pieces, literal prefix/suffix tests,
//! and the grammars of unsigned integers and floating-point literals.

use vstd::prelude::*;

verus! {

// ---------------------------------------------------------------------------
// Characters
// ---------------------------------------------------------------------------

/// Unicode `White_Space` characters (what `char::is_whitespace` accepts).
pub open spec fn is_whitespace(c: char) -> bool {
    let u = c as u32;
    ||| 0x09 <= u <= 0x0d
    ||| u == 0x20
    ||| u == 0x85
    ||| u == 0xa0
    ||| u == 0x1680
    ||| 0x2000 <= u <= 0x200a
    ||| u == 0x2028
    ||| u == 0x2029
    ||| u == 0x202f
    ||| u == 0x205f
    ||| u == 0x3000
}

/// ASCII decimal digit.
pub open spec fn is_digit(c: char) -> bool {
    '0' <= c <= '9'
}

/// Numeric value of an ASCII decimal digit.
pub open spec fn digit_value(c: char) -> nat {
    (c as u32 - '0' as u32) as nat
}

pub fn char_is_whitespace(c: char) -> (r: bool)
    ensures
        r == is_whitespace(c),
{
    let u = c as u32;
    (0x09 <= u && u <= 0x0d) || u == 0x20 || u == 0x85 || u == 0xa0 || u == 0x1680 || (0x2000
        <= u && u <= 0x200a) || u == 0x2028 || u == 0x2029 || u == 0x202f || u == 0x205f || u
        == 0x3000
}

pub fn char_is_digit(c: char) -> (r: bool)
    ensures
        r == is_digit(c),
{
    '0' <= c && c <= '9'
}

/// Lower-case mapping of a text, as `str::to_lowercase` computes it (the
/// Unicode case mapping, with the context-dependent final sigma).
pub uninterp spec fn lowercase(s: Seq<char>) -> Seq<char>;

/// Calls `str::to_lowercase`; the result is the lower-case mapping of `s`,
/// which depends on `s` alone and is named by `lowercase`.
#[verifier::external_body]
pub(crate) fn to_lowercase(s: &str) -> (r: String)
    ensures
        r@ == lowercase(s@),
{
    s.to_lowercase()
}

/// The characters of `s`, one per element.
pub fn chars_of(s: &str) -> (r: Vec<char>)
    ensures
        r@ == s@,
{
    let mut r: Vec<char> = Vec::new();
    for c in it: s.chars()
        invariant
            it.seq() == s@,
            r@ == it.seq().take(it.index() as int),
    {
        r.push(c);
    }
    r
}

// ---------------------------------------------------------------------------
// Trimming
// ---------------------------------------------------------------------------

/// `s` without its leading whitespace.
pub open spec fn trim_start(s: Seq<char>) -> Seq<char>
    decreases s.len(),
{
    if s.len() > 0 && is_whitespace(s[0]) {
        trim_start(s.drop_first())
    } else {
        s
    }
}

/// `s` without its trailing whitespace.
pub open spec fn trim_end(s: Seq<char>) -> Seq<char>
    decreases s.len(),
{
    if s.len() > 0 && is_whitespace(s.last()) {
        trim_end(s.drop_last())
    } else {
        s
    }
}

/// `s` without leading and trailing whitespace (`str::trim`).
pub open spec fn trim(s: Seq<char>) -> Seq<char> {
    trim_end(trim_start(s))
}

/// Bounds `(a, b)` such that `s[a..b]` is `s` trimmed of surrounding whitespace.
pub fn trim_bounds(s: &[char]) -> (r: (usize, usize))
    ensures
        r.0 <= r.1 <= s@.len(),
        s@.subrange(r.0 as int, r.1 as int) == trim(s@),
{
    let n = s.len();
    let mut a: usize = 0;
    assert(s@.subrange(0, n as int) =~= s@);
    while a < n && char_is_whitespace(s[a])
        invariant
            a <= n == s@.len(),
            trim_start(s@) == trim_start(s@.subrange(a as int, n as int)),
        decreases n - a,
    {
        assert(s@.subrange(a as int, n as int).drop_first() =~= s@.subrange(a + 1, n as int));
        a = a + 1;
    }
    assert(trim_start(s@) == s@.subrange(a as int, n as int));
    let mut b: usize = n;
    while b > a && char_is_whitespace(s[b - 1])
        invariant
            a <= b <= n == s@.len(),
            trim(s@) == trim_end(s@.subrange(a as int, b as int)),
        decreases b - a,
    {
        assert(s@.subrange(a as int, b as int).drop_last() =~= s@.subrange(a as int, b - 1));
        b = b - 1;
    }
    (a, b)
}

// ---------------------------------------------------------------------------
// Splitting
// ---------------------------------------------------------------------------

pub proof fn lemma_trim_start_len(s: Seq<char>)
    ensures
        trim_start(s).len() <= s.len(),
        s.len() > 0 && is_whitespace(s[0]) ==> trim_start(s).len() < s.len(),
    decreases s.len(),
{
    if s.len() > 0 && is_whitespace(s[0]) {
        lemma_trim_start_len(s.drop_first());
    }
}

pub proof fn lemma_trim_end_len(s: Seq<char>)
    ensures
        trim_end(s).len() <= s.len(),
    decreases s.len(),
{
    if s.len() > 0 && is_whitespace(s.last()) {
        lemma_trim_end_len(s.drop_last());
    }
}

/// A non-empty text without surrounding whitespace has at least one word.
pub proof fn lemma_trimmed_text_has_word(s: Seq<char>)
    requires
        trim(s) == s,
        s.len() > 0,
    ensures
        !is_whitespace(s[0]),
        words(s).len() > 0,
{
    lemma_trim_start_len(s);
    lemma_trim_end_len(trim_start(s));
    assert(!is_whitespace(s[0]));
    lemma_piece_len_bounded(s, Separator::Whitespace);
}

pub proof fn lemma_trim_start_front(s: Seq<char>)
    ensures
        trim_start(s).len() > 0 ==> !is_whitespace(trim_start(s)[0]),
    decreases s.len(),
{
    if s.len() > 0 && is_whitespace(s[0]) {
        lemma_trim_start_front(s.drop_first());
    }
}

pub proof fn lemma_trim_end_prefix(s: Seq<char>)
    ensures
        trim_end(s).len() <= s.len(),
        trim_end(s) == s.take(trim_end(s).len() as int),
        trim_end(s).len() > 0 ==> !is_whitespace(trim_end(s).last()),
    decreases s.len(),
{
    if s.len() > 0 && is_whitespace(s.last()) {
        lemma_trim_end_prefix(s.drop_last());
        assert(s.drop_last().take(trim_end(s).len() as int) =~= s.take(trim_end(s).len() as int));
    } else {
        assert(s.take(s.len() as int) =~= s);
    }
}

/// Trimming twice is trimming once.
pub proof fn lemma_trim_idempotent(s: Seq<char>)
    ensures
        trim(trim(s)) == trim(s),
{
    let x = trim(s);
    lemma_trim_start_front(s);
    lemma_trim_end_prefix(trim_start(s));
    if x.len() > 0 {
        assert(x[0] == trim_start(s)[0]);
        assert(trim_start(x) == x);
    } else {
        assert(trim_start(x) == x);
    }
}

/// Which characters separate the pieces of a split.
#[derive(Debug, Clone, Copy, PartialEq, Eq, Structural)]
pub enum Separator {
    /// Unicode whitespace (`str::split_whitespace`).
    Whitespace,
    /// A comma or an ASCII space.
    CommaOrSpace,
}

pub open spec fn is_separator(sep: Separator, c: char) -> bool {
    match sep {
        Separator::Whitespace => is_whitespace(c),
        Separator::CommaOrSpace => c == ',' || c == ' ',
    }
}

pub fn char_is_separator(sep: Separator, c: char) -> (r: bool)
    ensures
        r == is_separator(sep, c),
{
    match sep {
        Separator::Whitespace => char_is_whitespace(c),
        Separator::CommaOrSpace => c == ',' || c == ' ',
    }
}

/// Length of the run of non-separator characters that `s` starts with.
pub open spec fn piece_len(s: Seq<char>, sep: Separator) -> nat
    decreases s.len(),
{
    if s.len() == 0 || is_separator(sep, s[0]) {
        0
    } else {
        1 + piece_len(s.drop_first(), sep)
    }
}

pub proof fn lemma_piece_len_bounded(s: Seq<char>, sep: Separator)
    ensures
        piece_len(s, sep) <= s.len(),
    decreases s.len(),
{
    if s.len() > 0 && !is_separator(sep, s[0]) {
        lemma_piece_len_bounded(s.drop_first(), sep);
    }
}

/// The maximal non-empty runs of non-separator characters of `s`, in order
/// (`split(sep).filter(|p| !p.is_empty())`).
pub open spec fn pieces(s: Seq<char>, sep: Separator) -> Seq<Seq<char>>
    decreases s.len(),
{
    if s.len() == 0 {
        Seq::empty()
    } else if is_separator(sep, s[0]) {
        pieces(s.drop_first(), sep)
    } else {
        let k = piece_len(s, sep);
        proof {
            lemma_piece_len_bounded(s, sep);
        }
        seq![s.take(k as int)] + pieces(s.skip(k as int), sep)
    }
}

/// The whitespace-separated words of `s` (`str::split_whitespace`).
pub open spec fn words(s: Seq<char>) -> Seq<Seq<char>> {
    pieces(s, Separator::Whitespace)
}

/// The text that each bound pair selects from `s`.
pub open spec fn bounded_views(s: Seq<char>, r: Seq<(usize, usize)>) -> Seq<Seq<char>> {
    r.map_values(|p: (usize, usize)| s.subrange(p.0 as int, p.1 as int))
}

/// Bounds of the pieces of `s`, in order.
pub fn split_bounds(s: &[char], sep: Separator) -> (r: Vec<(usize, usize)>)
    ensures
        bounded_views(s@, r@) == pieces(s@, sep),
        forall|k: int| 0 <= k < r@.len() ==> #[trigger] r@[k].0 < r@[k].1 <= s@.len(),
{
    let n = s.len();
    let mut r: Vec<(usize, usize)> = Vec::new();
    let mut i: usize = 0;
    assert(s@.subrange(0, n as int) =~= s@);
    assert(bounded_views(s@, r@) + pieces(s@, sep) =~= pieces(s@, sep));
    while i < n
        invariant
            i <= n == s@.len(),
            pieces(s@, sep) == bounded_views(s@, r@) + pieces(s@.subrange(i as int, n as int), sep),
            forall|k: int| 0 <= k < r@.len() ==> #[trigger] r@[k].0 < r@[k].1 <= s@.len(),
        decreases n - i,
    {
        let ghost rest = s@.subrange(i as int, n as int);
        if char_is_separator(sep, s[i]) {
            assert(rest.drop_first() =~= s@.subrange(i + 1, n as int));
            i = i + 1;
        } else {
            let mut j: usize = i + 1;
            assert(rest.drop_first() =~= s@.subrange(i + 1, n as int));
            while j < n && !char_is_separator(sep, s[j])
                invariant
                    i < j <= n == s@.len(),
                    rest == s@.subrange(i as int, n as int),
                    piece_len(rest, sep) == (j - i) + piece_len(
                        s@.subrange(j as int, n as int),
                        sep,
                    ),
                decreases n - j,
            {
                assert(s@.subrange(j as int, n as int).drop_first() =~= s@.subrange(
                    j + 1,
                    n as int,
                ));
                j = j + 1;
            }
            assert(piece_len(s@.subrange(j as int, n as int), sep) == 0);
            assert(rest.take((j - i) as int) =~= s@.subrange(i as int, j as int));
            assert(rest.skip((j - i) as int) =~= s@.subrange(j as int, n as int));
            let ghost old_r = r@;
            r.push((i, j));
            assert(bounded_views(s@, r@) =~= bounded_views(s@, old_r).push(
                s@.subrange(i as int, j as int),
            ));
            assert(pieces(s@, sep) =~= bounded_views(s@, r@) + pieces(
                s@.subrange(j as int, n as int),
                sep,
            ));
            i = j;
        }
    }
    assert(pieces(s@.subrange(n as int, n as int), sep) =~= Seq::<Seq<char>>::empty());
    assert(pieces(s@, sep) =~= bounded_views(s@, r@));
    r
}


// ---------------------------------------------------------------------------
// Literal prefixes, suffixes and infixes
// ---------------------------------------------------------------------------

/// `s` starts with `p`.
pub open spec fn has_prefix(s: Seq<char>, p: Seq<char>) -> bool {
    p.len() <= s.len() && s.subrange(0, p.len() as int) == p
}

/// `s` ends with `p`.
pub open spec fn has_suffix(s: Seq<char>, p: Seq<char>) -> bool {
    p.len() <= s.len() && s.subrange(s.len() - p.len(), s.len() as int) == p
}

/// `p` occurs somewhere in `s`.
pub open spec fn has_infix(s: Seq<char>, p: Seq<char>) -> bool {
    exists|i: int| 0 <= i && i + p.len() <= s.len() && #[trigger] s.subrange(i, i + p.len()) == p
}

/// Whether `lit` occurs in `s` at position `at`.
pub fn matches_at(s: &[char], at: usize, lit: &str) -> (r: bool)
    ensures
        r == (at + lit@.len() <= s@.len() && s@.subrange(at as int, at + lit@.len()) == lit@),
{
    let m = lit.unicode_len();
    if m > s.len() || at > s.len() - m {
        return false;
    }
    let mut k: usize = 0;
    while k < m
        invariant
            m == lit@.len(),
            at + m <= s@.len(),
            s@.len() <= usize::MAX,
            k <= m,
            forall|j: int| 0 <= j < k ==> s@[at + j] == lit@[j],
        decreases m - k,
    {
        if s[at + k] != lit.get_char(k) {
            assert(s@.subrange(at as int, at + m)[k as int] != lit@[k as int]);
            return false;
        }
        k = k + 1;
    }
    assert(s@.subrange(at as int, at + m) =~= lit@);
    true
}

/// `a` and `b` hold the same characters.
pub fn same_chars(a: &[char], b: &[char]) -> (r: bool)
    ensures
        r == (a@ == b@),
{
    if a.len() != b.len() {
        return false;
    }
    let mut i: usize = 0;
    while i < a.len()
        invariant
            a@.len() == b@.len(),
            i <= a@.len(),
            forall|j: int| 0 <= j < i ==> a@[j] == b@[j],
        decreases a@.len() - i,
    {
        if a[i] != b[i] {
            return false;
        }
        i = i + 1;
    }
    assert(a@ =~= b@);
    true
}

/// `s` starts with the literal `lit`.
pub fn starts_with(s: &[char], lit: &str) -> (r: bool)
    ensures
        r == has_prefix(s@, lit@),
{
    matches_at(s, 0, lit)
}

/// `s` ends with the literal `lit`.
pub fn ends_with(s: &[char], lit: &str) -> (r: bool)
    ensures
        r == has_suffix(s@, lit@),
{
    let m = lit.unicode_len();
    if m > s.len() {
        return false;
    }
    matches_at(s, s.len() - m, lit)
}

/// `s` is exactly the literal `lit`.
pub fn equals(s: &[char], lit: &str) -> (r: bool)
    ensures
        r == (s@ == lit@),
{
    let m = lit.unicode_len();
    if m != s.len() {
        return false;
    }
    let r = matches_at(s, 0, lit);
    assert(s@.subrange(0, m as int) =~= s@);
    r
}

/// The literal `lit` occurs in `s`.
pub fn contains(s: &[char], lit: &str) -> (r: bool)
    ensures
        r == has_infix(s@, lit@),
{
    let m = lit.unicode_len();
    if m > s.len() {
        return false;
    }
    let last = s.len() - m;
    let mut i: usize = 0;
    loop
        invariant
            m == lit@.len() <= s@.len(),
            last == s@.len() - m,
            i <= last,
            forall|j: int| 0 <= j < i ==> #[trigger] s@.subrange(j, j + m) != lit@,
        decreases last - i,
    {
        if matches_at(s, i, lit) {
            return true;
        }
        if i == last {
            assert forall|j: int| 0 <= j && j + lit@.len() <= s@.len() implies #[trigger] s@.subrange(
                j,
                j + lit@.len(),
            ) != lit@ by {}
            return false;
        }
        i = i + 1;
    }
}

// ---------------------------------------------------------------------------
// Trimming repeated characters and literals
// ---------------------------------------------------------------------------

/// `s` with every trailing `c` removed (`trim_end_matches(c)`).
pub open spec fn trim_end_char(s: Seq<char>, c: char) -> Seq<char>
    decreases s.len(),
{
    if s.len() > 0 && s.last() == c {
        trim_end_char(s.drop_last(), c)
    } else {
        s
    }
}

/// `s` with every leading `c` removed (`trim_start_matches(c)`).
pub open spec fn trim_start_char(s: Seq<char>, c: char) -> Seq<char>
    decreases s.len(),
{
    if s.len() > 0 && s[0] == c {
        trim_start_char(s.drop_first(), c)
    } else {
        s
    }
}

/// `s` with the non-empty literal `p` removed from its end as often as it
/// ends with it (`trim_end_matches(p)`).
pub open spec fn trim_end_seq(s: Seq<char>, p: Seq<char>) -> Seq<char>
    decreases s.len(),
{
    if p.len() > 0 && has_suffix(s, p) {
        trim_end_seq(s.subrange(0, s.len() - p.len()), p)
    } else {
        s
    }
}

/// Length `e` such that `s[..e]` is `s` without its trailing `c`s.
pub fn trim_end_char_len(s: &[char], c: char) -> (e: usize)
    ensures
        e <= s@.len(),
        s@.subrange(0, e as int) == trim_end_char(s@, c),
{
    let mut e = s.len();
    assert(s@.subrange(0, e as int) =~= s@);
    while e > 0 && s[e - 1] == c
        invariant
            e <= s@.len(),
            trim_end_char(s@, c) == trim_end_char(s@.subrange(0, e as int), c),
        decreases e,
    {
        assert(s@.subrange(0, e as int).drop_last() =~= s@.subrange(0, e - 1));
        e = e - 1;
    }
    e
}

/// Start `a` such that `s[a..]` is `s` without its leading `c`s.
pub fn trim_start_char_start(s: &[char], c: char) -> (a: usize)
    ensures
        a <= s@.len(),
        s@.subrange(a as int, s@.len() as int) == trim_start_char(s@, c),
{
    let n = s.len();
    let mut a: usize = 0;
    assert(s@.subrange(0, n as int) =~= s@);
    while a < n && s[a] == c
        invariant
            a <= n == s@.len(),
            trim_start_char(s@, c) == trim_start_char(s@.subrange(a as int, n as int), c),
        decreases n - a,
    {
        assert(s@.subrange(a as int, n as int).drop_first() =~= s@.subrange(a + 1, n as int));
        a = a + 1;
    }
    a
}

/// Length `e` such that `s[..e]` is `s` without its trailing repetitions of `lit`.
pub fn trim_end_lit_len(s: &[char], lit: &str) -> (e: usize)
    ensures
        e <= s@.len(),
        s@.subrange(0, e as int) == trim_end_seq(s@, lit@),
{
    let m = lit.unicode_len();
    let mut e = s.len();
    assert(s@.subrange(0, e as int) =~= s@);
    if m == 0 {
        return e;
    }
    loop
        invariant
            m == lit@.len() > 0,
            e <= s@.len(),
            trim_end_seq(s@, lit@) == trim_end_seq(s@.subrange(0, e as int), lit@),
        decreases e,
    {
        let ghost cur = s@.subrange(0, e as int);
        if m <= e && matches_at(s, e - m, lit) {
            assert(cur.subrange(cur.len() - m, cur.len() as int) =~= s@.subrange(
                e - m,
                e as int,
            ));
            assert(cur.subrange(0, cur.len() - m) =~= s@.subrange(0, e - m));
            e = e - m;
        } else {
            assert(!has_suffix(cur, lit@)) by {
                if m <= e {
                    assert(cur.subrange(cur.len() - m, cur.len() as int) =~= s@.subrange(
                        e - m,
                        e as int,
                    ));
                }
            }
            return e;
        }
    }
}

// ---------------------------------------------------------------------------
// Unsigned integers (`str::parse::<usize>`)
// ---------------------------------------------------------------------------

/// Every character of `s` is an ASCII digit.
pub open spec fn all_digits(s: Seq<char>) -> bool {
    forall|i: int| 0 <= i < s.len() ==> is_digit(#[trigger] s[i])
}

/// Decimal value of a digit string.
pub open spec fn digits_value(s: Seq<char>) -> nat
    decreases s.len(),
{
    if s.len() == 0 {
        0
    } else {
        digits_value(s.drop_last()) * 10 + digit_value(s.last())
    }
}

/// `s` with one leading `+` removed, if present.
pub open spec fn without_plus(s: Seq<char>) -> Seq<char> {
    if s.len() > 0 && s[0] == '+' {
        s.drop_first()
    } else {
        s
    }
}

/// What `str::parse::<usize>` gives: an optional `+`, then at least one ASCII
/// digit, with a value that fits in `usize`.
pub open spec fn parse_usize(s: Seq<char>) -> Option<usize> {
    let d = without_plus(s);
    if d.len() > 0 && all_digits(d) && digits_value(d) <= usize::MAX {
        Some(digits_value(d) as usize)
    } else {
        None
    }
}

pub proof fn lemma_digits_value_prefix(s: Seq<char>, i: int)
    requires
        0 <= i <= s.len(),
    ensures
        digits_value(s.take(i)) <= digits_value(s),
    decreases s.len() - i,
{
    if i < s.len() {
        assert(s.take(i + 1).drop_last() =~= s.take(i));
        lemma_digits_value_prefix(s, i + 1);
    } else {
        assert(s.take(i) =~= s);
    }
}

/// Whether every character of `s` is an ASCII digit.
pub fn all_digits_chars(s: &[char]) -> (r: bool)
    ensures
        r == all_digits(s@),
{
    let mut i: usize = 0;
    while i < s.len()
        invariant
            i <= s@.len(),
            forall|j: int| 0 <= j < i ==> is_digit(#[trigger] s@[j]),
        decreases s@.len() - i,
    {
        if !char_is_digit(s[i]) {
            assert(!is_digit(s@[i as int]));
            return false;
        }
        i = i + 1;
    }
    true
}

/// Parses an unsigned decimal integer exactly as `str::parse::<usize>` does.
pub fn parse_usize_chars(s: &[char]) -> (r: Option<usize>)
    ensures
        r == parse_usize(s@),
{
    let n = s.len();
    let start: usize = if n > 0 && s[0] == '+' { 1 } else { 0 };
    let d = &s[start..n];
    assert(d@ =~= without_plus(s@));
    if d.len() == 0 {
        return None;
    }
    let mut value: usize = 0;
    let mut i: usize = 0;
    while i < d.len()
        invariant
            0 < d@.len(),
            d@ == without_plus(s@),
            i <= d@.len(),
            all_digits(d@.take(i as int)),
            value == digits_value(d@.take(i as int)),
        decreases d@.len() - i,
    {
        let c = d[i];
        if !char_is_digit(c) {
            assert(!is_digit(d@[i as int]));
            assert(!all_digits(d@));
            return None;
        }
        assert(d@.take(i + 1).drop_last() =~= d@.take(i as int));
        assert(d@.take(i + 1).last() == c);
        let digit = (c as u32 - '0' as u32) as usize;
        assert(digit == digit_value(c));
        let next = match value.checked_mul(10) {
            Some(v) => v.checked_add(digit),
            None => None,
        };
        match next {
            Some(v) => {
                value = v;
            },
            None => {
                proof {
                    lemma_digits_value_prefix(d@, i + 1);
                    assert(digits_value(d@.take(i + 1)) == value * 10 + digit);
                }
                return None;
            },
        }
        i = i + 1;
    }
    assert(d@.take(i as int) =~= d@);
    Some(value)
}

// ---------------------------------------------------------------------------
// Floating-point literals (`str::parse::<f64>` succeeds)
// ---------------------------------------------------------------------------

/// `c` as lower case, for ASCII letters.
pub open spec fn ascii_lower(c: char) -> char {
    if 'A' <= c <= 'Z' {
        ((c as u32) + 32) as char
    } else {
        c
    }
}

/// `s` equals the lower-case literal `lit` when ASCII letters of `s` are lowered.
pub open spec fn eq_ignore_ascii_case(s: Seq<char>, lit: Seq<char>) -> bool {
    s.len() == lit.len() && forall|i: int| 0 <= i < s.len() ==> ascii_lower(#[trigger] s[i])
        == lit[i]
}

/// `s` with one leading sign removed, if present.
pub open spec fn without_sign(s: Seq<char>) -> Seq<char> {
    if s.len() > 0 && (s[0] == '+' || s[0] == '-') {
        s.drop_first()
    } else {
        s
    }
}

pub open spec fn is_exponent_marker(c: char) -> bool {
    c == 'e' || c == 'E'
}

/// Index of the first exponent marker of `s`, or its length if there is none.
pub open spec fn exponent_pos(s: Seq<char>) -> nat
    decreases s.len(),
{
    if s.len() == 0 || is_exponent_marker(s[0]) {
        0
    } else {
        1 + exponent_pos(s.drop_first())
    }
}

/// `Digit+ | Digit+ '.' Digit* | Digit* '.' Digit+`.
pub open spec fn is_mantissa(m: Seq<char>) -> bool {
    &&& forall|i: int| 0 <= i < m.len() ==> is_digit(#[trigger] m[i]) || m[i] == '.'
    &&& forall|i: int, j: int|
        0 <= i < m.len() && 0 <= j < m.len() && #[trigger] m[i] == '.' && #[trigger] m[j] == '.'
            ==> i == j
    &&& exists|i: int| 0 <= i < m.len() && is_digit(#[trigger] m[i])
}

/// `Sign? Digit+`, what follows an exponent marker.
pub open spec fn is_exponent_digits(x: Seq<char>) -> bool {
    let d = without_sign(x);
    d.len() > 0 && all_digits(d)
}

/// A number: mantissa, then optionally an exponent marker and exponent digits.
pub open spec fn is_decimal_number(b: Seq<char>) -> bool {
    let k = exponent_pos(b);
    &&& k <= b.len()
    &&& is_mantissa(b.take(k as int))
    &&& k == b.len() || is_exponent_digits(b.skip(k as int + 1))
}

/// The grammar that `str::parse::<f64>` accepts (its documented EBNF):
/// `Sign? ( 'inf' | 'infinity' | 'nan' | Number )`, where the words are
/// matched without regard to ASCII case.
pub open spec fn is_float_literal(s: Seq<char>) -> bool {
    let b = without_sign(s);
    ||| eq_ignore_ascii_case(b, "inf"@)
    ||| eq_ignore_ascii_case(b, "infinity"@)
    ||| eq_ignore_ascii_case(b, "nan"@)
    ||| is_decimal_number(b)
}

pub fn char_ascii_lower(c: char) -> (r: char)
    ensures
        r == ascii_lower(c),
{
    if 'A' <= c && c <= 'Z' {
        let u = (c as u32) + 32;
        assert(u <= 0x7f);
        assert(0 <= u <= 0xD7FF);
        u as u8 as char
    } else {
        c
    }
}

/// `s` matches the lower-case literal `lit` ignoring ASCII case.
pub fn equals_ignore_ascii_case(s: &[char], lit: &str) -> (r: bool)
    ensures
        r == eq_ignore_ascii_case(s@, lit@),
{
    let m = lit.unicode_len();
    if m != s.len() {
        return false;
    }
    let mut k: usize = 0;
    while k < m
        invariant
            m == lit@.len() == s@.len(),
            k <= m,
            forall|j: int| 0 <= j < k ==> ascii_lower(#[trigger] s@[j]) == lit@[j],
        decreases m - k,
    {
        if char_ascii_lower(s[k]) != lit.get_char(k) {
            return false;
        }
        k = k + 1;
    }
    true
}

/// The digits-and-one-dot check of a mantissa.
fn mantissa_ok(m: &[char]) -> (r: bool)
    ensures
        r == is_mantissa(m@),
{
    let n = m.len();
    let mut dot_at: Option<usize> = None;
    let mut digit_at: Option<usize> = None;
    let mut i: usize = 0;
    while i < n
        invariant
            n == m@.len(),
            i <= n,
            forall|j: int| 0 <= j < i ==> is_digit(#[trigger] m@[j]) || m@[j] == '.',
            match dot_at {
                Some(d) => d < i && m@[d as int] == '.' && forall|j: int|
                    0 <= j < i && #[trigger] m@[j] == '.' ==> j == d,
                None => forall|j: int| 0 <= j < i ==> #[trigger] m@[j] != '.',
            },
            match digit_at {
                Some(d) => d < i && is_digit(m@[d as int]),
                None => forall|j: int| 0 <= j < i ==> !is_digit(#[trigger] m@[j]),
            },
        decreases n - i,
    {
        let c = m[i];
        if char_is_digit(c) {
            digit_at = Some(i);
        } else if c == '.' {
            match dot_at {
                Some(d) => {
                    assert(m@[d as int] == '.' && m@[i as int] == '.' && d != i);
                    return false;
                },
                None => {
                    dot_at = Some(i);
                },
            }
        } else {
            assert(!(is_digit(m@[i as int]) || m@[i as int] == '.'));
            return false;
        }
        i = i + 1;
    }
    match digit_at {
        Some(d) => {
            assert(is_digit(m@[d as int]));
            true
        },
        None => false,
    }
}

/// Whether `s` is a floating-point literal that `str::parse::<f64>` accepts.
pub fn is_float_literal_chars(s: &[char]) -> (r: bool)
    ensures
        r == is_float_literal(s@),
{
    let n = s.len();
    let start: usize = if n > 0 && (s[0] == '+' || s[0] == '-') { 1 } else { 0 };
    let b = &s[start..n];
    assert(b@ =~= without_sign(s@));
    if equals_ignore_ascii_case(b, "inf") || equals_ignore_ascii_case(b, "infinity")
        || equals_ignore_ascii_case(b, "nan") {
        return true;
    }
    let bn = b.len();
    let mut k: usize = 0;
    assert(b@.skip(0) =~= b@);
    while k < bn && !(b[k] == 'e' || b[k] == 'E')
        invariant
            bn == b@.len(),
            k <= bn,
            exponent_pos(b@) == k + exponent_pos(b@.skip(k as int)),
        decreases bn - k,
    {
        assert(b@.skip(k as int).drop_first() =~= b@.skip(k + 1));
        k = k + 1;
    }
    assert(exponent_pos(b@.skip(k as int)) == 0);
    if !mantissa_ok(&b[0..k]) {
        assert(b@.subrange(0, k as int) =~= b@.take(k as int));
        return false;
    }
    assert(b@.subrange(0, k as int) =~= b@.take(k as int));
    if k == bn {
        return true;
    }
    let x = &b[k + 1..bn];
    assert(x@ =~= b@.skip(k + 1));
    let xn = x.len();
    let ds: usize = if xn > 0 && (x[0] == '+' || x[0] == '-') { 1 } else { 0 };
    let d = &x[ds..xn];
    assert(d@ =~= without_sign(x@));
    if d.len() == 0 {
        return false;
    }
    all_digits_chars(d)
}

} // verus!
