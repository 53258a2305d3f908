//! Character-level text helpers shared by the parsers of the ledger.
//!
//! Strings are modelled by their view, the sequence of their characters.
use vstd::prelude::*;

verus! {

broadcast use vstd::string::group_string_axioms;

// ---------------------------------------------------------------------------
// Whitespace
// ---------------------------------------------------------------------------

/// The Unicode `White_Space` property, which `char::is_whitespace` reports.
pub open spec fn is_ws(c: char) -> bool {
    let v = c as u32;
    ||| (0x09 <= v && v <= 0x0d)
    ||| v == 0x20
    ||| v == 0x85
    ||| v == 0xa0
    ||| v == 0x1680
    ||| (0x2000 <= v && v <= 0x200a)
    ||| v == 0x2028
    ||| v == 0x2029
    ||| v == 0x202f
    ||| v == 0x205f
    ||| v == 0x3000
}

/// Whether `c` is a whitespace character.
pub fn is_whitespace(c: char) -> (r: bool)
    ensures
        r == is_ws(c),
{
    let v = c as u32;
    (0x09 <= v && v <= 0x0d) || v == 0x20 || v == 0x85 || v == 0xa0 || v == 0x1680 || (0x2000
        <= v && v <= 0x200a) || v == 0x2028 || v == 0x2029 || v == 0x202f || v == 0x205f || v
        == 0x3000
}

/// The characters that a trim removes: whitespace (`str::trim`) or a given
/// character (`str::trim_matches`).
pub open spec fn trim_pred(target: Option<char>) -> spec_fn(char) -> bool {
    |c: char|
        match target {
            None => is_ws(c),
            Some(t) => c == t,
        }
}

/// `s` without its leading characters that satisfy `p`.
pub open spec fn trim_start_by(s: Seq<char>, p: spec_fn(char) -> bool) -> Seq<char>
    decreases s.len(),
{
    if s.len() > 0 && p(s[0]) {
        trim_start_by(s.drop_first(), p)
    } else {
        s
    }
}

/// `s` without its trailing characters that satisfy `p`.
pub open spec fn trim_end_by(s: Seq<char>, p: spec_fn(char) -> bool) -> Seq<char>
    decreases s.len(),
{
    if s.len() > 0 && p(s.last()) {
        trim_end_by(s.drop_last(), p)
    } else {
        s
    }
}

/// `s` without leading and trailing characters that satisfy `p`.
pub open spec fn trim_by(s: Seq<char>, p: spec_fn(char) -> bool) -> Seq<char> {
    trim_end_by(trim_start_by(s, p), p)
}

/// `s` without leading and trailing whitespace (`str::trim`).
pub open spec fn trim(s: Seq<char>) -> Seq<char> {
    trim_by(s, trim_pred(None))
}

/// `s` without leading and trailing copies of `c` (`str::trim_matches`).
pub open spec fn trim_matches(s: Seq<char>, c: char) -> Seq<char> {
    trim_by(s, trim_pred(Some(c)))
}

pub proof fn lemma_trim_start_skip(s: Seq<char>, p: spec_fn(char) -> bool, i: int)
    requires
        0 <= i <= s.len(),
        forall|k: int| 0 <= k < i ==> p(#[trigger] s[k]),
    ensures
        trim_start_by(s, p) == trim_start_by(s.skip(i), p),
    decreases i,
{
    if i > 0 {
        assert(s.drop_first().skip(i - 1) =~= s.skip(i));
        assert forall|k: int| 0 <= k < i - 1 implies p(#[trigger] s.drop_first()[k]) by {
            assert(s.drop_first()[k] == s[k + 1]);
        }
        lemma_trim_start_skip(s.drop_first(), p, i - 1);
        assert(p(s[0]));
    } else {
        assert(s.skip(0) =~= s);
    }
}

pub proof fn lemma_trim_end_take(s: Seq<char>, p: spec_fn(char) -> bool, j: int)
    requires
        0 <= j <= s.len(),
        forall|k: int| j <= k < s.len() ==> p(#[trigger] s[k]),
    ensures
        trim_end_by(s, p) == trim_end_by(s.take(j), p),
    decreases s.len() - j,
{
    if j < s.len() {
        assert(s.drop_last().take(j) =~= s.take(j));
        assert forall|k: int| j <= k < s.len() - 1 implies p(#[trigger] s.drop_last()[k]) by {
            assert(s.drop_last()[k] == s[k]);
        }
        lemma_trim_end_take(s.drop_last(), p, j);
        assert(p(s.last()));
    } else {
        assert(s.take(j) =~= s);
    }
}

/// The bounds `(a, b)` such that `trim_by(s, p) == s.subrange(a, b)`.
pub open spec fn trim_bounds(s: Seq<char>, p: spec_fn(char) -> bool) -> (int, int) {
    let a = first_non(s, p, 0);
    let b = if a == s.len() { a } else { last_non_end(s, p, s.len() as int) };
    (a, b)
}

/// The first index at or after `i` whose character fails `p`, or `s.len()`.
pub open spec fn first_non(s: Seq<char>, p: spec_fn(char) -> bool, i: int) -> int
    decreases s.len() - i,
{
    if i < 0 || i >= s.len() {
        s.len() as int
    } else if p(s[i]) {
        first_non(s, p, i + 1)
    } else {
        i
    }
}

/// The end of the last character before `j` that fails `p`, or `0`.
pub open spec fn last_non_end(s: Seq<char>, p: spec_fn(char) -> bool, j: int) -> int
    decreases j,
{
    if j <= 0 || j > s.len() {
        0
    } else if p(s[j - 1]) {
        last_non_end(s, p, j - 1)
    } else {
        j
    }
}

proof fn lemma_first_non(s: Seq<char>, p: spec_fn(char) -> bool, i: int)
    requires
        0 <= i <= s.len(),
    ensures
        i <= first_non(s, p, i) <= s.len(),
        forall|k: int| i <= k < first_non(s, p, i) ==> p(#[trigger] s[k]),
        first_non(s, p, i) < s.len() ==> !p(s[first_non(s, p, i)]),
    decreases s.len() - i,
{
    if i < s.len() && p(s[i]) {
        lemma_first_non(s, p, i + 1);
    }
}

proof fn lemma_last_non_end(s: Seq<char>, p: spec_fn(char) -> bool, j: int)
    requires
        0 <= j <= s.len(),
    ensures
        0 <= last_non_end(s, p, j) <= j,
        forall|k: int| last_non_end(s, p, j) <= k < j ==> p(#[trigger] s[k]),
        last_non_end(s, p, j) > 0 ==> !p(s[last_non_end(s, p, j) - 1]),
    decreases j,
{
    if j > 0 && p(s[j - 1]) {
        lemma_last_non_end(s, p, j - 1);
    }
}

pub proof fn lemma_trim_bounds(s: Seq<char>, p: spec_fn(char) -> bool)
    ensures
        0 <= trim_bounds(s, p).0 <= trim_bounds(s, p).1 <= s.len(),
        trim_by(s, p) == s.subrange(trim_bounds(s, p).0, trim_bounds(s, p).1),
        forall|k: int| 0 <= k < trim_bounds(s, p).0 ==> p(#[trigger] s[k]),
        forall|k: int| trim_bounds(s, p).1 <= k < s.len() ==> p(#[trigger] s[k]),
        trim_bounds(s, p).0 < trim_bounds(s, p).1 ==> !p(s[trim_bounds(s, p).0]) && !p(
            s[trim_bounds(s, p).1 - 1],
        ),
{
    let a = first_non(s, p, 0);
    lemma_first_non(s, p, 0);
    lemma_trim_start_skip(s, p, a);
    let t = s.skip(a);
    if a < s.len() {
        assert(!p(t[0]));
        assert(trim_start_by(t, p) == t);
        let b = last_non_end(s, p, s.len() as int);
        lemma_last_non_end(s, p, s.len() as int);
        assert(b > a) by {
            if b <= a {
                assert(p(s[a]));
            }
        }
        assert forall|k: int| b - a <= k < t.len() implies p(#[trigger] t[k]) by {
            assert(t[k] == s[k + a]);
        }
        lemma_trim_end_take(t, p, b - a);
        let u = t.take(b - a);
        assert(u.last() == s[b - 1]);
        assert(trim_end_by(u, p) == u);
        assert(u =~= s.subrange(a, b));
    } else {
        assert(t.len() == 0);
        assert(trim_start_by(t, p) == t);
        assert(t =~= s.subrange(a, a));
    }
}

/// A text whose first and last characters are not whitespace is its own
/// trimmed form.
pub proof fn lemma_trim_unchanged(s: Seq<char>)
    requires
        s.len() > 0,
        !is_ws(s[0]),
        !is_ws(s[s.len() - 1]),
    ensures
        trim(s) == s,
{
    lemma_trim_bounds(s, trim_pred(None));
    let (a, b) = trim_bounds(s, trim_pred(None));
    assert(a == 0) by {
        if a > 0 {
            assert((trim_pred(None))(s[0]));
        }
    }
    assert(b == s.len()) by {
        if b < s.len() {
            assert((trim_pred(None))(s[s.len() - 1]));
        }
    }
    assert(s.subrange(0, s.len() as int) =~= s);
}

/// Whether `c` is removed by a trim for `target`.
fn trims(c: char, target: Option<char>) -> (r: bool)
    ensures
        r == (trim_pred(target))(c),
{
    match target {
        None => is_whitespace(c),
        Some(t) => c == t,
    }
}

/// The characters of `s` without leading and trailing characters removed by
/// a trim for `target` (whitespace when `None`).
pub fn trim_chars_by(s: &[char], target: Option<char>) -> (r: Vec<char>)
    ensures
        r@ == trim_by(s@, trim_pred(target)),
{
    let ghost p = trim_pred(target);
    let n = s.len();
    let mut a: usize = 0;
    while a < n && trims(s[a], target)
        invariant
            a <= n,
            n == s@.len(),
            p == trim_pred(target),
            forall|k: int| 0 <= k < a ==> p(#[trigger] s@[k]),
        decreases n - a,
    {
        a = a + 1;
    }
    let mut b: usize = n;
    if a < n {
        while b > a && trims(s[b - 1], target)
            invariant
                a < n,
                p == trim_pred(target),
                !p(s@[a as int]),
                a <= b <= n,
                n == s@.len(),
                forall|k: int| b <= k < n ==> p(#[trigger] s@[k]),
            decreases b,
        {
            b = b - 1;
        }
    } else {
        b = a;
    }
    proof {
        lemma_trim_bounds(s@, p);
        let (x, y) = trim_bounds(s@, p);
        assert(x == a as int) by {
            if x < a {
                lemma_first_non(s@, p, 0);
                assert(p(s@[x]));
            }
            if a < x {
                assert(p(s@[a as int]));
            }
        }
        if a < n {
            assert(b > a);
            assert(!p(s@[b - 1]));
            assert(y == b as int) by {
                if y < b {
                    assert(p(s@[b - 1]));
                }
                if b < y {
                    assert(p(s@[y - 1]));
                }
            }
        }
    }
    slice_range(s, a, b)
}

/// The characters of `s` without leading and trailing whitespace.
pub fn trim_chars(s: &[char]) -> (r: Vec<char>)
    ensures
        r@ == trim(s@),
{
    trim_chars_by(s, None)
}

/// The characters of `s` without leading and trailing copies of `c`.
pub fn trim_matches_chars(s: &[char], c: char) -> (r: Vec<char>)
    ensures
        r@ == trim_matches(s@, c),
{
    trim_chars_by(s, Some(c))
}

/// The characters `s[from..to]`.
pub fn slice_range(s: &[char], from: usize, to: usize) -> (r: Vec<char>)
    requires
        from <= to <= s@.len(),
    ensures
        r@ == s@.subrange(from as int, to as int),
{
    let mut out: Vec<char> = Vec::new();
    let mut i = from;
    while i < to
        invariant
            from <= i <= to <= s@.len(),
            out@ == s@.subrange(from as int, i as int),
        decreases to - i,
    {
        out.push(s[i]);
        i = i + 1;
    }
    out
}

// ---------------------------------------------------------------------------
// Conversions between strings and character vectors
// ---------------------------------------------------------------------------

/// The characters of a string slice, in order.
pub fn str_chars(s: &str) -> (r: Vec<char>)
    ensures
        r@ == s@,
{
    let mut out: Vec<char> = Vec::new();
    for c in it: s.chars()
        invariant
            it.seq() == s@,
            out@ == it.seq().take(it.index()),
    {
        out.push(c);
    }
    out
}

/// Appends one character to a string (`String::push`).
#[verifier::external_body]
pub(crate) fn push_char(s: &mut String, c: char)
    ensures
        final(s)@ == old(s)@.push(c),
{
    s.push(c);
}

/// A string holding exactly the given characters.
pub fn string_from_chars(cs: &[char]) -> (r: String)
    ensures
        r@ == cs@,
{
    let mut out = String::new();
    let mut i: usize = 0;
    while i < cs.len()
        invariant
            i <= cs@.len(),
            out@ == cs@.take(i as int),
        decreases cs@.len() - i,
    {
        push_char(&mut out, cs[i]);
        assert(cs@.take(i as int + 1) == cs@.take(i as int).push(cs@[i as int]));
        i = i + 1;
    }
    assert(cs@.take(cs@.len() as int) == cs@);
    out
}

/// A string holding the characters of `s`.
pub fn owned(s: &str) -> (r: String)
    ensures
        r@ == s@,
{
    s.to_owned()
}

/// Appends the characters of `c` to the character vector `v`.
pub fn extend_chars(v: &mut Vec<char>, c: &[char])
    ensures
        final(v)@ == old(v)@ + c@,
{
    let mut i: usize = 0;
    while i < c.len()
        invariant
            i <= c@.len(),
            v@ == old(v)@ + c@.take(i as int),
        decreases c@.len() - i,
    {
        v.push(c[i]);
        assert(c@.take(i as int + 1) =~= c@.take(i as int).push(c@[i as int]));
        i = i + 1;
    }
    assert(c@.take(c@.len() as int) =~= c@);
}

/// Appends the characters of `s` to the character vector `v`.
pub fn extend_str(v: &mut Vec<char>, s: &str)
    ensures
        final(v)@ == old(v)@ + s@,
{
    let c = str_chars(s);
    extend_chars(v, &c);
}

/// Whether two character sequences are equal.
pub fn chars_eq(a: &[char], b: &[char]) -> (r: bool)
    ensures
        r == (a@ == b@),
{
    if a.len() != b.len() {
        return false;
    }
    let mut i: usize = 0;
    while i < a.len()
        invariant
            a@.len() == b@.len(),
            i <= a@.len(),
            forall|k: int| 0 <= k < i ==> a@[k] == b@[k],
        decreases a@.len() - i,
    {
        if a[i] != b[i] {
            return false;
        }
        i = i + 1;
    }
    assert(a@ =~= b@);
    true
}

/// Whether the characters of `a` and of the string `b` are equal.
pub fn chars_eq_str(a: &[char], b: &str) -> (r: bool)
    ensures
        r == (a@ == b@),
{
    let bc = str_chars(b);
    chars_eq(a, &bc)
}

// ---------------------------------------------------------------------------
// ASCII case
// ---------------------------------------------------------------------------

/// `char::to_ascii_lowercase`.
pub open spec fn ascii_lower_char(c: char) -> char {
    if 'A' <= c && c <= 'Z' {
        ((c as u32) + 32) as char
    } else {
        c
    }
}

/// `str::to_ascii_lowercase`.
pub open spec fn ascii_lower(s: Seq<char>) -> Seq<char> {
    s.map_values(|c: char| ascii_lower_char(c))
}

/// The ASCII-lowercase form of one character.
pub fn to_ascii_lower_char(c: char) -> (r: char)
    ensures
        r == ascii_lower_char(c),
{
    if 'A' <= c && c <= 'Z' {
        let v = c as u32;
        let b = (v + 32) as u8;
        b as char
    } else {
        c
    }
}

/// The ASCII-lowercase form of a character sequence.
pub fn to_ascii_lower(s: &[char]) -> (r: Vec<char>)
    ensures
        r@ == ascii_lower(s@),
{
    let mut out: Vec<char> = Vec::new();
    let mut i: usize = 0;
    while i < s.len()
        invariant
            i <= s@.len(),
            out@ == ascii_lower(s@.take(i as int)),
        decreases s@.len() - i,
    {
        out.push(to_ascii_lower_char(s[i]));
        assert(ascii_lower(s@.take(i as int + 1)) =~= ascii_lower(s@.take(i as int)).push(
            ascii_lower_char(s@[i as int]),
        ));
        i = i + 1;
    }
    assert(s@.take(s@.len() as int) =~= s@);
    out
}

// ---------------------------------------------------------------------------
// Substrings
// ---------------------------------------------------------------------------

/// `needle` occurs in `hay` at position `i`.
pub open spec fn occurs_at(hay: Seq<char>, needle: Seq<char>, i: int) -> bool {
    0 <= i && i + needle.len() <= hay.len() && hay.subrange(i, i + needle.len()) == needle
}

/// `needle` occurs somewhere in `hay` (`str::contains`).
pub open spec fn contains_seq(hay: Seq<char>, needle: Seq<char>) -> bool {
    exists|i: int| occurs_at(hay, needle, i)
}

/// Whether `needle` occurs at position `i` of `hay`.
fn matches_at(hay: &[char], needle: &[char], i: usize) -> (r: bool)
    requires
        i + needle@.len() <= hay@.len(),
    ensures
        r == occurs_at(hay@, needle@, i as int),
{
    let n = hay.len();
    let mut k: usize = 0;
    while k < needle.len()
        invariant
            n == hay@.len(),
            i + needle@.len() <= hay@.len(),
            k <= needle@.len(),
            forall|j: int| 0 <= j < k ==> hay@[i + j] == needle@[j],
        decreases needle@.len() - k,
    {
        if hay[i + k] != needle[k] {
            proof {
                assert(hay@.subrange(i as int, i + needle@.len())[k as int] != needle@[k as int]);
            }
            return false;
        }
        k = k + 1;
    }
    assert(hay@.subrange(i as int, i + needle@.len()) =~= needle@);
    true
}

/// Whether `needle` occurs in `hay`.
pub fn contains_chars(hay: &[char], needle: &[char]) -> (r: bool)
    ensures
        r == contains_seq(hay@, needle@),
{
    if needle.len() > hay.len() {
        return false;
    }
    if needle.len() == 0 {
        assert(hay@.subrange(0, 0) =~= needle@);
        assert(occurs_at(hay@, needle@, 0));
        return true;
    }
    let last = hay.len() - needle.len();
    let hn = hay.len();
    let mut i: usize = 0;
    while i <= last
        invariant
            hn == hay@.len(),
            needle@.len() > 0,
            last + needle@.len() == hay@.len(),
            i <= last + 1,
            forall|j: int| 0 <= j < i ==> !occurs_at(hay@, needle@, j),
        decreases last + 1 - i,
    {
        if matches_at(hay, needle, i) {
            return true;
        }
        i = i + 1;
    }
    assert forall|j: int| !occurs_at(hay@, needle@, j) by {
        if 0 <= j && j + needle@.len() <= hay@.len() {
            assert(j < i);
        }
    }
    false
}

/// Whether `p` starts `s`.
pub open spec fn starts_with(s: Seq<char>, p: Seq<char>) -> bool {
    p.len() <= s.len() && s.take(p.len() as int) == p
}

/// Whether `p` ends `s`.
pub open spec fn ends_with(s: Seq<char>, p: Seq<char>) -> bool {
    p.len() <= s.len() && s.skip(s.len() - p.len()) == p
}

/// Whether `s` starts with `p`.
pub fn starts_with_chars(s: &[char], p: &[char]) -> (r: bool)
    ensures
        r == starts_with(s@, p@),
{
    if p.len() > s.len() {
        return false;
    }
    let r = matches_at(s, p, 0);
    assert(s@.subrange(0, p@.len() as int) =~= s@.take(p@.len() as int));
    r
}

/// Whether `s` ends with `p`.
pub fn ends_with_chars(s: &[char], p: &[char]) -> (r: bool)
    ensures
        r == ends_with(s@, p@),
{
    if p.len() > s.len() {
        return false;
    }
    let r = matches_at(s, p, s.len() - p.len());
    assert(s@.subrange(s@.len() - p@.len(), s@.len() as int) =~= s@.skip(
        s@.len() - p@.len(),
    ));
    r
}

// ---------------------------------------------------------------------------
// Filtering
// ---------------------------------------------------------------------------

/// The elements of `s` that satisfy `p`, in order.
pub open spec fn keep<A>(s: Seq<A>, p: spec_fn(A) -> bool) -> Seq<A>
    decreases s.len(),
{
    if s.len() == 0 {
        Seq::empty()
    } else if p(s.last()) {
        keep(s.drop_last(), p).push(s.last())
    } else {
        keep(s.drop_last(), p)
    }
}

/// One more character of `s` processed by `keep`.
pub proof fn lemma_keep_step<A>(s: Seq<A>, p: spec_fn(A) -> bool, i: int)
    requires
        0 <= i < s.len(),
    ensures
        keep(s.take(i + 1), p) == if p(s[i]) {
            keep(s.take(i), p).push(s[i])
        } else {
            keep(s.take(i), p)
        },
{
    assert(s.take(i + 1).drop_last() =~= s.take(i));
    assert(s.take(i + 1).last() == s[i]);
}

/// The whole sequence is the last prefix.
pub proof fn lemma_take_full<A>(s: Seq<A>)
    ensures
        s.take(s.len() as int) == s,
{
    assert(s.take(s.len() as int) =~= s);
}

// ---------------------------------------------------------------------------
// Decimal numbers
// ---------------------------------------------------------------------------

/// The decimal digit for `d < 10`.
pub open spec fn digit_char(d: nat) -> char {
    (('0' as u32) + d) as char
}

/// The decimal form of `n`, without leading zeros (`"0"` for zero).
pub open spec fn decimal(n: nat) -> Seq<char>
    decreases n,
{
    if n < 10 {
        seq![digit_char(n)]
    } else {
        decimal(n / 10).push(digit_char(n % 10))
    }
}

/// The decimal form of `n`.
pub fn decimal_chars(n: u64) -> (r: Vec<char>)
    ensures
        r@ == decimal(n as nat),
    decreases n,
{
    let d = (n % 10) as u8;
    let c = (48u8 + d) as char;
    if n < 10 {
        let mut v: Vec<char> = Vec::new();
        v.push(c);
        v
    } else {
        let mut v = decimal_chars(n / 10);
        v.push(c);
        v
    }
}

} // verus!

verus! {

/// An ASCII decimal digit.
pub open spec fn is_digit(c: char) -> bool {
    '0' <= c && c <= '9'
}

/// Every character of `s` is an ASCII decimal digit.
pub open spec fn all_digits(s: Seq<char>) -> bool {
    forall|i: int| 0 <= i < s.len() ==> is_digit(#[trigger] s[i])
}

/// The value of a string of decimal digits.
pub open spec fn digits_value(s: Seq<char>) -> int
    decreases s.len(),
{
    if s.len() == 0 {
        0
    } else {
        digits_value(s.drop_last()) * 10 + ((s.last() as u32) - ('0' as u32))
    }
}

/// What `str::parse::<i64>` yields for text that does not start with a sign:
/// the value of a non-empty string of decimal digits that fits in `i64`.
pub open spec fn parse_unsigned_i64(s: Seq<char>) -> Option<int> {
    if s.len() > 0 && all_digits(s) && digits_value(s) <= i64::MAX {
        Some(digits_value(s))
    } else {
        None
    }
}

pub proof fn lemma_digits_value_nonneg(s: Seq<char>)
    requires
        all_digits(s),
    ensures
        digits_value(s) >= 0,
    decreases s.len(),
{
    if s.len() > 0 {
        assert(all_digits(s.drop_last())) by {
            assert forall|i: int| 0 <= i < s.drop_last().len() implies is_digit(
                #[trigger] s.drop_last()[i],
            ) by {
                assert(s.drop_last()[i] == s[i]);
            }
        }
        lemma_digits_value_nonneg(s.drop_last());
        assert(is_digit(s[s.len() - 1]));
    }
}

/// A longer digit string is worth at least as much as its prefix.
pub proof fn lemma_digits_value_prefix(s: Seq<char>, k: int)
    requires
        all_digits(s),
        0 <= k <= s.len(),
    ensures
        digits_value(s.take(k)) <= digits_value(s),
    decreases s.len() - k,
{
    if k < s.len() {
        let t = s.take(k + 1);
        assert(t.drop_last() =~= s.take(k));
        assert(all_digits(s.take(k))) by {
            assert forall|i: int| 0 <= i < s.take(k).len() implies is_digit(
                #[trigger] s.take(k)[i],
            ) by {
                assert(s.take(k)[i] == s[i]);
            }
        }
        lemma_digits_value_nonneg(s.take(k));
        assert(is_digit(s[k]));
        assert(t.last() == s[k]);
        lemma_digits_value_prefix(s, k + 1);
    } else {
        assert(s.take(k) =~= s);
    }
}

/// `str::parse::<i64>` on the characters `s[from..to]`, which do not start with a sign.
pub fn parse_unsigned_digits(s: &[char], from: usize, to: usize) -> (r: Option<i64>)
    requires
        from <= to <= s@.len(),
    ensures
        r matches Some(v) ==> parse_unsigned_i64(s@.subrange(from as int, to as int)) == Some(
            v as int,
        ),
        r is None ==> parse_unsigned_i64(s@.subrange(from as int, to as int)) is None,
{
    let ghost t = s@.subrange(from as int, to as int);
    if from == to {
        return None;
    }
    let mut value: i64 = 0;
    let mut i = from;
    while i < to
        invariant
            from <= i <= to <= s@.len(),
            t == s@.subrange(from as int, to as int),
            all_digits(t.take(i - from)),
            value as int == digits_value(t.take(i - from)),
            value >= 0,
        decreases to - i,
    {
        let c = s[i];
        proof {
            assert(t[i - from] == s@[i as int]);
            assert(t.take(i - from + 1).drop_last() =~= t.take(i - from));
            assert(t.take(i - from + 1).last() == c);
        }
        if !('0' <= c && c <= '9') {
            proof {
                assert(!all_digits(t)) by {
                    assert(!is_digit(t[i - from]));
                }
            }
            return None;
        }
        let d = (c as u32 - '0' as u32) as i64;
        if value > (i64::MAX - d) / 10 {
            proof {
                assert(digits_value(t.take(i - from + 1)) > i64::MAX);
                if all_digits(t) {
                    lemma_digits_value_prefix(t, i - from + 1);
                }
            }
            return None;
        }
        value = value * 10 + d;
        proof {
            assert(all_digits(t.take(i - from + 1))) by {
                assert forall|k: int| 0 <= k < t.take(i - from + 1).len() implies is_digit(
                    #[trigger] t.take(i - from + 1)[k],
                ) by {
                    if k < i - from {
                        assert(t.take(i - from + 1)[k] == t.take(i - from)[k]);
                    }
                }
            }
        }
        i = i + 1;
    }
    proof {
        assert(t.take(t.len() as int) =~= t);
    }
    Some(value)
}

} // verus!

verus! {

/// The texts of a sequence of strings.
pub open spec fn strings_view(s: Seq<String>) -> Seq<Seq<char>> {
    s.map_values(|x: String| x@)
}

/// The texts of a sequence of string slices.
pub open spec fn strs_view(s: Seq<&str>) -> Seq<Seq<char>> {
    s.map_values(|x: &str| x@)
}

/// The items of `list` joined by `sep` (`[String]::join`).
pub open spec fn join(list: Seq<Seq<char>>, sep: Seq<char>) -> Seq<char>
    decreases list.len(),
{
    if list.len() == 0 {
        Seq::empty()
    } else if list.len() == 1 {
        list[0]
    } else {
        join(list.drop_last(), sep) + sep + list.last()
    }
}

/// A copy of a vector of strings.
pub fn clone_strings(v: &[String]) -> (r: Vec<String>)
    ensures
        strings_view(r@) == strings_view(v@),
{
    let mut out: Vec<String> = Vec::new();
    let mut i: usize = 0;
    while i < v.len()
        invariant
            i <= v@.len(),
            strings_view(out@) == strings_view(v@.take(i as int)),
        decreases v@.len() - i,
    {
        out.push(v[i].clone());
        assert(strings_view(v@.take(i as int + 1)) =~= strings_view(v@.take(i as int)).push(
            v@[i as int]@,
        ));
        assert(strings_view(out@) =~= strings_view(v@.take(i as int + 1)));
        i = i + 1;
    }
    assert(v@.take(v@.len() as int) =~= v@);
    out
}

/// The items of `list` joined by `sep`.
pub fn join_strings(list: &[String], sep: &str) -> (r: String)
    ensures
        r@ == join(strings_view(list@), sep@),
{
    let ghost l = strings_view(list@);
    let mut out: Vec<char> = Vec::new();
    let mut i: usize = 0;
    while i < list.len()
        invariant
            i <= list@.len(),
            l == strings_view(list@),
            out@ == join(l.take(i as int), sep@),
        decreases list@.len() - i,
    {
        let item = str_chars(list[i].as_str());
        if i > 0 {
            extend_str(&mut out, sep);
        }
        extend_chars(&mut out, &item);
        proof {
            let t = l.take(i as int + 1);
            assert(t.drop_last() =~= l.take(i as int));
            assert(t.last() == list@[i as int]@);
            if i == 0 {
                assert(join(l.take(0), sep@) =~= Seq::<char>::empty());
                assert(out@ =~= t[0]);
            }
        }
        i = i + 1;
    }
    assert(l.take(l.len() as int) =~= l);
    string_from_chars(&out)
}

/// `a + b + c` as a string.
pub fn concat3(a: &str, b: &[char], c: &str) -> (r: String)
    ensures
        r@ == a@ + b@ + c@,
{
    let mut v = str_chars(a);
    extend_chars(&mut v, b);
    extend_str(&mut v, c);
    string_from_chars(&v)
}

/// `a + b` as a string.
pub fn concat2(a: &str, b: &[char]) -> (r: String)
    ensures
        r@ == a@ + b@,
{
    let mut v = str_chars(a);
    extend_chars(&mut v, b);
    string_from_chars(&v)
}

} // verus!

verus! {

/// The pieces of `s` between the characters that satisfy `is_delim`
/// (`str::split` with a set of delimiters): one more piece than there are
/// delimiters, empty pieces included.
pub open spec fn split_on(s: Seq<char>, is_delim: spec_fn(char) -> bool) -> Seq<Seq<char>>
    decreases s.len(),
{
    if s.len() == 0 {
        seq![Seq::empty()]
    } else {
        let p = split_on(s.drop_last(), is_delim);
        if is_delim(s.last()) {
            p.push(Seq::empty())
        } else {
            p.update(p.len() - 1, p.last().push(s.last()))
        }
    }
}

pub proof fn lemma_split_on_nonempty(s: Seq<char>, is_delim: spec_fn(char) -> bool)
    ensures
        split_on(s, is_delim).len() >= 1,
    decreases s.len(),
{
    if s.len() > 0 {
        lemma_split_on_nonempty(s.drop_last(), is_delim);
    }
}

/// The character vectors by their contents.
pub open spec fn char_vecs_view(v: Seq<Vec<char>>) -> Seq<Seq<char>> {
    v.map_values(|x: Vec<char>| x@)
}

/// Whether `c` is one of `set`.
pub fn char_in(set: &[char], c: char) -> (r: bool)
    ensures
        r == set@.contains(c),
{
    let mut i: usize = 0;
    while i < set.len()
        invariant
            i <= set@.len(),
            forall|k: int| 0 <= k < i ==> set@[k] != c,
        decreases set@.len() - i,
    {
        if set[i] == c {
            assert(set@[i as int] == c);
            return true;
        }
        i = i + 1;
    }
    false
}

/// The pieces of `s` between the characters of `delims`.
pub fn split_chars(s: &[char], delims: &[char]) -> (r: Vec<Vec<char>>)
    ensures
        char_vecs_view(r@) == split_on(s@, |c: char| delims@.contains(c)),
        r@.len() >= 1,
{
    let ghost d = |c: char| delims@.contains(c);
    let mut pieces: Vec<Vec<char>> = Vec::new();
    let mut current: Vec<char> = Vec::new();
    let mut i: usize = 0;
    assert(split_on(s@.take(0), d) =~= seq![Seq::<char>::empty()]);
    while i < s.len()
        invariant
            i <= s@.len(),
            d == (|c: char| delims@.contains(c)),
            char_vecs_view(pieces@).push(current@) == split_on(s@.take(i as int), d),
        decreases s@.len() - i,
    {
        let c = s[i];
        proof {
            lemma_split_on_nonempty(s@.take(i as int), d);
            assert(s@.take(i as int + 1).drop_last() =~= s@.take(i as int));
            assert(s@.take(i as int + 1).last() == c);
        }
        let ghost before = char_vecs_view(pieces@).push(current@);
        if char_in(delims, c) {
            let done = current;
            pieces.push(done);
            current = Vec::new();
            assert(char_vecs_view(pieces@).push(current@) =~= before.push(Seq::empty()));
        } else {
            current.push(c);
            assert(char_vecs_view(pieces@).push(current@) =~= before.update(
                before.len() - 1,
                before.last().push(c),
            ));
        }
        i = i + 1;
    }
    proof {
        lemma_take_full(s@);
    }
    pieces.push(current);
    assert(char_vecs_view(pieces@) =~= split_on(s@, d));
    pieces
}

/// The words of `s`: its maximal runs of characters that are not
/// whitespace (`str::split_whitespace`).
pub open spec fn words(s: Seq<char>) -> Seq<Seq<char>>
    decreases s.len(),
{
    if s.len() == 0 {
        Seq::empty()
    } else {
        let w = words(s.drop_last());
        let c = s.last();
        if is_ws(c) {
            w
        } else if s.len() >= 2 && !is_ws(s[s.len() - 2]) && w.len() > 0 {
            w.update(w.len() - 1, w.last().push(c))
        } else {
            w.push(seq![c])
        }
    }
}

/// The words of `s` joined by single spaces
/// (`split_whitespace().collect::<Vec<_>>().join(" ")`).
pub open spec fn collapse_ws(s: Seq<char>) -> Seq<char> {
    join(words(s), " "@)
}

/// The items of `list` joined by `sep`.
pub fn join_char_vecs(list: &[Vec<char>], sep: &str) -> (r: Vec<char>)
    ensures
        r@ == join(char_vecs_view(list@), sep@),
{
    let ghost l = char_vecs_view(list@);
    let mut out: Vec<char> = Vec::new();
    let mut i: usize = 0;
    while i < list.len()
        invariant
            i <= list@.len(),
            l == char_vecs_view(list@),
            out@ == join(l.take(i as int), sep@),
        decreases list@.len() - i,
    {
        if i > 0 {
            extend_str(&mut out, sep);
        }
        extend_chars(&mut out, &list[i]);
        proof {
            let t = l.take(i as int + 1);
            assert(t.drop_last() =~= l.take(i as int));
            assert(t.last() == list@[i as int]@);
            if i == 0 {
                assert(out@ =~= t[0]);
            }
        }
        i = i + 1;
    }
    assert(l.take(l.len() as int) =~= l);
    out
}

/// The words of `s`.
pub fn words_of(s: &[char]) -> (r: Vec<Vec<char>>)
    ensures
        char_vecs_view(r@) == words(s@),
{
    let mut w: Vec<Vec<char>> = Vec::new();
    let mut i: usize = 0;
    while i < s.len()
        invariant
            i <= s@.len(),
            char_vecs_view(w@) == words(s@.take(i as int)),
        decreases s@.len() - i,
    {
        let c = s[i];
        let ghost t = s@.take(i as int + 1);
        proof {
            assert(t.drop_last() =~= s@.take(i as int));
            assert(t.last() == c);
            if i >= 1 {
                assert(t[t.len() - 2] == s@[i - 1]);
            }
        }
        let ghost before = char_vecs_view(w@);
        if is_whitespace(c) {
        } else if i >= 1 && !is_whitespace(s[i - 1]) && w.len() > 0 {
            let last = w.len() - 1;
            let mut word = w.pop().unwrap();
            word.push(c);
            w.push(word);
            assert(char_vecs_view(w@) =~= before.update(before.len() - 1, before.last().push(c)));
        } else {
            let mut word: Vec<char> = Vec::new();
            word.push(c);
            w.push(word);
            assert(char_vecs_view(w@) =~= before.push(seq![c]));
        }
        i = i + 1;
    }
    proof {
        lemma_take_full(s@);
    }
    w
}

/// The words of `s` joined by single spaces.
pub fn collapse_whitespace(s: &[char]) -> (r: Vec<char>)
    ensures
        r@ == collapse_ws(s@),
{
    let w = words_of(s);
    join_char_vecs(&w, " ")
}

} // verus!

verus! {

/// `a` sorts before `b`: string order, which for UTF-8 text is the order of
/// code points, compared character by character.
pub open spec fn chars_lt(a: Seq<char>, b: Seq<char>) -> bool
    decreases a.len(),
{
    if a.len() == 0 {
        b.len() > 0
    } else if b.len() == 0 {
        false
    } else if a[0] != b[0] {
        a[0] < b[0]
    } else {
        chars_lt(a.drop_first(), b.drop_first())
    }
}

/// No text sorts before itself.
pub proof fn lemma_chars_lt_irreflexive(a: Seq<char>)
    ensures
        !chars_lt(a, a),
    decreases a.len(),
{
    if a.len() > 0 {
        lemma_chars_lt_irreflexive(a.drop_first());
    }
}

/// The text order is transitive.
pub proof fn lemma_chars_lt_transitive(a: Seq<char>, b: Seq<char>, c: Seq<char>)
    requires
        chars_lt(a, b),
        chars_lt(b, c),
    ensures
        chars_lt(a, c),
    decreases a.len(),
{
    if a.len() > 0 && b.len() > 0 && c.len() > 0 && a[0] == b[0] && b[0] == c[0] {
        lemma_chars_lt_transitive(a.drop_first(), b.drop_first(), c.drop_first());
    }
}

/// Of two different texts, one sorts before the other.
pub proof fn lemma_chars_lt_total(a: Seq<char>, b: Seq<char>)
    requires
        a != b,
    ensures
        chars_lt(a, b) || chars_lt(b, a),
    decreases a.len(),
{
    if a.len() > 0 && b.len() > 0 && a[0] == b[0] {
        if a.drop_first() == b.drop_first() {
            assert(a =~= seq![a[0]] + a.drop_first());
            assert(b =~= seq![b[0]] + b.drop_first());
        }
        lemma_chars_lt_total(a.drop_first(), b.drop_first());
    } else if a.len() == 0 && b.len() == 0 {
        assert(a =~= b);
    }
}

/// Whether `a` sorts before `b`.
pub fn chars_less(a: &[char], b: &[char]) -> (r: bool)
    ensures
        r == chars_lt(a@, b@),
{
    let mut i: usize = 0;
    assert(a@.skip(0) =~= a@);
    assert(b@.skip(0) =~= b@);
    while i < a.len() && i < b.len() && a[i] == b[i]
        invariant
            i <= a@.len(),
            i <= b@.len(),
            chars_lt(a@, b@) == chars_lt(a@.skip(i as int), b@.skip(i as int)),
        decreases a@.len() - i,
    {
        proof {
            assert(a@.skip(i as int).drop_first() =~= a@.skip(i as int + 1));
            assert(b@.skip(i as int).drop_first() =~= b@.skip(i as int + 1));
        }
        i = i + 1;
    }
    if i == a.len() {
        i < b.len()
    } else if i == b.len() {
        false
    } else {
        a[i] < b[i]
    }
}

/// The Unicode lower case of a character (`char::to_lowercase`).
pub uninterp spec fn std_char_lowercase(c: char) -> Seq<char>;

/// The lower-case form of a character as `char::to_lowercase` yields it.
/// The contract names the result: the Unicode case tables are not restated.
#[verifier::external_body]
pub(crate) fn char_lowercase(c: char) -> (r: Vec<char>)
    ensures
        r@ == std_char_lowercase(c),
{
    c.to_lowercase().collect()
}

/// The Unicode lower case of a text (`str::to_lowercase`).
pub uninterp spec fn std_str_lowercase(s: Seq<char>) -> Seq<char>;

/// The lower-case form of a text as `str::to_lowercase` yields it. The
/// contract names the result: the Unicode case tables and the final-sigma
/// rule are not restated.
#[verifier::external_body]
pub(crate) fn str_lowercase(s: &str) -> (r: String)
    ensures
        r@ == std_str_lowercase(s@),
{
    s.to_lowercase()
}

} // verus!
