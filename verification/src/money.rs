//! Amounts of money, kept as integer fen (hundredths of a yuan).
use vstd::prelude::*;
use crate::text::{
    all_digits, digits_value, is_digit, is_whitespace, is_ws, keep, lemma_digits_value_nonneg, lemma_keep_step, lemma_take_full,
    parse_unsigned_digits, parse_unsigned_i64, str_chars,
};

verus! {

/// Characters that an amount cell may hold besides its number: thousands
/// separators, currency signs, the unit 元 and whitespace.
pub open spec fn is_amount_noise(c: char) -> bool {
    c == ',' || c == '¥' || c == '￥' || c == '元' || is_ws(c)
}

/// The amount text with its noise removed.
pub open spec fn amount_digits_text(s: Seq<char>) -> Seq<char> {
    keep(s, |c: char| !is_amount_noise(c))
}

/// The first position of `c` in `s`, or `s.len()`.
pub open spec fn first_index_of(s: Seq<char>, c: char, from: int) -> int
    decreases s.len() - from,
{
    if from < 0 || from >= s.len() {
        s.len() as int
    } else if s[from] == c {
        from
    } else {
        first_index_of(s, c, from + 1)
    }
}

/// The value in fen of the cleaned amount text `t`, if it is a valid amount:
/// digits, optionally followed by `.` and at most two decimal digits, with no
/// sign, fitting in `i64`.
pub open spec fn fen_of_text(t: Seq<char>) -> Option<int> {
    if t.len() == 0 || t[0] == '-' || t[0] == '+' {
        None
    } else {
        let dot = first_index_of(t, '.', 0);
        if dot < t.len() {
            let whole = t.take(dot);
            let decimals = t.skip(dot + 1);
            if decimals.len() > 2 || !all_digits(decimals) {
                None
            } else {
                match parse_unsigned_i64(whole) {
                    None => None,
                    Some(w) => {
                        let d = if decimals.len() == 0 {
                            0
                        } else if decimals.len() == 1 {
                            digits_value(decimals) * 10
                        } else {
                            digits_value(decimals)
                        };
                        if w * 100 + d <= i64::MAX {
                            Some(w * 100 + d)
                        } else {
                            None
                        }
                    },
                }
            }
        } else {
            match parse_unsigned_i64(t) {
                None => None,
                Some(w) => if w * 100 <= i64::MAX {
                    Some(w * 100)
                } else {
                    None
                },
            }
        }
    }
}

/// The amount in fen that a cell's text stands for.
pub open spec fn spec_parse_amount_fen(s: Seq<char>) -> Option<int> {
    fen_of_text(amount_digits_text(s))
}

proof fn lemma_first_index_of(s: Seq<char>, c: char, from: int)
    requires
        0 <= from <= s.len(),
    ensures
        from <= first_index_of(s, c, from) <= s.len(),
        first_index_of(s, c, from) < s.len() ==> s[first_index_of(s, c, from)] == c,
        forall|k: int| from <= k < first_index_of(s, c, from) ==> #[trigger] s[k] != c,
    decreases s.len() - from,
{
    if from < s.len() && s[from] != c {
        lemma_first_index_of(s, c, from + 1);
    }
}

/// Parses a money amount as written in a ledger cell, such as `¥1,200.50`
/// or `500 元`, into fen. Negative, signed and over-precise values are refused.
#[verifier::loop_isolation(false)]
pub fn parse_amount_fen(value: &str) -> (r: Option<i64>)
    ensures
        r matches Some(v) ==> spec_parse_amount_fen(value@) == Some(v as int),
        r is None ==> spec_parse_amount_fen(value@) is None,
{
    let chars = str_chars(value);
    let ghost p = |c: char| !is_amount_noise(c);
    let mut t: Vec<char> = Vec::new();
    let mut i: usize = 0;
    while i < chars.len()
        invariant
            i <= chars@.len(),
            chars@ == value@,
            p == (|c: char| !is_amount_noise(c)),
            t@ == keep(chars@.take(i as int), p),
        decreases chars@.len() - i,
    {
        let c = chars[i];
        proof {
            lemma_keep_step(chars@, p, i as int);
        }
        if !(c == ',' || c == '¥' || c == '￥' || c == '元' || is_whitespace(c)) {
            t.push(c);
        }
        i = i + 1;
    }
    proof {
        lemma_take_full(chars@);
    }
    let n = t.len();
    if n == 0 || t[0] == '-' || t[0] == '+' {
        return None;
    }
    let mut dot: usize = 0;
    while dot < n && t[dot] != '.'
        invariant
            dot <= n == t@.len(),
            forall|k: int| 0 <= k < dot ==> #[trigger] t@[k] != '.',
        decreases n - dot,
    {
        dot = dot + 1;
    }
    proof {
        lemma_first_index_of(t@, '.', 0);
        let f = first_index_of(t@, '.', 0);
        assert(f == dot) by {
            if f < dot {
                assert(t@[f] != '.');
            }
            if dot < f {
                assert(t@[dot as int] == '.');
            }
        }
    }
    if dot < n {
        let ghost decimals = t@.skip(dot + 1);
        let dec_len = n - dot - 1;
        if dec_len > 2 {
            return None;
        }
        let mut k = dot + 1;
        while k < n
            invariant
                dot + 1 <= k <= n == t@.len(),
                decimals == t@.skip(dot + 1),
                forall|j: int| dot + 1 <= j < k ==> is_digit(#[trigger] t@[j]),
            decreases n - k,
        {
            if !('0' <= t[k] && t[k] <= '9') {
                proof {
                    assert(decimals[k - dot - 1] == t@[k as int]);
                    assert(!is_digit(decimals[k - dot - 1]));
                }
                return None;
            }
            k = k + 1;
        }
        proof {
            assert forall|j: int| 0 <= j < decimals.len() implies is_digit(
                #[trigger] decimals[j],
            ) by {
                assert(decimals[j] == t@[j + dot + 1]);
            }
            assert(t@.subrange(0, dot as int) =~= t@.take(dot as int));
        }
        let whole = match parse_unsigned_digits(&t, 0, dot) {
            None => {
                return None;
            },
            Some(w) => w,
        };
        let decimal: i64 = if dec_len == 0 {
            0
        } else if dec_len == 1 {
            let d = (t[dot + 1] as u32 - '0' as u32) as i64;
            proof {
                assert(decimals.drop_last().len() == 0);
                assert(decimals.last() == t@[dot + 1]);
            }
            d * 10
        } else {
            let d1 = (t[dot + 1] as u32 - '0' as u32) as i64;
            let d2 = (t[dot + 2] as u32 - '0' as u32) as i64;
            proof {
                let dl = decimals.drop_last();
                assert(dl.len() == 1);
                assert(dl.drop_last().len() == 0);
                assert(dl.last() == t@[dot + 1]);
                assert(decimals.last() == t@[dot + 2]);
            }
            d1 * 10 + d2
        };
        proof {
            let dd = if decimals.len() == 0 {
                0
            } else if decimals.len() == 1 {
                digits_value(decimals) * 10
            } else {
                digits_value(decimals)
            };
            reveal_with_fuel(digits_value, 3);
            assert(decimal as int == dd);
            lemma_digits_value_nonneg(t@.take(dot as int));
        }
        assert(0 <= decimal < 100);
        if whole > (i64::MAX - decimal) / 100 {
            proof {
                let w = whole as int;
                let d = decimal as int;
                let m = i64::MAX as int;
                assert(w * 100 + d > m) by (nonlinear_arith)
                    requires
                        w > (m - d) / 100,
                        0 <= d < 100,
                        m > 0,
                ;
            }
            return None;
        }
        proof {
            let w = whole as int;
            let d = decimal as int;
            let m = i64::MAX as int;
            assert(w * 100 + d <= m) by (nonlinear_arith)
                requires
                    w <= (m - d) / 100,
                    0 <= d < 100,
                    w >= 0,
                    m > 0,
            ;
        }
        Some(whole * 100 + decimal)
    } else {
        proof {
            assert(t@.subrange(0, n as int) =~= t@);
        }
        let whole = match parse_unsigned_digits(&t, 0, n) {
            None => {
                return None;
            },
            Some(w) => w,
        };
        proof {
            lemma_digits_value_nonneg(t@);
        }
        if whole > i64::MAX / 100 {
            proof {
                let w = whole as int;
                let m = i64::MAX as int;
                assert(w * 100 > m) by (nonlinear_arith)
                    requires
                        w > m / 100,
                        m > 0,
                ;
            }
            return None;
        }
        Some(whole * 100)
    }
}

} // verus!

verus! {

/// The decimal form of a number is a non-empty string of digits worth it.
pub proof fn lemma_decimal_value(n: nat)
    ensures
        crate::text::decimal(n).len() > 0,
        all_digits(crate::text::decimal(n)),
        digits_value(crate::text::decimal(n)) == n,
    decreases n,
{
    let d = crate::text::decimal(n);
    if n < 10 {
        assert(d[0] == crate::text::digit_char(n));
        assert(d.last() == crate::text::digit_char(n));
        assert(d.drop_last() =~= Seq::<char>::empty());
        assert(digits_value(Seq::<char>::empty()) == 0);
        assert((crate::text::digit_char(n) as u32) == 48 + n);
    } else {
        lemma_decimal_value(n / 10);
        let p = crate::text::decimal(n / 10);
        assert(d == p.push(crate::text::digit_char(n % 10)));
        assert(d.drop_last() =~= p);
        assert(d.last() == crate::text::digit_char(n % 10));
        assert((crate::text::digit_char(n % 10) as u32) == 48 + n % 10);
        assert(n == (n / 10) * 10 + n % 10);
        assert forall|i: int| 0 <= i < d.len() implies is_digit(#[trigger] d[i]) by {
            if i < p.len() {
                assert(d[i] == p[i]);
            }
        }
    }
}

/// Keeping characters of a concatenation keeps them from each part.
pub proof fn lemma_keep_concat(a: Seq<char>, b: Seq<char>, p: spec_fn(char) -> bool)
    ensures
        keep(a + b, p) == keep(a, p) + keep(b, p),
    decreases b.len(),
{
    if b.len() == 0 {
        assert(a + b =~= a);
        assert(keep(a, p) + keep(b, p) =~= keep(a, p));
    } else {
        lemma_keep_concat(a, b.drop_last(), p);
        assert((a + b).drop_last() =~= a + b.drop_last());
        assert((a + b).last() == b.last());
        if p(b.last()) {
            assert(keep(a, p) + keep(b.drop_last(), p).push(b.last()) =~= (keep(a, p) + keep(b.drop_last(), p)).push(b.last()));
        }
    }
}

/// Keeping every character of a string in which none is noise keeps it whole.
proof fn lemma_keep_no_noise(s: Seq<char>)
    requires
        forall|i: int| 0 <= i < s.len() ==> !is_amount_noise(#[trigger] s[i]),
    ensures
        amount_digits_text(s) == s,
    decreases s.len(),
{
    if s.len() > 0 {
        assert forall|i: int| 0 <= i < s.drop_last().len() implies !is_amount_noise(#[trigger] s.drop_last()[i]) by {
            assert(s.drop_last()[i] == s[i]);
        }
        lemma_keep_no_noise(s.drop_last());
        assert(!is_amount_noise(s[s.len() - 1]));
        assert(s.drop_last().push(s.last()) =~= s);
    }
}

/// The first `.` of `d + "." + c`, where `d` holds none, follows `d`.
proof fn lemma_first_dot(d: Seq<char>, c: Seq<char>, k: int)
    requires
        all_digits(d),
        0 <= k <= d.len(),
    ensures
        first_index_of(d + seq!['.'] + c, '.', k) == d.len(),
    decreases d.len() - k,
{
    let t = d + seq!['.'] + c;
    if k < d.len() {
        assert(t[k] == d[k]);
        assert(is_digit(d[k]));
        lemma_first_dot(d, c, k + 1);
    } else {
        assert(t[k] == '.');
    }
}

/// The value of a two-digit string.
proof fn lemma_two_digits(a: char, b: char)
    ensures
        digits_value(seq![a, b]) == ((a as u32) - ('0' as u32)) * 10 + ((b as u32) - ('0' as u32)),
{
    assert(seq![a, b].drop_last() =~= seq![a]);
    assert(seq![a].drop_last() =~= Seq::<char>::empty());
    assert(seq![a].last() == a);
    assert(seq![a, b].last() == b);
    assert(digits_value(Seq::<char>::empty()) == 0);
    assert(digits_value(seq![a]) == (a as u32) - ('0' as u32));
}

/// The cents of a non-negative amount, as written, are two digits worth
/// them.
proof fn lemma_cents_text(r: nat)
    requires
        r < 100,
    ensures
        crate::audit::cents_text(false, r).len() == 2,
        all_digits(crate::audit::cents_text(false, r)),
        digits_value(crate::audit::cents_text(false, r)) == r,
{
    let c = crate::audit::cents_text(false, r);
    lemma_decimal_value(r);
    if r == 0 {
        reveal_strlit("00");
        assert(c =~= seq!['0', '0']);
        lemma_two_digits('0', '0');
    } else if r < 10 {
        reveal_strlit("0");
        let d = crate::text::decimal(r);
        assert(d =~= seq![crate::text::digit_char(r)]);
        assert(c =~= seq!['0', crate::text::digit_char(r)]);
        lemma_two_digits('0', crate::text::digit_char(r));
    } else {
        let d = crate::text::decimal(r);
        assert(r / 10 < 10);
        assert(crate::text::decimal(r / 10) == seq![crate::text::digit_char(r / 10)]);
        assert(d =~= seq![crate::text::digit_char(r / 10), crate::text::digit_char(r % 10)]);
        lemma_two_digits(crate::text::digit_char(r / 10), crate::text::digit_char(r % 10));
    }
}

/// An amount written as money in the history (`¥yuan.cents`) reads back as
/// the same amount: for every amount of zero or more fen, parsing the
/// written form gives that amount.
pub proof fn law_money_text_reads_back(amount: i64)
    requires
        amount >= 0,
    ensures
        spec_parse_amount_fen(crate::audit::money_text(amount as int)) == Some(amount as int),
{
    reveal_strlit("¥");
    reveal_strlit(".");
    let x = amount as nat;
    let d = crate::text::decimal(x / 100);
    let c = crate::audit::cents_text(false, x % 100);
    lemma_decimal_value(x / 100);
    lemma_cents_text(x % 100);
    assert(crate::audit::whole_yuan_text(amount as int) =~= d);
    assert(crate::audit::cents_of_text(amount as int) == c);
    let body = d + seq!['.'] + c;
    assert(crate::audit::money_text(amount as int) =~= seq!['¥'] + body);
    lemma_keep_concat(seq!['¥'], body, |ch: char| !is_amount_noise(ch));
    assert(keep(seq!['¥'], |ch: char| !is_amount_noise(ch)) =~= Seq::<char>::empty()) by {
        assert(seq!['¥'].drop_last() =~= Seq::<char>::empty());
        assert(seq!['¥'].last() == '¥');
        assert(is_amount_noise('¥'));
        assert(keep(Seq::<char>::empty(), |ch: char| !is_amount_noise(ch)) == Seq::<char>::empty());
    }
    assert forall|i: int| 0 <= i < body.len() implies !is_amount_noise(#[trigger] body[i]) by {
        if i < d.len() {
            assert(body[i] == d[i]);
            assert(is_digit(d[i]));
        } else if i == d.len() {
            assert(body[i] == '.');
        } else {
            assert(body[i] == c[i - d.len() - 1]);
            assert(is_digit(c[i - d.len() - 1]));
        }
    }
    lemma_keep_no_noise(body);
    assert(amount_digits_text(crate::audit::money_text(amount as int)) == body) by {
        assert(Seq::<char>::empty() + body =~= body);
    }
    lemma_first_dot(d, c, 0);
    assert(body.take(d.len() as int) =~= d);
    assert(body.skip(d.len() as int + 1) =~= c);
    assert(body[0] == d[0]);
    assert(is_digit(d[0]));
}

} // verus!

verus! {

/// A noise character anywhere in an amount text is dropped.
proof fn lemma_noise_dropped(a: Seq<char>, c: char, b: Seq<char>)
    requires
        is_amount_noise(c),
    ensures
        amount_digits_text(a + seq![c] + b) == amount_digits_text(a + b),
{
    let p = |ch: char| !is_amount_noise(ch);
    lemma_keep_concat(a + seq![c], b, p);
    lemma_keep_concat(a, seq![c], p);
    lemma_keep_concat(a, b, p);
    assert(keep(Seq::<char>::empty(), p) =~= Seq::<char>::empty());
    assert(seq![c].drop_last() =~= Seq::<char>::empty());
    assert(seq![c].last() == c);
    assert(!p(c));
    assert(keep(seq![c], p) =~= Seq::<char>::empty());
    assert(keep(a, p) + Seq::<char>::empty() =~= keep(a, p));
}

/// Currency signs, thousands separators, the unit 元 and whitespace may
/// stand anywhere in an amount cell and do not change what it reads as:
/// the half-width `¥` and the full-width `￥` (as typed with a Chinese input
/// method) alike.
pub proof fn law_amount_signs_ignored(a: Seq<char>, b: Seq<char>)
    ensures
        spec_parse_amount_fen(a + seq!['￥'] + b) == spec_parse_amount_fen(a + b),
        spec_parse_amount_fen(a + seq!['¥'] + b) == spec_parse_amount_fen(a + b),
        spec_parse_amount_fen(a + seq![','] + b) == spec_parse_amount_fen(a + b),
        spec_parse_amount_fen(a + seq!['元'] + b) == spec_parse_amount_fen(a + b),
        spec_parse_amount_fen(a + seq![' '] + b) == spec_parse_amount_fen(a + b),
        spec_parse_amount_fen(seq!['￥'] + b) == spec_parse_amount_fen(seq!['¥'] + b),
{
    lemma_noise_dropped(a, '￥', b);
    lemma_noise_dropped(a, '¥', b);
    lemma_noise_dropped(a, ',', b);
    lemma_noise_dropped(a, '元', b);
    lemma_noise_dropped(a, ' ', b);
    let e = Seq::<char>::empty();
    lemma_noise_dropped(e, '￥', b);
    lemma_noise_dropped(e, '¥', b);
    assert(e + seq!['￥'] + b =~= seq!['￥'] + b);
    assert(e + seq!['¥'] + b =~= seq!['¥'] + b);
}

} // verus!
