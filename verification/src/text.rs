//! The host's number/text coercion rules: decimal formatting of integers
//! and decimal parsing of text, both against exact sequence-level
//! specifications. [`crate::val`] uses them for the scalar coercions.

use vstd::prelude::*;
use vstd::string::StrSliceExecFns;
use vstd::string::StringExecFns;

verus! {

/// The character that shows one decimal digit value.
pub open spec fn digit_char(d: int) -> char {
    if d == 0 {
        '0'
    } else if d == 1 {
        '1'
    } else if d == 2 {
        '2'
    } else if d == 3 {
        '3'
    } else if d == 4 {
        '4'
    } else if d == 5 {
        '5'
    } else if d == 6 {
        '6'
    } else if d == 7 {
        '7'
    } else if d == 8 {
        '8'
    } else {
        '9'
    }
}

/// Decimal digits of a nonnegative integer, most significant first.
pub open spec fn spec_dec_digits(n: int) -> Seq<char>
    recommends
        n >= 0,
    decreases n,
{
    if n < 10 {
        seq![digit_char(n)]
    } else {
        spec_dec_digits(n / 10).push(digit_char(n % 10))
    }
}

/// The text a host integer shows as: plain decimal, with a leading minus
/// sign for negative values.
pub open spec fn spec_i32_text(i: int) -> Seq<char> {
    if i < 0 {
        seq!['-'] + spec_dec_digits(-i)
    } else {
        spec_dec_digits(i)
    }
}

/// A decimal digit character.
pub open spec fn is_dec_digit(c: char) -> bool {
    '0' <= c && c <= '9'
}

/// The value of one decimal digit character.
pub open spec fn digit_val(c: char) -> int {
    c as int - '0' as int
}

/// Every character of the sequence is a decimal digit.
pub open spec fn all_digits(s: Seq<char>) -> bool {
    forall|i: int| 0 <= i < s.len() ==> is_dec_digit(#[trigger] s[i])
}

/// The number named by a sequence of decimal digits, most significant
/// first.
pub open spec fn spec_digits_val(s: Seq<char>) -> int
    decreases s.len(),
{
    if s.len() == 0 {
        0
    } else {
        spec_digits_val(s.drop_last()) * 10 + digit_val(s.last())
    }
}

/// The integer a host string coerces to: an optional leading minus sign,
/// then one or more decimal digits, and the named number must fit a 32-bit
/// signed integer; any other text coerces to zero.
pub open spec fn spec_text_i32(s: Seq<char>) -> int {
    if s.len() >= 1 && s[0] == '-' {
        let t = s.drop_first();
        if t.len() >= 1 && all_digits(t) && spec_digits_val(t) <= 0x8000_0000 {
            -spec_digits_val(t)
        } else {
            0
        }
    } else {
        if s.len() >= 1 && all_digits(s) && spec_digits_val(s) <= 0x7fff_ffff {
            spec_digits_val(s)
        } else {
            0
        }
    }
}

/// A digit sequence names a nonnegative number.
pub proof fn lemma_digits_val_nonneg(s: Seq<char>)
    requires
        all_digits(s),
    ensures
        spec_digits_val(s) >= 0,
    decreases s.len(),
{
    if s.len() > 0 {
        assert(all_digits(s.drop_last())) by {
            assert(forall|i: int|
                0 <= i < s.len() - 1 ==> s.drop_last()[i] == #[trigger] s[i]);
        }
        lemma_digits_val_nonneg(s.drop_last());
    }
}

/// Dropping trailing digits never makes the named number larger.
pub proof fn lemma_digits_val_prefix_le(s: Seq<char>, k: int)
    requires
        all_digits(s),
        0 <= k <= s.len(),
    ensures
        spec_digits_val(s.take(k)) <= spec_digits_val(s),
    decreases s.len() - k,
{
    if k == s.len() {
        assert(s.take(k) =~= s);
    } else {
        let p = s.take(k);
        let q = s.take(k + 1);
        assert(q.drop_last() =~= p);
        assert(q.last() == s[k]);
        assert(all_digits(p)) by {
            assert(forall|i: int| 0 <= i < k ==> p[i] == #[trigger] s[i]);
        }
        lemma_digits_val_nonneg(p);
        assert(spec_digits_val(q) == spec_digits_val(p) * 10 + digit_val(s[k]));
        assert(spec_digits_val(p) * 10 >= spec_digits_val(p)) by (nonlinear_arith)
            requires
                spec_digits_val(p) >= 0,
        ;
        lemma_digits_val_prefix_le(s, k + 1);
    }
}

/// Formatting yields digits only, and at least one of them.
pub proof fn lemma_dec_digits_shape(n: int)
    requires
        n >= 0,
    ensures
        all_digits(spec_dec_digits(n)),
        spec_dec_digits(n).len() >= 1,
    decreases n,
{
    if n < 10 {
        assert(is_dec_digit(digit_char(n)));
    } else {
        lemma_dec_digits_shape(n / 10);
        let s = spec_dec_digits(n / 10);
        let w = s.push(digit_char(n % 10));
        assert(is_dec_digit(digit_char(n % 10)));
        assert forall|i: int| 0 <= i < w.len() implies is_dec_digit(#[trigger] w[i]) by {
            if i < s.len() {
                assert(w[i] == s[i]);
            }
        }
    }
}

/// The digits of a number name that number back.
pub proof fn lemma_dec_digits_value(n: int)
    requires
        n >= 0,
    ensures
        spec_digits_val(spec_dec_digits(n)) == n,
    decreases n,
{
    if n < 10 {
        let s = spec_dec_digits(n);
        assert(s.len() == 1);
        assert(s.last() == digit_char(n));
        assert(s.drop_last().len() == 0);
        assert(spec_digits_val(s.drop_last()) == 0);
        assert(digit_val(digit_char(n)) == n);
    } else {
        lemma_dec_digits_value(n / 10);
        let s = spec_dec_digits(n / 10);
        let w = s.push(digit_char(n % 10));
        assert(w.drop_last() =~= s);
        assert(digit_val(digit_char(n % 10)) == n % 10);
        assert(spec_digits_val(w) == (n / 10) * 10 + n % 10);
    }
}

/// The host's decimal text for a 32-bit integer coerces back to the same
/// integer: [`spec_text_i32`] inverts [`spec_i32_text`] on the 32-bit
/// range.
pub proof fn lemma_text_of_i32_parses(i: int)
    requires
        -0x8000_0000 <= i <= 0x7fff_ffff,
    ensures
        spec_text_i32(spec_i32_text(i)) == i,
{
    if i >= 0 {
        let s = spec_dec_digits(i);
        lemma_dec_digits_shape(i);
        lemma_dec_digits_value(i);
        assert(is_dec_digit(s[0]));
        assert(s[0] != '-');
    } else {
        let d = spec_dec_digits(-i);
        let s = seq!['-'] + d;
        lemma_dec_digits_shape(-i);
        lemma_dec_digits_value(-i);
        assert(s[0] == '-');
        assert(s.drop_first() =~= d);
    }
}

/// Lexicographic order on text, by character code: the host's relational
/// rule for comparing two text values.
pub open spec fn lex_lt(a: Seq<char>, b: Seq<char>) -> bool
    decreases a.len(),
{
    if a.len() == 0 {
        b.len() > 0
    } else if b.len() == 0 {
        false
    } else if a[0] != b[0] {
        a[0] < b[0]
    } else {
        lex_lt(a.drop_first(), b.drop_first())
    }
}

/// Lexicographic comparison of two text slices, as [`lex_lt`] says.
pub fn str_lex_lt(a: &str, b: &str) -> (r: bool)
    ensures
        r == lex_lt(a@, b@),
    decreases a@.len(),
{
    let an: usize = a.unicode_len();
    let bn: usize = b.unicode_len();
    if an == 0 {
        bn > 0
    } else if bn == 0 {
        false
    } else {
        let ca = a.get_char(0);
        let cb = b.get_char(0);
        if ca != cb {
            ca < cb
        } else {
            let a2 = a.substring_char(1, an);
            let b2 = b.substring_char(1, bn);
            proof {
                assert(a2@ =~= a@.drop_first());
                assert(b2@ =~= b@.drop_first());
            }
            str_lex_lt(a2, b2)
        }
    }
}

/// Character-for-character equality of two text slices.
pub fn str_eq(a: &str, b: &str) -> (r: bool)
    ensures
        r == (a@ == b@),
{
    let a_s: String = a.to_owned();
    let b_s: String = b.to_owned();
    a_s == b_s
}

/// One decimal digit as text.
fn digit_str(d: u64) -> (r: &'static str)
    requires
        d < 10,
    ensures
        r@ =~= seq![digit_char(d as int)],
{
    proof {
        reveal_strlit("0");
        reveal_strlit("1");
        reveal_strlit("2");
        reveal_strlit("3");
        reveal_strlit("4");
        reveal_strlit("5");
        reveal_strlit("6");
        reveal_strlit("7");
        reveal_strlit("8");
        reveal_strlit("9");
    }
    match d {
        0 => "0",
        1 => "1",
        2 => "2",
        3 => "3",
        4 => "4",
        5 => "5",
        6 => "6",
        7 => "7",
        8 => "8",
        _ => "9",
    }
}

/// A nonnegative number in decimal.
pub fn u64_dec_string(n: u64) -> (r: String)
    ensures
        r@ == spec_dec_digits(n as int),
    decreases n,
{
    if n < 10 {
        digit_str(n).to_owned()
    } else {
        let front = u64_dec_string(n / 10);
        let r = front.concat(digit_str(n % 10));
        proof {
            assert(r@ =~= spec_dec_digits(n as int / 10).push(digit_char(n as int % 10)));
        }
        r
    }
}

/// A 32-bit signed integer in decimal, the host's text form for integers.
pub fn i32_text(i: i32) -> (r: String)
    ensures
        r@ == spec_i32_text(i as int),
{
    if i < 0 {
        let mag: u64 = (-(i as i64)) as u64;
        let mut r = "-".to_owned();
        proof {
            reveal_strlit("-");
        }
        let digits = u64_dec_string(mag);
        r.append(digits.as_str());
        proof {
            assert(r@ =~= seq!['-'] + spec_dec_digits(-(i as int)));
        }
        r
    } else {
        u64_dec_string(i as u64)
    }
}

/// Parse text by the host's string-to-integer coercion rule: the result is
/// exactly [`spec_text_i32`] of the text.
pub fn parse_i32_text(s: &str) -> (r: i32)
    ensures
        r as int == spec_text_i32(s@),
{
    let n: usize = s.unicode_len();
    if n == 0 {
        return 0;
    }
    let neg: bool = s.get_char(0) == '-';
    let start: usize = if neg {
        1
    } else {
        0
    };
    let ghost t: Seq<char> = if neg {
        s@.drop_first()
    } else {
        s@
    };
    if n == start {
        // A lone minus sign names no number.
        return 0;
    }
    let mut idx: usize = start;
    let mut acc: i64 = 0;
    while idx < n
        invariant
            start <= idx <= n,
            n == s@.len(),
            n >= 1,
            neg == (s@[0] == '-'),
            start == if neg { 1int } else { 0int },
            t =~= if neg { s@.drop_first() } else { s@ },
            t.len() == n - start,
            n - start >= 1,
            all_digits(t.take(idx - start)),
            0 <= acc <= 0x8000_0000,
            acc == spec_digits_val(t.take(idx - start)),
        decreases n - idx,
    {
        let c = s.get_char(idx);
        proof {
            assert(t[idx - start] == s@[idx as int]);
        }
        if !('0' <= c && c <= '9') {
            // A non-digit: the text is not a decimal number, so it
            // coerces to zero.
            assert(!all_digits(t));
            return 0;
        }
        let d: u32 = (c as u32) - ('0' as u32);
        let next: i64 = acc * 10 + (d as i64);
        proof {
            let p = t.take(idx - start);
            let q = t.take(idx - start + 1);
            assert(q.drop_last() =~= p);
            assert(q.last() == t[idx - start]);
            assert(all_digits(q));
            assert(spec_digits_val(q) == next);
        }
        if next > 0x8000_0000 {
            // Already past every 32-bit bound: whatever follows, the named
            // number cannot fit, so the text coerces to zero.
            proof {
                if all_digits(t) {
                    lemma_digits_val_prefix_le(t, idx - start + 1);
                }
            }
            return 0;
        }
        acc = next;
        idx = idx + 1;
    }
    proof {
        assert(t.take(n - start) =~= t);
    }
    if neg {
        proof {
            lemma_digits_val_nonneg(t);
        }
        (-acc) as i32
    } else {
        if acc > 0x7fff_ffff {
            // Exactly 2^31: one past the largest positive 32-bit value.
            return 0;
        }
        acc as i32
    }
}

} // verus!
