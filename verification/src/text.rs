//! Decimal and hexadecimal text: spec-level descriptions of digit strings
//! and verified builders and parsers for them. The rest of the crate states
//! its string contracts in terms of these functions.

use vstd::prelude::*;

verus! {

/// std `String::push` appends one character at the end; vstd does not
/// cover it, so its contract is assumed here.
pub assume_specification[ String::push ](s: &mut String, c: char)
    ensures
        final(s)@ == old(s)@.push(c),
;

/// The character for one decimal digit value.
pub open spec fn dec_digit(d: nat) -> char
    recommends
        d < 10,
{
    ((48 + d) as u8) as char
}

/// The decimal digit string of `n`, most significant digit first, with no
/// sign and no leading zeros (`0` itself is "0").
pub open spec fn dec_chars(n: nat) -> Seq<char>
    decreases n,
{
    if n < 10 {
        seq![dec_digit(n)]
    } else {
        dec_chars(n / 10).push(dec_digit(n % 10))
    }
}

/// The character for one hexadecimal digit value, lower case.
pub open spec fn hex_digit(d: nat) -> char
    recommends
        d < 16,
{
    if d < 10 {
        ((48 + d) as u8) as char
    } else {
        ((87 + d) as u8) as char
    }
}

/// Two lower-case hexadecimal digits for one byte.
pub open spec fn hex_pair(b: u8) -> Seq<char> {
    seq![hex_digit((b / 16) as nat), hex_digit((b % 16) as nat)]
}

/// Whether `c` is a decimal digit.
pub open spec fn is_dec_digit(c: char) -> bool {
    48 <= c as int <= 57
}

/// Whether every character of `s` is a decimal digit.
pub open spec fn all_dec_digits(s: Seq<char>) -> bool {
    forall|i: int| 0 <= i < s.len() ==> is_dec_digit(#[trigger] s[i])
}

/// The value of a digit string, most significant digit first.
pub open spec fn digits_val(s: Seq<char>) -> nat
    decreases s.len(),
{
    if s.len() == 0 {
        0
    } else {
        digits_val(s.drop_last()) * 10 + (s.last() as int - 48) as nat
    }
}

/// Append the decimal digits of `n` to `out`.
pub fn push_dec_u64(out: &mut String, n: u64)
    ensures
        final(out)@ == old(out)@ + dec_chars(n as nat),
    decreases n,
{
    if n < 10 {
        out.push((48 + n as u8) as char);
    } else {
        push_dec_u64(out, n / 10);
        out.push((48 + (n % 10) as u8) as char);
    }
}

/// The decimal digit string of `n`. What it writes reads back: the
/// result is all digits and its value is `n` again.
pub fn u64_string(n: u64) -> (r: String)
    ensures
        r@ == dec_chars(n as nat),
        all_dec_digits(r@),
        digits_val(r@) == n as nat,
{
    let mut s = String::new();
    push_dec_u64(&mut s, n);
    proof {
        lemma_dec_chars_value(n as nat);
        assert(Seq::<char>::empty() + dec_chars(n as nat) =~= dec_chars(n as nat));
    }
    s
}

/// Law: decimal writing round-trips through decimal reading. The digit
/// string of a value is nonempty, all digits, and reads back as the very
/// value, so a number this crate records in decimal is recovered intact.
pub proof fn lemma_dec_chars_value(n: nat)
    ensures
        dec_chars(n).len() > 0,
        all_dec_digits(dec_chars(n)),
        digits_val(dec_chars(n)) == n,
    decreases n,
{
    if n < 10 {
        let d = dec_digit(n);
        assert(is_dec_digit(d));
        assert(dec_chars(n) == seq![d]);
        assert(seq![d].drop_last() =~= Seq::<char>::empty());
        assert(digits_val(Seq::<char>::empty()) == 0);
        assert(seq![d].last() == d);
        assert(digits_val(seq![d]) == digits_val(seq![d].drop_last()) * 10 + (seq![d].last()
            as int - 48) as nat);
        assert(digits_val(seq![d]) == (d as int - 48) as nat);
        assert forall|i: int| 0 <= i < dec_chars(n).len() implies is_dec_digit(
            #[trigger] dec_chars(n)[i],
        ) by {
            assert(dec_chars(n)[i] == d);
        }
    } else {
        lemma_dec_chars_value(n / 10);
        let x = dec_chars(n / 10);
        let d = dec_digit(n % 10);
        assert(dec_chars(n) == x.push(d));
        assert(x.push(d).drop_last() =~= x);
        assert(x.push(d).last() == d);
        assert(digits_val(x.push(d)) == digits_val(x) * 10 + (d as int - 48) as nat);
        assert(digits_val(dec_chars(n)) == (n / 10) * 10 + n % 10);
        assert((n / 10) * 10 + n % 10 == n) by (nonlinear_arith);
        assert(is_dec_digit(d));
        assert forall|i: int| 0 <= i < x.push(d).len() implies is_dec_digit(
            #[trigger] x.push(d)[i],
        ) by {
            if i < x.len() {
                assert(x.push(d)[i] == x[i]);
            } else {
                assert(x.push(d)[i] == d);
            }
        }
    }
}

/// The decimal digit string of a signed value: a minus sign, when negative,
/// then the digits of the magnitude.
pub open spec fn dec_chars_signed(v: int) -> Seq<char> {
    if v < 0 {
        seq!['-'] + dec_chars((-v) as nat)
    } else {
        dec_chars(v as nat)
    }
}

/// Append the decimal digits of the signed value `v` to `out`.
pub fn push_dec_i32(out: &mut String, v: i32)
    ensures
        final(out)@ == old(out)@ + dec_chars_signed(v as int),
{
    if v < 0 {
        out.push('-');
        let m: u64 = (-(v as i64)) as u64;
        push_dec_u64(out, m);
        assert(final(out)@ =~= old(out)@ + dec_chars_signed(v as int));
    } else {
        push_dec_u64(out, v as u64);
    }
}

/// Append the two lower-case hexadecimal digits of `b` to `out`.
pub fn push_hex_pair(out: &mut String, b: u8)
    ensures
        final(out)@ == old(out)@ + hex_pair(b),
{
    let hi = b / 16;
    let lo = b % 16;
    let c1: char = if hi < 10 {
        (48 + hi) as char
    } else {
        (87 + hi) as char
    };
    let c2: char = if lo < 10 {
        (48 + lo) as char
    } else {
        (87 + lo) as char
    };
    out.push(c1);
    out.push(c2);
    assert(final(out)@ =~= old(out)@ + hex_pair(b));
}

/// Parse an unsigned decimal digit string. Returns the value when `s` is
/// nonempty, all digits, and the value fits in `u64`; `None` otherwise.
pub fn parse_dec_u64(s: &str) -> (r: Option<u64>)
    ensures
        match r {
            Some(v) => s@.len() > 0 && all_dec_digits(s@) && digits_val(s@) == v as nat,
            None => s@.len() == 0 || !all_dec_digits(s@) || digits_val(s@) > u64::MAX,
        },
{
    let n = s.unicode_len();
    if n == 0 {
        return None;
    }
    let mut acc: u64 = 0;
    let mut i: usize = 0;
    while i < n
        invariant
            0 <= i <= n,
            n == s@.len(),
            all_dec_digits(s@.take(i as int)),
            acc as nat == digits_val(s@.take(i as int)),
        decreases n - i,
    {
        let c = s.get_char(i);
        let cv = c as u32;
        if cv < 48 || cv > 57 {
            assert(!is_dec_digit(s@[i as int]));
            return None;
        }
        let d: u64 = (cv - 48) as u64;
        let ghost q = s@.take(i + 1int);
        proof {
            assert(q.drop_last() =~= s@.take(i as int));
            assert(q.last() == s@[i as int]);
            assert(digits_val(q) == acc * 10 + d);
        }
        let shifted = match acc.checked_mul(10) {
            Some(x) => x,
            None => {
                proof {
                    lemma_digits_val_grows(q, s@);
                }
                return None;
            },
        };
        let next = match shifted.checked_add(d) {
            Some(x) => x,
            None => {
                proof {
                    lemma_digits_val_grows(q, s@);
                }
                return None;
            },
        };
        acc = next;
        i = i + 1;
    }
    assert(s@.take(n as int) =~= s@);
    Some(acc)
}

/// Multiplying by a positive factor never shrinks a value.
pub proof fn lemma_mul_ge(a: nat, b: nat)
    requires
        b >= 1,
    ensures
        a * b >= a,
{
    assert(a * b >= a) by (nonlinear_arith)
        requires
            b >= 1,
    ;
}

/// A digit string's value only grows as digits are appended: if a prefix
/// already exceeds a bound, the whole string does.
proof fn lemma_digits_val_grows(p: Seq<char>, s: Seq<char>)
    requires
        p =~= s.take(p.len() as int),
        p.len() <= s.len(),
    ensures
        digits_val(s) >= digits_val(p),
    decreases s.len() - p.len(),
{
    if p.len() < s.len() {
        let q = s.take(p.len() as int + 1);
        assert(q.drop_last() =~= p);
        let k = ((q.last() as int - 48) as nat);
        assert(digits_val(q) == digits_val(p) * 10 + k);
        assert(digits_val(p) * 10 + k >= digits_val(p)) by (nonlinear_arith);
        lemma_digits_val_grows(q, s);
    } else {
        assert(p =~= s);
    }
}

} // verus!
