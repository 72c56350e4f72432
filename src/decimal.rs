//! Arbitrary-precision conversion of hex identifiers to base-10 text.

use vstd::prelude::*;

use crate::hex::{hex_digit, hex_digit_value, is_hex_digit};
use crate::text::{chars_of, remove_spaces, string_of, without_spaces};

verus! {

/// Why a hex identifier has no decimal value.
#[derive(Clone, Copy, Debug, PartialEq, Eq, Structural)]
pub enum DecodeError {
    /// A character other than a hex digit or a space.
    InvalidHexDigit,
}

pub open spec fn is_decimal_digit(c: char) -> bool {
    '0' <= c && c <= '9'
}

pub open spec fn all_hex(s: Seq<char>) -> bool {
    forall|i: int| 0 <= i < s.len() ==> is_hex_digit(#[trigger] s[i])
}

/// The number that the hex digits `s` write, most significant first.
pub open spec fn hex_value(s: Seq<char>) -> nat
    decreases s.len(),
{
    if s.len() == 0 {
        0
    } else {
        hex_value(s.drop_last()) * 16 + hex_digit_value(s.last())
    }
}

pub open spec fn decimal_digit(d: nat) -> char {
    if d == 0 {
        '0'
    } else if d == 1 {
        '1'
    } else if d == 2 {
        '2'
    } else if d == 3 {
        '3'
    } else if d == 4 {
        '4'
    } else if d == 5 {
        '5'
    } else if d == 6 {
        '6'
    } else if d == 7 {
        '7'
    } else if d == 8 {
        '8'
    } else {
        '9'
    }
}

/// The base-10 text of `n`, without leading zeros.
pub open spec fn decimal_string(n: nat) -> Seq<char>
    decreases n,
{
    if n < 10 {
        seq![decimal_digit(n)]
    } else {
        decimal_string(n / 10).push(decimal_digit(n % 10))
    }
}

pub open spec fn pow10(k: nat) -> nat
    decreases k,
{
    if k == 0 {
        1
    } else {
        10 * pow10((k - 1) as nat)
    }
}

/// The number written by base-10 digits, least significant first.
pub open spec fn digits_value(ds: Seq<u8>) -> nat
    decreases ds.len(),
{
    if ds.len() == 0 {
        0
    } else {
        ds[0] as nat + 10 * digits_value(ds.drop_first())
    }
}

/// The text of digits stored least significant first.
pub open spec fn digits_text(ds: Seq<u8>) -> Seq<char>
    decreases ds.len(),
{
    if ds.len() == 0 {
        Seq::empty()
    } else {
        digits_text(ds.drop_first()).push(decimal_digit(ds[0] as nat))
    }
}

pub open spec fn are_digits(ds: Seq<u8>) -> bool {
    forall|i: int| 0 <= i < ds.len() ==> #[trigger] ds[i] < 10
}

/// The text of a number is never empty and holds decimal digits only.
pub proof fn lemma_decimal_string_digits(n: nat)
    ensures
        decimal_string(n).len() > 0,
        forall|i: int|
            0 <= i < decimal_string(n).len() ==> is_decimal_digit(#[trigger] decimal_string(n)[i]),
    decreases n,
{
    if n >= 10 {
        lemma_decimal_string_digits(n / 10);
        let d = decimal_string(n / 10);
        assert forall|i: int| 0 <= i < decimal_string(n).len() implies is_decimal_digit(
            #[trigger] decimal_string(n)[i],
        ) by {
            if i < d.len() {
                assert(decimal_string(n)[i] == d[i]);
            }
        }
    }
}

proof fn lemma_digits_push(ds: Seq<u8>, d: u8)
    ensures
        digits_value(ds.push(d)) == digits_value(ds) + d as nat * pow10(ds.len()),
    decreases ds.len(),
{
    if ds.len() == 0 {
        assert(ds.push(d).drop_first() =~= Seq::<u8>::empty());
        assert(pow10(0) == 1);
        assert(digits_value(Seq::<u8>::empty()) == 0);
    } else {
        assert(ds.push(d).drop_first() =~= ds.drop_first().push(d));
        lemma_digits_push(ds.drop_first(), d);
        let p = pow10((ds.len() - 1) as nat);
        assert(pow10(ds.len()) == 10 * p);
        assert(10 * (digits_value(ds.drop_first()) + d as nat * p) == 10 * digits_value(
            ds.drop_first(),
        ) + d as nat * (10 * p)) by (nonlinear_arith);
    }
}

proof fn lemma_digits_positive(ds: Seq<u8>)
    requires
        ds.len() > 0,
        ds.last() != 0,
    ensures
        digits_value(ds) > 0,
    decreases ds.len(),
{
    if ds.len() > 1 {
        lemma_digits_positive(ds.drop_first());
    }
}

proof fn lemma_digits_text(ds: Seq<u8>)
    requires
        ds.len() > 0,
        ds.last() != 0,
        are_digits(ds),
    ensures
        decimal_string(digits_value(ds)) == digits_text(ds),
    decreases ds.len(),
{
    let tail = ds.drop_first();
    assert(ds[0] < 10);
    if ds.len() == 1 {
        assert(tail =~= Seq::<u8>::empty());
        assert(digits_text(tail) =~= Seq::<char>::empty());
        assert(digits_text(ds) =~= seq![decimal_digit(ds[0] as nat)]);
    } else {
        assert(are_digits(tail));
        lemma_digits_text(tail);
        lemma_digits_positive(tail);
        let n = digits_value(ds);
        let m = digits_value(tail);
        assert(n == ds[0] as nat + 10 * m);
        assert(n / 10 == m && n % 10 == ds[0] as nat && n >= 10) by (nonlinear_arith)
            requires
                n == ds[0] as nat + 10 * m,
                m >= 1,
                ds[0] < 10,
        ;
    }
}

/// Replaces the number held in `ds` by `16 * n + a`.
fn times_sixteen_plus(ds: &mut Vec<u8>, a: u8)
    requires
        are_digits(old(ds)@),
        a < 16,
    ensures
        are_digits(final(ds)@),
        digits_value(final(ds)@) == 16 * digits_value(old(ds)@) + a as nat,
{
    let ghost start = ds@;
    let n = ds.len();
    let mut carry: u32 = a as u32;
    let mut i: usize = 0;
    assert(ds@.subrange(0, 0) =~= Seq::<u8>::empty());
    assert(start.subrange(0, 0) =~= Seq::<u8>::empty());
    assert(pow10(0) == 1);
    assert(digits_value(Seq::<u8>::empty()) == 0);
    while i < n
        invariant
            n == ds@.len(),
            n == start.len(),
            are_digits(start),
            i <= n,
            carry < 16,
            are_digits(ds@),
            forall|k: int| i <= k < n ==> ds@[k] == start[k],
            digits_value(ds@.subrange(0, i as int)) + pow10(i as nat) * carry == 16
                * digits_value(start.subrange(0, i as int)) + a as nat,
        decreases n - i,
    {
        let ghost before = ds@;
        let t: u32 = ds[i] as u32 * 16 + carry;
        ds.set(i, (t % 10) as u8);
        carry = t / 10;
        proof {
            let p = pow10(i as nat);
            let lo = before.subrange(0, i as int);
            assert(ds@.subrange(0, i + 1) =~= lo.push((t % 10) as u8));
            assert(start.subrange(0, i + 1) =~= start.subrange(0, i as int).push(start[i as int]));
            lemma_digits_push(lo, (t % 10) as u8);
            lemma_digits_push(start.subrange(0, i as int), start[i as int]);
            assert(pow10((i + 1) as nat) == 10 * p);
            assert(t == start[i as int] as u32 * 16 + (t - start[i as int] as u32 * 16));
            let v0 = digits_value(lo);
            let w0 = digits_value(start.subrange(0, i as int));
            let c0 = (t - start[i as int] as u32 * 16) as int;
            let s = start[i as int] as int;
            assert(v0 + (t % 10) as int * p + (10 * p) * (t / 10) as int == 16 * (w0 + s * p) + a)
                by (nonlinear_arith)
                requires
                    v0 + p * c0 == 16 * w0 + a,
                    t as int == s * 16 + c0,
                    (t % 10) as int + 10 * (t / 10) as int == t as int,
            ;
            assert forall|k: int| 0 <= k < ds@.len() implies #[trigger] ds@[k] < 10 by {
                if k != i {
                    assert(ds@[k] == before[k]);
                }
            }
        }
        i += 1;
    }
    assert(ds@.subrange(0, n as int) =~= ds@);
    assert(start.subrange(0, n as int) =~= start);
    while carry > 0
        invariant
            are_digits(ds@),
            digits_value(ds@) + pow10(ds@.len()) * carry == 16 * digits_value(start) + a as nat,
        decreases carry,
    {
        let ghost before = ds@;
        ds.push((carry % 10) as u8);
        proof {
            lemma_digits_push(before, (carry % 10) as u8);
            let p = pow10(before.len());
            assert(pow10(ds@.len()) == 10 * p);
            assert((carry % 10) as int * p + (10 * p) * (carry / 10) as int == p * carry)
                by (nonlinear_arith);
            assert forall|k: int| 0 <= k < ds@.len() implies #[trigger] ds@[k] < 10 by {
                if k < before.len() {
                    assert(ds@[k] == before[k]);
                }
            }
        }
        carry = carry / 10;
    }
}

/// The decimal text of a hex identifier; spaces between its bytes are
/// ignored. Any other character that is not a hex digit gives
/// `InvalidHexDigit`. An identifier with no digits, or only zeros, is `0`.
pub fn hex_to_decimal(hex: &str) -> (r: Result<String, DecodeError>)
    ensures
        r is Ok <==> all_hex(without_spaces(hex@)),
        r matches Ok(d) ==> d@ == decimal_string(hex_value(without_spaces(hex@))),
        r matches Err(e) ==> e == DecodeError::InvalidHexDigit,
{
    let chars = chars_of(hex);
    let digits = remove_spaces(&chars);
    let ghost s = digits@;
    let mut ds: Vec<u8> = Vec::new();
    let mut i: usize = 0;
    while i < digits.len()
        invariant
            s == digits@,
            s == without_spaces(hex@),
            i <= s.len(),
            all_hex(s.subrange(0, i as int)),
            are_digits(ds@),
            digits_value(ds@) == hex_value(s.subrange(0, i as int)),
        decreases s.len() - i,
    {
        match hex_digit(digits[i]) {
            Some(v) => {
                times_sixteen_plus(&mut ds, v);
                assert(s.subrange(0, i + 1).drop_last() =~= s.subrange(0, i as int));
                i += 1;
            },
            None => {
                assert(!is_hex_digit(s[i as int]));
                assert(!all_hex(s));
                return Err(DecodeError::InvalidHexDigit);
            },
        }
    }
    assert(s.subrange(0, s.len() as int) =~= s);
    while ds.len() > 0 && ds[ds.len() - 1] == 0
        invariant
            are_digits(ds@),
            digits_value(ds@) == hex_value(s),
        decreases ds@.len(),
    {
        let ghost before = ds@;
        ds.pop();
        proof {
            assert(before =~= ds@.push(0u8));
            lemma_digits_push(ds@, 0u8);
        }
    }
    let out = render_digits(&ds);
    Ok(string_of(&out))
}

/// The text of the number held in `ds`, whose most significant digit is
/// not zero.
fn render_digits(ds: &Vec<u8>) -> (out: Vec<char>)
    requires
        are_digits(ds@),
        ds@.len() == 0 || ds@.last() != 0,
    ensures
        out@ == decimal_string(digits_value(ds@)),
{
    let mut out: Vec<char> = Vec::new();
    if ds.len() == 0 {
        out.push('0');
        assert(out@ =~= decimal_string(0));
    } else {
        let mut j: usize = ds.len();
        while j > 0
            invariant
                j <= ds@.len(),
                are_digits(ds@),
                out@ == digits_text(ds@.subrange(j as int, ds@.len() as int)),
            decreases j,
        {
            let d = ds[j - 1];
            out.push(digit_char(d));
            proof {
                let hi = ds@.subrange(j - 1, ds@.len() as int);
                assert(hi.drop_first() =~= ds@.subrange(j as int, ds@.len() as int));
            }
            j -= 1;
        }
        proof {
            assert(ds@.subrange(0, ds@.len() as int) =~= ds@);
            lemma_digits_text(ds@);
        }
    }
    out
}

/// The base-10 text of `n`.
pub(crate) fn decimal_chars(n: u64) -> (out: Vec<char>)
    ensures
        out@ == decimal_string(n as nat),
{
    let mut ds: Vec<u8> = Vec::new();
    let mut m: u64 = n;
    assert(pow10(0) == 1);
    assert(digits_value(Seq::<u8>::empty()) == 0);
    while m > 0
        invariant
            are_digits(ds@),
            digits_value(ds@) + pow10(ds@.len()) * m == n,
            m == 0 && ds@.len() > 0 ==> ds@.last() != 0,
        decreases m,
    {
        let ghost before = ds@;
        ds.push((m % 10) as u8);
        proof {
            lemma_digits_push(before, (m % 10) as u8);
            let p = pow10(before.len());
            assert(pow10(ds@.len()) == 10 * p);
            assert((m % 10) as int * p + (10 * p) * (m / 10) as int == p * m) by (nonlinear_arith);
            assert forall|k: int| 0 <= k < ds@.len() implies #[trigger] ds@[k] < 10 by {
                if k < before.len() {
                    assert(ds@[k] == before[k]);
                }
            }
        }
        m = m / 10;
    }
    render_digits(&ds)
}

fn digit_char(d: u8) -> (c: char)
    requires
        d < 10,
    ensures
        c == decimal_digit(d as nat),
{
    match d {
        0 => '0',
        1 => '1',
        2 => '2',
        3 => '3',
        4 => '4',
        5 => '5',
        6 => '6',
        7 => '7',
        8 => '8',
        _ => '9',
    }
}

} // verus!
