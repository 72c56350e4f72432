//! Rendering a scan as spaced, upper-case hex bytes.

use vstd::prelude::*;

use crate::text::{chars_of, string_of};

verus! {

pub open spec fn is_hex_digit(c: char) -> bool {
    ('0' <= c && c <= '9') || ('a' <= c && c <= 'f') || ('A' <= c && c <= 'F')
}

/// The value of a hex digit; `0` for any other character.
pub open spec fn hex_digit_value(c: char) -> nat {
    if '0' <= c && c <= '9' {
        (c as int - '0' as int) as nat
    } else if 'a' <= c && c <= 'f' {
        (c as int - 'a' as int + 10) as nat
    } else if 'A' <= c && c <= 'F' {
        (c as int - 'A' as int + 10) as nat
    } else {
        0
    }
}

/// A hex digit in upper case; other characters are left as they are.
pub open spec fn upper_hex(c: char) -> char {
    match c {
        'a' => 'A',
        'b' => 'B',
        'c' => 'C',
        'd' => 'D',
        'e' => 'E',
        'f' => 'F',
        _ => c,
    }
}

/// The text of one byte made of the characters `a` and `b`: the two digits
/// in upper case, or `??` when either is not a hex digit.
pub open spec fn byte_text(a: char, b: char) -> Seq<char> {
    if is_hex_digit(a) && is_hex_digit(b) {
        seq![upper_hex(a), upper_hex(b)]
    } else {
        seq!['?', '?']
    }
}

/// `s` with a leading `0` when its length is odd, so that it splits into
/// whole bytes without changing its value.
pub open spec fn pad_to_bytes(s: Seq<char>) -> Seq<char> {
    if s.len() % 2 == 1 {
        seq!['0'] + s
    } else {
        s
    }
}

/// The bytes of `s`, taken two characters at a time, joined by single spaces.
pub open spec fn byte_groups(s: Seq<char>) -> Seq<char>
    decreases s.len(),
{
    if s.len() < 2 {
        Seq::empty()
    } else if s.len() == 2 {
        byte_text(s[0], s[1])
    } else {
        byte_groups(s.subrange(0, s.len() - 2)) + seq![' '] + byte_text(
            s[s.len() - 2],
            s[s.len() - 1],
        )
    }
}

/// The spaced hex form of a remapped scan.
pub open spec fn hex_uid_of(s: Seq<char>) -> Seq<char> {
    byte_groups(pad_to_bytes(s))
}

pub(crate) fn hex_digit(c: char) -> (r: Option<u8>)
    ensures
        r is Some <==> is_hex_digit(c),
        r matches Some(v) ==> v as nat == hex_digit_value(c) && v < 16,
{
    if '0' <= c && c <= '9' {
        Some((c as u32 - '0' as u32) as u8)
    } else if 'a' <= c && c <= 'f' {
        Some((c as u32 - 'a' as u32 + 10) as u8)
    } else if 'A' <= c && c <= 'F' {
        Some((c as u32 - 'A' as u32 + 10) as u8)
    } else {
        None
    }
}

fn upper(c: char) -> (r: char)
    ensures
        r == upper_hex(c),
{
    match c {
        'a' => 'A',
        'b' => 'B',
        'c' => 'C',
        'd' => 'D',
        'e' => 'E',
        'f' => 'F',
        _ => c,
    }
}

fn push_byte(out: &mut Vec<char>, a: char, b: char)
    ensures
        final(out)@ == old(out)@ + byte_text(a, b),
{
    if hex_digit(a).is_some() && hex_digit(b).is_some() {
        out.push(upper(a));
        out.push(upper(b));
    } else {
        out.push('?');
        out.push('?');
    }
    assert(final(out)@ =~= old(out)@ + byte_text(a, b));
}

pub(crate) fn hex_groups(s: &Vec<char>) -> (r: Vec<char>)
    ensures
        r@ == hex_uid_of(s@),
{
    let mut p: Vec<char> = Vec::new();
    if s.len() % 2 == 1 {
        p.push('0');
    }
    let mut j: usize = 0;
    while j < s.len()
        invariant
            j <= s@.len(),
            p@ == (if s@.len() % 2 == 1 { seq!['0'] } else { Seq::empty() }) + s@.subrange(
                0,
                j as int,
            ),
        decreases s@.len() - j,
    {
        p.push(s[j]);
        j += 1;
        assert(p@ =~= (if s@.len() % 2 == 1 { seq!['0'] } else { Seq::empty() }) + s@.subrange(
            0,
            j as int,
        ));
    }
    assert(p@ =~= pad_to_bytes(s@));
    assert(p@.len() % 2 == 0);
    let mut r: Vec<char> = Vec::new();
    let mut i: usize = 0;
    while i < p.len()
        invariant
            p@ == pad_to_bytes(s@),
            p@.len() % 2 == 0,
            i % 2 == 0,
            i <= p@.len(),
            r@ == byte_groups(p@.subrange(0, i as int)),
        decreases p@.len() - i,
    {
        let ghost before = r@;
        if i > 0 {
            r.push(' ');
        }
        push_byte(&mut r, p[i], p[i + 1]);
        proof {
            let q = p@.subrange(0, i + 2);
            assert(q.subrange(0, q.len() - 2) =~= p@.subrange(0, i as int));
            assert(q[q.len() - 2] == p@[i as int]);
            assert(q[q.len() - 1] == p@[i + 1]);
            if i == 0 {
                assert(before =~= Seq::<char>::empty());
                assert(r@ =~= byte_groups(q));
            } else {
                assert(r@ =~= byte_groups(q));
            }
        }
        i += 2;
    }
    assert(p@.subrange(0, p@.len() as int) =~= p@);
    r
}

/// The spaced, upper-case hex form of a scan: two characters per byte (a
/// leading `0` completes an odd length), `??` for a byte that holds a
/// character other than a hex digit.
pub fn to_hex(remapped: &str) -> (r: String)
    ensures
        r@ == hex_uid_of(remapped@),
{
    let chars = chars_of(remapped);
    let groups = hex_groups(&chars);
    string_of(&groups)
}

} // verus!
