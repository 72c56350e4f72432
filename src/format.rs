//! Card format guess from the shape of a raw scan.

use vstd::prelude::*;

use crate::decimal::is_decimal_digit;
use crate::hex::{hex_digit, is_hex_digit};
use crate::text::chars_of;

verus! {

/// A test on the shape of a raw scan.
#[derive(Clone, Copy, Debug, PartialEq, Eq, Structural)]
pub enum FormatRule {
    /// At least two characters, starting with the first marker and ending
    /// with the second.
    Framed(char, char),
    /// The character occurs somewhere.
    Contains(char),
    /// Exactly this many characters, all decimal digits.
    DecimalDigits(usize),
    /// Exactly this many characters, all hex digits.
    HexDigits(usize),
}

pub open spec fn rule_matches(rule: FormatRule, s: Seq<char>) -> bool {
    match rule {
        FormatRule::Framed(first, last) => s.len() >= 2 && s[0] == first && s.last() == last,
        FormatRule::Contains(c) => s.contains(c),
        FormatRule::DecimalDigits(n) => s.len() == n && forall|i: int|
            0 <= i < s.len() ==> is_decimal_digit(#[trigger] s[i]),
        FormatRule::HexDigits(n) => s.len() == n && forall|i: int|
            0 <= i < s.len() ==> is_hex_digit(#[trigger] s[i]),
    }
}

/// A list of `(rule, label)` entries with each label as a plain sequence.
pub open spec fn rules_view(rules: Seq<(FormatRule, &str)>) -> Seq<(FormatRule, Seq<char>)> {
    rules.map_values(|e: (FormatRule, &str)| (e.0, e.1@))
}

/// The position of the first rule that `s` meets, or the list's length.
pub open spec fn format_match_index(rules: Seq<(FormatRule, Seq<char>)>, s: Seq<char>) -> nat
    decreases rules.len(),
{
    if rules.len() == 0 {
        0
    } else if rule_matches(rules[0].0, s) {
        0
    } else {
        1 + format_match_index(rules.drop_first(), s)
    }
}

/// The label of the first rule that `raw` meets, or `Unrecognized`.
pub open spec fn format_of(rules: Seq<(FormatRule, Seq<char>)>, raw: Seq<char>) -> Seq<char> {
    let i = format_match_index(rules, raw);
    if i < rules.len() {
        rules[i as int].1
    } else {
        "Unrecognized"@
    }
}

/// The card formats recognised by default, most specific first: a
/// decimal rule comes before the hex rule of the same length, which every
/// decimal scan would meet too.
pub open spec fn known_formats() -> Seq<(FormatRule, Seq<char>)> {
    seq![
        (FormatRule::Framed(';', '?'), "Magnetic stripe, track 2"@),
        (FormatRule::Framed('%', '?'), "Magnetic stripe, track 1"@),
        (FormatRule::Contains(','), "Facility code and card number"@),
        (FormatRule::DecimalDigits(10), "10-digit decimal (EM4100 / HID Proximity)"@),
        (FormatRule::DecimalDigits(8), "8-digit decimal (26-bit Wiegand)"@),
        (FormatRule::HexDigits(8), "4-byte UID (MIFARE Classic)"@),
        (FormatRule::HexDigits(10), "5-byte UID (EM4100)"@),
        (FormatRule::HexDigits(14), "7-byte UID (MIFARE Ultralight / NTAG)"@),
        (FormatRule::HexDigits(16), "8-byte UID (ISO 15693)"@),
    ]
}

/// The rules that [`interpret_format`] applies.
pub fn format_table() -> (t: Vec<(FormatRule, &'static str)>)
    ensures
        rules_view(t@) == known_formats(),
{
    let t = vec![
        (FormatRule::Framed(';', '?'), "Magnetic stripe, track 2"),
        (FormatRule::Framed('%', '?'), "Magnetic stripe, track 1"),
        (FormatRule::Contains(','), "Facility code and card number"),
        (FormatRule::DecimalDigits(10), "10-digit decimal (EM4100 / HID Proximity)"),
        (FormatRule::DecimalDigits(8), "8-digit decimal (26-bit Wiegand)"),
        (FormatRule::HexDigits(8), "4-byte UID (MIFARE Classic)"),
        (FormatRule::HexDigits(10), "5-byte UID (EM4100)"),
        (FormatRule::HexDigits(14), "7-byte UID (MIFARE Ultralight / NTAG)"),
        (FormatRule::HexDigits(16), "8-byte UID (ISO 15693)"),
    ];
    assert(rules_view(t@) =~= known_formats());
    t
}

/// Whether `s` meets `rule`.
pub fn matches_rule(rule: FormatRule, s: &Vec<char>) -> (r: bool)
    ensures
        r == rule_matches(rule, s@),
{
    match rule {
        FormatRule::Framed(first, last) => s.len() >= 2 && s[0] == first && s[s.len() - 1] == last,
        FormatRule::Contains(c) => {
            let mut i: usize = 0;
            while i < s.len()
                invariant
                    rule == FormatRule::Contains(c),
                    i <= s@.len(),
                    forall|k: int| 0 <= k < i ==> s@[k] != c,
                decreases s@.len() - i,
            {
                if s[i] == c {
                    assert(s@[i as int] == c);
                    assert(s@.contains(c));
                    return true;
                }
                i += 1;
            }
            false
        },
        FormatRule::DecimalDigits(n) => {
            if s.len() != n {
                return false;
            }
            let mut i: usize = 0;
            while i < s.len()
                invariant
                    rule == FormatRule::DecimalDigits(n),
                    s@.len() == n,
                    i <= s@.len(),
                    forall|k: int| 0 <= k < i ==> is_decimal_digit(#[trigger] s@[k]),
                decreases s@.len() - i,
            {
                if !('0' <= s[i] && s[i] <= '9') {
                    assert(!is_decimal_digit(s@[i as int]));
                    return false;
                }
                i += 1;
            }
            true
        },
        FormatRule::HexDigits(n) => {
            if s.len() != n {
                return false;
            }
            let mut i: usize = 0;
            while i < s.len()
                invariant
                    rule == FormatRule::HexDigits(n),
                    s@.len() == n,
                    i <= s@.len(),
                    forall|k: int| 0 <= k < i ==> is_hex_digit(#[trigger] s@[k]),
                decreases s@.len() - i,
            {
                if hex_digit(s[i]).is_none() {
                    assert(!is_hex_digit(s@[i as int]));
                    return false;
                }
                i += 1;
            }
            true
        },
    }
}

/// The label of the first rule of `rules` that `raw` meets, or
/// `Unrecognized` when it meets none.
pub fn interpret_format_in(rules: &Vec<(FormatRule, &str)>, raw: &str) -> (r: String)
    ensures
        r@ == format_of(rules_view(rules@), raw@),
{
    let ghost rv = rules_view(rules@);
    let s = chars_of(raw);
    let mut k: usize = 0;
    assert(rv.subrange(0, rv.len() as int) =~= rv);
    while k < rules.len()
        invariant
            rv == rules_view(rules@),
            s@ == raw@,
            k <= rules@.len(),
            k + format_match_index(rv.subrange(k as int, rv.len() as int), s@)
                == format_match_index(rv, s@),
        decreases rules@.len() - k,
    {
        let ghost rest = rv.subrange(k as int, rv.len() as int);
        assert(rest[0] == rv[k as int]);
        if matches_rule(rules[k].0, &s) {
            return rules[k].1.to_owned();
        }
        assert(rest.drop_first() =~= rv.subrange(k + 1, rv.len() as int));
        k += 1;
    }
    "Unrecognized".to_owned()
}

/// The card format that the built-in rules give to a raw scan.
pub fn interpret_format(raw: &str) -> (r: String)
    ensures
        r@ == format_of(known_formats(), raw@),
{
    let rules = format_table();
    interpret_format_in(&rules, raw)
}

/// Every scan that meets `b` meets `a` as well, by the shape of the two
/// rules: an equal rule, a hex rule over a decimal rule of the same length,
/// or a `Contains` rule over a frame that uses its character as a marker.
pub open spec fn covers(a: FormatRule, b: FormatRule) -> bool {
    a == b || match (a, b) {
        (FormatRule::HexDigits(n), FormatRule::DecimalDigits(m)) => n == m,
        (FormatRule::Contains(c), FormatRule::Framed(first, last)) => c == first || c == last,
        _ => false,
    }
}

/// No rule is placed after a rule that covers it.
pub open spec fn rules_most_specific_first(rules: Seq<(FormatRule, Seq<char>)>) -> bool {
    forall|i: int, j: int| 0 <= i < j < rules.len() ==> !#[trigger] covers(rules[i].0, rules[j].0)
}

fn covers_rule(a: FormatRule, b: FormatRule) -> (r: bool)
    ensures
        r == covers(a, b),
{
    match (a, b) {
        (FormatRule::Framed(f1, l1), FormatRule::Framed(f2, l2)) => f1 == f2 && l1 == l2,
        (FormatRule::Contains(c1), FormatRule::Contains(c2)) => c1 == c2,
        (FormatRule::DecimalDigits(n1), FormatRule::DecimalDigits(n2)) => n1 == n2,
        (FormatRule::HexDigits(n1), FormatRule::HexDigits(n2)) => n1 == n2,
        (FormatRule::HexDigits(n), FormatRule::DecimalDigits(m)) => n == m,
        (FormatRule::Contains(c), FormatRule::Framed(first, last)) => c == first || c == last,
        _ => false,
    }
}

/// Whether no rule of `rules` comes after a rule that covers it.
pub fn is_rules_most_specific_first(rules: &Vec<(FormatRule, &str)>) -> (r: bool)
    ensures
        r == rules_most_specific_first(rules_view(rules@)),
{
    let ghost rv = rules_view(rules@);
    let n = rules.len();
    let mut i: usize = 0;
    while i < n
        invariant
            n == rules@.len(),
            rv == rules_view(rules@),
            i <= n,
            forall|x: int, y: int| 0 <= x < i && x < y < n ==> !#[trigger] covers(rv[x].0, rv[y].0),
        decreases n - i,
    {
        let mut j: usize = i + 1;
        while j < n
            invariant
                n == rules@.len(),
                rv == rules_view(rules@),
                i < n,
                i < j <= n,
                forall|x: int, y: int| 0 <= x < i && x < y < n ==> !#[trigger] covers(rv[x].0, rv[y].0),
                forall|y: int| i < y < j ==> !#[trigger] covers(rv[i as int].0, rv[y].0),
            decreases n - j,
        {
            if covers_rule(rules[i].0, rules[j].0) {
                assert(covers(rv[i as int].0, rv[j as int].0));
                return false;
            }
            j += 1;
        }
        i += 1;
    }
    true
}

proof fn lemma_covers_sound(a: FormatRule, b: FormatRule, s: Seq<char>)
    requires
        covers(a, b),
        rule_matches(b, s),
    ensures
        rule_matches(a, s),
{
    match (a, b) {
        (FormatRule::HexDigits(n), FormatRule::DecimalDigits(m)) => {
            assert forall|i: int| 0 <= i < s.len() implies is_hex_digit(#[trigger] s[i]) by {
                assert(is_decimal_digit(s[i]));
            }
        },
        (FormatRule::Contains(c), FormatRule::Framed(first, last)) => {
            if a != b {
                if c == first {
                    assert(s[0] == c);
                } else {
                    assert(s[s.len() - 1] == c);
                }
            }
        },
        _ => {},
    }
}

proof fn lemma_format_match_index(rules: Seq<(FormatRule, Seq<char>)>, s: Seq<char>)
    ensures
        format_match_index(rules, s) <= rules.len(),
        format_match_index(rules, s) < rules.len() ==> rule_matches(
            rules[format_match_index(rules, s) as int].0,
            s,
        ),
        forall|j: int|
            0 <= j < format_match_index(rules, s) ==> !rule_matches(#[trigger] rules[j].0, s),
    decreases rules.len(),
{
    if rules.len() > 0 && !rule_matches(rules[0].0, s) {
        let rest = rules.drop_first();
        lemma_format_match_index(rest, s);
        assert forall|j: int| 0 <= j < format_match_index(rules, s) implies !rule_matches(
            #[trigger] rules[j].0,
            s,
        ) by {
            if j > 0 {
                assert(rules[j] == rest[j - 1]);
            }
        }
    }
}

/// A rule placed after a rule that covers it never gives its label: every
/// scan that meets it has already met the earlier rule.
pub proof fn lemma_covered_rule_never_wins(
    rules: Seq<(FormatRule, Seq<char>)>,
    i: int,
    j: int,
    s: Seq<char>,
)
    requires
        0 <= i < j < rules.len(),
        covers(rules[i].0, rules[j].0),
    ensures
        format_match_index(rules, s) != j,
{
    lemma_format_match_index(rules, s);
    if format_match_index(rules, s) == j {
        lemma_covers_sound(rules[i].0, rules[j].0, s);
    }
}

/// The built-in rules never place a rule after one that covers it.
pub proof fn lemma_known_formats_most_specific_first()
    ensures
        rules_most_specific_first(known_formats()),
{
    let t = known_formats();
    assert(t[0].0 == FormatRule::Framed(';', '?'));
    assert(t[1].0 == FormatRule::Framed('%', '?'));
    assert(t[2].0 == FormatRule::Contains(','));
    assert(t[3].0 == FormatRule::DecimalDigits(10));
    assert(t[4].0 == FormatRule::DecimalDigits(8));
    assert(t[5].0 == FormatRule::HexDigits(8));
    assert(t[6].0 == FormatRule::HexDigits(10));
    assert(t[7].0 == FormatRule::HexDigits(14));
    assert(t[8].0 == FormatRule::HexDigits(16));
    assert forall|i: int, j: int| 0 <= i < j < t.len() implies !#[trigger] covers(
        t[i].0,
        t[j].0,
    ) by {
        assert(0 <= i < 9 && 0 <= j < 9);
    }
}

} // verus!
