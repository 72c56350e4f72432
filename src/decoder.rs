//! The whole decoding pipeline, from a raw scan to the fields shown for it.

use vstd::prelude::*;

use crate::decimal::{
    all_hex, decimal_string, hex_to_decimal, hex_value, is_decimal_digit,
    lemma_decimal_string_digits,
};
use crate::format::{format_of, interpret_format, known_formats};
use crate::hex::{byte_groups, byte_text, hex_uid_of, is_hex_digit, pad_to_bytes, to_hex};
use crate::layout::{lemma_remap_default_is_identity, remap, remap_seq, KeyboardLayout};
use crate::manufacturer::{guess_manufacturer, known_manufacturers, manufacturer_of};
use crate::text::{
    chars_of, contains_text, find_text, is_blank, remove_blanks, string_of, without_blanks,
    without_spaces,
};

verus! {

/// What is shown for one scanned tag.
#[derive(Clone, Debug)]
pub struct DecodedTag {
    /// The UID as upper-case hex bytes separated by single spaces.
    pub hex_uid: String,
    /// The UID's value in base 10, or the hex text when it has none.
    pub decimal_value: String,
    /// The manufacturer guessed from the UID's first bytes, or `Unknown`.
    pub manufacturer: String,
    /// The card format guessed from the raw scan, or `Unrecognized`.
    pub format_description: String,
}

/// The decimal text shown for a hex identifier: its value, or the hex text
/// itself when it holds a character that is not a hex digit.
pub open spec fn decimal_display(hex: Seq<char>) -> Seq<char> {
    if all_hex(without_spaces(hex)) {
        decimal_string(hex_value(without_spaces(hex)))
    } else {
        hex
    }
}

/// The decimal value of a hex identifier, falling back to the identifier
/// itself when it is not made of hex digits.
pub fn decimal_or_hex(hex: &str) -> (r: String)
    ensures
        r@ == decimal_display(hex@),
{
    match hex_to_decimal(hex) {
        Ok(d) => d,
        Err(_) => hex.to_owned(),
    }
}

/// Decodes a raw scan read under `layout`. Every input gives a result: a
/// byte that is not hex shows as `??`, a UID without a decimal value shows
/// its hex text, and unmatched lookups give `Unknown` and `Unrecognized`.
pub fn decode(raw: &str, layout: KeyboardLayout) -> (t: DecodedTag)
    ensures
        t.hex_uid@ == hex_uid_of(remap_seq(raw@, layout)),
        t.decimal_value@ == decimal_display(t.hex_uid@),
        t.manufacturer@ == manufacturer_of(known_manufacturers(), t.hex_uid@),
        t.format_description@ == format_of(known_formats(), raw@),
{
    let remapped = remap(raw, layout);
    let hex_uid = to_hex(remapped.as_str());
    let decimal_value = decimal_or_hex(hex_uid.as_str());
    let manufacturer = guess_manufacturer(hex_uid.as_str());
    let format_description = interpret_format(raw);
    DecodedTag { hex_uid, decimal_value, manufacturer, format_description }
}

/// A line that the reader sends about itself rather than about a tag: it
/// names `config` or `Buz` (the buzzer).
pub open spec fn reader_command(line: Seq<char>) -> bool {
    contains_text(line, "config"@) || contains_text(line, "Buz"@)
}

/// Whether a scanned line is a reader command, to be left undecoded.
pub fn is_reader_command(line: &str) -> (r: bool)
    ensures
        r == reader_command(line@),
{
    let chars = chars_of(line);
    find_text(&chars, "config") || find_text(&chars, "Buz")
}

/// The inventory key for an identifier: the identifier with its whitespace
/// removed.
pub fn normalize_identifier(id: &str) -> (r: String)
    ensures
        r@ == without_blanks(id@),
{
    let chars = chars_of(id);
    let kept = remove_blanks(&chars);
    string_of(&kept)
}

impl DecodedTag {
    /// The inventory key of this tag: its hex UID without spaces.
    pub fn normalized_id(&self) -> (r: String)
        ensures
            r@ == without_blanks(self.hex_uid@),
    {
        normalize_identifier(self.hex_uid.as_str())
    }
}

proof fn lemma_without_blanks_has_none(s: Seq<char>)
    ensures
        forall|i: int| 0 <= i < without_blanks(s).len() ==> !is_blank(#[trigger] without_blanks(s)[i]),
    decreases s.len(),
{
    if s.len() > 0 {
        let t = without_blanks(s.drop_last());
        lemma_without_blanks_has_none(s.drop_last());
        assert forall|i: int| 0 <= i < without_blanks(s).len() implies !is_blank(
            #[trigger] without_blanks(s)[i],
        ) by {
            if i < t.len() {
                assert(without_blanks(s)[i] == t[i]);
            }
        }
    }
}

proof fn lemma_without_blanks_keeps_clean(s: Seq<char>)
    requires
        forall|i: int| 0 <= i < s.len() ==> !is_blank(#[trigger] s[i]),
    ensures
        without_blanks(s) == s,
    decreases s.len(),
{
    if s.len() > 0 {
        lemma_without_blanks_keeps_clean(s.drop_last());
        assert(s.drop_last().push(s.last()) =~= s);
    }
}

/// Normalizing an identifier twice gives what normalizing it once gives.
pub proof fn lemma_normalize_idempotent(id: Seq<char>)
    ensures
        without_blanks(without_blanks(id)) == without_blanks(id),
{
    lemma_without_blanks_has_none(id);
    lemma_without_blanks_keeps_clean(without_blanks(id));
}

proof fn lemma_without_spaces_concat(a: Seq<char>, b: Seq<char>)
    ensures
        without_spaces(a + b) == without_spaces(a) + without_spaces(b),
    decreases b.len(),
{
    if b.len() == 0 {
        assert(a + b =~= a);
        assert(without_spaces(a) + without_spaces(b) =~= without_spaces(a));
    } else {
        lemma_without_spaces_concat(a, b.drop_last());
        assert((a + b).drop_last() =~= a + b.drop_last());
        assert((a + b).last() == b.last());
        if b.last() != ' ' {
            assert(without_spaces(a) + without_spaces(b) =~= (without_spaces(a) + without_spaces(
                b.drop_last(),
            )).push(b.last()));
        }
    }
}

proof fn lemma_byte_text_hex(x: char, y: char)
    requires
        is_hex_digit(x),
        is_hex_digit(y),
    ensures
        byte_text(x, y).len() == 2,
        all_hex(without_spaces(byte_text(x, y))),
{
    let t = byte_text(x, y);
    let t1 = t.drop_last();
    assert(t1.drop_last() =~= Seq::<char>::empty());
    assert(without_spaces(Seq::<char>::empty()) == Seq::<char>::empty());
    assert(t[0] != ' ' && t[1] != ' ');
    assert(t1.last() == t[0]);
    assert(without_spaces(t1) =~= seq![t[0]]);
    assert(without_spaces(t) =~= t);
}

proof fn lemma_groups_hex(s: Seq<char>)
    requires
        s.len() % 2 == 0,
        all_hex(s),
    ensures
        s.len() > 0 ==> byte_groups(s).len() > 0,
        all_hex(without_spaces(byte_groups(s))),
    decreases s.len(),
{
    if s.len() == 0 {
        assert(without_spaces(byte_groups(s)) =~= Seq::<char>::empty());
    } else {
        assert(is_hex_digit(s[s.len() - 2]) && is_hex_digit(s[s.len() - 1]));
        lemma_byte_text_hex(s[s.len() - 2], s[s.len() - 1]);
        if s.len() > 2 {
            let head = s.subrange(0, s.len() - 2);
            assert(all_hex(head)) by {
                assert forall|i: int| 0 <= i < head.len() implies is_hex_digit(#[trigger] head[i]) by {
                    assert(head[i] == s[i]);
                }
            }
            lemma_groups_hex(head);
            let g = byte_groups(head);
            let t = byte_text(s[s.len() - 2], s[s.len() - 1]);
            lemma_without_spaces_concat(g + seq![' '], t);
            lemma_without_spaces_concat(g, seq![' ']);
            let sp = seq![' '];
            assert(sp.drop_last() =~= Seq::<char>::empty());
            assert(sp.last() == ' ');
            assert(without_spaces(Seq::<char>::empty()) == Seq::<char>::empty());
            assert(without_spaces(sp) =~= Seq::<char>::empty());
            let w = without_spaces(byte_groups(s));
            assert(w =~= without_spaces(g) + without_spaces(t));
            assert forall|i: int| 0 <= i < w.len() implies is_hex_digit(#[trigger] w[i]) by {
                if i < without_spaces(g).len() {
                    assert(w[i] == without_spaces(g)[i]);
                } else {
                    assert(w[i] == without_spaces(t)[i - without_spaces(g).len()]);
                }
            }
        }
    }
}

/// A scan made of hex digits alone decodes, under the default layout, to
/// a non-empty hex UID whose decimal value is a non-empty run of decimal
/// digits.
pub proof fn lemma_hex_scan_has_decimal_value(raw: Seq<char>)
    requires
        raw.len() > 0,
        all_hex(raw),
    ensures
        hex_uid_of(remap_seq(raw, KeyboardLayout::Us)).len() > 0,
        decimal_display(hex_uid_of(remap_seq(raw, KeyboardLayout::Us))).len() > 0,
        forall|i: int|
            0 <= i < decimal_display(hex_uid_of(remap_seq(raw, KeyboardLayout::Us))).len()
                ==> is_decimal_digit(
                #[trigger] decimal_display(hex_uid_of(remap_seq(raw, KeyboardLayout::Us)))[i],
            ),
{
    lemma_remap_default_is_identity(raw);
    let p = pad_to_bytes(raw);
    assert(all_hex(p)) by {
        assert forall|i: int| 0 <= i < p.len() implies is_hex_digit(#[trigger] p[i]) by {
            if raw.len() % 2 == 1 && i > 0 {
                assert(p[i] == raw[i - 1]);
            }
        }
    }
    lemma_groups_hex(p);
    let h = hex_uid_of(raw);
    lemma_decimal_string_digits(hex_value(without_spaces(h)));
}

} // verus!
