//! Correction of characters typed by a reader under another keyboard layout.

use vstd::prelude::*;

use crate::text::{chars_of, string_of};

verus! {

/// The host keyboard layout that a reader's keystrokes are read under.
#[derive(Clone, Copy, Debug, PartialEq, Eq, Structural)]
pub enum KeyboardLayout {
    /// US QWERTY: the reader's own layout, nothing to correct.
    Us,
    /// French AZERTY: the digit row yields symbols and some letters swap.
    Azerty,
}

impl KeyboardLayout {
    /// The layout stored under a numeric configuration code: `1` selects
    /// AZERTY, any other code the US default.
    pub fn from_code(code: i32) -> (r: KeyboardLayout)
        ensures
            r == (if code == 1 { KeyboardLayout::Azerty } else { KeyboardLayout::Us }),
    {
        if code == 1 {
            KeyboardLayout::Azerty
        } else {
            KeyboardLayout::Us
        }
    }
}

/// The character that a reader meant when the host under `layout` shows `c`.
pub open spec fn remap_char(c: char, layout: KeyboardLayout) -> char {
    match layout {
        KeyboardLayout::Us => c,
        KeyboardLayout::Azerty => match c {
            '&' => '1',
            'é' => '2',
            '"' => '3',
            '\'' => '4',
            '(' => '5',
            '-' => '6',
            'è' => '7',
            '_' => '8',
            'ç' => '9',
            'à' => '0',
            'Q' => 'A',
            'q' => 'a',
            'A' => 'Q',
            'a' => 'q',
            'W' => 'Z',
            'w' => 'z',
            'Z' => 'W',
            'z' => 'w',
            _ => c,
        },
    }
}

/// `raw` with each character corrected for `layout`.
pub open spec fn remap_seq(raw: Seq<char>, layout: KeyboardLayout) -> Seq<char> {
    raw.map_values(|c: char| remap_char(c, layout))
}

fn remap_one(c: char, layout: KeyboardLayout) -> (r: char)
    ensures
        r == remap_char(c, layout),
{
    match layout {
        KeyboardLayout::Us => c,
        KeyboardLayout::Azerty => match c {
            '&' => '1',
            'é' => '2',
            '"' => '3',
            '\'' => '4',
            '(' => '5',
            '-' => '6',
            'è' => '7',
            '_' => '8',
            'ç' => '9',
            'à' => '0',
            'Q' => 'A',
            'q' => 'a',
            'A' => 'Q',
            'a' => 'q',
            'W' => 'Z',
            'w' => 'z',
            'Z' => 'W',
            'z' => 'w',
            _ => c,
        },
    }
}

pub(crate) fn remap_chars(raw: &Vec<char>, layout: KeyboardLayout) -> (r: Vec<char>)
    ensures
        r@ == remap_seq(raw@, layout),
{
    let mut r: Vec<char> = Vec::new();
    let mut i: usize = 0;
    while i < raw.len()
        invariant
            i <= raw@.len(),
            r@ == remap_seq(raw@.subrange(0, i as int), layout),
        decreases raw@.len() - i,
    {
        r.push(remap_one(raw[i], layout));
        i += 1;
        assert(r@ =~= remap_seq(raw@.subrange(0, i as int), layout));
    }
    assert(raw@.subrange(0, raw@.len() as int) =~= raw@);
    r
}

/// Corrects a raw scan for the host keyboard layout, one character at a
/// time; characters the layout does not move pass through unchanged.
pub fn remap(raw: &str, layout: KeyboardLayout) -> (r: String)
    ensures
        r@ == remap_seq(raw@, layout),
{
    let chars = chars_of(raw);
    let mapped = remap_chars(&chars, layout);
    string_of(&mapped)
}

/// Under the default layout, remapping changes nothing.
pub proof fn lemma_remap_default_is_identity(s: Seq<char>)
    ensures
        remap_seq(s, KeyboardLayout::Us) == s,
{
    assert(remap_seq(s, KeyboardLayout::Us) =~= s);
}

} // verus!
