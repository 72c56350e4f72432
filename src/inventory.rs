//! Inventory records and the text rows that list and export them.

use vstd::prelude::*;

use crate::datetime::{date_display, format_date};
use crate::decimal::{decimal_chars, decimal_string};
use crate::text::{chars_of, push_chars, push_str, string_of};

verus! {

/// One item of the inventory, keyed by its normalized tag identifier.
#[derive(Clone, Debug)]
pub struct InventoryItem {
    pub tag_id: String,
    pub name: String,
    pub description: Option<String>,
    pub quantity: i32,
    pub location: Option<String>,
    pub category: Option<String>,
    pub created_at: String,
    pub last_updated: String,
}

/// The header line of an inventory export.
pub const CSV_HEADER: &'static str = "tag_id,name,quantity,category,location,created_at,last_updated";

/// The text of an optional field: empty when absent.
pub open spec fn or_empty(s: Option<String>) -> Seq<char> {
    match s {
        Some(v) => v@,
        None => Seq::empty(),
    }
}

/// The base-10 text of a signed quantity.
pub open spec fn quantity_text(q: int) -> Seq<char> {
    if q < 0 {
        seq!['-'] + decimal_string((-q) as nat)
    } else {
        decimal_string(q as nat)
    }
}

/// `s` with each comma preceded by a backslash.
pub open spec fn csv_escaped(s: Seq<char>) -> Seq<char>
    decreases s.len(),
{
    if s.len() == 0 {
        s
    } else if s.last() == ',' {
        csv_escaped(s.drop_last()) + seq!['\\', ',']
    } else {
        csv_escaped(s.drop_last()).push(s.last())
    }
}

/// The tab-separated row that lists an item.
pub open spec fn listing_row(item: InventoryItem) -> Seq<char> {
    item.tag_id@ + seq!['\t'] + item.name@ + seq!['\t'] + quantity_text(item.quantity as int)
        + seq!['\t'] + or_empty(item.category) + seq!['\t'] + or_empty(item.location) + seq!['\t']
        + date_display(item.created_at@) + seq!['\t'] + date_display(item.last_updated@)
}

/// The comma-separated row that exports an item.
pub open spec fn csv_row(item: InventoryItem) -> Seq<char> {
    item.tag_id@ + seq![','] + csv_escaped(item.name@) + seq![','] + quantity_text(
        item.quantity as int,
    ) + seq![','] + csv_escaped(or_empty(item.category)) + seq![','] + csv_escaped(
        or_empty(item.location),
    ) + seq![','] + item.created_at@ + seq![','] + item.last_updated@
}

fn push_quantity(out: &mut Vec<char>, q: i32)
    ensures
        final(out)@ == old(out)@ + quantity_text(q as int),
{
    if q < 0 {
        out.push('-');
        let d = decimal_chars((-(q as i64)) as u64);
        push_chars(out, &d);
    } else {
        let d = decimal_chars(q as u64);
        push_chars(out, &d);
    }
    assert(final(out)@ =~= old(out)@ + quantity_text(q as int));
}

fn push_optional(out: &mut Vec<char>, s: &Option<String>)
    ensures
        final(out)@ == old(out)@ + or_empty(*s),
{
    match s {
        Some(v) => push_str(out, v.as_str()),
        None => {
            assert(out@ =~= out@ + Seq::<char>::empty());
        },
    }
}

fn push_escaped(out: &mut Vec<char>, s: &Vec<char>)
    ensures
        final(out)@ == old(out)@ + csv_escaped(s@),
{
    let mut i: usize = 0;
    while i < s.len()
        invariant
            i <= s@.len(),
            out@ == old(out)@ + csv_escaped(s@.subrange(0, i as int)),
        decreases s@.len() - i,
    {
        let ghost before = out@;
        assert(s@.subrange(0, i + 1).drop_last() =~= s@.subrange(0, i as int));
        if s[i] == ',' {
            out.push('\\');
            out.push(',');
        } else {
            out.push(s[i]);
        }
        i += 1;
        assert(out@ =~= old(out)@ + csv_escaped(s@.subrange(0, i as int)));
    }
    assert(s@.subrange(0, s@.len() as int) =~= s@);
}

/// `s` with each comma preceded by a backslash, so that it stays one field
/// of an export row.
pub fn escape_csv(s: &str) -> (r: String)
    ensures
        r@ == csv_escaped(s@),
{
    let chars = chars_of(s);
    let mut out: Vec<char> = Vec::new();
    push_escaped(&mut out, &chars);
    assert(out@ =~= csv_escaped(s@));
    string_of(&out)
}

impl InventoryItem {
    /// The tab-separated row that lists this item: tag, name, quantity,
    /// category, location and both dates in Eastern time.
    pub fn listing_row(&self) -> (r: String)
        ensures
            r@ == listing_row(*self),
    {
        let mut out: Vec<char> = Vec::new();
        push_str(&mut out, self.tag_id.as_str());
        out.push('\t');
        push_str(&mut out, self.name.as_str());
        out.push('\t');
        push_quantity(&mut out, self.quantity);
        out.push('\t');
        push_optional(&mut out, &self.category);
        out.push('\t');
        push_optional(&mut out, &self.location);
        out.push('\t');
        let created = format_date(self.created_at.as_str());
        push_str(&mut out, created.as_str());
        out.push('\t');
        let updated = format_date(self.last_updated.as_str());
        push_str(&mut out, updated.as_str());
        assert(out@ =~= listing_row(*self));
        string_of(&out)
    }

    /// The comma-separated row that exports this item, with the commas of
    /// its name, category and location escaped.
    pub fn csv_row(&self) -> (r: String)
        ensures
            r@ == csv_row(*self),
    {
        let mut out: Vec<char> = Vec::new();
        push_str(&mut out, self.tag_id.as_str());
        out.push(',');
        let name = chars_of(self.name.as_str());
        push_escaped(&mut out, &name);
        out.push(',');
        push_quantity(&mut out, self.quantity);
        out.push(',');
        let category = self.category_text();
        push_escaped(&mut out, &category);
        out.push(',');
        let location = self.location_text();
        push_escaped(&mut out, &location);
        out.push(',');
        push_str(&mut out, self.created_at.as_str());
        out.push(',');
        push_str(&mut out, self.last_updated.as_str());
        assert(out@ =~= csv_row(*self));
        string_of(&out)
    }

    fn category_text(&self) -> (r: Vec<char>)
        ensures
            r@ == or_empty(self.category),
    {
        let mut r: Vec<char> = Vec::new();
        push_optional(&mut r, &self.category);
        assert(r@ =~= or_empty(self.category));
        r
    }

    fn location_text(&self) -> (r: Vec<char>)
        ensures
            r@ == or_empty(self.location),
    {
        let mut r: Vec<char> = Vec::new();
        push_optional(&mut r, &self.location);
        assert(r@ =~= or_empty(self.location));
        r
    }
}

} // verus!
