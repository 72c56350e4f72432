//! The rules behind the scan handler and the item forms: what a scan leads
//! to, and which record a filled-in form saves.

use vstd::prelude::*;

use crate::inventory::InventoryItem;

verus! {

/// Why a form cannot be saved.
#[derive(Clone, Copy, Debug, PartialEq, Eq, Structural)]
pub enum FormError {
    /// The item's name was left empty.
    NameRequired,
}

/// What follows a scan whose tag was looked up in the inventory.
#[derive(Clone, Copy, Debug, PartialEq, Eq, Structural)]
pub enum ScanAction {
    /// Known tag, forms enabled: open the update form.
    OpenUpdateForm,
    /// Known tag, forms disabled: store this quantity at once.
    SetQuantity(i32),
    /// Unknown tag, forms enabled: open the new-item form.
    OpenNewItemForm,
    /// Unknown tag, forms disabled: ask whether to create a record with a
    /// quantity of one.
    AskToCreate,
}

/// One step up, staying at the largest quantity.
pub open spec fn step_up_of(v: i32) -> i32 {
    if v < i32::MAX {
        (v + 1) as i32
    } else {
        v
    }
}

/// The text of an optional form field: absent when left empty.
pub open spec fn field_value(s: String) -> Option<String> {
    if s@.len() == 0 {
        None
    } else {
        Some(s)
    }
}

/// Decides what follows a scan: `found_quantity` is the stored quantity of
/// the scanned tag, or `None` when the inventory does not hold it.
pub fn scan_action(found_quantity: Option<i32>, show_form: bool) -> (r: ScanAction)
    ensures
        r == (match found_quantity {
            Some(q) => if show_form {
                ScanAction::OpenUpdateForm
            } else {
                ScanAction::SetQuantity(step_up_of(q))
            },
            None => if show_form {
                ScanAction::OpenNewItemForm
            } else {
                ScanAction::AskToCreate
            },
        }),
{
    match found_quantity {
        Some(q) => if show_form {
            ScanAction::OpenUpdateForm
        } else {
            ScanAction::SetQuantity(step_up(q))
        },
        None => if show_form {
            ScanAction::OpenNewItemForm
        } else {
            ScanAction::AskToCreate
        },
    }
}

/// The quantity after the `-` button: one less, but never below zero.
pub fn step_down(v: i32) -> (r: i32)
    ensures
        r == (if v > 0 { v - 1 } else { v as int }),
{
    if v > 0 {
        v - 1
    } else {
        v
    }
}

/// The quantity after the `+` button: one more, staying at the largest
/// quantity.
pub fn step_up(v: i32) -> (r: i32)
    ensures
        r == step_up_of(v),
{
    if v < i32::MAX {
        v + 1
    } else {
        v
    }
}

fn optional_field(s: String) -> (r: Option<String>)
    ensures
        r == field_value(s),
{
    if s.as_str().is_empty() {
        None
    } else {
        Some(s)
    }
}

/// The position to preselect in a category list that starts with
/// `Uncategorized`: one past the last of `categories` equal to the current
/// category, or `0` when none is.
pub fn preselected_category(categories: &Vec<String>, current: &Option<String>) -> (r: usize)
    ensures
        r <= categories@.len(),
        r > 0 ==> (current matches Some(c) && c@ == categories@[r - 1]@),
        forall|i: int|
            r <= i < categories@.len() ==> !(current matches Some(c) && c@
                == #[trigger] categories@[i]@),
{
    let mut selected: usize = 0;
    let mut i: usize = 0;
    while i < categories.len()
        invariant
            i <= categories@.len(),
            selected <= i,
            selected > 0 ==> (current matches Some(c) && c@ == categories@[selected - 1]@),
            forall|k: int|
                selected <= k < i ==> !(current matches Some(c) && c@
                    == #[trigger] categories@[k]@),
        decreases categories@.len() - i,
    {
        match current {
            Some(c) => {
                if *c == categories[i] {
                    selected = i + 1;
                }
            },
            None => {},
        }
        i += 1;
    }
    selected
}

/// The record that the update form saves: tag, name and creation date are
/// kept; a quantity that did not parse keeps the stored one; an empty
/// location or description is absent; category `0` means none, and a
/// chosen entry without text keeps the stored category.
pub fn updated_item(
    item: &InventoryItem,
    quantity: Option<i32>,
    location: String,
    description: String,
    category_index: i32,
    category_text: Option<String>,
    now: String,
) -> (r: InventoryItem)
    ensures
        r.tag_id == item.tag_id,
        r.name == item.name,
        r.created_at == item.created_at,
        r.last_updated == now,
        r.quantity == (match quantity {
            Some(q) => q,
            None => item.quantity,
        }),
        r.location == field_value(location),
        r.description == field_value(description),
        r.category == (if category_index <= 0 {
            None
        } else if category_text is Some {
            category_text
        } else {
            item.category
        }),
{
    let category = if category_index <= 0 {
        None
    } else if category_text.is_some() {
        category_text
    } else {
        item.category.clone()
    };
    InventoryItem {
        tag_id: item.tag_id.clone(),
        name: item.name.clone(),
        description: optional_field(description),
        quantity: match quantity {
            Some(q) => q,
            None => item.quantity,
        },
        location: optional_field(location),
        category,
        created_at: item.created_at.clone(),
        last_updated: now,
    }
}

/// The record that the new-item form saves, created and updated `now`. The
/// name is required; a quantity that did not parse is one; empty fields
/// are absent; category `0` means none.
pub fn new_item(
    tag_id: String,
    name: String,
    description: String,
    quantity: Option<i32>,
    location: String,
    category_index: i32,
    category_text: Option<String>,
    now: String,
) -> (r: Result<InventoryItem, FormError>)
    ensures
        r is Err <==> name@.len() == 0,
        r matches Err(e) ==> e == FormError::NameRequired,
        r matches Ok(i) ==> i.tag_id == tag_id && i.name == name && i.quantity == (match quantity {
            Some(q) => q,
            None => 1i32,
        }) && i.description == field_value(description) && i.location == field_value(location)
            && i.category == (if category_index > 0 {
            category_text
        } else {
            None
        }) && i.created_at == now && i.last_updated == now,
{
    if name.as_str().is_empty() {
        return Err(FormError::NameRequired);
    }
    let category = if category_index > 0 {
        category_text
    } else {
        None
    };
    Ok(InventoryItem {
        tag_id,
        name,
        description: optional_field(description),
        quantity: match quantity {
            Some(q) => q,
            None => 1,
        },
        location: optional_field(location),
        category,
        created_at: now.clone(),
        last_updated: now,
    })
}

} // verus!
