use rfid_inventory::forms::{
    new_item, preselected_category, scan_action, step_down, step_up, updated_item, FormError,
    ScanAction,
};
use rfid_inventory::inventory::InventoryItem;

fn stored() -> InventoryItem {
    InventoryItem {
        tag_id: "04A2B3C4".to_string(),
        name: "Drill".to_string(),
        description: Some("cordless".to_string()),
        quantity: 3,
        location: Some("Shelf 1".to_string()),
        category: Some("Tools".to_string()),
        created_at: "2024-01-01T00:00:00Z".to_string(),
        last_updated: "2024-01-02T00:00:00Z".to_string(),
    }
}

#[test]
fn scan_action_each_case() {
    assert_eq!(scan_action(Some(3), true), ScanAction::OpenUpdateForm);
    assert_eq!(scan_action(Some(3), false), ScanAction::SetQuantity(4));
    assert_eq!(scan_action(Some(i32::MAX), false), ScanAction::SetQuantity(i32::MAX));
    assert_eq!(scan_action(None, true), ScanAction::OpenNewItemForm);
    assert_eq!(scan_action(None, false), ScanAction::AskToCreate);
}

#[test]
fn quantity_steps() {
    assert_eq!(step_down(5), 4);
    assert_eq!(step_down(0), 0);
    assert_eq!(step_down(-2), -2);
    assert_eq!(step_up(5), 6);
    assert_eq!(step_up(-1), 0);
    assert_eq!(step_up(i32::MAX), i32::MAX);
}

#[test]
fn preselected_category_is_last_match() {
    let names = vec!["Parts".to_string(), "Tools".to_string(), "Tools".to_string()];
    assert_eq!(preselected_category(&names, &Some("Tools".to_string())), 3);
    assert_eq!(preselected_category(&names, &Some("Parts".to_string())), 1);
    assert_eq!(preselected_category(&names, &Some("Paint".to_string())), 0);
    assert_eq!(preselected_category(&names, &None), 0);
    assert_eq!(preselected_category(&Vec::new(), &Some("Tools".to_string())), 0);
}

#[test]
fn update_form_keeps_identity_and_reads_fields() {
    let r = updated_item(
        &stored(),
        Some(9),
        "Shelf 2".to_string(),
        String::new(),
        2,
        Some("Parts".to_string()),
        "2024-02-01T00:00:00Z".to_string(),
    );
    assert_eq!(r.tag_id, "04A2B3C4");
    assert_eq!(r.name, "Drill");
    assert_eq!(r.created_at, "2024-01-01T00:00:00Z");
    assert_eq!(r.last_updated, "2024-02-01T00:00:00Z");
    assert_eq!(r.quantity, 9);
    assert_eq!(r.location, Some("Shelf 2".to_string()));
    assert_eq!(r.description, None);
    assert_eq!(r.category, Some("Parts".to_string()));
}

#[test]
fn update_form_fallbacks() {
    let now = "2024-02-01T00:00:00Z".to_string();
    let r = updated_item(&stored(), None, String::new(), "new".to_string(), 4, None, now.clone());
    assert_eq!(r.quantity, 3);
    assert_eq!(r.location, None);
    assert_eq!(r.description, Some("new".to_string()));
    assert_eq!(r.category, Some("Tools".to_string()));
    let r = updated_item(&stored(), None, String::new(), String::new(), 0, Some("Parts".to_string()), now);
    assert_eq!(r.category, None);
}

#[test]
fn new_item_form_requires_name() {
    let r = new_item(
        "0A0B".to_string(),
        String::new(),
        String::new(),
        Some(2),
        String::new(),
        0,
        None,
        "2024-02-01T00:00:00Z".to_string(),
    );
    assert_eq!(r.err(), Some(FormError::NameRequired));
}

#[test]
fn new_item_form_defaults() {
    let now = "2024-02-01T00:00:00Z".to_string();
    let r = new_item(
        "0A0B".to_string(),
        "Bolt".to_string(),
        String::new(),
        None,
        "Bin 4".to_string(),
        0,
        Some("Parts".to_string()),
        now.clone(),
    )
    .unwrap();
    assert_eq!(r.tag_id, "0A0B");
    assert_eq!(r.name, "Bolt");
    assert_eq!(r.quantity, 1);
    assert_eq!(r.description, None);
    assert_eq!(r.location, Some("Bin 4".to_string()));
    assert_eq!(r.category, None);
    assert_eq!(r.created_at, now);
    assert_eq!(r.last_updated, now);
    let r = new_item(
        "0A0B".to_string(),
        "Bolt".to_string(),
        "M6".to_string(),
        Some(40),
        String::new(),
        1,
        Some("Parts".to_string()),
        now,
    )
    .unwrap();
    assert_eq!(r.quantity, 40);
    assert_eq!(r.description, Some("M6".to_string()));
    assert_eq!(r.category, Some("Parts".to_string()));
}
