use rfid_inventory::datetime::{format_date, format_timestamp, LocalDateTime};
use rfid_inventory::inventory::{escape_csv, InventoryItem, CSV_HEADER};

fn item() -> InventoryItem {
    InventoryItem {
        tag_id: "04A2B3C4".to_string(),
        name: "Cable, USB-C".to_string(),
        description: Some("two metres".to_string()),
        quantity: 12,
        location: Some("Shelf 3, bin 2".to_string()),
        category: None,
        created_at: "2024-01-15T15:30:00Z".to_string(),
        last_updated: "not a date".to_string(),
    }
}

#[test]
fn date_in_winter_is_eastern_standard_time() {
    assert_eq!(format_date("2024-01-15T15:30:00Z"), "2024-01-15 10:30");
    assert_eq!(format_timestamp("2024-01-15T15:30:45Z"), "2024-01-15 10:30:45");
}

#[test]
fn date_in_summer_is_eastern_daylight_time() {
    assert_eq!(format_date("2024-07-04T12:00:00+00:00"), "2024-07-04 08:00");
    assert_eq!(format_date("2024-07-04T02:00:00Z"), "2024-07-03 22:00");
}

#[test]
fn date_that_does_not_parse_is_kept() {
    assert_eq!(format_date("yesterday"), "yesterday");
    assert_eq!(format_timestamp(""), "");
}

#[test]
fn local_time_text_pads_fields() {
    let t = LocalDateTime { year: 5, month: 3, day: 7, hour: 4, minute: 9, second: 1 };
    assert_eq!(t.to_minute_text(), "0005-03-07 04:09");
    assert_eq!(t.to_second_text(), "0005-03-07 04:09:01");
    let t = LocalDateTime { year: -1, month: 12, day: 31, hour: 19, minute: 0, second: 0 };
    assert_eq!(t.to_minute_text(), "-0001-12-31 19:00");
    let t = LocalDateTime { year: 10000, month: 1, day: 1, hour: 0, minute: 0, second: 0 };
    assert_eq!(t.to_minute_text(), "+10000-01-01 00:00");
}

#[test]
fn escape_csv_commas() {
    assert_eq!(escape_csv("a,b,,c"), "a\\,b\\,\\,c");
    assert_eq!(escape_csv("plain"), "plain");
    assert_eq!(escape_csv(""), "");
}

#[test]
fn listing_row_of_item() {
    assert_eq!(
        item().listing_row(),
        "04A2B3C4\tCable, USB-C\t12\t\tShelf 3, bin 2\t2024-01-15 10:30\tnot a date"
    );
}

#[test]
fn csv_row_of_item() {
    assert_eq!(
        item().csv_row(),
        "04A2B3C4,Cable\\, USB-C,12,,Shelf 3\\, bin 2,2024-01-15T15:30:00Z,not a date"
    );
    let mut negative = item();
    negative.quantity = i32::MIN;
    negative.category = Some("Tools".to_string());
    assert_eq!(
        negative.csv_row(),
        "04A2B3C4,Cable\\, USB-C,-2147483648,Tools,Shelf 3\\, bin 2,2024-01-15T15:30:00Z,not a date"
    );
}

#[test]
fn csv_header_columns() {
    assert_eq!(CSV_HEADER.split(',').count(), 7);
}
