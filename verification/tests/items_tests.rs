use relay::items::{get_item, Context, Item, ItemDb, ItemError, User};

#[test]
fn from_json_parses_a_decimal_id() {
    let item = Item::from_json(b"123").unwrap();
    assert_eq!(item.item_id(), 123);
    assert!(item.is_active());
}

#[test]
fn from_json_rejects_empty_input() {
    assert_eq!(Item::from_json(b""), Err(ItemError::InvalidItemJson));
}

#[test]
fn from_json_rejects_non_digits() {
    assert_eq!(Item::from_json(b"12a"), Err(ItemError::InvalidItemJson));
    assert_eq!(Item::from_json(b"-5"), Err(ItemError::InvalidItemJson));
    assert_eq!(Item::from_json(b" 5"), Err(ItemError::InvalidItemJson));
}

#[test]
fn from_json_accepts_the_largest_id() {
    let item = Item::from_json(b"18446744073709551615").unwrap();
    assert_eq!(item.item_id(), u64::MAX);
}

#[test]
fn from_json_rejects_an_overflowing_id() {
    assert_eq!(Item::from_json(b"18446744073709551616"), Err(ItemError::InvalidItemJson));
    assert_eq!(Item::from_json(b"99999999999999999999999"), Err(ItemError::InvalidItemJson));
}

#[test]
fn item_db_refuses_duplicate_ids() {
    let mut db = ItemDb::new();
    assert!(db.insert(Item { id: 7, active: true }).is_ok());
    assert_eq!(db.insert(Item { id: 7, active: false }), Err(ItemError::DuplicateItemId));
    assert_eq!(db.get(7).unwrap().active, true);
}

#[test]
fn get_item_rejects_bad_json_first() {
    let db = ItemDb::new();
    let admin = Context { user: User { admin: true } };
    assert_eq!(get_item(&admin, &db, b"not json"), Err(ItemError::InvalidItemJson));
}

#[test]
fn get_item_requires_admin() {
    let mut db = ItemDb::new();
    db.insert(Item { id: 7, active: true }).unwrap();
    let guest = Context { user: User { admin: false } };
    assert_eq!(get_item(&guest, &db, b"7"), Err(ItemError::PermissionDenied));
}

#[test]
fn get_item_reports_missing_rows() {
    let db = ItemDb::new();
    let admin = Context { user: User { admin: true } };
    assert_eq!(get_item(&admin, &db, b"7"), Err(ItemError::ItemNotFound));
}

#[test]
fn get_item_fetches_the_named_row() {
    let mut db = ItemDb::new();
    db.insert(Item { id: 7, active: true }).unwrap();
    db.insert(Item { id: 8, active: false }).unwrap();
    let admin = Context { user: User { admin: true } };
    assert_eq!(get_item(&admin, &db, b"8"), Ok(Item { id: 8, active: false }));
}
