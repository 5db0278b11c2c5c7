use relay::detailed;
use relay::items::Item;
use relay::store::{Store, StoreError};

#[test]
fn store_returns_stored_item() {
    let mut store = Store::new();
    store.insert("alpha".to_string(), Item { id: 1, active: true });
    store.insert("beta".to_string(), Item { id: 2, active: false });
    let item = store.get_item("alpha").unwrap();
    assert_eq!(item.id, 1);
    assert!(item.active);
    let item = store.get_item("beta").unwrap();
    assert_eq!(item.id, 2);
    assert!(!item.active);
}

#[test]
fn store_reports_missing_item() {
    let mut store = Store::new();
    store.insert("alpha".to_string(), Item { id: 1, active: true });
    let err = store.get_item("gamma").unwrap_err();
    assert!(matches!(err, StoreError::ItemNotFound));
}

#[test]
fn store_insert_replaces_existing_id() {
    let mut store = Store::new();
    store.insert("alpha".to_string(), Item { id: 1, active: true });
    store.insert("alpha".to_string(), Item { id: 9, active: false });
    let item = store.get_item("alpha").unwrap();
    assert_eq!(item.id, 9);
    assert!(!item.active);
}

#[test]
fn detailed_store_returns_stored_item() {
    let mut store = detailed::Store::new();
    store.insert("alpha".to_string(), Item { id: 1, active: true });
    let item = store.get_item("alpha").unwrap();
    assert_eq!(item.id, 1);
}

#[test]
fn detailed_store_spells_out_the_missing_id() {
    let store = detailed::Store::new();
    let err = store.get_item("widget-7").unwrap_err();
    assert_eq!(err.message().as_str(), "Item with ID 'widget-7' not found in the store");
}
