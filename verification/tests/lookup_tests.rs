use relay::items::Item;
use relay::lookup::{
    get_item, get_item_by_reference, get_item_from_cache, get_reference, LookupError,
};
use relay::strmap::StrMap;

fn caches() -> (StrMap<String>, StrMap<Item>) {
    let mut references: StrMap<String> = StrMap::new();
    references.insert("json".to_string(), "ref-json".to_string());
    references.insert("yaml".to_string(), "ref-yaml".to_string());
    let mut items: StrMap<Item> = StrMap::new();
    items.insert("ref-json".to_string(), Item { id: 1, active: true });
    items.insert("ref-yaml".to_string(), Item { id: 2, active: false });
    (references, items)
}

#[test]
fn get_reference_finds_cached_references() {
    let (references, _) = caches();
    assert_eq!(get_reference("json", &references).unwrap(), "ref-json");
    assert_eq!(get_reference("toml", &references), Err(LookupError::ReferenceNotFound));
}

#[test]
fn get_item_from_cache_reports_misses() {
    let (_, items) = caches();
    assert_eq!(get_item_from_cache("ref-json", &items).unwrap().id, 1);
    assert_eq!(get_item_from_cache("ref-toml", &items), Err(LookupError::ItemNotFound));
}

#[test]
fn get_item_by_reference_refuses_inactive_items() {
    let (_, items) = caches();
    assert_eq!(get_item_by_reference("ref-yaml", &items), Err(LookupError::ItemInactive));
    assert_eq!(get_item_by_reference("ref-json", &items).unwrap().id, 1);
}

#[test]
fn get_item_resolves_the_whole_chain() {
    let (references, items) = caches();
    assert_eq!(get_item("json", &references, &items), Ok(Item { id: 1, active: true }));
    assert_eq!(get_item("yaml", &references, &items), Err(LookupError::ItemInactive));
    assert_eq!(get_item("toml", &references, &items), Err(LookupError::ReferenceNotFound));
}

#[test]
fn get_item_reports_a_dangling_reference() {
    let mut references: StrMap<String> = StrMap::new();
    references.insert("json".to_string(), "ref-gone".to_string());
    let items: StrMap<Item> = StrMap::new();
    assert_eq!(get_item("json", &references, &items), Err(LookupError::ItemNotFound));
}
