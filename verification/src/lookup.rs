use crate::items::Item;
use crate::strmap::StrMap;
use vstd::prelude::*;

verus! {

/// Why a reference-chain lookup failed.
#[derive(Clone, Copy, Debug, PartialEq, Eq, Structural)]
pub enum LookupError {
    ReferenceNotFound,
    ItemNotFound,
    ItemInactive,
}

/// What resolving `extension` through the two caches yields: the reference
/// cache names the item, the item cache holds it, and only a live item is
/// handed out.
pub open spec fn spec_lookup(
    references: Map<Seq<char>, String>,
    items: Map<Seq<char>, Item>,
    extension: Seq<char>,
) -> Result<Item, LookupError> {
    if !references.contains_key(extension) {
        Err(LookupError::ReferenceNotFound)
    } else if !items.contains_key(references[extension]@) {
        Err(LookupError::ItemNotFound)
    } else if !items[references[extension]@].active {
        Err(LookupError::ItemInactive)
    } else {
        Ok(items[references[extension]@])
    }
}

/// The reference the cache holds for `extension`.
pub fn get_reference(extension: &str, references: &StrMap<String>) -> (r: Result<
    String,
    LookupError,
>)
    requires
        references.wf(),
    ensures
        references@.contains_key(extension@) ==> (r matches Ok(s) && s@
            == references@[extension@]@),
        !references@.contains_key(extension@) ==> r == Err::<String, LookupError>(
            LookupError::ReferenceNotFound,
        ),
{
    match references.get(extension) {
        Some(s) => Ok(s.clone()),
        None => Err(LookupError::ReferenceNotFound),
    }
}

/// The item the cache holds under `reference`.
pub fn get_item_from_cache(reference: &str, items: &StrMap<Item>) -> (r: Result<
    Item,
    LookupError,
>)
    requires
        items.wf(),
    ensures
        items@.contains_key(reference@) ==> (r matches Ok(item) && item == items@[reference@]),
        !items@.contains_key(reference@) ==> r == Err::<Item, LookupError>(
            LookupError::ItemNotFound,
        ),
{
    match items.get(reference) {
        Some(item) => Ok(*item),
        None => Err(LookupError::ItemNotFound),
    }
}

/// The cached item under `reference`, provided it is still live.
pub fn get_item_by_reference(reference: &str, items: &StrMap<Item>) -> (r: Result<
    Item,
    LookupError,
>)
    requires
        items.wf(),
    ensures
        !items@.contains_key(reference@) ==> r == Err::<Item, LookupError>(
            LookupError::ItemNotFound,
        ),
        items@.contains_key(reference@) && !items@[reference@].active ==> r == Err::<
            Item,
            LookupError,
        >(LookupError::ItemInactive),
        items@.contains_key(reference@) && items@[reference@].active ==> r == Ok::<
            Item,
            LookupError,
        >(items@[reference@]),
{
    let item = match get_item_from_cache(reference, items) {
        Ok(item) => item,
        Err(e) => {
            return Err(e);
        },
    };
    if !item.is_active() {
        return Err(LookupError::ItemInactive);
    }
    Ok(item)
}

/// Resolves an extension to its live item through the two caches.
pub fn get_item(extension: &str, references: &StrMap<String>, items: &StrMap<Item>) -> (r:
    Result<Item, LookupError>)
    requires
        references.wf(),
        items.wf(),
    ensures
        r == spec_lookup(references@, items@, extension@),
{
    let reference = match get_reference(extension, references) {
        Ok(reference) => reference,
        Err(e) => {
            return Err(e);
        },
    };
    get_item_by_reference(reference.as_str(), items)
}

} // verus!
