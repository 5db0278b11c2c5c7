use crate::items::Item;
use crate::strmap::StrMap;
use vstd::prelude::*;

verus! {

/// The error a plain store lookup reports: only that the item was missing.
#[derive(Debug, Clone)]
pub enum StoreError {
    ItemNotFound,
}

/// A keyed item store with a coarse error: a failed lookup says only that
/// the item could not be found.
pub struct Store {
    items: StrMap<Item>,
}

impl View for Store {
    type V = Map<Seq<char>, Item>;

    closed spec fn view(&self) -> Map<Seq<char>, Item> {
        self.items@
    }
}

impl Store {
    /// The backing entries hold each id at most once.
    pub closed spec fn wf(self) -> bool {
        self.items.wf()
    }

    /// Creates an empty store.
    pub fn new() -> (s: Store)
        ensures
            s.wf(),
            s@ == Map::<Seq<char>, Item>::empty(),
    {
        Store { items: StrMap::new() }
    }

    /// Stores `item` under `id`, replacing what the id held before.
    pub fn insert(&mut self, id: String, item: Item)
        requires
            old(self).wf(),
        ensures
            final(self).wf(),
            final(self)@ == old(self)@.insert(id@, item),
    {
        self.items.insert(id, item);
    }

    /// Fetches the item stored under `id`.
    pub fn get_item(&self, id: &str) -> (r: Result<Item, StoreError>)
        requires
            self.wf(),
        ensures
            self@.contains_key(id@) ==> (r matches Ok(item) && item == self@[id@]),
            !self@.contains_key(id@) ==> r == Err::<Item, StoreError>(StoreError::ItemNotFound),
    {
        match self.items.get(id) {
            Some(item) => Ok(*item),
            None => Err(StoreError::ItemNotFound),
        }
    }
}

} // verus!
