use crate::items::Item;
use crate::strmap::StrMap;
use vstd::prelude::*;
use vstd::string::StringExecFns;

verus! {

/// The message text reported when `id` is missing from the store.
pub open spec fn missing_item_message(id: Seq<char>) -> Seq<char> {
    "Item with ID '"@ + id + "' not found in the store"@
}

/// An error that carries a human-readable description of what failed.
#[derive(Debug, Clone)]
pub struct DetailedError {
    message: String,
}

impl View for DetailedError {
    type V = Seq<char>;

    closed spec fn view(&self) -> Seq<char> {
        self.message@
    }
}

impl DetailedError {
    /// The description of the failure; stands in for displaying the error.
    pub fn message(&self) -> (m: &String)
        ensures
            m@ == self@,
    {
        &self.message
    }
}

/// A keyed item store whose lookup failures describe themselves: a missing
/// id is reported with the id spelled out.
pub struct Store {
    items: StrMap<Item>,
}

impl View for Store {
    type V = Map<Seq<char>, Item>;

    closed spec fn view(&self) -> Map<Seq<char>, Item> {
        self.items@
    }
}

impl Store {
    /// The backing entries hold each id at most once.
    pub closed spec fn wf(self) -> bool {
        self.items.wf()
    }

    /// Creates an empty store.
    pub fn new() -> (s: Store)
        ensures
            s.wf(),
            s@ == Map::<Seq<char>, Item>::empty(),
    {
        Store { items: StrMap::new() }
    }

    /// Stores `item` under `id`, replacing what the id held before.
    pub fn insert(&mut self, id: String, item: Item)
        requires
            old(self).wf(),
        ensures
            final(self).wf(),
            final(self)@ == old(self)@.insert(id@, item),
    {
        self.items.insert(id, item);
    }

    /// Fetches the item stored under `id`; a miss names the id it looked
    /// for.
    pub fn get_item(&self, id: &str) -> (r: Result<Item, DetailedError>)
        requires
            self.wf(),
        ensures
            self@.contains_key(id@) ==> (r matches Ok(item) && item == self@[id@]),
            !self@.contains_key(id@) ==> (r matches Err(e) && e@ == missing_item_message(id@)),
    {
        match self.items.get(id) {
            Some(item) => Ok(*item),
            None => {
                let mut message: String = "Item with ID '".to_owned();
                message.append(id);
                message.append("' not found in the store");
                Err(DetailedError { message })
            },
        }
    }
}

} // verus!
