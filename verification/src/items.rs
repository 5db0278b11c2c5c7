use vstd::prelude::*;

verus! {

/// Everything that can go wrong while resolving an item request.
#[derive(Clone, Copy, Debug, PartialEq, Eq, Structural)]
pub enum ItemError {
    InvalidItemJson,
    PermissionDenied,
    ItemNotFound,
    DuplicateItemId,
}

/// A stored unit of work: its numeric identity and whether it is live.
#[derive(Clone, Copy, Debug, PartialEq, Eq, Structural)]
pub struct Item {
    pub id: u64,
    pub active: bool,
}

/// The user a request runs for.
#[derive(Clone, Copy, Debug, PartialEq, Eq, Structural)]
pub struct User {
    pub admin: bool,
}

impl User {
    /// Whether the user may read arbitrary items.
    pub fn is_admin(&self) -> (r: bool)
        ensures
            r == self.admin,
    {
        self.admin
    }
}

/// Per-request context: who is asking.
#[derive(Clone, Copy, Debug, PartialEq, Eq, Structural)]
pub struct Context {
    pub user: User,
}

/// The user that a request context carries.
pub fn get_user_from_context(ctx: &Context) -> (u: &User)
    ensures
        *u == ctx.user,
{
    &ctx.user
}

/// True when `bytes` is a non-empty run of ASCII decimal digits.
pub open spec fn is_digits(bytes: Seq<u8>) -> bool {
    bytes.len() > 0 && forall|i: int| 0 <= i < bytes.len() ==> 48 <= #[trigger] bytes[i] <= 57
}

/// The number a run of ASCII decimal digits denotes.
pub open spec fn digits_value(bytes: Seq<u8>) -> nat
    decreases bytes.len(),
{
    if bytes.len() == 0 {
        0
    } else {
        digits_value(bytes.drop_last()) * 10 + (bytes.last() - 48) as nat
    }
}

/// A digit run denotes at least as much as any of its prefixes.
proof fn lemma_digits_value_prefix(bytes: Seq<u8>, n: int)
    requires
        0 <= n <= bytes.len(),
        forall|i: int| 0 <= i < bytes.len() ==> 48 <= #[trigger] bytes[i] <= 57,
    ensures
        digits_value(bytes.take(n)) <= digits_value(bytes),
    decreases bytes.len() - n,
{
    if n == bytes.len() {
        assert(bytes.take(n) =~= bytes);
    } else {
        lemma_digits_value_prefix(bytes, n + 1);
        assert(bytes.take(n + 1).drop_last() =~= bytes.take(n));
        assert(bytes.take(n + 1).last() == bytes[n]);
        assert(digits_value(bytes.take(n)) <= digits_value(bytes.take(n + 1)));
    }
}

impl Item {
    /// Parses the JSON body of an item request: a bare decimal number that
    /// names the requested item's id. The resulting order stands for a live
    /// item; anything but a representable digit run is rejected.
    pub fn from_json(json: &[u8]) -> (r: Result<Item, ItemError>)
        ensures
            is_digits(json@) && digits_value(json@) <= u64::MAX ==> (r matches Ok(item)
                && item.id == digits_value(json@) && item.active),
            !(is_digits(json@) && digits_value(json@) <= u64::MAX) ==> r == Err::<
                Item,
                ItemError,
            >(ItemError::InvalidItemJson),
    {
        let n = json.len();
        if n == 0 {
            return Err(ItemError::InvalidItemJson);
        }
        let mut value: u64 = 0;
        let mut i: usize = 0;
        while i < n
            invariant
                n == json@.len(),
                0 < n,
                i <= n,
                forall|j: int| 0 <= j < i ==> 48 <= #[trigger] json@[j] <= 57,
                value == digits_value(json@.take(i as int)),
            decreases n - i,
        {
            let b = json[i];
            if b < 48 || 57 < b {
                return Err(ItemError::InvalidItemJson);
            }
            let d = (b - 48) as u64;
            proof {
                assert(json@.take(i as int + 1).drop_last() =~= json@.take(i as int));
                assert(json@.take(i as int + 1).last() == json@[i as int]);
            }
            let step = match value.checked_mul(10) {
                Some(v10) => v10.checked_add(d),
                None => None,
            };
            match step {
                Some(v) => {
                    value = v;
                },
                None => {
                    proof {
                        assert(digits_value(json@.take(i as int + 1)) > u64::MAX);
                        if is_digits(json@) {
                            lemma_digits_value_prefix(json@, i as int + 1);
                        }
                    }
                    return Err(ItemError::InvalidItemJson);
                },
            }
            i = i + 1;
        }
        proof {
            assert(json@.take(n as int) =~= json@);
        }
        Ok(Item { id: value, active: true })
    }

    /// The id of the item this order refers to.
    pub fn item_id(&self) -> (r: u64)
        ensures
            r == self.id,
    {
        self.id
    }

    /// Whether the item is live.
    pub fn is_active(&self) -> (r: bool)
        ensures
            r == self.active,
    {
        self.active
    }
}

/// True when no two rows share an id.
pub open spec fn row_ids_distinct(rows: Seq<Item>) -> bool {
    forall|i: int, j: int| 0 <= i < j < rows.len() ==> rows[i].id != rows[j].id
}

/// True when some row carries `id`.
pub open spec fn has_row(rows: Seq<Item>, id: u64) -> bool {
    exists|i: int| 0 <= i < rows.len() && rows[i].id == id
}

/// The row carrying `id`, when one exists.
pub open spec fn row_for(rows: Seq<Item>, id: u64) -> Item {
    rows[choose|i: int| 0 <= i < rows.len() && rows[i].id == id]
}

/// The item table that request handlers read: an explicitly owned store
/// passed by reference, in place of a process-wide registry. Ids act as the
/// primary key: each appears in at most one row.
pub struct ItemDb {
    rows: Vec<Item>,
}

impl View for ItemDb {
    type V = Seq<Item>;

    closed spec fn view(&self) -> Seq<Item> {
        self.rows@
    }
}

impl ItemDb {
    /// Each id appears in at most one row.
    pub closed spec fn wf(self) -> bool {
        row_ids_distinct(self.rows@)
    }

    /// Creates an empty table.
    pub fn new() -> (db: ItemDb)
        ensures
            db.wf(),
            db@ == Seq::<Item>::empty(),
    {
        ItemDb { rows: Vec::new() }
    }

    /// Adds a row, refusing a duplicate id.
    pub fn insert(&mut self, item: Item) -> (r: Result<(), ItemError>)
        requires
            old(self).wf(),
        ensures
            final(self).wf(),
            has_row(old(self)@, item.id) ==> r == Err::<(), ItemError>(ItemError::DuplicateItemId)
                && final(self)@ == old(self)@,
            !has_row(old(self)@, item.id) ==> r is Ok && final(self)@ == old(self)@.push(item),
    {
        match self.get(item.id) {
            Some(_) => Err(ItemError::DuplicateItemId),
            None => {
                self.rows.push(item);
                proof {
                    assert forall|a: int, b: int|
                        0 <= a < b < self.rows@.len() implies self.rows@[a].id
                        != self.rows@[b].id by {
                        if b < old(self).rows@.len() {
                            assert(self.rows@[a] == old(self).rows@[a]);
                            assert(self.rows@[b] == old(self).rows@[b]);
                        } else {
                            assert(self.rows@[a] == old(self).rows@[a]);
                            if old(self).rows@[a].id == item.id {
                                assert(has_row(old(self)@, item.id));
                            }
                        }
                    }
                }
                Ok(())
            },
        }
    }

    /// Looks the row with `id` up.
    pub fn get(&self, id: u64) -> (r: Option<&Item>)
        requires
            self.wf(),
        ensures
            r is Some <==> has_row(self@, id),
            r matches Some(item) ==> has_row(self@, id) && *item == row_for(self@, id)
                && item.id == id,
    {
        let n = self.rows.len();
        let mut i: usize = 0;
        while i < n
            invariant
                self.wf(),
                n == self.rows@.len(),
                i <= n,
                forall|j: int| 0 <= j < i ==> self.rows@[j].id != id,
            decreases n - i,
        {
            if self.rows[i].id == id {
                proof {
                    assert(has_row(self@, id));
                    let j = choose|j: int| 0 <= j < self.rows@.len() && self.rows@[j].id == id;
                    if j < i {
                        assert(self.rows@[j].id != self.rows@[i as int].id);
                    } else if i < j {
                        assert(self.rows@[i as int].id != self.rows@[j].id);
                    }
                }
                return Some(&self.rows[i]);
            }
            i = i + 1;
        }
        None
    }
}

/// What resolving an item request yields: a malformed body is rejected
/// first, then the caller's privileges are checked, then the table is
/// consulted.
pub open spec fn spec_get_item(ctx: Context, rows: Seq<Item>, json: Seq<u8>) -> Result<
    Item,
    ItemError,
> {
    if !(is_digits(json) && digits_value(json) <= u64::MAX) {
        Err(ItemError::InvalidItemJson)
    } else if !ctx.user.admin {
        Err(ItemError::PermissionDenied)
    } else if !has_row(rows, digits_value(json) as u64) {
        Err(ItemError::ItemNotFound)
    } else {
        Ok(row_for(rows, digits_value(json) as u64))
    }
}

/// Resolves an item request: parses the order, lets only an administrator
/// read, and fetches the named row from the table.
pub fn get_item(ctx: &Context, db: &ItemDb, json: &[u8]) -> (r: Result<Item, ItemError>)
    requires
        db.wf(),
    ensures
        r == spec_get_item(*ctx, db@, json@),
{
    let order = match Item::from_json(json) {
        Ok(order) => order,
        Err(e) => {
            return Err(e);
        },
    };
    if !get_user_from_context(ctx).is_admin() {
        return Err(ItemError::PermissionDenied);
    }
    match db.get(order.item_id()) {
        Some(item) => Ok(*item),
        None => Err(ItemError::ItemNotFound),
    }
}

} // verus!
