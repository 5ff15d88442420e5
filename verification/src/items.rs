//! Item service: CRUD over a list of task items.
//!
//! Items are kept in insertion order; ids come from a monotonically
//! increasing counter. Lookups return the first item with a matching id,
//! deletion removes every item with the id and keeps the order of the rest.

use vstd::prelude::*;

verus! {

/// Mathematical image of one item.
pub ghost struct ItemModel {
    pub id: u32,
    pub title: Seq<char>,
    pub description: Seq<char>,
    pub done: bool,
}

/// Item data model.
pub struct Item {
    pub id: u32,
    pub title: String,
    pub description: String,
    pub done: bool,
}

impl View for Item {
    type V = ItemModel;

    open spec fn view(&self) -> ItemModel {
        ItemModel {
            id: self.id,
            title: self.title@,
            description: self.description@,
            done: self.done,
        }
    }
}

/// The items a sequence of records stands for, in order.
pub open spec fn items_view(s: Seq<Item>) -> Seq<ItemModel> {
    Seq::new(s.len(), |i: int| s[i]@)
}

/// `s` without the items carrying `id`, order otherwise kept.
pub open spec fn spec_without_id(s: Seq<ItemModel>, id: u32) -> Seq<ItemModel>
    decreases s.len(),
{
    if s.len() == 0 {
        Seq::empty()
    } else if s.last().id == id {
        spec_without_id(s.drop_last(), id)
    } else {
        spec_without_id(s.drop_last(), id).push(s.last())
    }
}

/// Returns a fresh record equal to `item` field for field.
fn clone_item(item: &Item) -> (r: Item)
    ensures
        r@ == item@,
{
    Item {
        id: item.id,
        title: item.title.clone(),
        description: item.description.clone(),
        done: item.done,
    }
}

/// Item service interface, specified against the ordered sequence of stored
/// items and the id counter the next created item receives.
pub trait ItemService: Sized {
    /// The service's internal invariant.
    spec fn inv(&self) -> bool;

    /// The stored items, in order.
    spec fn model(&self) -> Seq<ItemModel>;

    /// The id the next created item receives.
    spec fn next_id(&self) -> u32;

    /// Returns a copy of every item, in order.
    fn list_all(&self) -> (items: Vec<Item>)
        requires
            self.inv(),
        ensures
            items_view(items@) == self.model(),
    ;

    /// Returns a copy of the first item with this id, or nothing.
    fn get_by_id(&self, id: u32) -> (result: Option<Item>)
        requires
            self.inv(),
        ensures
            match result {
                Some(item) => exists|i: int|
                    {
                        &&& 0 <= i < self.model().len()
                        &&& #[trigger] self.model()[i].id == id
                        &&& item@ == self.model()[i]
                        &&& forall|j: int| 0 <= j < i ==> self.model()[j].id != id
                    },
                None => forall|i: int| 0 <= i < self.model().len() ==> self.model()[i].id != id,
            },
    ;

    /// Appends a new, not-done item under the next id and returns a copy.
    fn create(&mut self, title: String, description: String) -> (item: Item)
        requires
            old(self).inv(),
            old(self).next_id() < u32::MAX,
        ensures
            final(self).inv(),
            item@ == (ItemModel {
                id: old(self).next_id(),
                title: title@,
                description: description@,
                done: false,
            }),
            final(self).model() == old(self).model().push(item@),
            final(self).next_id() == old(self).next_id() + 1,
    ;

    /// Flips the done flag of the first item with this id and returns a copy
    /// of the updated item; nothing changes when the id is unknown.
    fn toggle_done(&mut self, id: u32) -> (result: Option<Item>)
        requires
            old(self).inv(),
        ensures
            final(self).inv(),
            final(self).next_id() == old(self).next_id(),
            match result {
                Some(item) => exists|i: int|
                    {
                        &&& 0 <= i < old(self).model().len()
                        &&& #[trigger] old(self).model()[i].id == id
                        &&& forall|j: int| 0 <= j < i ==> old(self).model()[j].id != id
                        &&& item@ == (ItemModel { done: !old(self).model()[i].done, ..old(self).model()[i] })
                        &&& final(self).model() == old(self).model().update(i, item@)
                    },
                None => final(self).model() == old(self).model() && forall|i: int|
                    0 <= i < old(self).model().len() ==> old(self).model()[i].id != id,
            },
    ;

    /// Removes every item with this id, keeping the order of the rest;
    /// returns whether anything was removed.
    fn delete(&mut self, id: u32) -> (removed: bool)
        requires
            old(self).inv(),
        ensures
            final(self).inv(),
            final(self).next_id() == old(self).next_id(),
            final(self).model() == spec_without_id(old(self).model(), id),
            removed == exists|i: int|
                0 <= i < old(self).model().len() && #[trigger] old(self).model()[i].id == id,
    ;
}

/// In-memory item storage (good for prototyping, tests).
pub struct InMemoryItemService {
    items: Vec<Item>,
    next_id: u32,
}

/// The three example items a fresh in-memory service is seeded with.
pub open spec fn seed_items() -> Seq<ItemModel> {
    seq![
        ItemModel { id: 1, title: "Set up project"@, description: "Scaffold the page and fragment routes"@, done: true },
        ItemModel { id: 2, title: "Add database"@, description: "Integrate SQLite or Postgres"@, done: false },
        ItemModel { id: 3, title: "Deploy"@, description: "Containerize and ship to production"@, done: false },
    ]
}

impl InMemoryItemService {
    /// A service seeded with example data; the next id is 4.
    pub fn new() -> (service: Self)
        ensures
            service.inv(),
            service.model() == seed_items(),
            service.next_id() == 4,
    {
        let mut items: Vec<Item> = Vec::new();
        items.push(Item {
            id: 1,
            title: "Set up project".to_owned(),
            description: "Scaffold the page and fragment routes".to_owned(),
            done: true,
        });
        items.push(Item {
            id: 2,
            title: "Add database".to_owned(),
            description: "Integrate SQLite or Postgres".to_owned(),
            done: false,
        });
        items.push(Item {
            id: 3,
            title: "Deploy".to_owned(),
            description: "Containerize and ship to production".to_owned(),
            done: false,
        });
        let service = InMemoryItemService { items, next_id: 4 };
        proof {
            assert(items_view(service.items@) =~= seed_items());
        }
        service
    }
}

impl Default for InMemoryItemService {
    fn default() -> (service: Self)
        ensures
            service.inv(),
            service.model() == seed_items(),
            service.next_id() == 4,
    {
        Self::new()
    }
}

impl ItemService for InMemoryItemService {
    closed spec fn inv(&self) -> bool {
        true
    }

    closed spec fn model(&self) -> Seq<ItemModel> {
        items_view(self.items@)
    }

    closed spec fn next_id(&self) -> u32 {
        self.next_id
    }

    fn list_all(&self) -> (items: Vec<Item>) {
        let mut items: Vec<Item> = Vec::new();
        let mut i: usize = 0;
        while i < self.items.len()
            invariant
                i <= self.items@.len(),
                items_view(items@) == items_view(self.items@).subrange(0, i as int),
            decreases self.items@.len() - i,
        {
            let ghost pre = items@;
            items.push(clone_item(&self.items[i]));
            proof {
                assert(items_view(pre).len() == pre.len());
                assert(forall|j: int| 0 <= j < i ==> items_view(items@)[j] == items_view(pre)[j]);
                assert(items_view(items@) =~= items_view(self.items@).subrange(0, i as int + 1));
            }
            i = i + 1;
        }
        proof {
            assert(items_view(self.items@).subrange(0, self.items@.len() as int)
                =~= items_view(self.items@));
        }
        items
    }

    fn get_by_id(&self, id: u32) -> (result: Option<Item>) {
        let mut i: usize = 0;
        while i < self.items.len()
            invariant
                i <= self.items@.len(),
                forall|j: int| 0 <= j < i ==> items_view(self.items@)[j].id != id,
            decreases self.items@.len() - i,
        {
            if self.items[i].id == id {
                let item = clone_item(&self.items[i]);
                proof {
                    assert(self.model()[i as int].id == id);
                    assert(item@ == self.model()[i as int]);
                    assert(forall|j: int| 0 <= j < i ==> self.model()[j].id != id);
                }
                return Some(item);
            }
            i = i + 1;
        }
        None
    }

    fn create(&mut self, title: String, description: String) -> (item: Item) {
        let item = Item { id: self.next_id, title, description, done: false };
        let stored = clone_item(&item);
        let ghost pre = self.items@;
        self.items.push(stored);
        self.next_id = self.next_id + 1;
        proof {
            assert(items_view(self.items@) =~= items_view(pre).push(item@));
        }
        item
    }

    fn toggle_done(&mut self, id: u32) -> (result: Option<Item>) {
        let mut i: usize = 0;
        loop
            invariant_except_break
                i <= self.items@.len(),
            invariant
                self == old(self),
                forall|j: int| 0 <= j < i ==> items_view(self.items@)[j].id != id,
            ensures
                i < self.items@.len(),
                items_view(self.items@)[i as int].id == id,
            decreases self.items@.len() - i,
        {
            if i == self.items.len() {
                return None;
            }
            if self.items[i].id == id {
                break;
            }
            i = i + 1;
        }
        let ghost pre = self.items@;
        let mut item = self.items.remove(i);
        item.done = !item.done;
        let copy = clone_item(&item);
        self.items.insert(i, item);
        proof {
            assert(items_view(self.items@) =~= items_view(pre).update(i as int, copy@));
            assert(old(self).model()[i as int].id == id);
            assert(copy@ == (ItemModel {
                done: !old(self).model()[i as int].done,
                ..old(self).model()[i as int]
            }));
            assert(final(self).model() == old(self).model().update(i as int, copy@));
            assert(forall|j: int| 0 <= j < i ==> old(self).model()[j].id != id);
        }
        Some(copy)
    }

    fn delete(&mut self, id: u32) -> (removed: bool) {
        let mut kept: Vec<Item> = Vec::new();
        let mut removed = false;
        let mut i: usize = 0;
        while i < self.items.len()
            invariant
                i <= self.items@.len(),
                items_view(kept@) == spec_without_id(items_view(self.items@).subrange(0, i as int), id),
                removed == exists|j: int|
                    0 <= j < i && #[trigger] items_view(self.items@)[j].id == id,
            decreases self.items@.len() - i,
        {
            let ghost prefix = items_view(self.items@).subrange(0, i as int);
            proof {
                assert(items_view(self.items@).subrange(0, i as int + 1).drop_last() =~= prefix);
                assert(items_view(self.items@).subrange(0, i as int + 1).last()
                    == items_view(self.items@)[i as int]);
            }
            if self.items[i].id == id {
                removed = true;
                proof {
                    assert(items_view(self.items@)[i as int].id == id);
                }
            } else {
                let ghost pre = kept@;
                kept.push(clone_item(&self.items[i]));
                proof {
                    assert(items_view(pre).len() == pre.len());
                    assert(forall|j: int| 0 <= j < pre.len() ==> items_view(kept@)[j]
                        == items_view(pre)[j]);
                    assert(items_view(kept@) =~= items_view(pre).push(items_view(self.items@)[i as int]));
                }
            }
            i = i + 1;
        }
        proof {
            assert(items_view(self.items@).subrange(0, self.items@.len() as int)
                =~= items_view(self.items@));
        }
        let ghost orig = items_view(self.items@);
        self.items = kept;
        proof {
            assert(self.model() == spec_without_id(orig, id));
            if removed {
                let j = choose|j: int| 0 <= j < orig.len() && #[trigger] orig[j].id == id;
                assert(old(self).model()[j].id == id);
            }
        }
        removed
    }
}

} // verus!
