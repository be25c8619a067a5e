use vstd::prelude::*;
use crate::utils::strings::str_eq;

verus! {

pub type Amount = u8;

/// A number of items of one kind.
#[derive(Clone, Copy, Debug)]
pub struct InventoryItem {
    pub key: &'static str,
    pub amount: Amount,
}

/// A fixed number of slots, each empty or holding items of one kind.
#[derive(Clone, Debug)]
pub struct Inventory {
    pub items: Vec<Option<InventoryItem>>,
}

/// Whether slot `i` of `items` holds items of the kind `key`.
pub open spec fn holds_kind(items: Seq<Option<InventoryItem>>, key: Seq<char>, i: int) -> bool {
    0 <= i < items.len() && items[i] is Some && items[i]->0.key@ == key
}

/// Whether `i` is the first slot of `items` that holds items of the kind
/// `key`.
pub open spec fn first_of_kind(items: Seq<Option<InventoryItem>>, key: Seq<char>, i: int) -> bool {
    holds_kind(items, key, i) && forall|j: int| 0 <= j < i ==> !holds_kind(items, key, j)
}

/// Whether `i` is the first empty slot of `items`.
pub open spec fn first_empty(items: Seq<Option<InventoryItem>>, i: int) -> bool {
    0 <= i < items.len() && items[i] is None && forall|j: int| 0 <= j < i ==> items[j] is Some
}

/// Whether no slot of `items` holds items of the kind `key`.
pub open spec fn lacks_kind(items: Seq<Option<InventoryItem>>, key: Seq<char>) -> bool {
    forall|j: int| 0 <= j < items.len() ==> !holds_kind(items, key, j)
}

/// Whether every slot of `items` is taken.
pub open spec fn is_full(items: Seq<Option<InventoryItem>>) -> bool {
    forall|j: int| 0 <= j < items.len() ==> items[j] is Some
}

/// Whether `amount` more items of the kind `key` fit on the slot that
/// would take them.
pub open spec fn fits(items: Seq<Option<InventoryItem>>, key: Seq<char>, amount: Amount) -> bool {
    forall|i: int| first_of_kind(items, key, i) ==> items[i]->0.amount + amount <= Amount::MAX
}

/// The slots `items` after `amount` items of the kind `key` came in.
pub open spec fn received(
    items: Seq<Option<InventoryItem>>,
    key: &'static str,
    amount: Amount,
) -> Seq<Option<InventoryItem>> {
    if exists|i: int| first_of_kind(items, key@, i) {
        let i = choose|i: int| first_of_kind(items, key@, i);
        items.update(
            i,
            Some(InventoryItem { key: items[i]->0.key, amount: (items[i]->0.amount + amount) as u8 }),
        )
    } else if exists|i: int| first_empty(items, i) {
        let i = choose|i: int| first_empty(items, i);
        items.update(i, Some(InventoryItem { key, amount }))
    } else {
        items
    }
}

impl Inventory {
    /// An inventory of `slots` empty slots.
    pub fn new(slots: usize) -> (inv: Self)
        ensures
            inv.items@.len() == slots,
            forall|i: int| 0 <= i < slots ==> inv.items@[i] is None,
    {
        let mut items: Vec<Option<InventoryItem>> = Vec::with_capacity(slots);
        let mut n: usize = 0;
        while n < slots
            invariant
                n <= slots,
                items@.len() == n,
                forall|i: int| 0 <= i < n ==> items@[i] is None,
            decreases slots - n,
        {
            items.push(None);
            n += 1;
        }
        Self { items }
    }

    /// Takes `amount` items of the kind `key`: onto the first slot that
    /// holds that kind, else into the first empty slot; with neither, the
    /// items are dropped.
    pub fn try_receive(&mut self, key: &'static str, amount: Amount)
        requires
            fits(old(self).items@, key@, amount),
        ensures
            final(self).items@ == received(old(self).items@, key, amount),
    {
        let mut i: usize = 0;
        while i < self.items.len()
            invariant
                i <= self.items@.len(),
                self.items@ == old(self).items@,
                fits(old(self).items@, key@, amount),
                forall|j: int| 0 <= j < i ==> !holds_kind(self.items@, key@, j),
            decreases self.items@.len() - i,
        {
            let found = match &self.items[i] {
                Some(item) => str_eq(item.key, key),
                None => false,
            };
            if found {
                let item = self.items[i].unwrap();
                assert(first_of_kind(old(self).items@, key@, i as int));
                self.items.set(i, Some(InventoryItem { key: item.key, amount: item.amount + amount }));
                assert forall|k: int| first_of_kind(old(self).items@, key@, k) implies k == i by {
                    if k < i {
                        assert(!holds_kind(old(self).items@, key@, k));
                    } else if k > i {
                        assert(holds_kind(old(self).items@, key@, i as int));
                    }
                }
                return ;
            }
            i += 1;
        }
        let mut e: usize = 0;
        while e < self.items.len()
            invariant
                e <= self.items@.len(),
                self.items@ == old(self).items@,
                lacks_kind(self.items@, key@),
                forall|j: int| 0 <= j < e ==> self.items@[j] is Some,
            decreases self.items@.len() - e,
        {
            if self.items[e].is_none() {
                assert(first_empty(old(self).items@, e as int));
                self.items.set(e, Some(InventoryItem { key, amount }));
                assert forall|k: int| first_empty(old(self).items@, k) implies k == e by {
                    if k < e {
                        assert(old(self).items@[k] is Some);
                    } else if k > e {
                        assert(old(self).items@[e as int] is None);
                    }
                }
                assert forall|k: int| !first_of_kind(old(self).items@, key@, k) by {
                    if holds_kind(old(self).items@, key@, k) {
                        assert(!holds_kind(old(self).items@, key@, k));
                    }
                }
                return ;
            }
            e += 1;
        }
        proof {
            assert forall|k: int| !first_of_kind(old(self).items@, key@, k) by {
                if holds_kind(old(self).items@, key@, k) {
                    assert(!holds_kind(old(self).items@, key@, k));
                }
            }
            assert forall|k: int| !first_empty(old(self).items@, k) by {
                if 0 <= k < old(self).items@.len() {
                    assert(old(self).items@[k] is Some);
                }
            }
        }
    }
}

} // verus!
