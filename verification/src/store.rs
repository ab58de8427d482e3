//! The store itself: a list of slots, one per type identity.

use crate::erased::{
    erased_plain, erased_tag, same_id, type_id_of, type_key, Erased, Storable,
};
use std::any::TypeId;
use vstd::prelude::*;

verus! {

/// The store as contracts see it: for each type identity present, the erased value
/// kept under it.
pub type Model = Map<TypeId, Erased>;

/// Every entry of `m` sits under the identity of its own type, and there are
/// finitely many.
pub open spec fn model_ok(m: Model) -> bool {
    &&& m.dom().finite()
    &&& forall|k: TypeId| #[trigger] m.contains_key(k) ==> erased_tag(m[k]) == k
}

/// A value of type `T` is present in `m`.
pub open spec fn holds<T: Storable>(m: Model) -> bool {
    m.contains_key(type_key::<T>())
}

/// The data of the value of type `T` in `m`, where one is present.
pub open spec fn plain_of<T: Storable>(m: Model) -> Seq<int> {
    erased_plain(m[type_key::<T>()])
}

/// What looking for a value of type `T` in `m` finds: the data of the value, if
/// one is present.
pub open spec fn lookup<T: Storable>(m: Model) -> Option<Seq<int>> {
    if holds::<T>(m) {
        Some(plain_of::<T>(m))
    } else {
        None
    }
}

/// `after` is `before` with a value of data `p` put in as the value of type `T`: the
/// entry for `T` carries `p`, whether or not there was one before, and every other
/// entry is as it was.
pub open spec fn stored<T: Storable>(before: Model, after: Model, p: Seq<int>) -> bool {
    &&& after == before.insert(type_key::<T>(), after[type_key::<T>()])
    &&& erased_tag(after[type_key::<T>()]) == type_key::<T>()
    &&& plain_of::<T>(after) == p
}

/// `after` is `before` without its entry for `T`; every other entry is as it was.
pub open spec fn removed<T: Storable>(before: Model, after: Model) -> bool {
    after == before.remove(type_key::<T>())
}

/// What a caller outside the reach of the contracts is told when it asks for a value
/// that must be present and is not.
const ABSENT: &'static str = "required type is not present in GothamStore container";

#[derive(Debug)]
struct Slot {
    id: TypeId,
    value: Erased,
}

/// A container that holds at most one value of each type.
#[derive(Debug)]
pub struct GothamStore {
    slots: Vec<Slot>,
}

impl GothamStore {
    spec fn ids(&self) -> Seq<TypeId> {
        self.slots@.map_values(|s: Slot| s.id)
    }

    /// The entries of the store.
    pub closed spec fn view(&self) -> Model {
        Map::new(
            |k: TypeId| self.ids().contains(k),
            |k: TypeId| self.slots@[self.ids().index_of(k)].value,
        )
    }

    /// The representation invariant: no identity occupies two slots, and each slot
    /// holds a value of the type it is filed under.
    pub closed spec fn wf(&self) -> bool {
        &&& self.ids().no_duplicates()
        &&& forall|i: int|
            0 <= i < self.slots@.len() ==> erased_tag(#[trigger] self.slots@[i].value)
                == self.slots@[i].id
    }

    /// In a well-formed store, slot `i` is the entry for its identity.
    proof fn lemma_slot(&self, i: int)
        requires
            self.wf(),
            0 <= i < self.slots@.len(),
        ensures
            self@.contains_key(self.slots@[i].id),
            self@[self.slots@[i].id] == self.slots@[i].value,
    {
        let ids = self.ids();
        assert(ids[i] == self.slots@[i].id);
        assert(ids.contains(ids[i]));
        let j = ids.index_of(ids[i]);
        assert(0 <= j < ids.len() && ids[j] == ids[i]);
    }

    /// An identity is present exactly when some slot carries it.
    proof fn lemma_present(&self, k: TypeId)
        ensures
            self@.contains_key(k) <==> exists|i: int|
                0 <= i < self.slots@.len() && #[trigger] self.slots@[i].id == k,
    {
        let ids = self.ids();
        if self@.contains_key(k) {
            let i = choose|i: int| 0 <= i < ids.len() && ids[i] == k;
            assert(self.slots@[i].id == k);
        }
        if exists|i: int| 0 <= i < self.slots@.len() && #[trigger] self.slots@[i].id == k {
            let i = choose|i: int| 0 <= i < self.slots@.len() && #[trigger] self.slots@[i].id == k;
            assert(ids[i] == k);
        }
    }

    /// A well-formed store has a well-formed model, with one entry per slot.
    proof fn lemma_model(&self)
        requires
            self.wf(),
        ensures
            model_ok(self@),
            self@.dom().len() == self.slots@.len(),
    {
        let ids = self.ids();
        assert(self@.dom() =~= ids.to_set());
        ids.unique_seq_to_set();
        vstd::seq_lib::seq_to_set_is_finite(ids);
        assert forall|k: TypeId| #[trigger] self@.contains_key(k) implies erased_tag(self@[k])
            == k by {
            let i = ids.index_of(k);
            assert(0 <= i < ids.len() && ids[i] == k);
            self.lemma_slot(i);
        }
    }

    /// `self` is `before` with the value of slot `i` exchanged for another of the same
    /// type.
    spec fn replaces(&self, before: &GothamStore, i: int) -> bool {
        &&& 0 <= i < before.slots@.len()
        &&& self.slots@.len() == before.slots@.len()
        &&& forall|j: int|
            0 <= j < before.slots@.len() && j != i ==> self.slots@[j] == before.slots@[j]
        &&& self.slots@[i].id == before.slots@[i].id
        &&& erased_tag(self.slots@[i].value) == before.slots@[i].id
    }

    /// Exchanging the value of a slot rewrites that one entry of the model.
    proof fn lemma_replaces(&self, before: &GothamStore, i: int)
        requires
            before.wf(),
            self.replaces(before, i),
        ensures
            self.wf(),
            self@ == before@.insert(before.slots@[i].id, self.slots@[i].value),
    {
        let id = before.slots@[i].id;
        assert(self.ids() =~= before.ids());
        self.lemma_slot(i);
        assert forall|k: TypeId| k != id && #[trigger] before@.contains_key(k) implies self@[k]
            == before@[k] by {
            let j = before.ids().index_of(k);
            assert(0 <= j < before.ids().len() && before.ids()[j] == k);
        }
        assert(self@ =~= before@.insert(id, self.slots@[i].value));
    }

    /// Appending a slot for an identity not yet present adds that entry to the model.
    proof fn lemma_appends(&self, before: &GothamStore, slot: Slot)
        requires
            before.wf(),
            !before@.contains_key(slot.id),
            erased_tag(slot.value) == slot.id,
            self.slots@ == before.slots@.push(slot),
        ensures
            self.wf(),
            self@ == before@.insert(slot.id, slot.value),
    {
        let n = before.slots@.len() as int;
        assert(self.ids() =~= before.ids().push(slot.id));
        before.lemma_present(slot.id);
        assert(self.ids().no_duplicates());
        self.lemma_slot(n);
        assert forall|k: TypeId| #[trigger] before@.contains_key(k) implies self@.contains_key(k)
            && self@[k] == before@[k] by {
            let j = before.ids().index_of(k);
            assert(0 <= j < before.ids().len() && before.ids()[j] == k);
            assert(self.ids()[j] == k);
            self.lemma_slot(j);
        }
        assert forall|k: TypeId| #[trigger] self@.contains_key(k) implies k == slot.id
            || before@.contains_key(k) by {
            let j = self.ids().index_of(k);
            assert(0 <= j < self.ids().len() && self.ids()[j] == k);
            if j < n {
                assert(before.ids()[j] == k);
            }
        }
        assert(self@ =~= before@.insert(slot.id, slot.value));
    }

    /// Dropping slot `i` drops its entry from the model.
    proof fn lemma_drops(&self, before: &GothamStore, i: int)
        requires
            before.wf(),
            0 <= i < before.slots@.len(),
            self.slots@ == before.slots@.remove(i),
        ensures
            self.wf(),
            self@ == before@.remove(before.slots@[i].id),
    {
        let id = before.slots@[i].id;
        let old_ids = before.ids();
        let new_ids = self.ids();
        old_ids.remove_ensures(i);
        before.slots@.remove_ensures(i);
        assert(new_ids =~= old_ids.remove(i));
        assert(old_ids[i] == id);
        assert forall|a: int, b: int|
            0 <= a < new_ids.len() && 0 <= b < new_ids.len() && a != b implies new_ids[a]
            != new_ids[b] by {
            let a0 = if a < i { a } else { a + 1 };
            let b0 = if b < i { b } else { b + 1 };
            assert(new_ids[a] == old_ids[a0] && new_ids[b] == old_ids[b0]);
        }
        assert(self.wf());
        assert forall|k: TypeId| #[trigger] self@.contains_key(k) implies k != id
            && before@.contains_key(k) && self@[k] == before@[k] by {
            let j = new_ids.index_of(k);
            assert(0 <= j < new_ids.len() && new_ids[j] == k);
            let j0 = if j < i { j } else { j + 1 };
            assert(old_ids[j0] == k);
            self.lemma_slot(j);
            before.lemma_slot(j0);
        }
        assert forall|k: TypeId| k != id && #[trigger] before@.contains_key(k) implies self@.contains_key(k) by {
            let j0 = old_ids.index_of(k);
            assert(0 <= j0 < old_ids.len() && old_ids[j0] == k);
            let j = if j0 < i { j0 } else { j0 - 1 };
            assert(new_ids[j] == k);
        }
        assert(self@ =~= before@.remove(id));
    }

    /// A well-formed store has a well-formed model.
    pub proof fn lemma_model_ok(&self)
        requires
            self.wf(),
        ensures
            model_ok(self@),
    {
        self.lemma_model();
    }

    /// The slot that carries `id`, if there is one.
    fn position(&self, id: &TypeId) -> (r: Option<usize>)
        ensures
            match r {
                Some(i) => i < self.slots@.len() && self.slots@[i as int].id == *id
                    && self@.contains_key(*id),
                None => !self@.contains_key(*id),
            },
    {
        let mut i: usize = 0;
        while i < self.slots.len()
            invariant
                i <= self.slots@.len(),
                forall|j: int| 0 <= j < i ==> self.slots@[j].id != *id,
            decreases self.slots@.len() - i,
        {
            if same_id(&self.slots[i].id, id) {
                proof {
                    self.lemma_present(*id);
                }
                return Some(i);
            }
            i += 1;
        }
        proof {
            self.lemma_present(*id);
        }
        None
    }

    /// An empty store.
    pub fn new() -> (s: GothamStore)
        ensures
            s.wf(),
            s@ == Model::empty(),
    {
        let s = GothamStore { slots: Vec::new() };
        proof {
            assert(s.ids() =~= Seq::empty());
            assert(s@ =~= Model::empty());
        }
        s
    }

    /// Determines whether a value of type `T` is present.
    pub fn has<T: Storable>(&self) -> (r: bool)
        ensures
            r == holds::<T>(self@),
    {
        let id = type_id_of::<T>();
        self.position(&id).is_some()
    }

    /// Puts a value into the store. One value of each type is retained: a value of
    /// type `T` that was there before is dropped and replaced.
    pub fn put<T: Storable>(&mut self, t: T)
        requires
            old(self).wf(),
        ensures
            final(self).wf(),
            stored::<T>(old(self)@, final(self)@, t.plain()),
    {
        let id = type_id_of::<T>();
        let value = Erased::new(t);
        let ghost before = *self;
        match self.position(&id) {
            Some(i) => {
                self.slots[i] = Slot { id, value };
                proof {
                    self.lemma_replaces(&before, i as int);
                }
            },
            None => {
                self.slots.push(Slot { id, value });
                proof {
                    self.lemma_appends(&before, Slot { id, value });
                }
            },
        }
    }

    /// Tries to borrow the value of type `T`.
    pub fn try_borrow<T: Storable>(&self) -> (r: Option<&T>)
        requires
            self.wf(),
        ensures
            lookup::<T>(self@) == match r {
                Some(v) => Some(v.plain()),
                None => None,
            },
    {
        let id = type_id_of::<T>();
        match self.position(&id) {
            Some(i) => {
                proof {
                    self.lemma_slot(i as int);
                }
                self.slots[i].value.downcast_ref::<T>()
            },
            None => None,
        }
    }

    /// Borrows the value of type `T`, which must be present.
    pub fn borrow<T: Storable>(&self) -> (r: &T)
        requires
            self.wf(),
            holds::<T>(self@),
        ensures
            r.plain() == plain_of::<T>(self@),
    {
        self.try_borrow::<T>().expect(ABSENT)
    }

    /// Tries to mutably borrow the value of type `T`.
    ///
    /// Where one is present, the store ends up holding whatever the caller leaves
    /// behind the reference; nothing else changes.
    pub fn try_borrow_mut<T: Storable>(&mut self) -> (r: Option<&mut T>)
        requires
            old(self).wf(),
        ensures
            final(self).wf(),
            lookup::<T>(old(self)@) == match r {
                Some(v) => Some(v.plain()),
                None => None,
            },
            r.is_some() ==> stored::<T>(old(self)@, final(self)@, final(r.unwrap()).plain()),
            r.is_none() ==> final(self)@ == old(self)@,
    {
        let id = type_id_of::<T>();
        match self.position(&id) {
            Some(i) => {
                let ghost before = *self;
                proof {
                    self.lemma_slot(i as int);
                    assert forall|after: GothamStore|
                        #![trigger after.wf()]
                        #![trigger after@]
                        after.replaces(&before, i as int) implies after.wf() && stored::<T>(
                        before@,
                        after@,
                        erased_plain(after.slots@[i as int].value),
                    ) by {
                        after.lemma_replaces(&before, i as int);
                    }
                }
                let slot = &mut self.slots[i];
                slot.value.downcast_mut::<T>()
            },
            None => None,
        }
    }

    /// Mutably borrows the value of type `T`, which must be present.
    ///
    /// The store ends up holding whatever the caller leaves behind the reference;
    /// nothing else changes.
    pub fn borrow_mut<T: Storable>(&mut self) -> (r: &mut T)
        requires
            old(self).wf(),
            holds::<T>(old(self)@),
        ensures
            final(self).wf(),
            r.plain() == plain_of::<T>(old(self)@),
            stored::<T>(old(self)@, final(self)@, final(r).plain()),
    {
        self.try_borrow_mut::<T>().expect(ABSENT)
    }

    /// Tries to move the value of type `T` out of the store.
    pub fn try_take<T: Storable>(&mut self) -> (r: Option<T>)
        requires
            old(self).wf(),
        ensures
            final(self).wf(),
            lookup::<T>(old(self)@) == match r {
                Some(v) => Some(v.plain()),
                None => None,
            },
            removed::<T>(old(self)@, final(self)@),
            r.is_none() ==> final(self)@ == old(self)@,
    {
        let id = type_id_of::<T>();
        let ghost before = *self;
        match self.position(&id) {
            Some(i) => {
                proof {
                    self.lemma_slot(i as int);
                }
                let slot = self.slots.remove(i);
                proof {
                    self.lemma_drops(&before, i as int);
                }
                slot.value.downcast::<T>()
            },
            None => {
                proof {
                    assert(before@.remove(id) =~= before@);
                }
                None
            },
        }
    }

    /// Moves the value of type `T`, which must be present, out of the store.
    pub fn take<T: Storable>(&mut self) -> (r: T)
        requires
            old(self).wf(),
            holds::<T>(old(self)@),
        ensures
            final(self).wf(),
            r.plain() == plain_of::<T>(old(self)@),
            removed::<T>(old(self)@, final(self)@),
    {
        self.try_take::<T>().expect(ABSENT)
    }

    /// The number of types that have a value in the store.
    pub fn len(&self) -> (n: usize)
        requires
            self.wf(),
        ensures
            n == self@.dom().len(),
    {
        proof {
            self.lemma_model();
        }
        self.slots.len()
    }

    /// Whether the store holds nothing at all.
    pub fn is_empty(&self) -> (r: bool)
        requires
            self.wf(),
        ensures
            r == (self@.dom().len() == 0),
            r == (self@ == Model::empty()),
    {
        proof {
            self.lemma_model();
            if self.slots@.len() == 0 {
                assert(self@ =~= Model::empty());
            }
        }
        self.slots.len() == 0
    }
}

impl Default for GothamStore {
    /// An empty store.
    fn default() -> (s: GothamStore)
        ensures
            s.wf(),
            s@ == Model::empty(),
    {
        GothamStore::new()
    }
}

} // verus!
