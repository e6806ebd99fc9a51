//! An arena that owns values and hands out stable, copyable handles.
use vstd::prelude::*;

verus! {

/// Opaque identity of a value stored in an [`Arena`]: the id of the arena
/// that issued it and the position of the value in that arena.
#[derive(Clone, Copy, Debug, PartialEq, Eq, Structural)]
pub struct Handle {
    pub arena: u32,
    pub index: u32,
}

/// Owns every value of one kind for a compilation. Values are never removed,
/// so a handle stays valid for the arena's whole life.
pub struct Arena<T> {
    id: u32,
    items: Vec<T>,
}

impl<T> View for Arena<T> {
    type V = Seq<T>;

    closed spec fn view(&self) -> Seq<T> {
        self.items@
    }
}

impl<T> Arena<T> {
    /// The id stamped into every handle this arena issues.
    pub closed spec fn spec_id(&self) -> u32 {
        self.id
    }

    /// `h` was issued by this arena.
    pub open spec fn issued(&self, h: Handle) -> bool {
        h.arena == self.spec_id() && (h.index as int) < self@.len()
    }

    /// The handle that the next insertion returns.
    pub open spec fn next_handle(&self) -> Handle {
        Handle { arena: self.spec_id(), index: self@.len() as u32 }
    }

    pub fn new(id: u32) -> (r: Self)
        ensures
            r.spec_id() == id,
            r@ == Seq::<T>::empty(),
    {
        Arena { id, items: Vec::new() }
    }

    pub fn id(&self) -> (r: u32)
        ensures
            r == self.spec_id(),
    {
        self.id
    }

    pub fn len(&self) -> (r: usize)
        ensures
            r == self@.len(),
    {
        self.items.len()
    }

    /// Stores `value` and returns its fresh handle.
    pub fn insert(&mut self, value: T) -> (h: Handle)
        requires
            old(self)@.len() < u32::MAX,
        ensures
            h == old(self).next_handle(),
            final(self)@ == old(self)@.push(value),
            final(self).spec_id() == old(self).spec_id(),
    {
        let index = self.items.len() as u32;
        self.items.push(value);
        Handle { arena: self.id, index }
    }

    /// Whether `h` was issued by this arena; a handle of another arena is refused.
    pub fn contains(&self, h: Handle) -> (r: bool)
        ensures
            r == self.issued(h),
    {
        h.arena == self.id && (h.index as usize) < self.items.len()
    }

    /// The handle of the value at position `index`.
    pub fn handle_at(&self, index: usize) -> (h: Handle)
        requires
            index < self@.len(),
            self@.len() <= u32::MAX,
        ensures
            h == (Handle { arena: self.spec_id(), index: index as u32 }),
            self.issued(h),
    {
        Handle { arena: self.id, index: index as u32 }
    }

    pub fn get(&self, h: Handle) -> (r: &T)
        requires
            self.issued(h),
        ensures
            *r == self@[h.index as int],
    {
        &self.items[h.index as usize]
    }

    pub fn get_mut(&mut self, h: Handle) -> (r: &mut T)
        requires
            old(self).issued(h),
        ensures
            *r == old(self)@[h.index as int],
            final(self)@ == old(self)@.update(h.index as int, *final(r)),
            final(self).spec_id() == old(self).spec_id(),
    {
        &mut self.items[h.index as usize]
    }
}

/// Looking a value up right after inserting it yields that value.
pub proof fn lemma_get_after_insert<T>(before: Arena<T>, after: Arena<T>, value: T)
    requires
        before@.len() < u32::MAX,
        after@ == before@.push(value),
        after.spec_id() == before.spec_id(),
    ensures
        after.issued(before.next_handle()),
        after@[before.next_handle().index as int] == value,
{
}

/// A handle issued by one arena is refused by an arena with another id.
pub proof fn lemma_foreign_handle_refused<T>(owner: Arena<T>, other: Arena<T>, h: Handle)
    requires
        owner.issued(h),
        owner.spec_id() != other.spec_id(),
    ensures
        !other.issued(h),
{
}

} // verus!
