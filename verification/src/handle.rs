//! The resource handle: a thin value that owns one reference to a
//! possibly shared backing allocation. Cloning a handle shares the
//! allocation; asking for mutable access detaches the handle from every
//! other one first.
use crate::error::OutOfMemory;
use std::rc::Rc;
use vstd::prelude::*;

verus! {

/// The number of references to the allocation behind `rc`.
/// `Rc::strong_count` reads the counter of the allocation. `rc` is one of
/// the references that it counts, so the count is at least one; how many
/// more there are depends on the handles that exist beside this one, and
/// nothing is claimed of that.
#[verifier::external_body]
fn references<B>(rc: &Rc<B>) -> (count: usize)
    ensures
        count >= 1,
{
    Rc::strong_count(rc)
}

/// What a backing allocation holds, for a handle that can detach: a
/// value that can be copied into storage that is asked of the allocator
/// and may be refused.
pub trait ImplBody: Clone {
    /// What a copy keeps of the value it was made from.
    spec fn copy_of(&self, from: &Self) -> bool;

    /// What `clone` makes is a copy.
    proof fn lemma_clone_is_copy(from: Self, to: Self)
        requires
            cloned::<Self>(from, to),
        ensures
            to.copy_of(&from),
    ;

    /// A copy of a copy is a copy.
    proof fn lemma_copy_of_copy(from: Self, copy: Self, to: Self)
        requires
            copy.copy_of(&from),
            to.copy_of(&copy),
        ensures
            to.copy_of(&from),
    ;

    /// Whether a copy of the value needs storage of its own. Where it
    /// needs none, nothing is asked of the allocator.
    spec fn needs_storage(&self) -> bool;

    /// A copy of the value, or the failure to allocate it. A value that
    /// needs no storage is always copied.
    fn try_clone(&self) -> (r: Result<Self, OutOfMemory>)
        ensures
            r matches Ok(copy) ==> copy.copy_of(self),
            !self.needs_storage() ==> r is Ok,
    ;
}

/// Whether a step that a handle is about to take has to copy the
/// allocation first: it has to where other handles refer to it too.
pub fn must_copy(references: usize) -> (copy: bool)
    ensures
        copy == (references > 1),
{
    references > 1
}

/// Another reference to the allocation behind `rc`. `Rc::clone` copies the
/// pointer and bumps the reference count; the value behind both pointers
/// is the one value that was there before.
#[verifier::external_body]
fn share<B>(rc: &Rc<B>) -> (other: Rc<B>)
    ensures
        other == *rc,
{
    Rc::clone(rc)
}

/// Exclusive access to the value behind `rc`. `Rc::make_mut` hands out the
/// value in place when `rc` is the only reference to it; otherwise it
/// clones the value into a fresh allocation, drops this reference to the
/// old one and points `rc` at the clone. Either way what the caller sees
/// first is the old value or a clone of it, and what the caller leaves
/// behind is what `rc` holds afterwards.
#[verifier::external_body]
fn exclusive<B: Clone>(rc: &mut Rc<B>) -> (body: &mut B)
    ensures
        cloned::<B>(**old(rc), *body),
        **final(rc) == *final(body),
{
    Rc::make_mut(rc)
}

/// Whether two references point at the same allocation. `Rc::ptr_eq`
/// compares addresses, so a `true` answer means one value is behind
/// both; two allocations may still hold equal values, hence nothing
/// follows from `false`.
#[verifier::external_body]
fn same_allocation<B>(a: &Rc<B>, b: &Rc<B>) -> (same: bool)
    ensures
        same ==> *a == *b,
{
    Rc::ptr_eq(a, b)
}

/// A handle to a backing allocation of type `B`, or to nothing: the
/// "none" handle, which every default handle of a shape is and which
/// costs no allocation.
#[derive(Debug)]
pub struct Handle<B> {
    body: Option<Rc<B>>,
}

impl<B> View for Handle<B> {
    type V = Option<B>;

    /// What the handle refers to: `None` for the "none" handle, else the
    /// value in the backing allocation.
    closed spec fn view(&self) -> Option<B> {
        match self.body {
            Some(rc) => Some(*rc),
            None => None,
        }
    }
}

impl<B> Handle<B> {
    /// The "none" handle. Nothing is allocated.
    pub fn none() -> (h: Self)
        ensures
            h@ is None,
    {
        Handle { body: None }
    }

    /// A handle to a fresh allocation that holds `body`, with this handle
    /// as its only reference.
    pub fn new(body: B) -> (h: Self)
        ensures
            h@ == Some(body),
    {
        Handle { body: Some(Rc::new(body)) }
    }

    /// True for the "none" handle.
    pub fn is_none(&self) -> (r: bool)
        ensures
            r == (self@ is None),
    {
        self.body.is_none()
    }

    /// Read access to the backing allocation.
    pub fn get(&self) -> (body: Option<&B>)
        ensures
            body is Some == self@ is Some,
            body matches Some(b) ==> self@ == Some(*b),
    {
        match &self.body {
            Some(rc) => Some(&**rc),
            None => None,
        }
    }

    /// A second handle to the same allocation. The contents are not
    /// copied: only the reference count changes.
    pub fn clone_shared(&self) -> (h: Self)
        ensures
            h@ == self@,
            h == *self,
    {
        match &self.body {
            Some(rc) => Handle { body: Some(share(rc)) },
            None => Handle { body: None },
        }
    }

    /// Gives up this handle's reference and leaves the "none" handle. The
    /// allocation is freed when its last reference goes.
    pub fn release(&mut self)
        ensures
            final(self)@ is None,
    {
        self.body = None;
    }

    /// Identity: true only if both handles refer to the same allocation,
    /// or both to none. Handles to two allocations are never identical,
    /// whatever the allocations hold.
    pub fn impl_equals(&self, other: &Self) -> (same: bool)
        ensures
            same ==> self@ == other@,
            self@ is None && other@ is None ==> same,
            (self@ is None) != (other@ is None) ==> !same,
    {
        match (&self.body, &other.body) {
            (Some(a), Some(b)) => same_allocation(a, b),
            (None, None) => true,
            _ => false,
        }
    }
}

impl<B> Handle<B> {
    /// The number of handles that refer to the allocation of this one,
    /// itself among them, and 0 for the "none" handle. The count is what
    /// it is at the time of the call: it changes with every clone and
    /// every release of another handle.
    pub fn ref_count(&self) -> (count: usize)
        ensures
            (count == 0) == (self@ is None),
    {
        match &self.body {
            Some(rc) => references(rc),
            None => 0,
        }
    }
}

impl<B: Clone> Handle<B> {
    /// Mutable access to the backing allocation for a step that has no
    /// failure to report. A handle that is the only reference to its
    /// allocation keeps it; a shared one gets a clone of its own and
    /// drops its reference to the shared one, which the other handles
    /// keep unchanged. The "none" handle gets a fresh allocation that
    /// holds `fresh`.
    pub fn force_mutable(&mut self, fresh: B) -> (body: &mut B)
        ensures
            cloned::<B>(
                match old(self)@ {
                    Some(b) => b,
                    None => fresh,
                },
                *body,
            ),
            final(self)@ == Some(*final(body)),
    {
        if self.body.is_none() {
            self.body = Some(Rc::new(fresh));
        }
        match &mut self.body {
            Some(rc) => exclusive(rc),
            None => vstd::pervasive::unreached(),
        }
    }
}

impl<B: ImplBody> Handle<B> {
    /// Mutable access to the backing allocation, detached from every other
    /// handle. A handle that is the only reference to its allocation keeps
    /// it. A shared one copies what the allocation holds into one of its
    /// own and drops its reference to the shared one, which the other
    /// handles keep unchanged; where the copy cannot be allocated the
    /// handle stays as it is and the failure is returned. The "none"
    /// handle gets a fresh allocation that holds `fresh`. The "none"
    /// handle and a handle to a value that needs no storage never fail.
    pub fn make_mutable(&mut self, fresh: B) -> (r: Result<&mut B, OutOfMemory>)
        ensures
            match r {
                Ok(body) => {
                    &&& body.copy_of(
                        &(match old(self)@ {
                            Some(b) => b,
                            None => fresh,
                        }),
                    )
                    &&& final(self)@ == Some(*final(body))
                },
                Err(_) => {
                    &&& final(self)@ == old(self)@
                    &&& old(self)@ matches Some(held) && held.needs_storage()
                },
            },
    {
        let ghost start = match self@ {
            Some(b) => b,
            None => fresh,
        };
        let ghost mut held = start;
        if self.body.is_none() {
            self.body = Some(Rc::new(fresh));
        } else if must_copy(self.ref_count()) {
            let copy = match self.get() {
                Some(shared) => shared.try_clone(),
                None => Err(OutOfMemory),
            };
            match copy {
                Ok(own) => {
                    proof {
                        held = own;
                    }
                    self.body = Some(Rc::new(own));
                },
                Err(e) => {
                    return Err(e);
                },
            }
        }
        match &mut self.body {
            Some(rc) => {
                let body = exclusive(rc);
                proof {
                    B::lemma_clone_is_copy(held, *body);
                    if held != start {
                        B::lemma_copy_of_copy(start, held, *body);
                    }
                }
                Ok(body)
            },
            None => vstd::pervasive::unreached(),
        }
    }
}

} // verus!
