//! A contiguous growable array whose storage is a reference-counted,
//! copy-on-write backing allocation.
//!
//! An operation that may grow the array asks the allocator for what it
//! needs, for the copy that detaches a shared array as for more slots, and
//! reports `OutOfMemory` with the array left as it was where the allocator
//! refuses. Whether an array is shared is no part of its value, so such an
//! operation can fail even where the capacity suffices. An operation that
//! only removes, overwrites or truncates has no failure of the allocator
//! to report.
use crate::capacity::{
    fitting_capacity, growing_capacity, lemma_planned_capacity_bounded, max_capacity,
    spec_max_capacity, spec_planned_capacity,
};
use crate::error::{Error, OutOfMemory};
use crate::handle::{Handle, ImplBody};
use crate::variant::ImplType;
use core::ops::Range;
use vstd::prelude::*;
use vstd::std_specs::cmp::PartialEqSpecImpl;

verus! {

/// A type that an [`Array`] can hold. The shape says how wide one element
/// is and whether it is a handle; `retain` makes the copy that a detached
/// array stores (for a handle, a second reference to the same allocation).
pub trait ArrayType: Sized {
    /// The shape of an array of `Self`.
    spec fn spec_impl_type() -> ImplType;

    /// Value equality of two elements.
    spec fn spec_same(&self, other: &Self) -> bool;

    /// Whether `same` compares by value. Where it does not, it compares
    /// by identity: two elements that it calls the same are equal in
    /// value, and two that it tells apart may be so too.
    spec fn same_is_by_value() -> bool;

    /// The shape of an array is one that arrays have.
    proof fn lemma_shape_is_array()
        ensures
            Self::spec_impl_type().spec_is_array(),
    ;

    fn impl_type() -> (shape: ImplType)
        ensures
            shape == Self::spec_impl_type(),
    ;

    /// A copy of the element that is indistinguishable from it.
    fn retain(&self) -> (copy: Self)
        ensures
            copy == *self,
    ;

    fn same(&self, other: &Self) -> (r: bool)
        ensures
            r ==> self.spec_same(other),
            Self::same_is_by_value() ==> r == self.spec_same(other),
    ;
}

impl ArrayType for i8 {
    open spec fn spec_impl_type() -> ImplType {
        ImplType::ArrayI8
    }

    open spec fn spec_same(&self, other: &Self) -> bool {
        *self == *other
    }

    open spec fn same_is_by_value() -> bool {
        true
    }

    proof fn lemma_shape_is_array() {
    }

    fn impl_type() -> (shape: ImplType) {
        ImplType::ArrayI8
    }

    fn retain(&self) -> (copy: Self) {
        *self
    }

    fn same(&self, other: &Self) -> (r: bool) {
        *self == *other
    }
}

impl ArrayType for u8 {
    open spec fn spec_impl_type() -> ImplType {
        ImplType::ArrayU8
    }

    open spec fn spec_same(&self, other: &Self) -> bool {
        *self == *other
    }

    open spec fn same_is_by_value() -> bool {
        true
    }

    proof fn lemma_shape_is_array() {
    }

    fn impl_type() -> (shape: ImplType) {
        ImplType::ArrayU8
    }

    fn retain(&self) -> (copy: Self) {
        *self
    }

    fn same(&self, other: &Self) -> (r: bool) {
        *self == *other
    }
}

impl ArrayType for i16 {
    open spec fn spec_impl_type() -> ImplType {
        ImplType::ArrayI16
    }

    open spec fn spec_same(&self, other: &Self) -> bool {
        *self == *other
    }

    open spec fn same_is_by_value() -> bool {
        true
    }

    proof fn lemma_shape_is_array() {
    }

    fn impl_type() -> (shape: ImplType) {
        ImplType::ArrayI16
    }

    fn retain(&self) -> (copy: Self) {
        *self
    }

    fn same(&self, other: &Self) -> (r: bool) {
        *self == *other
    }
}

impl ArrayType for u16 {
    open spec fn spec_impl_type() -> ImplType {
        ImplType::ArrayU16
    }

    open spec fn spec_same(&self, other: &Self) -> bool {
        *self == *other
    }

    open spec fn same_is_by_value() -> bool {
        true
    }

    proof fn lemma_shape_is_array() {
    }

    fn impl_type() -> (shape: ImplType) {
        ImplType::ArrayU16
    }

    fn retain(&self) -> (copy: Self) {
        *self
    }

    fn same(&self, other: &Self) -> (r: bool) {
        *self == *other
    }
}

impl ArrayType for i32 {
    open spec fn spec_impl_type() -> ImplType {
        ImplType::ArrayI32
    }

    open spec fn spec_same(&self, other: &Self) -> bool {
        *self == *other
    }

    open spec fn same_is_by_value() -> bool {
        true
    }

    proof fn lemma_shape_is_array() {
    }

    fn impl_type() -> (shape: ImplType) {
        ImplType::ArrayI32
    }

    fn retain(&self) -> (copy: Self) {
        *self
    }

    fn same(&self, other: &Self) -> (r: bool) {
        *self == *other
    }
}

impl ArrayType for u32 {
    open spec fn spec_impl_type() -> ImplType {
        ImplType::ArrayU32
    }

    open spec fn spec_same(&self, other: &Self) -> bool {
        *self == *other
    }

    open spec fn same_is_by_value() -> bool {
        true
    }

    proof fn lemma_shape_is_array() {
    }

    fn impl_type() -> (shape: ImplType) {
        ImplType::ArrayU32
    }

    fn retain(&self) -> (copy: Self) {
        *self
    }

    fn same(&self, other: &Self) -> (r: bool) {
        *self == *other
    }
}

impl ArrayType for i64 {
    open spec fn spec_impl_type() -> ImplType {
        ImplType::ArrayI64
    }

    open spec fn spec_same(&self, other: &Self) -> bool {
        *self == *other
    }

    open spec fn same_is_by_value() -> bool {
        true
    }

    proof fn lemma_shape_is_array() {
    }

    fn impl_type() -> (shape: ImplType) {
        ImplType::ArrayI64
    }

    fn retain(&self) -> (copy: Self) {
        *self
    }

    fn same(&self, other: &Self) -> (r: bool) {
        *self == *other
    }
}

impl ArrayType for u64 {
    open spec fn spec_impl_type() -> ImplType {
        ImplType::ArrayU64
    }

    open spec fn spec_same(&self, other: &Self) -> bool {
        *self == *other
    }

    open spec fn same_is_by_value() -> bool {
        true
    }

    proof fn lemma_shape_is_array() {
    }

    fn impl_type() -> (shape: ImplType) {
        ImplType::ArrayU64
    }

    fn retain(&self) -> (copy: Self) {
        *self
    }

    fn same(&self, other: &Self) -> (r: bool) {
        *self == *other
    }
}

impl ArrayType for isize {
    open spec fn spec_impl_type() -> ImplType {
        ImplType::ArrayI64
    }

    open spec fn spec_same(&self, other: &Self) -> bool {
        *self == *other
    }

    open spec fn same_is_by_value() -> bool {
        true
    }

    proof fn lemma_shape_is_array() {
    }

    fn impl_type() -> (shape: ImplType) {
        ImplType::ArrayI64
    }

    fn retain(&self) -> (copy: Self) {
        *self
    }

    fn same(&self, other: &Self) -> (r: bool) {
        *self == *other
    }
}

impl ArrayType for usize {
    open spec fn spec_impl_type() -> ImplType {
        ImplType::ArrayU64
    }

    open spec fn spec_same(&self, other: &Self) -> bool {
        *self == *other
    }

    open spec fn same_is_by_value() -> bool {
        true
    }

    proof fn lemma_shape_is_array() {
    }

    fn impl_type() -> (shape: ImplType) {
        ImplType::ArrayU64
    }

    fn retain(&self) -> (copy: Self) {
        *self
    }

    fn same(&self, other: &Self) -> (r: bool) {
        *self == *other
    }
}

/// One end of a range of indices, as it is written.
#[derive(Clone, Copy, Debug, PartialEq, Eq, Structural)]
pub enum IndexBound {
    /// The range reaches the index and holds it.
    Included(usize),
    /// The range reaches the index and does not hold it.
    Excluded(usize),
    /// The range reaches the end of the array on this side.
    Unbounded,
}

/// The first index that a range with this lower bound holds.
pub open spec fn spec_range_start(bound: IndexBound) -> int {
    match bound {
        IndexBound::Included(n) => n as int,
        IndexBound::Excluded(n) => n + 1,
        IndexBound::Unbounded => 0,
    }
}

/// The first index that a range with this upper bound no longer holds,
/// over an array of `len` elements.
pub open spec fn spec_range_end(bound: IndexBound, len: nat) -> int {
    match bound {
        IndexBound::Included(n) => n + 1,
        IndexBound::Excluded(n) => n as int,
        IndexBound::Unbounded => len as int,
    }
}

/// Resolves the two bounds of a range over an array of `len` elements to
/// the index at which the range starts and the index at which it ends.
/// There is no answer where one of the two lies beyond every index an
/// array can have; such a range lies inside no array.
pub fn range_to_tuple(start: IndexBound, end: IndexBound, len: usize) -> (r: Option<
    (usize, usize),
>)
    ensures
        match r {
            Some((first, last)) => first == spec_range_start(start) && last == spec_range_end(
                end,
                len as nat,
            ),
            None => spec_range_start(start) > usize::MAX || spec_range_end(end, len as nat)
                > usize::MAX,
        },
{
    let first: usize = match start {
        IndexBound::Included(n) => n,
        IndexBound::Excluded(n) => {
            if n == usize::MAX {
                return None;
            }
            n + 1
        },
        IndexBound::Unbounded => 0,
    };
    let last: usize = match end {
        IndexBound::Included(n) => {
            if n == usize::MAX {
                return None;
            }
            n + 1
        },
        IndexBound::Excluded(n) => n,
        IndexBound::Unbounded => len,
    };
    Some((first, last))
}

/// The backing allocation of an array: the elements and the number of
/// slots that are reserved for them.
#[derive(Debug)]
pub struct ArrayImpl<T: ArrayType> {
    data: Vec<T>,
    capacity: usize,
}

impl<T: ArrayType> ArrayImpl<T> {
    /// The elements.
    pub closed spec fn items(&self) -> Seq<T> {
        self.data@
    }

    /// The number of reserved slots.
    pub closed spec fn slots(&self) -> nat {
        self.capacity as nat
    }

    /// No more elements than slots, no more slots than the shape allows.
    pub open spec fn wf(&self) -> bool {
        self.items().len() <= self.slots() <= spec_max_capacity(
            T::spec_impl_type().spec_item_size(),
        )
    }

    fn empty() -> (body: Self)
        ensures
            body.items() == Seq::<T>::empty(),
            body.slots() == 0,
            body.wf(),
    {
        ArrayImpl { data: Vec::new(), capacity: 0 }
    }

    /// Makes sure that `required` slots are reserved. Nothing is asked of
    /// the allocator where the slots are there already; beyond the limit
    /// of the shape the request is refused without asking; in between the
    /// allocator decides.
    fn reserve_slots(&mut self, required: usize, growing: bool) -> (r: Result<(), OutOfMemory>)
        requires
            old(self).wf(),
        ensures
            final(self).wf(),
            final(self).items() == old(self).items(),
            final(self).slots() == (if r is Ok {
                spec_planned_capacity(
                    T::spec_impl_type().spec_item_size(),
                    old(self).slots(),
                    required as nat,
                    growing,
                )
            } else {
                old(self).slots()
            }),
            r is Ok ==> required <= final(self).slots(),
            required <= old(self).slots() ==> r is Ok,
            required > spec_max_capacity(T::spec_impl_type().spec_item_size()) ==> r is Err,
    {
        if required <= self.capacity {
            return Ok(());
        }
        proof {
            T::lemma_shape_is_array();
        }
        let item_size = T::impl_type().item_size();
        if required > max_capacity(item_size) {
            return Err(OutOfMemory);
        }
        let planned = if growing {
            growing_capacity(item_size, required)
        } else {
            fitting_capacity(item_size, required)
        };
        let granted = OutOfMemory::from_reservation(
            self.data.try_reserve(planned - self.data.len()),
        );
        if granted.is_ok() {
            self.capacity = planned;
        }
        granted
    }

    /// Overwrites the elements from `at` on by copies of the first `count`
    /// items. Nothing moves and nothing is allocated.
    fn overwrite(&mut self, at: usize, items: &[T], count: usize)
        requires
            old(self).wf(),
            count <= items@.len(),
            at + count <= old(self).items().len(),
        ensures
            final(self).wf(),
            final(self).slots() == old(self).slots(),
            final(self).items() == old(self).items().subrange(0, at as int) + items@.subrange(
                0,
                count as int,
            ) + old(self).items().subrange(
                at + count,
                old(self).items().len() as int,
            ),
    {
        let ghost before = self.data@;
        let len = self.data.len();
        let mut j: usize = 0;
        while j < count
            invariant
                j <= count <= items@.len(),
                at + count <= before.len(),
                len == before.len(),
                self.capacity == old(self).capacity,
                self.data@.len() == before.len(),
                forall|i: int|
                    0 <= i < before.len() ==> #[trigger] self.data@[i] == (if at <= i < at + j {
                        items@[i - at]
                    } else {
                        before[i]
                    }),
            decreases count - j,
        {
            let copy = items[j].retain();
            self.data[at + j] = copy;
            j = j + 1;
        }
        assert(self.data@ =~= before.subrange(0, at as int) + items@.subrange(0, count as int)
            + before.subrange(at + count, before.len() as int));
    }

    /// Removes the elements from `start` up to `end`: what follows them
    /// moves down in place, and the array ends sooner. Nothing is
    /// allocated.
    fn close_gap(&mut self, start: usize, end: usize)
        requires
            old(self).wf(),
            start <= end <= old(self).items().len(),
        ensures
            final(self).wf(),
            final(self).slots() == old(self).slots(),
            final(self).items() == old(self).items().subrange(0, start as int) + old(
                self,
            ).items().subrange(end as int, old(self).items().len() as int),
    {
        let ghost before = self.data@;
        let gap = end - start;
        let len = self.data.len();
        let mut i: usize = start;
        while i + gap < len
            invariant
                start <= i,
                i + gap <= len,
                gap == end - start,
                len == before.len(),
                self.capacity == old(self).capacity,
                self.data@.len() == len,
                forall|j: int|
                    0 <= j < len ==> #[trigger] self.data@[j] == (if start <= j < i {
                        before[j + gap]
                    } else {
                        before[j]
                    }),
            decreases len - i,
        {
            let copy = self.data[i + gap].retain();
            self.data[i] = copy;
            i = i + 1;
        }
        self.data.truncate(len - gap);
        assert(self.data@ =~= before.subrange(0, start as int) + before.subrange(
            end as int,
            len as int,
        ));
    }

    /// Inserts copies of the items from `from` on at `index`: the array
    /// grows at its end within what is reserved, what stood from `index`
    /// on moves up in place, and the copies fill the room. Nothing is
    /// allocated.
    fn open_gap(&mut self, index: usize, items: &[T], from: usize)
        requires
            old(self).wf(),
            index <= old(self).items().len(),
            from <= items@.len(),
            old(self).items().len() + (items@.len() - from) <= old(self).slots(),
        ensures
            final(self).wf(),
            final(self).slots() == old(self).slots(),
            final(self).items() == old(self).items().subrange(0, index as int) + items@.subrange(
                from as int,
                items@.len() as int,
            ) + old(self).items().subrange(index as int, old(self).items().len() as int),
    {
        let ghost before = self.data@;
        let room = items.len() - from;
        let len = self.data.len();
        let mut j: usize = 0;
        while j < room
            invariant
                j <= room,
                room == items@.len() - from,
                from + room == items.len(),
                len == before.len(),
                len + room <= self.capacity,
                self.capacity == old(self).capacity,
                self.data@.len() == len + j,
                forall|i: int| 0 <= i < len ==> #[trigger] self.data@[i] == before[i],
            decreases room - j,
        {
            self.data.push(items[from + j].retain());
            j = j + 1;
        }
        let mut p: usize = len;
        while p > index
            invariant
                index <= p <= len,
                room == items@.len() - from,
                len == before.len(),
                len + room <= self.capacity,
                self.capacity == old(self).capacity,
                self.data@.len() == len + room,
                forall|i: int| 0 <= i < len && i < p + room ==> #[trigger] self.data@[i] == before[i],
                forall|i: int| p + room <= i < len + room ==> #[trigger] self.data@[i] == before[i - room],
            decreases p,
        {
            p = p - 1;
            let copy = self.data[p].retain();
            self.data[p + room] = copy;
        }
        let mut t: usize = 0;
        while t < room
            invariant
                t <= room,
                room == items@.len() - from,
                from + room == items.len(),
                index <= len,
                len == before.len(),
                len + room <= self.capacity,
                self.capacity == old(self).capacity,
                self.data@.len() == len + room,
                forall|i: int| 0 <= i < index ==> #[trigger] self.data@[i] == before[i],
                forall|i: int| index <= i < index + t ==> #[trigger] self.data@[i] == items@[from + i - index],
                forall|i: int|
                    index + room <= i < len + room ==> #[trigger] self.data@[i] == before[i - room],
            decreases room - t,
        {
            let copy = items[from + t].retain();
            self.data[index + t] = copy;
            t = t + 1;
        }
        assert(self.data@ =~= before.subrange(0, index as int) + items@.subrange(
            from as int,
            items@.len() as int,
        ) + before.subrange(index as int, len as int));
    }

    /// Replaces the elements from `start` up to `end` by copies of `items`,
    /// in place: what the two have in common is overwritten, and the rest
    /// is removed or inserted.
    fn splice(&mut self, start: usize, end: usize, items: &[T])
        requires
            old(self).wf(),
            start <= end <= old(self).items().len(),
            old(self).items().len() - (end - start) + items@.len() <= old(self).slots(),
        ensures
            final(self).wf(),
            final(self).slots() == old(self).slots(),
            final(self).items() == old(self).items().subrange(0, start as int) + items@
                + old(self).items().subrange(end as int, old(self).items().len() as int),
    {
        let ghost before = self.data@;
        let gap = end - start;
        let common = if items.len() < gap {
            items.len()
        } else {
            gap
        };
        self.overwrite(start, items, common);
        if items.len() < gap {
            self.close_gap(start + common, end);
        } else if items.len() > gap {
            self.open_gap(end, items, common);
        }
        assert(self.data@ =~= before.subrange(0, start as int) + items@ + before.subrange(
            end as int,
            before.len() as int,
        ));
    }

    /// Appends copies of `value` until the array has `n` elements.
    fn fill(&mut self, n: usize, value: &T)
        requires
            old(self).wf(),
            old(self).items().len() <= n <= old(self).slots(),
        ensures
            final(self).wf(),
            final(self).slots() == old(self).slots(),
            final(self).items() == old(self).items() + Seq::new(
                (n - old(self).items().len()) as nat,
                |i: int| *value,
            ),
    {
        let ghost before = self.data@;
        assert(self.data@ =~= before + Seq::new(0, |i: int| *value));
        while self.data.len() < n
            invariant
                before.len() <= self.data@.len() <= n,
                self.capacity == old(self).capacity,
                self.data@ == before + Seq::new(
                    (self.data@.len() - before.len()) as nat,
                    |i: int| *value,
                ),
            decreases n - self.data@.len(),
        {
            let ghost filled = self.data@;
            self.data.push(value.retain());
            assert(self.data@ =~= before + Seq::new(
                (filled.len() + 1 - before.len()) as nat,
                |i: int| *value,
            ));
        }
    }
}

impl<T: ArrayType> Clone for ArrayImpl<T> {
    /// The copy that a shared array detaches into: every element
    /// retained, the same number of slots.
    fn clone(&self) -> (copy: Self)
        ensures
            copy.items() == self.items(),
            copy.slots() == self.slots(),
    {
        let mut data: Vec<T> = Vec::with_capacity(self.capacity);
        let mut i: usize = 0;
        while i < self.data.len()
            invariant
                i <= self.data@.len(),
                data@ == self.data@.subrange(0, i as int),
            decreases self.data@.len() - i,
        {
            data.push(self.data[i].retain());
            i = i + 1;
            assert(data@ =~= self.data@.subrange(0, i as int));
        }
        assert(data@ =~= self.data@);
        ArrayImpl { data, capacity: self.capacity }
    }
}

impl<T: ArrayType> ImplBody for ArrayImpl<T> {
    /// A copy holds the same elements and the same number of slots.
    open spec fn copy_of(&self, from: &Self) -> bool {
        self.items() == from.items() && self.slots() == from.slots()
    }

    /// A copy needs storage where slots are reserved.
    open spec fn needs_storage(&self) -> bool {
        self.slots() > 0
    }

    proof fn lemma_clone_is_copy(from: Self, to: Self) {
    }

    proof fn lemma_copy_of_copy(from: Self, copy: Self, to: Self) {
    }

    /// The copy that a shared array detaches into, with the same number
    /// of slots asked of the allocator, which may refuse them.
    fn try_clone(&self) -> (r: Result<Self, OutOfMemory>) {
        let mut data: Vec<T> = Vec::new();
        if self.capacity > 0 {
            if OutOfMemory::from_reservation(data.try_reserve(self.capacity)).is_err() {
                return Err(OutOfMemory);
            }
        }
        let mut i: usize = 0;
        while i < self.data.len()
            invariant
                i <= self.data@.len(),
                data@ == self.data@.subrange(0, i as int),
            decreases self.data@.len() - i,
        {
            data.push(self.data[i].retain());
            i = i + 1;
            assert(data@ =~= self.data@.subrange(0, i as int));
        }
        assert(data@ =~= self.data@);
        Ok(ArrayImpl { data, capacity: self.capacity })
    }
}

/// A growable array of elements of one shape. Cloning it shares the
/// storage; the first edit through a handle gives that handle storage of
/// its own.
#[derive(Debug)]
pub struct Array<T: ArrayType> {
    core: Handle<ArrayImpl<T>>,
}

impl<T: ArrayType> View for Array<T> {
    type V = Seq<T>;

    closed spec fn view(&self) -> Seq<T> {
        match self.core@ {
            Some(body) => body.items(),
            None => Seq::empty(),
        }
    }
}

impl<T: ArrayType> Array<T> {
    /// The number of slots that are reserved for elements.
    pub closed spec fn spec_capacity(&self) -> nat {
        match self.core@ {
            Some(body) => body.slots(),
            None => 0,
        }
    }

    /// True when the handle refers to storage; false for an array that
    /// was made empty and has never reserved anything.
    pub closed spec fn has_impl(&self) -> bool {
        self.core@ is Some
    }

    /// An array without storage is empty and has nothing reserved.
    pub proof fn lemma_without_impl(&self)
        requires
            !self.has_impl(),
        ensures
            self@ == Seq::<T>::empty(),
            self.spec_capacity() == 0,
            self.wf(),
    {
    }

    /// The width in bytes of one element.
    pub open spec fn spec_item_size() -> nat {
        T::spec_impl_type().spec_item_size()
    }

    /// The largest capacity an array of this shape can have.
    pub open spec fn spec_max_capacity() -> nat {
        spec_max_capacity(Self::spec_item_size())
    }

    /// The invariant of every array: the length is at most the capacity,
    /// and the capacity at most what the shape allows.
    pub open spec fn wf(&self) -> bool {
        self@.len() <= self.spec_capacity() <= Self::spec_max_capacity()
    }

    /// The capacity after an operation that needed `required` slots.
    pub open spec fn spec_capacity_for(&self, required: nat, growing: bool) -> nat {
        spec_planned_capacity(Self::spec_item_size(), self.spec_capacity(), required, growing)
    }

    /// Creates a new empty array. Nothing is allocated.
    pub fn new() -> (array: Self)
        ensures
            array.wf(),
            array@ == Seq::<T>::empty(),
            array.spec_capacity() == 0,
            !array.has_impl(),
    {
        Array { core: Handle::none() }
    }

    /// Creates a new empty array with space for `cap` elements.
    pub fn with_capacity(cap: usize) -> (r: Result<Self, OutOfMemory>)
        ensures
            match r {
                Ok(array) => {
                    &&& array.wf()
                    &&& array@ == Seq::<T>::empty()
                    &&& array.spec_capacity() >= cap
                    &&& array.spec_capacity() == spec_planned_capacity(
                        Self::spec_item_size(),
                        0,
                        cap as nat,
                        false,
                    )
                },
                Err(_) => cap > 0,
            },
            cap > Self::spec_max_capacity() ==> r is Err,
    {
        let mut array = Self::new();
        match array.try_reserve(cap) {
            Ok(()) => Ok(array),
            Err(e) => Err(e),
        }
    }

    /// Creates an array that holds copies of `items`.
    pub fn from_slice(items: &[T]) -> (r: Result<Self, OutOfMemory>)
        ensures
            match r {
                Ok(array) => {
                    &&& array.wf()
                    &&& array@ == items@
                    &&& array.spec_capacity() == spec_planned_capacity(
                        Self::spec_item_size(),
                        0,
                        items@.len(),
                        false,
                    )
                },
                Err(_) => items@.len() > 0,
            },
            items@.len() > Self::spec_max_capacity() ==> r is Err,
    {
        let mut array = Self::new();
        if items.len() == 0 {
            return Ok(array);
        }
        match array.try_reserve(items.len()) {
            Ok(()) => {
                let body = array.force_body_mut();
                body.splice(0, 0, items);
                assert(array@ =~= items@);
                Ok(array)
            },
            Err(e) => Err(e),
        }
    }

    /// Creates an array that takes over the items of a vector.
    pub fn from_vec(items: Vec<T>) -> (r: Result<Self, OutOfMemory>)
        ensures
            match r {
                Ok(array) => {
                    &&& array.wf()
                    &&& array@ == items@
                    &&& array.spec_capacity() == spec_planned_capacity(
                        Self::spec_item_size(),
                        0,
                        items@.len(),
                        false,
                    )
                },
                Err(_) => items@.len() > 0,
            },
            items@.len() > Self::spec_max_capacity() ==> r is Err,
    {
        let mut array = Self::new();
        match array.extend(items) {
            Ok(()) => {
                assert(array@ =~= items@);
                Ok(array)
            },
            Err(e) => Err(e),
        }
    }

    /// Tests the invariant of the array. It holds of every array that
    /// this module hands out.
    pub fn is_valid(&self) -> (r: bool)
        ensures
            r == self.wf(),
    {
        self.len() <= self.capacity() && self.capacity() <= Self::max_capacity()
    }

    /// Returns the length of the array.
    pub fn len(&self) -> (n: usize)
        ensures
            n == self@.len(),
    {
        match self.core.get() {
            Some(body) => body.data.len(),
            None => 0,
        }
    }

    /// Returns true if this array has no elements.
    pub fn is_empty(&self) -> (r: bool)
        ensures
            r == (self@.len() == 0),
    {
        self.len() == 0
    }

    /// Returns the current capacity of the array.
    pub fn capacity(&self) -> (n: usize)
        ensures
            n == self.spec_capacity(),
    {
        match self.core.get() {
            Some(body) => body.capacity,
            None => 0,
        }
    }

    /// The widest array this shape allows.
    pub fn max_capacity() -> (n: usize)
        ensures
            n == Self::spec_max_capacity(),
    {
        proof {
            T::lemma_shape_is_array();
        }
        max_capacity(T::impl_type().item_size())
    }

    /// Returns the array as a slice.
    pub fn as_slice(&self) -> (slice: &[T])
        ensures
            slice@ == self@,
    {
        match self.core.get() {
            Some(body) => body.data.as_slice(),
            None => &[],
        }
    }

    /// The storage of this handle alone, for a step that has no failure
    /// to report: the handle's own allocation if it is its only
    /// reference, else a fresh copy that the handle now owns.
    fn force_body_mut(&mut self) -> (body: &mut ArrayImpl<T>)
        requires
            old(self).wf(),
        ensures
            body.wf(),
            body.items() == old(self)@,
            body.slots() == old(self).spec_capacity(),
            final(self)@ == final(body).items(),
            final(self).spec_capacity() == final(body).slots(),
    {
        self.core.force_mutable(ArrayImpl::empty())
    }

    /// The storage of this handle alone: the handle's own allocation if it
    /// is its only reference, else a fresh copy that the handle now owns.
    /// Where the copy cannot be allocated the array stays as it is.
    fn body_mut(&mut self) -> (r: Result<&mut ArrayImpl<T>, OutOfMemory>)
        requires
            old(self).wf(),
        ensures
            match r {
                Ok(body) => {
                    &&& body.wf()
                    &&& body.items() == old(self)@
                    &&& body.slots() == old(self).spec_capacity()
                    &&& final(self)@ == final(body).items()
                    &&& final(self).spec_capacity() == final(body).slots()
                },
                Err(_) => {
                    &&& final(self)@ == old(self)@
                    &&& final(self).spec_capacity() == old(self).spec_capacity()
                    &&& final(self).has_impl() && old(self).has_impl()
                    &&& old(self).spec_capacity() > 0
                },
            },
    {
        self.core.make_mutable(ArrayImpl::empty())
    }

    /// Returns the array as a mutable slice. The array is detached first:
    /// what is written through the slice reaches no other handle. Where a
    /// shared array cannot be given storage of its own, it stays as it is
    /// and shared, and the failure is returned. An array that has nothing
    /// reserved needs no storage and always gives its view.
    pub fn as_mut_slice(&mut self) -> (r: Result<&mut [T], OutOfMemory>)
        requires
            old(self).wf(),
        ensures
            match r {
                Ok(slice) => {
                    &&& slice@ == old(self)@
                    &&& final(self)@ == final(slice)@
                    &&& final(self).spec_capacity() == old(self).spec_capacity()
                    &&& final(slice)@.len() == slice@.len() ==> final(self).wf()
                },
                Err(_) => {
                    &&& final(self).wf()
                    &&& final(self)@ == old(self)@
                    &&& final(self).spec_capacity() == old(self).spec_capacity()
                },
            },
            !old(self).has_impl() ==> r is Ok,
            old(self).spec_capacity() == 0 ==> r is Ok,
    {
        match self.body_mut() {
            Ok(body) => Ok(body.data.as_mut_slice()),
            Err(e) => Err(e),
        }
    }

    /// Reserves capacity for at least `n` items. Where the capacity is
    /// there already nothing is asked of the allocator, and nothing is
    /// copied.
    pub fn try_reserve(&mut self, n: usize) -> (r: Result<(), OutOfMemory>)
        requires
            old(self).wf(),
        ensures
            final(self).wf(),
            final(self)@ == old(self)@,
            final(self).spec_capacity() == (if r is Ok {
                old(self).spec_capacity_for(n as nat, false)
            } else {
                old(self).spec_capacity()
            }),
            r is Ok ==> n <= final(self).spec_capacity(),
            n <= old(self).spec_capacity() ==> r is Ok,
            n > Self::spec_max_capacity() ==> r is Err,
    {
        if n <= self.capacity() {
            return Ok(());
        }
        if n > Self::max_capacity() {
            return Err(OutOfMemory);
        }
        match self.body_mut() {
            Ok(body) => body.reserve_slots(n, false),
            Err(e) => Err(e),
        }
    }

    /// Appends an item.
    pub fn push(&mut self, item: T) -> (r: Result<(), OutOfMemory>)
        requires
            old(self).wf(),
        ensures
            final(self).wf(),
            match r {
                Ok(()) => {
                    &&& final(self)@ == old(self)@.push(item)
                    &&& final(self).spec_capacity() == old(self).spec_capacity_for(
                        old(self)@.len() + 1,
                        true,
                    )
                },
                Err(_) => {
                    &&& final(self)@ == old(self)@
                    &&& final(self).spec_capacity() == old(self).spec_capacity()
                },
            },
            old(self)@.len() >= Self::spec_max_capacity() ==> r is Err,
    {
        let len = self.len();
        if len >= Self::max_capacity() {
            return Err(OutOfMemory);
        }
        let body = match self.body_mut() {
            Ok(body) => body,
            Err(e) => {
                return Err(e);
            },
        };
        match body.reserve_slots(len + 1, true) {
            Ok(()) => {
                body.data.push(item);
                Ok(())
            },
            Err(e) => Err(e),
        }
    }

    /// Inserts an item at `index`, shifting what follows it to the right.
    pub fn insert(&mut self, index: usize, item: T) -> (r: Result<(), Error>)
        requires
            old(self).wf(),
        ensures
            final(self).wf(),
            match r {
                Ok(()) => {
                    &&& index <= old(self)@.len()
                    &&& final(self)@ == old(self)@.insert(index as int, item)
                    &&& final(self).spec_capacity() == old(self).spec_capacity_for(
                        old(self)@.len() + 1,
                        true,
                    )
                },
                Err(e) => {
                    &&& final(self)@ == old(self)@
                    &&& final(self).spec_capacity() == old(self).spec_capacity()
                    &&& e == (if index > old(self)@.len() {
                        Error::InvalidValue
                    } else {
                        Error::OutOfMemory
                    })
                },
            },
            index > old(self)@.len() || old(self)@.len() >= Self::spec_max_capacity() ==> r is Err,
    {
        let len = self.len();
        if index > len {
            return Err(Error::InvalidValue);
        }
        if len >= Self::max_capacity() {
            return Err(Error::OutOfMemory);
        }
        let body = match self.body_mut() {
            Ok(body) => body,
            Err(_) => {
                return Err(Error::OutOfMemory);
            },
        };
        match body.reserve_slots(len + 1, true) {
            Ok(()) => {
                body.data.insert(index, item);
                Ok(())
            },
            Err(_) => Err(Error::OutOfMemory),
        }
    }

    /// Overwrites the item at `index`. The item that was there is dropped.
    pub fn replace(&mut self, index: usize, item: T) -> (r: Result<(), Error>)
        requires
            old(self).wf(),
        ensures
            final(self).wf(),
            final(self).spec_capacity() == old(self).spec_capacity(),
            r is Ok <==> index < old(self)@.len(),
            match r {
                Ok(()) => final(self)@ == old(self)@.update(index as int, item),
                Err(e) => e == Error::InvalidValue && final(self)@ == old(self)@,
            },
    {
        if index >= self.len() {
            return Err(Error::InvalidValue);
        }
        let body = self.force_body_mut();
        body.data[index] = item;
        Ok(())
    }

    /// Removes the element at the given index, shifting what follows it to
    /// the left.
    pub fn remove(&mut self, index: usize) -> (r: Result<(), Error>)
        requires
            old(self).wf(),
        ensures
            final(self).wf(),
            final(self).spec_capacity() == old(self).spec_capacity(),
            r is Ok <==> index < old(self)@.len(),
            match r {
                Ok(()) => final(self)@ == old(self)@.remove(index as int),
                Err(e) => e == Error::InvalidValue && final(self)@ == old(self)@,
            },
    {
        if index >= self.len() {
            return Err(Error::InvalidValue);
        }
        let body = self.force_body_mut();
        let _ = body.data.remove(index);
        Ok(())
    }

    /// Removes the elements whose indices lie inside the range. A range
    /// that does not lie inside the array is rejected.
    pub fn remove_range(&mut self, range: Range<usize>) -> (r: Result<(), Error>)
        requires
            old(self).wf(),
        ensures
            final(self).wf(),
            final(self).spec_capacity() == old(self).spec_capacity(),
            r is Ok <==> range.start <= range.end <= old(self)@.len(),
            match r {
                Ok(()) => final(self)@ == old(self)@.subrange(0, range.start as int) + old(
                    self,
                )@.subrange(range.end as int, old(self)@.len() as int),
                Err(e) => e == Error::InvalidValue && final(self)@ == old(self)@,
            },
    {
        let len = self.len();
        if range.start > range.end || range.end > len {
            return Err(Error::InvalidValue);
        }
        if range.start == range.end {
            assert(self@ =~= self@.subrange(0, range.start as int) + self@.subrange(
                range.end as int,
                len as int,
            ));
            return Ok(());
        }
        let ghost before = self@;
        let body = self.force_body_mut();
        body.splice(range.start, range.end, &[]);
        assert(body.items() =~= before.subrange(0, range.start as int) + before.subrange(
            range.end as int,
            len as int,
        ));
        Ok(())
    }

    /// Truncates the array down to `n` elements. The elements beyond are
    /// dropped; a longer array than `n` asks for is left as it is.
    pub fn truncate(&mut self, n: usize)
        requires
            old(self).wf(),
        ensures
            final(self).wf(),
            final(self).spec_capacity() == old(self).spec_capacity(),
            final(self)@ == (if n < old(self)@.len() {
                old(self)@.subrange(0, n as int)
            } else {
                old(self)@
            }),
    {
        if n < self.len() {
            let body = self.force_body_mut();
            body.data.truncate(n);
        }
    }

    /// Resizes the array so that its length is `n`: a longer array is
    /// truncated, a shorter one filled up with copies of `fill`.
    pub fn resize(&mut self, n: usize, fill: T) -> (r: Result<(), OutOfMemory>)
        requires
            old(self).wf(),
        ensures
            final(self).wf(),
            match r {
                Ok(()) => {
                    &&& final(self)@ == (if n <= old(self)@.len() {
                        old(self)@.subrange(0, n as int)
                    } else {
                        old(self)@ + Seq::new((n - old(self)@.len()) as nat, |i: int| fill)
                    })
                    &&& final(self).spec_capacity() == old(self).spec_capacity_for(
                        n as nat,
                        false,
                    )
                },
                Err(_) => {
                    &&& final(self)@ == old(self)@
                    &&& final(self).spec_capacity() == old(self).spec_capacity()
                },
            },
            n <= old(self)@.len() ==> r is Ok,
            n > Self::spec_max_capacity() ==> r is Err,
    {
        let len = self.len();
        if n <= len {
            assert(self@ =~= self@.subrange(0, len as int));
            self.truncate(n);
            return Ok(());
        }
        if n > Self::max_capacity() {
            return Err(OutOfMemory);
        }
        let body = match self.body_mut() {
            Ok(body) => body,
            Err(e) => {
                return Err(e);
            },
        };
        match body.reserve_slots(n, false) {
            Ok(()) => {
                body.fill(n, &fill);
                Ok(())
            },
            Err(e) => Err(e),
        }
    }

    /// Clears the array. The storage stays reserved.
    pub fn clear(&mut self)
        requires
            old(self).wf(),
        ensures
            final(self).wf(),
            final(self).spec_capacity() == old(self).spec_capacity(),
            final(self)@ == Seq::<T>::empty(),
    {
        if self.len() > 0 {
            let body = self.force_body_mut();
            body.data.clear();
        } else {
            assert(self@ =~= Seq::<T>::empty());
        }
    }

    /// Shrinks the allocated capacity down to the length. Where storage
    /// of that size cannot be had, the array stays as it is; either way it
    /// holds what it held.
    pub fn shrink_to_fit(&mut self)
        requires
            old(self).wf(),
        ensures
            final(self).wf(),
            final(self)@ == old(self)@,
            final(self).spec_capacity() == old(self)@.len() || final(self).spec_capacity() == old(
                self,
            ).spec_capacity(),
            old(self)@.len() == 0 ==> final(self).spec_capacity() == 0,
    {
        let len = self.len();
        if len == 0 {
            assert(self@ =~= Seq::<T>::empty());
            self.core.release();
            return ;
        }
        if len < self.capacity() {
            match self.body_mut() {
                Ok(body) => {
                    body.capacity = len;
                    release_spare(&mut body.data, len);
                },
                Err(_) => {},
            }
        }
    }

    /// Appends a copy of every item of the slice.
    pub fn extend_from_slice(&mut self, items: &[T]) -> (r: Result<(), OutOfMemory>)
        requires
            old(self).wf(),
        ensures
            final(self).wf(),
            match r {
                Ok(()) => {
                    &&& final(self)@ == old(self)@ + items@
                    &&& final(self).spec_capacity() == old(self).spec_capacity_for(
                        old(self)@.len() + items@.len(),
                        true,
                    )
                },
                Err(_) => {
                    &&& final(self)@ == old(self)@
                    &&& final(self).spec_capacity() == old(self).spec_capacity()
                },
            },
            items@.len() == 0 ==> r is Ok,
            old(self)@.len() + items@.len() > Self::spec_max_capacity() ==> r is Err,
    {
        let len = self.len();
        if items.len() > Self::max_capacity() - len {
            return Err(OutOfMemory);
        }
        if items.len() == 0 {
            assert(self@ =~= self@ + items@);
            return Ok(());
        }
        let ghost before = self@;
        let body = match self.body_mut() {
            Ok(body) => body,
            Err(e) => {
                return Err(e);
            },
        };
        match body.reserve_slots(len + items.len(), true) {
            Ok(()) => {
                body.splice(len, len, items);
                assert(body.items() =~= before + items@);
                Ok(())
            },
            Err(e) => Err(e),
        }
    }

    /// Appends the items of a vector, which the array takes over. Room is
    /// made for exactly what the array then holds.
    pub fn extend(&mut self, items: Vec<T>) -> (r: Result<(), OutOfMemory>)
        requires
            old(self).wf(),
        ensures
            final(self).wf(),
            match r {
                Ok(()) => {
                    &&& final(self)@ == old(self)@ + items@
                    &&& final(self).spec_capacity() == old(self).spec_capacity_for(
                        old(self)@.len() + items@.len(),
                        false,
                    )
                },
                Err(_) => {
                    &&& final(self)@ == old(self)@
                    &&& final(self).spec_capacity() == old(self).spec_capacity()
                },
            },
            items@.len() == 0 ==> r is Ok,
            old(self)@.len() + items@.len() > Self::spec_max_capacity() ==> r is Err,
    {
        let len = self.len();
        if items.len() > Self::max_capacity() - len {
            return Err(OutOfMemory);
        }
        if items.len() == 0 {
            assert(self@ =~= self@ + items@);
            return Ok(());
        }
        let mut items = items;
        let body = match self.body_mut() {
            Ok(body) => body,
            Err(e) => {
                return Err(e);
            },
        };
        match body.reserve_slots(len + items.len(), false) {
            Ok(()) => {
                body.data.append(&mut items);
                Ok(())
            },
            Err(e) => Err(e),
        }
    }

    /// Inserts a copy of every item of the slice at `index`, shifting what
    /// follows to the right.
    pub fn insert_from_slice(&mut self, index: usize, items: &[T]) -> (r: Result<(), Error>)
        requires
            old(self).wf(),
        ensures
            final(self).wf(),
            match r {
                Ok(()) => {
                    &&& index <= old(self)@.len()
                    &&& final(self)@ == old(self)@.subrange(0, index as int) + items@ + old(
                        self,
                    )@.subrange(index as int, old(self)@.len() as int)
                    &&& final(self).spec_capacity() == old(self).spec_capacity_for(
                        old(self)@.len() + items@.len(),
                        true,
                    )
                },
                Err(e) => {
                    &&& final(self)@ == old(self)@
                    &&& final(self).spec_capacity() == old(self).spec_capacity()
                    &&& e == (if index > old(self)@.len() {
                        Error::InvalidValue
                    } else {
                        Error::OutOfMemory
                    })
                },
            },
            index <= old(self)@.len() && items@.len() == 0 ==> r is Ok,
            index > old(self)@.len() || old(self)@.len() + items@.len()
                > Self::spec_max_capacity() ==> r is Err,
    {
        let len = self.len();
        if index > len {
            return Err(Error::InvalidValue);
        }
        if items.len() > Self::max_capacity() - len {
            return Err(Error::OutOfMemory);
        }
        if items.len() == 0 {
            assert(self@ =~= self@.subrange(0, index as int) + items@ + self@.subrange(
                index as int,
                len as int,
            ));
            return Ok(());
        }
        let body = match self.body_mut() {
            Ok(body) => body,
            Err(_) => {
                return Err(Error::OutOfMemory);
            },
        };
        match body.reserve_slots(len + items.len(), true) {
            Ok(()) => {
                body.splice(index, index, items);
                Ok(())
            },
            Err(_) => Err(Error::OutOfMemory),
        }
    }

    /// Replaces the elements whose indices lie inside the range by a copy
    /// of every item of the slice. A range that does not lie inside the
    /// array is rejected.
    pub fn replace_from_slice(&mut self, range: Range<usize>, items: &[T]) -> (r: Result<
        (),
        Error,
    >)
        requires
            old(self).wf(),
        ensures
            final(self).wf(),
            match r {
                Ok(()) => {
                    &&& range.start <= range.end <= old(self)@.len()
                    &&& final(self)@ == old(self)@.subrange(0, range.start as int) + items@ + old(
                        self,
                    )@.subrange(range.end as int, old(self)@.len() as int)
                    &&& final(self).spec_capacity() == old(self).spec_capacity_for(
                        (old(self)@.len() - (range.end - range.start) + items@.len()) as nat,
                        false,
                    )
                },
                Err(e) => {
                    &&& final(self)@ == old(self)@
                    &&& final(self).spec_capacity() == old(self).spec_capacity()
                    &&& e == (if range.start <= range.end <= old(self)@.len() {
                        Error::OutOfMemory
                    } else {
                        Error::InvalidValue
                    })
                },
            },
            range.start <= range.end <= old(self)@.len() && items@.len() == 0 ==> r is Ok,
            !(range.start <= range.end <= old(self)@.len()) || old(self)@.len() - (range.end
                - range.start) + items@.len() > Self::spec_max_capacity() ==> r is Err,
    {
        let len = self.len();
        if range.start > range.end || range.end > len {
            return Err(Error::InvalidValue);
        }
        let kept = len - (range.end - range.start);
        if items.len() > Self::max_capacity() - kept {
            return Err(Error::OutOfMemory);
        }
        if items.len() == 0 {
            if range.start < range.end {
                let body = self.force_body_mut();
                body.splice(range.start, range.end, items);
            } else {
                assert(self@ =~= self@.subrange(0, range.start as int) + items@ + self@.subrange(
                    range.end as int,
                    len as int,
                ));
            }
            return Ok(());
        }
        let body = match self.body_mut() {
            Ok(body) => body,
            Err(_) => {
                return Err(Error::OutOfMemory);
            },
        };
        match body.reserve_slots(kept + items.len(), false) {
            Ok(()) => {
                body.splice(range.start, range.end, items);
                Ok(())
            },
            Err(_) => Err(Error::OutOfMemory),
        }
    }

    /// Element-wise value equality of two arrays.
    pub open spec fn spec_same_items(&self, other: &Self) -> bool {
        &&& self@.len() == other@.len()
        &&& forall|i: int| 0 <= i < self@.len() ==> (#[trigger] self@[i]).spec_same(&other@[i])
    }
}

/// Hands back what the vector has reserved beyond `slots` elements.
/// `Vec::shrink_to` changes the capacity only, never the elements.
#[verifier::external_body]
fn release_spare<T>(data: &mut Vec<T>, slots: usize)
    ensures
        final(data)@ == old(data)@,
{
    data.shrink_to(slots)
}

impl<T: ArrayType> Clone for Array<T> {
    /// A second handle to the same storage. Nothing is copied; both
    /// handles read the same contents until one of them is edited.
    fn clone(&self) -> (copy: Self)
        ensures
            copy == *self,
            copy@ == self@,
            copy.spec_capacity() == self.spec_capacity(),
    {
        Array { core: self.core.clone_shared() }
    }
}

impl<T: ArrayType> Default for Array<T> {
    fn default() -> (array: Self)
        ensures
            array.wf(),
            array@ == Seq::<T>::empty(),
            array.spec_capacity() == 0,
            !array.has_impl(),
    {
        Array::new()
    }
}

impl<T: ArrayType> Array<T> {
    /// Compares two arrays element by element, as the elements compare.
    pub fn same_items(&self, other: &Self) -> (r: bool)
        ensures
            r ==> self.spec_same_items(other),
            T::same_is_by_value() ==> r == self.spec_same_items(other),
    {
        let a = self.as_slice();
        let b = other.as_slice();
        if a.len() != b.len() {
            return false;
        }
        let mut i: usize = 0;
        while i < a.len()
            invariant
                i <= a@.len(),
                a@ == self@,
                b@ == other@,
                a@.len() == b@.len(),
                forall|j: int| 0 <= j < i ==> (#[trigger] a@[j]).spec_same(&b@[j]),
            decreases a@.len() - i,
        {
            if !a[i].same(&b[i]) {
                return false;
            }
            i = i + 1;
        }
        true
    }
}

impl<T: ArrayType> PartialEq for Array<T> {
    /// Arrays are equal when they hold the same elements in the same
    /// order.
    fn eq(&self, other: &Self) -> (r: bool) {
        self.same_items(other)
    }
}

impl<T: ArrayType> PartialEqSpecImpl for Array<T> {
    open spec fn obeys_eq_spec() -> bool {
        T::same_is_by_value()
    }

    open spec fn eq_spec(&self, other: &Self) -> bool {
        self.spec_same_items(other)
    }
}

impl<T: ArrayType> ArrayType for Array<T> {
    open spec fn spec_impl_type() -> ImplType {
        ImplType::ArrayVar
    }

    open spec fn spec_same(&self, other: &Self) -> bool {
        self.spec_same_items(other)
    }

    open spec fn same_is_by_value() -> bool {
        T::same_is_by_value()
    }

    proof fn lemma_shape_is_array() {
    }

    fn impl_type() -> (shape: ImplType) {
        ImplType::ArrayVar
    }

    fn retain(&self) -> (copy: Self) {
        self.clone()
    }

    fn same(&self, other: &Self) -> (r: bool) {
        self.same_items(other)
    }
}

/// Reference sharing. A clone reads what its source reads. What is then
/// appended to the clone is read through the clone alone: the source
/// still reads what it read before, which is what the clone reads in front
/// of the new item.
pub proof fn lemma_clone_then_push_is_isolated<T: ArrayType>(
    source: Array<T>,
    copy: Array<T>,
    edited: Array<T>,
    item: T,
)
    requires
        copy == source,
        edited@ == copy@.push(item),
    ensures
        copy@ == source@,
        copy.spec_capacity() == source.spec_capacity(),
        edited@.len() == source@.len() + 1,
        edited@.drop_last() == source@,
        edited@.last() == item,
        edited@ != source@,
{
    assert(edited@.drop_last() =~= source@);
}

/// Copy-on-write realization. A mutable view of a clone starts out as what
/// the source reads, and writing `value` at `index` through it changes
/// what the clone reads at `index` and nowhere else; the source reads
/// what it read before.
pub proof fn lemma_mutable_view_is_isolated<T: ArrayType>(
    source: Array<T>,
    copy: Array<T>,
    view: Seq<T>,
    edited: Array<T>,
    index: int,
    value: T,
)
    requires
        copy == source,
        view == copy@,
        0 <= index < view.len(),
        edited@ == view.update(index, value),
    ensures
        view == source@,
        edited@.len() == source@.len(),
        edited@[index] == value,
        forall|i: int| 0 <= i < source@.len() && i != index ==> edited@[i] == source@[i],
        source@[index] != value ==> edited@ != source@,
{
}

/// The capacity invariant. Whatever an array held and had reserved, after
/// any number of items was appended to it and any capacity asked for, it
/// holds no more than it has reserved and has reserved no more than its
/// shape allows.
pub proof fn lemma_length_within_capacity<T: ArrayType>(array: Array<T>)
    requires
        array.wf(),
    ensures
        array@.len() <= array.spec_capacity(),
        array.spec_capacity() <= Array::<T>::spec_max_capacity(),
        forall|required: nat, growing: bool|
            array@.len() <= required <= Array::<T>::spec_max_capacity() ==> required
                <= #[trigger] array.spec_capacity_for(required, growing)
                <= Array::<T>::spec_max_capacity(),
{
    assert forall|required: nat, growing: bool|
        array@.len() <= required <= Array::<T>::spec_max_capacity() implies required
        <= #[trigger] array.spec_capacity_for(required, growing)
        <= Array::<T>::spec_max_capacity() by {
        T::lemma_shape_is_array();
        lemma_planned_capacity_bounded(
            Array::<T>::spec_item_size(),
            array.spec_capacity(),
            required,
            growing,
        );
    }
}

/// The insert and remove round trip. Removing the element at the index
/// at which an item was just inserted gives back what the array held
/// before; inserting into the middle keeps what stood in front of the
/// index and moves what stood behind it one place up.
pub proof fn lemma_insert_then_remove<T: ArrayType>(
    before: Array<T>,
    inserted: Array<T>,
    removed: Array<T>,
    index: int,
    item: T,
)
    requires
        0 <= index <= before@.len(),
        inserted@ == before@.insert(index, item),
        removed@ == inserted@.remove(index),
    ensures
        removed@ == before@,
        inserted@.len() == before@.len() + 1,
        inserted@[index] == item,
        forall|i: int| 0 <= i < index ==> inserted@[i] == before@[i],
        forall|i: int| index < i <= before@.len() ==> inserted@[i] == before@[i - 1],
{
    assert(removed@ =~= before@);
}

} // verus!
