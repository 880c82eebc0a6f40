//! Shape tags: the fixed binary layout of what a backing allocation stores.
use vstd::prelude::*;

verus! {

/// The layout of a backing allocation. An array has one of the `Array*`
/// shapes for its whole life; the shape fixes the width of one element and
/// whether an element is itself a reference-counted handle.
#[derive(Clone, Copy, Debug, PartialEq, Eq, Structural)]
pub enum ImplType {
    /// No layout: the shape of a handle that stores nothing.
    Null,
    /// An array of nested handles.
    ArrayVar,
    ArrayI8,
    ArrayU8,
    ArrayI16,
    ArrayU16,
    ArrayI32,
    ArrayU32,
    ArrayI64,
    ArrayU64,
    ArrayF32,
    ArrayF64,
    ArrayStruct1,
    ArrayStruct2,
    ArrayStruct3,
    ArrayStruct4,
    ArrayStruct6,
    ArrayStruct8,
    ArrayStruct10,
    ArrayStruct12,
    ArrayStruct16,
    ArrayStruct20,
    ArrayStruct24,
    ArrayStruct32,
}

/// The width in bytes of a nested handle stored as an array element.
pub const HANDLE_SIZE: usize = 8;

impl ImplType {
    /// The width in bytes of one element of an array of this shape, and 0
    /// for a shape that is no array.
    pub open spec fn spec_item_size(self) -> nat {
        match self {
            ImplType::ArrayVar => HANDLE_SIZE as nat,
            ImplType::ArrayI8 | ImplType::ArrayU8 | ImplType::ArrayStruct1 => 1,
            ImplType::ArrayI16 | ImplType::ArrayU16 | ImplType::ArrayStruct2 => 2,
            ImplType::ArrayStruct3 => 3,
            ImplType::ArrayI32 | ImplType::ArrayU32 | ImplType::ArrayF32
            | ImplType::ArrayStruct4 => 4,
            ImplType::ArrayStruct6 => 6,
            ImplType::ArrayI64 | ImplType::ArrayU64 | ImplType::ArrayF64
            | ImplType::ArrayStruct8 => 8,
            ImplType::ArrayStruct10 => 10,
            ImplType::ArrayStruct12 => 12,
            ImplType::ArrayStruct16 => 16,
            ImplType::ArrayStruct20 => 20,
            ImplType::ArrayStruct24 => 24,
            ImplType::ArrayStruct32 => 32,
            ImplType::Null => 0,
        }
    }

    /// True for the shapes an array can have.
    pub open spec fn spec_is_array(self) -> bool {
        self.spec_item_size() > 0
    }

    /// True for the one array shape whose elements are handles, which are
    /// retained when copied and released when dropped.
    pub open spec fn spec_holds_handles(self) -> bool {
        self == ImplType::ArrayVar
    }

    pub fn item_size(self) -> (size: usize)
        ensures
            size == self.spec_item_size(),
            size <= 32,
    {
        match self {
            ImplType::ArrayVar => HANDLE_SIZE,
            ImplType::ArrayI8 | ImplType::ArrayU8 | ImplType::ArrayStruct1 => 1,
            ImplType::ArrayI16 | ImplType::ArrayU16 | ImplType::ArrayStruct2 => 2,
            ImplType::ArrayStruct3 => 3,
            ImplType::ArrayI32 | ImplType::ArrayU32 | ImplType::ArrayF32
            | ImplType::ArrayStruct4 => 4,
            ImplType::ArrayStruct6 => 6,
            ImplType::ArrayI64 | ImplType::ArrayU64 | ImplType::ArrayF64
            | ImplType::ArrayStruct8 => 8,
            ImplType::ArrayStruct10 => 10,
            ImplType::ArrayStruct12 => 12,
            ImplType::ArrayStruct16 => 16,
            ImplType::ArrayStruct20 => 20,
            ImplType::ArrayStruct24 => 24,
            ImplType::ArrayStruct32 => 32,
            ImplType::Null => 0,
        }
    }

    pub fn is_array(self) -> (r: bool)
        ensures
            r == self.spec_is_array(),
    {
        self.item_size() > 0
    }

    pub fn holds_handles(self) -> (r: bool)
        ensures
            r == self.spec_holds_handles(),
    {
        match self {
            ImplType::ArrayVar => true,
            _ => false,
        }
    }
}

} // verus!
