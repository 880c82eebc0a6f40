//! The glyph buffer: text on its way to becoming positioned glyphs.
use crate::array::ArrayType;
use crate::capacity::{align_up, spec_align_up};
use crate::error::{Error, OutOfMemory};
use crate::variant::ImplType;
use vstd::prelude::*;
use vstd::utf8::{char_is_scalar, encode_scalar, encode_utf8};

verus! {

pub type GlyphId = u16;

/// The buffer holds code points, not glyph ids.
pub const GLYPH_RUN_FLAG_UCS4_CONTENT: u32 = 0x1000_0000;

/// The text held encoding errors.
pub const GLYPH_RUN_FLAG_INVALID_TEXT: u32 = 0x2000_0000;

/// Not every character was mapped to a glyph.
pub const GLYPH_RUN_FLAG_UNDEFINED_GLYPHS: u32 = 0x4000_0000;

/// Processing met invalid data in a font.
pub const GLYPH_RUN_FLAG_INVALID_FONT_DATA: u32 = 0x8000_0000;

/// Every bit that stands for a flag.
pub const GLYPH_RUN_FLAG_ALL: u32 = 0xf000_0000;

/// The fewest slots a glyph buffer reserves once it reserves any.
pub const GLYPH_BUFFER_INITIAL_CAPACITY: usize = 256;

/// Beyond the initial capacity a glyph buffer reserves multiples of this.
pub const GLYPH_BUFFER_ALIGNMENT: usize = 64;

/// The most items a glyph buffer holds, and the longest text in bytes: a
/// cluster has to fit in 32 bits.
pub const GLYPH_BUFFER_MAX_SIZE: u32 = 0xffff_ffff;

/// A set of glyph run flags.
#[derive(Clone, Copy, Debug, PartialEq, Eq, Structural)]
pub struct GlyphRunFlags {
    bits: u32,
}

impl GlyphRunFlags {
    /// The bits of the set.
    pub closed spec fn spec_bits(self) -> u32 {
        self.bits
    }

    /// True when every bit of `flags` is in the set.
    pub open spec fn spec_contains(self, flags: u32) -> bool {
        self.spec_bits() & flags == flags
    }

    /// The set of the flag bits among `bits`; bits that stand for no flag
    /// are dropped.
    pub fn from_bits_truncate(bits: u32) -> (set: Self)
        ensures
            set.spec_bits() == bits & GLYPH_RUN_FLAG_ALL,
    {
        GlyphRunFlags { bits: bits & GLYPH_RUN_FLAG_ALL }
    }

    pub fn bits(self) -> (bits: u32)
        ensures
            bits == self.spec_bits(),
    {
        self.bits
    }

    pub fn contains(self, flags: u32) -> (r: bool)
        ensures
            r == self.spec_contains(flags),
    {
        self.bits & flags == flags
    }
}

/// One entry of the primary buffer: a code point or a glyph id, and the
/// position in the source that it stands for.
#[derive(Clone, Copy, Debug, PartialEq, Eq, Structural)]
pub struct GlyphItem {
    pub value: u32,
    pub cluster: u32,
}

/// One entry of the secondary buffer: where a glyph is placed and how far
/// it advances.
#[derive(Clone, Copy, Debug, PartialEq, Eq, Structural)]
pub struct GlyphPlacement {
    pub placement_x: i32,
    pub placement_y: i32,
    pub advance_x: i32,
    pub advance_y: i32,
}

impl ArrayType for GlyphItem {
    open spec fn spec_impl_type() -> ImplType {
        ImplType::ArrayStruct8
    }

    open spec fn spec_same(&self, other: &Self) -> bool {
        *self == *other
    }

    open spec fn same_is_by_value() -> bool {
        true
    }

    proof fn lemma_shape_is_array() {
    }

    fn impl_type() -> (shape: ImplType) {
        ImplType::ArrayStruct8
    }

    fn retain(&self) -> (copy: Self) {
        *self
    }

    fn same(&self, other: &Self) -> (r: bool) {
        *self == *other
    }
}

impl ArrayType for GlyphPlacement {
    open spec fn spec_impl_type() -> ImplType {
        ImplType::ArrayStruct16
    }

    open spec fn spec_same(&self, other: &Self) -> bool {
        *self == *other
    }

    open spec fn same_is_by_value() -> bool {
        true
    }

    proof fn lemma_shape_is_array() {
    }

    fn impl_type() -> (shape: ImplType) {
        ImplType::ArrayStruct16
    }

    fn retain(&self) -> (copy: Self) {
        *self
    }

    fn same(&self, other: &Self) -> (r: bool) {
        *self == *other
    }
}

/// What a glyph buffer holds, as it is handed to rendering.
#[derive(Clone, Copy, Debug)]
pub struct GlyphRun<'a> {
    pub items: &'a [GlyphItem],
    pub placements: &'a [GlyphPlacement],
    pub flags: GlyphRunFlags,
}

/// The number of bytes that the character takes in UTF-8.
pub open spec fn spec_utf8_width(c: char) -> nat {
    encode_scalar(c as u32).len()
}

/// The number of bytes that the first `k` characters of `text` take in
/// UTF-8: the byte at which character `k` starts.
pub open spec fn spec_byte_offset(text: Seq<char>, k: int) -> nat {
    encode_utf8(text.subrange(0, k)).len()
}

/// The items that stand for a text: for each character its code point
/// and the byte at which it starts.
pub open spec fn spec_text_items(text: Seq<char>) -> Seq<GlyphItem> {
    Seq::new(
        text.len(),
        |k: int| GlyphItem { value: text[k] as u32, cluster: spec_byte_offset(text, k) as u32 },
    )
}

/// The items that stand for glyph ids: for each its id and its index.
pub open spec fn spec_glyph_items(ids: Seq<GlyphId>) -> Seq<GlyphItem> {
    Seq::new(ids.len(), |k: int| GlyphItem { value: ids[k] as u32, cluster: k as u32 })
}

/// The slots that a buffer with `capacity` slots has after it was asked
/// to hold `required` items.
pub open spec fn spec_glyph_capacity(capacity: nat, required: nat) -> nat {
    if required <= capacity {
        capacity
    } else if required < GLYPH_BUFFER_INITIAL_CAPACITY {
        GLYPH_BUFFER_INITIAL_CAPACITY as nat
    } else if required + GLYPH_BUFFER_ALIGNMENT > usize::MAX {
        required
    } else {
        spec_align_up(required, GLYPH_BUFFER_ALIGNMENT as nat)
    }
}

/// A character takes one to four bytes, by the range of its code point.
pub proof fn lemma_utf8_width(c: char)
    ensures
        spec_utf8_width(c) == (if (c as u32) < 0x80 {
            1nat
        } else if (c as u32) < 0x800 {
            2nat
        } else if (c as u32) < 0x1_0000 {
            3nat
        } else {
            4nat
        }),
{
    char_is_scalar(c);
}

/// The encoding of a text that ends in `c` is the encoding of what stands
/// before `c`, followed by the encoding of `c`.
pub proof fn lemma_encode_utf8_push(text: Seq<char>, c: char)
    ensures
        encode_utf8(text.push(c)) == encode_utf8(text) + encode_scalar(c as u32),
    decreases text.len(),
{
    if text.len() == 0 {
        assert(text.push(c).drop_first() =~= Seq::<char>::empty());
        assert(encode_utf8(Seq::<char>::empty()) =~= Seq::<u8>::empty());
        assert(text =~= Seq::<char>::empty());
        assert(encode_utf8(text.push(c)) =~= encode_scalar(c as u32) + encode_utf8(
            text.push(c).drop_first(),
        ));
        assert(encode_utf8(text.push(c)) =~= encode_utf8(text) + encode_scalar(c as u32));
    } else {
        assert(text.push(c).drop_first() =~= text.drop_first().push(c));
        lemma_encode_utf8_push(text.drop_first(), c);
        assert(encode_utf8(text.push(c)) =~= encode_utf8(text) + encode_scalar(c as u32));
    }
}

/// Each character starts where the one before it ends.
pub proof fn lemma_byte_offset_step(text: Seq<char>, k: int)
    requires
        0 <= k < text.len(),
    ensures
        spec_byte_offset(text, 0) == 0,
        spec_byte_offset(text, k + 1) == spec_byte_offset(text, k) + spec_utf8_width(text[k]),
        spec_byte_offset(text, text.len() as int) == encode_utf8(text).len(),
{
    assert(text.subrange(0, k + 1) =~= text.subrange(0, k).push(text[k]));
    lemma_encode_utf8_push(text.subrange(0, k), text[k]);
    assert(text.subrange(0, 0) =~= Seq::<char>::empty());
    assert(text.subrange(0, text.len() as int) =~= text);
}

/// Byte offsets grow with the index, by at least one byte a character.
pub proof fn lemma_byte_offset_grows(text: Seq<char>, i: int, j: int)
    requires
        0 <= i <= j <= text.len(),
    ensures
        spec_byte_offset(text, i) + (j - i) <= spec_byte_offset(text, j),
    decreases j - i,
{
    if i < j {
        lemma_byte_offset_grows(text, i, j - 1);
        lemma_byte_offset_step(text, j - 1);
        lemma_utf8_width(text[j - 1]);
    }
}

/// The number of bytes that the character takes in UTF-8.
pub fn utf8_width(c: char) -> (w: usize)
    ensures
        w == spec_utf8_width(c),
        1 <= w <= 4,
{
    proof {
        lemma_utf8_width(c);
    }
    let v = c as u32;
    if v < 0x80 {
        1
    } else if v < 0x800 {
        2
    } else if v < 0x1_0000 {
        3
    } else {
        4
    }
}

/// The length of the text in bytes, if it is one that a glyph buffer
/// takes.
pub fn text_byte_length(text: &str) -> (r: Option<u32>)
    ensures
        match r {
            Some(n) => n == spec_byte_offset(text@, text@.len() as int),
            None => spec_byte_offset(text@, text@.len() as int) > GLYPH_BUFFER_MAX_SIZE,
        },
{
    let mut total: u32 = 0;
    proof {
        assert(text@.subrange(0, 0) =~= Seq::<char>::empty());
    }
    for c in iter: text.chars()
        invariant
            iter.seq() == text@,
            total == spec_byte_offset(text@, iter.index() as int),
    {
        proof {
            lemma_byte_offset_step(text@, iter.index() as int);
        }
        let w = utf8_width(c) as u32;
        if total > GLYPH_BUFFER_MAX_SIZE - w {
            proof {
                lemma_byte_offset_grows(text@, iter.index() + 1, text@.len() as int);
            }
            return None;
        }
        total = total + w;
    }
    Some(total)
}

/// Glyph buffer.
///
/// Can hold either text or glyphs and provides basic memory management
/// that is used for text shaping, character to glyph mapping, glyph
/// substitution, and glyph positioning.
///
/// Glyph buffer provides two separate buffers called 'primary' and
/// 'secondary' that serve different purposes during processing. The
/// primary buffer always holds glyph items, and the secondary buffer
/// holds glyph positions once they were calculated.
#[derive(Debug)]
pub struct GlyphBuffer {
    primary: Vec<GlyphItem>,
    secondary: Vec<GlyphPlacement>,
    flags: GlyphRunFlags,
    capacity: usize,
}

impl GlyphBuffer {
    /// The primary buffer.
    pub closed spec fn items(&self) -> Seq<GlyphItem> {
        self.primary@
    }

    /// The secondary buffer.
    pub closed spec fn placements(&self) -> Seq<GlyphPlacement> {
        self.secondary@
    }

    pub closed spec fn spec_flags(&self) -> GlyphRunFlags {
        self.flags
    }

    /// The slots that are reserved for the primary buffer.
    pub closed spec fn spec_capacity(&self) -> nat {
        self.capacity as nat
    }

    /// The invariant of every glyph buffer: the items fit what is
    /// reserved and their number fits in 32 bits, and the secondary
    /// buffer is empty or holds one position for each item.
    pub open spec fn wf(&self) -> bool {
        &&& self.items().len() <= self.spec_capacity()
        &&& self.items().len() <= GLYPH_BUFFER_MAX_SIZE
        &&& (self.placements().len() == 0 || self.placements().len() == self.items().len())
    }

    /// Tests the invariant of the buffer. It holds of every buffer that
    /// this module hands out.
    pub fn is_valid(&self) -> (r: bool)
        ensures
            r == self.wf(),
    {
        self.primary.len() <= self.capacity && self.primary.len() <= 0xffff_ffff && (
        self.secondary.len() == 0 || self.secondary.len() == self.primary.len())
    }

    /// Creates a new empty [`GlyphBuffer`].
    pub fn new() -> (buffer: Self)
        ensures
            buffer.wf(),
            buffer.items() == Seq::<GlyphItem>::empty(),
            buffer.placements() == Seq::<GlyphPlacement>::empty(),
            buffer.spec_flags().spec_bits() == 0,
            buffer.spec_capacity() == 0,
    {
        GlyphBuffer {
            primary: Vec::new(),
            secondary: Vec::new(),
            flags: GlyphRunFlags { bits: 0 },
            capacity: 0,
        }
    }

    /// Creates a new [`GlyphBuffer`] initialized with the given text.
    pub fn from_utf8_text(text: &str) -> (r: Result<Self, OutOfMemory>)
        ensures
            match r {
                Ok(buffer) => {
                    &&& buffer.wf()
                    &&& buffer.items() == spec_text_items(text@)
                    &&& buffer.placements() == Seq::<GlyphPlacement>::empty()
                    &&& buffer.spec_flags().spec_bits() == GLYPH_RUN_FLAG_UCS4_CONTENT
                    &&& buffer.spec_capacity() == spec_glyph_capacity(0, text@.len())
                },
                Err(_) => text@.len() > 0,
            },
            spec_byte_offset(text@, text@.len() as int) > GLYPH_BUFFER_MAX_SIZE ==> r is Err,
    {
        let mut buffer = Self::new();
        match buffer.set_utf8_text(text) {
            Ok(()) => Ok(buffer),
            Err(e) => Err(e),
        }
    }

    /// The content of the buffer as it is handed to rendering.
    pub fn glyph_run(&self) -> (run: GlyphRun<'_>)
        ensures
            run.items@ == self.items(),
            run.placements@ == self.placements(),
            run.flags == self.spec_flags(),
    {
        GlyphRun {
            items: self.primary.as_slice(),
            placements: self.secondary.as_slice(),
            flags: self.flags,
        }
    }

    /// The number of items in the buffer.
    pub fn size(&self) -> (n: usize)
        ensures
            n == self.items().len(),
    {
        self.primary.len()
    }

    /// The slots that are reserved for items.
    pub fn capacity(&self) -> (n: usize)
        ensures
            n == self.spec_capacity(),
    {
        self.capacity
    }

    /// Returns the [`GlyphBuffer`]'s [`GlyphRunFlags`].
    pub fn flags(&self) -> (flags: GlyphRunFlags)
        ensures
            flags == self.spec_flags(),
    {
        self.flags
    }

    /// Returns true if this [`GlyphBuffer`] contains unicode data.
    pub fn has_text(&self) -> (r: bool)
        ensures
            r == self.spec_flags().spec_contains(GLYPH_RUN_FLAG_UCS4_CONTENT),
    {
        self.flags.contains(GLYPH_RUN_FLAG_UCS4_CONTENT)
    }

    /// Returns true if this [`GlyphBuffer`] contains [`GlyphId`] data.
    pub fn has_glyphs(&self) -> (r: bool)
        ensures
            r == !self.spec_flags().spec_contains(GLYPH_RUN_FLAG_UCS4_CONTENT),
    {
        !self.has_text()
    }

    /// Returns true if this [`GlyphBuffer`] contains invalid characters
    /// (unicode encoding errors).
    pub fn has_invalid_chars(&self) -> (r: bool)
        ensures
            r == self.spec_flags().spec_contains(GLYPH_RUN_FLAG_INVALID_TEXT),
    {
        self.flags.contains(GLYPH_RUN_FLAG_INVALID_TEXT)
    }

    /// Returns true if this [`GlyphBuffer`] contains undefined characters
    /// that weren't mapped properly to glyphs.
    pub fn has_undefined_chars(&self) -> (r: bool)
        ensures
            r == self.spec_flags().spec_contains(GLYPH_RUN_FLAG_UNDEFINED_GLYPHS),
    {
        self.flags.contains(GLYPH_RUN_FLAG_UNDEFINED_GLYPHS)
    }

    /// Returns true if one or more operations were terminated before
    /// completion because of invalid data in a font.
    pub fn has_invalid_font_data(&self) -> (r: bool)
        ensures
            r == self.spec_flags().spec_contains(GLYPH_RUN_FLAG_INVALID_FONT_DATA),
    {
        self.flags.contains(GLYPH_RUN_FLAG_INVALID_FONT_DATA)
    }

    /// Clears the content of this [`GlyphBuffer`] without releasing
    /// internal buffers.
    pub fn clear(&mut self)
        requires
            old(self).wf(),
        ensures
            final(self).wf(),
            final(self).items() == Seq::<GlyphItem>::empty(),
            final(self).placements() == Seq::<GlyphPlacement>::empty(),
            final(self).spec_flags().spec_bits() == 0,
            final(self).spec_capacity() == old(self).spec_capacity(),
    {
        self.primary.clear();
        self.secondary.clear();
        self.flags = GlyphRunFlags { bits: 0 };
    }

    /// Makes sure that `required` slots are reserved for items.
    fn reserve_slots(&mut self, required: usize) -> (r: Result<(), OutOfMemory>)
        requires
            old(self).wf(),
        ensures
            final(self).wf(),
            final(self).items() == old(self).items(),
            final(self).placements() == old(self).placements(),
            final(self).spec_flags() == old(self).spec_flags(),
            final(self).spec_capacity() == (if r is Ok {
                spec_glyph_capacity(old(self).spec_capacity(), required as nat)
            } else {
                old(self).spec_capacity()
            }),
            r is Ok ==> required <= final(self).spec_capacity(),
            required <= old(self).spec_capacity() ==> r is Ok,
    {
        if required <= self.capacity {
            return Ok(());
        }
        let planned: usize = if required < GLYPH_BUFFER_INITIAL_CAPACITY {
            GLYPH_BUFFER_INITIAL_CAPACITY
        } else if required > usize::MAX - GLYPH_BUFFER_ALIGNMENT {
            required
        } else {
            align_up(required, GLYPH_BUFFER_ALIGNMENT)
        };
        let granted = OutOfMemory::from_reservation(
            self.primary.try_reserve(planned - self.primary.len()),
        );
        if granted.is_ok() {
            self.capacity = planned;
        }
        granted
    }

    /// Sets text content of this [`GlyphBuffer`]: one item for each
    /// character, with its code point and the byte at which it starts.
    pub fn set_utf8_text(&mut self, text: &str) -> (r: Result<(), OutOfMemory>)
        requires
            old(self).wf(),
        ensures
            final(self).wf(),
            match r {
                Ok(()) => {
                    &&& final(self).items() == spec_text_items(text@)
                    &&& final(self).placements() == Seq::<GlyphPlacement>::empty()
                    &&& final(self).spec_flags().spec_bits() == GLYPH_RUN_FLAG_UCS4_CONTENT
                    &&& final(self).spec_capacity() == spec_glyph_capacity(
                        old(self).spec_capacity(),
                        text@.len(),
                    )
                },
                Err(_) => {
                    &&& final(self).items() == old(self).items()
                    &&& final(self).placements() == old(self).placements()
                    &&& final(self).spec_flags() == old(self).spec_flags()
                    &&& final(self).spec_capacity() == old(self).spec_capacity()
                },
            },
            spec_byte_offset(text@, text@.len() as int) <= GLYPH_BUFFER_MAX_SIZE && text@.len()
                <= old(self).spec_capacity() ==> r is Ok,
            spec_byte_offset(text@, text@.len() as int) > GLYPH_BUFFER_MAX_SIZE ==> r is Err,
    {
        if text_byte_length(text).is_none() {
            return Err(OutOfMemory);
        }
        proof {
            assert(text@.subrange(0, 0) =~= Seq::<char>::empty());
            lemma_byte_offset_grows(text@, 0, text@.len() as int);
        }
        let count = text.unicode_len();
        match self.reserve_slots(count) {
            Ok(()) => {},
            Err(e) => {
                return Err(e);
            },
        }
        self.primary.clear();
        self.secondary.clear();
        self.flags = GlyphRunFlags { bits: GLYPH_RUN_FLAG_UCS4_CONTENT };
        let mut offset: u32 = 0;
        for c in iter: text.chars()
            invariant
                iter.seq() == text@,
                spec_byte_offset(text@, text@.len() as int) <= GLYPH_BUFFER_MAX_SIZE,
                offset == spec_byte_offset(text@, iter.index() as int),
                self.primary@ == spec_text_items(text@).subrange(0, iter.index() as int),
                self.secondary@ == Seq::<GlyphPlacement>::empty(),
                self.flags.bits == GLYPH_RUN_FLAG_UCS4_CONTENT,
                self.capacity == spec_glyph_capacity(old(self).spec_capacity(), text@.len()),
                text@.len() <= self.capacity,
        {
            proof {
                lemma_byte_offset_step(text@, iter.index() as int);
                lemma_byte_offset_grows(text@, iter.index() + 1, text@.len() as int);
            }
            self.primary.push(GlyphItem { value: c as u32, cluster: offset });
            offset = offset + utf8_width(c) as u32;
            assert(self.primary@ =~= spec_text_items(text@).subrange(0, iter.index() + 1));
        }
        assert(self.primary@ =~= spec_text_items(text@));
        Ok(())
    }

    /// Sets glyph content of this [`GlyphBuffer`]: one item for each
    /// glyph id, with its index as its cluster.
    pub fn set_glyph_ids(&mut self, ids: &[GlyphId]) -> (r: Result<(), OutOfMemory>)
        requires
            old(self).wf(),
        ensures
            final(self).wf(),
            match r {
                Ok(()) => {
                    &&& final(self).items() == spec_glyph_items(ids@)
                    &&& final(self).placements() == Seq::<GlyphPlacement>::empty()
                    &&& final(self).spec_flags().spec_bits() == 0
                    &&& final(self).spec_capacity() == spec_glyph_capacity(
                        old(self).spec_capacity(),
                        ids@.len(),
                    )
                },
                Err(_) => {
                    &&& final(self).items() == old(self).items()
                    &&& final(self).placements() == old(self).placements()
                    &&& final(self).spec_flags() == old(self).spec_flags()
                    &&& final(self).spec_capacity() == old(self).spec_capacity()
                },
            },
            ids@.len() <= GLYPH_BUFFER_MAX_SIZE && ids@.len() <= old(self).spec_capacity()
                ==> r is Ok,
            ids@.len() > GLYPH_BUFFER_MAX_SIZE ==> r is Err,
    {
        if ids.len() > GLYPH_BUFFER_MAX_SIZE as usize {
            return Err(OutOfMemory);
        }
        match self.reserve_slots(ids.len()) {
            Ok(()) => {},
            Err(e) => {
                return Err(e);
            },
        }
        self.primary.clear();
        self.secondary.clear();
        self.flags = GlyphRunFlags { bits: 0 };
        let mut i: usize = 0;
        while i < ids.len()
            invariant
                i <= ids@.len() <= GLYPH_BUFFER_MAX_SIZE,
                self.primary@ == spec_glyph_items(ids@).subrange(0, i as int),
                self.secondary@ == Seq::<GlyphPlacement>::empty(),
                self.flags.bits == 0,
                self.capacity == spec_glyph_capacity(old(self).spec_capacity(), ids@.len()),
                ids@.len() <= self.capacity,
            decreases ids@.len() - i,
        {
            self.primary.push(GlyphItem { value: ids[i] as u32, cluster: i as u32 });
            i = i + 1;
            assert(self.primary@ =~= spec_glyph_items(ids@).subrange(0, i as int));
        }
        assert(self.primary@ =~= spec_glyph_items(ids@));
        Ok(())
    }

    /// Takes in the flags that a processing pass reports.
    pub fn refresh_flags(&mut self, flags: GlyphRunFlags)
        requires
            old(self).wf(),
        ensures
            final(self).wf(),
            final(self).items() == old(self).items(),
            final(self).placements() == old(self).placements(),
            final(self).spec_capacity() == old(self).spec_capacity(),
            final(self).spec_flags() == flags,
    {
        self.flags = flags;
    }

    /// Takes in the positions that were calculated for the glyphs: one
    /// for each item. Any other number of positions is rejected.
    pub fn set_placements(&mut self, placements: &[GlyphPlacement]) -> (r: Result<(), Error>)
        requires
            old(self).wf(),
        ensures
            final(self).wf(),
            final(self).items() == old(self).items(),
            final(self).spec_flags() == old(self).spec_flags(),
            final(self).spec_capacity() == old(self).spec_capacity(),
            match r {
                Ok(()) => final(self).placements() == placements@,
                Err(e) => {
                    &&& final(self).placements() == old(self).placements()
                    &&& e == (if placements@.len() == old(self).items().len() {
                        Error::OutOfMemory
                    } else {
                        Error::InvalidValue
                    })
                },
            },
            placements@.len() != old(self).items().len() ==> r is Err,
            placements@.len() == 0 && old(self).items().len() == 0 ==> r is Ok,
    {
        if placements.len() != self.primary.len() {
            return Err(Error::InvalidValue);
        }
        if placements.len() == 0 {
            self.secondary.clear();
            assert(self.secondary@ =~= placements@);
            return Ok(());
        }
        let mut fresh: Vec<GlyphPlacement> = Vec::new();
        if fresh.try_reserve(placements.len()).is_err() {
            return Err(Error::OutOfMemory);
        }
        let mut i: usize = 0;
        while i < placements.len()
            invariant
                i <= placements@.len(),
                fresh@ == placements@.subrange(0, i as int),
            decreases placements@.len() - i,
        {
            fresh.push(placements[i]);
            i = i + 1;
            assert(fresh@ =~= placements@.subrange(0, i as int));
        }
        assert(fresh@ =~= placements@);
        self.secondary = fresh;
        Ok(())
    }
}

} // verus!
