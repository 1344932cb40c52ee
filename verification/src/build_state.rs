//! The bookkeeping of a value that is built piece by piece: which fields
//! are initialized, whether the value is complete, the path to the piece
//! being built, and the errors that building reports.
use vstd::prelude::*;
use crate::text::{decimal, push_decimal, string_push};

verus! {

/// Bit `i` of `f`.
pub open spec fn bit(f: u64, i: u64) -> bool {
    (f >> i) & 1u64 == 1u64
}

/// The set of initialized fields of a value being built: one flag per
/// field index, for the indices below 64.
#[derive(Clone, Copy)]
pub struct ISet {
    flags: u64,
}

impl View for ISet {
    type V = Seq<bool>;

    /// The flags, by index.
    closed spec fn view(&self) -> Seq<bool> {
        Seq::new(64, |i: int| bit(self.flags, i as u64))
    }
}

/// Whether all 64 flags are set.
pub open spec fn all_flags(s: Seq<bool>) -> bool {
    forall|i: int| 0 <= i < 64 ==> #[trigger] s[i]
}

proof fn lemma_full(f: u64)
    ensures
        (f == 0xffff_ffff_ffff_ffffu64) <==> (forall|i: u64| i < 64 ==> #[trigger] bit(f, i)),
{
    if f == 0xffff_ffff_ffff_ffffu64 {
        assert forall|i: u64| i < 64 implies #[trigger] bit(f, i) by {
            assert((f >> i) & 1u64 == 1u64) by (bit_vector)
                requires
                    f == 0xffff_ffff_ffff_ffffu64,
                    i < 64,
            ;
        }
    } else {
        assert((f >> 0u64) & 1u64 == 0u64 || (f >> 1u64) & 1u64 == 0u64 || (f >> 2u64) & 1u64 == 0u64 || (f >> 3u64) & 1u64 == 0u64 || (f >> 4u64) & 1u64 == 0u64 || (f >> 5u64) & 1u64 == 0u64 || (f >> 6u64) & 1u64 == 0u64 || (f >> 7u64) & 1u64 == 0u64 || (f >> 8u64) & 1u64 == 0u64 || (f >> 9u64) & 1u64 == 0u64 || (f >> 10u64) & 1u64 == 0u64 || (f >> 11u64) & 1u64 == 0u64 || (f >> 12u64) & 1u64 == 0u64 || (f >> 13u64) & 1u64 == 0u64 || (f >> 14u64) & 1u64 == 0u64 || (f >> 15u64) & 1u64 == 0u64 || (f >> 16u64) & 1u64 == 0u64 || (f >> 17u64) & 1u64 == 0u64 || (f >> 18u64) & 1u64 == 0u64 || (f >> 19u64) & 1u64 == 0u64 || (f >> 20u64) & 1u64 == 0u64 || (f >> 21u64) & 1u64 == 0u64 || (f >> 22u64) & 1u64 == 0u64 || (f >> 23u64) & 1u64 == 0u64 || (f >> 24u64) & 1u64 == 0u64 || (f >> 25u64) & 1u64 == 0u64 || (f >> 26u64) & 1u64 == 0u64 || (f >> 27u64) & 1u64 == 0u64 || (f >> 28u64) & 1u64 == 0u64 || (f >> 29u64) & 1u64 == 0u64 || (f >> 30u64) & 1u64 == 0u64 || (f >> 31u64) & 1u64 == 0u64 || (f >> 32u64) & 1u64 == 0u64 || (f >> 33u64) & 1u64 == 0u64 || (f >> 34u64) & 1u64 == 0u64 || (f >> 35u64) & 1u64 == 0u64 || (f >> 36u64) & 1u64 == 0u64 || (f >> 37u64) & 1u64 == 0u64 || (f >> 38u64) & 1u64 == 0u64 || (f >> 39u64) & 1u64 == 0u64 || (f >> 40u64) & 1u64 == 0u64 || (f >> 41u64) & 1u64 == 0u64 || (f >> 42u64) & 1u64 == 0u64 || (f >> 43u64) & 1u64 == 0u64 || (f >> 44u64) & 1u64 == 0u64 || (f >> 45u64) & 1u64 == 0u64 || (f >> 46u64) & 1u64 == 0u64 || (f >> 47u64) & 1u64 == 0u64 || (f >> 48u64) & 1u64 == 0u64 || (f >> 49u64) & 1u64 == 0u64 || (f >> 50u64) & 1u64 == 0u64 || (f >> 51u64) & 1u64 == 0u64 || (f >> 52u64) & 1u64 == 0u64 || (f >> 53u64) & 1u64 == 0u64 || (f >> 54u64) & 1u64 == 0u64 || (f >> 55u64) & 1u64 == 0u64 || (f >> 56u64) & 1u64 == 0u64 || (f >> 57u64) & 1u64 == 0u64 || (f >> 58u64) & 1u64 == 0u64 || (f >> 59u64) & 1u64 == 0u64 || (f >> 60u64) & 1u64 == 0u64 || (f >> 61u64) & 1u64 == 0u64 || (f >> 62u64) & 1u64 == 0u64 || (f >> 63u64) & 1u64 == 0u64) by (bit_vector)
            requires
                f != 0xffff_ffff_ffff_ffffu64,
        ;
        let j = choose|j: u64| j < 64 && (f >> j) & 1u64 == 0u64;
        assert(exists|j: u64| j < 64 && (f >> j) & 1u64 == 0u64) by {
            if (f >> 0u64) & 1u64 == 0u64 { assert(0u64 < 64 && (f >> 0u64) & 1u64 == 0u64); }
            if (f >> 1u64) & 1u64 == 0u64 { assert(1u64 < 64 && (f >> 1u64) & 1u64 == 0u64); }
            if (f >> 2u64) & 1u64 == 0u64 { assert(2u64 < 64 && (f >> 2u64) & 1u64 == 0u64); }
            if (f >> 3u64) & 1u64 == 0u64 { assert(3u64 < 64 && (f >> 3u64) & 1u64 == 0u64); }
            if (f >> 4u64) & 1u64 == 0u64 { assert(4u64 < 64 && (f >> 4u64) & 1u64 == 0u64); }
            if (f >> 5u64) & 1u64 == 0u64 { assert(5u64 < 64 && (f >> 5u64) & 1u64 == 0u64); }
            if (f >> 6u64) & 1u64 == 0u64 { assert(6u64 < 64 && (f >> 6u64) & 1u64 == 0u64); }
            if (f >> 7u64) & 1u64 == 0u64 { assert(7u64 < 64 && (f >> 7u64) & 1u64 == 0u64); }
            if (f >> 8u64) & 1u64 == 0u64 { assert(8u64 < 64 && (f >> 8u64) & 1u64 == 0u64); }
            if (f >> 9u64) & 1u64 == 0u64 { assert(9u64 < 64 && (f >> 9u64) & 1u64 == 0u64); }
            if (f >> 10u64) & 1u64 == 0u64 { assert(10u64 < 64 && (f >> 10u64) & 1u64 == 0u64); }
            if (f >> 11u64) & 1u64 == 0u64 { assert(11u64 < 64 && (f >> 11u64) & 1u64 == 0u64); }
            if (f >> 12u64) & 1u64 == 0u64 { assert(12u64 < 64 && (f >> 12u64) & 1u64 == 0u64); }
            if (f >> 13u64) & 1u64 == 0u64 { assert(13u64 < 64 && (f >> 13u64) & 1u64 == 0u64); }
            if (f >> 14u64) & 1u64 == 0u64 { assert(14u64 < 64 && (f >> 14u64) & 1u64 == 0u64); }
            if (f >> 15u64) & 1u64 == 0u64 { assert(15u64 < 64 && (f >> 15u64) & 1u64 == 0u64); }
            if (f >> 16u64) & 1u64 == 0u64 { assert(16u64 < 64 && (f >> 16u64) & 1u64 == 0u64); }
            if (f >> 17u64) & 1u64 == 0u64 { assert(17u64 < 64 && (f >> 17u64) & 1u64 == 0u64); }
            if (f >> 18u64) & 1u64 == 0u64 { assert(18u64 < 64 && (f >> 18u64) & 1u64 == 0u64); }
            if (f >> 19u64) & 1u64 == 0u64 { assert(19u64 < 64 && (f >> 19u64) & 1u64 == 0u64); }
            if (f >> 20u64) & 1u64 == 0u64 { assert(20u64 < 64 && (f >> 20u64) & 1u64 == 0u64); }
            if (f >> 21u64) & 1u64 == 0u64 { assert(21u64 < 64 && (f >> 21u64) & 1u64 == 0u64); }
            if (f >> 22u64) & 1u64 == 0u64 { assert(22u64 < 64 && (f >> 22u64) & 1u64 == 0u64); }
            if (f >> 23u64) & 1u64 == 0u64 { assert(23u64 < 64 && (f >> 23u64) & 1u64 == 0u64); }
            if (f >> 24u64) & 1u64 == 0u64 { assert(24u64 < 64 && (f >> 24u64) & 1u64 == 0u64); }
            if (f >> 25u64) & 1u64 == 0u64 { assert(25u64 < 64 && (f >> 25u64) & 1u64 == 0u64); }
            if (f >> 26u64) & 1u64 == 0u64 { assert(26u64 < 64 && (f >> 26u64) & 1u64 == 0u64); }
            if (f >> 27u64) & 1u64 == 0u64 { assert(27u64 < 64 && (f >> 27u64) & 1u64 == 0u64); }
            if (f >> 28u64) & 1u64 == 0u64 { assert(28u64 < 64 && (f >> 28u64) & 1u64 == 0u64); }
            if (f >> 29u64) & 1u64 == 0u64 { assert(29u64 < 64 && (f >> 29u64) & 1u64 == 0u64); }
            if (f >> 30u64) & 1u64 == 0u64 { assert(30u64 < 64 && (f >> 30u64) & 1u64 == 0u64); }
            if (f >> 31u64) & 1u64 == 0u64 { assert(31u64 < 64 && (f >> 31u64) & 1u64 == 0u64); }
            if (f >> 32u64) & 1u64 == 0u64 { assert(32u64 < 64 && (f >> 32u64) & 1u64 == 0u64); }
            if (f >> 33u64) & 1u64 == 0u64 { assert(33u64 < 64 && (f >> 33u64) & 1u64 == 0u64); }
            if (f >> 34u64) & 1u64 == 0u64 { assert(34u64 < 64 && (f >> 34u64) & 1u64 == 0u64); }
            if (f >> 35u64) & 1u64 == 0u64 { assert(35u64 < 64 && (f >> 35u64) & 1u64 == 0u64); }
            if (f >> 36u64) & 1u64 == 0u64 { assert(36u64 < 64 && (f >> 36u64) & 1u64 == 0u64); }
            if (f >> 37u64) & 1u64 == 0u64 { assert(37u64 < 64 && (f >> 37u64) & 1u64 == 0u64); }
            if (f >> 38u64) & 1u64 == 0u64 { assert(38u64 < 64 && (f >> 38u64) & 1u64 == 0u64); }
            if (f >> 39u64) & 1u64 == 0u64 { assert(39u64 < 64 && (f >> 39u64) & 1u64 == 0u64); }
            if (f >> 40u64) & 1u64 == 0u64 { assert(40u64 < 64 && (f >> 40u64) & 1u64 == 0u64); }
            if (f >> 41u64) & 1u64 == 0u64 { assert(41u64 < 64 && (f >> 41u64) & 1u64 == 0u64); }
            if (f >> 42u64) & 1u64 == 0u64 { assert(42u64 < 64 && (f >> 42u64) & 1u64 == 0u64); }
            if (f >> 43u64) & 1u64 == 0u64 { assert(43u64 < 64 && (f >> 43u64) & 1u64 == 0u64); }
            if (f >> 44u64) & 1u64 == 0u64 { assert(44u64 < 64 && (f >> 44u64) & 1u64 == 0u64); }
            if (f >> 45u64) & 1u64 == 0u64 { assert(45u64 < 64 && (f >> 45u64) & 1u64 == 0u64); }
            if (f >> 46u64) & 1u64 == 0u64 { assert(46u64 < 64 && (f >> 46u64) & 1u64 == 0u64); }
            if (f >> 47u64) & 1u64 == 0u64 { assert(47u64 < 64 && (f >> 47u64) & 1u64 == 0u64); }
            if (f >> 48u64) & 1u64 == 0u64 { assert(48u64 < 64 && (f >> 48u64) & 1u64 == 0u64); }
            if (f >> 49u64) & 1u64 == 0u64 { assert(49u64 < 64 && (f >> 49u64) & 1u64 == 0u64); }
            if (f >> 50u64) & 1u64 == 0u64 { assert(50u64 < 64 && (f >> 50u64) & 1u64 == 0u64); }
            if (f >> 51u64) & 1u64 == 0u64 { assert(51u64 < 64 && (f >> 51u64) & 1u64 == 0u64); }
            if (f >> 52u64) & 1u64 == 0u64 { assert(52u64 < 64 && (f >> 52u64) & 1u64 == 0u64); }
            if (f >> 53u64) & 1u64 == 0u64 { assert(53u64 < 64 && (f >> 53u64) & 1u64 == 0u64); }
            if (f >> 54u64) & 1u64 == 0u64 { assert(54u64 < 64 && (f >> 54u64) & 1u64 == 0u64); }
            if (f >> 55u64) & 1u64 == 0u64 { assert(55u64 < 64 && (f >> 55u64) & 1u64 == 0u64); }
            if (f >> 56u64) & 1u64 == 0u64 { assert(56u64 < 64 && (f >> 56u64) & 1u64 == 0u64); }
            if (f >> 57u64) & 1u64 == 0u64 { assert(57u64 < 64 && (f >> 57u64) & 1u64 == 0u64); }
            if (f >> 58u64) & 1u64 == 0u64 { assert(58u64 < 64 && (f >> 58u64) & 1u64 == 0u64); }
            if (f >> 59u64) & 1u64 == 0u64 { assert(59u64 < 64 && (f >> 59u64) & 1u64 == 0u64); }
            if (f >> 60u64) & 1u64 == 0u64 { assert(60u64 < 64 && (f >> 60u64) & 1u64 == 0u64); }
            if (f >> 61u64) & 1u64 == 0u64 { assert(61u64 < 64 && (f >> 61u64) & 1u64 == 0u64); }
            if (f >> 62u64) & 1u64 == 0u64 { assert(62u64 < 64 && (f >> 62u64) & 1u64 == 0u64); }
            if (f >> 63u64) & 1u64 == 0u64 { assert(63u64 < 64 && (f >> 63u64) & 1u64 == 0u64); }
        }
        assert(!bit(f, j));
    }
}

impl Default for ISet {
    /// The set with no flag set.
    fn default() -> (r: Self)
        ensures
            forall|i: int| 0 <= i < 64 ==> !#[trigger] r@[i],
    {
        let r = ISet { flags: 0 };
        assert forall|i: int| 0 <= i < 64 implies !#[trigger] r@[i] by {
            let k = i as u64;
            assert((0u64 >> k) & 1u64 == 0u64) by (bit_vector);
        }
        r
    }
}

impl ISet {
    /// A set holds one flag for each index below 64.
    pub proof fn lemma_view_len(&self)
        ensures
            self@.len() == 64,
    {
    }

    /// A set of the flags at and above `count` (the fields below `count`
    /// are not initialized).
    pub fn new(count: usize) -> (r: Self)
        requires
            count < 64,
        ensures
            forall|i: int| 0 <= i < 64 ==> r@[i] == (i >= count),
    {
        let c = count as u64;
        assert(1u64 << c >= 1u64) by (bit_vector)
            requires
                c < 64,
        ;
        let low = (1u64 << c) - 1u64;
        let flags = !low;
        let r = ISet { flags };
        assert forall|i: int| 0 <= i < 64 implies r@[i] == (i >= count) by {
            let k = i as u64;
            assert(((!low) >> k) & 1u64 == 1u64 <==> k >= c) by (bit_vector)
                requires
                    c < 64,
                    k < 64,
                    low == ((1u64 << c) - 1u64) as u64,
            ;
        }
        r
    }

    /// Sets the flag at `index`.
    pub fn set(&mut self, index: usize)
        requires
            index < 64,
        ensures
            final(self)@ == old(self)@.update(index as int, true),
    {
        let i = index as u64;
        let f = self.flags;
        self.flags = f | (1u64 << i);
        let g = self.flags;
        assert forall|k: int| 0 <= k < 64 implies #[trigger] self@[k] == old(self)@.update(index as int, true)[k] by {
            let j = k as u64;
            assert(((f | (1u64 << i)) >> j) & 1u64 == 1u64 <==> (j == i || (f >> j) & 1u64 == 1u64)) by (bit_vector)
                requires
                    i < 64,
                    j < 64,
            ;
        }
        assert(self@ =~= old(self)@.update(index as int, true));
    }

    /// Clears the flag at `index`.
    pub fn unset(&mut self, index: usize)
        requires
            index < 64,
        ensures
            final(self)@ == old(self)@.update(index as int, false),
    {
        let i = index as u64;
        let f = self.flags;
        self.flags = f & !(1u64 << i);
        assert forall|k: int| 0 <= k < 64 implies #[trigger] self@[k] == old(self)@.update(index as int, false)[k] by {
            let j = k as u64;
            assert(((f & !(1u64 << i)) >> j) & 1u64 == 1u64 <==> (j != i && (f >> j) & 1u64 == 1u64)) by (bit_vector)
                requires
                    i < 64,
                    j < 64,
            ;
        }
        assert(self@ =~= old(self)@.update(index as int, false));
    }

    /// Whether the flag at `index` is set.
    pub fn get(&self, index: usize) -> (r: bool)
        requires
            index < 64,
        ensures
            r == self@[index as int],
    {
        let i = index as u64;
        let f = self.flags;
        assert((f & (1u64 << i) != 0u64) <==> ((f >> i) & 1u64 == 1u64)) by (bit_vector)
            requires
                i < 64,
        ;
        (f & (1u64 << i)) != 0
    }

    /// Whether every flag is set.
    pub fn all_set(&self) -> (r: bool)
        ensures
            r == all_flags(self@),
    {
        proof {
            lemma_full(self.flags);
            if all_flags(self@) {
                assert forall|i: u64| i < 64 implies #[trigger] bit(self.flags, i) by {
                    assert(self@[i as int]);
                }
            }
        }
        self.flags == 0xffff_ffff_ffff_ffffu64
    }

    /// Sets every flag.
    pub fn set_all(&mut self)
        ensures
            all_flags(final(self)@),
    {
        self.flags = 0xffff_ffff_ffff_ffffu64;
        proof {
            lemma_full(self.flags);
        }
    }
}


/// Where the insertion of a map entry stands.
#[derive(PartialEq, Eq, Structural)]
pub enum MapInsertState {
    /// No entry is being inserted
    Idle,
    /// The key is being built, and whether its memory is allocated
    PushingKey { key_allocated: bool },
    /// The key is built and the value is being built, and whether the
    /// value's memory is allocated
    PushingValue { value_allocated: bool },
}

/// The variant selected for an enum being built: its name and the names of
/// its fields.
pub struct VariantInfo {
    pub name: String,
    pub fields: Vec<String>,
}

/// How far a value being built is initialized.
pub enum Tracker {
    /// Wholly uninitialized
    Uninit,
    /// Wholly initialized
    Init,
    /// An array whose elements are initialized one by one
    Array { iset: ISet, current_child: Option<usize> },
    /// A struct whose fields are initialized one by one
    Struct { iset: ISet, current_child: Option<usize> },
    /// A smart pointer, and whether its pointee is initialized
    SmartPointer { is_initialized: bool },
    /// An enum whose variant is selected, and whose fields are initialized
    /// one by one
    Enum { variant: VariantInfo, data: ISet, current_child: Option<usize> },
    /// A list, and whether it is initialized
    List { is_initialized: bool, current_child: bool },
    /// A map, whether it is initialized, and where an insertion stands
    MapOf { is_initialized: bool, insert_state: MapInsertState },
}

/// A variant of an enum type: its name, its discriminant if it has one,
/// and the names of its fields.
pub struct VariantDesc {
    pub name: String,
    pub discriminant: Option<i64>,
    pub fields: Vec<String>,
}

/// How an enum stores its discriminant.
#[derive(PartialEq, Eq, Structural, Clone, Copy)]
pub enum EnumRepr {
    /// In the zeros of a pointer that cannot be null
    RustNPO,
    U8,
    U16,
    U32,
    U64,
    USize,
    I8,
    I16,
    I32,
    I64,
    ISize,
}

/// What a type is, as building reads it.
pub enum TypeInfo {
    /// A struct, with the names of its fields
    Struct(Vec<String>),
    /// An enum, with its variants and how its discriminant is stored
    Enum { variants: Vec<VariantDesc>, repr: EnumRepr },
    /// A union
    Union,
    /// A type whose inside is not known
    Opaque,
    /// An array of this many elements
    Array(usize),
    /// Any other sequence (slice, tuple)
    OtherSequence,
    /// A pointer
    Pointer,
    /// A primitive
    Primitive,
}

/// What a type's definition offers once a part of the value, built in a
/// frame of its own, is finished.
pub enum DefInfo {
    /// A smart pointer, whether it is a `Box` or an `Arc`, and whether it
    /// can be made from its pointee (it has a `new_into` function)
    SmartPointer { box_or_arc: bool, can_wrap: bool },
    /// A list, whether it can be made empty in place (it has an
    /// `init_in_place_with_capacity` function), and whether it can take an
    /// element (it has a `push` function)
    List { can_init: bool, can_push: bool },
    /// A map
    MapDef,
    /// Any other definition
    Other,
}

/// A type as building reads it: its description (as `Display` writes the
/// shape), what it is, what its definition offers, and whether it is sized.
pub struct ShapeInfo {
    pub shape: String,
    pub ty: TypeInfo,
    pub def: DefInfo,
    pub sized: bool,
}

/// Whose memory a frame's value lives in.
#[derive(PartialEq, Eq, Structural, Clone, Copy)]
pub enum FrameOwnership {
    /// Its own allocation, which the frame frees
    Owned,
    /// A field or element inside its parent's memory
    Field,
    /// A buffer that its parent frame keeps and frees (a map entry's key
    /// or value)
    ManagedElsewhere,
}

/// A value being built: its type's description (as `Display` writes the
/// shape), what its type is, what its definition offers, how far it is
/// initialized, and whose memory it lives in.
pub struct FrameInfo {
    pub shape: String,
    pub ty: TypeInfo,
    pub def: DefInfo,
    pub tracker: Tracker,
    pub ownership: FrameOwnership,
}

/// Errors that can occur when reflecting on types. Shapes are given by
/// their description, as `Display` writes them.
pub enum ReflectError {
    /// Tried to set an enum to a variant that does not exist; the names of
    /// the variants that do
    NoSuchVariant { variants: Vec<String> },
    /// Tried to get the wrong shape out of a value
    WrongShape { expected: String, actual: String },
    /// Attempted to perform an operation that expected a struct or something
    WasNotA { expected: String, actual: String },
    /// A field was not initialized during build
    UninitializedField { shape: String, field_name: String },
    /// A field in an enum variant was not initialized during build
    UninitializedEnumField { shape: String, field_name: String, variant_name: String },
    /// An enum had no variant selected during build
    NoVariantSelected { shape: String },
    /// A scalar value was not initialized during build
    UninitializedValue { shape: String },
    /// A rule of the reflection system was violated; which one
    InvariantViolation { violated: String },
    /// The value lacks a characteristic (given as `Debug` writes it)
    MissingCharacteristic { shape: String, characteristic: String },
    /// An operation failed for a given shape
    OperationFailed { shape: String, operation: String },
    /// An error occurred when accessing or modifying a field (as `Display`
    /// writes it)
    FieldError { shape: String, field_error: String },
    /// An unknown error occurred
    Unknown,
    /// An error occured while putting a value (the inner error as
    /// `Display` writes it)
    TryFromError { src_shape: String, dst_shape: String, inner: String },
    /// A shape has a `default` attribute, but no implementation of `Default`
    DefaultAttrButNoDefaultImpl { shape: String },
    /// The type is unsized
    Unsized { shape: String },
    /// Array not fully initialized during build
    ArrayNotFullyInitialized { shape: String, pushed_count: usize, expected_size: usize },
    /// Array index out of bounds
    ArrayIndexOutOfBounds { shape: String, index: usize, size: usize },
}

/// The index of the first flag of `s` at or after `i` and below `n` (and
/// below 64) that is not set.
pub open spec fn first_unset(s: Seq<bool>, n: int, i: int) -> Option<int>
    decreases n - i,
{
    if i < 0 || i >= n || i >= 64 {
        None
    } else if !s[i] {
        Some(i)
    } else {
        first_unset(s, n, i + 1)
    }
}

proof fn lemma_first_unset(s: Seq<bool>, n: int, i: int)
    ensures
        first_unset(s, n, i) matches Some(j) ==> i <= j < n && j < 64 && !s[j],
    decreases n - i,
{
    if 0 <= i < n && i < 64 && s[i] {
        lemma_first_unset(s, n, i + 1);
    }
}

/// Whether the flags below `n` are all set.
pub open spec fn first_set(s: Seq<bool>, n: int) -> bool {
    forall|i: int| 0 <= i < n ==> #[trigger] s[i]
}

/// Whether checking the flags below `n` one by one stops before index 64
/// (the last flag there is): either `n` is at most 64, or some flag below
/// 64 is not set.
pub open spec fn check_in_range(s: Seq<bool>, n: int) -> bool {
    n <= 64 || !all_flags(s)
}

/// What an initialization check finds, as plain values.
pub enum Incomplete {
    /// The value as a whole
    Value,
    /// A struct field, by name
    Field(Seq<char>),
    /// A field of the selected variant, and the variant's name
    EnumField(Seq<char>, Seq<char>),
}

/// The strings' characters.
pub open spec fn names_of(v: Seq<String>) -> Seq<Seq<char>> {
    Seq::new(v.len(), |i: int| v[i]@)
}

/// Whether a value is fully initialized, and if not, what is missing: an
/// array needs its elements, a struct its fields (the first one missing is
/// named), an enum the fields of its variant, a smart pointer, list or map
/// its contents (and a map no insertion under way).
pub open spec fn initialization(frame: FrameInfo) -> Option<Incomplete> {
    match frame.tracker {
        Tracker::Uninit => Some(Incomplete::Value),
        Tracker::Init => None,
        Tracker::Array { iset, .. } => match frame.ty {
            TypeInfo::Array(n) => if first_set(iset@, n as int) { None } else { Some(Incomplete::Value) },
            _ => Some(Incomplete::Value),
        },
        Tracker::Struct { iset, .. } => if all_flags(iset@) {
            None
        } else {
            match frame.ty {
                TypeInfo::Struct(fields) => match first_unset(iset@, fields@.len() as int, 0) {
                    Some(i) => Some(Incomplete::Field(fields@[i]@)),
                    None => Some(Incomplete::Value),
                },
                _ => Some(Incomplete::Value),
            }
        },
        Tracker::Enum { variant, data, .. } => {
            let n = variant.fields@.len() as int;
            if n == 0 || first_set(data@, n) {
                None
            } else {
                match first_unset(data@, n, 0) {
                    Some(i) => Some(Incomplete::EnumField(variant.fields@[i]@, variant.name@)),
                    None => Some(Incomplete::Value),
                }
            }
        },
        Tracker::SmartPointer { is_initialized } => if is_initialized { None } else { Some(Incomplete::Value) },
        Tracker::List { is_initialized, .. } => if is_initialized { None } else { Some(Incomplete::Value) },
        Tracker::MapOf { is_initialized, insert_state } => if is_initialized && insert_state == MapInsertState::Idle {
            None
        } else {
            Some(Incomplete::Value)
        },
    }
}

/// Whether checking the frame stays within the 64 flags that a set holds.
pub open spec fn checkable(frame: FrameInfo) -> bool {
    match frame.tracker {
        Tracker::Array { iset, .. } => match frame.ty {
            TypeInfo::Array(n) => check_in_range(iset@, n as int),
            _ => true,
        },
        Tracker::Enum { variant, data, .. } => check_in_range(data@, variant.fields@.len() as int),
        _ => true,
    }
}

/// Whether the error is the one an initialization check reports for the
/// frame.
pub open spec fn reports(e: ReflectError, frame: FrameInfo, what: Incomplete) -> bool {
    match what {
        Incomplete::Value => e matches ReflectError::UninitializedValue { shape } && shape@ == frame.shape@,
        Incomplete::Field(name) => e matches ReflectError::UninitializedField { shape, field_name }
            && shape@ == frame.shape@ && field_name@ == name,
        Incomplete::EnumField(name, var) => e matches ReflectError::UninitializedEnumField {
            shape,
            field_name,
            variant_name,
        } && shape@ == frame.shape@ && field_name@ == name && variant_name@ == var,
    }
}

pub(crate) fn copy(s: &String) -> (r: String)
    ensures
        r@ == s@,
{
    s.clone()
}

/// Whether the flags below `n` are all set, checked one by one from the
/// first; the first that is not set is returned.
fn first_missing_flag(set: &ISet, n: usize) -> (r: Option<usize>)
    requires
        check_in_range(set@, n as int),
    ensures
        match r {
            None => first_set(set@, n as int),
            Some(i) => !first_set(set@, n as int) && first_unset(set@, n as int, 0) == Some(i as int),
        },
{
    let mut i: usize = 0;
    while i < n
        invariant
            i <= n,
            check_in_range(set@, n as int),
            forall|k: int| 0 <= k < i ==> #[trigger] set@[k],
            first_unset(set@, n as int, 0) == first_unset(set@, n as int, i as int),
            i <= 64,
        decreases n - i,
    {
        if i == 64 {
            // Every flag below 64 is set, so `n` is at most 64.
            assert(all_flags(set@));
            assert(false);
        }
        if !set.get(i) {
            return Some(i);
        }
        i += 1;
    }
    None
}

/// Returns an error if the value is not fully initialized.
#[verifier::loop_isolation(false)]
pub fn require_full_initialization(frame: &FrameInfo) -> (r: Result<(), ReflectError>)
    requires
        checkable(*frame),
    ensures
        match initialization(*frame) {
            None => r is Ok,
            Some(what) => r matches Err(e) && reports(e, *frame, what),
        },
{
    let value_error = ReflectError::UninitializedValue { shape: copy(&frame.shape) };
    match &frame.tracker {
        Tracker::Uninit => Err(value_error),
        Tracker::Init => Ok(()),
        Tracker::Array { iset, .. } => match &frame.ty {
            TypeInfo::Array(n) => match first_missing_flag(iset, *n) {
                None => Ok(()),
                Some(_) => Err(value_error),
            },
            _ => Err(value_error),
        },
        Tracker::Struct { iset, .. } => {
            if iset.all_set() {
                return Ok(());
            }
            match &frame.ty {
                TypeInfo::Struct(fields) => {
                    let mut i: usize = 0;
                    while i < fields.len() && i < 64
                        invariant
                            i <= fields@.len(),
                            i <= 64,
                            first_unset(iset@, fields@.len() as int, 0) == first_unset(iset@, fields@.len() as int, i as int),
                        decreases fields@.len() - i,
                    {
                        if !iset.get(i) {
                            assert(first_unset(iset@, fields@.len() as int, i as int) == Some(i as int));
                            return Err(ReflectError::UninitializedField {
                                shape: copy(&frame.shape),
                                field_name: copy(&fields[i]),
                            });
                        }
                        i += 1;
                    }
                    Err(value_error)
                },
                _ => Err(value_error),
            }
        },
        Tracker::Enum { variant, data, .. } => {
            let n = variant.fields.len();
            if n == 0 {
                return Ok(());
            }
            match first_missing_flag(data, n) {
                None => Ok(()),
                Some(i) => {
                    proof {
                        lemma_first_unset(data@, n as int, 0);
                    }
                    Err(ReflectError::UninitializedEnumField {
                    shape: copy(&frame.shape),
                    field_name: copy(&variant.fields[i]),
                    variant_name: copy(&variant.name),
                })
                },
            }
        },
        Tracker::SmartPointer { is_initialized } => if *is_initialized { Ok(()) } else { Err(value_error) },
        Tracker::List { is_initialized, .. } => if *is_initialized { Ok(()) } else { Err(value_error) },
        Tracker::MapOf { is_initialized, insert_state } => {
            if *is_initialized && *insert_state == MapInsertState::Idle {
                Ok(())
            } else {
                Err(value_error)
            }
        },
    }
}


/// Text written in an ANSI foreground color (`code`), then the default
/// foreground again: what `owo_colors` writes for a colored value.
pub open spec fn paint(code: Seq<char>, t: Seq<char>) -> Seq<char> {
    "\x1b["@ + code + "m"@ + t + "\x1b[39m"@
}

pub open spec fn red(t: Seq<char>) -> Seq<char> {
    paint("31"@, t)
}

pub open spec fn green(t: Seq<char>) -> Seq<char> {
    paint("32"@, t)
}

pub open spec fn yellow(t: Seq<char>) -> Seq<char> {
    paint("33"@, t)
}

pub open spec fn blue(t: Seq<char>) -> Seq<char> {
    paint("34"@, t)
}

pub open spec fn cyan(t: Seq<char>) -> Seq<char> {
    paint("36"@, t)
}

/// The first `n` variant names, each after `, ` and in cyan.
pub open spec fn variants_text(vs: Seq<String>, n: int) -> Seq<char>
    decreases n,
{
    if n <= 0 || n > vs.len() {
        seq![]
    } else {
        variants_text(vs, n - 1) + ", "@ + cyan(vs[n - 1]@)
    }
}

/// The message of a reflection error, as `Display` writes it.
pub open spec fn reflect_message(e: ReflectError) -> Seq<char> {
    match e {
        ReflectError::NoSuchVariant { variants } => "No such variant in enum. Known variants: "@
            + variants_text(variants@, variants@.len() as int) + ", that's it."@,
        ReflectError::WrongShape { expected, actual } => "Wrong shape: expected "@ + green(expected@)
            + ", but got "@ + red(actual@),
        ReflectError::WasNotA { expected, actual } => "Wrong shape: expected "@ + green(expected@)
            + ", but got "@ + red(actual@),
        ReflectError::UninitializedField { shape, field_name } => "Field '"@ + shape@ + "::"@
            + field_name@ + "' was not initialized"@,
        ReflectError::UninitializedEnumField { shape, field_name, variant_name } => "Field '"@ + blue(
            shape@,
        ) + "::"@ + yellow(field_name@) + "' in variant '"@ + red(variant_name@)
            + "' was not initialized"@,
        ReflectError::NoVariantSelected { shape } => "Enum '"@ + blue(shape@) + "' had no variant selected"@,
        ReflectError::UninitializedValue { shape } => "Value '"@ + blue(shape@) + "' was not initialized"@,
        ReflectError::InvariantViolation { violated } => "Invariant violation: "@ + red(violated@),
        ReflectError::MissingCharacteristic { shape, characteristic } => shape@
            + " does not implement characteristic "@ + characteristic@,
        ReflectError::OperationFailed { shape, operation } => "Operation failed on shape "@ + blue(shape@)
            + ": "@ + operation@,
        ReflectError::FieldError { shape, field_error } => "Field error for shape "@ + red(shape@) + ": "@
            + field_error@,
        ReflectError::Unknown => "Unknown error"@,
        ReflectError::TryFromError { src_shape, dst_shape, inner } => "While trying to put "@ + green(
            src_shape@,
        ) + " into a "@ + blue(dst_shape@) + ": "@ + red(inner@),
        ReflectError::DefaultAttrButNoDefaultImpl { shape } => "Shape '"@ + red(shape@)
            + "' has a `default` attribute but no default implementation"@,
        ReflectError::Unsized { shape } => "Shape '"@ + red(shape@) + "' is unsized"@,
        ReflectError::ArrayNotFullyInitialized { shape, pushed_count, expected_size } => "Array '"@
            + blue(shape@) + "' not fully initialized: expected "@ + decimal(expected_size as nat)
            + " elements, but got "@ + decimal(pushed_count as nat),
        ReflectError::ArrayIndexOutOfBounds { shape, index, size } => "Array index "@ + decimal(
            index as nat,
        ) + " out of bounds for '"@ + blue(shape@) + "' (array length is "@ + decimal(size as nat)
            + ")"@,
    }
}

/// Appends `t` in the color `code`.
fn push_painted(out: &mut String, code: &str, t: &str)
    ensures
        final(out)@ == old(out)@ + paint(code@, t@),
{
    out.append("\x1b[");
    out.append(code);
    out.append("m");
    out.append(t);
    out.append("\x1b[39m");
}

impl ReflectError {
    /// The human-readable message of this error, as `Display` writes it
    /// (with the colors of a terminal).
    pub fn message(&self) -> (r: String)
        ensures
            r@ == reflect_message(*self),
    {
        let mut out = String::new();
        match self {
            ReflectError::NoSuchVariant { variants } => {
                out.append("No such variant in enum. Known variants: ");
                let ghost start = out@;
                let mut i: usize = 0;
                while i < variants.len()
                    invariant
                        i <= variants@.len(),
                        out@ == start + variants_text(variants@, i as int),
                    decreases variants@.len() - i,
                {
                    out.append(", ");
                    push_painted(&mut out, "36", variants[i].as_str());
                    i += 1;
                }
                out.append(", that's it.");
            },
            ReflectError::WrongShape { expected, actual } => {
                out.append("Wrong shape: expected ");
                push_painted(&mut out, "32", expected.as_str());
                out.append(", but got ");
                push_painted(&mut out, "31", actual.as_str());
            },
            ReflectError::WasNotA { expected, actual } => {
                out.append("Wrong shape: expected ");
                push_painted(&mut out, "32", expected.as_str());
                out.append(", but got ");
                push_painted(&mut out, "31", actual.as_str());
            },
            ReflectError::UninitializedField { shape, field_name } => {
                out.append("Field '");
                out.append(shape.as_str());
                out.append("::");
                out.append(field_name.as_str());
                out.append("' was not initialized");
            },
            ReflectError::UninitializedEnumField { shape, field_name, variant_name } => {
                out.append("Field '");
                push_painted(&mut out, "34", shape.as_str());
                out.append("::");
                push_painted(&mut out, "33", field_name.as_str());
                out.append("' in variant '");
                push_painted(&mut out, "31", variant_name.as_str());
                out.append("' was not initialized");
            },
            ReflectError::NoVariantSelected { shape } => {
                out.append("Enum '");
                push_painted(&mut out, "34", shape.as_str());
                out.append("' had no variant selected");
            },
            ReflectError::UninitializedValue { shape } => {
                out.append("Value '");
                push_painted(&mut out, "34", shape.as_str());
                out.append("' was not initialized");
            },
            ReflectError::InvariantViolation { violated } => {
                out.append("Invariant violation: ");
                push_painted(&mut out, "31", violated.as_str());
            },
            ReflectError::MissingCharacteristic { shape, characteristic } => {
                out.append(shape.as_str());
                out.append(" does not implement characteristic ");
                out.append(characteristic.as_str());
            },
            ReflectError::OperationFailed { shape, operation } => {
                out.append("Operation failed on shape ");
                push_painted(&mut out, "34", shape.as_str());
                out.append(": ");
                out.append(operation.as_str());
            },
            ReflectError::FieldError { shape, field_error } => {
                out.append("Field error for shape ");
                push_painted(&mut out, "31", shape.as_str());
                out.append(": ");
                out.append(field_error.as_str());
            },
            ReflectError::Unknown => {
                out.append("Unknown error");
            },
            ReflectError::TryFromError { src_shape, dst_shape, inner } => {
                out.append("While trying to put ");
                push_painted(&mut out, "32", src_shape.as_str());
                out.append(" into a ");
                push_painted(&mut out, "34", dst_shape.as_str());
                out.append(": ");
                push_painted(&mut out, "31", inner.as_str());
            },
            ReflectError::DefaultAttrButNoDefaultImpl { shape } => {
                out.append("Shape '");
                push_painted(&mut out, "31", shape.as_str());
                out.append("' has a `default` attribute but no default implementation");
            },
            ReflectError::Unsized { shape } => {
                out.append("Shape '");
                push_painted(&mut out, "31", shape.as_str());
                out.append("' is unsized");
            },
            ReflectError::ArrayNotFullyInitialized { shape, pushed_count, expected_size } => {
                out.append("Array '");
                push_painted(&mut out, "34", shape.as_str());
                out.append("' not fully initialized: expected ");
                push_decimal(&mut out, *expected_size as u64);
                out.append(" elements, but got ");
                push_decimal(&mut out, *pushed_count as u64);
            },
            ReflectError::ArrayIndexOutOfBounds { shape, index, size } => {
                out.append("Array index ");
                push_decimal(&mut out, *index as u64);
                out.append(" out of bounds for '");
                push_painted(&mut out, "34", shape.as_str());
                out.append("' (array length is ");
                push_decimal(&mut out, *size as u64);
                out.append(")");
            },
        }
        proof {
            reveal_strlit("31");
            reveal_strlit("32");
            reveal_strlit("33");
            reveal_strlit("34");
            reveal_strlit("36");
        }
        out
    }
}

/// The part of the path that a frame adds: a struct's current field, an
/// enum's variant and current field, an array's current index, `[]` for
/// another sequence, `*` for a pointer; the first frame also names its
/// shape.
pub open spec fn component(i: int, f: FrameInfo) -> Seq<char> {
    let root = if i == 0 { f.shape@ } else { seq![] };
    match f.ty {
        TypeInfo::Struct(fields) => root + match f.tracker {
            Tracker::Struct { current_child: Some(idx), .. } => if idx < fields@.len() {
                "."@ + fields@[idx as int]@
            } else {
                seq![]
            },
            _ => seq![],
        },
        TypeInfo::Enum { .. } => match f.tracker {
            Tracker::Enum { variant, current_child, .. } => root + "::"@ + variant.name@ + match current_child {
                Some(idx) => if idx < variant.fields@.len() {
                    "."@ + variant.fields@[idx as int]@
                } else {
                    seq![]
                },
                None => seq![],
            },
            _ => root,
        },
        TypeInfo::Union => f.shape@,
        TypeInfo::Opaque => "<opaque>"@,
        TypeInfo::Array(_) => match f.tracker {
            Tracker::Array { current_child: Some(idx), .. } => "["@ + decimal(idx as nat) + "]"@,
            _ => seq![],
        },
        TypeInfo::OtherSequence => "[]"@,
        TypeInfo::Pointer => "*"@,
        TypeInfo::Primitive => seq![],
    }
}

/// The path through the first `n` frames.
pub open spec fn path_text(frames: Seq<FrameInfo>, n: int) -> Seq<char>
    decreases n,
{
    if n <= 0 || n > frames.len() {
        seq![]
    } else {
        path_text(frames, n - 1) + component(n - 1, frames[n - 1])
    }
}

fn push_component(out: &mut String, i: usize, f: &FrameInfo)
    ensures
        final(out)@ == old(out)@ + component(i as int, *f),
{
    let ghost start = out@;
    match &f.ty {
        TypeInfo::Struct(fields) => {
            if i == 0 {
                out.append(f.shape.as_str());
            }
            match &f.tracker {
                Tracker::Struct { current_child: Some(idx), .. } => {
                    if *idx < fields.len() {
                        out.append(".");
                        out.append(fields[*idx].as_str());
                    }
                },
                _ => {},
            }
        },
        TypeInfo::Enum { .. } => {
            if i == 0 {
                out.append(f.shape.as_str());
            }
            match &f.tracker {
                Tracker::Enum { variant, current_child, .. } => {
                    out.append("::");
                    out.append(variant.name.as_str());
                    match current_child {
                        Some(idx) => {
                            if *idx < variant.fields.len() {
                                out.append(".");
                                out.append(variant.fields[*idx].as_str());
                            }
                        },
                        None => {},
                    }
                },
                _ => {},
            }
        },
        TypeInfo::Union => {
            out.append(f.shape.as_str());
        },
        TypeInfo::Opaque => {
            out.append("<opaque>");
        },
        TypeInfo::Array(_) => {
            match &f.tracker {
                Tracker::Array { current_child: Some(idx), .. } => {
                    out.append("[");
                    push_decimal(out, *idx as u64);
                    out.append("]");
                },
                _ => {},
            }
        },
        TypeInfo::OtherSequence => {
            out.append("[]");
        },
        TypeInfo::Pointer => {
            out.append("*");
        },
        TypeInfo::Primitive => {},
    }
    assert(out@ =~= start + component(i as int, *f));
}

/// The path from the value being built down to the piece being built, one
/// part per frame.
pub fn path(frames: &Vec<FrameInfo>) -> (r: String)
    ensures
        r@ == path_text(frames@, frames@.len() as int),
{
    let mut out = String::new();
    let mut i: usize = 0;
    while i < frames.len()
        invariant
            i <= frames@.len(),
            out@ == path_text(frames@, i as int),
        decreases frames@.len() - i,
    {
        push_component(&mut out, i, &frames[i]);
        i += 1;
    }
    out
}

} // verus!
