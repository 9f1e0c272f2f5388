//! Move and copy semantics in which a moved-from value stays valid.
//!
//! A move here is not destructive: it leaves an initialized value behind, so
//! the source can still be destroyed later. Memory is modelled as a slice of
//! slots; a slot is `Some` while a value lives in it and `None` while it is
//! uninitialized, and an address is an index into the slice.

use vstd::prelude::*;

verus! {

/// The identity of a type: one machine word that carries its size and its
/// alignment.
pub type TypeTag = usize;

/// The size that a type reports: its own, or 1 where it has none, so that the
/// elements of a sequence keep distinct addresses.
pub open spec fn nominal_size(size: nat) -> nat {
    if size == 0 {
        1
    } else {
        size
    }
}

/// Two's complement negation within a machine word.
pub open spec fn wrapping_neg(x: usize) -> usize {
    if x == 0 {
        0
    } else {
        (usize::MAX - x + 1) as usize
    }
}

/// The tag of a type of `size` bytes aligned to `align` bytes.
///
/// Where the size has no bit in common with the alignment the tag is the
/// negation of both taken together; otherwise it is the size itself.
pub open spec fn spec_encode(size: usize, align: usize) -> TypeTag {
    if size & align == 0 {
        wrapping_neg(size | align)
    } else {
        size
    }
}

/// What holds of the size and alignment of every type that has a size: the
/// alignment is a power of two, the size is a positive multiple of it, and
/// the size fits the signed word.
pub open spec fn is_layout(size: usize, align: usize) -> bool {
    &&& align != 0
    &&& align & ((align - 1) as usize) == 0
    &&& size != 0
    &&& size & ((align - 1) as usize) == 0
    &&& size <= isize::MAX
}

/// Computes the tag of a type from its size and alignment.
pub fn encode(size: usize, align: usize) -> (tag: TypeTag)
    ensures
        tag == spec_encode(size, align),
{
    if size & align == 0 {
        let both: usize = size | align;
        0usize.wrapping_sub(both)
    } else {
        size
    }
}

/// A word is at most `isize::MAX` exactly when it survives a shift up and
/// back down, that is, when its top bit is clear.
proof fn lemma_top_bit_clear(x: usize)
    ensures
        x <= isize::MAX <==> (x << 1usize) >> 1usize == x,
{
    vstd::arithmetic::power2::lemma2_to64();
    let up = x << 1usize;
    vstd::bits::lemma_usize_shr_is_div(up, 1);
    if x <= isize::MAX {
        vstd::bits::lemma_usize_shl_is_mul(x, 1);
    }
}

/// The encoding is injective on layouts: two layouts with the same tag have
/// the same size and the same alignment.
pub proof fn lemma_encode_injective(size1: usize, align1: usize, size2: usize, align2: usize)
    requires
        is_layout(size1, align1),
        is_layout(size2, align2),
        spec_encode(size1, align1) == spec_encode(size2, align2),
    ensures
        size1 == size2,
        align1 == align2,
{
    let both1 = size1 | align1;
    let both2 = size2 | align2;
    lemma_top_bit_clear(size1);
    lemma_top_bit_clear(size2);
    lemma_top_bit_clear(both1);
    lemma_top_bit_clear(both2);
    // Size and alignment together still leave the top bit clear, and are not zero.
    assert((both1 << 1usize) >> 1usize == both1 && both1 != 0) by (bit_vector)
        requires
            both1 == size1 | align1,
            align1 != 0,
            align1 & ((align1 - 1) as usize) == 0,
            size1 != 0,
            size1 & ((align1 - 1) as usize) == 0,
            (size1 << 1usize) >> 1usize == size1,
    ;
    assert((both2 << 1usize) >> 1usize == both2 && both2 != 0) by (bit_vector)
        requires
            both2 == size2 | align2,
            align2 != 0,
            align2 & ((align2 - 1) as usize) == 0,
            size2 != 0,
            size2 & ((align2 - 1) as usize) == 0,
            (size2 << 1usize) >> 1usize == size2,
    ;
    // A negated tag lies above `isize::MAX`, a plain one does not: the two
    // layouts took the same branch.
    assert((size1 & align1 == 0) == (size2 & align2 == 0));
    if size1 & align1 == 0 {
        assert(both1 == both2);
        // The alignment is the lowest bit of the two taken together.
        assert(size1 == size2 && align1 == align2) by (bit_vector)
            requires
                size1 | align1 == size2 | align2,
                size1 & align1 == 0,
                size2 & align2 == 0,
                align1 != 0,
                align1 & ((align1 - 1) as usize) == 0,
                size1 & ((align1 - 1) as usize) == 0,
                align2 != 0,
                align2 & ((align2 - 1) as usize) == 0,
                size2 & ((align2 - 1) as usize) == 0,
        ;
    } else {
        // The alignment is the lowest bit of the size.
        assert(align1 == align2) by (bit_vector)
            requires
                size1 == size2,
                size1 & align1 != 0,
                size2 & align2 != 0,
                align1 != 0,
                align1 & ((align1 - 1) as usize) == 0,
                size1 & ((align1 - 1) as usize) == 0,
                align2 != 0,
                align2 & ((align2 - 1) as usize) == 0,
                size2 & ((align2 - 1) as usize) == 0,
        ;
    }
}

/// A power of two that divides a positive size within the signed word forms
/// a layout with it.
pub proof fn lemma_pow2_align_is_layout(size: usize, align: usize)
    requires
        vstd::arithmetic::power2::is_pow2(align as int),
        size != 0,
        size % align == 0,
        size <= isize::MAX,
    ensures
        is_layout(size, align),
{
    vstd::arithmetic::power2::is_pow2_equiv(align as int);
    let e = choose|e: nat| vstd::arithmetic::power::pow(2, e) == align as int;
    assert(vstd::arithmetic::power2::pow2(e) == align);
    vstd::layout::unsigned_int_max_values();
    if e >= usize::BITS {
        if e > usize::BITS {
            vstd::arithmetic::power2::lemma_pow2_strictly_increases(usize::BITS as nat, e);
        }
        assert(false);
    }
    vstd::arithmetic::power2::lemma_pow2_pos(e);
    assert(vstd::bits::low_bits_mask(e) == align - 1);
    vstd::bits::lemma_usize_low_bits_mask_is_mod(size, e);
    vstd::bits::lemma_usize_low_bits_mask_is_mod(align, e);
    let mask = (align - 1) as usize;
    assert(mask == vstd::bits::low_bits_mask(e) as usize);
    assert(align == vstd::arithmetic::power2::pow2(e) as usize);
    assert(size & mask == size % align);
    assert(align & mask == align % align);
}

/// `value` is one that `T::default()` returns.
pub open spec fn is_default<T: Default>(value: T) -> bool {
    call_ensures(T::default, (), value)
}

/// The slot `dst` holds what a copy of the slot `src` holds: a duplicate of
/// its value, or nothing where `src` holds nothing.
pub open spec fn slot_cloned<T: Clone>(src: Option<T>, dst: Option<T>) -> bool {
    match src {
        Some(value) => dst matches Some(copy) && cloned(value, copy),
        None => dst is None,
    }
}

/// `[first, last)` is a range of a memory of `len` slots.
pub open spec fn is_range(len: nat, first: usize, last: usize) -> bool {
    first <= last <= len
}

/// The `last - first` slots from `dest` on lie in a memory of `len` slots and
/// share no slot with `[first, last)`.
pub open spec fn is_disjoint_dest(len: nat, first: usize, last: usize, dest: usize) -> bool {
    &&& dest + (last - first) <= len
    &&& (dest + (last - first) <= first || last <= dest)
}

/// `after` is `before` with every slot of `[first, last)` destroyed and every
/// other slot as it was.
pub open spec fn dropped<T>(
    before: Seq<Option<T>>,
    after: Seq<Option<T>>,
    first: usize,
    last: usize,
) -> bool {
    &&& after.len() == before.len()
    &&& forall|i: int| first <= i < last ==> after[i] is None
    &&& forall|i: int| 0 <= i < before.len() && !(first <= i < last) ==> after[i] == before[i]
}

/// `after` is `before` with the values of `[first, last)` moved to the slots
/// from `dest` on, a default value left in each slot that was moved from, and
/// every other slot as it was.
pub open spec fn moved<T: Default>(
    before: Seq<Option<T>>,
    after: Seq<Option<T>>,
    first: usize,
    last: usize,
    dest: usize,
) -> bool {
    &&& after.len() == before.len()
    &&& forall|i: int|
        first <= i < last ==> (#[trigger] after[i] matches Some(left) && is_default(left))
    &&& forall|i: int|
        dest <= i < dest + (last - first) ==> #[trigger] after[i] == before[i - dest + first]
    &&& forall|i: int|
        0 <= i < before.len() && !(first <= i < last) && !(dest <= i < dest + (last - first))
            ==> #[trigger] after[i] == before[i]
}

/// `after` is `before` with a duplicate of each value of `[first, last)` in
/// the slots from `dest` on, and every other slot, those of the source
/// among them, as it was.
pub open spec fn copied<T: Clone>(
    before: Seq<Option<T>>,
    after: Seq<Option<T>>,
    first: usize,
    last: usize,
    dest: usize,
) -> bool {
    &&& after.len() == before.len()
    &&& forall|i: int|
        dest <= i < dest + (last - first) ==> slot_cloned(
            before[i - dest + first],
            #[trigger] after[i],
        )
    &&& forall|i: int|
        0 <= i < before.len() && !(dest <= i < dest + (last - first)) ==> #[trigger] after[i]
            == before[i]
}

/// `after` is `before` with a duplicate of `value` in every slot of
/// `[first, last)` and every other slot as it was.
pub open spec fn filled<T: Clone>(
    before: Seq<Option<T>>,
    after: Seq<Option<T>>,
    first: usize,
    last: usize,
    value: T,
) -> bool {
    &&& after.len() == before.len()
    &&& forall|i: int|
        first <= i < last ==> (#[trigger] after[i] matches Some(copy) && cloned(value, copy))
    &&& forall|i: int|
        0 <= i < before.len() && !(first <= i < last) ==> #[trigger] after[i] == before[i]
}

/// Destroying a range piece by piece, the lower piece first, destroys what
/// destroying it at once does.
pub proof fn lemma_dropped_in_steps<T>(
    before: Seq<Option<T>>,
    between: Seq<Option<T>>,
    after: Seq<Option<T>>,
    first: usize,
    mid: usize,
    last: usize,
)
    requires
        first <= mid <= last <= before.len(),
        dropped(before, between, first, mid),
        dropped(between, after, mid, last),
    ensures
        dropped(before, after, first, last),
{
    assert forall|i: int| first <= i < last implies after[i] is None by {
        if i < mid {
            assert(between[i] is None);
        }
    }
    assert forall|i: int| 0 <= i < before.len() && !(first <= i < last) implies after[i]
        == before[i] by {
        assert(between[i] == before[i]);
    }
}

/// A range that was destroyed holds nothing that could be destroyed again:
/// destroying it a second time changes no slot.
pub proof fn lemma_dropped_once<T>(
    before: Seq<Option<T>>,
    once: Seq<Option<T>>,
    twice: Seq<Option<T>>,
    first: usize,
    last: usize,
)
    requires
        first <= last <= before.len(),
        dropped(before, once, first, last),
        dropped(once, twice, first, last),
    ensures
        twice == once,
{
    assert(twice =~= once);
}

/// What a move does to the `k`-th slot of its range: the slot `dest + k`
/// holds what the slot `first + k` held, and the slot `first + k` holds a
/// default value.
pub proof fn lemma_moved_at<T: Default>(
    before: Seq<Option<T>>,
    after: Seq<Option<T>>,
    first: usize,
    last: usize,
    dest: usize,
    k: int,
)
    requires
        moved(before, after, first, last, dest),
        0 <= k < last - first,
    ensures
        after[dest + k] == before[first + k],
        after[first + k] matches Some(left) && is_default(left),
{
    assert(after[dest + k] == before[(dest + k) - dest + first]);
}

/// What a copy does to the `k`-th slot of its range: the slot `dest + k`
/// holds a duplicate of what the slot `first + k` held, and the slot
/// `first + k` holds what it held before.
pub proof fn lemma_copied_at<T: Clone>(
    before: Seq<Option<T>>,
    after: Seq<Option<T>>,
    first: usize,
    last: usize,
    dest: usize,
    k: int,
)
    requires
        is_range(before.len(), first, last),
        is_disjoint_dest(before.len(), first, last, dest),
        copied(before, after, first, last, dest),
        0 <= k < last - first,
    ensures
        slot_cloned(before[first + k], after[dest + k]),
        after[first + k] == before[first + k],
{
    assert(slot_cloned(before[(dest + k) - dest + first], after[dest + k]));
}

/// Destroys the values of `[first, last)`, lowest address first, each one
/// once. The slots are uninitialized afterwards; a slot that held no value
/// stays as it was.
pub fn drop_range<T>(mem: &mut [Option<T>], first: usize, last: usize)
    requires
        is_range(old(mem)@.len(), first, last),
    ensures
        dropped(old(mem)@, final(mem)@, first, last),
{
    let mut i: usize = first;
    while i < last
        invariant
            first <= i <= last <= mem@.len(),
            dropped(old(mem)@, mem@, first, i),
        decreases last - i,
    {
        mem[i] = None;
        i += 1;
    }
}

/// Moves the values of `[first, last)` to the slots from `dest` on and
/// leaves `T::default()` in each slot that it moved from.
///
/// The destination is meant to be uninitialized: what its slots held is
/// replaced. The two ranges may not overlap; a caller that finds `dest`
/// equal to `first` has nothing to move.
pub fn move_range<T: Default>(mem: &mut [Option<T>], first: usize, last: usize, dest: usize)
    requires
        is_range(old(mem)@.len(), first, last),
        is_disjoint_dest(old(mem)@.len(), first, last, dest),
    ensures
        moved(old(mem)@, final(mem)@, first, last, dest),
{
    let count: usize = last - first;
    let mut i: usize = 0;
    while i < count
        invariant
            count == last - first,
            i <= count,
            is_range(mem@.len(), first, last),
            is_disjoint_dest(mem@.len(), first, last, dest),
            moved(old(mem)@, mem@, first, (first + i) as usize, dest),
        decreases count - i,
    {
        let mut slot: Option<T> = Some(T::default());
        core::mem::swap(&mut mem[first + i], &mut slot);
        mem[dest + i] = slot;
        i += 1;
    }
}

/// Writes a duplicate of each value of `[first, last)` to the slots from
/// `dest` on. The source is not changed.
///
/// The destination is meant to be uninitialized and may share no slot with
/// the source.
pub fn copy_range<T: Clone>(mem: &mut [Option<T>], first: usize, last: usize, dest: usize)
    requires
        is_range(old(mem)@.len(), first, last),
        is_disjoint_dest(old(mem)@.len(), first, last, dest),
    ensures
        copied(old(mem)@, final(mem)@, first, last, dest),
{
    let count: usize = last - first;
    let mut i: usize = 0;
    while i < count
        invariant
            count == last - first,
            i <= count,
            is_range(mem@.len(), first, last),
            is_disjoint_dest(mem@.len(), first, last, dest),
            copied(old(mem)@, mem@, first, (first + i) as usize, dest),
        decreases count - i,
    {
        let copy: Option<T> = mem[first + i].clone();
        mem[dest + i] = copy;
        i += 1;
    }
}

/// Writes a duplicate of `value` to every slot of `[first, last)`, each one
/// made by a call of its own. The slots are meant to be uninitialized.
pub fn fill_range<T: Clone>(mem: &mut [Option<T>], first: usize, last: usize, value: &T)
    requires
        is_range(old(mem)@.len(), first, last),
    ensures
        filled(old(mem)@, final(mem)@, first, last, *value),
{
    let mut i: usize = first;
    while i < last
        invariant
            first <= i <= last <= mem@.len(),
            filled(old(mem)@, mem@, first, i, *value),
        decreases last - i,
    {
        mem[i] = Some(value.clone());
        i += 1;
    }
}

/// The size that `T` reports: see [`nominal_size`].
pub open spec fn type_size<T>() -> nat {
    nominal_size(vstd::layout::size_of::<T>())
}

/// The alignment of `T`.
pub open spec fn type_align<T>() -> nat {
    vstd::layout::align_of::<T>()
}

/// Every sized type: its size, its alignment, its tag, and how a range of
/// its values is destroyed.
pub trait BaseType: Sized {
    /// Size of the type. For a type without size it is 1.
    fn size() -> (size: usize)
        ensures
            size == type_size::<Self>(),
            size != 0,
    {
        let size: usize = core::mem::size_of::<Self>();
        if size != 0 {
            size
        } else {
            1
        }
    }

    /// Alignment of the type.
    fn align() -> (align: usize)
        ensures
            align == type_align::<Self>(),
    {
        core::mem::align_of::<Self>()
    }

    /// The tag of the type: its reported size and its alignment, encoded.
    ///
    /// The two form a layout, so that the tag tells the type's size and
    /// alignment from every other layout's, unless the type has no size and
    /// yet an alignment above 1.
    fn type_tag() -> (tag: TypeTag)
        ensures
            tag == spec_encode(type_size::<Self>() as usize, type_align::<Self>() as usize),
            vstd::layout::size_of::<Self>() != 0 || type_align::<Self>() == 1 ==> is_layout(
                type_size::<Self>() as usize,
                type_align::<Self>() as usize,
            ),
    {
        vstd::layout::layout_for_type_is_valid::<Self>();
        let size = Self::size();
        let align = Self::align();
        proof {
            if vstd::layout::size_of::<Self>() != 0 {
                lemma_pow2_align_is_layout(size, align);
            } else if align == 1 {
                assert(1usize & 0usize == 0) by (bit_vector);
            }
        }
        encode(size, align)
    }

    /// Destroys the values of `[first, last)`.
    fn raw_drop(mem: &mut [Option<Self>], first: usize, last: usize)
        requires
            is_range(old(mem)@.len(), first, last),
        ensures
            dropped(old(mem)@, final(mem)@, first, last),
    {
        drop_range(mem, first, last)
    }
}

impl<T> BaseType for T {

}

/// Types that can be moved without being destroyed.
///
/// The move has to leave an initialized value in the place it took one from,
/// which is why the type has a default value.
pub trait MoveType: Default + Sized {
    /// Moves the values of `[first, last)` to the slots from `dest` on and
    /// leaves the default value in each slot of the source.
    fn raw_move(mem: &mut [Option<Self>], first: usize, last: usize, dest: usize)
        requires
            is_range(old(mem)@.len(), first, last),
            is_disjoint_dest(old(mem)@.len(), first, last, dest),
        ensures
            moved(old(mem)@, final(mem)@, first, last, dest),
    {
        move_range(mem, first, last, dest)
    }
}

impl<T: Default> MoveType for T {

}

/// Types that can be copied, and moved by leaving a default value.
pub trait CopyMoveType: Clone + Default + Sized {
    /// Writes a duplicate of each value of `[first, last)` to the slots from
    /// `dest` on.
    fn raw_copy(mem: &mut [Option<Self>], first: usize, last: usize, dest: usize)
        requires
            is_range(old(mem)@.len(), first, last),
            is_disjoint_dest(old(mem)@.len(), first, last, dest),
        ensures
            copied(old(mem)@, final(mem)@, first, last, dest),
    {
        copy_range(mem, first, last, dest)
    }

    /// Writes a duplicate of `value` to every slot of `[first, last)`.
    fn raw_fill(mem: &mut [Option<Self>], first: usize, last: usize, value: &Self)
        requires
            is_range(old(mem)@.len(), first, last),
        ensures
            filled(old(mem)@, final(mem)@, first, last, *value),
    {
        fill_range(mem, first, last, value)
    }
}

impl<T: Clone + Default> CopyMoveType for T {

}

/// Types that can be copied but have no default value.
///
/// For such a type a copy serves as the move: it leaves the destination equal
/// to the source as it was, and it leaves the source initialized, though not
/// distinct from what was moved.
pub trait CopyOnlyType: Clone + Sized {
    /// Moves by copying: writes a duplicate of each value of `[first, last)`
    /// to the slots from `dest` on and leaves the source as it was.
    fn raw_move(mem: &mut [Option<Self>], first: usize, last: usize, dest: usize)
        requires
            is_range(old(mem)@.len(), first, last),
            is_disjoint_dest(old(mem)@.len(), first, last, dest),
        ensures
            copied(old(mem)@, final(mem)@, first, last, dest),
    {
        copy_range(mem, first, last, dest)
    }

    /// Writes a duplicate of each value of `[first, last)` to the slots from
    /// `dest` on.
    fn raw_copy(mem: &mut [Option<Self>], first: usize, last: usize, dest: usize)
        requires
            is_range(old(mem)@.len(), first, last),
            is_disjoint_dest(old(mem)@.len(), first, last, dest),
        ensures
            copied(old(mem)@, final(mem)@, first, last, dest),
    {
        copy_range(mem, first, last, dest)
    }

    /// Writes a duplicate of `value` to every slot of `[first, last)`.
    fn raw_fill(mem: &mut [Option<Self>], first: usize, last: usize, value: &Self)
        requires
            is_range(old(mem)@.len(), first, last),
        ensures
            filled(old(mem)@, final(mem)@, first, last, *value),
    {
        fill_range(mem, first, last, value)
    }
}

impl<T: Clone> CopyOnlyType for T {

}

/// A slot that starts out uninitialized where a default value is asked for.
pub struct DefaultUninit<T>(Option<T>);

impl<T> DefaultUninit<T> {
    /// What the slot holds: `None` while it is uninitialized.
    pub closed spec fn contents(self) -> Option<T> {
        self.0
    }

    /// A slot that holds `val`.
    pub fn new(val: T) -> (slot: Self)
        ensures
            slot.contents() == Some(val),
    {
        DefaultUninit(Some(val))
    }

    /// The place of the slot, through which a value can be written to it.
    pub fn as_mut_ptr(&mut self) -> (place: &mut Option<T>)
        ensures
            *place == old(self).contents(),
            final(self).contents() == *final(place),
    {
        &mut self.0
    }

    /// The value of an initialized slot.
    pub fn assume_init(self) -> (val: T)
        requires
            self.contents() is Some,
        ensures
            self.contents() == Some(val),
    {
        self.0.unwrap()
    }
}

impl<T: Clone> Clone for DefaultUninit<T> {
    fn clone(&self) -> (slot: Self)
        ensures
            slot_cloned(self.contents(), slot.contents()),
    {
        DefaultUninit(self.0.clone())
    }
}

impl<T> Default for DefaultUninit<T> {
    fn default() -> (slot: Self)
        ensures
            slot.contents() is None,
    {
        DefaultUninit(None)
    }
}

} // verus!
