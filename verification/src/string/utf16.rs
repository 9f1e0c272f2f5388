//! A growable UTF-16 buffer that keeps short contents inline.
//!
//! The store has two modes. In inline mode its code units sit in a fixed
//! array inside the value; in heap mode they sit in a buffer that the
//! allocator owns. Either way the contents end in a zero code unit that the
//! length does not count.
//!
//! What each operation does is stated over [`TextState`], the contents and
//! the capacity of a store taken as plain values.

use crate::decimal::{append_decimal, decimal};
use vstd::prelude::*;
use vstd::slice::slice_subrange;
use vstd::string::StringExecFns;

verus! {

/// Code units that fit in the inline buffer, the terminator not counted.
pub const INLINE_CAPACITY: usize = 7;

/// The greatest length and capacity of a store: with the terminator, a
/// buffer of this many code units is the longest whose size in bytes still
/// is a valid distance between two addresses.
pub open spec fn spec_max_size() -> nat {
    (isize::MAX / 2 - 1) as nat
}

/// The capacity that a store of capacity `old` takes when it has to hold
/// `requested` code units: the request, or twice the old capacity where that
/// is more, as far as the greatest capacity allows.
pub open spec fn grown_capacity(requested: nat, old: nat) -> nat {
    let doubled = if 2 * old <= spec_max_size() {
        2 * old
    } else {
        spec_max_size()
    };
    if requested >= doubled {
        requested
    } else {
        doubled
    }
}

/// The greatest length and capacity of a store.
pub fn max_size() -> (max: usize)
    ensures
        max == spec_max_size(),
        INLINE_CAPACITY < max,
{
    (isize::MAX as usize) / 2 - 1
}

/// The capacity to grow to from `old` so that `requested` code units fit.
fn grown(requested: usize, old: usize) -> (capacity: usize)
    requires
        old < requested <= spec_max_size(),
    ensures
        capacity == grown_capacity(requested as nat, old as nat),
        requested <= capacity <= spec_max_size(),
{
    let max = max_size();
    let doubled: usize = if old <= max / 2 {
        2 * old
    } else {
        max
    };
    if requested >= doubled {
        requested
    } else {
        doubled
    }
}

/// The contents and the capacity of a store.
pub struct TextState {
    /// The code units, without the terminator.
    pub content: Seq<u16>,
    /// The code units that the current buffer can hold, without the terminator.
    pub capacity: nat,
}

impl TextState {
    /// What holds of every store: the capacity is at least that of the inline
    /// buffer and at most the greatest one, and the contents fit in it.
    pub open spec fn wf(self) -> bool {
        &&& INLINE_CAPACITY <= self.capacity <= spec_max_size()
        &&& self.content.len() <= self.capacity
    }

    /// The store is in inline mode: its capacity is no more than that of the
    /// inline buffer.
    pub open spec fn is_inline(self) -> bool {
        self.capacity <= INLINE_CAPACITY
    }

    /// The contents followed by the terminator.
    pub open spec fn with_nul(self) -> Seq<u16> {
        self.content.push(0u16)
    }

    /// The state of a new store: inline and empty.
    pub open spec fn empty() -> TextState {
        TextState { content: Seq::empty(), capacity: INLINE_CAPACITY as nat }
    }

    /// Replaces the contents by `units`. Contents that fit keep the buffer;
    /// longer ones take a grown buffer; ones past the greatest length are
    /// refused and leave the store as it was.
    pub open spec fn assign(self, units: Seq<u16>) -> TextState {
        if units.len() <= self.capacity {
            TextState { content: units, capacity: self.capacity }
        } else if units.len() > spec_max_size() {
            self
        } else {
            TextState { content: units, capacity: grown_capacity(units.len(), self.capacity) }
        }
    }

    /// Appends `units`. Where they fit the buffer stays; where they do not
    /// the buffer grows; where the result would pass the greatest length the
    /// store stays as it was.
    pub open spec fn push(self, units: Seq<u16>) -> TextState {
        if self.content.len() + units.len() <= self.capacity {
            TextState { content: self.content + units, capacity: self.capacity }
        } else if self.content.len() + units.len() > spec_max_size() {
            self
        } else {
            TextState {
                content: self.content + units,
                capacity: grown_capacity(self.content.len() + units.len(), self.capacity),
            }
        }
    }

    /// Appends `units` one code unit at a time.
    pub open spec fn push_each(self, units: Seq<u16>) -> TextState
        decreases units.len(),
    {
        if units.len() == 0 {
            self
        } else {
            self.push(units.take(1)).push_each(units.skip(1))
        }
    }

    /// Empties the store and keeps its buffer.
    pub open spec fn clear(self) -> TextState {
        TextState { content: Seq::empty(), capacity: self.capacity }
    }

    /// Whether a request for `additional` code units beyond the capacity
    /// leaves the range of lengths that an address difference can express.
    pub open spec fn reserve_overflows(self, additional: nat) -> bool {
        self.capacity + additional > isize::MAX
    }

    /// Makes room for `additional` code units beyond the capacity. A request
    /// that the buffer already meets, or that passes the greatest capacity,
    /// changes nothing.
    pub open spec fn reserve(self, additional: nat) -> TextState {
        let requested = self.capacity + additional;
        if requested <= self.capacity || requested > spec_max_size() {
            self
        } else {
            TextState { content: self.content, capacity: grown_capacity(requested, self.capacity) }
        }
    }

    /// Gives unused capacity back: a heap store whose contents fit inline
    /// becomes inline, any other heap store keeps exactly the capacity that
    /// its contents need, and an inline store stays as it is.
    pub open spec fn shrink_to_fit(self) -> TextState {
        if self.is_inline() {
            self
        } else if self.content.len() <= INLINE_CAPACITY {
            TextState { content: self.content, capacity: INLINE_CAPACITY as nat }
        } else {
            TextState { content: self.content, capacity: self.content.len() }
        }
    }
}

/// Every transition keeps a store well formed: the capacity stays within
/// its bounds and never falls below the length.
pub proof fn lemma_transitions_keep_wf(state: TextState, units: Seq<u16>, additional: nat)
    requires
        state.wf(),
    ensures
        TextState::empty().wf(),
        state.assign(units).wf(),
        state.push(units).wf(),
        state.push_each(units).wf(),
        state.clear().wf(),
        state.reserve(additional).wf(),
        state.shrink_to_fit().wf(),
    decreases units.len(),
{
    if units.len() > 0 {
        lemma_transitions_keep_wf(state.push(units.take(1)), units.skip(1), additional);
    }
}

/// Only shrinking lowers the capacity: after any other transition the
/// capacity is at least what it was, so a store in heap mode stays there.
pub proof fn lemma_only_shrink_lowers_capacity(state: TextState, units: Seq<u16>, additional: nat)
    requires
        state.wf(),
    ensures
        state.assign(units).capacity >= state.capacity,
        state.push(units).capacity >= state.capacity,
        state.push_each(units).capacity >= state.capacity,
        state.clear().capacity == state.capacity,
        state.reserve(additional).capacity >= state.capacity,
        state.shrink_to_fit().capacity <= state.capacity,
    decreases units.len(),
{
    if units.len() > 0 {
        let first = state.push(units.take(1));
        lemma_transitions_keep_wf(state, units.take(1), additional);
        lemma_only_shrink_lowers_capacity(first, units.skip(1), additional);
    }
}

/// A push that has to grow the buffer at least doubles the capacity, as long
/// as twice the capacity is still a capacity that a store can have.
pub proof fn lemma_push_doubles_capacity(state: TextState, units: Seq<u16>)
    requires
        state.wf(),
        state.capacity < state.content.len() + units.len() <= spec_max_size(),
        2 * state.capacity <= spec_max_size(),
    ensures
        state.push(units).content == state.content + units,
        state.push(units).capacity >= 2 * state.capacity,
{
}

/// A push within the capacity changes neither capacity nor mode.
pub proof fn lemma_push_within_capacity(state: TextState, units: Seq<u16>)
    requires
        state.wf(),
        state.content.len() + units.len() <= state.capacity,
    ensures
        state.push(units).content == state.content + units,
        state.push(units).capacity == state.capacity,
        state.push_each(units) == state.push(units),
    decreases units.len(),
{
    if units.len() > 0 {
        let first = state.push(units.take(1));
        lemma_push_within_capacity(first, units.skip(1));
        assert(state.content + units.take(1) + units.skip(1) =~= state.content + units);
    } else {
        assert(state.content + units =~= state.content);
    }
}

/// Clearing a store and pushing its former contents gives the store back as
/// it was: the same code units in the same buffer, with no new allocation.
pub proof fn lemma_clear_then_push_restores(state: TextState)
    requires
        state.wf(),
    ensures
        state.clear().push(state.content) == state,
{
    assert(Seq::<u16>::empty() + state.content =~= state.content);
}

/// Shrinking a store whose contents fit inline leaves it in inline mode,
/// with the contents unchanged.
pub proof fn lemma_shrink_returns_to_inline(state: TextState)
    requires
        state.wf(),
        state.content.len() <= INLINE_CAPACITY,
    ensures
        state.shrink_to_fit().is_inline(),
        state.shrink_to_fit().capacity == INLINE_CAPACITY,
        state.shrink_to_fit().content == state.content,
{
}

/// Shrinking a store whose contents do not fit inline leaves exactly the
/// capacity that the contents need.
pub proof fn lemma_shrink_is_exact(state: TextState)
    requires
        state.wf(),
        state.content.len() > INLINE_CAPACITY,
    ensures
        state.shrink_to_fit().capacity == state.content.len(),
        state.shrink_to_fit().content == state.content,
{
}

/// Extending a store by code units for which the capacity can still be
/// raised appends all of them, and the room made beforehand is all the room
/// taken.
pub proof fn lemma_extend_within_limit(state: TextState, units: Seq<u16>)
    requires
        state.wf(),
        state.capacity + units.len() <= spec_max_size(),
    ensures
        state.reserve(units.len()).push_each(units) == (TextState {
            content: state.content + units,
            capacity: state.reserve(units.len()).capacity,
        }),
        state.reserve(units.len()).capacity >= state.capacity + units.len(),
{
    lemma_push_within_capacity(state.reserve(units.len()), units);
}

/// Where the code units of a store are kept.
enum Storage {
    /// In the value itself: seven code units and the slot of the terminator.
    Inline([u16; 8]),
    /// In a buffer on the heap, one code unit longer than the capacity.
    Heap(Vec<u16>),
}

impl Storage {
    spec fn units(self) -> Seq<u16> {
        match self {
            Storage::Inline(buf) => buf@,
            Storage::Heap(data) => data@,
        }
    }

    fn get(&self, i: usize) -> (unit: u16)
        requires
            i < self.units().len(),
        ensures
            unit == self.units()[i as int],
    {
        match self {
            Storage::Inline(buf) => buf[i],
            Storage::Heap(data) => data[i],
        }
    }

    fn set(&mut self, i: usize, unit: u16)
        requires
            i < old(self).units().len(),
        ensures
            final(self).units() == old(self).units().update(i as int, unit),
            *final(self) is Inline <==> *old(self) is Inline,
    {
        match self {
            Storage::Inline(buf) => {
                buf[i] = unit;
            },
            Storage::Heap(data) => {
                data[i] = unit;
            },
        }
    }

    fn as_slice(&self) -> (units: &[u16])
        ensures
            units@ == self.units(),
    {
        match self {
            Storage::Inline(buf) => buf.as_slice(),
            Storage::Heap(data) => data.as_slice(),
        }
    }
}

/// The value of a store: its buffer, its length and its capacity.
struct StringVal {
    bx: Storage,
    size: usize,
    res: usize,
}

impl StringVal {
    spec fn wf(self) -> bool {
        &&& self.size <= self.res
        &&& INLINE_CAPACITY <= self.res <= spec_max_size()
        &&& self.bx.units().len() == self.res + 1
        &&& self.bx.units()[self.size as int] == 0
        &&& (self.bx is Inline <==> self.res == INLINE_CAPACITY)
    }

    spec fn state(self) -> TextState {
        TextState {
            content: self.bx.units().subrange(0, self.size as int),
            capacity: self.res as nat,
        }
    }

    fn construct() -> (val: Self)
        ensures
            val.wf(),
            val.state() == TextState::empty(),
    {
        let val = StringVal { bx: Storage::Inline([0u16; 8]), size: 0, res: INLINE_CAPACITY };
        assert(val.state().content =~= Seq::<u16>::empty());
        val
    }

    /// The buffer: the contents, the terminator, and what lies behind it.
    fn c_str(&self) -> (units: &[u16])
        ensures
            units@ == self.bx.units(),
    {
        self.bx.as_slice()
    }

    /// Puts the terminator at the front.
    fn clear(&mut self)
        requires
            old(self).wf(),
        ensures
            final(self).wf(),
            final(self).state() == old(self).state().clear(),
            final(self).size == 0,
            final(self).res == old(self).res,
    {
        self.bx.set(0, 0);
        self.size = 0;
        assert(self.state().content =~= Seq::<u16>::empty());
    }

    /// Writes `s` behind the contents, where the buffer has room for it.
    fn write_tail(&mut self, s: &[u16])
        requires
            old(self).wf(),
            s@.len() <= old(self).res - old(self).size,
        ensures
            final(self).wf(),
            final(self).state().content == old(self).state().content + s@,
            final(self).state().capacity == old(self).state().capacity,
    {
        let start: usize = self.size;
        let count: usize = s.len();
        let mut i: usize = 0;
        while i < count
            invariant
                i <= count,
                count == s@.len(),
                start == self.size == old(self).size,
                self.res == old(self).res,
                start + count <= self.res,
                self.bx.units().len() == self.res + 1,
                self.bx is Inline <==> old(self).bx is Inline,
                self.bx.units().subrange(0, start as int) == old(self).bx.units().subrange(
                    0,
                    start as int,
                ),
                self.bx.units().subrange(start as int, start + i) == s@.subrange(0, i as int),
            decreases count - i,
        {
            let ghost before = self.bx.units();
            self.bx.set(start + i, s[i]);
            assert(self.bx.units().subrange(0, start as int) =~= before.subrange(0, start as int));
            assert(self.bx.units().subrange(start as int, start + i + 1) =~= s@.subrange(
                0,
                i + 1,
            ));
            i += 1;
        }
        let ghost before = self.bx.units();
        self.bx.set(start + count, 0);
        self.size = start + count;
        assert(self.state().content =~= old(self).state().content + s@) by {
            assert(self.bx.units().subrange(0, start as int) =~= before.subrange(0, start as int));
            assert(self.bx.units().subrange(start as int, start + count) =~= before.subrange(
                start as int,
                start + count,
            ));
            assert(s@.subrange(0, count as int) =~= s@);
        }
    }

    /// Moves the contents to a heap buffer of capacity `new_capacity`.
    fn reallocate(&mut self, new_capacity: usize)
        requires
            old(self).wf(),
            old(self).size <= new_capacity <= spec_max_size(),
            INLINE_CAPACITY < new_capacity,
        ensures
            final(self).wf(),
            final(self).state().content == old(self).state().content,
            final(self).state().capacity == new_capacity,
            final(self).size == old(self).size,
            final(self).res == new_capacity,
    {
        let size: usize = self.size;
        let mut data: Vec<u16> = Vec::with_capacity(new_capacity + 1);
        let mut i: usize = 0;
        while i < size
            invariant
                i <= size,
                size == self.size,
                self.wf(),
                *self == *old(self),
                data@ == self.bx.units().subrange(0, i as int),
            decreases size - i,
        {
            data.push(self.bx.get(i));
            assert(data@ =~= self.bx.units().subrange(0, i + 1));
            i += 1;
        }
        while i <= new_capacity
            invariant
                size <= i <= new_capacity + 1,
                new_capacity <= spec_max_size(),
                data@.len() == i,
                data@.subrange(0, size as int) == old(self).bx.units().subrange(0, size as int),
                forall|j: int| size <= j < i ==> data@[j] == 0,
            decreases new_capacity + 1 - i,
        {
            let ghost before = data@;
            data.push(0);
            assert(data@.subrange(0, size as int) =~= before.subrange(0, size as int));
            i += 1;
        }
        self.bx = Storage::Heap(data);
        self.res = new_capacity;
    }

    /// Moves the contents of a heap buffer, which fit there, to the inline one.
    fn become_small(&mut self)
        requires
            old(self).wf(),
            old(self).size <= INLINE_CAPACITY,
        ensures
            final(self).wf(),
            final(self).state().content == old(self).state().content,
            final(self).state().capacity == INLINE_CAPACITY,
    {
        let size: usize = self.size;
        let mut buf: [u16; 8] = [0u16; 8];
        let mut i: usize = 0;
        while i < size
            invariant
                i <= size <= INLINE_CAPACITY,
                size == self.size,
                self.wf(),
                *self == *old(self),
                buf@.subrange(0, i as int) == self.bx.units().subrange(0, i as int),
                forall|j: int| i <= j < 8 ==> buf@[j] == 0,
            decreases size - i,
        {
            let ghost before = buf@;
            buf[i] = self.bx.get(i);
            assert(buf@.subrange(0, i + 1) =~= self.bx.units().subrange(0, i + 1)) by {
                assert(before.subrange(0, i as int) =~= buf@.subrange(0, i as int));
            }
            i += 1;
        }
        self.bx = Storage::Inline(buf);
        self.res = INLINE_CAPACITY;
    }

    /// Replaces the contents by `s`.
    fn assign_n(&mut self, s: &[u16])
        requires
            old(self).wf(),
        ensures
            final(self).wf(),
            final(self).state() == old(self).state().assign(s@),
    {
        let count: usize = s.len();
        if count <= self.res {
            self.clear();
            self.write_tail(s);
            assert(self.state().content =~= s@);
        } else if count <= max_size() {
            let new_capacity = grown(count, self.res);
            self.clear();
            self.reallocate(new_capacity);
            self.write_tail(s);
            assert(self.state().content =~= s@);
        }
    }

    /// Appends `s` to the contents.
    fn append_n(&mut self, s: &[u16])
        requires
            old(self).wf(),
        ensures
            final(self).wf(),
            final(self).state() == old(self).state().push(s@),
    {
        let count: usize = s.len();
        if count <= self.res - self.size {
            self.write_tail(s);
        } else if count <= max_size() - self.size {
            let new_capacity = grown(self.size + count, self.res);
            self.reallocate(new_capacity);
            self.write_tail(s);
        }
    }

    /// Appends one code unit to the contents.
    fn append_char(&mut self, ch: u16)
        requires
            old(self).wf(),
        ensures
            final(self).wf(),
            final(self).state() == old(self).state().push(seq![ch]),
    {
        let unit: [u16; 1] = [ch];
        assert(unit@ =~= seq![ch]);
        self.append_n(unit.as_slice());
    }

    /// Takes the capacity to `new_capacity` at least.
    fn reserve(&mut self, new_capacity: usize)
        requires
            old(self).wf(),
            old(self).res <= new_capacity,
        ensures
            final(self).wf(),
            final(self).state() == old(self).state().reserve((new_capacity - old(self).res) as nat),
    {
        if self.res < new_capacity && new_capacity <= max_size() {
            let grown_to = grown(new_capacity, self.res);
            self.reallocate(grown_to);
        }
    }

    /// Gives unused capacity back.
    fn shrink_to_fit(&mut self)
        requires
            old(self).wf(),
        ensures
            final(self).wf(),
            final(self).state() == old(self).state().shrink_to_fit(),
    {
        if self.res > INLINE_CAPACITY {
            if self.size <= INLINE_CAPACITY {
                self.become_small();
            } else if self.size < self.res {
                self.reallocate(self.size);
            }
        }
    }
}

/// A request for capacity that leaves the range of lengths that an address
/// difference can express.
#[derive(Clone, Copy, Debug, PartialEq, Eq, Structural)]
pub struct CapacityOverflow {
    /// The capacity of the store when the request was made.
    pub capacity: usize,
    /// The code units asked for beyond that capacity.
    pub additional: usize,
}

/// The text that describes a request for `additional` code units beyond
/// `capacity` that overflowed.
pub open spec fn overflow_message(capacity: nat, additional: nat) -> Seq<char> {
    "requested capacity ("@ + decimal(capacity) + " + "@ + decimal(additional)
        + ") overflowed `isize::MAX`"@
}

impl CapacityOverflow {
    /// Describes the request that failed.
    pub fn message(&self) -> (text: String)
        ensures
            text@ == overflow_message(self.capacity as nat, self.additional as nat),
    {
        let mut text = String::from_str("requested capacity (");
        append_decimal(&mut text, self.capacity);
        text.append(" + ");
        append_decimal(&mut text, self.additional);
        text.append(") overflowed `isize::MAX`");
        text
    }
}

/// The capacity that a request for `additional` code units beyond `capacity`
/// asks for, or the overflow where the two together pass `isize::MAX`.
pub fn requested_capacity(capacity: usize, additional: usize) -> (total: Result<
    usize,
    CapacityOverflow,
>)
    ensures
        total is Err <==> capacity + additional > isize::MAX,
        total matches Ok(sum) ==> sum == capacity + additional,
        total matches Err(overflow) ==> overflow.capacity == capacity && overflow.additional
            == additional,
{
    let limit: usize = isize::MAX as usize;
    if capacity > limit || limit - capacity < additional {
        Err(CapacityOverflow { capacity, additional })
    } else {
        Ok(capacity + additional)
    }
}

/// The text that describes a store of `length` code units and capacity
/// `capacity`.
pub open spec fn debug_text(length: nat, capacity: nat) -> Seq<char> {
    "CxxUtf16String { length: "@ + decimal(length) + ", capacity: "@ + decimal(capacity)
        + ", large_mode: "@ + (if capacity > INLINE_CAPACITY {
        "true"@
    } else {
        "false"@
    }) + " }"@
}

/// Describes a store of `length` code units and capacity `capacity`: both
/// numbers, and whether that capacity means heap mode.
pub fn debug_string(length: usize, capacity: usize) -> (text: String)
    ensures
        text@ == debug_text(length as nat, capacity as nat),
{
    let mut text = String::from_str("CxxUtf16String { length: ");
    append_decimal(&mut text, length);
    text.append(", capacity: ");
    append_decimal(&mut text, capacity);
    text.append(", large_mode: ");
    if capacity > INLINE_CAPACITY {
        text.append("true");
    } else {
        text.append("false");
    }
    text.append(" }");
    text
}

/// The allocator that the platform provides.
#[derive(Clone, Copy, Debug, Default)]
pub struct SysAlloc;

/// A UTF-16 string that holds up to seven code units inline and longer
/// contents on the heap.
pub struct CxxUtf16String<A = SysAlloc> {
    alloc: A,
    val: StringVal,
}

impl<A> View for CxxUtf16String<A> {
    type V = Seq<u16>;

    /// The code units of the string, without the terminator.
    open spec fn view(&self) -> Seq<u16> {
        self.state().content
    }
}

impl CxxUtf16String<SysAlloc> {
    /// Creates an empty string in inline mode on the platform's allocator.
    pub fn new() -> (s: Self)
        ensures
            s.state() == TextState::empty(),
            s.state().wf(),
    {
        CxxUtf16String { alloc: SysAlloc, val: StringVal::construct() }
    }
}

impl<A> CxxUtf16String<A> {
    #[verifier::type_invariant]
    spec fn inv(self) -> bool {
        self.val.wf()
    }

    /// The contents and the capacity of the string.
    pub closed spec fn state(self) -> TextState {
        self.val.state()
    }

    /// The allocator that the string was made with.
    pub closed spec fn spec_allocator(self) -> A {
        self.alloc
    }

    /// Takes the value out to work on it, and leaves an empty one meanwhile.
    fn take_val(&mut self) -> (val: StringVal)
        ensures
            val == old(self).val,
            val.wf(),
            final(self).alloc == old(self).alloc,
    {
        proof {
            use_type_invariant(&*self);
        }
        let mut val = StringVal::construct();
        core::mem::swap(&mut self.val, &mut val);
        val
    }

    /// Creates an empty string in inline mode on `alloc`.
    pub fn new_in(alloc: A) -> (s: Self)
        ensures
            s.state() == TextState::empty(),
            s.state().wf(),
            s.spec_allocator() == alloc,
    {
        CxxUtf16String { alloc, val: StringVal::construct() }
    }

    /// The allocator that the string was made with.
    pub fn allocator(&self) -> (alloc: &A)
        ensures
            *alloc == self.spec_allocator(),
    {
        &self.alloc
    }

    /// The number of code units, the terminator not counted.
    pub fn len(&self) -> (n: usize)
        ensures
            n == self@.len(),
            self.state().wf(),
    {
        proof {
            use_type_invariant(self);
        }
        self.val.size
    }

    /// Whether the string holds no code unit.
    pub fn is_empty(&self) -> (b: bool)
        ensures
            b == (self@.len() == 0),
    {
        proof {
            use_type_invariant(self);
        }
        self.val.size == 0
    }

    /// The number of code units that the string can hold before it has to
    /// grow; in inline mode, and only then, the capacity of the inline buffer.
    pub fn capacity(&self) -> (n: usize)
        ensures
            n == self.state().capacity,
            self.state().wf(),
    {
        proof {
            use_type_invariant(self);
        }
        self.val.res
    }

    /// Whether the string is in heap mode.
    pub fn large_mode(&self) -> (large: bool)
        ensures
            large == !self.state().is_inline(),
    {
        proof {
            use_type_invariant(self);
        }
        self.val.res > INLINE_CAPACITY
    }

    /// Creates a string on `alloc` that holds the code units of `s`.
    pub fn from_bytes_in(s: &[u16], alloc: A) -> (new: Self)
        ensures
            new.state() == TextState::empty().assign(s@),
            new.state().wf(),
            new.spec_allocator() == alloc,
    {
        let mut val = StringVal::construct();
        val.assign_n(s);
        CxxUtf16String { alloc, val }
    }

    /// The code units of the string, without the terminator.
    pub fn as_bytes(&self) -> (units: &[u16])
        ensures
            units@ == self@,
    {
        proof {
            use_type_invariant(self);
        }
        slice_subrange(self.val.c_str(), 0, self.val.size)
    }

    /// The code units of the string and the terminator behind them.
    pub fn as_bytes_with_nul(&self) -> (units: &[u16])
        ensures
            units@ == self.state().with_nul(),
    {
        proof {
            use_type_invariant(self);
        }
        let units = slice_subrange(self.val.c_str(), 0, self.val.size + 1);
        assert(units@ =~= self.state().with_nul());
        units
    }

    /// Replaces the contents by the code units of `s`.
    pub fn assign(&mut self, s: &[u16])
        ensures
            final(self).state() == old(self).state().assign(s@),
            final(self).state().wf(),
            final(self).spec_allocator() == old(self).spec_allocator(),
    {
        let mut val = self.take_val();
        val.assign_n(s);
        self.val = val;
    }

    /// Appends the code units of `s`.
    pub fn push(&mut self, s: &[u16])
        ensures
            final(self).state() == old(self).state().push(s@),
            final(self).state().wf(),
            final(self).spec_allocator() == old(self).spec_allocator(),
    {
        let mut val = self.take_val();
        val.append_n(s);
        self.val = val;
    }

    /// Empties the string. Mode and capacity stay as they are.
    pub fn clear(&mut self)
        ensures
            final(self).state() == old(self).state().clear(),
            final(self).state().wf(),
            final(self).spec_allocator() == old(self).spec_allocator(),
    {
        let mut val = self.take_val();
        val.clear();
        self.val = val;
    }

    /// Makes room for `additional` code units beyond the capacity.
    ///
    /// Fails, and changes nothing, where capacity and `additional` together
    /// pass `isize::MAX`.
    pub fn reserve(&mut self, additional: usize) -> (done: Result<(), CapacityOverflow>)
        ensures
            done is Err <==> old(self).state().reserve_overflows(additional as nat),
            done matches Err(overflow) ==> {
                &&& overflow.capacity == old(self).state().capacity
                &&& overflow.additional == additional
                &&& final(self).state() == old(self).state()
            },
            done is Ok ==> final(self).state() == old(self).state().reserve(additional as nat),
            final(self).state().wf(),
            final(self).spec_allocator() == old(self).spec_allocator(),
    {
        proof {
            use_type_invariant(&*self);
        }
        match requested_capacity(self.val.res, additional) {
            Err(overflow) => Err(overflow),
            Ok(total) => {
                let mut val = self.take_val();
                val.reserve(total);
                self.val = val;
                Ok(())
            },
        }
    }

    /// Gives unused capacity back: a heap string whose contents fit inline
    /// becomes inline, any other heap string keeps exactly the capacity that
    /// its contents need.
    pub fn shrink_to_fit(&mut self)
        ensures
            final(self).state() == old(self).state().shrink_to_fit(),
            final(self).state().wf(),
            final(self).spec_allocator() == old(self).spec_allocator(),
    {
        let mut val = self.take_val();
        val.shrink_to_fit();
        self.val = val;
    }

    /// Makes room for as many code units as `units` holds, then appends them
    /// one at a time.
    ///
    /// Fails, and changes nothing, where the request for room overflows.
    pub fn extend(&mut self, units: &[u16]) -> (done: Result<(), CapacityOverflow>)
        ensures
            done is Err <==> old(self).state().reserve_overflows(units@.len()),
            done matches Err(overflow) ==> {
                &&& overflow.capacity == old(self).state().capacity
                &&& overflow.additional == units@.len()
                &&& final(self).state() == old(self).state()
            },
            done is Ok ==> final(self).state() == old(self).state().reserve(
                units@.len(),
            ).push_each(units@),
            final(self).state().wf(),
            final(self).spec_allocator() == old(self).spec_allocator(),
    {
        proof {
            use_type_invariant(&*self);
        }
        let count: usize = units.len();
        let total: usize = match requested_capacity(self.val.res, count) {
            Err(overflow) => {
                return Err(overflow);
            },
            Ok(total) => total,
        };
        let mut val = self.take_val();
        val.reserve(total);
        let ghost target = val.state().push_each(units@);
        assert(units@.skip(0) =~= units@);
        let mut i: usize = 0;
        while i < count
            invariant
                i <= count,
                count == units@.len(),
                val.wf(),
                val.state().push_each(units@.skip(i as int)) == target,
            decreases count - i,
        {
            proof {
                let rest = units@.skip(i as int);
                assert(rest.take(1) =~= seq![units@[i as int]]);
                assert(rest.skip(1) =~= units@.skip(i + 1));
            }
            val.append_char(units[i]);
            i += 1;
        }
        self.val = val;
        Ok(())
    }

    /// Describes the string: its length, its capacity and its mode.
    pub fn fmt(&self) -> (text: String)
        ensures
            text@ == debug_text(self@.len(), self.state().capacity),
    {
        proof {
            use_type_invariant(self);
        }
        debug_string(self.val.size, self.val.res)
    }
}

impl<A: Default> Default for CxxUtf16String<A> {
    /// An empty string in inline mode on the default allocator of its kind.
    fn default() -> (s: Self)
        ensures
            s.state() == TextState::empty(),
            s.state().wf(),
            crate::semantics::is_default(s.spec_allocator()),
    {
        Self::new_in(A::default())
    }
}

impl<A: Clone> Clone for CxxUtf16String<A> {
    /// A string with the same code units on a duplicate of the allocator.
    fn clone(&self) -> (s: Self)
        ensures
            s.state() == TextState::empty().assign(self@),
            s.state().wf(),
            cloned(self.spec_allocator(), s.spec_allocator()),
    {
        Self::from_bytes_in(self.as_bytes(), self.alloc.clone())
    }
}

} // verus!
