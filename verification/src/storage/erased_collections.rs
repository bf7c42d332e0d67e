use super::type_info::{array_limit, lemma_array_limit_positive, TypeInfo};
use crate::errors::ErasedVecErrors;
use vstd::prelude::*;
use vstd::slice::slice_subrange;

verus! {

/// `n` zero bytes.
pub open spec fn zeros(n: nat) -> Seq<u8> {
    Seq::new(n, |i: int| 0u8)
}

/// The `i`-th run of `size` bytes of `bytes`.
pub open spec fn slot_of(bytes: Seq<u8>, size: int, i: int) -> Seq<u8> {
    bytes.subrange(i * size, i * size + size)
}

/// `bytes` cut or filled with zeros to the length `n`.
pub open spec fn resized(bytes: Seq<u8>, n: nat) -> Seq<u8> {
    if n <= bytes.len() {
        bytes.take(n as int)
    } else {
        bytes + zeros((n - bytes.len()) as nat)
    }
}

/// `bytes` with the run that starts at `at` replaced by `value`.
pub open spec fn overwritten(bytes: Seq<u8>, at: int, value: Seq<u8>) -> Seq<u8> {
    Seq::new(
        bytes.len(),
        |j: int|
            if at <= j < at + value.len() {
                value[j - at]
            } else {
                bytes[j]
            },
    )
}

/// `bytes` with the run from `start` to `end` copied `by` places to the right
/// of where it stood; the bytes before `start + by` and from `end + by` on stay.
pub open spec fn shifted(bytes: Seq<u8>, start: int, end: int, by: int) -> Seq<u8> {
    Seq::new(
        bytes.len(),
        |j: int|
            if start + by <= j < end + by {
                bytes[j - by]
            } else {
                bytes[j]
            },
    )
}

/// Slot `i` of `n` slots lies inside them.
pub proof fn lemma_slot_bounds(i: int, n: int, size: int)
    requires
        0 <= i < n,
        0 <= size,
    ensures
        0 <= i * size,
        i * size + size <= n * size,
        (i + 1) * size == i * size + size,
{
    assert(0 <= i * size) by (nonlinear_arith)
        requires
            0 <= i,
            0 <= size,
    ;
    assert((i + 1) * size == i * size + size) by (nonlinear_arith);
    assert((i + 1) * size <= n * size) by (nonlinear_arith)
        requires
            i + 1 <= n,
            0 <= size,
    ;
}

/// Writes `value` over the bytes of `bytes` that start at `at`.
fn write_at(bytes: &mut Vec<u8>, at: usize, value: &[u8])
    requires
        at + value@.len() <= old(bytes)@.len(),
    ensures
        final(bytes)@ == overwritten(old(bytes)@, at as int, value@),
{
    let n = value.len();
    let total = bytes.len();
    let mut k: usize = 0;
    while k < n
        invariant
            n == value@.len(),
            total == bytes@.len(),
            k <= n,
            at + n <= bytes@.len(),
            bytes@.len() == old(bytes)@.len(),
            forall|j: int|
                0 <= j < bytes@.len() ==> bytes@[j] == (if at <= j < at + k {
                    value@[j - at]
                } else {
                    old(bytes)@[j]
                }),
        decreases n - k,
    {
        bytes[at + k] = value[k];
        k += 1;
    }
    assert(bytes@ =~= overwritten(old(bytes)@, at as int, value@));
}

/// Copies the bytes from `start` to `end` of `bytes` to `by` places further right.
fn shift_right(bytes: &mut Vec<u8>, start: usize, end: usize, by: usize)
    requires
        start <= end,
        end + by <= old(bytes)@.len(),
    ensures
        final(bytes)@ == shifted(old(bytes)@, start as int, end as int, by as int),
{
    let total = bytes.len();
    let mut k: usize = end;
    while k > start
        invariant
            start <= k <= end,
            total == bytes@.len(),
            end + by <= bytes@.len(),
            bytes@.len() == old(bytes)@.len(),
            forall|j: int|
                0 <= j < bytes@.len() ==> bytes@[j] == (if k + by <= j < end + by {
                    old(bytes)@[j - by]
                } else {
                    old(bytes)@[j]
                }),
        decreases k,
    {
        k -= 1;
        let b = bytes[k];
        bytes[k + by] = b;
    }
    assert(bytes@ =~= shifted(old(bytes)@, start as int, end as int, by as int));
}

/// The capacity that growing towards `requested` slots gives: the first
/// growth gives one slot whatever was asked for.
pub open spec fn grown_cap(cap: usize, requested: usize) -> usize {
    if cap == 0 {
        1
    } else {
        requested
    }
}

/// The bytes that back a column or a box: room for `cap` values of one type.
///
/// Values of a zero-size type take no room; their capacity stands at
/// `usize::MAX` from the start where the buffer is made by `new`.
pub struct RawErasedVec {
    ty: TypeInfo,
    bytes: Vec<u8>,
    cap: usize,
}

impl RawErasedVec {
    /// The type of the values.
    pub closed spec fn spec_ty(&self) -> TypeInfo {
        self.ty
    }

    /// How many values there is room for.
    pub closed spec fn spec_cap(&self) -> usize {
        self.cap
    }

    /// The bytes of the buffer, slot after slot.
    pub closed spec fn bytes(&self) -> Seq<u8> {
        self.bytes@
    }

    /// Whether the buffer holds no bytes.
    pub open spec fn spec_bytes_empty(&self) -> bool {
        self.bytes().len() == 0
    }

    /// The buffer holds as many bytes as its capacity asks for, and no more
    /// slots than an array of the type may have.
    pub open spec fn wf(&self) -> bool {
        &&& self.spec_ty().wf()
        &&& self.spec_ty().spec_size() == 0 ==> self.bytes().len() == 0
        &&& self.spec_ty().spec_size() > 0 ==> {
            &&& self.bytes().len() == self.spec_cap() * self.spec_ty().spec_size()
            &&& self.spec_cap() <= array_limit(
                self.spec_ty().spec_size(),
                self.spec_ty().spec_align(),
            )
        }
    }

    /// The error that growing towards `requested` slots meets, if any: a
    /// zero-size type cannot grow, and no array may pass `array_limit`.
    pub open spec fn growth_error(&self, requested: usize) -> Option<ErasedVecErrors> {
        if self.spec_ty().spec_size() == 0 {
            Some(ErasedVecErrors::ErasedVecCapacityOverflow)
        } else if grown_cap(self.spec_cap(), requested) > array_limit(
            self.spec_ty().spec_size(),
            self.spec_ty().spec_align(),
        ) {
            Some(ErasedVecErrors::ErasedVecAllocError)
        } else {
            None
        }
    }

    /// An empty buffer for values of `ty`.
    pub fn new(ty: TypeInfo) -> (buf: Self)
        ensures
            buf.wf(),
            buf.spec_ty() == ty,
            buf.spec_cap() == (if ty.spec_size() == 0 {
                usize::MAX
            } else {
                0
            }),
            buf.bytes() == Seq::<u8>::empty(),
    {
        proof {
            use_type_invariant(&ty);
        }
        let cap = if ty.size() == 0 {
            usize::MAX
        } else {
            0
        };
        assert(0 * ty.spec_size() == 0) by (nonlinear_arith);
        RawErasedVec { ty, bytes: Vec::new(), cap }
    }

    /// An empty buffer for values of `ty`, without room even where the
    /// values take none.
    pub fn new_erased(ty: TypeInfo) -> (buf: Self)
        ensures
            buf.wf(),
            buf.spec_ty() == ty,
            buf.spec_cap() == 0,
            buf.bytes() == Seq::<u8>::empty(),
    {
        proof {
            use_type_invariant(&ty);
        }
        assert(0 * ty.spec_size() == 0) by (nonlinear_arith);
        RawErasedVec { ty, bytes: Vec::new(), cap: 0 }
    }

    /// Gives the buffer room for `grown_cap(cap, requested)` values. The
    /// bytes that stay keep their content and new bytes are zero.
    ///
    /// Fails, and changes nothing, exactly where `growth_error` names an
    /// error.
    pub fn grow_exact(&mut self, cap: usize) -> (r: Result<(), ErasedVecErrors>)
        requires
            old(self).wf(),
        ensures
            match r {
                Ok(()) => {
                    &&& old(self).growth_error(cap) is None
                    &&& final(self).wf()
                    &&& final(self).spec_ty() == old(self).spec_ty()
                    &&& final(self).spec_cap() == grown_cap(old(self).spec_cap(), cap)
                    &&& final(self).bytes() == resized(
                        old(self).bytes(),
                        (final(self).spec_cap() * old(self).spec_ty().spec_size()) as nat,
                    )
                },
                Err(e) => old(self).growth_error(cap) == Some(e) && *final(self) == *old(self),
            },
    {
        if self.ty.size() == 0 {
            return Err(ErasedVecErrors::ErasedVecCapacityOverflow);
        }
        let new_cap: usize = if self.cap == 0 {
            1
        } else {
            cap
        };
        let new_layout = match self.ty.array(new_cap) {
            Ok(layout) => layout,
            Err(_) => {
                return Err(ErasedVecErrors::ErasedVecAllocError);
            },
        };
        assert(new_layout.spec_size() == new_cap * self.ty.spec_size()) by (nonlinear_arith)
            requires
                new_layout.spec_size() == self.ty.spec_size() * new_cap,
        ;
        let ghost before = self.bytes@;
        self.bytes.resize(new_layout.size(), 0u8);
        self.cap = new_cap;
        assert(self.bytes@ =~= resized(before, new_layout.spec_size() as nat));
        Ok(())
    }

    /// Doubles the room of the buffer, or gives it room for one value where
    /// it had none.
    pub fn grow(&mut self) -> (r: Result<(), ErasedVecErrors>)
        requires
            old(self).wf(),
        ensures
            match r {
                Ok(()) => {
                    &&& old(self).growth_error(old(self).doubled()) is None
                    &&& final(self).wf()
                    &&& final(self).spec_ty() == old(self).spec_ty()
                    &&& final(self).spec_cap() == grown_cap(
                        old(self).spec_cap(),
                        old(self).doubled(),
                    )
                    &&& final(self).bytes() == resized(
                        old(self).bytes(),
                        (final(self).spec_cap() * old(self).spec_ty().spec_size()) as nat,
                    )
                },
                Err(e) => old(self).growth_error(old(self).doubled()) == Some(e) && *final(self)
                    == *old(self),
            },
    {
        if self.ty.size() == 0 {
            return Err(ErasedVecErrors::ErasedVecCapacityOverflow);
        }
        proof {
            self.lemma_cap_small();
        }
        self.grow_exact(2 * self.cap)
    }

    /// Twice the capacity, where that is a number; else the capacity.
    pub open spec fn doubled(&self) -> usize {
        if 2 * self.spec_cap() <= usize::MAX {
            (2 * self.spec_cap()) as usize
        } else {
            self.spec_cap()
        }
    }

    /// The capacity of a buffer whose values have a size can be doubled.
    pub proof fn lemma_cap_small(&self)
        requires
            self.wf(),
            self.spec_ty().spec_size() > 0,
        ensures
            2 * self.spec_cap() <= usize::MAX,
    {
        let size = self.spec_ty().spec_size();
        let align = self.spec_ty().spec_align();
        assert(array_limit(size, align) <= isize::MAX) by (nonlinear_arith)
            requires
                size > 0,
                align > 0,
                array_limit(size, align) == (isize::MAX - (align - 1)) / (size as int),
        ;
    }
}

/// Two byte sequences that agree below `n * size` have the same first `n` slots.
pub proof fn lemma_slots_agree(a: Seq<u8>, b: Seq<u8>, size: int, n: int)
    requires
        0 <= size,
        0 <= n,
        n * size <= a.len(),
        n * size <= b.len(),
        forall|j: int| 0 <= j < n * size ==> a[j] == b[j],
    ensures
        forall|i: int| 0 <= i < n ==> #[trigger] slot_of(a, size, i) == slot_of(b, size, i),
{
    assert forall|i: int| 0 <= i < n implies #[trigger] slot_of(a, size, i) == slot_of(
        b,
        size,
        i,
    ) by {
        lemma_slot_bounds(i, n, size);
        assert(slot_of(a, size, i) =~= slot_of(b, size, i));
    }
}

/// Writing a value over slot `k` makes it that slot and leaves the other slots.
pub proof fn lemma_overwritten_slots(bytes: Seq<u8>, size: int, n: int, k: int, value: Seq<u8>)
    requires
        0 <= size,
        0 <= k < n,
        n * size <= bytes.len(),
        value.len() == size,
    ensures
        slot_of(overwritten(bytes, k * size, value), size, k) == value,
        forall|i: int|
            0 <= i < n && i != k ==> #[trigger] slot_of(
                overwritten(bytes, k * size, value),
                size,
                i,
            ) == slot_of(bytes, size, i),
{
    let after = overwritten(bytes, k * size, value);
    lemma_slot_bounds(k, n, size);
    assert(slot_of(after, size, k) =~= value);
    assert forall|i: int| 0 <= i < n && i != k implies #[trigger] slot_of(after, size, i)
        == slot_of(bytes, size, i) by {
        lemma_slot_bounds(i, n, size);
        if i < k {
            lemma_slot_bounds(i, k, size);
        } else {
            lemma_slot_bounds(k, i, size);
        }
        assert(slot_of(after, size, i) =~= slot_of(bytes, size, i));
    }
}

/// Shifting the slots from `index` to `n` one slot to the right moves each of
/// them up by one and leaves the slots below `index`.
pub proof fn lemma_shifted_slots(bytes: Seq<u8>, size: int, n: int, index: int)
    requires
        0 <= size,
        0 <= index <= n,
        (n + 1) * size <= bytes.len(),
    ensures
        forall|i: int|
            0 <= i < index ==> #[trigger] slot_of(
                shifted(bytes, index * size, n * size, size),
                size,
                i,
            ) == slot_of(bytes, size, i),
        forall|i: int|
            index < i <= n ==> #[trigger] slot_of(
                shifted(bytes, index * size, n * size, size),
                size,
                i,
            ) == slot_of(bytes, size, i - 1),
{
    let after = shifted(bytes, index * size, n * size, size);
    assert forall|i: int| 0 <= i < index implies #[trigger] slot_of(after, size, i) == slot_of(
        bytes,
        size,
        i,
    ) by {
        lemma_slot_bounds(i, index, size);
        lemma_slot_bounds(i, n + 1, size);
        assert(slot_of(after, size, i) =~= slot_of(bytes, size, i));
    }
    assert forall|i: int| index < i <= n implies #[trigger] slot_of(after, size, i) == slot_of(
        bytes,
        size,
        i - 1,
    ) by {
        lemma_slot_bounds(i, n + 1, size);
        lemma_slot_bounds(i - 1, n + 1, size);
        lemma_slot_bounds(index, i, size);
        lemma_slot_bounds(n, n + 1, size);
        assert((i - 1) * size + size == i * size) by (nonlinear_arith);
        assert(slot_of(after, size, i) =~= slot_of(bytes, size, i - 1));
    }
}

/// `bytes` with the run of `value.len()` bytes that starts at `at` cut out and
/// `value` put in its place.
pub open spec fn spliced(bytes: Seq<u8>, at: int, value: Seq<u8>) -> Seq<u8> {
    bytes.subrange(0, at) + value + bytes.subrange(at + value.len(), bytes.len() as int)
}

/// Putting a value of `size` bytes in the place of slot `k` makes it that
/// slot and leaves the other slots.
pub proof fn lemma_spliced_slots(bytes: Seq<u8>, size: int, n: int, k: int)
    requires
        0 <= size,
        0 <= k < n,
        n * size <= bytes.len(),
    ensures
        forall|value: Seq<u8>|
            value.len() == size ==> {
                &&& (#[trigger] spliced(bytes, k * size, value)).len() == bytes.len()
                &&& slot_of(spliced(bytes, k * size, value), size, k) == value
                &&& forall|i: int|
                    0 <= i < n && i != k ==> #[trigger] slot_of(
                        spliced(bytes, k * size, value),
                        size,
                        i,
                    ) == slot_of(bytes, size, i)
            },
{
    assert forall|value: Seq<u8>| value.len() == size implies {
        &&& (#[trigger] spliced(bytes, k * size, value)).len() == bytes.len()
        &&& slot_of(spliced(bytes, k * size, value), size, k) == value
        &&& forall|i: int|
            0 <= i < n && i != k ==> #[trigger] slot_of(
                spliced(bytes, k * size, value),
                size,
                i,
            ) == slot_of(bytes, size, i)
    } by {
        lemma_slot_bounds(k, n, size);
        assert(spliced(bytes, k * size, value) =~= overwritten(bytes, k * size, value));
        lemma_overwritten_slots(bytes, size, n, k, value);
    }
}

/// What a column is to its users: the type of its values, the bytes and the
/// flag of each slot, and the number of slots there is room for.
pub struct ColumnView {
    pub ty: TypeInfo,
    pub values: Seq<Seq<u8>>,
    pub fills: Seq<bool>,
    pub cap: usize,
}

impl ColumnView {
    /// The error that making room for one more slot meets, if any. Room is
    /// made only where every slot is taken, by doubling.
    pub open spec fn room_error(self) -> Option<ErasedVecErrors> {
        if self.values.len() < self.cap {
            None
        } else if self.ty.spec_size() == 0 {
            Some(ErasedVecErrors::ErasedVecCapacityOverflow)
        } else if grown_cap(self.cap, (2 * self.cap) as usize) > array_limit(
            self.ty.spec_size(),
            self.ty.spec_align(),
        ) {
            Some(ErasedVecErrors::ErasedVecAllocError)
        } else {
            None
        }
    }

    /// The capacity after room for one more slot was made.
    pub open spec fn cap_with_room(self) -> usize {
        if self.values.len() < self.cap {
            self.cap
        } else {
            grown_cap(self.cap, (2 * self.cap) as usize)
        }
    }

    /// The column with one more slot at the end, holding `value` and marked
    /// `filled`.
    pub open spec fn push(self, value: Seq<u8>, filled: bool) -> ColumnView {
        ColumnView {
            ty: self.ty,
            values: self.values.push(value),
            fills: self.fills.push(filled),
            cap: self.cap_with_room(),
        }
    }

    /// The column with one more slot at the end, of zero bytes and not
    /// filled.
    pub open spec fn pad(self) -> ColumnView {
        self.push(zeros(self.ty.spec_size() as nat), false)
    }

    /// The column with one more slot at `index`, holding `value` and filled,
    /// the slots from `index` on moved up by one.
    pub open spec fn insert(self, index: int, value: Seq<u8>) -> ColumnView {
        ColumnView {
            ty: self.ty,
            values: self.values.insert(index, value),
            fills: self.fills.insert(index, true),
            cap: self.cap_with_room(),
        }
    }

    /// The column with the slot at `index` holding `value` and marked
    /// `filled`.
    pub open spec fn set(self, index: int, value: Seq<u8>, filled: bool) -> ColumnView {
        ColumnView {
            ty: self.ty,
            values: self.values.update(index, value),
            fills: self.fills.update(index, filled),
            cap: self.cap,
        }
    }

    /// The column with the first `n` of `values` pushed, in their order.
    pub open spec fn push_all(self, values: Seq<Seq<u8>>, n: int) -> ColumnView
        decreases n,
    {
        if n <= 0 {
            self
        } else {
            self.push_all(values, n - 1).push(values[n - 1], true)
        }
    }
}

/// What is pushed is read back: a column onto which values were pushed holds
/// what it held, then those values in the order of the pushes, each in a
/// filled slot.
pub proof fn lemma_round_trip(column: ColumnView, values: Seq<Seq<u8>>, n: int)
    requires
        0 <= n <= values.len(),
        column.fills.len() == column.values.len(),
    ensures
        column.push_all(values, n).values == column.values + values.take(n),
        column.push_all(values, n).fills.len() == column.values.len() + n,
        forall|i: int|
            0 <= i < n ==> column.push_all(values, n).values[column.values.len() + i]
                == #[trigger] values[i],
        forall|i: int|
            0 <= i < n ==> #[trigger] column.push_all(values, n).fills[column.values.len() + i],
    decreases n,
{
    if n > 0 {
        lemma_round_trip(column, values, n - 1);
        assert(values.take(n) =~= values.take(n - 1).push(values[n - 1]));
        assert(column.push_all(values, n).values =~= column.values + values.take(n));
    } else {
        assert(column.push_all(values, n).values =~= column.values + values.take(n));
    }
}

/// A padded slot reads as zero bytes and is not filled; once set, it reads
/// as what was set and is filled. The slots before it are as they were.
pub proof fn lemma_pad_then_set(column: ColumnView, value: Seq<u8>)
    requires
        column.fills.len() == column.values.len(),
    ensures
        column.pad().values.len() == column.values.len() + 1,
        column.pad().values.last() == zeros(column.ty.spec_size() as nat),
        !column.pad().fills.last(),
        column.pad().set(column.values.len() as int, value, true).values.last() == value,
        column.pad().set(column.values.len() as int, value, true).fills.last(),
        column.pad().set(column.values.len() as int, value, true).values.drop_last()
            == column.values,
{
    let n = column.values.len() as int;
    assert(column.pad().set(n, value, true).values.drop_last() =~= column.values);
}

/// A column of values without a size has room for any number of slots that
/// can be counted: no push and no pad fails for want of room, and the
/// capacity stays where it stood.
pub proof fn lemma_zero_size_room(column: ColumnView)
    requires
        column.ty.spec_size() == 0,
        column.cap == usize::MAX,
        column.values.len() < usize::MAX,
    ensures
        column.room_error() is None,
        column.pad().cap == usize::MAX,
        forall|value: Seq<u8>, filled: bool| (#[trigger] column.push(value, filled)).cap
            == usize::MAX,
{
}

/// A column: the values of one component type, one slot per entity.
///
/// Each slot holds as many bytes as a value of the type takes and a flag that
/// says whether those bytes are a live value. The destructor of the type is
/// owed to the filled slots and to no other.
///
/// A value comes to a column as a run of bytes beside the descriptor of its
/// type. The column takes the bytes over where the descriptor is that of its
/// own type; whoever offers them under that descriptor offers as many bytes
/// as a value of the type takes.
pub struct ErasedVec {
    buf: RawErasedVec,
    /// Which slots hold a live value.
    filled: Vec<bool>,
    len: usize,
}

impl View for ErasedVec {
    type V = ColumnView;

    open spec fn view(&self) -> ColumnView {
        ColumnView {
            ty: self.spec_ty(),
            values: self.values(),
            fills: self.fills(),
            cap: self.capacity(),
        }
    }
}

impl ErasedVec {
    /// The type of the values.
    pub closed spec fn spec_ty(&self) -> TypeInfo {
        self.buf.ty
    }

    /// The number of slots.
    pub closed spec fn spec_len(&self) -> usize {
        self.len
    }

    /// The number of slots there is room for.
    pub closed spec fn capacity(&self) -> usize {
        self.buf.cap
    }

    /// The bytes of each slot.
    pub closed spec fn values(&self) -> Seq<Seq<u8>> {
        Seq::new(
            self.len as nat,
            |i: int| slot_of(self.buf.bytes@, self.buf.ty.spec_size() as int, i),
        )
    }

    /// For each slot, whether it holds a live value.
    pub closed spec fn fills(&self) -> Seq<bool> {
        self.filled@
    }

    /// The number of bytes that the column has taken for its slots.
    pub closed spec fn allocated(&self) -> nat {
        self.buf.bytes@.len()
    }

    /// The slots lie inside the buffer and each has its flag.
    pub closed spec fn wf(&self) -> bool {
        &&& self.buf.wf()
        &&& self.filled@.len() == self.len
        &&& self.len <= self.buf.cap
    }

    /// The error that making room for one more slot meets, if any.
    pub open spec fn room_error(&self) -> Option<ErasedVecErrors> {
        self@.room_error()
    }

    /// The capacity after room for one more slot was made.
    pub open spec fn capacity_with_room(&self) -> usize {
        self@.cap_with_room()
    }

    /// A column has a value and a flag for each slot, and each value has the
    /// size of the type.
    pub proof fn lemma_shape(&self)
        requires
            self.wf(),
        ensures
            self.values().len() == self.spec_len(),
            self.fills().len() == self.spec_len(),
            self.spec_len() <= self.capacity(),
            forall|i: int|
                0 <= i < self.spec_len() ==> (#[trigger] self.values()[i]).len()
                    == self.spec_ty().spec_size(),
    {
        let size = self.buf.ty.spec_size() as int;
        assert forall|i: int| 0 <= i < self.len implies (#[trigger] self.values()[i]).len()
            == size by {
            self.lemma_slot_inside(i);
        }
    }

    /// Values without a size take no bytes, however many there are.
    pub proof fn lemma_zero_size_allocates_nothing(&self)
        requires
            self.wf(),
            self.spec_ty().spec_size() == 0,
        ensures
            self.allocated() == 0,
    {
    }

    /// Slot `i` of the room lies inside the buffer.
    proof fn lemma_slot_inside(&self, i: int)
        requires
            self.buf.wf(),
            0 <= i < self.buf.cap,
        ensures
            0 <= i * self.buf.ty.spec_size(),
            i * self.buf.ty.spec_size() + self.buf.ty.spec_size() <= self.buf.bytes@.len(),
            i * self.buf.ty.spec_size() + self.buf.ty.spec_size() <= usize::MAX,
            self.buf.ty.spec_size() == 0 ==> i * self.buf.ty.spec_size() == 0,
    {
        let size = self.buf.ty.spec_size() as int;
        lemma_slot_bounds(i, self.buf.cap as int, size);
        assert(self.buf.bytes@.len() == self.buf.bytes.len());
        if size == 0 {
            assert(i * size == 0) by (nonlinear_arith)
                requires
                    size == 0,
            ;
        }
    }

    /// The first `n` slots of the room lie inside the buffer.
    proof fn lemma_prefix_inside(&self, n: int)
        requires
            self.buf.wf(),
            0 <= n <= self.buf.cap,
        ensures
            0 <= n * self.buf.ty.spec_size() <= self.buf.bytes@.len(),
    {
        let size = self.buf.ty.spec_size() as int;
        let cap = self.buf.cap as int;
        if size == 0 {
            assert(n * size == 0) by (nonlinear_arith)
                requires
                    size == 0,
            ;
        } else {
            assert(0 <= n * size <= cap * size) by (nonlinear_arith)
                requires
                    0 <= n <= cap,
                    0 < size,
            ;
        }
    }

    /// Constructs a new, empty column for values of `ty`.
    ///
    /// It takes no room until values are pushed onto it.
    pub fn new(ty: TypeInfo) -> (v: Self)
        ensures
            v.wf(),
            v.spec_ty() == ty,
            v.spec_len() == 0,
            v.values() == Seq::<Seq<u8>>::empty(),
            v.fills() == Seq::<bool>::empty(),
            v.capacity() == (if ty.spec_size() == 0 {
                usize::MAX
            } else {
                0
            }),
    {
        let v = ErasedVec { buf: RawErasedVec::new(ty), filled: Vec::new(), len: 0 };
        assert(v.values() =~= Seq::<Seq<u8>>::empty());
        v
    }

    /// Whether every slot is zero bytes and none is filled.
    pub open spec fn all_padding(&self) -> bool {
        &&& forall|i: int|
            0 <= i < self.spec_len() ==> #[trigger] self.values()[i] == zeros(
                self.spec_ty().spec_size() as nat,
            )
        &&& forall|i: int| 0 <= i < self.spec_len() ==> !#[trigger] self.fills()[i]
    }

    /// Constructs a column for values of `ty` with `slots` slots, each of
    /// zero bytes and none filled, and room for exactly these.
    ///
    /// Fails with `ErasedVecAllocError` exactly where the values have a size
    /// and `slots` exceeds `array_limit`.
    pub fn padded(ty: TypeInfo, slots: usize) -> (r: Result<Self, ErasedVecErrors>)
        ensures
            match r {
                Ok(v) => {
                    &&& ty.spec_size() == 0 || slots <= array_limit(
                        ty.spec_size(),
                        ty.spec_align(),
                    )
                    &&& v.wf()
                    &&& v.spec_ty() == ty
                    &&& v.spec_len() == slots
                    &&& v.all_padding()
                    &&& v.capacity() == (if ty.spec_size() == 0 {
                        usize::MAX
                    } else {
                        slots
                    })
                },
                Err(e) => {
                    &&& ty.spec_size() > 0
                    &&& slots > array_limit(ty.spec_size(), ty.spec_align())
                    &&& e == ErasedVecErrors::ErasedVecAllocError
                },
            },
    {
        let mut buf = RawErasedVec::new(ty);
        let ghost size = ty.spec_size() as int;
        proof {
            use_type_invariant(&ty);
            if size > 0 {
                lemma_array_limit_positive(ty.spec_size(), ty.spec_align());
            }
        }
        if ty.size() > 0 && slots > 0 {
            // Nothing is taken where the whole cannot be had
            if ty.array(slots).is_err() {
                return Err(ErasedVecErrors::ErasedVecAllocError);
            }
            match buf.grow_exact(slots) {
                Ok(()) => {},
                Err(e) => {
                    return Err(e);
                },
            }
            if slots > 1 {
                match buf.grow_exact(slots) {
                    Ok(()) => {},
                    Err(e) => {
                        return Err(e);
                    },
                }
            }
        }
        let v = ErasedVec { buf, filled: vec![false; slots], len: slots };
        proof {
            assert(0 * size == 0) by (nonlinear_arith);
            assert(v.buf.bytes@ =~= zeros(v.buf.bytes@.len()));
            assert forall|i: int| 0 <= i < v.spec_len() implies #[trigger] v.values()[i] == zeros(
                ty.spec_size() as nat,
            ) by {
                v.lemma_slot_inside(i);
                assert(v.values()[i] =~= zeros(ty.spec_size() as nat));
            }
        }
        Ok(v)
    }

    /// The whole buffer.
    fn ptr(&self) -> (bytes: &[u8])
        ensures
            bytes@ == self.buf.bytes@,
    {
        self.buf.bytes.as_slice()
    }

    /// The bytes of the slot at `index`.
    ///
    /// No type is asked for and no error is given: the index must name a slot.
    pub fn indexed_ptr(&self, index: usize) -> (value: &[u8])
        requires
            self.wf(),
            index < self.spec_len(),
        ensures
            value@ == self.values()[index as int],
    {
        proof {
            self.lemma_slot_inside(index as int);
        }
        let size = self.buf.ty.size();
        let start = index * size;
        slice_subrange(self.ptr(), start, start + size)
    }

    /// The type of the values.
    #[verifier::when_used_as_spec(spec_ty)]
    pub fn ty(&self) -> (ty: TypeInfo)
        ensures
            ty == self.spec_ty(),
    {
        self.buf.ty
    }

    /// The number of slots there is room for.
    #[verifier::when_used_as_spec(capacity)]
    pub fn cap(&self) -> (cap: usize)
        ensures
            cap == self.capacity(),
    {
        self.buf.cap
    }

    /// Returns the number of slots in the column, also referred to as its
    /// length.
    #[verifier::when_used_as_spec(spec_len)]
    pub fn len(&self) -> (len: usize)
        ensures
            len == self.spec_len(),
    {
        self.len
    }

    /// For each slot, whether it holds a live value.
    pub fn filled(&self) -> (filled: &Vec<bool>)
        ensures
            filled@ == self.fills(),
    {
        &self.filled
    }

    /// Fails unless `ty` is the type of the values, naming both types.
    pub fn assert_type_info_insert(&self, ty: TypeInfo) -> (r: Result<(), ErasedVecErrors>)
        ensures
            match r {
                Ok(()) => ty.spec_id() == self.spec_ty().spec_id(),
                Err(e) => ty.spec_id() != self.spec_ty().spec_id() && e.is_wrong_insertion(
                    ty.spec_name(),
                    self.spec_ty().spec_name(),
                ),
            },
    {
        if ty == self.buf.ty {
            Ok(())
        } else {
            Err(
                ErasedVecErrors::IncorrectTypeInsertion {
                    insert_type: ty.name(),
                    vec_type: self.buf.ty.name(),
                },
            )
        }
    }

    /// Fails unless `ty` is the type of the values, naming `ty`.
    pub fn assert_type_info(&self, ty: TypeInfo) -> (r: Result<(), ErasedVecErrors>)
        ensures
            match r {
                Ok(()) => ty.spec_id() == self.spec_ty().spec_id(),
                Err(e) => ty.spec_id() != self.spec_ty().spec_id() && e.is_missing_type(
                    ty.spec_name(),
                ),
            },
    {
        if ty == self.buf.ty {
            Ok(())
        } else {
            Err(ErasedVecErrors::DoesNotContainType(ty.name()))
        }
    }

    /// Fails unless `index` names a slot.
    fn check_index(&self, index: usize) -> (r: Result<(), ErasedVecErrors>)
        ensures
            match r {
                Ok(()) => index < self.spec_len(),
                Err(e) => index >= self.spec_len() && e.is_out_of_bounds(self.spec_len(), index),
            },
    {
        if index < self.len {
            Ok(())
        } else {
            Err(ErasedVecErrors::IndexOutOfBounds { len: self.len, index })
        }
    }

    /// Says whether room for one more slot can be made, without making it.
    pub fn check_room(&self) -> (r: Result<(), ErasedVecErrors>)
        requires
            self.wf(),
        ensures
            match r {
                Ok(()) => self.room_error() is None,
                Err(e) => self.room_error() == Some(e),
            },
    {
        if self.len < self.buf.cap {
            return Ok(());
        }
        if self.buf.ty.size() == 0 {
            return Err(ErasedVecErrors::ErasedVecCapacityOverflow);
        }
        proof {
            self.buf.lemma_cap_small();
        }
        let new_cap: usize = if self.buf.cap == 0 {
            1
        } else {
            2 * self.buf.cap
        };
        match self.buf.ty.array(new_cap) {
            Ok(_) => Ok(()),
            Err(_) => Err(ErasedVecErrors::ErasedVecAllocError),
        }
    }

    /// Makes room for one more slot where every slot is taken. The slots
    /// keep their values.
    fn make_room(&mut self)
        requires
            old(self).wf(),
            old(self).room_error() is None,
        ensures
            final(self).wf(),
            final(self).spec_len() < final(self).capacity(),
            final(self).capacity() == old(self).capacity_with_room(),
            final(self).spec_ty() == old(self).spec_ty(),
            final(self).spec_len() == old(self).spec_len(),
            final(self).values() == old(self).values(),
            final(self).fills() == old(self).fills(),
    {
        if self.len == self.buf.cap {
            proof {
                self.buf.lemma_cap_small();
            }
            let ghost before = self.buf.bytes@;
            let ghost size = self.buf.ty.spec_size() as int;
            let ghost n = self.len as int;
            let _ = self.buf.grow();
            proof {
                assert(n * size <= before.len()) by {
                    if n > 0 {
                        lemma_slot_bounds(n - 1, n, size);
                    }
                };
                assert(self.buf.cap > n);
                lemma_slot_bounds(n, self.buf.cap as int, size);
                lemma_slots_agree(before, self.buf.bytes@, size, n);
                assert(self.values() =~= old(self).values());
            }
        }
    }

    /// Whether `value` can stand in a slot where `ty` passes for the type of
    /// the values: it then has the size of a value.
    pub open spec fn fits(&self, ty: TypeInfo, value: Seq<u8>) -> bool {
        ty.spec_id() == self.spec_ty().spec_id() ==> value.len() == self.spec_ty().spec_size()
    }

    /// Whether `self` is `before` with one more slot at the end, holding
    /// `value` and marked `filled`.
    pub open spec fn pushed(&self, before: &Self, value: Seq<u8>, filled: bool) -> bool {
        &&& self.wf()
        &&& self.spec_len() == before.spec_len() + 1
        &&& self@ == before@.push(value, filled)
    }

    /// Whether `self` is `before` with one more slot at `index`, holding
    /// `value` and filled, the slots from `index` on moved up by one.
    pub open spec fn inserted(&self, before: &Self, index: int, value: Seq<u8>) -> bool {
        &&& self.wf()
        &&& self.spec_len() == before.spec_len() + 1
        &&& self@ == before@.insert(index, value)
    }

    /// Whether `self` is `before` with the slot at `index` holding `value`
    /// and marked `filled`, and nothing else changed.
    pub open spec fn replaced(&self, before: &Self, index: int, value: Seq<u8>, filled: bool) -> bool {
        &&& self.wf()
        &&& self.spec_len() == before.spec_len()
        &&& self@.ty == before@.ty
        &&& self@.values =~= before@.values.update(index, value)
        &&& self@.fills =~= before@.fills.update(index, filled)
        &&& self@.cap == before@.cap
    }

    /// Adds a slot at the end.
    fn append(&mut self, value: &[u8], filled: bool)
        requires
            old(self).wf(),
            old(self).room_error() is None,
            value@.len() == old(self).spec_ty().spec_size(),
        ensures
            final(self).pushed(old(self), value@, filled),
    {
        self.make_room();
        let ghost mid = *self;
        let ghost size = self.buf.ty.spec_size() as int;
        proof {
            self.lemma_slot_inside(self.len as int);
        }
        let at = self.len * self.buf.ty.size();
        write_at(&mut self.buf.bytes, at, value);
        self.filled.push(filled);
        self.len += 1;
        proof {
            mid.lemma_prefix_inside(mid.len as int + 1);
            lemma_overwritten_slots(
                mid.buf.bytes@,
                size,
                mid.len as int + 1,
                mid.len as int,
                value@,
            );
            assert(self.values() =~= old(self).values().push(value@));
        }
    }

    /// Adds a filled slot at `index` and moves the slots from there on up.
    fn place(&mut self, index: usize, value: &[u8])
        requires
            old(self).wf(),
            old(self).room_error() is None,
            index <= old(self).spec_len(),
            value@.len() == old(self).spec_ty().spec_size(),
        ensures
            final(self).inserted(old(self), index as int, value@),
    {
        self.make_room();
        let ghost mid = *self;
        let ghost size = self.buf.ty.spec_size() as int;
        let ghost n = self.len as int;
        proof {
            self.lemma_slot_inside(n);
            if index < self.len {
                self.lemma_slot_inside(index as int);
                lemma_slot_bounds(index as int, n, size);
            }
            lemma_slot_bounds(n, n + 1, size);
        }
        let size_bytes = self.buf.ty.size();
        let start = index * size_bytes;
        let end = self.len * size_bytes;
        shift_right(&mut self.buf.bytes, start, end, size_bytes);
        let ghost moved = self.buf.bytes@;
        write_at(&mut self.buf.bytes, start, value);
        self.filled.insert(index, true);
        self.len += 1;
        proof {
            lemma_shifted_slots(mid.buf.bytes@, size, n, index as int);
            lemma_overwritten_slots(moved, size, n + 1, index as int, value@);
            assert(self.values() =~= old(self).values().insert(index as int, value@));
        }
    }

    /// Writes `value` into the slot at `index` and marks it filled.
    fn overwrite(&mut self, index: usize, value: &[u8])
        requires
            old(self).wf(),
            index < old(self).spec_len(),
            value@.len() == old(self).spec_ty().spec_size(),
        ensures
            final(self).replaced(old(self), index as int, value@, true),
    {
        let ghost size = self.buf.ty.spec_size() as int;
        proof {
            self.lemma_slot_inside(index as int);
            lemma_slot_bounds(index as int, self.len as int, size);
        }
        let at = index * self.buf.ty.size();
        write_at(&mut self.buf.bytes, at, value);
        self.filled[index] = true;
        proof {
            old(self).lemma_prefix_inside(self.len as int);
            lemma_overwritten_slots(
                old(self).buf.bytes@,
                size,
                self.len as int,
                index as int,
                value@,
            );
            assert(self.values() =~= old(self).values().update(index as int, value@));
            assert(self.fills() =~= old(self).fills().update(index as int, true));
        }
    }

    /// Fetches the value at `index`, read as a value of `ty`.
    ///
    /// Fails with `DoesNotContainType` where `ty` is not the type of the
    /// values, else with `IndexOutOfBounds` where `index` names no slot.
    pub fn get(&self, ty: TypeInfo, index: usize) -> (r: Result<&[u8], ErasedVecErrors>)
        requires
            self.wf(),
        ensures
            match r {
                Ok(value) => {
                    &&& ty.spec_id() == self.spec_ty().spec_id()
                    &&& index < self.spec_len()
                    &&& value@ == self.values()[index as int]
                },
                Err(e) => if ty.spec_id() != self.spec_ty().spec_id() {
                    e.is_missing_type(ty.spec_name())
                } else {
                    index >= self.spec_len() && e.is_out_of_bounds(self.spec_len(), index)
                },
            },
    {
        match self.assert_type_info(ty) {
            Ok(()) => {},
            Err(e) => {
                return Err(e);
            },
        }
        match self.check_index(index) {
            Ok(()) => {},
            Err(e) => {
                return Err(e);
            },
        }
        Ok(self.indexed_ptr(index))
    }

    /// Fetches the bytes of the slot at `index`, whatever their type and
    /// whether or not the slot is filled.
    ///
    /// Fails with `IndexOutOfBounds` exactly where `index` names no slot.
    pub fn get_unchecked(&self, index: usize) -> (r: Result<&[u8], ErasedVecErrors>)
        requires
            self.wf(),
        ensures
            match r {
                Ok(value) => index < self.spec_len() && value@ == self.values()[index as int],
                Err(e) => index >= self.spec_len() && e.is_out_of_bounds(self.spec_len(), index),
            },
    {
        match self.check_index(index) {
            Ok(()) => {},
            Err(e) => {
                return Err(e);
            },
        }
        Ok(self.indexed_ptr(index))
    }

    /// Appends a slot of zero bytes that holds no live value: the slot
    /// exists, and nothing of the type is in it.
    ///
    /// Fails, and changes nothing, exactly where no room can be made.
    pub fn pad(&mut self) -> (r: Result<(), ErasedVecErrors>)
        requires
            old(self).wf(),
        ensures
            match r {
                Ok(()) => old(self).room_error() is None && final(self).pushed(
                    old(self),
                    zeros(old(self).spec_ty().spec_size() as nat),
                    false,
                ),
                Err(e) => old(self).room_error() == Some(e) && *final(self) == *old(self),
            },
    {
        match self.check_room() {
            Ok(()) => {},
            Err(e) => {
                return Err(e);
            },
        }
        let padding: Vec<u8> = vec![0u8; self.buf.ty.size()];
        assert(padding@ =~= zeros(self.buf.ty.spec_size() as nat));
        self.append(padding.as_slice(), false);
        Ok(())
    }

    /// Appends `value`, a value of `ty`, to the back of the column.
    ///
    /// Fails, and changes nothing, with `IncorrectTypeInsertion` where `ty`
    /// is not the type of the values, else with the error of `room_error`
    /// where there is one.
    pub fn push(&mut self, ty: TypeInfo, value: &[u8]) -> (r: Result<(), ErasedVecErrors>)
        requires
            old(self).wf(),
            old(self).fits(ty, value@),
        ensures
            match r {
                Ok(()) => {
                    &&& ty.spec_id() == old(self).spec_ty().spec_id()
                    &&& old(self).room_error() is None
                    &&& final(self).pushed(old(self), value@, true)
                },
                Err(e) => {
                    &&& *final(self) == *old(self)
                    &&& if ty.spec_id() != old(self).spec_ty().spec_id() {
                        e.is_wrong_insertion(ty.spec_name(), old(self).spec_ty().spec_name())
                    } else {
                        old(self).room_error() == Some(e)
                    }
                },
            },
    {
        match self.assert_type_info_insert(ty) {
            Ok(()) => {},
            Err(e) => {
                return Err(e);
            },
        }
        match self.check_room() {
            Ok(()) => {},
            Err(e) => {
                return Err(e);
            },
        }
        self.append(value, true);
        Ok(())
    }

    /// Appends a type-erased value to the back of the column: `value` are
    /// the bytes of a value that `ty` describes.
    ///
    /// Fails, and changes nothing, with the error of `room_error` where
    /// there is one, else with `IncorrectTypeInsertion` where `ty` is not
    /// the type of the values.
    pub fn push_erased(&mut self, value: &[u8], ty: TypeInfo) -> (r: Result<(), ErasedVecErrors>)
        requires
            old(self).wf(),
            old(self).fits(ty, value@),
        ensures
            match r {
                Ok(()) => {
                    &&& ty.spec_id() == old(self).spec_ty().spec_id()
                    &&& old(self).room_error() is None
                    &&& final(self).pushed(old(self), value@, true)
                },
                Err(e) => {
                    &&& *final(self) == *old(self)
                    &&& if old(self).room_error() is Some {
                        old(self).room_error() == Some(e)
                    } else {
                        ty.spec_id() != old(self).spec_ty().spec_id() && e.is_wrong_insertion(
                            ty.spec_name(),
                            old(self).spec_ty().spec_name(),
                        )
                    }
                },
            },
    {
        match self.check_room() {
            Ok(()) => {},
            Err(e) => {
                return Err(e);
            },
        }
        match self.assert_type_info_insert(ty) {
            Ok(()) => {},
            Err(e) => {
                return Err(e);
            },
        }
        self.append(value, true);
        Ok(())
    }

    /// Inserts `value`, a value of `ty`, at position `index`, shifting all
    /// slots from there on to the right.
    ///
    /// Fails, and changes nothing, with `IncorrectTypeInsertion` where `ty`
    /// is not the type of the values, else with `IndexOutOfBounds` where
    /// `index` exceeds the length, else with the error of `room_error` where
    /// there is one.
    pub fn insert(&mut self, ty: TypeInfo, index: usize, value: &[u8]) -> (r: Result<
        (),
        ErasedVecErrors,
    >)
        requires
            old(self).wf(),
            old(self).fits(ty, value@),
        ensures
            match r {
                Ok(()) => {
                    &&& ty.spec_id() == old(self).spec_ty().spec_id()
                    &&& index <= old(self).spec_len()
                    &&& old(self).room_error() is None
                    &&& final(self).inserted(old(self), index as int, value@)
                },
                Err(e) => {
                    &&& *final(self) == *old(self)
                    &&& if ty.spec_id() != old(self).spec_ty().spec_id() {
                        e.is_wrong_insertion(ty.spec_name(), old(self).spec_ty().spec_name())
                    } else if index > old(self).spec_len() {
                        e.is_out_of_bounds(old(self).spec_len(), index)
                    } else {
                        old(self).room_error() == Some(e)
                    }
                },
            },
    {
        match self.assert_type_info_insert(ty) {
            Ok(()) => {},
            Err(e) => {
                return Err(e);
            },
        }
        if index > self.len {
            return Err(ErasedVecErrors::IndexOutOfBounds { len: self.len, index });
        }
        match self.check_room() {
            Ok(()) => {},
            Err(e) => {
                return Err(e);
            },
        }
        self.place(index, value);
        Ok(())
    }

    /// Inserts a type-erased value at position `index`, shifting all slots
    /// from there on to the right.
    ///
    /// Fails, and changes nothing, with the error of `room_error` where
    /// there is one, else with `IndexOutOfBounds` where `index` exceeds the
    /// length, else with `IncorrectTypeInsertion` where `ty` is not the type
    /// of the values.
    pub fn insert_erased(&mut self, value: &[u8], ty: TypeInfo, index: usize) -> (r: Result<
        (),
        ErasedVecErrors,
    >)
        requires
            old(self).wf(),
            old(self).fits(ty, value@),
        ensures
            match r {
                Ok(()) => {
                    &&& ty.spec_id() == old(self).spec_ty().spec_id()
                    &&& index <= old(self).spec_len()
                    &&& old(self).room_error() is None
                    &&& final(self).inserted(old(self), index as int, value@)
                },
                Err(e) => {
                    &&& *final(self) == *old(self)
                    &&& if old(self).room_error() is Some {
                        old(self).room_error() == Some(e)
                    } else if index > old(self).spec_len() {
                        e.is_out_of_bounds(old(self).spec_len(), index)
                    } else {
                        ty.spec_id() != old(self).spec_ty().spec_id() && e.is_wrong_insertion(
                            ty.spec_name(),
                            old(self).spec_ty().spec_name(),
                        )
                    }
                },
            },
    {
        match self.check_room() {
            Ok(()) => {},
            Err(e) => {
                return Err(e);
            },
        }
        if index > self.len {
            return Err(ErasedVecErrors::IndexOutOfBounds { len: self.len, index });
        }
        match self.assert_type_info_insert(ty) {
            Ok(()) => {},
            Err(e) => {
                return Err(e);
            },
        }
        self.place(index, value);
        Ok(())
    }

    /// Overwrites the slot at `index` with `data`, a value of `ty`, and marks
    /// it filled. No slot moves.
    ///
    /// Fails, and changes nothing, with `IncorrectTypeInsertion` where `ty`
    /// is not the type of the values, else with `IndexOutOfBounds` where
    /// `index` names no slot.
    pub fn set(&mut self, ty: TypeInfo, index: usize, data: &[u8]) -> (r: Result<
        (),
        ErasedVecErrors,
    >)
        requires
            old(self).wf(),
            old(self).fits(ty, data@),
        ensures
            match r {
                Ok(()) => {
                    &&& ty.spec_id() == old(self).spec_ty().spec_id()
                    &&& index < old(self).spec_len()
                    &&& final(self).replaced(old(self), index as int, data@, true)
                },
                Err(e) => {
                    &&& *final(self) == *old(self)
                    &&& if ty.spec_id() != old(self).spec_ty().spec_id() {
                        e.is_wrong_insertion(ty.spec_name(), old(self).spec_ty().spec_name())
                    } else {
                        index >= old(self).spec_len() && e.is_out_of_bounds(
                            old(self).spec_len(),
                            index,
                        )
                    }
                },
            },
    {
        match self.assert_type_info_insert(ty) {
            Ok(()) => {},
            Err(e) => {
                return Err(e);
            },
        }
        match self.check_index(index) {
            Ok(()) => {},
            Err(e) => {
                return Err(e);
            },
        }
        self.overwrite(index, data);
        Ok(())
    }

    /// Overwrites the slot at `index` with a type-erased value and marks it
    /// filled. What the slot held is not released: see `reset_erased`.
    ///
    /// Fails, and changes nothing, with `IndexOutOfBounds` where `index`
    /// names no slot, else with `IncorrectTypeInsertion` where `ty` is not
    /// the type of the values.
    pub fn set_erased(&mut self, index: usize, ty: TypeInfo, value: &[u8]) -> (r: Result<
        (),
        ErasedVecErrors,
    >)
        requires
            old(self).wf(),
            old(self).fits(ty, value@),
        ensures
            match r {
                Ok(()) => {
                    &&& ty.spec_id() == old(self).spec_ty().spec_id()
                    &&& index < old(self).spec_len()
                    &&& final(self).replaced(old(self), index as int, value@, true)
                },
                Err(e) => {
                    &&& *final(self) == *old(self)
                    &&& if index >= old(self).spec_len() {
                        e.is_out_of_bounds(old(self).spec_len(), index)
                    } else {
                        ty.spec_id() != old(self).spec_ty().spec_id() && e.is_wrong_insertion(
                            ty.spec_name(),
                            old(self).spec_ty().spec_name(),
                        )
                    }
                },
            },
    {
        match self.check_index(index) {
            Ok(()) => {},
            Err(e) => {
                return Err(e);
            },
        }
        match self.assert_type_info_insert(ty) {
            Ok(()) => {},
            Err(e) => {
                return Err(e);
            },
        }
        self.overwrite(index, value);
        Ok(())
    }

    /// Overwrites the slot at `index` with a type-erased value, releasing
    /// what the slot held: the bytes that come back are the value that the
    /// destructor is now owed.
    ///
    /// Fails, changes nothing and releases nothing, with `IndexOutOfBounds`
    /// where `index` names no slot, else with `IncorrectTypeInsertion` where
    /// `ty` is not the type of the values.
    pub fn reset_erased(&mut self, index: usize, ty: TypeInfo, value: &[u8]) -> (r: Result<
        Vec<u8>,
        ErasedVecErrors,
    >)
        requires
            old(self).wf(),
            old(self).fits(ty, value@),
        ensures
            match r {
                Ok(released) => {
                    &&& ty.spec_id() == old(self).spec_ty().spec_id()
                    &&& index < old(self).spec_len()
                    &&& released@ == old(self).values()[index as int]
                    &&& final(self).replaced(old(self), index as int, value@, true)
                },
                Err(e) => {
                    &&& *final(self) == *old(self)
                    &&& if index >= old(self).spec_len() {
                        e.is_out_of_bounds(old(self).spec_len(), index)
                    } else {
                        ty.spec_id() != old(self).spec_ty().spec_id() && e.is_wrong_insertion(
                            ty.spec_name(),
                            old(self).spec_ty().spec_name(),
                        )
                    }
                },
            },
    {
        let released = match self.clear(index) {
            Ok(released) => released,
            Err(e) => {
                return Err(e);
            },
        };
        match self.set_erased(index, ty, value) {
            Ok(()) => Ok(released),
            Err(e) => Err(e),
        }
    }

    /// Releases the value stored at `index`: the bytes that come back are
    /// the value that the destructor is now owed. The slot keeps its bytes
    /// and its flag.
    ///
    /// Fails with `IndexOutOfBounds` exactly where `index` names no slot.
    pub fn clear(&self, index: usize) -> (r: Result<Vec<u8>, ErasedVecErrors>)
        requires
            self.wf(),
        ensures
            match r {
                Ok(released) => index < self.spec_len() && released@
                    == self.values()[index as int],
                Err(e) => index >= self.spec_len() && e.is_out_of_bounds(self.spec_len(), index),
            },
    {
        match self.check_index(index) {
            Ok(()) => {},
            Err(e) => {
                return Err(e);
            },
        }
        Ok(vstd::slice::slice_to_vec(self.indexed_ptr(index)))
    }

    /// The bytes of the slot at `index`, to be written in place.
    fn slot_mut(&mut self, index: usize) -> (slot: &mut [u8])
        requires
            old(self).wf(),
            index < old(self).spec_len(),
        ensures
            slot@ == old(self).values()[index as int],
            final(slot)@.len() == slot@.len() ==> final(self).replaced(
                old(self),
                index as int,
                final(slot)@,
                old(self).fills()[index as int],
            ),
    {
        let ghost size = self.buf.ty.spec_size() as int;
        let ghost n = self.len as int;
        let ghost before = self.buf.bytes@;
        proof {
            self.lemma_slot_inside(index as int);
            self.lemma_prefix_inside(n);
        }
        let width = self.buf.ty.size();
        let start = index * width;
        let whole = self.buf.bytes.as_mut_slice();
        let (_head, rest) = whole.split_at_mut(start);
        let (slot, _tail) = rest.split_at_mut(width);
        proof {
            assert(slot@ =~= slot_of(before, size, index as int));
            lemma_spliced_slots(before, size, n, index as int);
            let head = before.subrange(0, start as int);
            let tail = before.subrange(start as int, before.len() as int).subrange(
                width as int,
                before.len() - start,
            );
            assert(final(slot)@.len() == size ==> head + (final(slot)@ + tail) =~= spliced(
                before,
                index * size,
                final(slot)@,
            ));

        }
        slot
    }

    /// Fetches the value at `index`, read as a value of `ty`, to be written
    /// in place. The slot keeps its flag.
    ///
    /// Fails, and changes nothing, with `DoesNotContainType` where `ty` is
    /// not the type of the values, else with `IndexOutOfBounds` where
    /// `index` names no slot.
    pub fn get_mut(&mut self, ty: TypeInfo, index: usize) -> (r: Result<
        &mut [u8],
        ErasedVecErrors,
    >)
        requires
            old(self).wf(),
        ensures
            match r {
                Ok(value) => {
                    &&& ty.spec_id() == old(self).spec_ty().spec_id()
                    &&& index < old(self).spec_len()
                    &&& value@ == old(self).values()[index as int]
                    &&& final(value)@.len() == value@.len() ==> final(self).replaced(
                        old(self),
                        index as int,
                        final(value)@,
                        old(self).fills()[index as int],
                    )
                },
                Err(e) => {
                    &&& *final(self) == *old(self)
                    &&& if ty.spec_id() != old(self).spec_ty().spec_id() {
                        e.is_missing_type(ty.spec_name())
                    } else {
                        index >= old(self).spec_len() && e.is_out_of_bounds(
                            old(self).spec_len(),
                            index,
                        )
                    }
                },
            },
    {
        match self.assert_type_info(ty) {
            Ok(()) => {},
            Err(e) => {
                return Err(e);
            },
        }
        match self.check_index(index) {
            Ok(()) => {},
            Err(e) => {
                return Err(e);
            },
        }
        Ok(self.slot_mut(index))
    }

    /// Fetches the bytes of the slot at `index`, whatever their type, to be
    /// written in place. The slot keeps its flag.
    ///
    /// Fails, and changes nothing, with `IndexOutOfBounds` exactly where
    /// `index` names no slot.
    pub fn get_mut_unchecked(&mut self, index: usize) -> (r: Result<&mut [u8], ErasedVecErrors>)
        requires
            old(self).wf(),
        ensures
            match r {
                Ok(value) => {
                    &&& index < old(self).spec_len()
                    &&& value@ == old(self).values()[index as int]
                    &&& final(value)@.len() == value@.len() ==> final(self).replaced(
                        old(self),
                        index as int,
                        final(value)@,
                        old(self).fills()[index as int],
                    )
                },
                Err(e) => {
                    &&& *final(self) == *old(self)
                    &&& index >= old(self).spec_len()
                    &&& e.is_out_of_bounds(old(self).spec_len(), index)
                },
            },
    {
        match self.check_index(index) {
            Ok(()) => {},
            Err(e) => {
                return Err(e);
            },
        }
        Ok(self.slot_mut(index))
    }

    /// Takes the column apart: the bytes that come back, in the order of
    /// their slots, are the values of the filled slots, which the destructor
    /// is now owed. The bytes of slots that are not filled are no values and
    /// are let go.
    pub fn release(self) -> (released: Vec<Vec<u8>>)
        requires
            self.wf(),
        ensures
            views(released@) == live(self.values(), self.fills()),
    {
        let mut released: Vec<Vec<u8>> = Vec::new();
        let mut index: usize = 0;
        proof {
            self.lemma_shape();
            assert(self.values().take(0) =~= Seq::<Seq<u8>>::empty());
            assert(views(released@) =~= live(self.values().take(0), self.fills().take(0)));
        }
        while index < self.len
            invariant
                self.wf(),
                index <= self.spec_len(),
                self.values().len() == self.spec_len(),
                self.fills().len() == self.spec_len(),
                views(released@) == live(
                    self.values().take(index as int),
                    self.fills().take(index as int),
                ),
            decreases self.spec_len() - index,
        {
            let ghost before = released@;
            if self.filled[index] {
                let value = vstd::slice::slice_to_vec(self.indexed_ptr(index));
                released.push(value);
            }
            proof {
                let values = self.values().take(index + 1);
                let fills = self.fills().take(index + 1);
                assert(values.drop_last() =~= self.values().take(index as int));
                assert(fills.drop_last() =~= self.fills().take(index as int));
                if self.fills()[index as int] {
                    assert(views(released@) =~= views(before).push(values.last()));
                }
            }
            index += 1;
        }
        proof {
            assert(self.values().take(index as int) =~= self.values());
            assert(self.fills().take(index as int) =~= self.fills());
        }
        released
    }
}

/// The bytes of each vector of `vectors`.
pub open spec fn views(vectors: Seq<Vec<u8>>) -> Seq<Seq<u8>> {
    Seq::new(vectors.len(), |i: int| vectors[i]@)
}

/// Those of `values` whose flag in `fills` is set, in their order.
pub open spec fn live(values: Seq<Seq<u8>>, fills: Seq<bool>) -> Seq<Seq<u8>>
    decreases values.len(),
{
    if values.len() == 0 || fills.len() != values.len() {
        Seq::empty()
    } else {
        let rest = live(values.drop_last(), fills.drop_last());
        if fills.last() {
            rest.push(values.last())
        } else {
            rest
        }
    }
}

/// A box: one value of one component type.
pub struct ErasedBox(RawErasedVec);

impl ErasedBox {
    /// The type of the value.
    pub closed spec fn spec_ty(&self) -> TypeInfo {
        self.0.ty
    }

    /// The bytes of the value.
    pub closed spec fn value(&self) -> Seq<u8> {
        self.0.bytes@
    }

    /// The box holds as many bytes as a value of the type takes.
    pub closed spec fn wf(&self) -> bool {
        &&& self.0.wf()
        &&& self.0.cap == 1
        &&& self.0.ty.spec_size() > 0
    }

    /// The value of a box has the size of its type.
    pub proof fn lemma_shape(&self)
        requires
            self.wf(),
        ensures
            self.value().len() == self.spec_ty().spec_size(),
    {
        assert(1 * self.0.ty.spec_size() == self.0.ty.spec_size()) by (nonlinear_arith);
    }

    /// Fills `buf`, which is empty, with `value`.
    fn fill(buf: RawErasedVec, value: &[u8]) -> (r: Result<Self, ErasedVecErrors>)
        requires
            buf.wf(),
            buf.spec_bytes_empty(),
            value@.len() == buf.spec_ty().spec_size(),
        ensures
            match r {
                Ok(boxed) => {
                    &&& buf.spec_ty().spec_size() > 0
                    &&& boxed.wf()
                    &&& boxed.spec_ty() == buf.spec_ty()
                    &&& boxed.value() == value@
                },
                Err(e) => buf.spec_ty().spec_size() == 0 && e
                    == ErasedVecErrors::ErasedVecCapacityOverflow,
            },
    {
        let mut buf = buf;
        proof {
            let ty = buf.ty;
            use_type_invariant(&buf.ty);
            if ty.spec_size() > 0 {
                lemma_array_limit_positive(ty.spec_size(), ty.spec_align());
            }
        }
        match buf.grow_exact(1) {
            Ok(()) => {},
            Err(e) => {
                return Err(e);
            },
        }
        assert(1 * buf.ty.spec_size() == buf.ty.spec_size()) by (nonlinear_arith);
        write_at(&mut buf.bytes, 0, value);
        assert(buf.bytes@ =~= value@);
        Ok(ErasedBox(buf))
    }

    /// A box that holds `value`, a value of `ty`.
    ///
    /// Fails with `ErasedVecCapacityOverflow` exactly where the values of
    /// `ty` have no size.
    pub fn new(ty: TypeInfo, value: &[u8]) -> (r: Result<Self, ErasedVecErrors>)
        requires
            value@.len() == ty.spec_size(),
        ensures
            match r {
                Ok(boxed) => {
                    &&& ty.spec_size() > 0
                    &&& boxed.wf()
                    &&& boxed.spec_ty() == ty
                    &&& boxed.value() == value@
                },
                Err(e) => ty.spec_size() == 0 && e == ErasedVecErrors::ErasedVecCapacityOverflow,
            },
    {
        Self::fill(RawErasedVec::new(ty), value)
    }

    /// A box that holds a type-erased value: `value` are the bytes of a
    /// value that `ty` describes.
    ///
    /// Fails with `ErasedVecCapacityOverflow` exactly where the values of
    /// `ty` have no size.
    pub fn from_raw_parts(ty: TypeInfo, value: &[u8]) -> (r: Result<Self, ErasedVecErrors>)
        requires
            value@.len() == ty.spec_size(),
        ensures
            match r {
                Ok(boxed) => {
                    &&& ty.spec_size() > 0
                    &&& boxed.wf()
                    &&& boxed.spec_ty() == ty
                    &&& boxed.value() == value@
                },
                Err(e) => ty.spec_size() == 0 && e == ErasedVecErrors::ErasedVecCapacityOverflow,
            },
    {
        Self::fill(RawErasedVec::new_erased(ty), value)
    }

    /// The bytes of the value, whatever their type.
    pub fn ptr(&self) -> (value: &[u8])
        ensures
            value@ == self.value(),
    {
        self.0.bytes.as_slice()
    }

    /// The type of the value.
    #[verifier::when_used_as_spec(spec_ty)]
    pub fn ty(&self) -> (ty: TypeInfo)
        ensures
            ty == self.spec_ty(),
    {
        self.0.ty
    }

    /// Fetches the value, read as a value of `ty`.
    ///
    /// Fails with `DoesNotContainType` exactly where `ty` is not the type of
    /// the value.
    pub fn get(&self, ty: TypeInfo) -> (r: Result<&[u8], ErasedVecErrors>)
        ensures
            match r {
                Ok(value) => ty.spec_id() == self.spec_ty().spec_id() && value@ == self.value(),
                Err(e) => ty.spec_id() != self.spec_ty().spec_id() && e.is_missing_type(
                    ty.spec_name(),
                ),
            },
    {
        match self.assert_type_info(ty) {
            Ok(()) => Ok(self.ptr()),
            Err(e) => Err(e),
        }
    }

    /// Fetches the value, read as a value of `ty`, to be written in place.
    ///
    /// Fails, and changes nothing, with `DoesNotContainType` exactly where
    /// `ty` is not the type of the value.
    pub fn get_mut(&mut self, ty: TypeInfo) -> (r: Result<&mut [u8], ErasedVecErrors>)
        requires
            old(self).wf(),
        ensures
            match r {
                Ok(value) => {
                    &&& ty.spec_id() == old(self).spec_ty().spec_id()
                    &&& value@ == old(self).value()
                    &&& final(self).spec_ty() == old(self).spec_ty()
                    &&& final(self).value() == final(value)@
                    &&& final(value)@.len() == value@.len() ==> final(self).wf()
                },
                Err(e) => {
                    &&& *final(self) == *old(self)
                    &&& ty.spec_id() != old(self).spec_ty().spec_id()
                    &&& e.is_missing_type(ty.spec_name())
                },
            },
    {
        match self.assert_type_info(ty) {
            Ok(()) => {},
            Err(e) => {
                return Err(e);
            },
        }
        Ok(self.0.bytes.as_mut_slice())
    }

    /// Fails unless `ty` is the type of the value, naming `ty`.
    pub fn assert_type_info(&self, ty: TypeInfo) -> (r: Result<(), ErasedVecErrors>)
        ensures
            match r {
                Ok(()) => ty.spec_id() == self.spec_ty().spec_id(),
                Err(e) => ty.spec_id() != self.spec_ty().spec_id() && e.is_missing_type(
                    ty.spec_name(),
                ),
            },
    {
        if ty == self.0.ty {
            Ok(())
        } else {
            Err(ErasedVecErrors::DoesNotContainType(ty.name()))
        }
    }

    /// Takes the box apart: the bytes that come back are the value, which
    /// the destructor is now owed.
    pub fn release(self) -> (released: Vec<u8>)
        ensures
            released@ == self.value(),
    {
        self.0.bytes
    }
}

/// The largest size among `tys`; 0 where there are none.
pub open spec fn max_size(tys: Seq<TypeInfo>) -> usize
    decreases tys.len(),
{
    if tys.len() == 0 {
        0
    } else {
        let rest = max_size(tys.drop_last());
        if tys.last().spec_size() > rest {
            tys.last().spec_size()
        } else {
            rest
        }
    }
}

/// The largest alignment among `tys`; 1 where there are none.
pub open spec fn max_align(tys: Seq<TypeInfo>) -> usize
    decreases tys.len(),
{
    if tys.len() == 0 {
        1
    } else {
        let rest = max_align(tys.drop_last());
        if tys.last().spec_align() > rest {
            tys.last().spec_align()
        } else {
            rest
        }
    }
}

/// No type among `tys` is larger than `max_size(tys)`.
pub proof fn lemma_max_size_bounds(tys: Seq<TypeInfo>)
    ensures
        forall|i: int| 0 <= i < tys.len() ==> (#[trigger] tys[i]).spec_size() <= max_size(tys),
    decreases tys.len(),
{
    if tys.len() > 0 {
        lemma_max_size_bounds(tys.drop_last());
        assert forall|i: int| 0 <= i < tys.len() implies (#[trigger] tys[i]).spec_size()
            <= max_size(tys) by {
            if i < tys.len() - 1 {
                assert(tys.drop_last()[i] == tys[i]);
            }
        }
    }
}

/// Whether each of `values` has the size that the type at its place in
/// `tys` gives.
pub open spec fn matches_types(tys: Seq<TypeInfo>, values: Seq<Seq<u8>>) -> bool {
    &&& values.len() == tys.len()
    &&& forall|i: int| 0 <= i < tys.len() ==> (#[trigger] values[i]).len() == tys[i].spec_size()
}

/// The values of a bundle, packed: one field per value, each field as wide
/// as the largest value, with the type of each value beside it.
///
/// It owns bytes and no values: where it goes out of use, no destructor is
/// owed for what it holds. Whoever reads a value out of it takes the value
/// over.
pub struct NoDropTuple {
    buf: Vec<u8>,
    layout: super::type_info::Layout,
    tys: Vec<TypeInfo>,
    field_size: usize,
    len: usize,
}

impl NoDropTuple {
    /// The number of values.
    pub closed spec fn spec_len(&self) -> usize {
        self.len
    }

    /// The type of each value.
    pub closed spec fn spec_tys(&self) -> Seq<TypeInfo> {
        self.tys@
    }

    /// The width of a field.
    pub closed spec fn spec_field_size(&self) -> usize {
        self.field_size
    }

    /// The layout of the packed bytes.
    pub closed spec fn spec_layout(&self) -> super::type_info::Layout {
        self.layout
    }

    /// The bytes of each value.
    pub closed spec fn parts(&self) -> Seq<Seq<u8>> {
        Seq::new(
            self.len as nat,
            |i: int|
                self.buf@.subrange(
                    i * self.field_size,
                    i * self.field_size + self.tys@[i].spec_size(),
                ),
        )
    }

    /// The fields lie inside the packed bytes and each value fits its field.
    pub closed spec fn wf(&self) -> bool {
        &&& self.tys@.len() == self.len
        &&& self.buf@.len() == self.field_size * self.len
        &&& self.field_size == max_size(self.tys@)
    }

    /// A packed bundle has a type and a value for each of its places, and
    /// each value has the size of its type.
    pub proof fn lemma_shape(&self)
        requires
            self.wf(),
        ensures
            self.spec_tys().len() == self.spec_len(),
            self.parts().len() == self.spec_len(),
            matches_types(self.spec_tys(), self.parts()),
    {
        lemma_max_size_bounds(self.tys@);
        assert forall|i: int| 0 <= i < self.tys@.len() implies (#[trigger] self.parts()[i]).len()
            == self.tys@[i].spec_size() by {
            lemma_slot_bounds(i, self.len as int, self.field_size as int);
            assert(self.len * self.field_size == self.field_size * self.len) by (nonlinear_arith);
        }
    }

    /// Packs the values `values`, whose types are `tys`, in their order.
    ///
    /// A field is as wide as the largest of the types and the whole is
    /// aligned as the most aligned of them. Fails with `LayoutError` exactly
    /// where that width, that many times, and that alignment form no
    /// layout.
    pub fn new(tys: Vec<TypeInfo>, values: &Vec<Vec<u8>>) -> (r: Result<
        Self,
        crate::errors::TypeInfoErrors,
    >)
        requires
            matches_types(tys@, views(values@)),
        ensures
            match r {
                Ok(tuple) => {
                    &&& tuple.wf()
                    &&& tuple.spec_len() == tys@.len()
                    &&& tuple.spec_tys() == tys@
                    &&& tuple.parts() == views(values@)
                    &&& tuple.spec_field_size() == max_size(tys@)
                    &&& tuple.spec_layout().spec_size() == max_size(tys@) * tys@.len()
                    &&& tuple.spec_layout().spec_align() == max_align(tys@)
                },
                Err(e) => {
                    &&& max_size(tys@) * tys@.len() > usize::MAX || !super::type_info::valid_layout(
                        (max_size(tys@) * tys@.len()) as usize,
                        max_align(tys@),
                    )
                    &&& e == crate::errors::TypeInfoErrors::LayoutError
                },
            },
    {
        let len = tys.len();
        // Size of the largest element and alignment of the most aligned one
        let mut field_size: usize = 0;
        let mut align: usize = 1;
        let mut index: usize = 0;
        assert(tys@.take(0) =~= Seq::<TypeInfo>::empty());
        while index < len
            invariant
                len == tys@.len(),
                index <= len,
                field_size == max_size(tys@.take(index as int)),
                align == max_align(tys@.take(index as int)),
            decreases len - index,
        {
            proof {
                assert(tys@.take(index + 1).drop_last() =~= tys@.take(index as int));
            }
            if tys[index].size() > field_size {
                field_size = tys[index].size();
            }
            if tys[index].layout().align() > align {
                align = tys[index].layout().align();
            }
            index += 1;
        }
        assert(tys@.take(len as int) =~= tys@);
        // The packed bytes take the largest size once for each element
        if field_size != 0 && len > usize::MAX / field_size {
            proof {
                assert(field_size * len > usize::MAX) by (nonlinear_arith)
                    requires
                        field_size > 0,
                        len > (usize::MAX as int) / (field_size as int),
                ;
            }
            return Err(crate::errors::TypeInfoErrors::LayoutError);
        }
        assert(field_size * len <= usize::MAX) by (nonlinear_arith)
            requires
                field_size == 0 || len <= (usize::MAX as int) / (field_size as int),
                0 <= field_size,
                0 <= len,
        ;
        let layout = match super::type_info::Layout::from_size_align(field_size * len, align) {
            Ok(layout) => layout,
            Err(e) => {
                return Err(e);
            },
        };
        let mut buf: Vec<u8> = vec![0u8; field_size * len];
        // Copy each value into its field
        let mut cursor: usize = 0;
        proof {
            lemma_max_size_bounds(tys@);
        }
        while cursor < len
            invariant
                len == tys@.len(),
                cursor <= len,
                matches_types(tys@, views(values@)),
                buf@.len() == field_size * len,
                field_size == max_size(tys@),
                forall|i: int| 0 <= i < tys@.len() ==> (#[trigger] tys@[i]).spec_size() <= field_size,
                forall|i: int|
                    0 <= i < cursor ==> #[trigger] buf@.subrange(
                        i * field_size,
                        i * field_size + tys@[i].spec_size(),
                    ) == values@[i]@,
            decreases len - cursor,
        {
            let ghost before = buf@;
            proof {
                lemma_slot_bounds(cursor as int, len as int, field_size as int);
                assert(len * field_size == field_size * len) by (nonlinear_arith);
                assert(buf@.len() == buf.len());
                assert(views(values@)[cursor as int] == values@[cursor as int]@);
            }
            let at = cursor * field_size;
            write_at(&mut buf, at, values[cursor].as_slice());
            proof {
                assert forall|i: int| 0 <= i < cursor + 1 implies #[trigger] buf@.subrange(
                    i * field_size,
                    i * field_size + tys@[i].spec_size(),
                ) == values@[i]@ by {
                    lemma_slot_bounds(i, len as int, field_size as int);
                    assert(len * field_size == field_size * len) by (nonlinear_arith);
                    assert(views(values@)[i] == values@[i]@);
                    if i < cursor {
                        lemma_slot_bounds(i, cursor as int, field_size as int);
                        assert(buf@.subrange(i * field_size, i * field_size + tys@[i].spec_size())
                            =~= before.subrange(
                            i * field_size,
                            i * field_size + tys@[i].spec_size(),
                        ));
                    } else {
                        assert(buf@.subrange(i * field_size, i * field_size + tys@[i].spec_size())
                            =~= values@[i]@);
                    }
                }
            }
            cursor += 1;
        }
        let tuple = NoDropTuple { buf, layout, tys, field_size, len };
        assert(tuple.parts() =~= views(values@));
        Ok(tuple)
    }

    /// The packed bytes.
    fn ptr(&self) -> (bytes: &[u8])
        ensures
            bytes@ == self.buf@,
    {
        self.buf.as_slice()
    }

    /// The number of values.
    #[verifier::when_used_as_spec(spec_len)]
    pub fn len(&self) -> (len: usize)
        ensures
            len == self.spec_len(),
    {
        self.len
    }

    /// Returns the type and the bytes of the value at `index`.
    pub fn get(&self, index: usize) -> (r: (TypeInfo, &[u8]))
        requires
            self.wf(),
            index < self.spec_len(),
        ensures
            r.0 == self.spec_tys()[index as int],
            r.1@ == self.parts()[index as int],
    {
        let ty = self.tys[index];
        proof {
            lemma_max_size_bounds(self.tys@);
            lemma_slot_bounds(index as int, self.len as int, self.field_size as int);
            assert(self.buf@.len() == self.len * self.field_size) by (nonlinear_arith)
                requires
                    self.buf@.len() == self.field_size * self.len,
            ;
            assert(self.buf@.len() == self.buf.len());
        }
        let start = self.field_size * index;
        assert(start == index * self.field_size) by (nonlinear_arith)
            requires
                start == self.field_size * index,
        ;
        let value = slice_subrange(self.ptr(), start, start + ty.size());
        (ty, value)
    }
}

} // verus!
