use crate::errors::TypeInfoErrors;
use core::cmp::Ordering;
use std::hash::{Hash, Hasher};
use vstd::prelude::*;
use vstd::std_specs::cmp::{PartialEqSpecImpl, PartialOrdSpecImpl};

verus! {

/// Whether `size` and `align` describe a block of memory: the alignment is a
/// power of two, and the size, rounded up to it, fits in `isize`.
pub open spec fn valid_layout(size: usize, align: usize) -> bool {
    &&& align > 0
    &&& align & ((align - 1) as usize) == 0
    &&& size <= isize::MAX - (align - 1)
}

/// Size and alignment of a block of memory.
#[derive(Debug, Clone, Copy, PartialEq, Eq, Structural)]
pub struct Layout {
    size: usize,
    align: usize,
}

impl Layout {
    /// The size of the block in bytes.
    pub closed spec fn spec_size(&self) -> usize {
        self.size
    }

    /// The alignment of the block in bytes.
    pub closed spec fn spec_align(&self) -> usize {
        self.align
    }

    /// A layout of `size` bytes aligned to `align`, or `LayoutError` where
    /// the two do not form one.
    pub fn from_size_align(size: usize, align: usize) -> (r: Result<Layout, TypeInfoErrors>)
        ensures
            match r {
                Ok(l) => valid_layout(size, align) && l.spec_size() == size && l.spec_align()
                    == align,
                Err(e) => !valid_layout(size, align) && e == TypeInfoErrors::LayoutError,
            },
    {
        if align == 0 || align & (align - 1) != 0 {
            return Err(TypeInfoErrors::LayoutError);
        }
        let top = isize::MAX as usize;
        if size > top || align - 1 > top - size {
            return Err(TypeInfoErrors::LayoutError);
        }
        Ok(Layout { size, align })
    }

    /// The size of the block in bytes.
    #[verifier::when_used_as_spec(spec_size)]
    pub fn size(&self) -> (n: usize)
        ensures
            n == self.spec_size(),
    {
        self.size
    }

    /// The alignment of the block in bytes.
    #[verifier::when_used_as_spec(spec_align)]
    pub fn align(&self) -> (n: usize)
        ensures
            n == self.spec_align(),
    {
        self.align
    }
}

/// What the store knows of a component type: its identity, its layout, a
/// reference to its destructor, and a name for messages.
///
/// The identity is whatever the surrounding program uses to tell types
/// apart; two descriptors are the same type exactly when their identities
/// are equal. The destructor reference is carried and handed back, never
/// followed: values are plain bytes here, and the program that owns the
/// destructor runs it on the bytes that the store releases.
#[derive(Debug, Clone, Copy)]
pub struct TypeInfo {
    id: u128,
    layout: Layout,
    drop: usize,
    name: &'static str,
}

/// The largest number of elements of `size` bytes, aligned to `align`, that
/// an array may hold.
pub open spec fn array_limit(size: usize, align: usize) -> int
    recommends
        size > 0,
        align > 0,
{
    (isize::MAX - (align - 1)) / (size as int)
}

impl TypeInfo {
    /// The identity of the described type.
    pub closed spec fn spec_id(&self) -> u128 {
        self.id
    }

    /// The layout of one value.
    pub closed spec fn spec_layout(&self) -> Layout {
        self.layout
    }

    /// The size of one value in bytes.
    pub open spec fn spec_size(&self) -> usize {
        self.spec_layout().spec_size()
    }

    /// The alignment of one value in bytes.
    pub open spec fn spec_align(&self) -> usize {
        self.spec_layout().spec_align()
    }

    /// The destructor reference.
    pub closed spec fn spec_drop_shim(&self) -> usize {
        self.drop
    }

    /// The name of the described type.
    pub closed spec fn spec_name(&self) -> Seq<char> {
        self.name@
    }

    /// Every descriptor has a layout that `Layout::from_size_align` accepts.
    #[verifier::type_invariant]
    pub open spec fn wf(&self) -> bool {
        valid_layout(self.spec_size(), self.spec_align())
    }

    /// Describes a type by its identity `id`, the size and alignment of its
    /// values, its destructor reference `drop`, and its name. Fails with
    /// `LayoutError` exactly where size and alignment form no layout.
    pub fn of(id: u128, size: usize, align: usize, drop: usize, name: &'static str) -> (r: Result<
        Self,
        TypeInfoErrors,
    >)
        ensures
            match r {
                Ok(ty) => {
                    &&& valid_layout(size, align)
                    &&& ty.spec_id() == id
                    &&& ty.spec_size() == size
                    &&& ty.spec_align() == align
                    &&& ty.spec_drop_shim() == drop
                    &&& ty.spec_name() == name@
                },
                Err(e) => !valid_layout(size, align) && e == TypeInfoErrors::LayoutError,
            },
    {
        match Layout::from_size_align(size, align) {
            Ok(layout) => Ok(TypeInfo { id, layout, drop, name }),
            Err(e) => Err(e),
        }
    }

    /// The identity of this component type.
    #[verifier::when_used_as_spec(spec_id)]
    pub fn id(&self) -> (id: u128)
        ensures
            id == self.spec_id(),
    {
        self.id
    }

    /// The layout of this component type.
    #[verifier::when_used_as_spec(spec_layout)]
    pub fn layout(&self) -> (layout: Layout)
        ensures
            layout == self.spec_layout(),
    {
        self.layout
    }

    /// The name of this component type.
    pub fn name(&self) -> (name: String)
        ensures
            name@ == self.spec_name(),
    {
        self.name.to_owned()
    }

    /// The size of this component type.
    #[verifier::when_used_as_spec(spec_size)]
    pub fn size(&self) -> (size: usize)
        ensures
            size == self.spec_size(),
    {
        self.layout.size()
    }

    /// The layout of `n` values of this type side by side.
    ///
    /// Fails with `LayoutError` exactly where the values have a size and `n`
    /// exceeds `array_limit`; otherwise the array takes `n` times the size,
    /// at this type's alignment.
    pub fn array(&self, n: usize) -> (r: Result<Layout, TypeInfoErrors>)
        ensures
            match r {
                Ok(layout) => {
                    &&& self.spec_size() == 0 || n <= array_limit(self.spec_size(), self.spec_align())
                    &&& layout.spec_size() == self.spec_size() * n
                    &&& layout.spec_align() == self.spec_align()
                },
                Err(e) => {
                    &&& self.spec_size() != 0
                    &&& n > array_limit(self.spec_size(), self.spec_align())
                    &&& e == TypeInfoErrors::LayoutError
                },
            },
    {
        proof {
            use_type_invariant(self);
        }
        let element_size = self.layout.size();
        let align = self.layout.align();
        if element_size != 0 && n > (isize::MAX as usize - (align - 1)) / element_size {
            return Err(TypeInfoErrors::LayoutError);
        }
        proof {
            lemma_array_fits(element_size, align, n);
        }
        Ok(Layout { size: element_size * n, align })
    }

    /// The reference to the destructor of this component type.
    #[verifier::when_used_as_spec(spec_drop_shim)]
    pub fn drop_shim(&self) -> (drop: usize)
        ensures
            drop == self.spec_drop_shim(),
    {
        self.drop
    }
}

/// A type whose values have a size can be had once at least.
pub proof fn lemma_array_limit_positive(size: usize, align: usize)
    requires
        valid_layout(size, align),
        size > 0,
    ensures
        array_limit(size, align) >= 1,
{
    assert(array_limit(size, align) >= 1) by (nonlinear_arith)
        requires
            size > 0,
            size <= isize::MAX - (align - 1),
            array_limit(size, align) == (isize::MAX - (align - 1)) / (size as int),
    ;
}

/// Within the limit an array's size stays below `isize::MAX`.
pub proof fn lemma_array_fits(size: usize, align: usize, n: usize)
    requires
        align > 0,
        align - 1 <= isize::MAX,
        size == 0 || n <= array_limit(size, align),
    ensures
        size * n <= isize::MAX - (align - 1),
{
    if size != 0 {
        let limit = array_limit(size, align);
        let top = isize::MAX - (align - 1);
        assert(size * limit <= top) by (nonlinear_arith)
            requires
                size > 0,
                top >= 0,
                limit == top / (size as int),
        ;
        assert(size * n <= size * limit) by (nonlinear_arith)
            requires
                size > 0,
                0 <= n <= limit,
        ;
    } else {
        assert(size * n == 0) by (nonlinear_arith)
            requires
                size == 0,
        ;
    }
}

impl TypeInfo {
    /// The order of descriptors: by alignment, the larger first; among equal
    /// alignments by identity, the smaller first.
    pub open spec fn ordering(&self, other: &Self) -> Ordering {
        if self.spec_align() > other.spec_align() {
            Ordering::Less
        } else if self.spec_align() < other.spec_align() {
            Ordering::Greater
        } else if self.spec_id() < other.spec_id() {
            Ordering::Less
        } else if self.spec_id() > other.spec_id() {
            Ordering::Greater
        } else {
            Ordering::Equal
        }
    }

    /// Compares two descriptors by `ordering`.
    pub fn cmp(&self, other: &Self) -> (o: Ordering)
        ensures
            o == self.ordering(other),
    {
        let mine = self.layout.align();
        let theirs = other.layout.align();
        if mine > theirs {
            Ordering::Less
        } else if mine < theirs {
            Ordering::Greater
        } else if self.id < other.id {
            Ordering::Less
        } else if self.id > other.id {
            Ordering::Greater
        } else {
            Ordering::Equal
        }
    }
}

impl PartialOrd for TypeInfo {
    fn partial_cmp(&self, other: &Self) -> (r: Option<Ordering>) {
        Some(self.cmp(other))
    }
}

impl PartialOrdSpecImpl for TypeInfo {
    open spec fn obeys_partial_cmp_spec() -> bool {
        true
    }

    open spec fn partial_cmp_spec(&self, other: &Self) -> Option<Ordering> {
        Some(self.ordering(other))
    }
}

impl PartialEq for TypeInfo {
    /// Two descriptors are equal exactly when their identities are.
    fn eq(&self, other: &Self) -> (r: bool) {
        self.id == other.id
    }
}

impl PartialEqSpecImpl for TypeInfo {
    open spec fn obeys_eq_spec() -> bool {
        true
    }

    open spec fn eq_spec(&self, other: &Self) -> bool {
        self.spec_id() == other.spec_id()
    }
}

impl Eq for TypeInfo {

}

impl Hash for TypeInfo {
    /// `Hash::hash` of `u128`, on the identity alone: what is fed to `state`
    /// is the one call that the integer's own `hash` makes. Nothing is
    /// claimed of the state afterwards.
    #[verifier::external_body]
    fn hash<H: Hasher>(&self, state: &mut H) {
        self.id.hash(state);
    }
}

} // verus!
