use vstd::prelude::*;

verus! {

/// Failure to describe a type or an array of it.
#[derive(Debug, Clone, PartialEq, Eq)]
pub enum TypeInfoErrors {
    /// The size and alignment do not form a layout.
    LayoutError,
}

/// Failures of the type-erased storage primitives.
#[derive(Debug, Clone, PartialEq, Eq)]
pub enum ErasedVecErrors {
    /// A read named a type that the storage does not hold.
    DoesNotContainType(String),
    /// A write offered a value of another type than the storage holds.
    IncorrectTypeInsertion { insert_type: String, vec_type: String },
    /// The index lies outside the stored elements.
    IndexOutOfBounds { len: usize, index: usize },
    /// The bytes asked for exceed what can be addressed.
    ErasedVecAllocError,
    /// Storage of a zero-size type was asked to grow.
    ErasedVecCapacityOverflow,
}

/// Failures of the entity table and of what is built on it.
#[derive(Debug, Clone, PartialEq, Eq)]
pub enum EcsErrors {
    /// A component was written for a new entity before its type was registered.
    CreateComponentNeverCalled { component: String },
    /// The component type was never registered.
    ComponentNotRegistered,
    /// The entity id names no slot.
    EntityDoesNotExist,
    /// No resource of the type is stored.
    ResourceDataDoesNotExist { component: String },
    /// The entity holds no live component of the type.
    ComponentDataDoesNotExist { entity: usize, ty: String },
    /// A component was read as another type than it has.
    DowncastToWrongType,
    /// No resource lies at the path.
    NoResourceAtPath,
    /// The executable at the path could not be read.
    ExeResourceRegistrationFailed,
}

impl ErasedVecErrors {
    /// Whether this is `DoesNotContainType` naming `name`.
    pub open spec fn is_missing_type(self, name: Seq<char>) -> bool {
        self matches ErasedVecErrors::DoesNotContainType(n) && n@ == name
    }

    /// Whether this is `IncorrectTypeInsertion` naming `insert` and `held`.
    pub open spec fn is_wrong_insertion(self, insert: Seq<char>, held: Seq<char>) -> bool {
        self matches ErasedVecErrors::IncorrectTypeInsertion { insert_type, vec_type }
            && insert_type@ == insert && vec_type@ == held
    }

    /// Whether this is `IndexOutOfBounds` with the given length and index.
    pub open spec fn is_out_of_bounds(self, len: usize, index: usize) -> bool {
        self matches ErasedVecErrors::IndexOutOfBounds { len: l, index: i } && l == len
            && i == index
    }
}

impl EcsErrors {
    /// Whether this is `CreateComponentNeverCalled` naming `name`.
    pub open spec fn is_never_created(self, name: Seq<char>) -> bool {
        self matches EcsErrors::CreateComponentNeverCalled { component } && component@ == name
    }

    /// Whether this is `ResourceDataDoesNotExist` naming `name`.
    pub open spec fn is_missing_resource(self, name: Seq<char>) -> bool {
        self matches EcsErrors::ResourceDataDoesNotExist { component } && component@ == name
    }

    /// Whether this is `ComponentDataDoesNotExist` for `entity` and the type named `name`.
    pub open spec fn is_missing_data(self, entity: usize, name: Seq<char>) -> bool {
        self matches EcsErrors::ComponentDataDoesNotExist { entity: e, ty } && e == entity
            && ty@ == name
    }
}

} // verus!
