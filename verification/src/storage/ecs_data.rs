use super::type_info::TypeInfo;
use vstd::prelude::*;

verus! {

/// Types that can be components.
///
/// A component type says how the store is to describe it: the store keeps
/// the values of each type apart by the identity that the descriptor gives.
pub trait EcsData: 'static {
    /// The descriptor of this type.
    fn type_info() -> TypeInfo;
}

} // verus!
