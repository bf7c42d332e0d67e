use super::ecs_data::EcsData;
use super::type_info::TypeInfo;
use vstd::prelude::*;

verus! {

/// The shape of an arbitrary tuple of [`EcsData`]: how many components it
/// has and of which types, in the order in which they stand.
///
/// The values of a bundle travel beside its shape as bytes, one run of bytes
/// for each component in the same order.
pub trait Bundle {
    /// Stores the number of items in the [`Bundle`].
    const LENGTH: usize;

    /// Returns a [`Vec`] containing the [`TypeInfo`] of all the components in
    /// the bundle.
    fn types() -> (tys: Vec<TypeInfo>)
        ensures
            tys@.len() == Self::LENGTH,
    ;
}

impl Bundle for () {
    const LENGTH: usize = 0;

    fn types() -> (tys: Vec<TypeInfo>) {
        Vec::new()
    }
}

impl<A: EcsData> Bundle for (A,) {
    const LENGTH: usize = 1;

    /// The descriptor that each component type gives of itself, in the order
    /// of the tuple.
    fn types() -> (tys: Vec<TypeInfo>)
        ensures
            tys@.len() == 1,
            call_ensures(A::type_info, (), tys@[0]),
    {
        let mut tys: Vec<TypeInfo> = Vec::new();
        tys.push(A::type_info());
        tys
    }
}

impl<A: EcsData, B: EcsData> Bundle for (A, B) {
    const LENGTH: usize = 2;

    /// The descriptor that each component type gives of itself, in the order
    /// of the tuple.
    fn types() -> (tys: Vec<TypeInfo>)
        ensures
            tys@.len() == 2,
            call_ensures(A::type_info, (), tys@[0]),
            call_ensures(B::type_info, (), tys@[1]),
    {
        let mut tys: Vec<TypeInfo> = Vec::new();
        tys.push(A::type_info());
        tys.push(B::type_info());
        tys
    }
}

impl<A: EcsData, B: EcsData, C: EcsData> Bundle for (A, B, C) {
    const LENGTH: usize = 3;

    /// The descriptor that each component type gives of itself, in the order
    /// of the tuple.
    fn types() -> (tys: Vec<TypeInfo>)
        ensures
            tys@.len() == 3,
            call_ensures(A::type_info, (), tys@[0]),
            call_ensures(B::type_info, (), tys@[1]),
            call_ensures(C::type_info, (), tys@[2]),
    {
        let mut tys: Vec<TypeInfo> = Vec::new();
        tys.push(A::type_info());
        tys.push(B::type_info());
        tys.push(C::type_info());
        tys
    }
}

impl<A: EcsData, B: EcsData, C: EcsData, D: EcsData> Bundle for (A, B, C, D) {
    const LENGTH: usize = 4;

    /// The descriptor that each component type gives of itself, in the order
    /// of the tuple.
    fn types() -> (tys: Vec<TypeInfo>)
        ensures
            tys@.len() == 4,
            call_ensures(A::type_info, (), tys@[0]),
            call_ensures(B::type_info, (), tys@[1]),
            call_ensures(C::type_info, (), tys@[2]),
            call_ensures(D::type_info, (), tys@[3]),
    {
        let mut tys: Vec<TypeInfo> = Vec::new();
        tys.push(A::type_info());
        tys.push(B::type_info());
        tys.push(C::type_info());
        tys.push(D::type_info());
        tys
    }
}

impl<A: EcsData, B: EcsData, C: EcsData, D: EcsData, E: EcsData> Bundle for (A, B, C, D, E) {
    const LENGTH: usize = 5;

    /// The descriptor that each component type gives of itself, in the order
    /// of the tuple.
    fn types() -> (tys: Vec<TypeInfo>)
        ensures
            tys@.len() == 5,
            call_ensures(A::type_info, (), tys@[0]),
            call_ensures(B::type_info, (), tys@[1]),
            call_ensures(C::type_info, (), tys@[2]),
            call_ensures(D::type_info, (), tys@[3]),
            call_ensures(E::type_info, (), tys@[4]),
    {
        let mut tys: Vec<TypeInfo> = Vec::new();
        tys.push(A::type_info());
        tys.push(B::type_info());
        tys.push(C::type_info());
        tys.push(D::type_info());
        tys.push(E::type_info());
        tys
    }
}

impl<A: EcsData, B: EcsData, C: EcsData, D: EcsData, E: EcsData, F: EcsData> Bundle for (A, B, C, D, E, F) {
    const LENGTH: usize = 6;

    /// The descriptor that each component type gives of itself, in the order
    /// of the tuple.
    fn types() -> (tys: Vec<TypeInfo>)
        ensures
            tys@.len() == 6,
            call_ensures(A::type_info, (), tys@[0]),
            call_ensures(B::type_info, (), tys@[1]),
            call_ensures(C::type_info, (), tys@[2]),
            call_ensures(D::type_info, (), tys@[3]),
            call_ensures(E::type_info, (), tys@[4]),
            call_ensures(F::type_info, (), tys@[5]),
    {
        let mut tys: Vec<TypeInfo> = Vec::new();
        tys.push(A::type_info());
        tys.push(B::type_info());
        tys.push(C::type_info());
        tys.push(D::type_info());
        tys.push(E::type_info());
        tys.push(F::type_info());
        tys
    }
}

impl<A: EcsData, B: EcsData, C: EcsData, D: EcsData, E: EcsData, F: EcsData, G: EcsData> Bundle for (A, B, C, D, E, F, G) {
    const LENGTH: usize = 7;

    /// The descriptor that each component type gives of itself, in the order
    /// of the tuple.
    fn types() -> (tys: Vec<TypeInfo>)
        ensures
            tys@.len() == 7,
            call_ensures(A::type_info, (), tys@[0]),
            call_ensures(B::type_info, (), tys@[1]),
            call_ensures(C::type_info, (), tys@[2]),
            call_ensures(D::type_info, (), tys@[3]),
            call_ensures(E::type_info, (), tys@[4]),
            call_ensures(F::type_info, (), tys@[5]),
            call_ensures(G::type_info, (), tys@[6]),
    {
        let mut tys: Vec<TypeInfo> = Vec::new();
        tys.push(A::type_info());
        tys.push(B::type_info());
        tys.push(C::type_info());
        tys.push(D::type_info());
        tys.push(E::type_info());
        tys.push(F::type_info());
        tys.push(G::type_info());
        tys
    }
}

impl<A: EcsData, B: EcsData, C: EcsData, D: EcsData, E: EcsData, F: EcsData, G: EcsData, H: EcsData> Bundle for (A, B, C, D, E, F, G, H) {
    const LENGTH: usize = 8;

    /// The descriptor that each component type gives of itself, in the order
    /// of the tuple.
    fn types() -> (tys: Vec<TypeInfo>)
        ensures
            tys@.len() == 8,
            call_ensures(A::type_info, (), tys@[0]),
            call_ensures(B::type_info, (), tys@[1]),
            call_ensures(C::type_info, (), tys@[2]),
            call_ensures(D::type_info, (), tys@[3]),
            call_ensures(E::type_info, (), tys@[4]),
            call_ensures(F::type_info, (), tys@[5]),
            call_ensures(G::type_info, (), tys@[6]),
            call_ensures(H::type_info, (), tys@[7]),
    {
        let mut tys: Vec<TypeInfo> = Vec::new();
        tys.push(A::type_info());
        tys.push(B::type_info());
        tys.push(C::type_info());
        tys.push(D::type_info());
        tys.push(E::type_info());
        tys.push(F::type_info());
        tys.push(G::type_info());
        tys.push(H::type_info());
        tys
    }
}

impl<A: EcsData, B: EcsData, C: EcsData, D: EcsData, E: EcsData, F: EcsData, G: EcsData, H: EcsData, I: EcsData> Bundle for (A, B, C, D, E, F, G, H, I) {
    const LENGTH: usize = 9;

    /// The descriptor that each component type gives of itself, in the order
    /// of the tuple.
    fn types() -> (tys: Vec<TypeInfo>)
        ensures
            tys@.len() == 9,
            call_ensures(A::type_info, (), tys@[0]),
            call_ensures(B::type_info, (), tys@[1]),
            call_ensures(C::type_info, (), tys@[2]),
            call_ensures(D::type_info, (), tys@[3]),
            call_ensures(E::type_info, (), tys@[4]),
            call_ensures(F::type_info, (), tys@[5]),
            call_ensures(G::type_info, (), tys@[6]),
            call_ensures(H::type_info, (), tys@[7]),
            call_ensures(I::type_info, (), tys@[8]),
    {
        let mut tys: Vec<TypeInfo> = Vec::new();
        tys.push(A::type_info());
        tys.push(B::type_info());
        tys.push(C::type_info());
        tys.push(D::type_info());
        tys.push(E::type_info());
        tys.push(F::type_info());
        tys.push(G::type_info());
        tys.push(H::type_info());
        tys.push(I::type_info());
        tys
    }
}

impl<A: EcsData, B: EcsData, C: EcsData, D: EcsData, E: EcsData, F: EcsData, G: EcsData, H: EcsData, I: EcsData, J: EcsData> Bundle for (A, B, C, D, E, F, G, H, I, J) {
    const LENGTH: usize = 10;

    /// The descriptor that each component type gives of itself, in the order
    /// of the tuple.
    fn types() -> (tys: Vec<TypeInfo>)
        ensures
            tys@.len() == 10,
            call_ensures(A::type_info, (), tys@[0]),
            call_ensures(B::type_info, (), tys@[1]),
            call_ensures(C::type_info, (), tys@[2]),
            call_ensures(D::type_info, (), tys@[3]),
            call_ensures(E::type_info, (), tys@[4]),
            call_ensures(F::type_info, (), tys@[5]),
            call_ensures(G::type_info, (), tys@[6]),
            call_ensures(H::type_info, (), tys@[7]),
            call_ensures(I::type_info, (), tys@[8]),
            call_ensures(J::type_info, (), tys@[9]),
    {
        let mut tys: Vec<TypeInfo> = Vec::new();
        tys.push(A::type_info());
        tys.push(B::type_info());
        tys.push(C::type_info());
        tys.push(D::type_info());
        tys.push(E::type_info());
        tys.push(F::type_info());
        tys.push(G::type_info());
        tys.push(H::type_info());
        tys.push(I::type_info());
        tys.push(J::type_info());
        tys
    }
}

impl<A: EcsData, B: EcsData, C: EcsData, D: EcsData, E: EcsData, F: EcsData, G: EcsData, H: EcsData, I: EcsData, J: EcsData, K: EcsData> Bundle for (A, B, C, D, E, F, G, H, I, J, K) {
    const LENGTH: usize = 11;

    /// The descriptor that each component type gives of itself, in the order
    /// of the tuple.
    fn types() -> (tys: Vec<TypeInfo>)
        ensures
            tys@.len() == 11,
            call_ensures(A::type_info, (), tys@[0]),
            call_ensures(B::type_info, (), tys@[1]),
            call_ensures(C::type_info, (), tys@[2]),
            call_ensures(D::type_info, (), tys@[3]),
            call_ensures(E::type_info, (), tys@[4]),
            call_ensures(F::type_info, (), tys@[5]),
            call_ensures(G::type_info, (), tys@[6]),
            call_ensures(H::type_info, (), tys@[7]),
            call_ensures(I::type_info, (), tys@[8]),
            call_ensures(J::type_info, (), tys@[9]),
            call_ensures(K::type_info, (), tys@[10]),
    {
        let mut tys: Vec<TypeInfo> = Vec::new();
        tys.push(A::type_info());
        tys.push(B::type_info());
        tys.push(C::type_info());
        tys.push(D::type_info());
        tys.push(E::type_info());
        tys.push(F::type_info());
        tys.push(G::type_info());
        tys.push(H::type_info());
        tys.push(I::type_info());
        tys.push(J::type_info());
        tys.push(K::type_info());
        tys
    }
}

impl<A: EcsData, B: EcsData, C: EcsData, D: EcsData, E: EcsData, F: EcsData, G: EcsData, H: EcsData, I: EcsData, J: EcsData, K: EcsData, L: EcsData> Bundle for (A, B, C, D, E, F, G, H, I, J, K, L) {
    const LENGTH: usize = 12;

    /// The descriptor that each component type gives of itself, in the order
    /// of the tuple.
    fn types() -> (tys: Vec<TypeInfo>)
        ensures
            tys@.len() == 12,
            call_ensures(A::type_info, (), tys@[0]),
            call_ensures(B::type_info, (), tys@[1]),
            call_ensures(C::type_info, (), tys@[2]),
            call_ensures(D::type_info, (), tys@[3]),
            call_ensures(E::type_info, (), tys@[4]),
            call_ensures(F::type_info, (), tys@[5]),
            call_ensures(G::type_info, (), tys@[6]),
            call_ensures(H::type_info, (), tys@[7]),
            call_ensures(I::type_info, (), tys@[8]),
            call_ensures(J::type_info, (), tys@[9]),
            call_ensures(K::type_info, (), tys@[10]),
            call_ensures(L::type_info, (), tys@[11]),
    {
        let mut tys: Vec<TypeInfo> = Vec::new();
        tys.push(A::type_info());
        tys.push(B::type_info());
        tys.push(C::type_info());
        tys.push(D::type_info());
        tys.push(E::type_info());
        tys.push(F::type_info());
        tys.push(G::type_info());
        tys.push(H::type_info());
        tys.push(I::type_info());
        tys.push(J::type_info());
        tys.push(K::type_info());
        tys.push(L::type_info());
        tys
    }
}

impl<A: EcsData, B: EcsData, C: EcsData, D: EcsData, E: EcsData, F: EcsData, G: EcsData, H: EcsData, I: EcsData, J: EcsData, K: EcsData, L: EcsData, M: EcsData> Bundle for (A, B, C, D, E, F, G, H, I, J, K, L, M) {
    const LENGTH: usize = 13;

    /// The descriptor that each component type gives of itself, in the order
    /// of the tuple.
    fn types() -> (tys: Vec<TypeInfo>)
        ensures
            tys@.len() == 13,
            call_ensures(A::type_info, (), tys@[0]),
            call_ensures(B::type_info, (), tys@[1]),
            call_ensures(C::type_info, (), tys@[2]),
            call_ensures(D::type_info, (), tys@[3]),
            call_ensures(E::type_info, (), tys@[4]),
            call_ensures(F::type_info, (), tys@[5]),
            call_ensures(G::type_info, (), tys@[6]),
            call_ensures(H::type_info, (), tys@[7]),
            call_ensures(I::type_info, (), tys@[8]),
            call_ensures(J::type_info, (), tys@[9]),
            call_ensures(K::type_info, (), tys@[10]),
            call_ensures(L::type_info, (), tys@[11]),
            call_ensures(M::type_info, (), tys@[12]),
    {
        let mut tys: Vec<TypeInfo> = Vec::new();
        tys.push(A::type_info());
        tys.push(B::type_info());
        tys.push(C::type_info());
        tys.push(D::type_info());
        tys.push(E::type_info());
        tys.push(F::type_info());
        tys.push(G::type_info());
        tys.push(H::type_info());
        tys.push(I::type_info());
        tys.push(J::type_info());
        tys.push(K::type_info());
        tys.push(L::type_info());
        tys.push(M::type_info());
        tys
    }
}

impl<A: EcsData, B: EcsData, C: EcsData, D: EcsData, E: EcsData, F: EcsData, G: EcsData, H: EcsData, I: EcsData, J: EcsData, K: EcsData, L: EcsData, M: EcsData, N: EcsData> Bundle for (A, B, C, D, E, F, G, H, I, J, K, L, M, N) {
    const LENGTH: usize = 14;

    /// The descriptor that each component type gives of itself, in the order
    /// of the tuple.
    fn types() -> (tys: Vec<TypeInfo>)
        ensures
            tys@.len() == 14,
            call_ensures(A::type_info, (), tys@[0]),
            call_ensures(B::type_info, (), tys@[1]),
            call_ensures(C::type_info, (), tys@[2]),
            call_ensures(D::type_info, (), tys@[3]),
            call_ensures(E::type_info, (), tys@[4]),
            call_ensures(F::type_info, (), tys@[5]),
            call_ensures(G::type_info, (), tys@[6]),
            call_ensures(H::type_info, (), tys@[7]),
            call_ensures(I::type_info, (), tys@[8]),
            call_ensures(J::type_info, (), tys@[9]),
            call_ensures(K::type_info, (), tys@[10]),
            call_ensures(L::type_info, (), tys@[11]),
            call_ensures(M::type_info, (), tys@[12]),
            call_ensures(N::type_info, (), tys@[13]),
    {
        let mut tys: Vec<TypeInfo> = Vec::new();
        tys.push(A::type_info());
        tys.push(B::type_info());
        tys.push(C::type_info());
        tys.push(D::type_info());
        tys.push(E::type_info());
        tys.push(F::type_info());
        tys.push(G::type_info());
        tys.push(H::type_info());
        tys.push(I::type_info());
        tys.push(J::type_info());
        tys.push(K::type_info());
        tys.push(L::type_info());
        tys.push(M::type_info());
        tys.push(N::type_info());
        tys
    }
}

impl<A: EcsData, B: EcsData, C: EcsData, D: EcsData, E: EcsData, F: EcsData, G: EcsData, H: EcsData, I: EcsData, J: EcsData, K: EcsData, L: EcsData, M: EcsData, N: EcsData, O: EcsData> Bundle for (A, B, C, D, E, F, G, H, I, J, K, L, M, N, O) {
    const LENGTH: usize = 15;

    /// The descriptor that each component type gives of itself, in the order
    /// of the tuple.
    fn types() -> (tys: Vec<TypeInfo>)
        ensures
            tys@.len() == 15,
            call_ensures(A::type_info, (), tys@[0]),
            call_ensures(B::type_info, (), tys@[1]),
            call_ensures(C::type_info, (), tys@[2]),
            call_ensures(D::type_info, (), tys@[3]),
            call_ensures(E::type_info, (), tys@[4]),
            call_ensures(F::type_info, (), tys@[5]),
            call_ensures(G::type_info, (), tys@[6]),
            call_ensures(H::type_info, (), tys@[7]),
            call_ensures(I::type_info, (), tys@[8]),
            call_ensures(J::type_info, (), tys@[9]),
            call_ensures(K::type_info, (), tys@[10]),
            call_ensures(L::type_info, (), tys@[11]),
            call_ensures(M::type_info, (), tys@[12]),
            call_ensures(N::type_info, (), tys@[13]),
            call_ensures(O::type_info, (), tys@[14]),
    {
        let mut tys: Vec<TypeInfo> = Vec::new();
        tys.push(A::type_info());
        tys.push(B::type_info());
        tys.push(C::type_info());
        tys.push(D::type_info());
        tys.push(E::type_info());
        tys.push(F::type_info());
        tys.push(G::type_info());
        tys.push(H::type_info());
        tys.push(I::type_info());
        tys.push(J::type_info());
        tys.push(K::type_info());
        tys.push(L::type_info());
        tys.push(M::type_info());
        tys.push(N::type_info());
        tys.push(O::type_info());
        tys
    }
}

} // verus!
