use crate::errors::{EcsErrors, ErasedVecErrors};
use crate::storage::{type_map_entries, ErasedBox, TypeInfo, TypeMap};
use vstd::prelude::*;

verus! {

/// Struct containing resources. Singleton values with only one instance in
/// the game world: at most one value of each type.
pub struct Resources {
    /// For each type that has a value, the place of its box.
    data: TypeMap,
    boxes: Vec<ErasedBox>,
}

/// The values of `boxes`, by the identity of the types that `places` maps to
/// them.
pub open spec fn stored_in(places: Map<u128, usize>, boxes: Seq<ErasedBox>) -> Map<u128, Seq<u8>> {
    Map::new(|id: u128| places.contains_key(id), |id: u128| boxes[places[id] as int].value())
}

/// Whether the types of `places` and the boxes `boxes` belong together one
/// to one, each box well formed.
pub open spec fn paired(places: Map<u128, usize>, boxes: Seq<ErasedBox>) -> bool {
    &&& forall|id: u128| #[trigger]
        places.contains_key(id) ==> places[id] < boxes.len() && boxes[places[id] as int].spec_ty().spec_id()
            == id
    &&& forall|k: int|
        0 <= k < boxes.len() ==> places.contains_key((#[trigger] boxes[k]).spec_ty().spec_id())
            && places[boxes[k].spec_ty().spec_id()] == k
    &&& forall|k: int| 0 <= k < boxes.len() ==> (#[trigger] boxes[k]).wf()
}

/// Boxes of which one changed its value alone are paired as they were, and
/// store that value in the place of the old one.
pub proof fn lemma_box_changed(places: Map<u128, usize>, boxes: Seq<ErasedBox>, place: int)
    requires
        paired(places, boxes),
        0 <= place < boxes.len(),
    ensures
        forall|changed: ErasedBox|
            changed.wf() && changed.spec_ty() == boxes[place].spec_ty() ==> {
                &&& paired(places, #[trigger] boxes.update(place, changed))
                &&& stored_in(places, boxes.update(place, changed)) == stored_in(
                    places,
                    boxes,
                ).insert(boxes[place].spec_ty().spec_id(), changed.value())
            },
{
    assert forall|changed: ErasedBox|
        changed.wf() && changed.spec_ty() == boxes[place].spec_ty() implies {
        &&& paired(places, #[trigger] boxes.update(place, changed))
        &&& stored_in(places, boxes.update(place, changed)) == stored_in(places, boxes).insert(
            boxes[place].spec_ty().spec_id(),
            changed.value(),
        )
    } by {
        let after = boxes.update(place, changed);
        assert forall|k: int| 0 <= k < after.len() implies places.contains_key(
            (#[trigger] after[k]).spec_ty().spec_id(),
        ) && places[after[k].spec_ty().spec_id()] == k by {
            assert(boxes[k].wf());
        }
        assert(stored_in(places, after) =~= stored_in(places, boxes).insert(
            boxes[place].spec_ty().spec_id(),
            changed.value(),
        ));
    }
}

impl Resources {
    /// The stored values, by the identity of their types.
    pub closed spec fn stored(&self) -> Map<u128, Seq<u8>> {
        stored_in(type_map_entries(self.data), self.boxes@)
    }

    /// The types and their boxes belong together one to one.
    pub closed spec fn wf(&self) -> bool {
        paired(type_map_entries(self.data), self.boxes@)
    }

    /// Whether a value of `ty` is stored.
    pub open spec fn has(&self, ty: TypeInfo) -> bool {
        self.stored().contains_key(ty.spec_id())
    }

    /// Stores `data` as the value of type `ty`. Where a value of the type
    /// was stored it is released and comes back: the destructor is owed to
    /// it.
    ///
    /// Fails, and changes nothing, with `ErasedVecCapacityOverflow` exactly
    /// where the values of `ty` have no size.
    pub fn add_resource(&mut self, ty: TypeInfo, data: &[u8]) -> (r: Result<
        Option<Vec<u8>>,
        ErasedVecErrors,
    >)
        requires
            old(self).wf(),
            data@.len() == ty.spec_size(),
        ensures
            final(self).wf(),
            match r {
                Ok(released) => {
                    &&& ty.spec_size() > 0
                    &&& final(self).stored() == old(self).stored().insert(ty.spec_id(), data@)
                    &&& match released {
                        Some(bytes) => old(self).has(ty) && bytes@ == old(self).stored()[ty.spec_id()],
                        None => !old(self).has(ty),
                    }
                },
                Err(e) => {
                    &&& ty.spec_size() == 0
                    &&& e == ErasedVecErrors::ErasedVecCapacityOverflow
                    &&& final(self).stored() == old(self).stored()
                },
            },
    {
        let boxed = match ErasedBox::new(ty, data) {
            Ok(boxed) => boxed,
            Err(e) => {
                return Err(e);
            },
        };
        let released = match self.data.get(&ty) {
            Some(place) => {
                // The new box takes the place of the old one
                self.boxes.push(boxed);
                let before = self.boxes.swap_remove(place);
                Some(before.release())
            },
            None => {
                let place = self.boxes.len();
                self.boxes.push(boxed);
                self.data.insert(ty, place);
                None
            },
        };
        proof {
            assert(self.stored() =~= old(self).stored().insert(ty.spec_id(), data@));
        }
        Ok(released)
    }

    /// Fetches the value of type `ty`.
    ///
    /// Fails with `ResourceDataDoesNotExist`, naming the type, exactly where
    /// no value of the type is stored.
    pub fn get(&self, ty: TypeInfo) -> (r: Result<&[u8], EcsErrors>)
        requires
            self.wf(),
        ensures
            match r {
                Ok(value) => self.has(ty) && value@ == self.stored()[ty.spec_id()],
                Err(e) => !self.has(ty) && e.is_missing_resource(ty.spec_name()),
            },
    {
        match self.data.get(&ty) {
            Some(place) => Ok(self.boxes[place].ptr()),
            None => Err(EcsErrors::ResourceDataDoesNotExist { component: ty.name() }),
        }
    }

    /// Fetches the value of type `ty`, to be written in place.
    ///
    /// Fails, and changes nothing, with `ResourceDataDoesNotExist`, naming
    /// the type, exactly where no value of the type is stored.
    pub fn get_mut(&mut self, ty: TypeInfo) -> (r: Result<&mut [u8], EcsErrors>)
        requires
            old(self).wf(),
        ensures
            match r {
                Ok(value) => {
                    &&& old(self).has(ty)
                    &&& value@ == old(self).stored()[ty.spec_id()]
                    &&& final(value)@.len() == value@.len() ==> final(self).wf() && final(self).stored() == old(self).stored().insert(ty.spec_id(), final(value)@)
                },
                Err(e) => {
                    &&& *final(self) == *old(self)
                    &&& !old(self).has(ty)
                    &&& e.is_missing_resource(ty.spec_name())
                },
            },
    {
        let place = match self.data.get(&ty) {
            Some(place) => place,
            None => {
                return Err(EcsErrors::ResourceDataDoesNotExist { component: ty.name() });
            },
        };
        proof {
            lemma_box_changed(type_map_entries(self.data), self.boxes@, place as int);
        }
        match self.boxes[place].get_mut(ty) {
            Ok(value) => Ok(value),
            Err(_) => Err(EcsErrors::DowncastToWrongType),
        }
    }

    /// Releases the value of type `ty`: it is stored no longer and comes
    /// back, and the destructor is owed to it. Where no value of the type
    /// is stored nothing is done.
    pub fn remove(&mut self, ty: TypeInfo) -> (released: Option<Vec<u8>>)
        requires
            old(self).wf(),
        ensures
            final(self).wf(),
            final(self).stored() == old(self).stored().remove(ty.spec_id()),
            match released {
                Some(bytes) => old(self).has(ty) && bytes@ == old(self).stored()[ty.spec_id()],
                None => !old(self).has(ty),
            },
    {
        let place = match self.data.remove(&ty) {
            Some(place) => place,
            None => {
                proof {
                    assert(self.stored() =~= old(self).stored().remove(ty.spec_id()));
                }
                return None;
            },
        };
        let last = self.boxes.len() - 1;
        // The last box takes the place of the one that leaves
        let before = self.boxes.swap_remove(place);
        if place < last {
            let moved = self.boxes[place].ty();
            self.data.insert(moved, place);
        }
        proof {
            assert(self.stored() =~= old(self).stored().remove(ty.spec_id()));
        }
        Some(before.release())
    }
}

/// Whether a value of the type with the identity `id` is among `released`.
pub open spec fn among(released: Seq<(TypeInfo, Vec<u8>)>, id: u128) -> bool {
    exists|i: int| 0 <= i < released.len() && (#[trigger] released[i]).0.spec_id() == id
}

impl Resources {
    /// Takes the store apart: beside its type comes each stored value. The
    /// destructor of the type is now owed to it.
    pub fn release(self) -> (released: Vec<(TypeInfo, Vec<u8>)>)
        requires
            self.wf(),
        ensures
            forall|i: int|
                0 <= i < released@.len() ==> self.has((#[trigger] released@[i]).0) && released@[i].1@
                    == self.stored()[released@[i].0.spec_id()],
            forall|id: u128| #[trigger] self.stored().contains_key(id) ==> among(released@, id),
            forall|i: int, j: int|
                0 <= i < j < released@.len() ==> (#[trigger] released@[i]).0.spec_id() != (
                #[trigger] released@[j]).0.spec_id(),
    {
        let mut store = self;
        let mut released: Vec<(TypeInfo, Vec<u8>)> = Vec::new();
        let ghost boxes = self.boxes@;
        let ghost places = type_map_entries(self.data);
        while store.boxes.len() > 0
            invariant
                paired(places, boxes),
                places == type_map_entries(self.data),
                boxes == self.boxes@,
                store.boxes@.len() <= boxes.len(),
                released@.len() == boxes.len() - store.boxes@.len(),
                forall|k: int| 0 <= k < store.boxes@.len() ==> boxes[k] == #[trigger] store.boxes@[k],
                forall|i: int|
                    0 <= i < released@.len() ==> (#[trigger] released@[i]).0 == boxes[boxes.len()
                        - 1 - i].spec_ty() && released@[i].1@ == boxes[boxes.len() - 1
                        - i].value(),
            decreases store.boxes@.len(),
        {
            match store.boxes.pop() {
                Some(boxed) => {
                    let ty = boxed.ty();
                    released.push((ty, boxed.release()));
                },
                None => {},
            }
        }
        proof {
            assert forall|i: int| 0 <= i < released@.len() implies self.has(
                (#[trigger] released@[i]).0,
            ) && released@[i].1@ == self.stored()[released@[i].0.spec_id()] by {
                let k = boxes.len() - 1 - i;
                assert(boxes[k].wf());
            }
            assert forall|id: u128| #[trigger] self.stored().contains_key(id) implies among(
                released@,
                id,
            ) by {
                let k = places[id] as int;
                assert(released@[boxes.len() - 1 - k].0.spec_id() == id);
            }
            assert forall|i: int, j: int| 0 <= i < j < released@.len() implies (
            #[trigger] released@[i]).0.spec_id() != (#[trigger] released@[j]).0.spec_id() by {
                assert(boxes[boxes.len() - 1 - i].wf());
                assert(boxes[boxes.len() - 1 - j].wf());
            }
        }
        released
    }
}

impl Default for Resources {
    /// A store without values.
    fn default() -> (resources: Self)
        ensures
            resources.wf(),
            resources.stored() == Map::<u128, Seq<u8>>::empty(),
    {
        let resources = Resources { data: TypeMap::new(), boxes: Vec::new() };
        assert(resources.stored() =~= Map::<u128, Seq<u8>>::empty());
        resources
    }
}

} // verus!
