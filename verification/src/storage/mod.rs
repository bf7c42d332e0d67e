mod bundle;
mod ecs_data;
mod erased_collections;
mod type_info;
mod type_map;

pub use self::bundle::Bundle;
pub use self::ecs_data::EcsData;
pub use self::erased_collections::{
    grown_cap, lemma_max_size_bounds, lemma_overwritten_slots, lemma_pad_then_set,
    lemma_round_trip, lemma_shifted_slots, lemma_slot_bounds, lemma_slots_agree,
    lemma_spliced_slots, lemma_zero_size_room, live, matches_types, max_align, max_size,
    overwritten, resized, shifted, slot_of, spliced, views, zeros, ColumnView, ErasedBox,
    ErasedVec, NoDropTuple, RawErasedVec,
};
pub use self::type_info::{
    array_limit, lemma_array_fits, lemma_array_limit_positive, valid_layout, Layout, TypeInfo,
};
pub use self::type_map::{lookup, no_entries, type_map_entries, TypeIdHasher, TypeMap};
