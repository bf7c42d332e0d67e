use nina::errors::TypeInfoErrors;
use nina::storage::{Layout, TypeIdHasher, TypeInfo};
use std::cmp::Ordering;
use std::hash::{Hash, Hasher};

#[test]
fn descriptor_keeps_what_it_was_made_of() {
    let ty = TypeInfo::of(77, 24, 8, 0xfeed, "String").unwrap();
    assert_eq!(ty.id(), 77);
    assert_eq!(ty.size(), 24);
    assert_eq!(ty.layout().size(), 24);
    assert_eq!(ty.layout().align(), 8);
    assert_eq!(ty.drop_shim(), 0xfeed);
    assert_eq!(ty.name(), "String");
    assert_eq!(ty.layout(), Layout::from_size_align(24, 8).unwrap());
}

#[test]
fn sizes_and_alignments_that_form_no_layout_are_refused() {
    let top = isize::MAX as usize;
    assert_eq!(TypeInfo::of(1, 4, 0, 0, "x").map(|_| ()), Err(TypeInfoErrors::LayoutError));
    assert_eq!(TypeInfo::of(1, 4, 3, 0, "x").map(|_| ()), Err(TypeInfoErrors::LayoutError));
    assert_eq!(TypeInfo::of(1, 4, 6, 0, "x").map(|_| ()), Err(TypeInfoErrors::LayoutError));
    assert_eq!(TypeInfo::of(1, top + 1, 1, 0, "x").map(|_| ()), Err(TypeInfoErrors::LayoutError));
    assert_eq!(TypeInfo::of(1, top - 2, 4, 0, "x").map(|_| ()), Err(TypeInfoErrors::LayoutError));
    assert!(TypeInfo::of(1, top - 3, 4, 0, "x").is_ok());
    assert!(TypeInfo::of(1, top, 1, 0, "x").is_ok());
    assert!(TypeInfo::of(1, 0, 1, 0, "x").is_ok());
    assert!(TypeInfo::of(1, 0, top + 1, 0, "x").is_ok());
    assert_eq!(Layout::from_size_align(1, top + 1), Err(TypeInfoErrors::LayoutError));
}

#[test]
fn array_layout_is_size_times_count_up_to_the_limit() {
    let ty = TypeInfo::of(1, 12, 4, 0, "Triple").unwrap();
    let layout = ty.array(5).unwrap();
    assert_eq!(layout.size(), 60);
    assert_eq!(layout.align(), 4);
    assert_eq!(ty.array(0).unwrap().size(), 0);
    let limit = (isize::MAX as usize - 3) / 12;
    assert_eq!(ty.array(limit).unwrap().size(), 12 * limit);
    assert_eq!(ty.array(limit + 1), Err(TypeInfoErrors::LayoutError));
    assert_eq!(ty.array(usize::MAX), Err(TypeInfoErrors::LayoutError));
    // Values without a size can be had in any number
    let unit = TypeInfo::of(2, 0, 1, 0, "Unit").unwrap();
    assert_eq!(unit.array(usize::MAX).unwrap().size(), 0);
}

#[test]
fn descriptors_are_equal_exactly_when_their_identities_are() {
    let a = TypeInfo::of(1, 4, 4, 0, "a").unwrap();
    let same = TypeInfo::of(1, 8, 8, 9, "other name").unwrap();
    let b = TypeInfo::of(2, 4, 4, 0, "a").unwrap();
    assert!(a == same);
    assert!(a != b);
}

#[test]
fn descriptors_are_ordered_by_alignment_then_identity() {
    let wide = TypeInfo::of(9, 16, 16, 0, "wide").unwrap();
    let narrow = TypeInfo::of(1, 1, 1, 0, "narrow").unwrap();
    let first = TypeInfo::of(3, 4, 4, 0, "first").unwrap();
    let second = TypeInfo::of(4, 4, 4, 0, "second").unwrap();
    assert_eq!(wide.cmp(&narrow), Ordering::Less);
    assert_eq!(narrow.cmp(&wide), Ordering::Greater);
    assert_eq!(first.cmp(&second), Ordering::Less);
    assert_eq!(second.cmp(&first), Ordering::Greater);
    assert_eq!(first.cmp(&first), Ordering::Equal);
    assert_eq!(wide.partial_cmp(&first), Some(Ordering::Less));
    assert!(wide < first);
    assert!(first < second);
    assert!(second < narrow);
}

#[test]
fn hasher_takes_the_integer_as_the_hash() {
    let mut hasher = TypeIdHasher::default();
    hasher.write_u64(0xdead_beef);
    assert_eq!(hasher.finish(), 0xdead_beef);

    let mut hasher = TypeIdHasher::default();
    hasher.write_u128((7 << 64) | 12345);
    assert_eq!(hasher.finish(), 12345);

    let mut first = TypeIdHasher::default();
    first.write(b"some bytes");
    let mut second = TypeIdHasher::default();
    second.write(b"some bytes");
    assert_eq!(first.finish(), second.finish());
}

#[test]
fn descriptor_is_hashed_by_its_identity_alone() {
    let a = TypeInfo::of((5 << 64) | 42, 4, 4, 0, "a").unwrap();
    let same = TypeInfo::of((5 << 64) | 42, 8, 8, 1, "b").unwrap();
    let mut first = TypeIdHasher::default();
    a.hash(&mut first);
    let mut second = TypeIdHasher::default();
    same.hash(&mut second);
    assert_eq!(first.finish(), 42);
    assert_eq!(second.finish(), 42);
}
