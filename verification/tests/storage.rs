use hikari::storage::{ErasedHandle, GpuHandle, Resource, Storage};

#[derive(Debug, PartialEq)]
struct Texture(u32);
impl Resource for Texture {
    type Metadata = &'static str;
}

#[derive(Debug, PartialEq)]
struct Mesh(u32);
impl Resource for Mesh {
    type Metadata = ();
}

#[test]
fn added_resources_are_found_by_their_handles() {
    let mut storage = Storage::new();
    let a = storage.add(Texture(1), "albedo");
    let b = storage.add(Texture(2), "normal");
    assert_eq!(storage.get(&a), Some(&Texture(1)));
    assert_eq!(storage.get(&b), Some(&Texture(2)));
    let (data, meta) = storage.get_with_metadata(&b).unwrap();
    assert_eq!((data, *meta), (&Texture(2), "normal"));
    assert!(a != b);
    assert!(a == a.clone());
}

#[test]
fn replace_hands_back_the_old_entry() {
    let mut storage = Storage::new();
    let h = storage.add(Texture(1), "old");
    let old = storage.replace(&h, Texture(9), "new");
    assert_eq!(old, Some((Texture(1), "old")));
    assert_eq!(storage.get(&h), Some(&Texture(9)));
    if let Some(t) = storage.get_mut(&h) {
        t.0 = 10;
    }
    assert_eq!(storage.get(&h), Some(&Texture(10)));
}

#[test]
fn erased_handles_turn_back_only_into_their_own_type() {
    let mut storage = Storage::new();
    let h: GpuHandle<Texture> = storage.add(Texture(5), "x");
    let erased: ErasedHandle = h.erase();
    assert!(erased.is_of_type::<Texture>());
    assert!(!erased.is_of_type::<Mesh>());
    assert!(erased.into_typed::<Mesh>().is_none());
    let back = erased.into_typed::<Texture>().unwrap();
    assert_eq!(storage.get(&back), Some(&Texture(5)));
    assert_eq!(storage.get_from_erased(&erased), Some(&Texture(5)));
    let meshes: Storage<Mesh> = Storage::new();
    assert_eq!(meshes.get_from_erased(&erased), None);
}

#[test]
fn erased_handle_compares_its_type_tag() {
    let mut storage = Storage::new();
    let a = storage.add(Texture(1), "albedo");
    let erased: ErasedHandle = a.erase();
    assert!(erased.has_type_tag(&std::any::TypeId::of::<Texture>()));
    assert!(!erased.has_type_tag(&std::any::TypeId::of::<Mesh>()));
}

#[test]
fn typed_if_follows_the_type_check() {
    let mut storage = Storage::new();
    let a = storage.add(Texture(1), "albedo");
    let erased = a.erase();
    let back: Option<GpuHandle<Texture>> = erased.typed_if(true);
    assert!(back.unwrap() == a);
    let none: Option<GpuHandle<Mesh>> = erased.typed_if(false);
    assert!(none.is_none());
}
