use bevycraft::{Namespace, NamespacedIdentifier, Path, ResourceId, DEFAULT_NAMESPACE};

#[test]
fn parse_splits_at_first_colon() {
    let id = ResourceId::parse("mymod:block/stone");
    assert_eq!(id.namespace(), b"mymod");
    assert_eq!(id.path(), b"block/stone");
    assert_eq!(id.as_slice(), b"mymodblock/stone");
}

#[test]
fn parse_without_colon_uses_default_namespace() {
    let id = ResourceId::parse("oak_leaves");
    assert_eq!(id.namespace(), DEFAULT_NAMESPACE.as_bytes());
    assert_eq!(id.namespace(), b"bevycraft");
    assert_eq!(id.path(), b"oak_leaves");
}

#[test]
fn parse_with_empty_parts() {
    let id = ResourceId::parse(":");
    assert_eq!(id.namespace(), b"");
    assert_eq!(id.path(), b"");
    let id = ResourceId::parse("");
    assert_eq!(id.namespace(), b"bevycraft");
    assert_eq!(id.path(), b"");
}

#[test]
fn constructors_and_equality() {
    let a = ResourceId::default_namespace("stone");
    let b = ResourceId::custom_namespace("bevycraft", "stone");
    let c = ResourceId::parse("bevycraft:stone");
    assert_eq!(a, b);
    assert_eq!(b, c);
    assert_ne!(a, ResourceId::custom_namespace("other", "stone"));
    let d = a.clone();
    assert_eq!(d, a);
    assert_eq!(d.path(), b"stone");
}

#[test]
fn validity_checks() {
    assert!(Namespace::valid_namespace("Mod_1-x"));
    assert!(!Namespace::valid_namespace("mod.x"));
    assert!(!Namespace::valid_namespace("mod:x"));
    assert!(!Namespace::valid_namespace("é"));
    assert!(Path::valid_path("block/oak_log.json"));
    assert!(!Path::valid_path("block stone"));
    assert!(!Path::valid_path("a:b"));
    assert!(Namespace::valid_namespace(""));
    assert!(Namespace::valid_byte(b'z'));
    assert!(!Namespace::valid_byte(b'/'));
    assert!(Path::valid_byte(b'/'));
}

#[test]
fn path_prefix_and_suffix() {
    let mut p = Path::new("stone");
    assert_eq!(p.prefix("block/").as_bytes(), b"block/stone");
    assert_eq!(p.suffix(".json").as_bytes(), b"block/stone.json");
    let q = Path::new_static("dirt");
    assert_eq!(q.clone_prefixed("item/").as_bytes(), b"item/dirt");
    assert_eq!(q.clone_suffixed("_slab").as_bytes(), b"dirt_slab");
    assert_eq!(q.as_bytes(), b"dirt");
    assert_eq!(Namespace::new("bevycraft").as_bytes(), b"bevycraft");
    assert_eq!(Namespace::new_static("abc"), Namespace::new("abc"));
}
