use remap_functions::kind::{Kind, Variant};
use remap_functions::type_def::TypeDef;

#[test]
fn kind_union_and_subset() {
    let readable = Kind::bytes().union(Kind::timestamp());
    assert!(readable.contains(Kind::bytes()));
    assert!(readable.contains(Kind::timestamp()));
    assert!(readable.contains(readable));
    assert!(readable.contains(Kind::empty()));
    assert!(!readable.contains(Kind::integer()));
    assert!(!readable.contains(Kind::all()));
    assert!(!Kind::bytes().contains(readable));
    assert!(Kind::all().contains(readable));
    assert!(readable.has(Variant::Bytes));
    assert!(readable.has(Variant::Timestamp));
    assert!(!readable.has(Variant::Mapping));
}

#[test]
fn kind_union_is_commutative_and_idempotent() {
    let a = Kind::integer().union(Kind::float());
    let b = Kind::float().union(Kind::integer());
    assert_eq!(a, b);
    assert!(a.same(b));
    assert_eq!(a.union(a), a);
    assert_eq!(a.union(Kind::empty()), a);
    assert_eq!(a.union(Kind::all()), Kind::all());
}

#[test]
fn kind_intersection() {
    let a = Kind::integer().union(Kind::float());
    let b = Kind::float().union(Kind::boolean());
    assert_eq!(a.intersection(b), Kind::float());
    assert!(a.intersection(Kind::null()).is_empty());
    assert_eq!(a.intersection(Kind::all()), a);
}

#[test]
fn kind_of_every_variant() {
    let variants = [
        (Variant::Bytes, Kind::bytes()),
        (Variant::Integer, Kind::integer()),
        (Variant::Float, Kind::float()),
        (Variant::Boolean, Kind::boolean()),
        (Variant::Mapping, Kind::mapping()),
        (Variant::Array, Kind::array()),
        (Variant::Timestamp, Kind::timestamp()),
        (Variant::Regex, Kind::regex()),
        (Variant::Null, Kind::null()),
    ];
    let mut all = Kind::empty();
    for (variant, kind) in variants {
        assert_eq!(Kind::exactly(variant), kind);
        assert!(kind.has(variant));
        assert!(Kind::all().has(variant));
        assert!(!Kind::empty().has(variant));
        assert!(!kind.is_empty());
        assert!(!kind.is_all());
        for (other, _) in variants {
            assert_eq!(kind.has(other), other == variant);
        }
        all = all.union(kind);
    }
    assert!(all.is_all());
    assert_eq!(all, Kind::all());
    assert!(Kind::empty().is_empty());
}

#[test]
fn fallible_unless_bytes_or_timestamp() {
    let allowed = Kind::bytes().union(Kind::timestamp());
    let both = TypeDef { fallible: false, kind: Kind::bytes().union(Kind::timestamp()) };
    assert!(!both.fallible_unless(allowed).fallible);
    assert_eq!(both.fallible_unless(allowed), both);

    let integer = TypeDef { fallible: false, kind: Kind::integer() };
    assert!(integer.fallible_unless(allowed).fallible);
    assert_eq!(integer.fallible_unless(allowed).kind, Kind::integer());
}

#[test]
fn fallible_unless_never_clears_the_flag() {
    let allowed = Kind::bytes().union(Kind::timestamp());
    let failing = TypeDef { fallible: true, kind: Kind::bytes() };
    assert!(failing.fallible_unless(allowed).fallible);
    assert!(failing.fallible_unless(Kind::all()).fallible);
    let plain = TypeDef { fallible: false, kind: Kind::bytes() };
    assert!(!plain.fallible_unless(allowed).fallible);
    assert!(!plain.fallible_unless(Kind::bytes()).fallible);
    assert!(plain.fallible_unless(Kind::timestamp()).fallible);
    assert!(plain.fallible_unless(Kind::empty()).fallible);
    let nothing = TypeDef { fallible: false, kind: Kind::empty() };
    assert!(!nothing.fallible_unless(Kind::empty()).fallible);
}

#[test]
fn with_constraint_replaces_the_kind() {
    let any = TypeDef::default();
    assert_eq!(any, TypeDef { fallible: false, kind: Kind::all() });
    assert_eq!(
        any.with_constraint(Kind::bytes()),
        TypeDef { fallible: false, kind: Kind::bytes() }
    );
    let failing = TypeDef::new(Kind::integer(), true);
    assert_eq!(
        failing.with_constraint(Kind::timestamp()),
        TypeDef { fallible: true, kind: Kind::timestamp() }
    );
    assert!(failing.is_fallible());
    assert!(!failing.into_fallible(false).is_fallible());
}

#[test]
fn merge_joins_kinds_and_flags() {
    let a = TypeDef::new(Kind::integer(), false);
    let b = TypeDef::new(Kind::float(), true);
    assert_eq!(a.merge(b), TypeDef::new(Kind::integer().union(Kind::float()), true));
    assert_eq!(a.merge(a), a);
}
