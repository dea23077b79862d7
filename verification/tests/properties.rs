use enum_flags::codec::FlagValue;
use enum_flags::schema::{str_eq, Schema, SchemaEntry, SchemaError, Width};

const RESERVED: &str = "__Composed__";

fn decl(name: &str, explicit: Option<u64>) -> SchemaEntry {
    SchemaEntry { name: name.to_string(), explicit_value: explicit }
}

/// The schema `None = 0, A = 1, B = 2, C = 4` under plain names.
fn plain_schema(width: Width) -> Schema {
    let entries = vec![
        decl("None", Some(0)),
        decl("A", Some(1)),
        decl("B", Some(2)),
        decl("C", Some(4)),
    ];
    Schema::new(&entries, width, RESERVED).unwrap()
}

#[test]
fn union_commutes_and_associates() {
    let schema = plain_schema(Width::W64);
    let a = schema.from_num(1);
    let b = schema.from_num(2);
    let c = schema.from_num(4);

    assert_eq!(schema.union(a, b), schema.union(b, a));
    assert_eq!(
        schema.union(schema.union(a, b), c),
        schema.union(a, schema.union(b, c))
    );
}

#[test]
fn intersection_commutes_and_associates() {
    let schema = plain_schema(Width::W64);
    let a = schema.from_num(1);
    let b = schema.from_num(3);
    let c = schema.from_num(7);

    assert_eq!(schema.intersection(a, b), schema.intersection(b, a));
    assert_eq!(
        schema.intersection(schema.intersection(a, b), c),
        schema.intersection(a, schema.intersection(b, c))
    );
}

#[test]
fn complement_meets_to_zero() {
    let schema = plain_schema(Width::W8);
    for raw in [0u64, 1, 2, 4, 5, 7, 0xff] {
        let a = schema.from_num(raw);
        assert_eq!(
            schema.intersection(a, schema.complement(a)),
            schema.from_num(0)
        );
    }
}

#[test]
fn difference_is_intersection_with_complement() {
    let schema = plain_schema(Width::W8);
    for ra in [0u64, 1, 3, 5, 7] {
        for rb in [0u64, 2, 4, 6] {
            let a = schema.from_num(ra);
            let b = schema.from_num(rb);
            assert_eq!(
                schema.difference(a, b),
                schema.intersection(a, schema.complement(b))
            );
        }
    }
}

#[test]
fn zero_containment_rule() {
    let schema = plain_schema(Width::W64);
    let none = schema.from_num(0);
    let a = schema.from_num(1);
    let c = schema.from_num(4);

    assert!(none.contains(none));
    assert!(!schema.union(a, c).contains(none));
}

#[test]
fn completeness_follows_or_reduction() {
    let schema = plain_schema(Width::W64);
    // OR-reducing {0, 1, 2, 4} gives 7.
    assert!(schema.is_all(schema.from_num(7)));
    assert!(!schema.is_all(schema.from_num(5)));
}

#[test]
fn composed_value_formats_by_overlap() {
    let schema = plain_schema(Width::W64);
    // 5 is no declared discriminant, yet its bits overlap A and C.
    let v = schema.from_num(5);
    assert!(matches!(v, FlagValue::Composed(5)));
    assert_eq!("(A | C)", schema.format(v));
}

#[test]
fn discriminants_auto_increment_sequentially() {
    let entries = vec![decl("X", None), decl("Y", Some(5)), decl("Z", None)];
    let schema = Schema::new(&entries, Width::W64, RESERVED).unwrap();
    assert_eq!(schema.variant_count(), 3);
    assert_eq!(schema.variant_value(0), 0);
    assert_eq!(schema.variant_value(1), 5);
    assert_eq!(schema.variant_value(2), 6);
    assert_eq!(schema.variant_name(2).as_str(), "Z");
}

#[test]
fn end_to_end_algebra_and_rendering() {
    let schema = plain_schema(Width::W64);
    let a = schema.from_num(1);
    let b = schema.from_num(2);
    let c = schema.from_num(4);

    let e1 = schema.union(a, c);
    let e2 = schema.union(b, c);

    assert_eq!("(A | B | C)", schema.format(schema.union(e1, e2)));
    assert_eq!("(C)", schema.format(schema.intersection(e1, e2)));
    assert_eq!("(A | B)", schema.format(schema.symmetric_difference(e1, e2)));
    assert_eq!("(A)", schema.format(schema.difference(e1, c)));
    assert_eq!(schema.difference(e1, c), schema.from_num(1));
}

#[test]
fn named_and_composed_tags() {
    let schema = plain_schema(Width::W64);
    assert!(matches!(schema.from_num(0), FlagValue::Named(0)));
    assert!(matches!(schema.from_num(4), FlagValue::Named(4)));
    assert!(matches!(schema.from_num(3), FlagValue::Composed(3)));
    assert_eq!(schema.from_num(3).as_num(), 3);
    assert!(schema.from_num(3).eq_num(3));
    assert!(!schema.from_num(3).eq_num(4));
}

#[test]
fn empty_schema_is_rejected() {
    let entries: Vec<SchemaEntry> = vec![];
    assert!(matches!(
        Schema::new(&entries, Width::W64, RESERVED),
        Err(SchemaError::EmptySchema)
    ));
}

#[test]
fn explicit_value_must_fit_width() {
    let entries = vec![decl("A", Some(300))];
    assert!(matches!(
        Schema::new(&entries, Width::W8, RESERVED),
        Err(SchemaError::UnrepresentableValue)
    ));
}

#[test]
fn implicit_value_must_fit_width() {
    let entries = vec![decl("A", Some(255)), decl("B", None)];
    assert!(matches!(
        Schema::new(&entries, Width::W8, RESERVED),
        Err(SchemaError::UnrepresentableValue)
    ));
    let entries = vec![decl("A", Some(u64::MAX)), decl("B", None)];
    assert!(matches!(
        Schema::new(&entries, Width::W64, RESERVED),
        Err(SchemaError::UnrepresentableValue)
    ));
}

#[test]
fn reserved_name_must_not_collide() {
    let entries = vec![decl("A", Some(1)), decl(RESERVED, None)];
    assert!(matches!(
        Schema::new(&entries, Width::W64, RESERVED),
        Err(SchemaError::ReservedNameCollision)
    ));
}

#[test]
fn zero_value_without_zero_name_renders_empty() {
    let entries = vec![decl("A", Some(1)), decl("B", Some(2))];
    let schema = Schema::new(&entries, Width::W64, RESERVED).unwrap();
    assert_eq!("()", schema.format(schema.from_num(0)));
}

#[test]
fn aliased_values_are_legal_and_render_in_order() {
    let entries = vec![decl("First", Some(1)), decl("Alias", Some(1))];
    let schema = Schema::new(&entries, Width::W64, RESERVED).unwrap();
    let v = schema.from_num(1);
    assert!(matches!(v, FlagValue::Named(1)));
    assert_eq!("(First | Alias)", schema.format(v));
}

#[test]
fn complement_is_masked_to_width() {
    let schema8 = plain_schema(Width::W8);
    assert_eq!(schema8.complement(schema8.from_num(1)).as_num(), 0xfe);
    let entries = vec![decl("A", Some(1))];
    let schema16 = Schema::new(&entries, Width::W16, RESERVED).unwrap();
    assert_eq!(schema16.complement(schema16.from_num(1)).as_num(), 0xfffe);
    assert_eq!(schema16.width(), Width::W16);
}

#[test]
fn set_inserts_or_removes() {
    let schema = plain_schema(Width::W64);
    let a = schema.from_num(1);
    let b = schema.from_num(2);

    let mut v = a;
    schema.set(&mut v, b, true);
    assert_eq!(v.as_num(), 3);
    schema.set(&mut v, b, false);
    assert_eq!(v, a);
}

#[test]
fn default_width_is_native() {
    assert_eq!(Width::default(), Width::W64);
    let entries = vec![decl("A", Some(1))];
    let schema = Schema::new(&entries, Width::default(), RESERVED).unwrap();
    assert_eq!(schema.complement(schema.from_num(0)).as_num(), u64::MAX);
}

#[test]
fn string_comparison_is_exact() {
    assert!(str_eq("State::A", "State::A"));
    assert!(!str_eq("State::A", "State::B"));
    assert!(!str_eq("State::A", "State::AB"));
    assert!(str_eq("", ""));
}
