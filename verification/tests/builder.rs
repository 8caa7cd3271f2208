use typeshape::builder::{
    build_fields, build_positional, build_variant, build_variants, derive_introspectable,
    derive_key, BuildError,
};
use typeshape::recipe::{CompoundRecipe, Recipe, VariantRecipe};
use typeshape::syntax::{DeclKind, Declaration, ExprKind, Field, Fields, TypeExpr, Variant};

fn path(name: &str) -> TypeExpr {
    TypeExpr::Path { name: name.to_string() }
}

fn deferred(target: &str) -> Recipe {
    Recipe::Deferred { target: target.to_string() }
}

fn named(ident: &str, ty: TypeExpr) -> Field {
    Field { ident: Some(ident.to_string()), ty }
}

fn positional(ty: TypeExpr) -> Field {
    Field { ident: None, ty }
}

fn function_pointer() -> TypeExpr {
    TypeExpr::Unsupported { kind: ExprKind::BareFn }
}

fn shape_enum() -> Declaration {
    Declaration::Enum {
        ident: "Shape".to_string(),
        variants: vec![
            Variant {
                ident: "Circle".to_string(),
                fields: Fields::Unnamed(vec![positional(path("f64"))]),
            },
            Variant {
                ident: "Square".to_string(),
                fields: Fields::Named(vec![named("side", path("f64"))]),
            },
            Variant { ident: "Empty".to_string(), fields: Fields::Unit },
        ],
    }
}

#[test]
fn struct_with_named_fields() {
    let decl = Declaration::Struct {
        ident: "Point".to_string(),
        fields: Fields::Named(vec![named("x", path("i32")), named("y", path("i32"))]),
    };
    let expected = Recipe::Compound(CompoundRecipe::Struct {
        name: "Point".to_string(),
        fields: vec![("x".to_string(), deferred("i32")), ("y".to_string(), deferred("i32"))],
    });
    assert_eq!(derive_introspectable(&decl), Ok(expected));
}

#[test]
fn struct_with_positional_fields() {
    let decl = Declaration::Struct {
        ident: "Pair".to_string(),
        fields: Fields::Unnamed(vec![positional(path("i32")), positional(path("bool"))]),
    };
    let expected = Recipe::Compound(CompoundRecipe::Struct {
        name: "Pair".to_string(),
        fields: vec![("0".to_string(), deferred("i32")), ("1".to_string(), deferred("bool"))],
    });
    assert_eq!(derive_introspectable(&decl), Ok(expected));
}

#[test]
fn enum_with_every_variant_shape() {
    let expected = Recipe::Compound(CompoundRecipe::Enum {
        name: "Shape".to_string(),
        variants: vec![
            ("Circle".to_string(), VariantRecipe::Unnamed { fields: vec![deferred("f64")] }),
            (
                "Square".to_string(),
                VariantRecipe::Named { fields: vec![("side".to_string(), deferred("f64"))] },
            ),
            ("Empty".to_string(), VariantRecipe::Unit),
        ],
    });
    assert_eq!(derive_introspectable(&shape_enum()), Ok(expected));
}

#[test]
fn three_variants_give_three_entries_of_matching_kinds() {
    let decl = Declaration::Enum {
        ident: "E".to_string(),
        variants: vec![
            Variant { ident: "N".to_string(), fields: Fields::Named(vec![named("a", path("A"))]) },
            Variant { ident: "P".to_string(), fields: Fields::Unnamed(vec![positional(path("B"))]) },
            Variant { ident: "U".to_string(), fields: Fields::Unit },
        ],
    };
    match derive_introspectable(&decl) {
        Ok(Recipe::Compound(CompoundRecipe::Enum { name, variants })) => {
            assert_eq!(name, "E");
            assert_eq!(variants.len(), 3);
            assert_eq!(variants[0].0, "N");
            assert!(matches!(variants[0].1, VariantRecipe::Named { .. }));
            assert_eq!(variants[1].0, "P");
            assert!(matches!(variants[1].1, VariantRecipe::Unnamed { .. }));
            assert_eq!(variants[2].0, "U");
            assert!(matches!(variants[2].1, VariantRecipe::Unit));
        }
        other => panic!("not an enum recipe: {:?}", other),
    }
}

#[test]
fn three_positional_fields_have_keys_zero_one_two() {
    let decl = Declaration::Struct {
        ident: "Triple".to_string(),
        fields: Fields::Unnamed(vec![
            positional(path("u8")),
            positional(path("u16")),
            positional(path("u32")),
        ]),
    };
    match derive_introspectable(&decl) {
        Ok(Recipe::Compound(CompoundRecipe::Struct { fields, .. })) => {
            let keys: Vec<&str> = fields.iter().map(|entry| entry.0.as_str()).collect();
            assert_eq!(keys, vec!["0", "1", "2"]);
        }
        other => panic!("not a struct recipe: {:?}", other),
    }
}

#[test]
fn named_fields_keep_their_identifiers_verbatim() {
    let decl = Declaration::Struct {
        ident: "Names".to_string(),
        fields: Fields::Named(vec![
            named("r#type", path("u8")),
            named("_private", path("u8")),
            named("CamelCase", path("u8")),
        ]),
    };
    match derive_introspectable(&decl) {
        Ok(Recipe::Compound(CompoundRecipe::Struct { fields, .. })) => {
            let keys: Vec<&str> = fields.iter().map(|entry| entry.0.as_str()).collect();
            assert_eq!(keys, vec!["r#type", "_private", "CamelCase"]);
        }
        other => panic!("not a struct recipe: {:?}", other),
    }
}

#[test]
fn twelve_positional_fields_have_decimal_keys() {
    let mut fields = Vec::new();
    for _ in 0..12 {
        fields.push(positional(path("u8")));
    }
    let built = build_fields(&None, &fields).unwrap();
    let keys: Vec<&str> = built.iter().map(|entry| entry.0.as_str()).collect();
    assert_eq!(keys, vec!["0", "1", "2", "3", "4", "5", "6", "7", "8", "9", "10", "11"]);
}

#[test]
fn building_twice_gives_equal_recipes() {
    let decl = shape_enum();
    let first = derive_introspectable(&decl);
    let second = derive_introspectable(&decl);
    assert!(first.is_ok());
    assert_eq!(first, second);
}

#[test]
fn failing_twice_gives_equal_errors() {
    let decl = Declaration::Struct {
        ident: "Bad".to_string(),
        fields: Fields::Named(vec![named("f", function_pointer())]),
    };
    let first = derive_introspectable(&decl);
    let second = derive_introspectable(&decl);
    assert!(first.is_err());
    assert_eq!(first, second);
}

#[test]
fn plain_named_type_is_deferred_not_inlined() {
    let decl = Declaration::Struct {
        ident: "Outer".to_string(),
        fields: Fields::Named(vec![named("inner", path("Inner"))]),
    };
    match derive_introspectable(&decl) {
        Ok(Recipe::Compound(CompoundRecipe::Struct { fields, .. })) => {
            assert_eq!(fields.len(), 1);
            assert_eq!(fields[0].1, deferred("Inner"));
            assert!(!matches!(fields[0].1, Recipe::Compound(_)));
        }
        other => panic!("not a struct recipe: {:?}", other),
    }
}

#[test]
fn self_referential_struct_defers_to_itself() {
    let decl = Declaration::Struct {
        ident: "Node".to_string(),
        fields: Fields::Named(vec![
            named("value", path("u32")),
            named("next", TypeExpr::Ptr { pointee: "Node".to_string() }),
        ]),
    };
    let expected = Recipe::Compound(CompoundRecipe::Struct {
        name: "Node".to_string(),
        fields: vec![
            ("value".to_string(), deferred("u32")),
            ("next".to_string(), deferred("Node")),
        ],
    });
    assert_eq!(derive_introspectable(&decl), Ok(expected));
}

#[test]
fn field_types_go_through_the_translator() {
    let decl = Declaration::Struct {
        ident: "Buffer".to_string(),
        fields: Fields::Named(vec![named(
            "bytes",
            TypeExpr::Array { elem: Box::new(path("i32")), len: "4".to_string() },
        )]),
    };
    let expected = Recipe::Compound(CompoundRecipe::Struct {
        name: "Buffer".to_string(),
        fields: vec![(
            "bytes".to_string(),
            Recipe::Compound(CompoundRecipe::Array {
                element: Box::new(deferred("i32")),
                length: "4".to_string(),
            }),
        )],
    });
    assert_eq!(derive_introspectable(&decl), Ok(expected));
}

#[test]
fn unsupported_field_type_names_the_field() {
    let decl = Declaration::Struct {
        ident: "Callbacks".to_string(),
        fields: Fields::Named(vec![
            named("id", path("u32")),
            named("on_event", function_pointer()),
        ]),
    };
    assert_eq!(
        derive_introspectable(&decl),
        Err(BuildError::UnsupportedTypeExpression {
            variant: None,
            field: "on_event".to_string(),
            kind: ExprKind::BareFn,
        })
    );
}

#[test]
fn unsupported_positional_field_is_named_by_its_position() {
    let decl = Declaration::Struct {
        ident: "Wrapper".to_string(),
        fields: Fields::Unnamed(vec![positional(path("u8")), positional(function_pointer())]),
    };
    assert_eq!(
        derive_introspectable(&decl),
        Err(BuildError::UnsupportedTypeExpression {
            variant: None,
            field: "1".to_string(),
            kind: ExprKind::BareFn,
        })
    );
}

#[test]
fn unsupported_field_type_in_a_variant_names_variant_and_field() {
    let decl = Declaration::Enum {
        ident: "Event".to_string(),
        variants: vec![
            Variant { ident: "Quit".to_string(), fields: Fields::Unit },
            Variant {
                ident: "Call".to_string(),
                fields: Fields::Unnamed(vec![
                    positional(path("u8")),
                    positional(path("u8")),
                    positional(TypeExpr::Slice {
                        elem: Box::new(TypeExpr::Unsupported { kind: ExprKind::Macro }),
                    }),
                ]),
            },
        ],
    };
    assert_eq!(
        derive_introspectable(&decl),
        Err(BuildError::UnsupportedTypeExpression {
            variant: Some("Call".to_string()),
            field: "2".to_string(),
            kind: ExprKind::Macro,
        })
    );
}

#[test]
fn repeated_field_name_is_rejected() {
    let decl = Declaration::Struct {
        ident: "Twice".to_string(),
        fields: Fields::Named(vec![
            named("a", path("u8")),
            named("b", path("u8")),
            named("a", path("u16")),
        ]),
    };
    assert_eq!(
        derive_introspectable(&decl),
        Err(BuildError::MalformedFieldKey { variant: None, key: "a".to_string() })
    );
}

#[test]
fn name_that_collides_with_a_position_is_rejected() {
    let fields = vec![positional(path("u8")), named("0", path("u8"))];
    assert_eq!(
        build_fields(&None, &fields),
        Err(BuildError::MalformedFieldKey { variant: None, key: "0".to_string() })
    );
}

#[test]
fn repeated_field_name_in_a_variant_names_the_variant() {
    let decl = Declaration::Enum {
        ident: "E".to_string(),
        variants: vec![Variant {
            ident: "V".to_string(),
            fields: Fields::Named(vec![named("k", path("u8")), named("k", path("u8"))]),
        }],
    };
    assert_eq!(
        derive_introspectable(&decl),
        Err(BuildError::MalformedFieldKey { variant: Some("V".to_string()), key: "k".to_string() })
    );
}

#[test]
fn repeated_variant_name_is_rejected() {
    let decl = Declaration::Enum {
        ident: "E".to_string(),
        variants: vec![
            Variant { ident: "A".to_string(), fields: Fields::Unit },
            Variant { ident: "B".to_string(), fields: Fields::Unit },
            Variant { ident: "A".to_string(), fields: Fields::Unnamed(vec![]) },
        ],
    };
    assert_eq!(
        derive_introspectable(&decl),
        Err(BuildError::MalformedFieldKey { variant: None, key: "A".to_string() })
    );
}

#[test]
fn collision_is_reported_before_a_later_unsupported_type() {
    let fields = vec![
        named("a", path("u8")),
        named("a", path("u8")),
        named("b", function_pointer()),
    ];
    assert_eq!(
        build_fields(&None, &fields),
        Err(BuildError::MalformedFieldKey { variant: None, key: "a".to_string() })
    );
}

#[test]
fn earlier_unsupported_type_is_reported_before_a_collision() {
    let fields = vec![
        named("a", function_pointer()),
        named("b", path("u8")),
        named("b", path("u8")),
    ];
    assert_eq!(
        build_fields(&None, &fields),
        Err(BuildError::UnsupportedTypeExpression {
            variant: None,
            field: "a".to_string(),
            kind: ExprKind::BareFn,
        })
    );
}

#[test]
fn colliding_field_is_rejected_even_if_its_type_is_unsupported() {
    let fields = vec![named("a", path("u8")), named("a", function_pointer())];
    assert_eq!(
        build_fields(&None, &fields),
        Err(BuildError::MalformedFieldKey { variant: None, key: "a".to_string() })
    );
}

#[test]
fn every_other_declaration_kind_is_rejected() {
    let kinds = [
        DeclKind::Const,
        DeclKind::CrateImport,
        DeclKind::Fn,
        DeclKind::ForeignMod,
        DeclKind::Impl,
        DeclKind::Macro,
        DeclKind::Mod,
        DeclKind::Static,
        DeclKind::Trait,
        DeclKind::TraitAlias,
        DeclKind::Type,
        DeclKind::Union,
        DeclKind::Use,
        DeclKind::Verbatim,
    ];
    for kind in kinds {
        assert_eq!(
            derive_introspectable(&Declaration::Other { kind, ident: None }),
            Err(BuildError::UnsupportedDeclarationKind { kind, ident: None })
        );
    }
}

#[test]
fn rejected_declaration_is_named() {
    let decl = Declaration::Other { kind: DeclKind::Union, ident: Some("Bits".to_string()) };
    assert_eq!(
        derive_introspectable(&decl),
        Err(BuildError::UnsupportedDeclarationKind {
            kind: DeclKind::Union,
            ident: Some("Bits".to_string()),
        })
    );
}

#[test]
fn struct_without_fields() {
    let expected = |name: &str| {
        Ok(Recipe::Compound(CompoundRecipe::Struct { name: name.to_string(), fields: vec![] }))
    };
    let unit = Declaration::Struct { ident: "U".to_string(), fields: Fields::Unit };
    let braces = Declaration::Struct { ident: "B".to_string(), fields: Fields::Named(vec![]) };
    let parens = Declaration::Struct { ident: "P".to_string(), fields: Fields::Unnamed(vec![]) };
    assert_eq!(derive_introspectable(&unit), expected("U"));
    assert_eq!(derive_introspectable(&braces), expected("B"));
    assert_eq!(derive_introspectable(&parens), expected("P"));
}

#[test]
fn enum_without_variants() {
    let decl = Declaration::Enum { ident: "Void".to_string(), variants: vec![] };
    assert_eq!(
        derive_introspectable(&decl),
        Ok(Recipe::Compound(CompoundRecipe::Enum { name: "Void".to_string(), variants: vec![] }))
    );
}

#[test]
fn variant_with_empty_field_lists_keeps_its_shape() {
    let braces = Variant { ident: "B".to_string(), fields: Fields::Named(vec![]) };
    let parens = Variant { ident: "P".to_string(), fields: Fields::Unnamed(vec![]) };
    let unit = Variant { ident: "U".to_string(), fields: Fields::Unit };
    assert_eq!(build_variant(&braces), Ok(VariantRecipe::Named { fields: vec![] }));
    assert_eq!(build_variant(&parens), Ok(VariantRecipe::Unnamed { fields: vec![] }));
    assert_eq!(build_variant(&unit), Ok(VariantRecipe::Unit));
}

#[test]
fn same_field_name_in_two_variants_is_no_collision() {
    let variants = vec![
        Variant { ident: "A".to_string(), fields: Fields::Named(vec![named("x", path("u8"))]) },
        Variant { ident: "B".to_string(), fields: Fields::Named(vec![named("x", path("u8"))]) },
    ];
    let built = build_variants(&variants).unwrap();
    assert_eq!(built.len(), 2);
    assert_eq!(built[0].1, built[1].1);
}

#[test]
fn positional_list_has_no_keys_and_keeps_order() {
    let fields = vec![positional(path("a")), positional(path("b")), positional(path("c"))];
    assert_eq!(
        build_positional(&Some("V".to_string()), &fields),
        Ok(vec![deferred("a"), deferred("b"), deferred("c")])
    );
}

#[test]
fn key_is_the_name_or_else_the_position() {
    assert_eq!(derive_key(&Some("width".to_string()), 5), "width");
    assert_eq!(derive_key(&None, 5), "5");
    assert_eq!(derive_key(&None, 0), "0");
    assert_eq!(derive_key(&None, 40), "40");
}
