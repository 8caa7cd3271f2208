use typeshape::builder::BuildError;
use typeshape::evaluate::{
    describe, evaluate, evaluate_all, evaluate_compound, evaluate_entries, evaluate_variant,
    evaluate_variants, lookup, DescribeError, EvalError,
};
use typeshape::info::{
    copy_infos, copy_keyed_infos, copy_variant_infos, CompoundType, EnumVariant, PointerType,
    TypeInfo,
};
use typeshape::recipe::{CompoundRecipe, PointerRecipe, Recipe, VariantRecipe};
use typeshape::syntax::{DeclKind, Declaration, ExprKind, Field, Fields, TypeExpr, Variant};
use typeshape::translate::parse_type;

fn path(name: &str) -> TypeExpr {
    TypeExpr::Path { name: name.to_string() }
}

fn deferred(target: &str) -> Recipe {
    Recipe::Deferred { target: target.to_string() }
}

fn named(ident: &str, ty: TypeExpr) -> Field {
    Field { ident: Some(ident.to_string()), ty }
}

fn positional(ty: TypeExpr) -> Field {
    Field { ident: None, ty }
}

fn marker(tag: &str) -> TypeInfo {
    TypeInfo::Impl { bounds: vec![tag.to_string()] }
}

fn primitives() -> Vec<(String, TypeInfo)> {
    vec![
        ("i32".to_string(), TypeInfo::Primitive),
        ("bool".to_string(), TypeInfo::Primitive),
        ("f64".to_string(), TypeInfo::Primitive),
        ("u8".to_string(), TypeInfo::Primitive),
    ]
}

fn point() -> TypeInfo {
    TypeInfo::Compound(CompoundType::Struct {
        name: "Point".to_string(),
        fields: vec![
            ("x".to_string(), TypeInfo::Primitive),
            ("y".to_string(), TypeInfo::Primitive),
        ],
    })
}

#[test]
fn point_struct_is_described() {
    let decl = Declaration::Struct {
        ident: "Point".to_string(),
        fields: Fields::Named(vec![named("x", path("i32")), named("y", path("i32"))]),
    };
    assert_eq!(describe(&decl, &primitives()), Ok(point()));
}

#[test]
fn pair_struct_is_described() {
    let decl = Declaration::Struct {
        ident: "Pair".to_string(),
        fields: Fields::Unnamed(vec![positional(path("i32")), positional(path("bool"))]),
    };
    let host = vec![("i32".to_string(), marker("int")), ("bool".to_string(), marker("truth"))];
    let expected = TypeInfo::Compound(CompoundType::Struct {
        name: "Pair".to_string(),
        fields: vec![("0".to_string(), marker("int")), ("1".to_string(), marker("truth"))],
    });
    assert_eq!(describe(&decl, &host), Ok(expected));
}

#[test]
fn shape_enum_is_described() {
    let decl = Declaration::Enum {
        ident: "Shape".to_string(),
        variants: vec![
            Variant {
                ident: "Circle".to_string(),
                fields: Fields::Unnamed(vec![positional(path("f64"))]),
            },
            Variant {
                ident: "Square".to_string(),
                fields: Fields::Named(vec![named("side", path("f64"))]),
            },
            Variant { ident: "Empty".to_string(), fields: Fields::Unit },
        ],
    };
    let expected = TypeInfo::Compound(CompoundType::Enum {
        name: "Shape".to_string(),
        variants: vec![
            (
                "Circle".to_string(),
                EnumVariant::UnnamedVariant { fields: vec![TypeInfo::Primitive] },
            ),
            (
                "Square".to_string(),
                EnumVariant::NamedVariant {
                    fields: vec![("side".to_string(), TypeInfo::Primitive)],
                },
            ),
            ("Empty".to_string(), EnumVariant::UnitVariant),
        ],
    });
    assert_eq!(describe(&decl, &primitives()), Ok(expected));
}

#[test]
fn array_of_four_is_evaluated() {
    let expr = TypeExpr::Array { elem: Box::new(path("i32")), len: "4".to_string() };
    let recipe = parse_type(&expr).unwrap();
    let expected = TypeInfo::Compound(CompoundType::Array {
        element: Box::new(TypeInfo::Primitive),
        length: 4,
    });
    assert_eq!(evaluate(&recipe, &primitives()), Ok(expected));
}

#[test]
fn mutable_borrow_of_a_slice_is_evaluated() {
    let expr = TypeExpr::Reference {
        lifetime: Some("'a".to_string()),
        elem: Box::new(TypeExpr::Slice { elem: Box::new(path("u8")) }),
        mutable: true,
    };
    let recipe = parse_type(&expr).unwrap();
    let expected = TypeInfo::Pointer(PointerType::Reference {
        lifetime: "'a".to_string(),
        element: Box::new(TypeInfo::Compound(CompoundType::Slice {
            element: Box::new(TypeInfo::Primitive),
        })),
        mutable: true,
    });
    assert_eq!(evaluate(&recipe, &primitives()), Ok(expected));
}

#[test]
fn unsupported_field_stops_the_description() {
    let decl = Declaration::Struct {
        ident: "Callbacks".to_string(),
        fields: Fields::Named(vec![named(
            "on_event",
            TypeExpr::Unsupported { kind: ExprKind::BareFn },
        )]),
    };
    assert_eq!(
        describe(&decl, &primitives()),
        Err(DescribeError::Build(BuildError::UnsupportedTypeExpression {
            variant: None,
            field: "on_event".to_string(),
            kind: ExprKind::BareFn,
        }))
    );
}

#[test]
fn unsupported_declaration_stops_the_description() {
    let decl = Declaration::Other { kind: DeclKind::Fn, ident: Some("main".to_string()) };
    assert_eq!(
        describe(&decl, &primitives()),
        Err(DescribeError::Build(BuildError::UnsupportedDeclarationKind {
            kind: DeclKind::Fn,
            ident: Some("main".to_string()),
        }))
    );
}

#[test]
fn description_needs_the_descriptor_of_every_named_type() {
    let decl = Declaration::Struct {
        ident: "Line".to_string(),
        fields: Fields::Named(vec![named("from", path("i32")), named("to", path("Point"))]),
    };
    assert_eq!(
        describe(&decl, &primitives()),
        Err(DescribeError::Evaluate(EvalError::MissingEntryPoint { target: "Point".to_string() }))
    );
    let mut host = primitives();
    host.push(("Point".to_string(), point()));
    let expected = TypeInfo::Compound(CompoundType::Struct {
        name: "Line".to_string(),
        fields: vec![("from".to_string(), TypeInfo::Primitive), ("to".to_string(), point())],
    });
    assert_eq!(describe(&decl, &host), Ok(expected));
}

#[test]
fn describing_twice_gives_equal_descriptors() {
    let decl = Declaration::Struct {
        ident: "Pair".to_string(),
        fields: Fields::Unnamed(vec![positional(path("i32")), positional(path("bool"))]),
    };
    let host = primitives();
    let first = describe(&decl, &host);
    let second = describe(&decl, &host);
    assert!(first.is_ok());
    assert_eq!(first, second);
}

#[test]
fn deferred_leaf_becomes_the_supplied_descriptor() {
    let host = vec![("A".to_string(), marker("a")), ("B".to_string(), marker("b"))];
    assert_eq!(evaluate(&deferred("B"), &host), Ok(marker("b")));
    assert_eq!(evaluate(&deferred("A"), &host), Ok(marker("a")));
}

#[test]
fn deferred_leaf_without_descriptor_is_reported() {
    let host = vec![("A".to_string(), marker("a"))];
    assert_eq!(
        evaluate(&deferred("a"), &host),
        Err(EvalError::MissingEntryPoint { target: "a".to_string() })
    );
    assert_eq!(
        evaluate(&deferred("A"), &vec![]),
        Err(EvalError::MissingEntryPoint { target: "A".to_string() })
    );
}

#[test]
fn first_supplied_descriptor_wins() {
    let host = vec![
        ("T".to_string(), marker("first")),
        ("T".to_string(), marker("second")),
    ];
    assert_eq!(evaluate(&deferred("T"), &host), Ok(marker("first")));
    assert_eq!(lookup(&host, &"T".to_string()), Some(&marker("first")));
    assert_eq!(lookup(&host, &"U".to_string()), None);
}

#[test]
fn fields_of_a_descriptor_can_be_looked_up() {
    match point() {
        TypeInfo::Compound(CompoundType::Struct { fields, .. }) => {
            assert_eq!(lookup(&fields, &"y".to_string()), Some(&TypeInfo::Primitive));
            assert_eq!(lookup(&fields, &"z".to_string()), None);
        }
        other => panic!("not a struct: {:?}", other),
    }
}

#[test]
fn never_impl_and_dyn_need_no_host() {
    assert_eq!(evaluate(&Recipe::Never, &vec![]), Ok(TypeInfo::Never));
    let bounds = vec!["Read".to_string(), "Send".to_string()];
    assert_eq!(
        evaluate(&Recipe::Impl { bounds: bounds.clone() }, &vec![]),
        Ok(TypeInfo::Impl { bounds: bounds.clone() })
    );
    assert_eq!(
        evaluate(&Recipe::Dyn { bounds: bounds.clone() }, &vec![]),
        Ok(TypeInfo::Dyn { bounds })
    );
}

#[test]
fn array_length_must_be_a_numeral() {
    let recipe = CompoundRecipe::Array {
        element: Box::new(Recipe::Never),
        length: "N".to_string(),
    };
    assert_eq!(
        evaluate_compound(&recipe, &vec![]),
        Err(EvalError::UnevaluatedLength { length: "N".to_string() })
    );
}

#[test]
fn array_length_must_fit() {
    let length = format!("{}0", usize::MAX);
    let recipe = CompoundRecipe::Array { element: Box::new(Recipe::Never), length: length.clone() };
    assert_eq!(evaluate_compound(&recipe, &vec![]), Err(EvalError::UnevaluatedLength { length }));
}

#[test]
fn array_of_length_zero() {
    let recipe = CompoundRecipe::Array { element: Box::new(Recipe::Never), length: "0".to_string() };
    assert_eq!(
        evaluate_compound(&recipe, &vec![]),
        Ok(CompoundType::Array { element: Box::new(TypeInfo::Never), length: 0 })
    );
}

#[test]
fn array_element_fault_comes_before_length_fault() {
    let recipe = CompoundRecipe::Array {
        element: Box::new(deferred("Missing")),
        length: "N".to_string(),
    };
    assert_eq!(
        evaluate_compound(&recipe, &vec![]),
        Err(EvalError::MissingEntryPoint { target: "Missing".to_string() })
    );
}

#[test]
fn tuple_is_evaluated_element_by_element() {
    let recipe = Recipe::Compound(CompoundRecipe::Tuple {
        elements: vec![deferred("A"), Recipe::Never, deferred("B")],
    });
    let host = vec![("B".to_string(), marker("b")), ("A".to_string(), marker("a"))];
    assert_eq!(
        evaluate(&recipe, &host),
        Ok(TypeInfo::Compound(CompoundType::Tuple {
            elements: vec![marker("a"), TypeInfo::Never, marker("b")],
        }))
    );
}

#[test]
fn first_fault_of_a_run_is_reported() {
    let recipes = vec![Recipe::Never, deferred("X"), deferred("Y")];
    assert_eq!(
        evaluate_all(&recipes, &vec![]),
        Err(EvalError::MissingEntryPoint { target: "X".to_string() })
    );
    assert_eq!(evaluate_all(&vec![], &vec![]), Ok(vec![]));
}

#[test]
fn repeated_key_in_a_recipe_is_rejected() {
    let entries = vec![
        ("k".to_string(), Recipe::Never),
        ("l".to_string(), Recipe::Never),
        ("k".to_string(), deferred("Missing")),
    ];
    assert_eq!(
        evaluate_entries(&entries, &vec![]),
        Err(EvalError::MalformedFieldKey { key: "k".to_string() })
    );
}

#[test]
fn keyed_entries_keep_keys_and_order() {
    let entries = vec![("b".to_string(), Recipe::Never), ("a".to_string(), deferred("A"))];
    let host = vec![("A".to_string(), marker("a"))];
    assert_eq!(
        evaluate_entries(&entries, &host),
        Ok(vec![("b".to_string(), TypeInfo::Never), ("a".to_string(), marker("a"))])
    );
}

#[test]
fn repeated_variant_name_in_a_recipe_is_rejected() {
    let entries = vec![
        ("V".to_string(), VariantRecipe::Unit),
        ("V".to_string(), VariantRecipe::Unit),
    ];
    assert_eq!(
        evaluate_variants(&entries, &vec![]),
        Err(EvalError::MalformedFieldKey { key: "V".to_string() })
    );
}

#[test]
fn variants_keep_their_shapes() {
    let host = primitives();
    assert_eq!(evaluate_variant(&VariantRecipe::Unit, &host), Ok(EnumVariant::UnitVariant));
    assert_eq!(
        evaluate_variant(&VariantRecipe::Unnamed { fields: vec![deferred("u8")] }, &host),
        Ok(EnumVariant::UnnamedVariant { fields: vec![TypeInfo::Primitive] })
    );
    assert_eq!(
        evaluate_variant(
            &VariantRecipe::Named { fields: vec![("n".to_string(), deferred("u8"))] },
            &host
        ),
        Ok(EnumVariant::NamedVariant { fields: vec![("n".to_string(), TypeInfo::Primitive)] })
    );
    assert_eq!(
        evaluate_variant(
            &VariantRecipe::Named {
                fields: vec![("n".to_string(), Recipe::Never), ("n".to_string(), Recipe::Never)],
            },
            &host
        ),
        Err(EvalError::MalformedFieldKey { key: "n".to_string() })
    );
}

#[test]
fn borrow_keeps_lifetime_and_mutability() {
    let recipe = Recipe::Pointer(PointerRecipe::Reference {
        lifetime: String::new(),
        element: Box::new(Recipe::Never),
        mutable: false,
    });
    assert_eq!(
        evaluate(&recipe, &vec![]),
        Ok(TypeInfo::Pointer(PointerType::Reference {
            lifetime: String::new(),
            element: Box::new(TypeInfo::Never),
            mutable: false,
        }))
    );
}

#[test]
fn deep_copy_equals_its_source() {
    let info = TypeInfo::Compound(CompoundType::Enum {
        name: "E".to_string(),
        variants: vec![
            (
                "A".to_string(),
                EnumVariant::NamedVariant {
                    fields: vec![(
                        "p".to_string(),
                        TypeInfo::Pointer(PointerType::Reference {
                            lifetime: "'a".to_string(),
                            element: Box::new(point()),
                            mutable: true,
                        }),
                    )],
                },
            ),
            (
                "B".to_string(),
                EnumVariant::UnnamedVariant {
                    fields: vec![
                        TypeInfo::Compound(CompoundType::Array {
                            element: Box::new(TypeInfo::Never),
                            length: 9,
                        }),
                        TypeInfo::Compound(CompoundType::Tuple {
                            elements: vec![marker("m"), TypeInfo::Dyn { bounds: vec![] }],
                        }),
                        TypeInfo::Compound(CompoundType::Slice {
                            element: Box::new(TypeInfo::Primitive),
                        }),
                    ],
                },
            ),
            ("C".to_string(), EnumVariant::UnitVariant),
        ],
    });
    assert_eq!(info.copy(), info);
}

#[test]
fn runs_are_copied_in_order() {
    let infos = vec![marker("a"), TypeInfo::Never, marker("b")];
    assert_eq!(copy_infos(&infos), infos);
    let keyed = vec![("x".to_string(), marker("a")), ("y".to_string(), point())];
    assert_eq!(copy_keyed_infos(&keyed), keyed);
    let variants = vec![
        ("U".to_string(), EnumVariant::UnitVariant),
        ("P".to_string(), EnumVariant::UnnamedVariant { fields: vec![marker("p")] }),
    ];
    assert_eq!(copy_variant_infos(&variants), variants);
}

#[test]
fn descriptor_equals_itself_and_its_copy() {
    let info = TypeInfo::Compound(CompoundType::Tuple {
        elements: vec![point(), marker("m"), TypeInfo::Never, TypeInfo::Primitive],
    });
    assert!(info.same_as(&info));
    assert!(info.same_as(&info.copy()));
    assert!(info.copy().same_as(&info));
}

#[test]
fn descriptors_with_different_tags_differ() {
    let all = vec![
        TypeInfo::Primitive,
        TypeInfo::Never,
        point(),
        TypeInfo::Compound(CompoundType::Enum { name: "Point".to_string(), variants: vec![] }),
        TypeInfo::Compound(CompoundType::Array { element: Box::new(TypeInfo::Never), length: 1 }),
        TypeInfo::Compound(CompoundType::Slice { element: Box::new(TypeInfo::Never) }),
        TypeInfo::Compound(CompoundType::Tuple { elements: vec![TypeInfo::Never] }),
        TypeInfo::Pointer(PointerType::Reference {
            lifetime: String::new(),
            element: Box::new(TypeInfo::Never),
            mutable: false,
        }),
        TypeInfo::Impl { bounds: vec![] },
        TypeInfo::Dyn { bounds: vec![] },
    ];
    for (i, a) in all.iter().enumerate() {
        for (j, b) in all.iter().enumerate() {
            assert_eq!(a.same_as(b), i == j);
            assert_eq!(a.same_as(b), a == b);
        }
    }
}

#[test]
fn descriptors_that_differ_deep_inside_differ() {
    let with = |lifetime: &str, length: usize, mutable: bool, key: &str| {
        TypeInfo::Compound(CompoundType::Struct {
            name: "S".to_string(),
            fields: vec![(
                key.to_string(),
                TypeInfo::Pointer(PointerType::Reference {
                    lifetime: lifetime.to_string(),
                    element: Box::new(TypeInfo::Compound(CompoundType::Array {
                        element: Box::new(TypeInfo::Primitive),
                        length,
                    })),
                    mutable,
                }),
            )],
        })
    };
    let base = with("'a", 3, false, "f");
    assert!(base.same_as(&with("'a", 3, false, "f")));
    assert!(!base.same_as(&with("'b", 3, false, "f")));
    assert!(!base.same_as(&with("'a", 4, false, "f")));
    assert!(!base.same_as(&with("'a", 3, true, "f")));
    assert!(!base.same_as(&with("'a", 3, false, "g")));
}

#[test]
fn variants_compare_by_shape_and_fields() {
    let unit = EnumVariant::UnitVariant;
    let empty_named = EnumVariant::NamedVariant { fields: vec![] };
    let empty_unnamed = EnumVariant::UnnamedVariant { fields: vec![] };
    let one = EnumVariant::UnnamedVariant { fields: vec![TypeInfo::Never] };
    assert!(unit.same_as(&EnumVariant::UnitVariant));
    assert!(!unit.same_as(&empty_named));
    assert!(!empty_named.same_as(&empty_unnamed));
    assert!(!empty_unnamed.same_as(&one));
    assert!(one.same_as(&EnumVariant::UnnamedVariant { fields: vec![TypeInfo::Never] }));
}

#[test]
fn runs_of_different_length_differ() {
    let two = TypeInfo::Compound(CompoundType::Tuple {
        elements: vec![TypeInfo::Never, TypeInfo::Never],
    });
    let three = TypeInfo::Compound(CompoundType::Tuple {
        elements: vec![TypeInfo::Never, TypeInfo::Never, TypeInfo::Never],
    });
    assert!(!two.same_as(&three));
    assert!(!three.same_as(&two));
}
