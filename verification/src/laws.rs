//! What holds of translation and building on every input.

use vstd::prelude::*;
use crate::builder::{
    BuildError, BuildErrorView, descriptor_recipe, field_key, field_recipes, has_key, is_build_of,
    positional_recipes, variant_recipe, variant_recipes,
};
use crate::decimal::{decimal, law_decimal_injective};
use crate::evaluate::{
    DescribeError, EntryPointsView, EvalErrorView, evaluated, is_description_of, evaluated_all, evaluated_compound,
    evaluated_entries, evaluated_variant, evaluated_variants, resolve,
};
use crate::info::{EnumVariantView, TypeInfo, TypeInfoView, keys, mapping};
use crate::recipe::{
    CompoundRecipeView, PointerRecipeView, Recipe, RecipeView, VariantRecipeView,
};
use crate::syntax::{DeclView, Declaration, ExprKind, ExprView, FieldView, FieldsView, VariantView};
use crate::translate::{lifetime_text, translate, translate_all};

verus! {

/// Whether every form inside `e` that translation reaches has a rule.
///
/// Translation reaches the element types of arrays, slices, borrows, tuples
/// and parentheses. It does not look behind a path, a raw pointer or a bound.
pub open spec fn supported(e: ExprView) -> bool
    decreases e,
{
    match e {
        ExprView::Array { elem, .. } => supported(*elem),
        ExprView::Paren { elem } => supported(*elem),
        ExprView::Reference { elem, .. } => supported(*elem),
        ExprView::Slice { elem } => supported(*elem),
        ExprView::Tuple { elems } => forall|i: int|
            0 <= i < elems.len() ==> supported(#[trigger] elems[i]),
        ExprView::Unsupported { .. } => false,
        _ => true,
    }
}

/// A run of expressions translates element by element: on success the result
/// has one recipe per expression, each the translation of the expression at
/// the same place; on failure some expression fails with the reported form,
/// and every expression before it translates.
pub proof fn law_translate_all_elementwise(es: Seq<ExprView>)
    ensures
        match translate_all(es) {
            Ok(rs) => {
                &&& rs.len() == es.len()
                &&& forall|i: int| 0 <= i < es.len() ==> translate(#[trigger] es[i]) == Ok::<RecipeView, ExprKind>(rs[i])
            },
            Err(k) => exists|i: int|
                {
                    &&& 0 <= i < es.len()
                    &&& translate(#[trigger] es[i]) == Err::<RecipeView, ExprKind>(k)
                    &&& forall|j: int| 0 <= j < i ==> translate(#[trigger] es[j]) is Ok
                },
        },
    decreases es.len(),
{
    if es.len() > 0 {
        let front = es.drop_last();
        let last = es.len() - 1;
        law_translate_all_elementwise(front);
        assert forall|j: int| 0 <= j < last implies es[j] == #[trigger] front[j] by {}
        match translate_all(front) {
            Ok(rs) => {
                match translate(es.last()) {
                    Ok(r) => {
                        let all = rs.push(r);
                        assert forall|i: int| 0 <= i < es.len() implies translate(
                            #[trigger] es[i],
                        ) == Ok::<RecipeView, ExprKind>(all[i]) by {
                            if i < last {
                                assert(es[i] == front[i]);
                                assert(all[i] == rs[i]);
                            }
                        }
                    },
                    Err(k) => {
                        assert forall|j: int| 0 <= j < last implies translate(
                            #[trigger] es[j],
                        ) is Ok by {
                            assert(es[j] == front[j]);
                        }
                        assert(translate(es[last]) == Err::<RecipeView, ExprKind>(k));
                    },
                }
            },
            Err(k) => {
                let i = choose|i: int|
                    {
                        &&& 0 <= i < front.len()
                        &&& translate(#[trigger] front[i]) == Err::<RecipeView, ExprKind>(k)
                        &&& forall|j: int| 0 <= j < i ==> translate(#[trigger] front[j]) is Ok
                    };
                assert forall|j: int| 0 <= j < i implies translate(#[trigger] es[j]) is Ok by {
                    assert(es[j] == front[j]);
                }
                assert(es[i] == front[i]);
                assert(translate(es[i]) == Err::<RecipeView, ExprKind>(k));
            },
        }
    }
}

/// Translation succeeds exactly on the expressions in which every form that
/// it reaches has a rule.
pub proof fn law_translate_succeeds_iff_supported(e: ExprView)
    ensures
        translate(e) is Ok <==> supported(e),
    decreases e,
{
    match e {
        ExprView::Array { elem, .. } => law_translate_succeeds_iff_supported(*elem),
        ExprView::Paren { elem } => law_translate_succeeds_iff_supported(*elem),
        ExprView::Reference { elem, .. } => law_translate_succeeds_iff_supported(*elem),
        ExprView::Slice { elem } => law_translate_succeeds_iff_supported(*elem),
        ExprView::Tuple { elems } => {
            law_translate_all_elementwise(elems);
            assert forall|i: int| 0 <= i < elems.len() implies (translate(#[trigger] elems[i]) is Ok
                <==> supported(elems[i])) by {
                law_translate_succeeds_iff_supported(elems[i]);
            }
        },
        _ => {},
    }
}

/// Shape fidelity: the tag of a translation is the one that belongs to the
/// form of the expression, it carries that form's own data unchanged, and
/// what is nested in it is the translation of what is nested in the
/// expression.
pub proof fn law_shape_fidelity(e: ExprView)
    requires
        translate(e) is Ok,
    ensures
        match e {
            ExprView::Array { elem, len } => {
                &&& translate(e)->Ok_0 matches RecipeView::Compound(
                    CompoundRecipeView::Array { element, length },
                )
                &&& length == len
                &&& translate(*elem) == Ok::<RecipeView, ExprKind>(*element)
            },
            ExprView::Paren { elem } => translate(e) == translate(*elem),
            ExprView::Never => translate(e)->Ok_0 == RecipeView::Never,
            ExprView::Path { name } => translate(e)->Ok_0 == (RecipeView::Deferred { target: name }),
            ExprView::Ptr { pointee } => translate(e)->Ok_0 == (RecipeView::Deferred {
                target: pointee,
            }),
            ExprView::ImplTrait { bounds } => translate(e)->Ok_0 == (RecipeView::Impl { bounds }),
            ExprView::TraitObject { bounds } => translate(e)->Ok_0 == (RecipeView::Dyn { bounds }),
            ExprView::Reference { lifetime, elem, mutable } => {
                &&& translate(e)->Ok_0 matches RecipeView::Pointer(
                    PointerRecipeView::Reference { lifetime: text, element, mutable: m },
                )
                &&& text == lifetime_text(lifetime)
                &&& m == mutable
                &&& translate(*elem) == Ok::<RecipeView, ExprKind>(*element)
            },
            ExprView::Slice { elem } => {
                &&& translate(e)->Ok_0 matches RecipeView::Compound(
                    CompoundRecipeView::Slice { element },
                )
                &&& translate(*elem) == Ok::<RecipeView, ExprKind>(*element)
            },
            ExprView::Tuple { elems } => {
                &&& translate(e)->Ok_0 matches RecipeView::Compound(
                    CompoundRecipeView::Tuple { elements },
                )
                &&& elements.len() == elems.len()
                &&& forall|i: int|
                    0 <= i < elems.len() ==> translate(#[trigger] elems[i]) == Ok::<
                        RecipeView,
                        ExprKind,
                    >(elements[i])
            },
            ExprView::Unsupported { .. } => false,
        },
{
    match e {
        ExprView::Tuple { elems } => law_translate_all_elementwise(elems),
        _ => {},
    }
}

/// The keys of a field list, field by field.
pub open spec fn field_keys(fs: Seq<FieldView>) -> Seq<Seq<char>> {
    Seq::new(fs.len(), |i: int| field_key(fs[i].ident, i as nat))
}

/// A keyed field list is built field by field. It is built exactly when no
/// key occurs twice and every field type translates. Then there is one entry
/// per field, in declaration order: the field's key with the translation of
/// the field's type. A failure names the variant that was handed in.
pub proof fn law_field_recipes(variant: Option<Seq<char>>, fs: Seq<FieldView>)
    ensures
        field_recipes(variant, fs) is Ok <==> {
            &&& field_keys(fs).no_duplicates()
            &&& forall|i: int| 0 <= i < fs.len() ==> translate((#[trigger] fs[i]).ty) is Ok
        },
        match field_recipes(variant, fs) {
            Ok(rs) => {
                &&& rs.len() == fs.len()
                &&& forall|i: int|
                    0 <= i < fs.len() ==> {
                        &&& (#[trigger] rs[i]).0 == field_keys(fs)[i]
                        &&& translate(fs[i].ty) == Ok::<RecipeView, ExprKind>(rs[i].1)
                    }
            },
            Err(BuildErrorView::MalformedFieldKey { variant: v, key }) => {
                &&& v == variant
                &&& exists|i: int, j: int|
                    0 <= i < j < fs.len() && #[trigger] field_keys(fs)[i] == key
                        && #[trigger] field_keys(fs)[j] == key
            },
            Err(BuildErrorView::UnsupportedTypeExpression { variant: v, field, kind }) => {
                &&& v == variant
                &&& exists|i: int|
                    0 <= i < fs.len() && #[trigger] field_keys(fs)[i] == field && translate(
                        fs[i].ty,
                    ) == Err::<RecipeView, ExprKind>(kind)
            },
            Err(BuildErrorView::UnsupportedDeclarationKind { .. }) => false,
        },
    decreases fs.len(),
{
    if fs.len() > 0 {
        let front = fs.drop_last();
        let last = fs.len() - 1;
        let keys = field_keys(fs);
        law_field_recipes(variant, front);
        assert forall|j: int| 0 <= j < last implies #[trigger] field_keys(front)[j] == keys[j] by {
            assert(front[j] == fs[j]);
        }
        assert forall|j: int| 0 <= j < last implies (#[trigger] front[j]).ty == fs[j].ty by {}
        match field_recipes(variant, front) {
            Ok(done) => {
                let key = keys[last];
                if has_key(done, key) {
                    let i = choose|i: int| 0 <= i < done.len() && (#[trigger] done[i]).0 == key;
                    assert(keys[i] == key && keys[last] == key);
                    assert(!keys.no_duplicates());
                } else {
                    assert forall|i: int, j: int|
                        0 <= i < keys.len() && 0 <= j < keys.len() && i != j implies keys[i]
                        != keys[j] by {
                        if i < last && j < last {
                            assert(field_keys(front)[i] != field_keys(front)[j]);
                        } else if i < last {
                            assert(done[i].0 == keys[i]);
                        } else {
                            assert(done[j].0 == keys[j]);
                        }
                    }
                    match translate(fs[last].ty) {
                        Ok(r) => {
                            let all = done.push((key, r));
                            assert forall|i: int| 0 <= i < fs.len() implies {
                                &&& (#[trigger] all[i]).0 == keys[i]
                                &&& translate(fs[i].ty) == Ok::<RecipeView, ExprKind>(all[i].1)
                            } by {
                                if i < last {
                                    assert(all[i] == done[i]);
                                    assert(fs[i] == front[i]);
                                }
                            }
                            assert forall|i: int| 0 <= i < fs.len() implies translate(
                                (#[trigger] fs[i]).ty,
                            ) is Ok by {
                                if i < last {
                                    assert(fs[i] == front[i]);
                                }
                            }
                        },
                        Err(kind) => {
                            assert(keys[last] == key);
                        },
                    }
                }
            },
            Err(e) => {
                match e {
                    BuildErrorView::MalformedFieldKey { variant: v, key } => {
                        let (i, j) = choose|i: int, j: int|
                            0 <= i < j < front.len() && #[trigger] field_keys(front)[i] == key
                                && #[trigger] field_keys(front)[j] == key;
                        assert(keys[i] == key && keys[j] == key);
                    },
                    BuildErrorView::UnsupportedTypeExpression { variant: v, field, kind } => {
                        let i = choose|i: int|
                            0 <= i < front.len() && #[trigger] field_keys(front)[i] == field
                                && translate(front[i].ty) == Err::<RecipeView, ExprKind>(kind);
                        assert(keys[i] == field);
                        assert(fs[i] == front[i]);
                    },
                    _ => {},
                }
                if field_keys(front).no_duplicates() {
                    let i = choose|i: int| 0 <= i < front.len() && !(translate(
                        (#[trigger] front[i]).ty,
                    ) is Ok);
                    assert(fs[i] == front[i]);
                } else {
                    let (i, j) = choose|i: int, j: int|
                        0 <= i < field_keys(front).len() && 0 <= j < field_keys(front).len() && i
                            != j && field_keys(front)[i] == field_keys(front)[j];
                    assert(keys[i] == keys[j]);
                }
            },
        }
    } else {
        assert(field_keys(fs).no_duplicates());
    }
}

/// A positional field list is built field by field. It is built exactly when
/// every field type translates. Then there is one recipe per field, in
/// declaration order: the translation of the field's type. A failure names
/// the variant that was handed in and the first field whose type has no
/// translation.
pub proof fn law_positional_recipes(variant: Option<Seq<char>>, fs: Seq<FieldView>)
    ensures
        positional_recipes(variant, fs) is Ok <==> forall|i: int|
            0 <= i < fs.len() ==> translate((#[trigger] fs[i]).ty) is Ok,
        match positional_recipes(variant, fs) {
            Ok(rs) => {
                &&& rs.len() == fs.len()
                &&& forall|i: int|
                    0 <= i < fs.len() ==> translate((#[trigger] fs[i]).ty) == Ok::<
                        RecipeView,
                        ExprKind,
                    >(rs[i])
            },
            Err(BuildErrorView::UnsupportedTypeExpression { variant: v, field, kind }) => {
                &&& v == variant
                &&& exists|i: int|
                    {
                        &&& 0 <= i < fs.len()
                        &&& #[trigger] field_keys(fs)[i] == field
                        &&& translate(fs[i].ty) == Err::<RecipeView, ExprKind>(kind)
                        &&& forall|j: int| 0 <= j < i ==> translate((#[trigger] fs[j]).ty) is Ok
                    }
            },
            Err(_) => false,
        },
    decreases fs.len(),
{
    if fs.len() > 0 {
        let front = fs.drop_last();
        let last = fs.len() - 1;
        let keys = field_keys(fs);
        law_positional_recipes(variant, front);
        assert forall|j: int| 0 <= j < last implies #[trigger] field_keys(front)[j] == keys[j] by {
            assert(front[j] == fs[j]);
        }
        match positional_recipes(variant, front) {
            Ok(done) => {
                assert forall|j: int| 0 <= j < last implies translate((#[trigger] fs[j]).ty) is Ok by {
                    assert(fs[j] == front[j]);
                }
                match translate(fs[last].ty) {
                    Ok(r) => {
                        let all = done.push(r);
                        assert forall|i: int| 0 <= i < fs.len() implies translate(
                            (#[trigger] fs[i]).ty,
                        ) == Ok::<RecipeView, ExprKind>(all[i]) by {
                            if i < last {
                                assert(all[i] == done[i]);
                                assert(fs[i] == front[i]);
                            }
                        }
                    },
                    Err(kind) => {
                        assert(keys[last] == field_key(fs[last].ident, last as nat));
                    },
                }
            },
            Err(e) => {
                match e {
                    BuildErrorView::UnsupportedTypeExpression { variant: v, field, kind } => {
                        let i = choose|i: int|
                            {
                                &&& 0 <= i < front.len()
                                &&& #[trigger] field_keys(front)[i] == field
                                &&& translate(front[i].ty) == Err::<RecipeView, ExprKind>(kind)
                                &&& forall|j: int|
                                    0 <= j < i ==> translate((#[trigger] front[j]).ty) is Ok
                            };
                        assert(keys[i] == field);
                        assert(fs[i] == front[i]);
                        assert forall|j: int| 0 <= j < i implies translate(
                            (#[trigger] fs[j]).ty,
                        ) is Ok by {
                            assert(fs[j] == front[j]);
                        }
                    },
                    _ => {},
                }
            },
        }
    }
}

/// Positions never collide: where no field of a list has a name, no key
/// occurs twice, so building the keyed list can fail only on a field type.
pub proof fn law_positional_keys_distinct(variant: Option<Seq<char>>, fs: Seq<FieldView>)
    requires
        forall|i: int| 0 <= i < fs.len() ==> (#[trigger] fs[i]).ident is None,
    ensures
        field_keys(fs).no_duplicates(),
        forall|i: int| 0 <= i < fs.len() ==> #[trigger] field_keys(fs)[i] == decimal(i as nat),
        !(field_recipes(variant, fs) matches Err(BuildErrorView::MalformedFieldKey { .. })),
{
    let keys = field_keys(fs);
    assert forall|i: int| 0 <= i < fs.len() implies #[trigger] keys[i] == decimal(i as nat) by {
        assert(fs[i].ident is None);
    }
    assert forall|i: int, j: int|
        0 <= i < keys.len() && 0 <= j < keys.len() && i != j implies keys[i] != keys[j] by {
        if keys[i] == keys[j] {
            law_decimal_injective(i as nat, j as nat);
        }
    }
    law_field_recipes(variant, fs);
}

/// Leaves stay deferred: a field whose type is a plain path gets a call to
/// the entry point of the type that the path names, never a shape made up in
/// its place.
pub proof fn law_leaf_fields_deferred(variant: Option<Seq<char>>, fs: Seq<FieldView>, i: int)
    requires
        0 <= i < fs.len(),
        field_recipes(variant, fs) is Ok,
        fs[i].ty is Path,
    ensures
        field_recipes(variant, fs)->Ok_0[i].1 == (RecipeView::Deferred {
            target: fs[i].ty->name,
        }),
{
    law_field_recipes(variant, fs);
}

/// The names of an enum's variants, variant by variant.
pub open spec fn variant_names(vs: Seq<VariantView>) -> Seq<Seq<char>> {
    Seq::new(vs.len(), |i: int| vs[i].ident)
}

/// The recipe of a variant has the shape of the variant's field list.
pub proof fn law_variant_shape(v: VariantView)
    ensures
        match variant_recipe(v) {
            Ok(r) => match v.fields {
                FieldsView::Named(fs) => r matches VariantRecipeView::Named { fields }
                    && field_recipes(Some(v.ident), fs) == Ok::<
                    Seq<(Seq<char>, RecipeView)>,
                    BuildErrorView,
                >(fields),
                FieldsView::Unnamed(fs) => r matches VariantRecipeView::Unnamed { fields }
                    && positional_recipes(Some(v.ident), fs) == Ok::<
                    Seq<RecipeView>,
                    BuildErrorView,
                >(fields),
                FieldsView::Unit => r is Unit,
            },
            Err(e) => !(v.fields is Unit) && !(e is UnsupportedDeclarationKind),
        },
{
    match v.fields {
        FieldsView::Named(fs) => law_field_recipes(Some(v.ident), fs),
        FieldsView::Unnamed(fs) => law_positional_recipes(Some(v.ident), fs),
        FieldsView::Unit => {},
    }
}

/// Variant completeness. The variants of an enum are built exactly when no
/// variant name occurs twice and every variant can be built. Then there is
/// one entry per variant, in declaration order: the variant's name with the
/// recipe of that variant, which has the shape of the variant's field list.
pub proof fn law_variant_completeness(vs: Seq<VariantView>)
    ensures
        variant_recipes(vs) is Ok <==> {
            &&& variant_names(vs).no_duplicates()
            &&& forall|i: int| 0 <= i < vs.len() ==> variant_recipe(#[trigger] vs[i]) is Ok
        },
        variant_recipes(vs) matches Ok(rs) ==> {
            &&& rs.len() == vs.len()
            &&& forall|i: int|
                0 <= i < vs.len() ==> {
                    &&& (#[trigger] rs[i]).0 == vs[i].ident
                    &&& variant_recipe(vs[i]) == Ok::<VariantRecipeView, BuildErrorView>(rs[i].1)
                    &&& vs[i].fields is Named <==> rs[i].1 is Named
                    &&& vs[i].fields is Unnamed <==> rs[i].1 is Unnamed
                    &&& vs[i].fields is Unit <==> rs[i].1 is Unit
                }
        },
    decreases vs.len(),
{
    if vs.len() > 0 {
        let front = vs.drop_last();
        let last = vs.len() - 1;
        let names = variant_names(vs);
        law_variant_completeness(front);
        assert forall|j: int| 0 <= j < last implies #[trigger] variant_names(front)[j]
            == names[j] by {
            assert(front[j] == vs[j]);
        }
        match variant_recipes(front) {
            Ok(done) => {
                let key = names[last];
                if has_key(done, key) {
                    let i = choose|i: int| 0 <= i < done.len() && (#[trigger] done[i]).0 == key;
                    assert(front[i] == vs[i]);
                    assert(names[i] == key && names[last] == key);
                    assert(!names.no_duplicates());
                } else {
                    assert forall|i: int, j: int|
                        0 <= i < names.len() && 0 <= j < names.len() && i != j implies names[i]
                        != names[j] by {
                        if i < last && j < last {
                            assert(variant_names(front)[i] != variant_names(front)[j]);
                        } else if i < last {
                            assert(done[i].0 == front[i].ident);
                            assert(front[i] == vs[i]);
                        } else {
                            assert(done[j].0 == front[j].ident);
                            assert(front[j] == vs[j]);
                        }
                    }
                    match variant_recipe(vs[last]) {
                        Ok(r) => {
                            let all = done.push((key, r));
                            law_variant_shape(vs[last]);
                            assert forall|i: int| 0 <= i < vs.len() implies {
                                &&& (#[trigger] all[i]).0 == vs[i].ident
                                &&& variant_recipe(vs[i]) == Ok::<
                                    VariantRecipeView,
                                    BuildErrorView,
                                >(all[i].1)
                                &&& vs[i].fields is Named <==> all[i].1 is Named
                                &&& vs[i].fields is Unnamed <==> all[i].1 is Unnamed
                                &&& vs[i].fields is Unit <==> all[i].1 is Unit
                            } by {
                                if i < last {
                                    assert(all[i] == done[i]);
                                    assert(vs[i] == front[i]);
                                }
                            }
                            assert forall|i: int| 0 <= i < vs.len() implies variant_recipe(
                                #[trigger] vs[i],
                            ) is Ok by {
                                if i < last {
                                    assert(vs[i] == front[i]);
                                }
                            }
                        },
                        Err(e) => {},
                    }
                }
            },
            Err(e) => {
                if variant_names(front).no_duplicates() {
                    let i = choose|i: int| 0 <= i < front.len() && !(variant_recipe(
                        #[trigger] front[i],
                    ) is Ok);
                    assert(vs[i] == front[i]);
                } else {
                    let (i, j) = choose|i: int, j: int|
                        0 <= i < variant_names(front).len() && 0 <= j < variant_names(front).len()
                            && i != j && variant_names(front)[i] == variant_names(front)[j];
                    assert(names[i] == names[j]);
                }
            },
        }
    } else {
        assert(variant_names(vs).no_duplicates());
    }
}

/// The descriptor recipe of a declaration: a struct gives a struct recipe
/// under the struct's name, an enum an enum recipe under the enum's name, each
/// over the entries of its fields or variants; any other declaration gives
/// `UnsupportedDeclarationKind` with its kind and name, and nothing else does.
pub proof fn law_descriptor_recipe(d: DeclView)
    ensures
        match d {
            DeclView::Struct { ident, fields } => match descriptor_recipe(d) {
                Ok(r) => r matches RecipeView::Compound(
                    CompoundRecipeView::Struct { name, fields: entries },
                ) && name == ident && field_recipes(None, fields.list()) == Ok::<
                    Seq<(Seq<char>, RecipeView)>,
                    BuildErrorView,
                >(entries),
                Err(e) => field_recipes(None, fields.list()) == Err::<
                    Seq<(Seq<char>, RecipeView)>,
                    BuildErrorView,
                >(e) && !(e is UnsupportedDeclarationKind),
            },
            DeclView::Enum { ident, variants } => match descriptor_recipe(d) {
                Ok(r) => r matches RecipeView::Compound(
                    CompoundRecipeView::Enum { name, variants: entries },
                ) && name == ident && variant_recipes(variants) == Ok::<
                    Seq<(Seq<char>, VariantRecipeView)>,
                    BuildErrorView,
                >(entries),
                Err(e) => variant_recipes(variants) == Err::<
                    Seq<(Seq<char>, VariantRecipeView)>,
                    BuildErrorView,
                >(e) && !(e is UnsupportedDeclarationKind),
            },
            DeclView::Other { kind, ident } => descriptor_recipe(d) == Err::<
                RecipeView,
                BuildErrorView,
            >(BuildErrorView::UnsupportedDeclarationKind { kind, ident }),
        },
{
    match d {
        DeclView::Struct { ident, fields } => law_field_recipes(None, fields.list()),
        DeclView::Enum { ident, variants } => law_variants_never_unsupported_kind(variants),
        DeclView::Other { .. } => {},
    }
}

/// Building the variants of an enum never reports an unsupported kind of
/// declaration.
pub proof fn law_variants_never_unsupported_kind(vs: Seq<VariantView>)
    ensures
        !(variant_recipes(vs) matches Err(BuildErrorView::UnsupportedDeclarationKind { .. })),
    decreases vs.len(),
{
    if vs.len() > 0 {
        law_variants_never_unsupported_kind(vs.drop_last());
        law_variant_shape(vs.last());
    }
}

/// Building is a function of the declaration: two results for the same
/// declaration are both recipes of the same value, or both failures of the
/// same value.
pub proof fn law_build_deterministic(
    decl: Declaration,
    first: Result<Recipe, BuildError>,
    second: Result<Recipe, BuildError>,
)
    requires
        is_build_of(decl@, first),
        is_build_of(decl@, second),
    ensures
        match (first, second) {
            (Ok(a), Ok(b)) => a@ == b@,
            (Err(a), Err(b)) => a@ == b@,
            _ => false,
        },
{
}

/// Whether every supplied descriptor is well formed.
pub open spec fn host_wf(host: EntryPointsView) -> bool {
    forall|i: int| 0 <= i < host.len() ==> (#[trigger] host[i]).1.wf()
}

/// What is looked up is one of the supplied descriptors.
pub proof fn law_resolve_supplied(host: EntryPointsView, target: Seq<char>)
    ensures
        match resolve(host, target) {
            Some(info) => exists|i: int|
                0 <= i < host.len() && (#[trigger] host[i]).0 == target && host[i].1 == info,
            None => forall|i: int| 0 <= i < host.len() ==> (#[trigger] host[i]).0 != target,
        },
    decreases host.len(),
{
    if host.len() > 0 {
        if host.first().0 == target {
            assert(host[0].0 == target && host[0].1 == host.first().1);
        } else {
            let rest = host.drop_first();
            law_resolve_supplied(rest, target);
            match resolve(rest, target) {
                Some(info) => {
                    let i = choose|i: int|
                        0 <= i < rest.len() && (#[trigger] rest[i]).0 == target && rest[i].1
                            == info;
                    assert(host[i + 1] == rest[i]);
                },
                None => {
                    assert forall|i: int| 0 <= i < host.len() implies (#[trigger] host[i]).0
                        != target by {
                        if i > 0 {
                            assert(host[i] == rest[i - 1]);
                        }
                    }
                },
            }
        }
    }
}

/// Carrying out a recipe over well-formed descriptors gives a well-formed
/// descriptor: no key occurs twice in any of its mappings.
pub proof fn law_evaluated_wf(r: RecipeView, host: EntryPointsView)
    requires
        host_wf(host),
    ensures
        evaluated(r, host) matches Ok(info) ==> info.wf(),
    decreases r,
{
    match r {
        RecipeView::Deferred { target } => law_resolve_supplied(host, target),
        RecipeView::Compound(c) => law_evaluated_compound_wf(c, host),
        RecipeView::Pointer(PointerRecipeView::Reference { element, .. }) => law_evaluated_wf(
            *element,
            host,
        ),
        _ => {},
    }
}

/// The aggregate case of [`law_evaluated_wf`].
pub proof fn law_evaluated_compound_wf(c: CompoundRecipeView, host: EntryPointsView)
    requires
        host_wf(host),
    ensures
        evaluated_compound(c, host) matches Ok(info) ==> info.wf(),
    decreases c,
{
    match c {
        CompoundRecipeView::Struct { fields, .. } => law_evaluated_entries_wf(fields, host),
        CompoundRecipeView::Enum { variants, .. } => law_evaluated_variants_wf(variants, host),
        CompoundRecipeView::Array { element, .. } => law_evaluated_wf(*element, host),
        CompoundRecipeView::Slice { element } => law_evaluated_wf(*element, host),
        CompoundRecipeView::Tuple { elements } => law_evaluated_all_wf(elements, host),
    }
}

/// The variant case of [`law_evaluated_wf`].
pub proof fn law_evaluated_variant_wf(v: VariantRecipeView, host: EntryPointsView)
    requires
        host_wf(host),
    ensures
        evaluated_variant(v, host) matches Ok(info) ==> info.wf(),
    decreases v,
{
    match v {
        VariantRecipeView::Named { fields } => law_evaluated_entries_wf(fields, host),
        VariantRecipeView::Unnamed { fields } => law_evaluated_all_wf(fields, host),
        VariantRecipeView::Unit => {},
    }
}

/// A run of recipes is carried out recipe by recipe, each to a well-formed
/// descriptor.
pub proof fn law_evaluated_all_wf(rs: Seq<RecipeView>, host: EntryPointsView)
    requires
        host_wf(host),
    ensures
        evaluated_all(rs, host) matches Ok(infos) ==> {
            &&& infos.len() == rs.len()
            &&& forall|i: int|
                0 <= i < rs.len() ==> (#[trigger] infos[i]).wf() && evaluated(rs[i], host) == Ok::<
                    TypeInfoView,
                    EvalErrorView,
                >(infos[i])
        },
    decreases rs,
{
    if rs.len() > 0 {
        let front = rs.drop_last();
        law_evaluated_all_wf(front, host);
        law_evaluated_wf(rs.last(), host);
        if let Ok(done) = evaluated_all(front, host) {
            if let Ok(info) = evaluated(rs.last(), host) {
                let all = done.push(info);
                assert forall|i: int| 0 <= i < rs.len() implies (#[trigger] all[i]).wf()
                    && evaluated(rs[i], host) == Ok::<TypeInfoView, EvalErrorView>(all[i]) by {
                    if i < rs.len() - 1 {
                        assert(all[i] == done[i]);
                        assert(rs[i] == front[i]);
                    }
                }
            }
        }
    }
}

/// A run of keyed recipes is carried out entry by entry, each under its own
/// key to a well-formed descriptor, and no key occurs twice in the result.
pub proof fn law_evaluated_entries_wf(rs: Seq<(Seq<char>, RecipeView)>, host: EntryPointsView)
    requires
        host_wf(host),
    ensures
        evaluated_entries(rs, host) matches Ok(infos) ==> {
            &&& infos.len() == rs.len()
            &&& keys(infos).no_duplicates()
            &&& forall|i: int|
                0 <= i < rs.len() ==> {
                    &&& (#[trigger] infos[i]).0 == rs[i].0
                    &&& infos[i].1.wf()
                    &&& evaluated(rs[i].1, host) == Ok::<TypeInfoView, EvalErrorView>(infos[i].1)
                }
        },
    decreases rs,
{
    if rs.len() > 0 {
        let front = rs.drop_last();
        let last = rs.len() - 1;
        law_evaluated_entries_wf(front, host);
        law_evaluated_wf(rs.last().1, host);
        if let Ok(done) = evaluated_entries(front, host) {
            let key = rs.last().0;
            if !has_key(done, key) {
                if let Ok(info) = evaluated(rs.last().1, host) {
                    let all = done.push((key, info));
                    assert forall|i: int| 0 <= i < rs.len() implies {
                        &&& (#[trigger] all[i]).0 == rs[i].0
                        &&& all[i].1.wf()
                        &&& evaluated(rs[i].1, host) == Ok::<TypeInfoView, EvalErrorView>(
                            all[i].1,
                        )
                    } by {
                        if i < last {
                            assert(all[i] == done[i]);
                            assert(rs[i] == front[i]);
                        }
                    }
                    assert forall|i: int, j: int|
                        0 <= i < all.len() && 0 <= j < all.len() && i != j implies keys(all)[i]
                        != keys(all)[j] by {
                        if i < last && j < last {
                            assert(keys(done)[i] != keys(done)[j]);
                        } else if i < last {
                            assert(done[i].0 != key);
                        } else {
                            assert(done[j].0 != key);
                        }
                    }
                }
            }
        }
    } else {
        assert(keys(Seq::<(Seq<char>, TypeInfoView)>::empty()).no_duplicates());
    }
}

/// A run of named variant recipes is carried out entry by entry, each under
/// its own name to a well-formed descriptor, and no name occurs twice in the
/// result.
pub proof fn law_evaluated_variants_wf(
    rs: Seq<(Seq<char>, VariantRecipeView)>,
    host: EntryPointsView,
)
    requires
        host_wf(host),
    ensures
        evaluated_variants(rs, host) matches Ok(infos) ==> {
            &&& infos.len() == rs.len()
            &&& keys(infos).no_duplicates()
            &&& forall|i: int|
                0 <= i < rs.len() ==> {
                    &&& (#[trigger] infos[i]).0 == rs[i].0
                    &&& infos[i].1.wf()
                    &&& evaluated_variant(rs[i].1, host) == Ok::<EnumVariantView, EvalErrorView>(
                        infos[i].1,
                    )
                }
        },
    decreases rs,
{
    if rs.len() > 0 {
        let front = rs.drop_last();
        let last = rs.len() - 1;
        law_evaluated_variants_wf(front, host);
        law_evaluated_variant_wf(rs.last().1, host);
        if let Ok(done) = evaluated_variants(front, host) {
            let key = rs.last().0;
            if !has_key(done, key) {
                if let Ok(info) = evaluated_variant(rs.last().1, host) {
                    let all = done.push((key, info));
                    assert forall|i: int| 0 <= i < rs.len() implies {
                        &&& (#[trigger] all[i]).0 == rs[i].0
                        &&& all[i].1.wf()
                        &&& evaluated_variant(rs[i].1, host) == Ok::<
                            EnumVariantView,
                            EvalErrorView,
                        >(all[i].1)
                    } by {
                        if i < last {
                            assert(all[i] == done[i]);
                            assert(rs[i] == front[i]);
                        }
                    }
                    assert forall|i: int, j: int|
                        0 <= i < all.len() && 0 <= j < all.len() && i != j implies keys(all)[i]
                        != keys(all)[j] by {
                        if i < last && j < last {
                            assert(keys(done)[i] != keys(done)[j]);
                        } else if i < last {
                            assert(done[i].0 != key);
                        } else {
                            assert(done[j].0 != key);
                        }
                    }
                }
            }
        }
    } else {
        assert(keys(Seq::<(Seq<char>, EnumVariantView)>::empty()).no_duplicates());
    }
}

/// Entries with distinct keys are a mapping: looking a key up among them
/// gives what the mapping holds under that key, and nothing for a key outside
/// the mapping.
pub proof fn law_resolve_is_mapping(entries: EntryPointsView, key: Seq<char>)
    requires
        keys(entries).no_duplicates(),
    ensures
        resolve(entries, key) == if mapping(entries).dom().contains(key) {
            Some(mapping(entries)[key])
        } else {
            None
        },
{
    law_resolve_supplied(entries, key);
    match resolve(entries, key) {
        Some(info) => {
            let i = choose|i: int|
                0 <= i < entries.len() && (#[trigger] entries[i]).0 == key && entries[i].1 == info;
            assert(keys(entries)[i] == key);
            let j = keys(entries).index_of(key);
            assert(keys(entries)[j] == key);
            assert(i == j);
        },
        None => {
            if keys(entries).contains(key) {
                let j = choose|j: int| 0 <= j < keys(entries).len() && keys(entries)[j] == key;
                assert(entries[j].0 == key);
            }
        },
    }
}

/// Describing is a function of the declaration and the supplied descriptors:
/// two results for the same inputs are both descriptors of the same value, or
/// both faults of the same value.
pub proof fn law_describe_deterministic(
    decl: Declaration,
    host: EntryPointsView,
    first: Result<TypeInfo, DescribeError>,
    second: Result<TypeInfo, DescribeError>,
)
    requires
        is_description_of(decl@, host, first),
        is_description_of(decl@, host, second),
    ensures
        match (first, second) {
            (Ok(a), Ok(b)) => a@ == b@,
            (Err(DescribeError::Build(a)), Err(DescribeError::Build(b))) => a@ == b@,
            (Err(DescribeError::Evaluate(a)), Err(DescribeError::Evaluate(b))) => a@ == b@,
            _ => false,
        },
{
}

/// A run of recipes that cannot be carried out fails as one of its recipes.
pub proof fn law_evaluated_all_failure(rs: Seq<RecipeView>, host: EntryPointsView)
    ensures
        evaluated_all(rs, host) matches Err(e) ==> exists|i: int|
            0 <= i < rs.len() && evaluated(#[trigger] rs[i], host) == Err::<
                TypeInfoView,
                EvalErrorView,
            >(e),
    decreases rs.len(),
{
    if rs.len() > 0 {
        let front = rs.drop_last();
        law_evaluated_all_failure(front, host);
        match evaluated_all(front, host) {
            Err(e) => {
                let i = choose|i: int|
                    0 <= i < front.len() && evaluated(#[trigger] front[i], host) == Err::<
                        TypeInfoView,
                        EvalErrorView,
                    >(e);
                assert(rs[i] == front[i]);
            },
            Ok(_) => {
                if let Err(e) = evaluated(rs.last(), host) {
                    assert(evaluated(rs[rs.len() - 1], host) == Err::<TypeInfoView, EvalErrorView>(e));
                }
            },
        }
    }
}

/// A run of keyed recipes that cannot be carried out either repeats a key,
/// and says so, or fails as one of its recipes.
pub proof fn law_evaluated_entries_failure(
    rs: Seq<(Seq<char>, RecipeView)>,
    host: EntryPointsView,
)
    ensures
        evaluated_entries(rs, host) matches Err(e) ==> {
            ||| e is MalformedFieldKey && !keys(rs).no_duplicates()
            ||| exists|i: int|
                0 <= i < rs.len() && evaluated((#[trigger] rs[i]).1, host) == Err::<
                    TypeInfoView,
                    EvalErrorView,
                >(e)
        },
        evaluated_entries(rs, host) matches Ok(infos) ==> keys(infos) == keys(rs),
    decreases rs.len(),
{
    if rs.len() > 0 {
        let front = rs.drop_last();
        let last = rs.len() - 1;
        law_evaluated_entries_failure(front, host);
        assert forall|j: int| 0 <= j < last implies #[trigger] keys(front)[j] == keys(rs)[j] by {
            assert(front[j] == rs[j]);
        }
        match evaluated_entries(front, host) {
            Err(e) => {
                if e is MalformedFieldKey && !keys(front).no_duplicates() {
                    let (i, j) = choose|i: int, j: int|
                        0 <= i < keys(front).len() && 0 <= j < keys(front).len() && i != j && keys(
                            front,
                        )[i] == keys(front)[j];
                    assert(keys(rs)[i] == keys(rs)[j]);
                } else {
                    let i = choose|i: int|
                        0 <= i < front.len() && evaluated((#[trigger] front[i]).1, host) == Err::<
                            TypeInfoView,
                            EvalErrorView,
                        >(e);
                    assert(rs[i] == front[i]);
                }
            },
            Ok(done) => {
                let key = rs.last().0;
                if has_key(done, key) {
                    let i = choose|i: int| 0 <= i < done.len() && (#[trigger] done[i]).0 == key;
                    assert(keys(done)[i] == key);
                    assert(keys(rs)[i] == key && keys(rs)[last] == key);
                } else {
                    match evaluated(rs.last().1, host) {
                        Err(e) => {
                            assert(evaluated(rs[last].1, host) == Err::<
                                TypeInfoView,
                                EvalErrorView,
                            >(e));
                        },
                        Ok(info) => {
                            let all = done.push((key, info));
                            assert forall|i: int| 0 <= i < rs.len() implies keys(all)[i] == keys(
                                rs,
                            )[i] by {
                                if i < last {
                                    assert(all[i] == done[i]);
                                    assert(keys(done)[i] == keys(front)[i]);
                                    assert(front[i] == rs[i]);
                                }
                            }
                            assert(keys(all) =~= keys(rs));
                        },
                    }
                }
            },
        }
    } else {
        assert(keys(Seq::<(Seq<char>, TypeInfoView)>::empty()) =~= keys(rs));
    }
}

/// A run of named variant recipes that cannot be carried out either repeats
/// a name, and says so, or fails as one of its recipes.
pub proof fn law_evaluated_variants_failure(
    rs: Seq<(Seq<char>, VariantRecipeView)>,
    host: EntryPointsView,
)
    ensures
        evaluated_variants(rs, host) matches Err(e) ==> {
            ||| e is MalformedFieldKey && !keys(rs).no_duplicates()
            ||| exists|i: int|
                0 <= i < rs.len() && evaluated_variant((#[trigger] rs[i]).1, host) == Err::<
                    EnumVariantView,
                    EvalErrorView,
                >(e)
        },
        evaluated_variants(rs, host) matches Ok(infos) ==> keys(infos) == keys(rs),
    decreases rs.len(),
{
    if rs.len() > 0 {
        let front = rs.drop_last();
        let last = rs.len() - 1;
        law_evaluated_variants_failure(front, host);
        assert forall|j: int| 0 <= j < last implies #[trigger] keys(front)[j] == keys(rs)[j] by {
            assert(front[j] == rs[j]);
        }
        match evaluated_variants(front, host) {
            Err(e) => {
                if e is MalformedFieldKey && !keys(front).no_duplicates() {
                    let (i, j) = choose|i: int, j: int|
                        0 <= i < keys(front).len() && 0 <= j < keys(front).len() && i != j && keys(
                            front,
                        )[i] == keys(front)[j];
                    assert(keys(rs)[i] == keys(rs)[j]);
                } else {
                    let i = choose|i: int|
                        0 <= i < front.len() && evaluated_variant((#[trigger] front[i]).1, host)
                            == Err::<EnumVariantView, EvalErrorView>(e);
                    assert(rs[i] == front[i]);
                }
            },
            Ok(done) => {
                let key = rs.last().0;
                if has_key(done, key) {
                    let i = choose|i: int| 0 <= i < done.len() && (#[trigger] done[i]).0 == key;
                    assert(keys(done)[i] == key);
                    assert(keys(rs)[i] == key && keys(rs)[last] == key);
                } else {
                    match evaluated_variant(rs.last().1, host) {
                        Err(e) => {
                            assert(evaluated_variant(rs[last].1, host) == Err::<
                                EnumVariantView,
                                EvalErrorView,
                            >(e));
                        },
                        Ok(info) => {
                            let all = done.push((key, info));
                            assert forall|i: int| 0 <= i < rs.len() implies keys(all)[i] == keys(
                                rs,
                            )[i] by {
                                if i < last {
                                    assert(all[i] == done[i]);
                                    assert(keys(done)[i] == keys(front)[i]);
                                    assert(front[i] == rs[i]);
                                }
                            }
                            assert(keys(all) =~= keys(rs));
                        },
                    }
                }
            },
        }
    } else {
        assert(keys(Seq::<(Seq<char>, EnumVariantView)>::empty()) =~= keys(rs));
    }
}

/// The recipe of a type expression holds no mapping of its own, so carrying
/// it out never meets a repeated key.
pub proof fn law_translated_never_malformed(e: ExprView, host: EntryPointsView)
    ensures
        translate(e) matches Ok(r) ==> !(evaluated(r, host) matches Err(
            EvalErrorView::MalformedFieldKey { .. },
        )),
    decreases e,
{
    match e {
        ExprView::Array { elem, .. } => law_translated_never_malformed(*elem, host),
        ExprView::Paren { elem } => law_translated_never_malformed(*elem, host),
        ExprView::Reference { elem, .. } => law_translated_never_malformed(*elem, host),
        ExprView::Slice { elem } => law_translated_never_malformed(*elem, host),
        ExprView::Tuple { elems } => {
            if let Ok(rs) = translate_all(elems) {
                law_translate_all_elementwise(elems);
                law_evaluated_all_failure(rs, host);
                if let Err(fault) = evaluated_all(rs, host) {
                    let i = choose|i: int|
                        0 <= i < rs.len() && evaluated(#[trigger] rs[i], host) == Err::<
                            TypeInfoView,
                            EvalErrorView,
                        >(fault);
                    assert(translate(elems[i]) == Ok::<RecipeView, ExprKind>(rs[i]));
                    law_translated_never_malformed(elems[i], host);
                }
            }
        },
        _ => {},
    }
}

/// Carrying out the keyed recipes of a field list never meets a repeated
/// key.
pub proof fn law_field_recipes_never_malformed(
    variant: Option<Seq<char>>,
    fs: Seq<FieldView>,
    host: EntryPointsView,
)
    ensures
        field_recipes(variant, fs) matches Ok(rs) ==> !(evaluated_entries(rs, host) matches Err(
            EvalErrorView::MalformedFieldKey { .. },
        )),
{
    if let Ok(rs) = field_recipes(variant, fs) {
        law_field_recipes(variant, fs);
        law_evaluated_entries_failure(rs, host);
        assert(keys(rs) =~= field_keys(fs));
        if let Err(fault) = evaluated_entries(rs, host) {
            let i = choose|i: int|
                0 <= i < rs.len() && evaluated((#[trigger] rs[i]).1, host) == Err::<
                    TypeInfoView,
                    EvalErrorView,
                >(fault);
            law_translated_never_malformed(fs[i].ty, host);
        }
    }
}

/// Carrying out the recipes of a positional field list never meets a repeated
/// key.
pub proof fn law_positional_recipes_never_malformed(
    variant: Option<Seq<char>>,
    fs: Seq<FieldView>,
    host: EntryPointsView,
)
    ensures
        positional_recipes(variant, fs) matches Ok(rs) ==> !(evaluated_all(rs, host) matches Err(
            EvalErrorView::MalformedFieldKey { .. },
        )),
{
    if let Ok(rs) = positional_recipes(variant, fs) {
        law_positional_recipes(variant, fs);
        law_evaluated_all_failure(rs, host);
        if let Err(fault) = evaluated_all(rs, host) {
            let i = choose|i: int|
                0 <= i < rs.len() && evaluated(#[trigger] rs[i], host) == Err::<
                    TypeInfoView,
                    EvalErrorView,
                >(fault);
            assert(translate(fs[i].ty) == Ok::<RecipeView, ExprKind>(rs[i]));
            law_translated_never_malformed(fs[i].ty, host);
        }
    }
}

/// What the builder checked stays checked: carrying out the recipe that was
/// built for a declaration never meets a repeated key, whatever descriptors
/// are supplied.
pub proof fn law_built_never_malformed(d: DeclView, host: EntryPointsView)
    ensures
        descriptor_recipe(d) matches Ok(r) ==> !(evaluated(r, host) matches Err(
            EvalErrorView::MalformedFieldKey { .. },
        )),
{
    match d {
        DeclView::Struct { ident, fields } => {
            law_field_recipes_never_malformed(None, fields.list(), host);
        },
        DeclView::Enum { ident, variants } => {
            if let Ok(rs) = variant_recipes(variants) {
                law_variant_completeness(variants);
                law_evaluated_variants_failure(rs, host);
                assert(keys(rs) =~= variant_names(variants));
                if let Err(fault) = evaluated_variants(rs, host) {
                    let i = choose|i: int|
                        0 <= i < rs.len() && evaluated_variant((#[trigger] rs[i]).1, host)
                            == Err::<EnumVariantView, EvalErrorView>(fault);
                    let v = variants[i];
                    assert(variant_recipe(v) == Ok::<VariantRecipeView, BuildErrorView>(rs[i].1));
                    match v.fields {
                        FieldsView::Named(fs) => {
                            law_field_recipes_never_malformed(Some(v.ident), fs, host);
                        },
                        FieldsView::Unnamed(fs) => {
                            law_positional_recipes_never_malformed(Some(v.ident), fs, host);
                        },
                        FieldsView::Unit => {},
                    }
                }
            }
        },
        DeclView::Other { .. } => {},
    }
}

} // verus!
