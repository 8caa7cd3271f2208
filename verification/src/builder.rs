//! The builder: one struct or enum declaration to the recipe for its
//! descriptor.

use vstd::prelude::*;
use crate::decimal::{decimal, render_index};
use crate::recipe::{
    CompoundRecipe, CompoundRecipeView, Recipe, RecipeView, VariantRecipe, VariantRecipeView,
    keyed_recipes_model, recipes_model, variant_recipes_model,
};
use crate::syntax::{
    DeclKind, DeclView, Declaration, ExprKind, Field, FieldView, Fields, FieldsView, Variant,
    VariantView, fields_model, opt_text, variants_model,
};
use crate::translate::{parse_type, translate};

verus! {

/// Why a declaration has no descriptor.
#[derive(Debug, PartialEq, Eq)]
#[allow(inconsistent_fields)]
pub enum BuildError {
    /// The declaration is neither a struct nor an enum; `ident` is its name,
    /// where it has one.
    UnsupportedDeclarationKind { kind: DeclKind, ident: Option<String> },
    /// The type of the field `field` holds a form that has no translation
    /// rule; `variant` names the enum variant that holds the field, if any.
    UnsupportedTypeExpression { variant: Option<String>, field: String, kind: ExprKind },
    /// The key `key` occurs a second time: among the fields of a struct, among
    /// the fields of the enum variant `variant`, or, with no variant given,
    /// among the variants of an enum.
    MalformedFieldKey { variant: Option<String>, key: String },
}

/// The mathematical value of a [`BuildError`].
#[allow(inconsistent_fields)]
pub enum BuildErrorView {
    UnsupportedDeclarationKind { kind: DeclKind, ident: Option<Seq<char>> },
    UnsupportedTypeExpression { variant: Option<Seq<char>>, field: Seq<char>, kind: ExprKind },
    MalformedFieldKey { variant: Option<Seq<char>>, key: Seq<char> },
}

impl View for BuildError {
    type V = BuildErrorView;

    open spec fn view(&self) -> BuildErrorView {
        match self {
            BuildError::UnsupportedDeclarationKind { kind, ident } => {
                BuildErrorView::UnsupportedDeclarationKind { kind: *kind, ident: opt_text(*ident) }
            },
            BuildError::UnsupportedTypeExpression { variant, field, kind } => {
                BuildErrorView::UnsupportedTypeExpression {
                    variant: opt_text(*variant),
                    field: field@,
                    kind: *kind,
                }
            },
            BuildError::MalformedFieldKey { variant, key } => BuildErrorView::MalformedFieldKey {
                variant: opt_text(*variant),
                key: key@,
            },
        }
    }
}

/// The key of a field: its declared name, or else its zero-based position
/// written in decimal.
pub open spec fn field_key(ident: Option<Seq<char>>, position: nat) -> Seq<char> {
    match ident {
        Some(name) => name,
        None => decimal(position),
    }
}

/// Whether `key` is the key of one of `entries`.
pub open spec fn has_key<V>(entries: Seq<(Seq<char>, V)>, key: Seq<char>) -> bool {
    exists|j: int| 0 <= j < entries.len() && (#[trigger] entries[j]).0 == key
}

/// The keyed recipes of a field list, in declaration order.
///
/// The fields are taken one by one. A field whose key an earlier field has
/// already taken stops the work with `MalformedFieldKey`; otherwise a field
/// whose type cannot be translated stops it with `UnsupportedTypeExpression`.
pub open spec fn field_recipes(variant: Option<Seq<char>>, fs: Seq<FieldView>) -> Result<
    Seq<(Seq<char>, RecipeView)>,
    BuildErrorView,
>
    decreases fs.len(),
{
    if fs.len() == 0 {
        Ok(Seq::empty())
    } else {
        match field_recipes(variant, fs.drop_last()) {
            Err(e) => Err(e),
            Ok(done) => {
                let key = field_key(fs.last().ident, (fs.len() - 1) as nat);
                if has_key(done, key) {
                    Err(BuildErrorView::MalformedFieldKey { variant, key })
                } else {
                    match translate(fs.last().ty) {
                        Err(kind) => Err(
                            BuildErrorView::UnsupportedTypeExpression { variant, field: key, kind },
                        ),
                        Ok(r) => Ok(done.push((key, r))),
                    }
                }
            },
        }
    }
}

/// The recipes of a positional field list, in declaration order, with no
/// keys: the position is the key.
///
/// The first field whose type cannot be translated stops the work with
/// `UnsupportedTypeExpression`, which names the field by its key.
pub open spec fn positional_recipes(variant: Option<Seq<char>>, fs: Seq<FieldView>) -> Result<
    Seq<RecipeView>,
    BuildErrorView,
>
    decreases fs.len(),
{
    if fs.len() == 0 {
        Ok(Seq::empty())
    } else {
        match positional_recipes(variant, fs.drop_last()) {
            Err(e) => Err(e),
            Ok(done) => match translate(fs.last().ty) {
                Err(kind) => Err(
                    BuildErrorView::UnsupportedTypeExpression {
                        variant,
                        field: field_key(fs.last().ident, (fs.len() - 1) as nat),
                        kind,
                    },
                ),
                Ok(r) => Ok(done.push(r)),
            },
        }
    }
}

/// The recipe of one enum variant, by the shape of its field list.
pub open spec fn variant_recipe(v: VariantView) -> Result<VariantRecipeView, BuildErrorView> {
    match v.fields {
        FieldsView::Named(fs) => match field_recipes(Some(v.ident), fs) {
            Ok(fields) => Ok(VariantRecipeView::Named { fields }),
            Err(e) => Err(e),
        },
        FieldsView::Unnamed(fs) => match positional_recipes(Some(v.ident), fs) {
            Ok(fields) => Ok(VariantRecipeView::Unnamed { fields }),
            Err(e) => Err(e),
        },
        FieldsView::Unit => Ok(VariantRecipeView::Unit),
    }
}

/// The recipes of an enum's variants by name, in declaration order.
///
/// The variants are taken one by one. A variant whose name an earlier variant
/// has already taken stops the work with `MalformedFieldKey`; otherwise the
/// variant's own failure, if it has one, stops it.
pub open spec fn variant_recipes(vs: Seq<VariantView>) -> Result<
    Seq<(Seq<char>, VariantRecipeView)>,
    BuildErrorView,
>
    decreases vs.len(),
{
    if vs.len() == 0 {
        Ok(Seq::empty())
    } else {
        match variant_recipes(vs.drop_last()) {
            Err(e) => Err(e),
            Ok(done) => {
                let key = vs.last().ident;
                if has_key(done, key) {
                    Err(BuildErrorView::MalformedFieldKey { variant: None, key })
                } else {
                    match variant_recipe(vs.last()) {
                        Err(e) => Err(e),
                        Ok(r) => Ok(done.push((key, r))),
                    }
                }
            },
        }
    }
}

/// The recipe for the descriptor of a declaration.
pub open spec fn descriptor_recipe(d: DeclView) -> Result<RecipeView, BuildErrorView> {
    match d {
        DeclView::Struct { ident, fields } => match field_recipes(None, fields.list()) {
            Ok(fs) => Ok(
                RecipeView::Compound(CompoundRecipeView::Struct { name: ident, fields: fs }),
            ),
            Err(e) => Err(e),
        },
        DeclView::Enum { ident, variants } => match variant_recipes(variants) {
            Ok(vs) => Ok(
                RecipeView::Compound(CompoundRecipeView::Enum { name: ident, variants: vs }),
            ),
            Err(e) => Err(e),
        },
        DeclView::Other { kind, ident } => Err(
            BuildErrorView::UnsupportedDeclarationKind { kind, ident },
        ),
    }
}

/// Whether `result` is what building the descriptor recipe of `d` gives.
pub open spec fn is_build_of(d: DeclView, result: Result<Recipe, BuildError>) -> bool {
    match descriptor_recipe(d) {
        Ok(r) => result matches Ok(got) && got@ == r,
        Err(e) => result matches Err(got) && got@ == e,
    }
}

/// Derives the key of the field at `position`.
pub fn derive_key(ident: &Option<String>, position: usize) -> (key: String)
    ensures
        key@ == field_key(opt_text(*ident), position as nat),
{
    match ident {
        Some(name) => name.clone(),
        None => render_index(position),
    }
}

fn copy_owner(variant: &Option<String>) -> (copy: Option<String>)
    ensures
        opt_text(copy) == opt_text(*variant),
{
    match variant {
        Some(name) => Some(name.clone()),
        None => None,
    }
}

/// Whether one of `entries` has the key `key`.
pub fn key_taken<V>(entries: &Vec<(String, V)>, key: &String) -> (found: bool)
    ensures
        found == exists|j: int| 0 <= j < entries@.len() && (#[trigger] entries@[j]).0@ == key@,
{
    let mut i: usize = 0;
    while i < entries.len()
        invariant
            i <= entries.len(),
            forall|j: int| 0 <= j < i ==> (#[trigger] entries@[j]).0@ != key@,
        decreases entries.len() - i,
    {
        if entries[i].0 == *key {
            return true;
        }
        i = i + 1;
    }
    false
}

/// A key is taken among keyed recipes exactly when it is a key of their
/// values.
proof fn lemma_taken_among_recipes(entries: Seq<(String, Recipe)>, key: Seq<char>)
    ensures
        has_key(keyed_recipes_model(entries), key) <==> exists|j: int|
            0 <= j < entries.len() && (#[trigger] entries[j]).0@ == key,
{
    let model = keyed_recipes_model(entries);
    if has_key(model, key) {
        let j = choose|j: int| 0 <= j < model.len() && (#[trigger] model[j]).0 == key;
        assert(entries[j].0@ == key);
    }
    if exists|j: int| 0 <= j < entries.len() && (#[trigger] entries[j]).0@ == key {
        let j = choose|j: int| 0 <= j < entries.len() && (#[trigger] entries[j]).0@ == key;
        assert(model[j].0 == key);
    }
}

/// A key is taken among named variant recipes exactly when it is a key of
/// their values.
proof fn lemma_taken_among_variants(entries: Seq<(String, VariantRecipe)>, key: Seq<char>)
    ensures
        has_key(variant_recipes_model(entries), key) <==> exists|j: int|
            0 <= j < entries.len() && (#[trigger] entries[j]).0@ == key,
{
    let model = variant_recipes_model(entries);
    if has_key(model, key) {
        let j = choose|j: int| 0 <= j < model.len() && (#[trigger] model[j]).0 == key;
        assert(entries[j].0@ == key);
    }
    if exists|j: int| 0 <= j < entries.len() && (#[trigger] entries[j]).0@ == key {
        let j = choose|j: int| 0 <= j < entries.len() && (#[trigger] entries[j]).0@ == key;
        assert(model[j].0 == key);
    }
}

/// Once a prefix of a field list fails, the whole list fails in the same way.
proof fn lemma_field_recipes_fail_from(variant: Option<Seq<char>>, fs: Seq<FieldView>, n: int)
    requires
        0 <= n <= fs.len(),
        field_recipes(variant, fs.take(n)) is Err,
    ensures
        field_recipes(variant, fs) == field_recipes(variant, fs.take(n)),
    decreases fs.len(),
{
    if n < fs.len() {
        assert(fs.drop_last().take(n) =~= fs.take(n));
        lemma_field_recipes_fail_from(variant, fs.drop_last(), n);
    } else {
        assert(fs.take(n) =~= fs);
    }
}

/// Once a prefix of a positional field list fails, the whole list fails in
/// the same way.
proof fn lemma_positional_recipes_fail_from(
    variant: Option<Seq<char>>,
    fs: Seq<FieldView>,
    n: int,
)
    requires
        0 <= n <= fs.len(),
        positional_recipes(variant, fs.take(n)) is Err,
    ensures
        positional_recipes(variant, fs) == positional_recipes(variant, fs.take(n)),
    decreases fs.len(),
{
    if n < fs.len() {
        assert(fs.drop_last().take(n) =~= fs.take(n));
        lemma_positional_recipes_fail_from(variant, fs.drop_last(), n);
    } else {
        assert(fs.take(n) =~= fs);
    }
}

/// Once a prefix of a variant list fails, the whole list fails in the same
/// way.
proof fn lemma_variant_recipes_fail_from(vs: Seq<VariantView>, n: int)
    requires
        0 <= n <= vs.len(),
        variant_recipes(vs.take(n)) is Err,
    ensures
        variant_recipes(vs) == variant_recipes(vs.take(n)),
    decreases vs.len(),
{
    if n < vs.len() {
        assert(vs.drop_last().take(n) =~= vs.take(n));
        lemma_variant_recipes_fail_from(vs.drop_last(), n);
    } else {
        assert(vs.take(n) =~= vs);
    }
}

/// Builds the keyed recipes of a field list.
pub fn build_fields(variant: &Option<String>, fields: &Vec<Field>) -> (result: Result<
    Vec<(String, Recipe)>,
    BuildError,
>)
    ensures
        match field_recipes(opt_text(*variant), fields_model(fields@)) {
            Ok(rs) => result matches Ok(got) && keyed_recipes_model(got@) == rs,
            Err(e) => result matches Err(got) && got@ == e,
        },
{
    let ghost owner = opt_text(*variant);
    let ghost all = fields_model(fields@);
    let mut out: Vec<(String, Recipe)> = Vec::new();
    let mut i: usize = 0;
    assert(keyed_recipes_model(out@) =~= Seq::empty());
    while i < fields.len()
        invariant
            i <= fields.len(),
            owner == opt_text(*variant),
            all == fields_model(fields@),
            field_recipes(owner, all.take(i as int)) == Ok::<
                Seq<(Seq<char>, RecipeView)>,
                BuildErrorView,
            >(keyed_recipes_model(out@)),
        decreases fields.len() - i,
    {
        proof {
            assert(all.take(i + 1).drop_last() =~= all.take(i as int));
            assert(all.take(i + 1).last() == fields@[i as int]@);
        }
        let key = derive_key(&fields[i].ident, i);
        proof {
            lemma_taken_among_recipes(out@, key@);
        }
        if key_taken(&out, &key) {
            proof {
                lemma_field_recipes_fail_from(owner, all, i + 1);
            }
            return Err(BuildError::MalformedFieldKey { variant: copy_owner(variant), key });
        }
        match parse_type(&fields[i].ty) {
            Ok(r) => {
                let ghost before = keyed_recipes_model(out@);
                let ghost entry = (key@, r@);
                out.push((key, r));
                assert(keyed_recipes_model(out@) =~= before.push(entry));
            },
            Err(e) => {
                proof {
                    lemma_field_recipes_fail_from(owner, all, i + 1);
                }
                return Err(
                    BuildError::UnsupportedTypeExpression {
                        variant: copy_owner(variant),
                        field: key,
                        kind: e.kind,
                    },
                );
            },
        }
        i = i + 1;
    }
    assert(all.take(i as int) =~= all);
    Ok(out)
}

/// Builds the recipes of a positional field list.
pub fn build_positional(variant: &Option<String>, fields: &Vec<Field>) -> (result: Result<
    Vec<Recipe>,
    BuildError,
>)
    ensures
        match positional_recipes(opt_text(*variant), fields_model(fields@)) {
            Ok(rs) => result matches Ok(got) && recipes_model(got@) == rs,
            Err(e) => result matches Err(got) && got@ == e,
        },
{
    let ghost owner = opt_text(*variant);
    let ghost all = fields_model(fields@);
    let mut out: Vec<Recipe> = Vec::new();
    let mut i: usize = 0;
    assert(recipes_model(out@) =~= Seq::empty());
    while i < fields.len()
        invariant
            i <= fields.len(),
            owner == opt_text(*variant),
            all == fields_model(fields@),
            positional_recipes(owner, all.take(i as int)) == Ok::<Seq<RecipeView>, BuildErrorView>(
                recipes_model(out@),
            ),
        decreases fields.len() - i,
    {
        proof {
            assert(all.take(i + 1).drop_last() =~= all.take(i as int));
            assert(all.take(i + 1).last() == fields@[i as int]@);
        }
        match parse_type(&fields[i].ty) {
            Ok(r) => {
                let ghost before = recipes_model(out@);
                let ghost entry = r@;
                out.push(r);
                assert(recipes_model(out@) =~= before.push(entry));
            },
            Err(e) => {
                proof {
                    lemma_positional_recipes_fail_from(owner, all, i + 1);
                }
                return Err(
                    BuildError::UnsupportedTypeExpression {
                        variant: copy_owner(variant),
                        field: derive_key(&fields[i].ident, i),
                        kind: e.kind,
                    },
                );
            },
        }
        i = i + 1;
    }
    assert(all.take(i as int) =~= all);
    Ok(out)
}

/// Builds the recipe of one enum variant.
pub fn build_variant(variant: &Variant) -> (result: Result<VariantRecipe, BuildError>)
    ensures
        match variant_recipe(variant@) {
            Ok(r) => result matches Ok(got) && got@ == r,
            Err(e) => result matches Err(got) && got@ == e,
        },
{
    match &variant.fields {
        Fields::Named(fs) => {
            let owner = Some(variant.ident.clone());
            match build_fields(&owner, fs) {
                Ok(fields) => Ok(VariantRecipe::Named { fields }),
                Err(e) => Err(e),
            }
        },
        Fields::Unnamed(fs) => {
            let owner = Some(variant.ident.clone());
            match build_positional(&owner, fs) {
                Ok(fields) => Ok(VariantRecipe::Unnamed { fields }),
                Err(e) => Err(e),
            }
        },
        Fields::Unit => Ok(VariantRecipe::Unit),
    }
}

/// Builds the recipes of an enum's variants.
pub fn build_variants(variants: &Vec<Variant>) -> (result: Result<
    Vec<(String, VariantRecipe)>,
    BuildError,
>)
    ensures
        match variant_recipes(variants_model(variants@)) {
            Ok(rs) => result matches Ok(got) && variant_recipes_model(got@) == rs,
            Err(e) => result matches Err(got) && got@ == e,
        },
{
    let ghost all = variants_model(variants@);
    let mut out: Vec<(String, VariantRecipe)> = Vec::new();
    let mut i: usize = 0;
    assert(variant_recipes_model(out@) =~= Seq::empty());
    while i < variants.len()
        invariant
            i <= variants.len(),
            all == variants_model(variants@),
            variant_recipes(all.take(i as int)) == Ok::<
                Seq<(Seq<char>, VariantRecipeView)>,
                BuildErrorView,
            >(variant_recipes_model(out@)),
        decreases variants.len() - i,
    {
        proof {
            assert(all.take(i + 1).drop_last() =~= all.take(i as int));
            assert(all.take(i + 1).last() == variants@[i as int]@);
        }
        let key = variants[i].ident.clone();
        proof {
            lemma_taken_among_variants(out@, key@);
        }
        if key_taken(&out, &key) {
            proof {
                lemma_variant_recipes_fail_from(all, i + 1);
            }
            return Err(BuildError::MalformedFieldKey { variant: None, key });
        }
        match build_variant(&variants[i]) {
            Ok(r) => {
                let ghost before = variant_recipes_model(out@);
                let ghost entry = (key@, r@);
                out.push((key, r));
                assert(variant_recipes_model(out@) =~= before.push(entry));
            },
            Err(e) => {
                proof {
                    lemma_variant_recipes_fail_from(all, i + 1);
                }
                return Err(e);
            },
        }
        i = i + 1;
    }
    assert(all.take(i as int) =~= all);
    Ok(out)
}

/// Builds the recipe for the descriptor of a declaration.
///
/// Succeeds exactly on a struct or an enum in which every field type can be
/// translated and no key occurs twice within one field list or among the
/// variants; otherwise reports the first fault in declaration order.
pub fn derive_introspectable(decl: &Declaration) -> (result: Result<Recipe, BuildError>)
    ensures
        is_build_of(decl@, result),
{
    match decl {
        Declaration::Struct { ident, fields } => {
            let built = match fields {
                Fields::Named(fs) => build_fields(&None, fs),
                Fields::Unnamed(fs) => build_fields(&None, fs),
                Fields::Unit => {
                    let none: Vec<(String, Recipe)> = Vec::new();
                    assert(keyed_recipes_model(none@) =~= Seq::empty());
                    Ok(none)
                },
            };
            match built {
                Ok(fs) => Ok(
                    Recipe::Compound(CompoundRecipe::Struct { name: ident.clone(), fields: fs }),
                ),
                Err(e) => Err(e),
            }
        },
        Declaration::Enum { ident, variants } => {
            match build_variants(variants) {
                Ok(vs) => Ok(
                    Recipe::Compound(CompoundRecipe::Enum { name: ident.clone(), variants: vs }),
                ),
                Err(e) => Err(e),
            }
        },
        Declaration::Other { kind, ident } => Err(
            BuildError::UnsupportedDeclarationKind { kind: *kind, ident: copy_owner(ident) },
        ),
    }
}

} // verus!
