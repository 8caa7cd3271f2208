//! Carrying out a recipe: from the recipe and the descriptors that the named
//! types supply to the descriptor itself.

use vstd::prelude::*;
use crate::builder::{BuildError, derive_introspectable, descriptor_recipe, has_key, key_taken};
use crate::decimal::{is_numeral, numeral_value, parse_numeral};
use crate::info::{
    CompoundType, CompoundTypeView, EnumVariant, EnumVariantView, PointerType, PointerTypeView,
    TypeInfo, TypeInfoView, infos_model, keyed_infos_model, variant_infos_model,
};
use crate::recipe::{
    CompoundRecipe, CompoundRecipeView, PointerRecipe, PointerRecipeView, Recipe, RecipeView,
    VariantRecipe, VariantRecipeView, keyed_recipes_model, recipes_model, variant_recipes_model,
};
use crate::syntax::{DeclView, Declaration, clone_texts};

verus! {

/// Why a recipe could not be carried out.
#[derive(Debug, PartialEq, Eq)]
pub enum EvalError {
    /// No descriptor was supplied for the type spelled `target`.
    MissingEntryPoint { target: String },
    /// The array length `length` is not a decimal numeral that fits in
    /// `usize`.
    UnevaluatedLength { length: String },
    /// The key `key` occurs a second time in one mapping.
    MalformedFieldKey { key: String },
}

/// The mathematical value of an [`EvalError`].
pub enum EvalErrorView {
    MissingEntryPoint { target: Seq<char> },
    UnevaluatedLength { length: Seq<char> },
    MalformedFieldKey { key: Seq<char> },
}

impl View for EvalError {
    type V = EvalErrorView;

    open spec fn view(&self) -> EvalErrorView {
        match self {
            EvalError::MissingEntryPoint { target } => EvalErrorView::MissingEntryPoint {
                target: target@,
            },
            EvalError::UnevaluatedLength { length } => EvalErrorView::UnevaluatedLength {
                length: length@,
            },
            EvalError::MalformedFieldKey { key } => EvalErrorView::MalformedFieldKey { key: key@ },
        }
    }
}

/// The descriptors that named types supply, each under the spelling of its
/// type.
pub type EntryPointsView = Seq<(Seq<char>, TypeInfoView)>;

/// The descriptor supplied for `target`: that of the first entry under this
/// spelling.
pub open spec fn resolve(host: EntryPointsView, target: Seq<char>) -> Option<TypeInfoView>
    decreases host.len(),
{
    if host.len() == 0 {
        None
    } else if host.first().0 == target {
        Some(host.first().1)
    } else {
        resolve(host.drop_first(), target)
    }
}

/// The length that an array recipe's length text stands for.
pub open spec fn length_value(length: Seq<char>) -> Option<nat> {
    if is_numeral(length) && numeral_value(length) <= usize::MAX {
        Some(numeral_value(length))
    } else {
        None
    }
}

/// The descriptor that a recipe builds, given the descriptors that the named
/// types supply.
///
/// The recipe is carried out from left to right and stops at its first
/// fault: a deferred type without a supplied descriptor, an array length that
/// is no decimal numeral within `usize`, or a key that occurs twice in one
/// mapping.
pub open spec fn evaluated(r: RecipeView, host: EntryPointsView) -> Result<
    TypeInfoView,
    EvalErrorView,
>
    decreases r,
{
    match r {
        RecipeView::Deferred { target } => match resolve(host, target) {
            Some(info) => Ok(info),
            None => Err(EvalErrorView::MissingEntryPoint { target }),
        },
        RecipeView::Never => Ok(TypeInfoView::Never),
        RecipeView::Compound(c) => match evaluated_compound(c, host) {
            Ok(info) => Ok(TypeInfoView::Compound(info)),
            Err(e) => Err(e),
        },
        RecipeView::Pointer(p) => match evaluated_pointer(p, host) {
            Ok(info) => Ok(TypeInfoView::Pointer(info)),
            Err(e) => Err(e),
        },
        RecipeView::Impl { bounds } => Ok(TypeInfoView::Impl { bounds }),
        RecipeView::Dyn { bounds } => Ok(TypeInfoView::Dyn { bounds }),
    }
}

/// The aggregate descriptor that an aggregate recipe builds.
pub open spec fn evaluated_compound(c: CompoundRecipeView, host: EntryPointsView) -> Result<
    CompoundTypeView,
    EvalErrorView,
>
    decreases c,
{
    match c {
        CompoundRecipeView::Struct { name, fields } => match evaluated_entries(fields, host) {
            Ok(entries) => Ok(CompoundTypeView::Struct { name, fields: entries }),
            Err(e) => Err(e),
        },
        CompoundRecipeView::Enum { name, variants } => match evaluated_variants(variants, host) {
            Ok(entries) => Ok(CompoundTypeView::Enum { name, variants: entries }),
            Err(e) => Err(e),
        },
        CompoundRecipeView::Array { element, length } => match evaluated(*element, host) {
            Ok(info) => match length_value(length) {
                Some(n) => Ok(CompoundTypeView::Array { element: Box::new(info), length: n }),
                None => Err(EvalErrorView::UnevaluatedLength { length }),
            },
            Err(e) => Err(e),
        },
        CompoundRecipeView::Slice { element } => match evaluated(*element, host) {
            Ok(info) => Ok(CompoundTypeView::Slice { element: Box::new(info) }),
            Err(e) => Err(e),
        },
        CompoundRecipeView::Tuple { elements } => match evaluated_all(elements, host) {
            Ok(infos) => Ok(CompoundTypeView::Tuple { elements: infos }),
            Err(e) => Err(e),
        },
    }
}

/// The pointer descriptor that a pointer recipe builds.
pub open spec fn evaluated_pointer(p: PointerRecipeView, host: EntryPointsView) -> Result<
    PointerTypeView,
    EvalErrorView,
>
    decreases p,
{
    match p {
        PointerRecipeView::Reference { lifetime, element, mutable } => match evaluated(
            *element,
            host,
        ) {
            Ok(info) => Ok(
                PointerTypeView::Reference { lifetime, element: Box::new(info), mutable },
            ),
            Err(e) => Err(e),
        },
    }
}

/// The variant descriptor that a variant recipe builds.
pub open spec fn evaluated_variant(v: VariantRecipeView, host: EntryPointsView) -> Result<
    EnumVariantView,
    EvalErrorView,
>
    decreases v,
{
    match v {
        VariantRecipeView::Named { fields } => match evaluated_entries(fields, host) {
            Ok(entries) => Ok(EnumVariantView::NamedVariant { fields: entries }),
            Err(e) => Err(e),
        },
        VariantRecipeView::Unnamed { fields } => match evaluated_all(fields, host) {
            Ok(infos) => Ok(EnumVariantView::UnnamedVariant { fields: infos }),
            Err(e) => Err(e),
        },
        VariantRecipeView::Unit => Ok(EnumVariantView::UnitVariant),
    }
}

/// The descriptors that a run of recipes builds, in order.
pub open spec fn evaluated_all(rs: Seq<RecipeView>, host: EntryPointsView) -> Result<
    Seq<TypeInfoView>,
    EvalErrorView,
>
    decreases rs,
{
    if rs.len() == 0 {
        Ok(Seq::empty())
    } else {
        match evaluated_all(rs.drop_last(), host) {
            Err(e) => Err(e),
            Ok(done) => match evaluated(rs.last(), host) {
                Err(e) => Err(e),
                Ok(info) => Ok(done.push(info)),
            },
        }
    }
}

/// The keyed descriptors that a run of keyed recipes builds, in order. An
/// entry whose key an earlier entry has taken is a fault.
pub open spec fn evaluated_entries(rs: Seq<(Seq<char>, RecipeView)>, host: EntryPointsView) -> Result<
    Seq<(Seq<char>, TypeInfoView)>,
    EvalErrorView,
>
    decreases rs,
{
    if rs.len() == 0 {
        Ok(Seq::empty())
    } else {
        match evaluated_entries(rs.drop_last(), host) {
            Err(e) => Err(e),
            Ok(done) => {
                let key = rs.last().0;
                if has_key(done, key) {
                    Err(EvalErrorView::MalformedFieldKey { key })
                } else {
                    match evaluated(rs.last().1, host) {
                        Err(e) => Err(e),
                        Ok(info) => Ok(done.push((key, info))),
                    }
                }
            },
        }
    }
}

/// The named variant descriptors that a run of named variant recipes builds,
/// in order. An entry whose name an earlier entry has taken is a fault.
pub open spec fn evaluated_variants(
    rs: Seq<(Seq<char>, VariantRecipeView)>,
    host: EntryPointsView,
) -> Result<Seq<(Seq<char>, EnumVariantView)>, EvalErrorView>
    decreases rs,
{
    if rs.len() == 0 {
        Ok(Seq::empty())
    } else {
        match evaluated_variants(rs.drop_last(), host) {
            Err(e) => Err(e),
            Ok(done) => {
                let key = rs.last().0;
                if has_key(done, key) {
                    Err(EvalErrorView::MalformedFieldKey { key })
                } else {
                    match evaluated_variant(rs.last().1, host) {
                        Err(e) => Err(e),
                        Ok(info) => Ok(done.push((key, info))),
                    }
                }
            },
        }
    }
}

/// Whether `result` is what carrying out a recipe of value `r` gives.
pub open spec fn is_evaluation_of(
    r: RecipeView,
    host: EntryPointsView,
    result: Result<TypeInfo, EvalError>,
) -> bool {
    match evaluated(r, host) {
        Ok(info) => result matches Ok(got) && got@ == info,
        Err(e) => result matches Err(got) && got@ == e,
    }
}

/// Below the first entry under `target`, nothing else is looked at.
proof fn lemma_resolve_at(host: EntryPointsView, target: Seq<char>, n: int)
    requires
        0 <= n <= host.len(),
        forall|j: int| 0 <= j < n ==> (#[trigger] host[j]).0 != target,
    ensures
        n < host.len() && host[n].0 == target ==> resolve(host, target) == Some(host[n].1),
        n == host.len() ==> resolve(host, target) is None,
    decreases n,
{
    if n > 0 {
        let rest = host.drop_first();
        assert forall|j: int| 0 <= j < n - 1 implies (#[trigger] rest[j]).0 != target by {
            assert(rest[j] == host[j + 1]);
        }
        lemma_resolve_at(rest, target, n - 1);
        if n < host.len() {
            assert(rest[n - 1] == host[n]);
        }
    }
}

/// Looks up the descriptor supplied for `target`.
pub fn lookup<'a>(host: &'a Vec<(String, TypeInfo)>, target: &String) -> (found: Option<
    &'a TypeInfo,
>)
    ensures
        match resolve(keyed_infos_model(host@), target@) {
            Some(info) => found matches Some(got) && got@ == info,
            None => found is None,
        },
{
    let mut i: usize = 0;
    while i < host.len()
        invariant
            i <= host.len(),
            forall|j: int| 0 <= j < i ==> (#[trigger] keyed_infos_model(host@)[j]).0 != target@,
        decreases host.len() - i,
    {
        if host[i].0 == *target {
            proof {
                lemma_resolve_at(keyed_infos_model(host@), target@, i as int);
            }
            return Some(&host[i].1);
        }
        i = i + 1;
    }
    proof {
        lemma_resolve_at(keyed_infos_model(host@), target@, i as int);
    }
    None
}

proof fn lemma_taken_among_infos(entries: Seq<(String, TypeInfo)>, key: Seq<char>)
    ensures
        has_key(keyed_infos_model(entries), key) <==> exists|j: int|
            0 <= j < entries.len() && (#[trigger] entries[j]).0@ == key,
{
    let model = keyed_infos_model(entries);
    if has_key(model, key) {
        let j = choose|j: int| 0 <= j < model.len() && (#[trigger] model[j]).0 == key;
        assert(entries[j].0@ == key);
    }
    if exists|j: int| 0 <= j < entries.len() && (#[trigger] entries[j]).0@ == key {
        let j = choose|j: int| 0 <= j < entries.len() && (#[trigger] entries[j]).0@ == key;
        assert(model[j].0 == key);
    }
}

proof fn lemma_taken_among_variant_infos(entries: Seq<(String, EnumVariant)>, key: Seq<char>)
    ensures
        has_key(variant_infos_model(entries), key) <==> exists|j: int|
            0 <= j < entries.len() && (#[trigger] entries[j]).0@ == key,
{
    let model = variant_infos_model(entries);
    if has_key(model, key) {
        let j = choose|j: int| 0 <= j < model.len() && (#[trigger] model[j]).0 == key;
        assert(entries[j].0@ == key);
    }
    if exists|j: int| 0 <= j < entries.len() && (#[trigger] entries[j]).0@ == key {
        let j = choose|j: int| 0 <= j < entries.len() && (#[trigger] entries[j]).0@ == key;
        assert(model[j].0 == key);
    }
}

proof fn lemma_evaluated_all_fails_from(rs: Seq<RecipeView>, host: EntryPointsView, n: int)
    requires
        0 <= n <= rs.len(),
        evaluated_all(rs.take(n), host) is Err,
    ensures
        evaluated_all(rs, host) == evaluated_all(rs.take(n), host),
    decreases rs.len(),
{
    if n < rs.len() {
        assert(rs.drop_last().take(n) =~= rs.take(n));
        lemma_evaluated_all_fails_from(rs.drop_last(), host, n);
    } else {
        assert(rs.take(n) =~= rs);
    }
}

proof fn lemma_evaluated_entries_fail_from(
    rs: Seq<(Seq<char>, RecipeView)>,
    host: EntryPointsView,
    n: int,
)
    requires
        0 <= n <= rs.len(),
        evaluated_entries(rs.take(n), host) is Err,
    ensures
        evaluated_entries(rs, host) == evaluated_entries(rs.take(n), host),
    decreases rs.len(),
{
    if n < rs.len() {
        assert(rs.drop_last().take(n) =~= rs.take(n));
        lemma_evaluated_entries_fail_from(rs.drop_last(), host, n);
    } else {
        assert(rs.take(n) =~= rs);
    }
}

proof fn lemma_evaluated_variants_fail_from(
    rs: Seq<(Seq<char>, VariantRecipeView)>,
    host: EntryPointsView,
    n: int,
)
    requires
        0 <= n <= rs.len(),
        evaluated_variants(rs.take(n), host) is Err,
    ensures
        evaluated_variants(rs, host) == evaluated_variants(rs.take(n), host),
    decreases rs.len(),
{
    if n < rs.len() {
        assert(rs.drop_last().take(n) =~= rs.take(n));
        lemma_evaluated_variants_fail_from(rs.drop_last(), host, n);
    } else {
        assert(rs.take(n) =~= rs);
    }
}

/// Carries out a recipe, with `host` holding the descriptors that the named
/// types supply, each under the spelling of its type.
pub fn evaluate(recipe: &Recipe, host: &Vec<(String, TypeInfo)>) -> (result: Result<
    TypeInfo,
    EvalError,
>)
    ensures
        is_evaluation_of(recipe@, keyed_infos_model(host@), result),
    decreases recipe,
{
    match recipe {
        Recipe::Deferred { target } => match lookup(host, target) {
            Some(info) => Ok(info.copy()),
            None => Err(EvalError::MissingEntryPoint { target: target.clone() }),
        },
        Recipe::Never => Ok(TypeInfo::Never),
        Recipe::Compound(c) => match evaluate_compound(c, host) {
            Ok(info) => Ok(TypeInfo::Compound(info)),
            Err(e) => Err(e),
        },
        Recipe::Pointer(PointerRecipe::Reference { lifetime, element, mutable }) => {
            match evaluate(element, host) {
                Ok(info) => Ok(
                    TypeInfo::Pointer(
                        PointerType::Reference {
                            lifetime: lifetime.clone(),
                            element: Box::new(info),
                            mutable: *mutable,
                        },
                    ),
                ),
                Err(e) => Err(e),
            }
        },
        Recipe::Impl { bounds } => Ok(TypeInfo::Impl { bounds: clone_texts(bounds) }),
        Recipe::Dyn { bounds } => Ok(TypeInfo::Dyn { bounds: clone_texts(bounds) }),
    }
}

/// Carries out the recipe of an aggregate.
pub fn evaluate_compound(recipe: &CompoundRecipe, host: &Vec<(String, TypeInfo)>) -> (result:
    Result<CompoundType, EvalError>)
    ensures
        match evaluated_compound(recipe@, keyed_infos_model(host@)) {
            Ok(info) => result matches Ok(got) && got@ == info,
            Err(e) => result matches Err(got) && got@ == e,
        },
    decreases recipe,
{
    match recipe {
        CompoundRecipe::Struct { name, fields } => match evaluate_entries(fields, host) {
            Ok(entries) => Ok(CompoundType::Struct { name: name.clone(), fields: entries }),
            Err(e) => Err(e),
        },
        CompoundRecipe::Enum { name, variants } => match evaluate_variants(variants, host) {
            Ok(entries) => Ok(CompoundType::Enum { name: name.clone(), variants: entries }),
            Err(e) => Err(e),
        },
        CompoundRecipe::Array { element, length } => match evaluate(element, host) {
            Ok(info) => match parse_numeral(length.as_str()) {
                Some(n) => Ok(CompoundType::Array { element: Box::new(info), length: n }),
                None => Err(EvalError::UnevaluatedLength { length: length.clone() }),
            },
            Err(e) => Err(e),
        },
        CompoundRecipe::Slice { element } => match evaluate(element, host) {
            Ok(info) => Ok(CompoundType::Slice { element: Box::new(info) }),
            Err(e) => Err(e),
        },
        CompoundRecipe::Tuple { elements } => match evaluate_all(elements, host) {
            Ok(infos) => Ok(CompoundType::Tuple { elements: infos }),
            Err(e) => Err(e),
        },
    }
}

/// Carries out the recipe of one enum variant.
pub fn evaluate_variant(recipe: &VariantRecipe, host: &Vec<(String, TypeInfo)>) -> (result:
    Result<EnumVariant, EvalError>)
    ensures
        match evaluated_variant(recipe@, keyed_infos_model(host@)) {
            Ok(info) => result matches Ok(got) && got@ == info,
            Err(e) => result matches Err(got) && got@ == e,
        },
    decreases recipe,
{
    match recipe {
        VariantRecipe::Named { fields } => match evaluate_entries(fields, host) {
            Ok(entries) => Ok(EnumVariant::NamedVariant { fields: entries }),
            Err(e) => Err(e),
        },
        VariantRecipe::Unnamed { fields } => match evaluate_all(fields, host) {
            Ok(infos) => Ok(EnumVariant::UnnamedVariant { fields: infos }),
            Err(e) => Err(e),
        },
        VariantRecipe::Unit => Ok(EnumVariant::UnitVariant),
    }
}

/// Carries out a run of recipes, in order.
pub fn evaluate_all(recipes: &Vec<Recipe>, host: &Vec<(String, TypeInfo)>) -> (result: Result<
    Vec<TypeInfo>,
    EvalError,
>)
    ensures
        match evaluated_all(recipes_model(recipes@), keyed_infos_model(host@)) {
            Ok(infos) => result matches Ok(got) && infos_model(got@) == infos,
            Err(e) => result matches Err(got) && got@ == e,
        },
    decreases recipes,
{
    let ghost all = recipes_model(recipes@);
    let ghost supplied = keyed_infos_model(host@);
    let mut out: Vec<TypeInfo> = Vec::new();
    let mut i: usize = 0;
    assert(infos_model(out@) =~= Seq::empty());
    while i < recipes.len()
        invariant
            i <= recipes.len(),
            all == recipes_model(recipes@),
            supplied == keyed_infos_model(host@),
            evaluated_all(all.take(i as int), supplied) == Ok::<Seq<TypeInfoView>, EvalErrorView>(
                infos_model(out@),
            ),
        decreases recipes.len() - i,
    {
        proof {
            assert(all.take(i + 1).drop_last() =~= all.take(i as int));
            assert(all.take(i + 1).last() == recipes@[i as int]@);
        }
        match evaluate(&recipes[i], host) {
            Ok(info) => {
                let ghost before = infos_model(out@);
                let ghost entry = info@;
                out.push(info);
                assert(infos_model(out@) =~= before.push(entry));
            },
            Err(e) => {
                proof {
                    lemma_evaluated_all_fails_from(all, supplied, i + 1);
                }
                return Err(e);
            },
        }
        i = i + 1;
    }
    assert(all.take(i as int) =~= all);
    Ok(out)
}

/// Carries out a run of keyed recipes, in order.
pub fn evaluate_entries(recipes: &Vec<(String, Recipe)>, host: &Vec<(String, TypeInfo)>) -> (result:
    Result<Vec<(String, TypeInfo)>, EvalError>)
    ensures
        match evaluated_entries(keyed_recipes_model(recipes@), keyed_infos_model(host@)) {
            Ok(infos) => result matches Ok(got) && keyed_infos_model(got@) == infos,
            Err(e) => result matches Err(got) && got@ == e,
        },
    decreases recipes,
{
    let ghost all = keyed_recipes_model(recipes@);
    let ghost supplied = keyed_infos_model(host@);
    let mut out: Vec<(String, TypeInfo)> = Vec::new();
    let mut i: usize = 0;
    assert(keyed_infos_model(out@) =~= Seq::empty());
    while i < recipes.len()
        invariant
            i <= recipes.len(),
            all == keyed_recipes_model(recipes@),
            supplied == keyed_infos_model(host@),
            evaluated_entries(all.take(i as int), supplied) == Ok::<
                Seq<(Seq<char>, TypeInfoView)>,
                EvalErrorView,
            >(keyed_infos_model(out@)),
        decreases recipes.len() - i,
    {
        proof {
            assert(all.take(i + 1).drop_last() =~= all.take(i as int));
            assert(all.take(i + 1).last() == (recipes@[i as int].0@, recipes@[i as int].1@));
            lemma_taken_among_infos(out@, recipes@[i as int].0@);
        }
        if key_taken(&out, &recipes[i].0) {
            proof {
                lemma_evaluated_entries_fail_from(all, supplied, i + 1);
            }
            return Err(EvalError::MalformedFieldKey { key: recipes[i].0.clone() });
        }
        match evaluate(&recipes[i].1, host) {
            Ok(info) => {
                let key = recipes[i].0.clone();
                let ghost before = keyed_infos_model(out@);
                let ghost entry = (key@, info@);
                out.push((key, info));
                assert(keyed_infos_model(out@) =~= before.push(entry));
            },
            Err(e) => {
                proof {
                    lemma_evaluated_entries_fail_from(all, supplied, i + 1);
                }
                return Err(e);
            },
        }
        i = i + 1;
    }
    assert(all.take(i as int) =~= all);
    Ok(out)
}

/// Carries out a run of named variant recipes, in order.
pub fn evaluate_variants(
    recipes: &Vec<(String, VariantRecipe)>,
    host: &Vec<(String, TypeInfo)>,
) -> (result: Result<Vec<(String, EnumVariant)>, EvalError>)
    ensures
        match evaluated_variants(variant_recipes_model(recipes@), keyed_infos_model(host@)) {
            Ok(infos) => result matches Ok(got) && variant_infos_model(got@) == infos,
            Err(e) => result matches Err(got) && got@ == e,
        },
    decreases recipes,
{
    let ghost all = variant_recipes_model(recipes@);
    let ghost supplied = keyed_infos_model(host@);
    let mut out: Vec<(String, EnumVariant)> = Vec::new();
    let mut i: usize = 0;
    assert(variant_infos_model(out@) =~= Seq::empty());
    while i < recipes.len()
        invariant
            i <= recipes.len(),
            all == variant_recipes_model(recipes@),
            supplied == keyed_infos_model(host@),
            evaluated_variants(all.take(i as int), supplied) == Ok::<
                Seq<(Seq<char>, EnumVariantView)>,
                EvalErrorView,
            >(variant_infos_model(out@)),
        decreases recipes.len() - i,
    {
        proof {
            assert(all.take(i + 1).drop_last() =~= all.take(i as int));
            assert(all.take(i + 1).last() == (recipes@[i as int].0@, recipes@[i as int].1@));
            lemma_taken_among_variant_infos(out@, recipes@[i as int].0@);
        }
        if key_taken(&out, &recipes[i].0) {
            proof {
                lemma_evaluated_variants_fail_from(all, supplied, i + 1);
            }
            return Err(EvalError::MalformedFieldKey { key: recipes[i].0.clone() });
        }
        match evaluate_variant(&recipes[i].1, host) {
            Ok(info) => {
                let key = recipes[i].0.clone();
                let ghost before = variant_infos_model(out@);
                let ghost entry = (key@, info@);
                out.push((key, info));
                assert(variant_infos_model(out@) =~= before.push(entry));
            },
            Err(e) => {
                proof {
                    lemma_evaluated_variants_fail_from(all, supplied, i + 1);
                }
                return Err(e);
            },
        }
        i = i + 1;
    }
    assert(all.take(i as int) =~= all);
    Ok(out)
}

/// Why a declaration has no descriptor.
#[derive(Debug, PartialEq, Eq)]
pub enum DescribeError {
    /// The recipe could not be built.
    Build(BuildError),
    /// The recipe was built and could not be carried out.
    Evaluate(EvalError),
}

/// Whether `result` is what describing a declaration of value `d` gives: the
/// descriptor that the declaration's recipe builds, or the fault that stops
/// the building or the carrying out.
pub open spec fn is_description_of(
    d: DeclView,
    host: EntryPointsView,
    result: Result<TypeInfo, DescribeError>,
) -> bool {
    match descriptor_recipe(d) {
        Err(e) => result matches Err(DescribeError::Build(got)) && got@ == e,
        Ok(r) => match evaluated(r, host) {
            Ok(info) => result matches Ok(got) && got@ == info,
            Err(e) => result matches Err(DescribeError::Evaluate(got)) && got@ == e,
        },
    }
}

/// Describes a declaration: builds its recipe and carries it out, with `host`
/// holding the descriptors that the named types supply.
pub fn describe(decl: &Declaration, host: &Vec<(String, TypeInfo)>) -> (result: Result<
    TypeInfo,
    DescribeError,
>)
    ensures
        is_description_of(decl@, keyed_infos_model(host@), result),
{
    match derive_introspectable(decl) {
        Err(e) => Err(DescribeError::Build(e)),
        Ok(recipe) => match evaluate(&recipe, host) {
            Ok(info) => Ok(info),
            Err(e) => Err(DescribeError::Evaluate(e)),
        },
    }
}

} // verus!
