//! The translator: one type expression to the recipe for its descriptor.

use vstd::prelude::*;
use crate::recipe::{CompoundRecipe, CompoundRecipeView, PointerRecipe, PointerRecipeView, Recipe, RecipeView, recipes_model};
use crate::syntax::{ExprKind, ExprView, TypeExpr, clone_texts, exprs_model};

verus! {

/// A type expression of a form that has no translation rule.
#[derive(Clone, Copy, Debug, PartialEq, Eq, Structural)]
pub struct UnsupportedTypeExpression {
    /// The form that was met.
    pub kind: ExprKind,
}

/// The text recorded for a borrow's lifetime: its spelling, or nothing where
/// the borrow names none.
pub open spec fn lifetime_text(lifetime: Option<Seq<char>>) -> Seq<char> {
    match lifetime {
        Some(l) => l,
        None => Seq::empty(),
    }
}

/// The recipe that a type expression stands for, or the unsupported form that
/// is met first, reading the expression from left to right.
///
/// Arrays, slices, borrows and tuples translate their element types by this
/// same function; parentheses vanish; a path defers to the type it names and
/// a raw pointer to the type it points to.
pub open spec fn translate(e: ExprView) -> Result<RecipeView, ExprKind>
    decreases e,
{
    match e {
        ExprView::Array { elem, len } => match translate(*elem) {
            Ok(r) => Ok(
                RecipeView::Compound(
                    CompoundRecipeView::Array { element: Box::new(r), length: len },
                ),
            ),
            Err(k) => Err(k),
        },
        ExprView::Paren { elem } => translate(*elem),
        ExprView::Never => Ok(RecipeView::Never),
        ExprView::Path { name } => Ok(RecipeView::Deferred { target: name }),
        ExprView::Ptr { pointee } => Ok(RecipeView::Deferred { target: pointee }),
        ExprView::ImplTrait { bounds } => Ok(RecipeView::Impl { bounds }),
        ExprView::TraitObject { bounds } => Ok(RecipeView::Dyn { bounds }),
        ExprView::Reference { lifetime, elem, mutable } => match translate(*elem) {
            Ok(r) => Ok(
                RecipeView::Pointer(
                    PointerRecipeView::Reference {
                        lifetime: lifetime_text(lifetime),
                        element: Box::new(r),
                        mutable,
                    },
                ),
            ),
            Err(k) => Err(k),
        },
        ExprView::Slice { elem } => match translate(*elem) {
            Ok(r) => Ok(RecipeView::Compound(CompoundRecipeView::Slice { element: Box::new(r) })),
            Err(k) => Err(k),
        },
        ExprView::Tuple { elems } => match translate_all(elems) {
            Ok(rs) => Ok(RecipeView::Compound(CompoundRecipeView::Tuple { elements: rs })),
            Err(k) => Err(k),
        },
        ExprView::Unsupported { kind } => Err(kind),
    }
}

/// The recipes of a run of type expressions, in order, or the unsupported
/// form met first.
pub open spec fn translate_all(es: Seq<ExprView>) -> Result<Seq<RecipeView>, ExprKind>
    decreases es,
{
    if es.len() == 0 {
        Ok(Seq::empty())
    } else {
        match translate_all(es.drop_last()) {
            Err(k) => Err(k),
            Ok(rs) => match translate(es.last()) {
                Err(k) => Err(k),
                Ok(r) => Ok(rs.push(r)),
            },
        }
    }
}

/// Translates a type expression into the recipe for its descriptor.
///
/// Fails exactly when the expression holds a form that has no rule, and then
/// names the first such form.
pub fn parse_type(expr: &TypeExpr) -> (result: Result<Recipe, UnsupportedTypeExpression>)
    ensures
        match translate(expr@) {
            Ok(r) => result matches Ok(got) && got@ == r,
            Err(k) => result == Err::<Recipe, UnsupportedTypeExpression>(
                UnsupportedTypeExpression { kind: k },
            ),
        },
    decreases expr,
{
    match expr {
        TypeExpr::Array { elem, len } => {
            match parse_type(elem) {
                Ok(r) => Ok(
                    Recipe::Compound(
                        CompoundRecipe::Array { element: Box::new(r), length: len.clone() },
                    ),
                ),
                Err(e) => Err(e),
            }
        },
        TypeExpr::Paren { elem } => parse_type(elem),
        TypeExpr::Never => Ok(Recipe::Never),
        TypeExpr::Path { name } => Ok(Recipe::Deferred { target: name.clone() }),
        TypeExpr::Ptr { pointee } => Ok(Recipe::Deferred { target: pointee.clone() }),
        TypeExpr::ImplTrait { bounds } => Ok(Recipe::Impl { bounds: clone_texts(bounds) }),
        TypeExpr::TraitObject { bounds } => Ok(Recipe::Dyn { bounds: clone_texts(bounds) }),
        TypeExpr::Reference { lifetime, elem, mutable } => {
            match parse_type(elem) {
                Ok(r) => {
                    let text = match lifetime {
                        Some(l) => l.clone(),
                        None => String::new(),
                    };
                    Ok(
                        Recipe::Pointer(
                            PointerRecipe::Reference {
                                lifetime: text,
                                element: Box::new(r),
                                mutable: *mutable,
                            },
                        ),
                    )
                },
                Err(e) => Err(e),
            }
        },
        TypeExpr::Slice { elem } => {
            match parse_type(elem) {
                Ok(r) => Ok(Recipe::Compound(CompoundRecipe::Slice { element: Box::new(r) })),
                Err(e) => Err(e),
            }
        },
        TypeExpr::Tuple { elems } => {
            match parse_types(elems) {
                Ok(rs) => Ok(Recipe::Compound(CompoundRecipe::Tuple { elements: rs })),
                Err(e) => Err(e),
            }
        },
        TypeExpr::Unsupported { kind } => Err(UnsupportedTypeExpression { kind: *kind }),
    }
}

/// Translates a run of type expressions, in order.
///
/// Fails exactly when one of them does, and then as the first of them that
/// fails.
pub fn parse_types(exprs: &Vec<TypeExpr>) -> (result: Result<
    Vec<Recipe>,
    UnsupportedTypeExpression,
>)
    ensures
        match translate_all(exprs_model(exprs@)) {
            Ok(rs) => result matches Ok(got) && recipes_model(got@) == rs,
            Err(k) => result == Err::<Vec<Recipe>, UnsupportedTypeExpression>(
                UnsupportedTypeExpression { kind: k },
            ),
        },
    decreases exprs,
{
    let ghost all = exprs_model(exprs@);
    let mut out: Vec<Recipe> = Vec::new();
    let mut i: usize = 0;
    assert(recipes_model(out@) =~= Seq::empty());
    while i < exprs.len()
        invariant
            i <= exprs.len(),
            all == exprs_model(exprs@),
            translate_all(all.take(i as int)) == Ok::<Seq<RecipeView>, ExprKind>(
                recipes_model(out@),
            ),
        decreases exprs.len() - i,
    {
        proof {
            assert(all.take(i + 1).drop_last() =~= all.take(i as int));
            assert(all.take(i + 1).last() == exprs@[i as int]@);
        }
        match parse_type(&exprs[i]) {
            Ok(r) => {
                let ghost before = recipes_model(out@);
                out.push(r);
                assert(recipes_model(out@) =~= before.push(r@));
            },
            Err(e) => {
                proof {
                    lemma_translate_all_fails_from(all, i + 1);
                }
                return Err(e);
            },
        }
        i = i + 1;
    }
    assert(all.take(i as int) =~= all);
    Ok(out)
}

/// Once a prefix fails, every longer prefix fails in the same way.
pub proof fn lemma_translate_all_fails_from(es: Seq<ExprView>, n: int)
    requires
        0 <= n <= es.len(),
        translate_all(es.take(n)) is Err,
    ensures
        translate_all(es) == translate_all(es.take(n)),
    decreases es.len(),
{
    if n < es.len() {
        assert(es.drop_last().take(n) =~= es.take(n));
        lemma_translate_all_fails_from(es.drop_last(), n);
    } else {
        assert(es.take(n) =~= es);
    }
}

} // verus!
