//! Construction recipes: how to build the descriptor of a type, with the
//! descriptors of named types left as calls to their own entry points.

use vstd::prelude::*;
use crate::syntax::texts;

verus! {

/// How to build one descriptor.
#[derive(Debug, PartialEq, Eq)]
pub enum Recipe {
    /// Ask the type spelled `target` for its own descriptor when the recipe
    /// is carried out.
    Deferred { target: String },
    /// The descriptor of the never type.
    Never,
    /// The descriptor of an aggregate.
    Compound(CompoundRecipe),
    /// The descriptor of a pointer-like type.
    Pointer(PointerRecipe),
    /// The descriptor of `impl B1 + B2 + ...`.
    Impl { bounds: Vec<String> },
    /// The descriptor of `dyn B1 + B2 + ...`.
    Dyn { bounds: Vec<String> },
}

/// How to build the descriptor of an aggregate.
#[derive(Debug, PartialEq, Eq)]
pub enum CompoundRecipe {
    /// A struct: its name, and its fields by key, in declaration order.
    Struct { name: String, fields: Vec<(String, Recipe)> },
    /// An enum: its name, and its variants by name, in declaration order.
    Enum { name: String, variants: Vec<(String, VariantRecipe)> },
    /// An array; `length` is the spelling of the length expression.
    Array { element: Box<Recipe>, length: String },
    /// A slice.
    Slice { element: Box<Recipe> },
    /// A tuple.
    Tuple { elements: Vec<Recipe> },
}

/// How to build the descriptor of a pointer-like type.
#[derive(Debug, PartialEq, Eq)]
pub enum PointerRecipe {
    /// A borrow; `lifetime` is empty where the borrow names none.
    Reference { lifetime: String, element: Box<Recipe>, mutable: bool },
}

/// How to build the descriptor of one enum variant.
#[derive(Debug, PartialEq, Eq)]
#[allow(inconsistent_fields)]
pub enum VariantRecipe {
    /// Fields by key, in declaration order.
    Named { fields: Vec<(String, Recipe)> },
    /// Fields by position.
    Unnamed { fields: Vec<Recipe> },
    /// No fields.
    Unit,
}

/// The mathematical value of a [`Recipe`].
pub enum RecipeView {
    Deferred { target: Seq<char> },
    Never,
    Compound(CompoundRecipeView),
    Pointer(PointerRecipeView),
    Impl { bounds: Seq<Seq<char>> },
    Dyn { bounds: Seq<Seq<char>> },
}

/// The mathematical value of a [`CompoundRecipe`].
pub enum CompoundRecipeView {
    Struct { name: Seq<char>, fields: Seq<(Seq<char>, RecipeView)> },
    Enum { name: Seq<char>, variants: Seq<(Seq<char>, VariantRecipeView)> },
    Array { element: Box<RecipeView>, length: Seq<char> },
    Slice { element: Box<RecipeView> },
    Tuple { elements: Seq<RecipeView> },
}

/// The mathematical value of a [`PointerRecipe`].
pub enum PointerRecipeView {
    Reference { lifetime: Seq<char>, element: Box<RecipeView>, mutable: bool },
}

/// The mathematical value of a [`VariantRecipe`].
#[allow(inconsistent_fields)]
pub enum VariantRecipeView {
    Named { fields: Seq<(Seq<char>, RecipeView)> },
    Unnamed { fields: Seq<RecipeView> },
    Unit,
}

/// The values of a run of recipes, in order.
pub open spec fn recipes_model(v: Seq<Recipe>) -> Seq<RecipeView>
    decreases v,
{
    Seq::new(
        v.len(),
        |i: int|
            if 0 <= i < v.len() {
                v[i].model()
            } else {
                RecipeView::Never
            },
    )
}

/// The values of a run of keyed recipes, in order.
pub open spec fn keyed_recipes_model(v: Seq<(String, Recipe)>) -> Seq<(Seq<char>, RecipeView)>
    decreases v,
{
    Seq::new(
        v.len(),
        |i: int|
            if 0 <= i < v.len() {
                (v[i].0@, v[i].1.model())
            } else {
                (Seq::empty(), RecipeView::Never)
            },
    )
}

/// The values of a run of named variant recipes, in order.
pub open spec fn variant_recipes_model(v: Seq<(String, VariantRecipe)>) -> Seq<
    (Seq<char>, VariantRecipeView),
>
    decreases v,
{
    Seq::new(
        v.len(),
        |i: int|
            if 0 <= i < v.len() {
                (v[i].0@, v[i].1.model())
            } else {
                (Seq::empty(), VariantRecipeView::Unit)
            },
    )
}

impl Recipe {
    /// The value of this recipe, with every string taken by its text.
    pub open spec fn model(&self) -> RecipeView
        decreases self,
    {
        match self {
            Recipe::Deferred { target } => RecipeView::Deferred { target: target@ },
            Recipe::Never => RecipeView::Never,
            Recipe::Compound(c) => RecipeView::Compound(c.model()),
            Recipe::Pointer(p) => RecipeView::Pointer(p.model()),
            Recipe::Impl { bounds } => RecipeView::Impl { bounds: texts(bounds@) },
            Recipe::Dyn { bounds } => RecipeView::Dyn { bounds: texts(bounds@) },
        }
    }
}

impl CompoundRecipe {
    /// The value of this recipe, with every string taken by its text.
    pub open spec fn model(&self) -> CompoundRecipeView
        decreases self,
    {
        match self {
            CompoundRecipe::Struct { name, fields } => CompoundRecipeView::Struct {
                name: name@,
                fields: keyed_recipes_model(fields@),
            },
            CompoundRecipe::Enum { name, variants } => CompoundRecipeView::Enum {
                name: name@,
                variants: variant_recipes_model(variants@),
            },
            CompoundRecipe::Array { element, length } => CompoundRecipeView::Array {
                element: Box::new(element.model()),
                length: length@,
            },
            CompoundRecipe::Slice { element } => CompoundRecipeView::Slice {
                element: Box::new(element.model()),
            },
            CompoundRecipe::Tuple { elements } => CompoundRecipeView::Tuple {
                elements: recipes_model(elements@),
            },
        }
    }
}

impl PointerRecipe {
    /// The value of this recipe, with every string taken by its text.
    pub open spec fn model(&self) -> PointerRecipeView
        decreases self,
    {
        match self {
            PointerRecipe::Reference { lifetime, element, mutable } => PointerRecipeView::Reference {
                lifetime: lifetime@,
                element: Box::new(element.model()),
                mutable: *mutable,
            },
        }
    }
}

impl VariantRecipe {
    /// The value of this recipe, with every string taken by its text.
    pub open spec fn model(&self) -> VariantRecipeView
        decreases self,
    {
        match self {
            VariantRecipe::Named { fields } => VariantRecipeView::Named {
                fields: keyed_recipes_model(fields@),
            },
            VariantRecipe::Unnamed { fields } => VariantRecipeView::Unnamed {
                fields: recipes_model(fields@),
            },
            VariantRecipe::Unit => VariantRecipeView::Unit,
        }
    }
}

impl View for Recipe {
    type V = RecipeView;

    open spec fn view(&self) -> RecipeView {
        self.model()
    }
}

impl View for CompoundRecipe {
    type V = CompoundRecipeView;

    open spec fn view(&self) -> CompoundRecipeView {
        self.model()
    }
}

impl View for PointerRecipe {
    type V = PointerRecipeView;

    open spec fn view(&self) -> PointerRecipeView {
        self.model()
    }
}

impl View for VariantRecipe {
    type V = VariantRecipeView;

    open spec fn view(&self) -> VariantRecipeView {
        self.model()
    }
}

} // verus!
