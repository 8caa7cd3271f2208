//! The parsed input: type expressions and type declarations, as plain values.
//!
//! A front end reads source text and hands over these trees; nothing here
//! looks at text again, except to carry spellings through unchanged.

use vstd::prelude::*;

verus! {

/// The syntactic forms of a type expression that no translation rule covers.
#[derive(Clone, Copy, Debug, PartialEq, Eq, Structural)]
pub enum ExprKind {
    /// A function pointer such as `fn(usize) -> bool`.
    BareFn,
    /// A type inside invisible delimiters.
    Group,
    /// The placeholder `_`.
    Infer,
    /// A macro invocation in type position.
    Macro,
    /// Tokens that the front end did not interpret.
    Verbatim,
}

/// A type expression as it appears in a field or element position.
#[derive(Debug, PartialEq, Eq)]
pub enum TypeExpr {
    /// `[T; N]`; `len` is the spelling of `N`, which is never evaluated here.
    Array { elem: Box<TypeExpr>, len: String },
    /// `(T)`.
    Paren { elem: Box<TypeExpr> },
    /// `!`.
    Never,
    /// A path such as `i32` or `std::vec::Vec<u8>`, by its spelling.
    Path { name: String },
    /// `*const T` or `*mut T`; `pointee` is the spelling of `T`.
    Ptr { pointee: String },
    /// `impl B1 + B2 + ...`, each bound by its spelling.
    ImplTrait { bounds: Vec<String> },
    /// `dyn B1 + B2 + ...`, each bound by its spelling.
    TraitObject { bounds: Vec<String> },
    /// `&'a T` or `&'a mut T`; `lifetime` is `None` where it is elided.
    Reference { lifetime: Option<String>, elem: Box<TypeExpr>, mutable: bool },
    /// `[T]`.
    Slice { elem: Box<TypeExpr> },
    /// `(T1, T2, ...)`, the unit type `()` included.
    Tuple { elems: Vec<TypeExpr> },
    /// Any other form.
    Unsupported { kind: ExprKind },
}

/// The mathematical value of a [`TypeExpr`].
pub enum ExprView {
    Array { elem: Box<ExprView>, len: Seq<char> },
    Paren { elem: Box<ExprView> },
    Never,
    Path { name: Seq<char> },
    Ptr { pointee: Seq<char> },
    ImplTrait { bounds: Seq<Seq<char>> },
    TraitObject { bounds: Seq<Seq<char>> },
    Reference { lifetime: Option<Seq<char>>, elem: Box<ExprView>, mutable: bool },
    Slice { elem: Box<ExprView> },
    Tuple { elems: Seq<ExprView> },
    Unsupported { kind: ExprKind },
}

/// The texts of a vector of strings, in order.
pub open spec fn texts(v: Seq<String>) -> Seq<Seq<char>> {
    Seq::new(v.len(), |i: int| v[i]@)
}

/// Copies a list of strings.
pub fn clone_texts(v: &Vec<String>) -> (copy: Vec<String>)
    ensures
        texts(copy@) == texts(v@),
{
    let mut copy: Vec<String> = Vec::new();
    let mut i: usize = 0;
    while i < v.len()
        invariant
            i <= v.len(),
            copy@.len() == i,
            forall|j: int| 0 <= j < i ==> copy@[j]@ == v@[j]@,
        decreases v.len() - i,
    {
        copy.push(v[i].clone());
        i = i + 1;
    }
    assert(texts(copy@) =~= texts(v@));
    copy
}

/// Whether two lists of strings hold the same texts in the same order.
pub fn same_texts(a: &Vec<String>, b: &Vec<String>) -> (same: bool)
    ensures
        same == (texts(a@) == texts(b@)),
{
    if a.len() != b.len() {
        assert(texts(a@).len() != texts(b@).len());
        return false;
    }
    let mut i: usize = 0;
    while i < a.len()
        invariant
            i <= a.len(),
            a.len() == b.len(),
            forall|j: int| 0 <= j < i ==> a@[j]@ == b@[j]@,
        decreases a.len() - i,
    {
        if a[i] != b[i] {
            assert(texts(a@)[i as int] != texts(b@)[i as int]);
            return false;
        }
        i = i + 1;
    }
    assert(texts(a@) =~= texts(b@));
    true
}

/// The text of an optional string.
pub open spec fn opt_text(s: Option<String>) -> Option<Seq<char>> {
    match s {
        Some(t) => Some(t@),
        None => None,
    }
}

/// The values of a run of type expressions, in order.
pub open spec fn exprs_model(v: Seq<TypeExpr>) -> Seq<ExprView>
    decreases v,
{
    Seq::new(
        v.len(),
        |i: int|
            if 0 <= i < v.len() {
                v[i].model()
            } else {
                ExprView::Never
            },
    )
}

impl TypeExpr {
    /// The value of this expression, with every string taken by its text.
    pub open spec fn model(&self) -> ExprView
        decreases self,
    {
        match self {
            TypeExpr::Array { elem, len } => ExprView::Array { elem: Box::new(elem.model()), len: len@ },
            TypeExpr::Paren { elem } => ExprView::Paren { elem: Box::new(elem.model()) },
            TypeExpr::Never => ExprView::Never,
            TypeExpr::Path { name } => ExprView::Path { name: name@ },
            TypeExpr::Ptr { pointee } => ExprView::Ptr { pointee: pointee@ },
            TypeExpr::ImplTrait { bounds } => ExprView::ImplTrait { bounds: texts(bounds@) },
            TypeExpr::TraitObject { bounds } => ExprView::TraitObject { bounds: texts(bounds@) },
            TypeExpr::Reference { lifetime, elem, mutable } => ExprView::Reference {
                lifetime: opt_text(*lifetime),
                elem: Box::new(elem.model()),
                mutable: *mutable,
            },
            TypeExpr::Slice { elem } => ExprView::Slice { elem: Box::new(elem.model()) },
            TypeExpr::Tuple { elems } => ExprView::Tuple { elems: exprs_model(elems@) },
            TypeExpr::Unsupported { kind } => ExprView::Unsupported { kind: *kind },
        }
    }
}

impl View for TypeExpr {
    type V = ExprView;

    open spec fn view(&self) -> ExprView {
        self.model()
    }
}

/// One field of a struct or of an enum variant.
#[derive(Debug, PartialEq, Eq)]
pub struct Field {
    /// The declared name; `None` for a positional field.
    pub ident: Option<String>,
    /// The declared type.
    pub ty: TypeExpr,
}

/// The field list of a struct or of an enum variant, in declaration order.
#[derive(Debug, PartialEq, Eq)]
pub enum Fields {
    /// `{ a: A, b: B }`.
    Named(Vec<Field>),
    /// `(A, B)`.
    Unnamed(Vec<Field>),
    /// No field list at all.
    Unit,
}

/// One variant of an enum.
#[derive(Debug, PartialEq, Eq)]
pub struct Variant {
    /// The variant's name.
    pub ident: String,
    /// The variant's fields.
    pub fields: Fields,
}

/// The kinds of declaration that have no descriptor.
#[derive(Clone, Copy, Debug, PartialEq, Eq, Structural)]
pub enum DeclKind {
    Const,
    CrateImport,
    Fn,
    ForeignMod,
    Impl,
    Macro,
    Mod,
    Static,
    Trait,
    TraitAlias,
    Type,
    Union,
    Use,
    Verbatim,
}

/// A declaration handed over for description.
#[derive(Debug, PartialEq, Eq)]
#[allow(inconsistent_fields)]
pub enum Declaration {
    /// `struct ident ...`.
    Struct { ident: String, fields: Fields },
    /// `enum ident { ... }`, its variants in declaration order.
    Enum { ident: String, variants: Vec<Variant> },
    /// Anything else, with its name where it has one.
    Other { kind: DeclKind, ident: Option<String> },
}

/// The mathematical value of a [`Field`].
pub struct FieldView {
    pub ident: Option<Seq<char>>,
    pub ty: ExprView,
}

/// The mathematical value of a [`Fields`].
pub enum FieldsView {
    Named(Seq<FieldView>),
    Unnamed(Seq<FieldView>),
    Unit,
}

/// The mathematical value of a [`Variant`].
pub struct VariantView {
    pub ident: Seq<char>,
    pub fields: FieldsView,
}

/// The mathematical value of a [`Declaration`].
#[allow(inconsistent_fields)]
pub enum DeclView {
    Struct { ident: Seq<char>, fields: FieldsView },
    Enum { ident: Seq<char>, variants: Seq<VariantView> },
    Other { kind: DeclKind, ident: Option<Seq<char>> },
}

impl FieldsView {
    /// The fields in declaration order, whatever the shape of the list.
    pub open spec fn list(self) -> Seq<FieldView> {
        match self {
            FieldsView::Named(fs) => fs,
            FieldsView::Unnamed(fs) => fs,
            FieldsView::Unit => Seq::empty(),
        }
    }
}

impl View for Field {
    type V = FieldView;

    open spec fn view(&self) -> FieldView {
        FieldView { ident: opt_text(self.ident), ty: self.ty@ }
    }
}

/// The values of a run of fields, in order.
pub open spec fn fields_model(v: Seq<Field>) -> Seq<FieldView> {
    Seq::new(v.len(), |i: int| v[i]@)
}

impl View for Fields {
    type V = FieldsView;

    open spec fn view(&self) -> FieldsView {
        match self {
            Fields::Named(fs) => FieldsView::Named(fields_model(fs@)),
            Fields::Unnamed(fs) => FieldsView::Unnamed(fields_model(fs@)),
            Fields::Unit => FieldsView::Unit,
        }
    }
}

impl View for Variant {
    type V = VariantView;

    open spec fn view(&self) -> VariantView {
        VariantView { ident: self.ident@, fields: self.fields@ }
    }
}

/// The values of a run of variants, in order.
pub open spec fn variants_model(v: Seq<Variant>) -> Seq<VariantView> {
    Seq::new(v.len(), |i: int| v[i]@)
}

impl View for Declaration {
    type V = DeclView;

    open spec fn view(&self) -> DeclView {
        match self {
            Declaration::Struct { ident, fields } => DeclView::Struct {
                ident: ident@,
                fields: fields@,
            },
            Declaration::Enum { ident, variants } => DeclView::Enum {
                ident: ident@,
                variants: variants_model(variants@),
            },
            Declaration::Other { kind, ident } => DeclView::Other {
                kind: *kind,
                ident: opt_text(*ident),
            },
        }
    }
}

} // verus!
