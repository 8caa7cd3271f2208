//! Descriptors: the shape of a type as a value.

use vstd::prelude::*;
use crate::syntax::{clone_texts, same_texts, texts};

verus! {

/// The descriptor of a type.
#[derive(Debug, PartialEq, Eq)]
pub enum TypeInfo {
    /// A leaf: a type that describes itself and is not taken apart.
    Primitive,
    /// The never type.
    Never,
    /// An aggregate.
    Compound(CompoundType),
    /// A pointer-like type.
    Pointer(PointerType),
    /// `impl B1 + B2 + ...`, each bound by its spelling.
    Impl { bounds: Vec<String> },
    /// `dyn B1 + B2 + ...`, each bound by its spelling.
    Dyn { bounds: Vec<String> },
}

/// The descriptor of an aggregate.
///
/// `fields` and `variants` are mappings, held as entries in declaration
/// order; in a well-formed descriptor no key occurs twice.
#[derive(Debug, PartialEq, Eq)]
pub enum CompoundType {
    Struct { name: String, fields: Vec<(String, TypeInfo)> },
    Enum { name: String, variants: Vec<(String, EnumVariant)> },
    Array { element: Box<TypeInfo>, length: usize },
    Slice { element: Box<TypeInfo> },
    Tuple { elements: Vec<TypeInfo> },
}

/// The descriptor of a pointer-like type.
#[derive(Debug, PartialEq, Eq)]
pub enum PointerType {
    /// A borrow; `lifetime` is empty where the borrow names none.
    Reference { lifetime: String, element: Box<TypeInfo>, mutable: bool },
}

/// The descriptor of one enum variant.
#[derive(Debug, PartialEq, Eq)]
#[allow(inconsistent_fields)]
pub enum EnumVariant {
    /// Fields by key; in a well-formed descriptor no key occurs twice.
    NamedVariant { fields: Vec<(String, TypeInfo)> },
    /// Fields by position.
    UnnamedVariant { fields: Vec<TypeInfo> },
    /// No fields.
    UnitVariant,
}

/// The mathematical value of a [`TypeInfo`].
pub enum TypeInfoView {
    Primitive,
    Never,
    Compound(CompoundTypeView),
    Pointer(PointerTypeView),
    Impl { bounds: Seq<Seq<char>> },
    Dyn { bounds: Seq<Seq<char>> },
}

/// The mathematical value of a [`CompoundType`].
pub enum CompoundTypeView {
    Struct { name: Seq<char>, fields: Seq<(Seq<char>, TypeInfoView)> },
    Enum { name: Seq<char>, variants: Seq<(Seq<char>, EnumVariantView)> },
    Array { element: Box<TypeInfoView>, length: nat },
    Slice { element: Box<TypeInfoView> },
    Tuple { elements: Seq<TypeInfoView> },
}

/// The mathematical value of a [`PointerType`].
pub enum PointerTypeView {
    Reference { lifetime: Seq<char>, element: Box<TypeInfoView>, mutable: bool },
}

/// The mathematical value of an [`EnumVariant`].
#[allow(inconsistent_fields)]
pub enum EnumVariantView {
    NamedVariant { fields: Seq<(Seq<char>, TypeInfoView)> },
    UnnamedVariant { fields: Seq<TypeInfoView> },
    UnitVariant,
}

/// The keys of a run of entries, in order.
pub open spec fn keys<V>(entries: Seq<(Seq<char>, V)>) -> Seq<Seq<char>> {
    Seq::new(entries.len(), |i: int| entries[i].0)
}

/// The mapping that a run of entries with distinct keys stands for.
pub open spec fn mapping<V>(entries: Seq<(Seq<char>, V)>) -> Map<Seq<char>, V> {
    Map::new(
        |k: Seq<char>| keys(entries).contains(k),
        |k: Seq<char>| entries[keys(entries).index_of(k)].1,
    )
}

impl TypeInfoView {
    /// Whether no key occurs twice in any mapping of this descriptor.
    pub open spec fn wf(self) -> bool
        decreases self,
    {
        match self {
            TypeInfoView::Compound(c) => c.wf(),
            TypeInfoView::Pointer(p) => p.wf(),
            _ => true,
        }
    }
}

impl CompoundTypeView {
    /// Whether no key occurs twice in any mapping of this descriptor.
    pub open spec fn wf(self) -> bool
        decreases self,
    {
        match self {
            CompoundTypeView::Struct { fields, .. } => {
                &&& keys(fields).no_duplicates()
                &&& forall|i: int| 0 <= i < fields.len() ==> (#[trigger] fields[i]).1.wf()
            },
            CompoundTypeView::Enum { variants, .. } => {
                &&& keys(variants).no_duplicates()
                &&& forall|i: int| 0 <= i < variants.len() ==> (#[trigger] variants[i]).1.wf()
            },
            CompoundTypeView::Array { element, .. } => element.wf(),
            CompoundTypeView::Slice { element } => element.wf(),
            CompoundTypeView::Tuple { elements } => forall|i: int|
                0 <= i < elements.len() ==> (#[trigger] elements[i]).wf(),
        }
    }
}

impl PointerTypeView {
    /// Whether no key occurs twice in any mapping of this descriptor.
    pub open spec fn wf(self) -> bool
        decreases self,
    {
        match self {
            PointerTypeView::Reference { element, .. } => element.wf(),
        }
    }
}

impl EnumVariantView {
    /// Whether no key occurs twice in any mapping of this descriptor.
    pub open spec fn wf(self) -> bool
        decreases self,
    {
        match self {
            EnumVariantView::NamedVariant { fields } => {
                &&& keys(fields).no_duplicates()
                &&& forall|i: int| 0 <= i < fields.len() ==> (#[trigger] fields[i]).1.wf()
            },
            EnumVariantView::UnnamedVariant { fields } => forall|i: int|
                0 <= i < fields.len() ==> (#[trigger] fields[i]).wf(),
            EnumVariantView::UnitVariant => true,
        }
    }
}

/// The values of a run of descriptors, in order.
pub open spec fn infos_model(v: Seq<TypeInfo>) -> Seq<TypeInfoView>
    decreases v,
{
    Seq::new(
        v.len(),
        |i: int|
            if 0 <= i < v.len() {
                v[i].model()
            } else {
                TypeInfoView::Never
            },
    )
}

/// The values of a run of keyed descriptors, in order.
pub open spec fn keyed_infos_model(v: Seq<(String, TypeInfo)>) -> Seq<(Seq<char>, TypeInfoView)>
    decreases v,
{
    Seq::new(
        v.len(),
        |i: int|
            if 0 <= i < v.len() {
                (v[i].0@, v[i].1.model())
            } else {
                (Seq::empty(), TypeInfoView::Never)
            },
    )
}

/// The values of a run of named variant descriptors, in order.
pub open spec fn variant_infos_model(v: Seq<(String, EnumVariant)>) -> Seq<
    (Seq<char>, EnumVariantView),
>
    decreases v,
{
    Seq::new(
        v.len(),
        |i: int|
            if 0 <= i < v.len() {
                (v[i].0@, v[i].1.model())
            } else {
                (Seq::empty(), EnumVariantView::UnitVariant)
            },
    )
}

impl TypeInfo {
    /// The value of this descriptor, with every string taken by its text.
    pub open spec fn model(&self) -> TypeInfoView
        decreases self,
    {
        match self {
            TypeInfo::Primitive => TypeInfoView::Primitive,
            TypeInfo::Never => TypeInfoView::Never,
            TypeInfo::Compound(c) => TypeInfoView::Compound(c.model()),
            TypeInfo::Pointer(p) => TypeInfoView::Pointer(p.model()),
            TypeInfo::Impl { bounds } => TypeInfoView::Impl { bounds: texts(bounds@) },
            TypeInfo::Dyn { bounds } => TypeInfoView::Dyn { bounds: texts(bounds@) },
        }
    }

    /// A deep copy of this descriptor.
    pub fn copy(&self) -> (c: TypeInfo)
        ensures
            c@ == self@,
        decreases self,
    {
        match self {
            TypeInfo::Primitive => TypeInfo::Primitive,
            TypeInfo::Never => TypeInfo::Never,
            TypeInfo::Compound(c) => TypeInfo::Compound(c.copy()),
            TypeInfo::Pointer(p) => TypeInfo::Pointer(p.copy()),
            TypeInfo::Impl { bounds } => TypeInfo::Impl { bounds: clone_texts(bounds) },
            TypeInfo::Dyn { bounds } => TypeInfo::Dyn { bounds: clone_texts(bounds) },
        }
    }
}

impl CompoundType {
    /// The value of this descriptor, with every string taken by its text.
    pub open spec fn model(&self) -> CompoundTypeView
        decreases self,
    {
        match self {
            CompoundType::Struct { name, fields } => CompoundTypeView::Struct {
                name: name@,
                fields: keyed_infos_model(fields@),
            },
            CompoundType::Enum { name, variants } => CompoundTypeView::Enum {
                name: name@,
                variants: variant_infos_model(variants@),
            },
            CompoundType::Array { element, length } => CompoundTypeView::Array {
                element: Box::new(element.model()),
                length: *length as nat,
            },
            CompoundType::Slice { element } => CompoundTypeView::Slice {
                element: Box::new(element.model()),
            },
            CompoundType::Tuple { elements } => CompoundTypeView::Tuple {
                elements: infos_model(elements@),
            },
        }
    }

    /// A deep copy of this descriptor.
    pub fn copy(&self) -> (c: CompoundType)
        ensures
            c@ == self@,
        decreases self,
    {
        match self {
            CompoundType::Struct { name, fields } => CompoundType::Struct {
                name: name.clone(),
                fields: copy_keyed_infos(fields),
            },
            CompoundType::Enum { name, variants } => CompoundType::Enum {
                name: name.clone(),
                variants: copy_variant_infos(variants),
            },
            CompoundType::Array { element, length } => CompoundType::Array {
                element: Box::new(element.copy()),
                length: *length,
            },
            CompoundType::Slice { element } => CompoundType::Slice {
                element: Box::new(element.copy()),
            },
            CompoundType::Tuple { elements } => CompoundType::Tuple {
                elements: copy_infos(elements),
            },
        }
    }
}

impl PointerType {
    /// The value of this descriptor, with every string taken by its text.
    pub open spec fn model(&self) -> PointerTypeView
        decreases self,
    {
        match self {
            PointerType::Reference { lifetime, element, mutable } => PointerTypeView::Reference {
                lifetime: lifetime@,
                element: Box::new(element.model()),
                mutable: *mutable,
            },
        }
    }

    /// A deep copy of this descriptor.
    pub fn copy(&self) -> (c: PointerType)
        ensures
            c@ == self@,
        decreases self,
    {
        match self {
            PointerType::Reference { lifetime, element, mutable } => PointerType::Reference {
                lifetime: lifetime.clone(),
                element: Box::new(element.copy()),
                mutable: *mutable,
            },
        }
    }
}

impl EnumVariant {
    /// The value of this descriptor, with every string taken by its text.
    pub open spec fn model(&self) -> EnumVariantView
        decreases self,
    {
        match self {
            EnumVariant::NamedVariant { fields } => EnumVariantView::NamedVariant {
                fields: keyed_infos_model(fields@),
            },
            EnumVariant::UnnamedVariant { fields } => EnumVariantView::UnnamedVariant {
                fields: infos_model(fields@),
            },
            EnumVariant::UnitVariant => EnumVariantView::UnitVariant,
        }
    }

    /// A deep copy of this descriptor.
    pub fn copy(&self) -> (c: EnumVariant)
        ensures
            c@ == self@,
        decreases self,
    {
        match self {
            EnumVariant::NamedVariant { fields } => EnumVariant::NamedVariant {
                fields: copy_keyed_infos(fields),
            },
            EnumVariant::UnnamedVariant { fields } => EnumVariant::UnnamedVariant {
                fields: copy_infos(fields),
            },
            EnumVariant::UnitVariant => EnumVariant::UnitVariant,
        }
    }
}

/// Deep copies of a run of descriptors, in order.
pub fn copy_infos(infos: &Vec<TypeInfo>) -> (out: Vec<TypeInfo>)
    ensures
        infos_model(out@) == infos_model(infos@),
    decreases infos,
{
    let mut out: Vec<TypeInfo> = Vec::new();
    let mut i: usize = 0;
    while i < infos.len()
        invariant
            i <= infos.len(),
            out@.len() == i,
            forall|j: int| 0 <= j < i ==> (#[trigger] out@[j])@ == infos@[j]@,
        decreases infos.len() - i,
    {
        out.push(infos[i].copy());
        i = i + 1;
    }
    assert(infos_model(out@) =~= infos_model(infos@));
    out
}

/// Deep copies of a run of keyed descriptors, in order.
pub fn copy_keyed_infos(entries: &Vec<(String, TypeInfo)>) -> (out: Vec<(String, TypeInfo)>)
    ensures
        keyed_infos_model(out@) == keyed_infos_model(entries@),
    decreases entries,
{
    let mut out: Vec<(String, TypeInfo)> = Vec::new();
    let mut i: usize = 0;
    while i < entries.len()
        invariant
            i <= entries.len(),
            out@.len() == i,
            forall|j: int|
                0 <= j < i ==> (#[trigger] out@[j]).0@ == entries@[j].0@ && out@[j].1@
                    == entries@[j].1@,
        decreases entries.len() - i,
    {
        out.push((entries[i].0.clone(), entries[i].1.copy()));
        i = i + 1;
    }
    assert(keyed_infos_model(out@) =~= keyed_infos_model(entries@));
    out
}

/// Deep copies of a run of named variant descriptors, in order.
pub fn copy_variant_infos(entries: &Vec<(String, EnumVariant)>) -> (out: Vec<
    (String, EnumVariant),
>)
    ensures
        variant_infos_model(out@) == variant_infos_model(entries@),
    decreases entries,
{
    let mut out: Vec<(String, EnumVariant)> = Vec::new();
    let mut i: usize = 0;
    while i < entries.len()
        invariant
            i <= entries.len(),
            out@.len() == i,
            forall|j: int|
                0 <= j < i ==> (#[trigger] out@[j]).0@ == entries@[j].0@ && out@[j].1@
                    == entries@[j].1@,
        decreases entries.len() - i,
    {
        out.push((entries[i].0.clone(), entries[i].1.copy()));
        i = i + 1;
    }
    assert(variant_infos_model(out@) =~= variant_infos_model(entries@));
    out
}

impl TypeInfo {
    /// Structural equality: the same tag, and the same in everything nested.
    pub fn same_as(&self, other: &TypeInfo) -> (same: bool)
        ensures
            same == (self@ == other@),
        decreases self,
    {
        match self {
            TypeInfo::Primitive => match other {
                TypeInfo::Primitive => true,
                _ => false,
            },
            TypeInfo::Never => match other {
                TypeInfo::Never => true,
                _ => false,
            },
            TypeInfo::Compound(a) => match other {
                TypeInfo::Compound(b) => a.same_as(b),
                _ => false,
            },
            TypeInfo::Pointer(a) => match other {
                TypeInfo::Pointer(b) => a.same_as(b),
                _ => false,
            },
            TypeInfo::Impl { bounds: a } => match other {
                TypeInfo::Impl { bounds: b } => same_texts(a, b),
                _ => false,
            },
            TypeInfo::Dyn { bounds: a } => match other {
                TypeInfo::Dyn { bounds: b } => same_texts(a, b),
                _ => false,
            },
        }
    }
}

impl CompoundType {
    /// Structural equality: the same tag, and the same in everything nested.
    pub fn same_as(&self, other: &CompoundType) -> (same: bool)
        ensures
            same == (self@ == other@),
        decreases self,
    {
        match self {
            CompoundType::Struct { name: n, fields: a } => match other {
                CompoundType::Struct { name: m, fields: b } => *n == *m && same_keyed_infos(a, b),
                _ => false,
            },
            CompoundType::Enum { name: n, variants: a } => match other {
                CompoundType::Enum { name: m, variants: b } => *n == *m && same_variant_infos(
                    a,
                    b,
                ),
                _ => false,
            },
            CompoundType::Array { element: a, length: n } => match other {
                CompoundType::Array { element: b, length: m } => *n == *m && a.same_as(b),
                _ => false,
            },
            CompoundType::Slice { element: a } => match other {
                CompoundType::Slice { element: b } => a.same_as(b),
                _ => false,
            },
            CompoundType::Tuple { elements: a } => match other {
                CompoundType::Tuple { elements: b } => same_infos(a, b),
                _ => false,
            },
        }
    }
}

impl PointerType {
    /// Structural equality: the same tag, and the same in everything nested.
    pub fn same_as(&self, other: &PointerType) -> (same: bool)
        ensures
            same == (self@ == other@),
        decreases self,
    {
        match self {
            PointerType::Reference { lifetime: l, element: a, mutable: p } => match other {
                PointerType::Reference { lifetime: k, element: b, mutable: q } => {
                    *l == *k && *p == *q && a.same_as(b)
                },
            },
        }
    }
}

impl EnumVariant {
    /// Structural equality: the same tag, and the same in everything nested.
    pub fn same_as(&self, other: &EnumVariant) -> (same: bool)
        ensures
            same == (self@ == other@),
        decreases self,
    {
        match self {
            EnumVariant::NamedVariant { fields: a } => match other {
                EnumVariant::NamedVariant { fields: b } => same_keyed_infos(a, b),
                _ => false,
            },
            EnumVariant::UnnamedVariant { fields: a } => match other {
                EnumVariant::UnnamedVariant { fields: b } => same_infos(a, b),
                _ => false,
            },
            EnumVariant::UnitVariant => match other {
                EnumVariant::UnitVariant => true,
                _ => false,
            },
        }
    }
}

/// Whether two runs of descriptors are equal, place by place.
pub fn same_infos(a: &Vec<TypeInfo>, b: &Vec<TypeInfo>) -> (same: bool)
    ensures
        same == (infos_model(a@) == infos_model(b@)),
    decreases a,
{
    if a.len() != b.len() {
        assert(infos_model(a@).len() != infos_model(b@).len());
        return false;
    }
    let mut i: usize = 0;
    while i < a.len()
        invariant
            i <= a.len(),
            a.len() == b.len(),
            forall|j: int| 0 <= j < i ==> (#[trigger] a@[j])@ == b@[j]@,
        decreases a.len() - i,
    {
        if !a[i].same_as(&b[i]) {
            assert(infos_model(a@)[i as int] != infos_model(b@)[i as int]);
            return false;
        }
        i = i + 1;
    }
    assert(infos_model(a@) =~= infos_model(b@));
    true
}

/// Whether two runs of keyed descriptors are equal, place by place.
pub fn same_keyed_infos(a: &Vec<(String, TypeInfo)>, b: &Vec<(String, TypeInfo)>) -> (same: bool)
    ensures
        same == (keyed_infos_model(a@) == keyed_infos_model(b@)),
    decreases a,
{
    if a.len() != b.len() {
        assert(keyed_infos_model(a@).len() != keyed_infos_model(b@).len());
        return false;
    }
    let mut i: usize = 0;
    while i < a.len()
        invariant
            i <= a.len(),
            a.len() == b.len(),
            forall|j: int|
                0 <= j < i ==> (#[trigger] a@[j]).0@ == b@[j].0@ && a@[j].1@ == b@[j].1@,
        decreases a.len() - i,
    {
        if a[i].0 != b[i].0 || !a[i].1.same_as(&b[i].1) {
            assert(keyed_infos_model(a@)[i as int] != keyed_infos_model(b@)[i as int]);
            return false;
        }
        i = i + 1;
    }
    assert(keyed_infos_model(a@) =~= keyed_infos_model(b@));
    true
}

/// Whether two runs of named variant descriptors are equal, place by place.
pub fn same_variant_infos(a: &Vec<(String, EnumVariant)>, b: &Vec<(String, EnumVariant)>) -> (same:
    bool)
    ensures
        same == (variant_infos_model(a@) == variant_infos_model(b@)),
    decreases a,
{
    if a.len() != b.len() {
        assert(variant_infos_model(a@).len() != variant_infos_model(b@).len());
        return false;
    }
    let mut i: usize = 0;
    while i < a.len()
        invariant
            i <= a.len(),
            a.len() == b.len(),
            forall|j: int|
                0 <= j < i ==> (#[trigger] a@[j]).0@ == b@[j].0@ && a@[j].1@ == b@[j].1@,
        decreases a.len() - i,
    {
        if a[i].0 != b[i].0 || !a[i].1.same_as(&b[i].1) {
            assert(variant_infos_model(a@)[i as int] != variant_infos_model(b@)[i as int]);
            return false;
        }
        i = i + 1;
    }
    assert(variant_infos_model(a@) =~= variant_infos_model(b@));
    true
}

impl View for TypeInfo {
    type V = TypeInfoView;

    open spec fn view(&self) -> TypeInfoView {
        self.model()
    }
}

impl View for CompoundType {
    type V = CompoundTypeView;

    open spec fn view(&self) -> CompoundTypeView {
        self.model()
    }
}

impl View for PointerType {
    type V = PointerTypeView;

    open spec fn view(&self) -> PointerTypeView {
        self.model()
    }
}

impl View for EnumVariant {
    type V = EnumVariantView;

    open spec fn view(&self) -> EnumVariantView {
        self.model()
    }
}

} // verus!
