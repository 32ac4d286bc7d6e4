//! The structural description of a type that every generator reads.

use crate::lexical::{
    check_identifier, check_scope_label, check_text, is_identifier, is_scope_label, is_text,
};
use vstd::prelude::*;

verus! {

/// A generic type parameter with the bounds it was declared with. Each bound is
/// carried as text.
#[derive(Debug, Clone)]
pub struct TypeParam {
    pub name: String,
    pub bounds: Vec<String>,
}

/// What a [`TypeParam`] stands for in contracts.
pub struct TypeParamView {
    pub name: Seq<char>,
    pub bounds: Seq<Seq<char>>,
}

impl DeepView for TypeParam {
    type V = TypeParamView;

    open spec fn deep_view(&self) -> TypeParamView {
        TypeParamView { name: self.name@, bounds: self.bounds.deep_view() }
    }
}

impl TypeParamView {
    /// A well-formed parameter has an identifier for its name and no empty
    /// bound.
    pub open spec fn well_formed(self) -> bool {
        &&& is_identifier(self.name)
        &&& forall|i: int| 0 <= i < self.bounds.len() ==> is_text(#[trigger] self.bounds[i])
    }
}

/// How a variant lists its fields.
#[derive(Debug, Clone, Copy, PartialEq, Eq, Structural)]
pub enum Shape {
    /// No field list at all.
    Unit,
    /// Positional fields in parentheses.
    Tuple,
    /// Named fields in braces.
    Named,
}

/// One field: its name, where the variant names its fields, and its declared
/// type as text.
#[derive(Debug, Clone)]
pub struct Field {
    pub name: Option<String>,
    pub ty: String,
}

/// What a [`Field`] stands for in contracts.
pub struct FieldView {
    pub name: Option<Seq<char>>,
    pub ty: Seq<char>,
}

impl DeepView for Field {
    type V = FieldView;

    open spec fn deep_view(&self) -> FieldView {
        FieldView { name: self.name.deep_view(), ty: self.ty@ }
    }
}

impl FieldView {
    /// A field fits a shape when it is named exactly where the shape names its
    /// fields.
    pub open spec fn fits(self, shape: Shape) -> bool {
        &&& is_text(self.ty)
        &&& match shape {
            Shape::Unit => false,
            Shape::Tuple => self.name is None,
            Shape::Named => self.name matches Some(name) && is_identifier(name),
        }
    }
}

/// One binding group: a variant of a sum type, or the whole of a product type.
#[derive(Debug, Clone)]
pub struct Variant {
    pub name: String,
    pub shape: Shape,
    pub fields: Vec<Field>,
}

/// What a [`Variant`] stands for in contracts.
pub struct VariantView {
    pub name: Seq<char>,
    pub shape: Shape,
    pub fields: Seq<FieldView>,
}

impl DeepView for Variant {
    type V = VariantView;

    open spec fn deep_view(&self) -> VariantView {
        VariantView { name: self.name@, shape: self.shape, fields: self.fields.deep_view() }
    }
}

impl VariantView {
    /// A well-formed variant has an identifier for its name, and every field
    /// fits its shape.
    pub open spec fn well_formed(self) -> bool {
        &&& is_identifier(self.name)
        &&& forall|i: int|
            0 <= i < self.fields.len() ==> (#[trigger] self.fields[i]).fits(self.shape)
    }
}

/// Whether the described type is a product (a struct) or a sum (an enum).
#[derive(Debug, Clone, Copy, PartialEq, Eq, Structural)]
pub enum Kind {
    Product,
    Sum,
}

/// The description of one type: its name, its scope parameters, its type
/// parameters, its fields grouped by variant, and the constraints it was
/// declared with. A product type has exactly one variant, which carries the
/// type's own fields.
#[derive(Debug, Clone)]
pub struct TypeDescriptor {
    pub name: String,
    pub scope_params: Vec<String>,
    pub type_params: Vec<TypeParam>,
    pub kind: Kind,
    pub variants: Vec<Variant>,
    pub where_constraints: Vec<String>,
}

/// What a [`TypeDescriptor`] stands for in contracts.
pub struct DescriptorView {
    pub name: Seq<char>,
    pub scope_params: Seq<Seq<char>>,
    pub type_params: Seq<TypeParamView>,
    pub kind: Kind,
    pub variants: Seq<VariantView>,
    pub where_constraints: Seq<Seq<char>>,
}

impl View for TypeDescriptor {
    type V = DescriptorView;

    open spec fn view(&self) -> DescriptorView {
        DescriptorView {
            name: self.name@,
            scope_params: self.scope_params.deep_view(),
            type_params: self.type_params.deep_view(),
            kind: self.kind,
            variants: self.variants.deep_view(),
            where_constraints: self.where_constraints.deep_view(),
        }
    }
}

/// The names of a list of type parameters, in order.
pub open spec fn param_names(params: Seq<TypeParamView>) -> Seq<Seq<char>> {
    Seq::new(params.len(), |i: int| params[i].name)
}

impl DescriptorView {
    /// The names of the type parameters, in order.
    pub open spec fn type_names(self) -> Seq<Seq<char>> {
        param_names(self.type_params)
    }

    /// Whether `ident` is already taken by the type: as its name, as one of its
    /// scope parameters, or as one of its type parameters.
    pub open spec fn declares(self, ident: Seq<char>) -> bool {
        ||| self.name == ident
        ||| self.scope_params.contains(ident)
        ||| self.type_names().contains(ident)
    }

    /// A well-formed descriptor names everything it declares with proper
    /// identifiers, declares no parameter twice, carries no empty text, and
    /// groups its fields consistently with its kind.
    pub open spec fn well_formed(self) -> bool {
        &&& is_identifier(self.name)
        &&& forall|i: int|
            0 <= i < self.scope_params.len() ==> is_scope_label(#[trigger] self.scope_params[i])
        &&& self.scope_params.no_duplicates()
        &&& forall|i: int|
            0 <= i < self.type_params.len() ==> (#[trigger] self.type_params[i]).well_formed()
        &&& self.type_names().no_duplicates()
        &&& forall|i: int|
            0 <= i < self.where_constraints.len() ==> is_text(#[trigger] self.where_constraints[i])
        &&& (self.kind == Kind::Product ==> self.variants.len() == 1)
        &&& forall|i: int|
            0 <= i < self.variants.len() ==> (#[trigger] self.variants[i]).well_formed()
    }
}

/// Whether every string of `list` is non-empty text.
fn all_text(list: &Vec<String>) -> (b: bool)
    ensures
        b == forall|i: int| 0 <= i < list.len() ==> is_text(#[trigger] list.deep_view()[i]),
{
    let mut i: usize = 0;
    while i < list.len()
        invariant
            i <= list.len(),
            forall|j: int| 0 <= j < i ==> is_text(#[trigger] list.deep_view()[j]),
        decreases list.len() - i,
    {
        if !check_text(list[i].as_str()) {
            assert(!is_text(list.deep_view()[i as int]));
            return false;
        }
        i += 1;
    }
    true
}

/// Whether every string of `list` is a scope label.
fn all_scope_labels(list: &Vec<String>) -> (b: bool)
    ensures
        b == forall|i: int| 0 <= i < list.len() ==> is_scope_label(#[trigger] list.deep_view()[i]),
{
    let mut i: usize = 0;
    while i < list.len()
        invariant
            i <= list.len(),
            forall|j: int| 0 <= j < i ==> is_scope_label(#[trigger] list.deep_view()[j]),
        decreases list.len() - i,
    {
        if !check_scope_label(list[i].as_str()) {
            assert(!is_scope_label(list.deep_view()[i as int]));
            return false;
        }
        i += 1;
    }
    true
}

/// Whether `ident` occurs in `list`.
pub fn contains_name(list: &Vec<String>, ident: &str) -> (b: bool)
    ensures
        b == list.deep_view().contains(ident@),
{
    let wanted = ident.to_owned();
    let mut i: usize = 0;
    while i < list.len()
        invariant
            i <= list.len(),
            wanted@ == ident@,
            forall|j: int| 0 <= j < i ==> list.deep_view()[j] != ident@,
        decreases list.len() - i,
    {
        if list[i] == wanted {
            assert(list.deep_view()[i as int] == ident@);
            return true;
        }
        i += 1;
    }
    false
}

/// Whether no string occurs twice in `list`.
fn all_distinct(list: &Vec<String>) -> (b: bool)
    ensures
        b == list.deep_view().no_duplicates(),
{
    let mut i: usize = 0;
    while i < list.len()
        invariant
            i <= list.len(),
            forall|a: int, b: int|
                0 <= a < i && a < b < list.len() ==> list.deep_view()[a] != list.deep_view()[b],
        decreases list.len() - i,
    {
        let mut j: usize = i + 1;
        while j < list.len()
            invariant
                i < j <= list.len(),
                forall|b: int| i < b < j ==> list.deep_view()[i as int] != list.deep_view()[b],
            decreases list.len() - j,
        {
            if list[i] == list[j] {
                assert(list.deep_view()[i as int] == list.deep_view()[j as int]);
                return false;
            }
            j += 1;
        }
        i += 1;
    }
    true
}

/// The names of a list of parameters, in order.
pub fn names_of(params: &Vec<TypeParam>) -> (names: Vec<String>)
    ensures
        names.deep_view() == param_names(params.deep_view()),
{
    let mut names: Vec<String> = Vec::new();
    let mut i: usize = 0;
    while i < params.len()
        invariant
            i <= params.len(),
            names.len() == i,
            forall|j: int| 0 <= j < i ==> names@[j]@ == params@[j].name@,
        decreases params.len() - i,
    {
        names.push(params[i].name.clone());
        i += 1;
    }
    assert(names.deep_view() =~= param_names(params.deep_view()));
    names
}

impl TypeParam {
    /// Checks the parameter against [`TypeParamView::well_formed`].
    pub fn is_well_formed(&self) -> (b: bool)
        ensures
            b == self.deep_view().well_formed(),
    {
        let named = check_identifier(self.name.as_str());
        let bounded = all_text(&self.bounds);
        assert(self.deep_view().bounds == self.bounds.deep_view());
        named && bounded
    }
}

impl Field {
    /// Checks the field against [`FieldView::fits`].
    pub fn fits(&self, shape: Shape) -> (b: bool)
        ensures
            b == self.deep_view().fits(shape),
    {
        if !check_text(self.ty.as_str()) {
            return false;
        }
        match shape {
            Shape::Unit => false,
            Shape::Tuple => self.name.is_none(),
            Shape::Named => match &self.name {
                Some(name) => check_identifier(name.as_str()),
                None => false,
            },
        }
    }
}

impl Variant {
    /// Checks the variant against [`VariantView::well_formed`].
    pub fn is_well_formed(&self) -> (b: bool)
        ensures
            b == self.deep_view().well_formed(),
    {
        if !check_identifier(self.name.as_str()) {
            return false;
        }
        let mut i: usize = 0;
        while i < self.fields.len()
            invariant
                i <= self.fields.len(),
                forall|j: int|
                    0 <= j < i ==> (#[trigger] self.deep_view().fields[j]).fits(self.shape),
            decreases self.fields.len() - i,
        {
            if !self.fields[i].fits(self.shape) {
                assert(!self.deep_view().fields[i as int].fits(self.shape));
                return false;
            }
            i += 1;
        }
        true
    }
}

impl TypeDescriptor {
    /// The names of the type parameters, in order.
    pub fn type_names(&self) -> (names: Vec<String>)
        ensures
            names.deep_view() == self@.type_names(),
    {
        names_of(&self.type_params)
    }

    /// Whether `ident` is already taken by the type.
    pub fn declares(&self, ident: &str) -> (b: bool)
        ensures
            b == self@.declares(ident@),
    {
        let names = self.type_names();
        self.name == ident.to_owned() || contains_name(&self.scope_params, ident) || contains_name(
            &names,
            ident,
        )
    }

    fn type_params_well_formed(&self) -> (b: bool)
        ensures
            b == forall|i: int|
                0 <= i < self@.type_params.len() ==> (
                #[trigger] self@.type_params[i]).well_formed(),
    {
        let mut i: usize = 0;
        while i < self.type_params.len()
            invariant
                i <= self.type_params.len(),
                forall|j: int| 0 <= j < i ==> (#[trigger] self@.type_params[j]).well_formed(),
            decreases self.type_params.len() - i,
        {
            if !self.type_params[i].is_well_formed() {
                assert(!self@.type_params[i as int].well_formed());
                return false;
            }
            i += 1;
        }
        true
    }

    fn variants_well_formed(&self) -> (b: bool)
        ensures
            b == forall|i: int|
                0 <= i < self@.variants.len() ==> (#[trigger] self@.variants[i]).well_formed(),
    {
        let mut i: usize = 0;
        while i < self.variants.len()
            invariant
                i <= self.variants.len(),
                forall|j: int| 0 <= j < i ==> (#[trigger] self@.variants[j]).well_formed(),
            decreases self.variants.len() - i,
        {
            if !self.variants[i].is_well_formed() {
                assert(!self@.variants[i as int].well_formed());
                return false;
            }
            i += 1;
        }
        true
    }

    /// Checks the descriptor against [`DescriptorView::well_formed`].
    pub fn is_well_formed(&self) -> (b: bool)
        ensures
            b == self@.well_formed(),
    {
        let names = self.type_names();
        let grouped = match self.kind {
            Kind::Product => self.variants.len() == 1,
            Kind::Sum => true,
        };
        let named = check_identifier(self.name.as_str());
        let scoped = all_scope_labels(&self.scope_params) && all_distinct(&self.scope_params);
        let typed = self.type_params_well_formed() && all_distinct(&names);
        let constrained = all_text(&self.where_constraints);
        let varied = self.variants_well_formed();
        assert(self@.scope_params == self.scope_params.deep_view());
        assert(self@.where_constraints == self.where_constraints.deep_view());
        named && scoped && typed && constrained && grouped && varied
    }
}

} // verus!
