//! From the text of a type declaration to its description. The parsing is
//! `syn`'s and the match arms over the fields are `synstructure`'s; what this
//! module adds is the reading of the parsed declaration into a
//! [`TypeDescriptor`] and the test that the description is well-formed.
//!
//! What the parser makes of a text is not defined here, only named:
//! [`declaration_of`] stands for the declaration that a text parses to, and
//! [`declared`] for what a parsed declaration holds. The contracts of this
//! module and of the derives speak of those two names.

use crate::descriptor::{
    names_of, param_names, DescriptorView, Field, Kind, Shape, TypeDescriptor, TypeParam,
    TypeParamView, Variant, VariantView,
};
use crate::error::{Capability, DeriveError, Violation};
use crate::model::{concat_strings, param_text};
use crate::tokens::{rendered, tokens_text};
use crate::trace::{arms_of, arms_tokens, visit_statement};
use quote::ToTokens;
use vstd::prelude::*;

verus! {

/// `syn::DeriveInput`, a parsed declaration. All that is known of it is what it
/// declares.
#[verifier::external_type_specification]
#[verifier::external_body]
pub struct ExDeriveInput(syn::DeriveInput);

/// `syn::Ident`, a parsed name. Nothing is known of its inside.
#[verifier::external_type_specification]
#[verifier::external_body]
pub struct ExIdent(syn::Ident);

/// `syn::VariantData`, the parsed fields of a struct or of a variant. Nothing
/// is known of its inside.
#[verifier::external_type_specification]
#[verifier::external_body]
pub struct ExVariantData(syn::VariantData);

/// The parts of a declaration as the parser hands them out: the name, the
/// lifetimes with what each is declared to outlive, the type parameters with
/// their bounds, whether a struct or an enum is declared, the binding groups,
/// and the predicates of the `where` clause.
pub struct DeclarationView {
    pub name: Seq<char>,
    pub scopes: Seq<TypeParamView>,
    pub types: Seq<TypeParamView>,
    pub kind: Kind,
    pub variants: Seq<VariantView>,
    pub constraints: Seq<Seq<char>>,
}

/// What `syn::parse_derive_input` makes of a text: the parts of the declaration
/// it parses, or nothing where it cannot parse the text.
pub uninterp spec fn declaration_of(input: Seq<char>) -> Option<DeclarationView>;

/// What a parsed declaration holds.
pub uninterp spec fn declared(ast: syn::DeriveInput) -> DeclarationView;

/// What the parsed fields of a struct or of a variant hold, under a name.
pub uninterp spec fn grouped(name: syn::Ident, data: syn::VariantData) -> VariantView;

/// `syn::parse_derive_input` parses the declaration of a struct or an enum, or
/// says why it cannot. The same text gives the same declaration.
pub assume_specification[ syn::parse_derive_input ](input: &str) -> (parsed: Result<
    syn::DeriveInput,
    String,
>)
    ensures
        match parsed {
            Ok(ast) => declaration_of(input@) == Some(declared(ast)),
            Err(_) => declaration_of(input@) is None,
        },
;

/// The name of the declared type (`DeriveInput::ident`). This is what the name
/// of a parsed declaration means.
#[verifier::external_body]
fn declared_name(ast: &syn::DeriveInput) -> (name: String)
    ensures
        name@ == declared(*ast).name,
{
    ast.ident.to_string()
}

/// The declared lifetimes, in order (`Generics::lifetimes`): the name of each,
/// and the names of the lifetimes that it is declared to outlive. This is what
/// the scopes of a parsed declaration mean.
#[verifier::external_body]
fn declared_scopes(ast: &syn::DeriveInput) -> (scopes: Vec<TypeParam>)
    ensures
        scopes.deep_view() == declared(*ast).scopes,
{
    ast.generics.lifetimes.iter().map(
        |def|
            TypeParam {
                name: def.lifetime.ident.to_string(),
                bounds: def.bounds.iter().map(|bound| bound.ident.to_string()).collect(),
            },
    ).collect()
}

/// The declared type parameters, in order (`Generics::ty_params`): the name of
/// each, and each of its bounds as `syn` prints it. This is what the types of a
/// parsed declaration mean.
#[verifier::external_body]
fn declared_types(ast: &syn::DeriveInput) -> (types: Vec<TypeParam>)
    ensures
        types.deep_view() == declared(*ast).types,
{
    ast.generics.ty_params.iter().map(
        |param|
            TypeParam {
                name: param.ident.to_string(),
                bounds: param.bounds.iter().map(
                    |bound|
                        {
                            let mut text = quote::Tokens::new();
                            bound.to_tokens(&mut text);
                            text.into_string()
                        },
                ).collect(),
            },
    ).collect()
}

/// The predicates of the declared `where` clause, in order
/// (`WhereClause::predicates`), each as `syn` prints it. This is what the
/// constraints of a parsed declaration mean.
#[verifier::external_body]
fn declared_constraints(ast: &syn::DeriveInput) -> (constraints: Vec<String>)
    ensures
        constraints.deep_view() == declared(*ast).constraints,
{
    ast.generics.where_clause.predicates.iter().map(
        |predicate|
            {
                let mut text = quote::Tokens::new();
                predicate.to_tokens(&mut text);
                text.into_string()
            },
    ).collect()
}

/// Whether a struct or an enum was declared (`DeriveInput::body`). This is what
/// the kind of a parsed declaration means.
#[verifier::external_body]
fn declared_kind(ast: &syn::DeriveInput) -> (kind: Kind)
    ensures
        kind == declared(*ast).kind,
{
    match ast.body {
        syn::Body::Struct(_) => Kind::Product,
        syn::Body::Enum(_) => Kind::Sum,
    }
}

/// One binding group (`syn::VariantData`) under a name: how it lists its
/// fields, and of each field in order the name, if it has one, and the type as
/// `syn` prints it. This is what a parsed group means.
#[verifier::external_body]
fn variant_of(name: &syn::Ident, data: &syn::VariantData) -> (variant: Variant)
    ensures
        variant.deep_view() == grouped(*name, *data),
{
    let shape = match *data {
        syn::VariantData::Struct(_) => Shape::Named,
        syn::VariantData::Tuple(_) => Shape::Tuple,
        syn::VariantData::Unit => Shape::Unit,
    };
    let fields = data.fields().iter().map(
        |field|
            {
                let mut ty = quote::Tokens::new();
                field.ty.to_tokens(&mut ty);
                Field { name: field.ident.as_ref().map(|i| i.to_string()), ty: ty.into_string() }
            },
    ).collect();
    Variant { name: name.to_string(), shape, fields }
}

/// The declared binding groups (`DeriveInput::body`), each as `syn` holds it:
/// the variants of an enum in order, or the body of a struct under the struct's
/// own name. This is what the variants of a parsed declaration mean.
#[verifier::external_body]
fn declared_groups(ast: &syn::DeriveInput) -> (groups: Vec<(syn::Ident, syn::VariantData)>)
    ensures
        groups@.len() == declared(*ast).variants.len(),
        forall|i: int|
            0 <= i < groups@.len() ==> grouped(groups@[i].0, groups@[i].1) == #[trigger] declared(
                *ast,
            ).variants[i],
{
    match ast.body {
        syn::Body::Enum(ref variants) => variants.iter().map(
            |variant| (variant.ident.clone(), variant.data.clone()),
        ).collect(),
        syn::Body::Struct(ref data) => vec![(ast.ident.clone(), data.clone())],
    }
}

/// `synstructure::each_field` on a parsed declaration, with every field bound
/// by reference and [`visit_statement`] as the statement for each binding: one
/// match arm for each binding group, which binds the group's fields in order to
/// `__binding_0`, `__binding_1` and so on, and has each binding's statement in
/// a block of its own, in the same order, before a unit value.
#[verifier::external_body]
fn match_arms(ast: &syn::DeriveInput) -> (arms: quote::Tokens)
    ensures
        tokens_text(arms) == rendered(
            arms_tokens(arms_of(declared(*ast).name, declared(*ast).kind, declared(*ast).variants)),
        ),
{
    let style = synstructure::BindStyle::Ref.into();
    synstructure::each_field(ast, &style, |binding| visit_statement(binding.ident.as_ref()))
}

/// The bounds of a list of parameters as constraints: one constraint for each
/// parameter that has a bound, in order.
pub open spec fn bound_constraints(params: Seq<TypeParamView>) -> Seq<Seq<char>>
    decreases params.len(),
{
    if params.len() == 0 {
        Seq::empty()
    } else if params.last().bounds.len() > 0 {
        bound_constraints(params.drop_last()).push(param_text(params.last()))
    } else {
        bound_constraints(params.drop_last())
    }
}

/// Turns the bounds of a list of parameters into constraints.
pub fn constrain_bounds(params: &Vec<TypeParam>) -> (constraints: Vec<String>)
    ensures
        constraints.deep_view() == bound_constraints(params.deep_view()),
{
    let ghost all = params.deep_view();
    let mut constraints: Vec<String> = Vec::new();
    let mut i: usize = 0;
    assert(constraints.deep_view() =~= bound_constraints(all.take(0)));
    while i < params.len()
        invariant
            i <= params.len(),
            all == params.deep_view(),
            constraints.deep_view() == bound_constraints(all.take(i as int)),
        decreases params.len() - i,
    {
        let ghost before = constraints.deep_view();
        assert(all.take(i + 1).drop_last() =~= all.take(i as int));
        assert(all.take(i + 1).last() == params@[i as int].deep_view());
        if params[i].bounds.len() > 0 {
            constraints.push(params[i].text());
            assert(constraints.deep_view() =~= before.push(param_text(all[i as int])));
        }
        i += 1;
    }
    assert(all.take(params.len() as int) =~= all);
    constraints
}

/// The description that the parts of a declaration make up. What a scope is
/// declared to outlive is carried as a constraint, in front of the constraints
/// of the `where` clause.
pub open spec fn assembled(
    name: Seq<char>,
    scopes: Seq<TypeParamView>,
    types: Seq<TypeParamView>,
    kind: Kind,
    variants: Seq<VariantView>,
    constraints: Seq<Seq<char>>,
) -> DescriptorView {
    DescriptorView {
        name,
        scope_params: param_names(scopes),
        type_params: types,
        kind,
        variants,
        where_constraints: bound_constraints(scopes) + constraints,
    }
}

/// Puts the parts of a declaration together, for the sake of one capability.
/// The description is handed out exactly when it is well-formed; else the type
/// is refused under its name.
pub fn assemble(
    capability: Capability,
    name: String,
    scopes: Vec<TypeParam>,
    types: Vec<TypeParam>,
    kind: Kind,
    variants: Vec<Variant>,
    constraints: Vec<String>,
) -> (r: Result<TypeDescriptor, DeriveError>)
    ensures
        match r {
            Ok(d) => d@.well_formed() && d@ == assembled(
                name@,
                scopes.deep_view(),
                types.deep_view(),
                kind,
                variants.deep_view(),
                constraints.deep_view(),
            ),
            Err(e) => !assembled(
                name@,
                scopes.deep_view(),
                types.deep_view(),
                kind,
                variants.deep_view(),
                constraints.deep_view(),
            ).well_formed() && e.violation == Violation::Malformed && e.capability == capability
                && e.offender@ == name@,
        },
{
    let outliving = constrain_bounds(&scopes);
    let d = TypeDescriptor {
        name,
        scope_params: names_of(&scopes),
        type_params: types,
        kind,
        variants,
        where_constraints: concat_strings(&outliving, &constraints),
    };
    if d.is_well_formed() {
        Ok(d)
    } else {
        Err(DeriveError::new(capability, Violation::Malformed, d.name.as_str()))
    }
}

/// The description that a text declares, where the text can be parsed: its
/// parts, put together.
pub open spec fn described(input: Seq<char>) -> Option<DescriptorView> {
    match declaration_of(input) {
        Some(parts) => Some(
            assembled(
                parts.name,
                parts.scopes,
                parts.types,
                parts.kind,
                parts.variants,
                parts.constraints,
            ),
        ),
        None => None,
    }
}

/// Reads the variants of a parsed declaration.
fn read_variants(ast: &syn::DeriveInput) -> (variants: Vec<Variant>)
    ensures
        variants.deep_view() == declared(*ast).variants,
{
    let groups = declared_groups(ast);
    let mut variants: Vec<Variant> = Vec::new();
    let mut i: usize = 0;
    while i < groups.len()
        invariant
            i <= groups.len(),
            variants.len() == i,
            groups@.len() == declared(*ast).variants.len(),
            forall|j: int|
                0 <= j < groups@.len() ==> grouped(groups@[j].0, groups@[j].1)
                    == #[trigger] declared(*ast).variants[j],
            forall|j: int| 0 <= j < i ==> variants@[j].deep_view() == declared(*ast).variants[j],
        decreases groups.len() - i,
    {
        variants.push(variant_of(&groups[i].0, &groups[i].1));
        i += 1;
    }
    assert(variants.deep_view() =~= declared(*ast).variants);
    variants
}

/// Reads the description of a type off its declaration, for the sake of one
/// capability. The description is handed out exactly when the text can be
/// parsed and what it declares is well-formed. A text that cannot be parsed is
/// refused without a name, with the parser's own words; a declaration that is
/// not well-formed is refused under its name.
pub fn describe(input: &str, capability: Capability) -> (r: Result<TypeDescriptor, DeriveError>)
    ensures
        match r {
            Ok(d) => described(input@) == Some(d@) && d@.well_formed(),
            Err(e) => e.violation == Violation::Malformed && e.capability == capability && (
            match described(input@) {
                Some(d) => !d.well_formed() && e.offender@ == d.name,
                None => e.offender@.len() == 0,
            }),
        },
{
    match syn::parse_derive_input(input) {
        Err(words) => Err(DeriveError::unparsed(capability, words)),
        Ok(ast) => assemble(
            capability,
            declared_name(&ast),
            declared_scopes(&ast),
            declared_types(&ast),
            declared_kind(&ast),
            read_variants(&ast),
            declared_constraints(&ast),
        ),
    }
}

/// Reads the description of a type off its declaration as [`describe`] does,
/// for the sake of tracing, and with it the match arms that visit every field
/// of every binding group.
pub fn describe_with_arms(input: &str) -> (r: Result<(TypeDescriptor, String), DeriveError>)
    ensures
        match r {
            Ok((d, arms)) => described(input@) == Some(d@) && d@.well_formed() && arms@
                == rendered(arms_tokens(arms_of(d@.name, d@.kind, d@.variants))),
            Err(e) => e.violation == Violation::Malformed && e.capability == Capability::Trace && (
            match described(input@) {
                Some(d) => !d.well_formed() && e.offender@ == d.name,
                None => e.offender@.len() == 0,
            }),
        },
{
    match syn::parse_derive_input(input) {
        Err(words) => Err(DeriveError::unparsed(Capability::Trace, words)),
        Ok(ast) => {
            let arms = match_arms(&ast).into_string();
            match assemble(
                Capability::Trace,
                declared_name(&ast),
                declared_scopes(&ast),
                declared_types(&ast),
                declared_kind(&ast),
                read_variants(&ast),
                declared_constraints(&ast),
            ) {
                Ok(d) => Ok((d, arms)),
                Err(e) => Err(e),
            }
        },
    }
}

} // verus!
