//! The transplanting relation: a type that lives in one heap becomes a form of
//! itself that lives in another.

use crate::descriptor::{DescriptorView, TypeDescriptor, TypeParam, TypeParamView};
use crate::error::{Capability, DeriveError, Violation};
use crate::fresh::{fresh_identifier, fresh_name};
use crate::lexical::{check_identifier, is_identifier};
use crate::model::{
    copy_params, copy_strings, one, AppliedType, AppliedTypeView, Association, AssociationView,
    ImplHeader, ImplHeaderView,
};
use crate::tokens::{rendered, tokens_text};
use vstd::prelude::*;

verus! {

/// The name that transplanting gives the other heap unless told otherwise.
pub const OTHER_HEAP: &'static str = "Z";

/// Transplanting a type whose one type parameter says which heap it lives in:
/// the transplanted form has the fresh heap in place of that parameter, and the
/// same scopes.
pub open spec fn transplanting(d: DescriptorView, fresh: Seq<char>) -> AssociationView {
    AssociationView {
        header: ImplHeaderView {
            unchecked: true,
            scopes: d.scope_params,
            types: d.type_params.push(TypeParamView { name: fresh, bounds: Seq::empty() }),
            capability: "JSTransplantable"@,
            witness_scopes: Seq::empty(),
            witness_types: seq![fresh],
            subject: d.applied(),
            constraints: d.where_constraints,
        },
        binding: "Transplanted"@,
        bound: AppliedTypeView { name: d.name, scopes: d.scope_params, types: seq![fresh] },
    }
}

/// What transplanting makes of a type, or why it refuses it.
pub open spec fn transplantable(d: DescriptorView, fresh: Seq<char>) -> Result<
    AssociationView,
    Violation,
> {
    if !d.well_formed() {
        Err(Violation::Malformed)
    } else if d.type_params.len() != 1 {
        Err(Violation::Arity)
    } else if !is_identifier(fresh) {
        Err(Violation::Malformed)
    } else if d.declares(fresh) {
        Err(Violation::Collision)
    } else {
        Ok(transplanting(d, fresh))
    }
}

/// Generates the transplanting relation of a type, with `fresh` as the name of
/// the heap that the transplanted form lives in.
pub fn transplant(d: &TypeDescriptor, fresh: &str) -> (r: Result<Association, DeriveError>)
    ensures
        match r {
            Ok(block) => transplantable(d@, fresh@) == Ok::<AssociationView, Violation>(
                block.deep_view(),
            ),
            Err(e) => transplantable(d@, fresh@) == Err::<AssociationView, Violation>(e.violation)
                && e.capability == Capability::Transplantable && e.offender@ == d@.name,
        },
{
    let capability = Capability::Transplantable;
    if !d.is_well_formed() {
        return Err(DeriveError::new(capability, Violation::Malformed, d.name.as_str()));
    }
    if d.type_params.len() != 1 {
        return Err(DeriveError::new(capability, Violation::Arity, d.name.as_str()));
    }
    if !check_identifier(fresh) {
        return Err(DeriveError::new(capability, Violation::Malformed, d.name.as_str()));
    }
    if d.declares(fresh) {
        return Err(DeriveError::new(capability, Violation::Collision, d.name.as_str()));
    }
    let mut types = copy_params(&d.type_params);
    let ghost declared = types.deep_view();
    types.push(TypeParam::bare(fresh));
    assert(types.deep_view() =~= declared.push(
        TypeParamView { name: fresh@, bounds: Seq::empty() },
    ));
    let block = Association {
        header: ImplHeader {
            unchecked: true,
            scopes: copy_strings(&d.scope_params),
            types,
            capability: "JSTransplantable".to_owned(),
            witness_scopes: Vec::new(),
            witness_types: one(fresh),
            subject: d.applied(),
            constraints: copy_strings(&d.where_constraints),
        },
        binding: "Transplanted".to_owned(),
        bound: AppliedType {
            name: d.name.clone(),
            scopes: copy_strings(&d.scope_params),
            types: one(fresh),
        },
    };
    assert(block.header.witness_scopes.deep_view() =~= Seq::<Seq<char>>::empty());
    assert(block.deep_view().header == transplanting(d@, fresh@).header);
    Ok(block)
}

/// Generates the transplanting relation of a type as tokens, with `Z` as the
/// name of the other heap.
pub fn impl_js_transplantable(d: &TypeDescriptor) -> (r: Result<quote::Tokens, DeriveError>)
    ensures
        match r {
            Ok(tokens) => transplantable(d@, OTHER_HEAP@) matches Ok(block) && tokens_text(tokens)
                == rendered(block.tokens()),
            Err(e) => transplantable(d@, OTHER_HEAP@) == Err::<AssociationView, Violation>(
                e.violation,
            ) && e.capability == Capability::Transplantable && e.offender@ == d@.name,
        },
{
    match transplant(d, OTHER_HEAP) {
        Ok(block) => Ok(block.to_tokens()),
        Err(e) => Err(e),
    }
}

/// Generates the transplanting relation of a type, with a name of its own
/// making for the other heap: `Z`, or a longer name where the type has taken
/// `Z`.
pub fn transplant_afresh(d: &TypeDescriptor) -> (r: Result<Association, DeriveError>)
    ensures
        match r {
            Ok(block) => transplantable(d@, fresh_name(d@.declared(), OTHER_HEAP@)) == Ok::<
                AssociationView,
                Violation,
            >(block.deep_view()),
            Err(e) => transplantable(d@, fresh_name(d@.declared(), OTHER_HEAP@)) == Err::<
                AssociationView,
                Violation,
            >(e.violation) && e.capability == Capability::Transplantable && e.offender@
                == d@.name,
        },
{
    let taken = d.declared();
    let fresh = fresh_identifier(&taken, OTHER_HEAP);
    transplant(d, fresh.as_str())
}

} // verus!
