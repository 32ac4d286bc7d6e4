//! The aging relation: a type, rooted for some scope, becomes a form of itself
//! that is valid for that scope.

use crate::descriptor::{DescriptorView, TypeDescriptor, TypeParam, TypeParamView};
use crate::error::{Capability, DeriveError, Violation};
use crate::fresh::{fresh_identifier, fresh_name};
use crate::lexical::{check_scope_label, is_scope_label};
use crate::model::{
    concat_strings, copy_params, copy_strings, one, AppliedType, AppliedTypeView, Association,
    AssociationView, ImplHeader, ImplHeaderView,
};
use crate::tokens::{put, rendered, tokens_text};
use vstd::prelude::*;

verus! {

/// The scope label that stands in where a type declares no scope.
pub const DEFAULT_SCOPE: &'static str = "'a";

/// The scope label that aging introduces unless told otherwise.
pub const AGED_SCOPE: &'static str = "'b";

/// The constraint that a type parameter stays valid for a scope.
pub open spec fn outlives_text(name: Seq<char>, scope: Seq<char>) -> Seq<char> {
    rendered(seq![name, ":"@, scope])
}

/// One such constraint for each type parameter, in order.
pub open spec fn outlives_all(params: Seq<TypeParamView>, scope: Seq<char>) -> Seq<Seq<char>> {
    Seq::new(params.len(), |i: int| outlives_text(params[i].name, scope))
}

/// Aging a type that holds no scope: for any scope, the aged form is the type
/// itself.
pub open spec fn trivial_aging(d: DescriptorView) -> AssociationView {
    AssociationView {
        header: ImplHeaderView {
            unchecked: true,
            scopes: seq![DEFAULT_SCOPE@],
            types: d.type_params,
            capability: "JSRootable"@,
            witness_scopes: seq![DEFAULT_SCOPE@],
            witness_types: Seq::empty(),
            subject: d.applied(),
            constraints: d.where_constraints,
        },
        binding: "Aged"@,
        bound: d.applied(),
    }
}

/// Aging a type with one scope: the aged form has the fresh scope in place of
/// the declared one, and every type parameter has to outlive the fresh scope.
pub open spec fn scoped_aging(d: DescriptorView, fresh: Seq<char>) -> AssociationView {
    AssociationView {
        header: ImplHeaderView {
            unchecked: true,
            scopes: d.scope_params.push(fresh),
            types: d.type_params,
            capability: "JSRootable"@,
            witness_scopes: seq![fresh],
            witness_types: Seq::empty(),
            subject: d.applied(),
            constraints: outlives_all(d.type_params, fresh) + d.where_constraints,
        },
        binding: "Aged"@,
        bound: AppliedTypeView { name: d.name, scopes: seq![fresh], types: d.type_names() },
    }
}

/// What aging makes of a type, or why it refuses it.
pub open spec fn rootable(d: DescriptorView, fresh: Seq<char>) -> Result<
    AssociationView,
    Violation,
> {
    if !d.well_formed() {
        Err(Violation::Malformed)
    } else if d.scope_params.len() == 0 {
        Ok(trivial_aging(d))
    } else if d.scope_params.len() != 1 {
        Err(Violation::Arity)
    } else if !is_scope_label(fresh) {
        Err(Violation::Malformed)
    } else if d.declares(fresh) {
        Err(Violation::Collision)
    } else {
        Ok(scoped_aging(d, fresh))
    }
}

/// The constraints that every type parameter outlives `scope`.
fn outlive(params: &Vec<TypeParam>, scope: &str) -> (constraints: Vec<String>)
    ensures
        constraints.deep_view() == outlives_all(params.deep_view(), scope@),
{
    let mut constraints: Vec<String> = Vec::new();
    let mut i: usize = 0;
    while i < params.len()
        invariant
            i <= params.len(),
            constraints.len() == i,
            forall|j: int|
                0 <= j < i ==> constraints@[j]@ == outlives_text(params@[j].name@, scope@),
        decreases params.len() - i,
    {
        let mut tokens = quote::Tokens::new();
        put(&mut tokens, params[i].name.as_str(), Ghost(Seq::empty()));
        let ghost named = Seq::<Seq<char>>::empty().push(params@[i as int].name@);
        put(&mut tokens, ":", Ghost(named));
        put(&mut tokens, scope, Ghost(named.push(":"@)));
        assert(named.push(":"@).push(scope@) =~= seq![params@[i as int].name@, ":"@, scope@]);
        constraints.push(tokens.into_string());
        i += 1;
    }
    assert(constraints.deep_view() =~= outlives_all(params.deep_view(), scope@));
    constraints
}

/// Generates the aging relation of a type, with `fresh` as the scope that the
/// aged form is valid for.
pub fn aging(d: &TypeDescriptor, fresh: &str) -> (r: Result<Association, DeriveError>)
    ensures
        match r {
            Ok(block) => rootable(d@, fresh@) == Ok::<AssociationView, Violation>(
                block.deep_view(),
            ),
            Err(e) => rootable(d@, fresh@) == Err::<AssociationView, Violation>(e.violation)
                && e.capability == Capability::Rootable && e.offender@ == d@.name,
        },
{
    if !d.is_well_formed() {
        return Err(DeriveError::new(Capability::Rootable, Violation::Malformed, d.name.as_str()));
    }
    if d.scope_params.len() == 0 {
        let block = Association {
            header: ImplHeader {
                unchecked: true,
                scopes: one(DEFAULT_SCOPE),
                types: copy_params(&d.type_params),
                capability: "JSRootable".to_owned(),
                witness_scopes: one(DEFAULT_SCOPE),
                witness_types: Vec::new(),
                subject: d.applied(),
                constraints: copy_strings(&d.where_constraints),
            },
            binding: "Aged".to_owned(),
            bound: d.applied(),
        };
        assert(block.header.witness_types.deep_view() =~= Seq::<Seq<char>>::empty());
        assert(block.deep_view().header == trivial_aging(d@).header);
        return Ok(block);
    }
    if d.scope_params.len() != 1 {
        return Err(DeriveError::new(Capability::Rootable, Violation::Arity, d.name.as_str()));
    }
    if !check_scope_label(fresh) {
        return Err(DeriveError::new(Capability::Rootable, Violation::Malformed, d.name.as_str()));
    }
    if d.declares(fresh) {
        return Err(DeriveError::new(Capability::Rootable, Violation::Collision, d.name.as_str()));
    }
    let added = one(fresh);
    let outliving = outlive(&d.type_params, fresh);
    let block = Association {
        header: ImplHeader {
            unchecked: true,
            scopes: concat_strings(&d.scope_params, &added),
            types: copy_params(&d.type_params),
            capability: "JSRootable".to_owned(),
            witness_scopes: one(fresh),
            witness_types: Vec::new(),
            subject: d.applied(),
            constraints: concat_strings(&outliving, &d.where_constraints),
        },
        binding: "Aged".to_owned(),
        bound: AppliedType { name: d.name.clone(), scopes: one(fresh), types: d.type_names() },
    };
    assert(block.header.witness_types.deep_view() =~= Seq::<Seq<char>>::empty());
    assert(block.header.scopes.deep_view() =~= d@.scope_params.push(fresh@));
    assert(block.deep_view().header == scoped_aging(d@, fresh@).header);
    Ok(block)
}

/// Generates the aging relation of a type as tokens, with `'b` as the scope
/// that the aged form is valid for.
pub fn impl_js_rootable(d: &TypeDescriptor) -> (r: Result<quote::Tokens, DeriveError>)
    ensures
        match r {
            Ok(tokens) => rootable(d@, AGED_SCOPE@) matches Ok(block) && tokens_text(tokens)
                == rendered(block.tokens()),
            Err(e) => rootable(d@, AGED_SCOPE@) == Err::<AssociationView, Violation>(e.violation)
                && e.capability == Capability::Rootable && e.offender@ == d@.name,
        },
{
    match aging(d, AGED_SCOPE) {
        Ok(block) => Ok(block.to_tokens()),
        Err(e) => Err(e),
    }
}

/// Generates the aging relation of a type, with a scope of its own making for
/// the aged form: `'b`, or a longer label where the type has taken `'b`.
pub fn aging_afresh(d: &TypeDescriptor) -> (r: Result<Association, DeriveError>)
    ensures
        match r {
            Ok(block) => rootable(d@, fresh_name(d@.declared(), AGED_SCOPE@)) == Ok::<
                AssociationView,
                Violation,
            >(block.deep_view()),
            Err(e) => rootable(d@, fresh_name(d@.declared(), AGED_SCOPE@)) == Err::<
                AssociationView,
                Violation,
            >(e.violation) && e.capability == Capability::Rootable && e.offender@ == d@.name,
        },
{
    let taken = d.declared();
    let fresh = fresh_identifier(&taken, AGED_SCOPE);
    aging(d, fresh.as_str())
}

} // verus!
