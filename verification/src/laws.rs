//! What holds of the generators for every type.

use crate::class::{class_association, marker_name, split_leading, DEFAULT_TYPE};
use crate::descriptor::{DescriptorView, FieldView};
use crate::fresh::{
    fresh_name, lemma_declared_lists_what_is_declared, lemma_fresh_name_is_free,
    lemma_fresh_name_keeps_its_kind,
};
use crate::lexical::{is_identifier, is_scope_label};
use crate::error::Violation;
use crate::model::{AppliedTypeView, AssociationView};
use crate::reparse::{
    every_other, lemma_applied_round_trip, lemma_body_round_trip, lemma_separated_shape,
    parse_applied, parse_body, readable, reads_as_scope,
};
use crate::split::{lemma_split_rendered, split, whole};
use crate::tokens::{rendered, separated};
use crate::rootable::{rootable, AGED_SCOPE, DEFAULT_SCOPE};
use crate::trace::traceable;
use crate::transplantable::{transplantable, OTHER_HEAP};
use vstd::prelude::*;

verus! {

/// Aging a type without scope parameters is the identity: the type is accepted,
/// whatever the fresh scope, and its aged form is the type itself.
pub proof fn law_aging_without_scope_is_identity(d: DescriptorView, fresh: Seq<char>)
    requires
        d.well_formed(),
        d.scope_params.len() == 0,
    ensures
        rootable(d, fresh) matches Ok(block) && block.bound == block.header.subject
            && block.bound == d.applied() && block.header.constraints == d.where_constraints,
{
}

/// Aging a type with one scope parameter and no type parameter substitutes the
/// scope and nothing else: the aged form has the type's name, the fresh scope
/// as its only scope, and no type argument; the block is for the type as it was
/// declared, under the constraints it was declared with. The type is accepted
/// exactly when the fresh scope is a scope label that the type does not
/// declare.
pub proof fn law_aging_substitutes_scope_only(d: DescriptorView, fresh: Seq<char>)
    requires
        d.well_formed(),
        d.scope_params.len() == 1,
        d.type_params.len() == 0,
    ensures
        rootable(d, fresh) is Ok <==> is_scope_label(fresh) && !d.declares(fresh),
        rootable(d, fresh) matches Ok(block) ==> block.bound == (AppliedTypeView {
            scopes: seq![fresh],
            ..block.header.subject
        }) && block.header.subject == d.applied() && block.header.constraints
            == d.where_constraints && block.bound.scopes != block.header.subject.scopes,
{
    if rootable(d, fresh) is Ok {
        let block = rootable(d, fresh)->Ok_0;
        assert(block.header.constraints =~= d.where_constraints);
        assert(d.scope_params.contains(d.scope_params[0]));
        assert(seq![fresh][0] == fresh);
    }
}

/// Transplanting a type with one type parameter substitutes that parameter and
/// nothing else: the transplanted form has the type's name, the type's scopes,
/// and the fresh heap as its only type argument; the block is for the type as
/// it was declared, under the constraints it was declared with. The type is
/// accepted exactly when the fresh heap is an identifier that the type does not
/// declare.
pub proof fn law_transplanting_substitutes_heap_only(d: DescriptorView, fresh: Seq<char>)
    requires
        d.well_formed(),
        d.type_params.len() == 1,
    ensures
        transplantable(d, fresh) is Ok <==> is_identifier(fresh) && !d.declares(fresh),
        transplantable(d, fresh) matches Ok(block) ==> block.bound == (AppliedTypeView {
            types: seq![fresh],
            ..block.header.subject
        }) && block.header.subject == d.applied() && block.header.constraints
            == d.where_constraints && block.header.scopes == d.scope_params
            && block.bound.types != block.header.subject.types,
{
    if transplantable(d, fresh) is Ok {
        assert(d.type_names()[0] == d.type_params[0].name);
        assert(d.type_names().contains(d.type_names()[0]));
        assert(seq![fresh][0] == fresh);
    }
}

/// A type is refused for its arity exactly when it is well-formed and has the
/// wrong number of parameters: more than one scope for aging, any number of
/// type parameters but one for transplanting. A refused type has no output.
pub proof fn law_arity_is_checked(d: DescriptorView, fresh: Seq<char>)
    requires
        d.well_formed(),
    ensures
        d.scope_params.len() > 1 <==> rootable(d, fresh) == Err::<AssociationView, Violation>(
            Violation::Arity,
        ),
        d.type_params.len() != 1 <==> transplantable(d, fresh) == Err::<
            AssociationView,
            Violation,
        >(Violation::Arity),
{
}

/// Tracing visits, for each variant, exactly that variant's fields: the arm for
/// a variant binds each of the variant's fields once, in order, under names
/// that differ from one another, and has each of those names traced once, in
/// the same order.
pub proof fn law_tracing_visits_each_field_once(d: DescriptorView, k: int)
    requires
        d.well_formed(),
        0 <= k < d.variants.len(),
    ensures
        traceable(d) matches Ok(block) && block.arms.len() == d.variants.len() && ({
            let arm = block.arms[k];
            let fields = d.variants[k].fields;
            &&& arm.bindings.len() == fields.len()
            &&& arm.visits.len() == fields.len()
            &&& forall|i: int|
                0 <= i < fields.len() ==> (#[trigger] arm.bindings[i]).field == fields[i]
            &&& forall|i: int|
                0 <= i < fields.len() ==> #[trigger] arm.visits[i] == arm.bindings[i].ident
            &&& forall|i: int, j: int|
                0 <= i < j < fields.len() ==> (#[trigger] arm.bindings[i]).ident != (
                #[trigger] arm.bindings[j]).ident
        }),
{
    let block = traceable(d)->Ok_0;
    let arm = block.arms[k];
    let fields = d.variants[k].fields;
    assert forall|i: int, j: int| 0 <= i < j < fields.len() implies (
    #[trigger] arm.bindings[i]).ident != (#[trigger] arm.bindings[j]).ident by {
        if arm.bindings[i].ident == arm.bindings[j].ident {
            crate::binding::lemma_binding_names_differ(i as nat, j as nat);
        }
    }
}

/// The field that a visit reaches: the one bound to the visited name.
pub open spec fn visited_fields(d: DescriptorView, k: int) -> Seq<FieldView> {
    let arm = traceable(d)->Ok_0.arms[k];
    Seq::new(
        arm.visits.len(),
        |i: int|
            arm.bindings[choose|b: int|
                0 <= b < arm.bindings.len() && (#[trigger] arm.bindings[b]).ident
                    == arm.visits[i]].field,
    )
}

/// The fields reached when an instance of a variant is traced are the fields of
/// that variant, each once and in order; no field of another variant is reached
/// unless that variant has the same field.
pub proof fn law_tracing_reaches_the_fields_of_the_variant(d: DescriptorView, k: int)
    requires
        d.well_formed(),
        0 <= k < d.variants.len(),
    ensures
        visited_fields(d, k) == d.variants[k].fields,
        forall|other: int, i: int|
            0 <= other < d.variants.len() && 0 <= i < d.variants[other].fields.len()
                && !d.variants[k].fields.contains(d.variants[other].fields[i])
                ==> !visited_fields(d, k).contains(#[trigger] d.variants[other].fields[i]),
{
    law_tracing_visits_each_field_once(d, k);
    let arm = traceable(d)->Ok_0.arms[k];
    let fields = d.variants[k].fields;
    assert forall|i: int| 0 <= i < fields.len() implies #[trigger] visited_fields(d, k)[i]
        == fields[i] by {
        let b = choose|b: int|
            0 <= b < arm.bindings.len() && (#[trigger] arm.bindings[b]).ident == arm.visits[i];
        assert(arm.bindings[i].ident == arm.visits[i]);
        if b < i {
            assert(arm.bindings[b].ident != arm.bindings[i].ident);
        } else if i < b {
            assert(arm.bindings[i].ident != arm.bindings[b].ident);
        }
    }
    assert(visited_fields(d, k) =~= fields);
}

/// A scope label reads as a scope, and an identifier does not.
pub proof fn lemma_labels_read_apart(token: Seq<char>)
    ensures
        is_scope_label(token) ==> reads_as_scope(token),
        is_identifier(token) ==> !reads_as_scope(token),
{
}

/// A well-formed type, applied to its own parameters, reads back as itself.
pub proof fn lemma_described_type_is_readable(d: DescriptorView)
    requires
        d.well_formed(),
    ensures
        readable(d.applied()),
{
    assert forall|i: int| 0 <= i < d.applied().scopes.len() implies reads_as_scope(
        #[trigger] d.applied().scopes[i],
    ) by {
        lemma_labels_read_apart(d.scope_params[i]);
    }
    assert forall|i: int| 0 <= i < d.applied().types.len() implies !reads_as_scope(
        #[trigger] d.applied().types[i],
    ) by {
        assert(d.type_params[i].well_formed());
        lemma_labels_read_apart(d.type_params[i].name);
    }
}

/// Where the default scope label has to stand in, it is free: a well-formed
/// type that declares no scope has taken no scope label at all.
pub proof fn lemma_default_scope_is_free(d: DescriptorView)
    requires
        d.well_formed(),
        d.scope_params.len() == 0,
    ensures
        !d.declares(DEFAULT_SCOPE@),
{
    reveal_strlit("'a");
    assert(DEFAULT_SCOPE@[0] == '\'');
    assert forall|i: int| 0 <= i < d.type_names().len() implies d.type_names()[i]
        != DEFAULT_SCOPE@ by {
        assert(d.type_params[i].well_formed());
    }
}

/// A type without scope and type parameters is paired with its class unless it
/// is itself named like the default type label. The pairing then stands on the
/// default labels: the class is the bare marker, and the way back from the
/// class is generic over a scope and a type of the caller's choosing.
pub proof fn law_pairing_defaults(d: DescriptorView)
    requires
        d.well_formed(),
        d.scope_params.len() == 0,
        d.type_params.len() == 0,
    ensures
        class_association(d) is Ok <==> d.name != DEFAULT_TYPE@,
        class_association(d) matches Ok(pairing) ==> pairing.forward.bound == (AppliedTypeView {
            name: marker_name(d),
            scopes: Seq::empty(),
            types: Seq::empty(),
        }) && pairing.reverse.header.subject == pairing.forward.bound
            && pairing.reverse.header.scopes == seq![DEFAULT_SCOPE@]
            && crate::descriptor::param_names(pairing.reverse.header.types) == seq![DEFAULT_TYPE@]
            && pairing.reverse.header.witness_scopes == pairing.reverse.header.scopes
            && pairing.reverse.header.witness_types == seq![DEFAULT_TYPE@],
{
    reveal_strlit("Class");
    reveal_strlit("'a");
    reveal_strlit("C");
    assert(d.type_names() =~= Seq::<Seq<char>>::empty());
    assert(d.scope_params =~= Seq::<Seq<char>>::empty());
    let marker = marker_name(d);
    assert(marker.len() == d.name.len() + 5);
    assert(DEFAULT_SCOPE@[0] == '\'');
    if class_association(d) is Ok {
        let pairing = class_association(d)->Ok_0;
        assert(pairing.forward.bound.scopes =~= Seq::<Seq<char>>::empty());
        assert(pairing.forward.bound.types =~= Seq::<Seq<char>>::empty());
        assert(crate::descriptor::param_names(pairing.reverse.header.types) =~= seq![
            DEFAULT_TYPE@,
        ]);
    }
}

/// Going to the class and back: whatever type is paired with its class, the
/// body of the way back, emitted and read again, binds `Instance` to the type
/// as it was declared, and so does the instance type's text once it is taken
/// apart and read; the witnesses of the way back are the leading scope and the
/// leading type; and the class is the marker applied to the rest.
pub proof fn law_pairing_round_trip(d: DescriptorView)
    requires
        class_association(d) is Ok,
    ensures
        ({
            let pairing = class_association(d)->Ok_0;
            &&& parse_body(pairing.reverse.body()) == Some(("Instance"@, d.applied()))
            &&& parse_applied(split(rendered(pairing.reverse.bound.tokens()))) == Some(d.applied())
            &&& pairing.reverse.header.witness_scopes == seq![
                split_leading(d.scope_params, DEFAULT_SCOPE@).0,
            ]
            &&& pairing.reverse.header.witness_types == seq![
                split_leading(d.type_names(), DEFAULT_TYPE@).0,
            ]
            &&& pairing.reverse.header.subject == pairing.forward.bound
            &&& pairing.forward.header.subject == d.applied()
        }),
{
    let pairing = class_association(d)->Ok_0;
    lemma_described_type_is_readable(d);
    lemma_body_round_trip(pairing.reverse);
    law_instance_text_round_trip(d);
}

/// With a scope of the generator's own making, aging refuses a well-formed type
/// for its arity only: a fresh scope never collides.
pub proof fn law_fresh_scope_never_collides(d: DescriptorView)
    requires
        d.well_formed(),
    ensures
        rootable(d, fresh_name(d.declared(), AGED_SCOPE@)) is Ok <==> d.scope_params.len() <= 1,
        rootable(d, fresh_name(d.declared(), AGED_SCOPE@)) is Err ==> rootable(
            d,
            fresh_name(d.declared(), AGED_SCOPE@),
        ) == Err::<AssociationView, Violation>(Violation::Arity),
{
    let fresh = fresh_name(d.declared(), AGED_SCOPE@);
    reveal_strlit("'b");
    assert(AGED_SCOPE@.subrange(1, 2) =~= seq!['b']);
    assert(is_scope_label(AGED_SCOPE@));
    lemma_fresh_name_keeps_its_kind(d.declared(), AGED_SCOPE@);
    lemma_fresh_name_is_free(d.declared(), AGED_SCOPE@);
    lemma_declared_lists_what_is_declared(d, fresh);
}

/// With a heap name of the generator's own making, transplanting refuses a
/// well-formed type for its arity only: a fresh name never collides.
pub proof fn law_fresh_heap_never_collides(d: DescriptorView)
    requires
        d.well_formed(),
    ensures
        transplantable(d, fresh_name(d.declared(), OTHER_HEAP@)) is Ok <==> d.type_params.len()
            == 1,
        transplantable(d, fresh_name(d.declared(), OTHER_HEAP@)) is Err ==> transplantable(
            d,
            fresh_name(d.declared(), OTHER_HEAP@),
        ) == Err::<AssociationView, Violation>(Violation::Arity),
{
    let fresh = fresh_name(d.declared(), OTHER_HEAP@);
    reveal_strlit("Z");
    assert(is_identifier(OTHER_HEAP@));
    lemma_fresh_name_keeps_its_kind(d.declared(), OTHER_HEAP@);
    lemma_fresh_name_is_free(d.declared(), OTHER_HEAP@);
    lemma_declared_lists_what_is_declared(d, fresh);
}

/// An identifier and a scope label are whole tokens.
pub proof fn lemma_names_are_whole(token: Seq<char>)
    ensures
        is_identifier(token) ==> whole(token),
        is_scope_label(token) ==> whole(token),
{
    if is_scope_label(token) {
        let inner = token.subrange(1, token.len() as int);
        assert forall|i: int| 0 <= i < token.len() implies #[trigger] token[i] != ' ' by {
            if i > 0 {
                assert(token[i] == inner[i - 1]);
            }
        }
    }
}

/// The tokens of a well-formed type, applied to its own parameters, are whole.
pub proof fn lemma_described_type_has_whole_tokens(d: DescriptorView)
    requires
        d.well_formed(),
    ensures
        forall|i: int|
            0 <= i < d.applied().tokens().len() ==> whole(#[trigger] d.applied().tokens()[i]),
{
    let applied = d.applied();
    let tokens = applied.tokens();
    let args = applied.scopes + applied.types;
    reveal_strlit("<");
    reveal_strlit(">");
    reveal_strlit(",");
    lemma_names_are_whole(d.name);
    if args.len() > 0 {
        let inner = separated(args, ","@);
        lemma_separated_shape(args, ","@);
        assert(tokens =~= seq![applied.name, "<"@] + inner + seq![">"@]);
        assert forall|i: int| 0 <= i < tokens.len() implies whole(#[trigger] tokens[i]) by {
            if 2 <= i < tokens.len() - 1 {
                let j = i - 2;
                assert(tokens[i] == inner[j]);
                if j % 2 == 0 {
                    let k = j / 2;
                    assert(every_other(inner)[k] == inner[2 * k]);
                    assert(inner[j] == args[k]);
                    if k < applied.scopes.len() {
                        lemma_names_are_whole(d.scope_params[k]);
                    } else {
                        let t = k - applied.scopes.len();
                        assert(d.type_params[t].well_formed());
                        assert(args[k] == d.type_params[t].name);
                        lemma_names_are_whole(d.type_params[t].name);
                    }
                }
            }
        }
    } else {
        assert(applied.scopes =~= Seq::<Seq<char>>::empty());
        assert(applied.types =~= Seq::<Seq<char>>::empty());
        assert(tokens =~= seq![applied.name]);
    }
}

/// Emitting a well-formed type as text, taking the text apart and reading the
/// tokens gives the type, applied to its own parameters, as it was declared.
pub proof fn law_instance_text_round_trip(d: DescriptorView)
    requires
        d.well_formed(),
    ensures
        parse_applied(split(rendered(d.applied().tokens()))) == Some(d.applied()),
{
    lemma_described_type_has_whole_tokens(d);
    lemma_split_rendered(d.applied().tokens());
    lemma_described_type_is_readable(d);
    lemma_applied_round_trip(d.applied());
}

} // verus!
