//! The pairing of an instance type with the marker type of its class.

use crate::descriptor::{DescriptorView, TypeDescriptor, TypeParam, TypeParamView};
use crate::error::{Capability, DeriveError, Violation};
use crate::model::{
    copy_params, copy_strings, one, AppliedType, AppliedTypeView, Association, AssociationView,
    ImplHeader, ImplHeaderView,
};
use crate::rootable::DEFAULT_SCOPE;
use crate::tokens::{put, put_words, rendered, tokens_text, words, TokenSeq};
use vstd::prelude::*;
use vstd::string::StringExecFns;

verus! {

/// The type label that stands in where a type declares no type parameter.
pub const DEFAULT_TYPE: &'static str = "C";

/// What is appended to a type's name to name the marker type of its class.
pub const MARKER_SUFFIX: &'static str = "Class";

/// A list of parameters, or the fallback alone where the list is empty.
pub open spec fn or_default<A>(params: Seq<A>, fallback: A) -> Seq<A> {
    if params.len() == 0 {
        seq![fallback]
    } else {
        params
    }
}

/// The leading parameter and the rest. The leading one is the first that is
/// declared, or the fallback where none is.
pub open spec fn split_leading<A>(params: Seq<A>, fallback: A) -> (A, Seq<A>) {
    (or_default(params, fallback)[0], or_default(params, fallback).drop_first())
}

/// Splits a list of names into the leading one and the rest.
pub fn split_names(params: &Vec<String>, fallback: &str) -> (r: (String, Vec<String>))
    ensures
        (r.0@, r.1.deep_view()) == split_leading(params.deep_view(), fallback@),
{
    if params.len() == 0 {
        let rest: Vec<String> = Vec::new();
        assert(rest.deep_view() =~= seq![fallback@].drop_first());
        (fallback.to_owned(), rest)
    } else {
        let mut rest: Vec<String> = Vec::new();
        let mut i: usize = 1;
        while i < params.len()
            invariant
                1 <= i <= params.len(),
                rest.len() == i - 1,
                forall|j: int| 0 <= j < i - 1 ==> rest@[j]@ == params@[j + 1]@,
            decreases params.len() - i,
        {
            rest.push(params[i].clone());
            i += 1;
        }
        assert(rest.deep_view() =~= params.deep_view().drop_first());
        assert(params.deep_view()[0] == params@[0]@);
        (params[0].clone(), rest)
    }
}

/// The marker type of a class and the two blocks that pair it with the instance
/// type.
#[derive(Debug, Clone)]
pub struct ClassAssociation {
    /// The name of the marker type.
    pub marker: String,
    /// From the instance type to its class.
    pub forward: Association,
    /// From the class, with an instance scope and an instance type, back to the
    /// instance type.
    pub reverse: Association,
}

/// What a [`ClassAssociation`] stands for in contracts.
pub struct ClassAssociationView {
    pub marker: Seq<char>,
    pub forward: AssociationView,
    pub reverse: AssociationView,
}

impl DeepView for ClassAssociation {
    type V = ClassAssociationView;

    open spec fn deep_view(&self) -> ClassAssociationView {
        ClassAssociationView {
            marker: self.marker@,
            forward: self.forward.deep_view(),
            reverse: self.reverse.deep_view(),
        }
    }
}

impl ClassAssociationView {
    /// The declaration of the marker type: a public struct without fields. It
    /// is declared without parameters, also where the class applies it to the
    /// parameters that the instance does not lead with.
    pub open spec fn declaration(self) -> TokenSeq {
        seq!["pub"@, "struct"@, self.marker, ";"@]
    }

    /// The declaration, the way to the class, the way back.
    pub open spec fn tokens(self) -> TokenSeq {
        self.declaration() + self.forward.tokens() + self.reverse.tokens()
    }
}

/// The name of the marker type of a type's class.
pub open spec fn marker_name(d: DescriptorView) -> Seq<char> {
    d.name + MARKER_SUFFIX@
}

/// The class of a type: the marker applied to every scope and type parameter
/// but the leading ones.
pub open spec fn class_of(d: DescriptorView) -> AppliedTypeView {
    AppliedTypeView {
        name: marker_name(d),
        scopes: split_leading(d.scope_params, DEFAULT_SCOPE@).1,
        types: split_leading(d.type_names(), DEFAULT_TYPE@).1,
    }
}

/// The pairing generated for a type.
pub open spec fn pairing(d: DescriptorView) -> ClassAssociationView {
    ClassAssociationView {
        marker: marker_name(d),
        forward: AssociationView {
            header: ImplHeaderView {
                unchecked: false,
                scopes: d.scope_params,
                types: d.type_params,
                capability: "HasClass"@,
                witness_scopes: Seq::empty(),
                witness_types: Seq::empty(),
                subject: d.applied(),
                constraints: d.where_constraints,
            },
            binding: "Class"@,
            bound: class_of(d),
        },
        reverse: AssociationView {
            header: ImplHeaderView {
                unchecked: false,
                scopes: or_default(d.scope_params, DEFAULT_SCOPE@),
                types: or_default(
                    d.type_params,
                    TypeParamView { name: DEFAULT_TYPE@, bounds: Seq::empty() },
                ),
                capability: "HasInstance"@,
                witness_scopes: seq![split_leading(d.scope_params, DEFAULT_SCOPE@).0],
                witness_types: seq![split_leading(d.type_names(), DEFAULT_TYPE@).0],
                subject: class_of(d),
                constraints: d.where_constraints,
            },
            binding: "Instance"@,
            bound: d.applied(),
        },
    }
}

/// Whether a name that the pairing introduces is already taken by the type: the
/// marker's name, or the default type label where it has to stand in. The
/// default scope label needs no such test: it stands in only where the type
/// declares no scope, and neither a type's name nor a type parameter is a scope
/// label (see `laws::lemma_default_scope_is_free`).
pub open spec fn pairing_collides(d: DescriptorView) -> bool {
    ||| d.declares(marker_name(d))
    ||| d.type_params.len() == 0 && d.declares(DEFAULT_TYPE@)
}

/// What the pairing of a type is, or why it is refused.
pub open spec fn class_association(d: DescriptorView) -> Result<ClassAssociationView, Violation> {
    if !d.well_formed() {
        Err(Violation::Malformed)
    } else if pairing_collides(d) {
        Err(Violation::Collision)
    } else {
        Ok(pairing(d))
    }
}

impl ClassAssociation {
    /// The declaration and the two blocks as text.
    pub fn to_tokens(&self) -> (tokens: quote::Tokens)
        ensures
            tokens_text(tokens) == rendered(self.deep_view().tokens()),
    {
        let ghost view = self.deep_view();
        let mut tokens = quote::Tokens::new();
        let open = ["pub", "struct"];
        put_words(&mut tokens, &open, Ghost(Seq::empty()));
        let ghost opened = Seq::<Seq<char>>::empty() + words(open@);
        put(&mut tokens, self.marker.as_str(), Ghost(opened));
        put(&mut tokens, ";", Ghost(opened.push(view.marker)));
        assert(opened.push(view.marker).push(";"@) =~= view.declaration());
        self.forward.put(&mut tokens, Ghost(view.declaration()));
        self.reverse.put(&mut tokens, Ghost(view.declaration() + view.forward.tokens()));
        tokens
    }
}

/// Generates the pairing of a type with the marker type of its class.
pub fn pair(d: &TypeDescriptor) -> (r: Result<ClassAssociation, DeriveError>)
    ensures
        match r {
            Ok(pairing) => class_association(d@) == Ok::<ClassAssociationView, Violation>(
                pairing.deep_view(),
            ),
            Err(e) => class_association(d@) == Err::<ClassAssociationView, Violation>(e.violation)
                && e.capability == Capability::ClassAssociation && e.offender@ == d@.name,
        },
{
    let capability = Capability::ClassAssociation;
    if !d.is_well_formed() {
        return Err(DeriveError::new(capability, Violation::Malformed, d.name.as_str()));
    }
    let marker = d.name.clone().concat(MARKER_SUFFIX);
    let taken = d.declares(marker.as_str());
    let type_taken = d.type_params.len() == 0 && d.declares(DEFAULT_TYPE);
    if taken || type_taken {
        return Err(DeriveError::new(capability, Violation::Collision, d.name.as_str()));
    }
    let names = d.type_names();
    let (instance_scope, class_scopes) = split_names(&d.scope_params, DEFAULT_SCOPE);
    let (instance_type, class_types) = split_names(&names, DEFAULT_TYPE);
    let scopes = if d.scope_params.len() == 0 {
        one(DEFAULT_SCOPE)
    } else {
        copy_strings(&d.scope_params)
    };
    let mut types = copy_params(&d.type_params);
    if d.type_params.len() == 0 {
        types.push(TypeParam::bare(DEFAULT_TYPE));
        assert(types.deep_view() =~= seq![
            TypeParamView { name: DEFAULT_TYPE@, bounds: Seq::empty() },
        ]);
    }
    let forward = Association {
        header: ImplHeader {
            unchecked: false,
            scopes: copy_strings(&d.scope_params),
            types: copy_params(&d.type_params),
            capability: "HasClass".to_owned(),
            witness_scopes: Vec::new(),
            witness_types: Vec::new(),
            subject: d.applied(),
            constraints: copy_strings(&d.where_constraints),
        },
        binding: "Class".to_owned(),
        bound: AppliedType {
            name: marker.clone(),
            scopes: copy_strings(&class_scopes),
            types: copy_strings(&class_types),
        },
    };
    assert(forward.header.witness_scopes.deep_view() =~= Seq::<Seq<char>>::empty());
    assert(forward.header.witness_types.deep_view() =~= Seq::<Seq<char>>::empty());
    assert(forward.deep_view().header == pairing(d@).forward.header);
    assert(forward.deep_view().bound == class_of(d@));
    let reverse = Association {
        header: ImplHeader {
            unchecked: false,
            scopes,
            types,
            capability: "HasInstance".to_owned(),
            witness_scopes: one(instance_scope.as_str()),
            witness_types: one(instance_type.as_str()),
            subject: AppliedType { name: marker.clone(), scopes: class_scopes, types: class_types },
            constraints: copy_strings(&d.where_constraints),
        },
        binding: "Instance".to_owned(),
        bound: d.applied(),
    };
    assert(reverse.deep_view().header == pairing(d@).reverse.header);
    Ok(ClassAssociation { marker, forward, reverse })
}

/// Generates the pairing of a type with the marker type of its class, as
/// tokens.
pub fn impl_has_class(d: &TypeDescriptor) -> (r: Result<quote::Tokens, DeriveError>)
    ensures
        match r {
            Ok(tokens) => class_association(d@) matches Ok(pairing) && tokens_text(tokens)
                == rendered(pairing.tokens()),
            Err(e) => class_association(d@) == Err::<ClassAssociationView, Violation>(e.violation)
                && e.capability == Capability::ClassAssociation && e.offender@ == d@.name,
        },
{
    match pair(d) {
        Ok(pairing) => Ok(pairing.to_tokens()),
        Err(e) => Err(e),
    }
}

} // verus!
