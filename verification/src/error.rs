//! Why a generator refused a type.

use vstd::prelude::*;
use vstd::string::StringExecFns;

verus! {

/// The four capabilities code is generated for.
#[derive(Debug, Clone, Copy, PartialEq, Eq, Structural)]
pub enum Capability {
    Rootable,
    Transplantable,
    ClassAssociation,
    Trace,
}

/// The precondition a type failed.
#[derive(Debug, Clone, Copy, PartialEq, Eq, Structural)]
pub enum Violation {
    /// The type has the wrong number of scope or type parameters.
    Arity,
    /// An identifier that the generator introduces is already taken by the
    /// type.
    Collision,
    /// The type's description is not well-formed.
    Malformed,
}

/// A refusal: which capability was asked for, which precondition failed, and
/// the name of the offending type.
#[derive(Debug, Clone)]
pub struct DeriveError {
    pub capability: Capability,
    pub violation: Violation,
    /// The name of the refused type; empty where no type could be named.
    pub offender: String,
    /// What the parser said of a text that it could not parse; empty else.
    pub detail: String,
}

/// The name a capability's derive goes by.
pub open spec fn derive_name(capability: Capability) -> Seq<char> {
    match capability {
        Capability::Rootable => "JSRootable"@,
        Capability::Transplantable => "JSTransplantable"@,
        Capability::ClassAssociation => "HasClass"@,
        Capability::Trace => "JSTraceable"@,
    }
}

/// What a capability requires of a type, for each way of failing it.
pub open spec fn requirement(capability: Capability, violation: Violation) -> Seq<char> {
    match violation {
        Violation::Malformed => " requires a well-formed type declaration"@,
        Violation::Arity => match capability {
            Capability::Rootable => " requires a single lifetime"@,
            Capability::Transplantable => " requires a single type parameter"@,
            _ => " requires another number of parameters"@,
        },
        Violation::Collision => match capability {
            Capability::Rootable => " requires the lifetime to not be named 'b"@,
            Capability::Transplantable => " requires the type parameter to not be named Z"@,
            _ => " requires names that the generated code does not take"@,
        },
    }
}

/// The diagnostic for a refusal: the type, where one can be named, then the
/// derive and what it requires, then the parser's words, where it had any.
pub open spec fn diagnostic(
    offender: Seq<char>,
    capability: Capability,
    violation: Violation,
    detail: Seq<char>,
) -> Seq<char> {
    (if offender.len() == 0 {
        "deriving "@
    } else {
        offender + ": deriving "@
    }) + derive_name(capability) + requirement(capability, violation) + (if detail.len() == 0 {
        Seq::empty()
    } else {
        ": "@ + detail
    })
}

impl DeriveError {
    /// A refusal of the type named `offender`.
    pub fn new(capability: Capability, violation: Violation, offender: &str) -> (error: Self)
        ensures
            error.capability == capability,
            error.violation == violation,
            error.offender@ == offender@,
            error.detail@.len() == 0,
    {
        DeriveError { capability, violation, offender: offender.to_owned(), detail: String::new() }
    }

    /// A refusal of a text that could not be parsed, with the parser's words.
    pub fn unparsed(capability: Capability, detail: String) -> (error: Self)
        ensures
            error.capability == capability,
            error.violation == Violation::Malformed,
            error.offender@.len() == 0,
            error.detail@ == detail@,
    {
        DeriveError { capability, violation: Violation::Malformed, offender: String::new(), detail }
    }

    /// The diagnostic to abort the build with.
    pub fn message(&self) -> (text: String)
        ensures
            text@ == diagnostic(self.offender@, self.capability, self.violation, self.detail@),
    {
        let name = match self.capability {
            Capability::Rootable => "JSRootable",
            Capability::Transplantable => "JSTransplantable",
            Capability::ClassAssociation => "HasClass",
            Capability::Trace => "JSTraceable",
        };
        let needed = match self.violation {
            Violation::Malformed => " requires a well-formed type declaration",
            Violation::Arity => match self.capability {
                Capability::Rootable => " requires a single lifetime",
                Capability::Transplantable => " requires a single type parameter",
                _ => " requires another number of parameters",
            },
            Violation::Collision => match self.capability {
                Capability::Rootable => " requires the lifetime to not be named 'b",
                Capability::Transplantable => " requires the type parameter to not be named Z",
                _ => " requires names that the generated code does not take",
            },
        };
        let lead = if self.offender.as_str().unicode_len() == 0 {
            "deriving ".to_owned()
        } else {
            self.offender.clone().concat(": deriving ")
        };
        let told = lead.concat(name).concat(needed);
        if self.detail.as_str().unicode_len() == 0 {
            assert(told@ + Seq::<char>::empty() =~= told@);
            told
        } else {
            let text = told.concat(": ").concat(self.detail.as_str());
            assert(text@ =~= told@ + (": "@ + self.detail@));
            text
        }
    }
}

} // verus!
