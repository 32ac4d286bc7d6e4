//! The four derives, from the text of a type declaration to the text of the
//! generated code.

use crate::class::{class_association, impl_has_class};
use crate::descriptor::DescriptorView;
use crate::error::{Capability, DeriveError, Violation};
use crate::frontend::{describe, describe_with_arms, described};
use crate::rootable::{impl_js_rootable, rootable, AGED_SCOPE};
use crate::tokens::rendered;
use crate::trace::{expand_string, lemma_tracing_around_its_arms, traceable};
use crate::transplantable::{impl_js_transplantable, transplantable, OTHER_HEAP};
use vstd::prelude::*;

verus! {

/// The text that deriving rooting gives for a described type.
pub open spec fn rootable_text(d: DescriptorView) -> Result<Seq<char>, Violation> {
    match rootable(d, AGED_SCOPE@) {
        Ok(block) => Ok(rendered(block.tokens())),
        Err(violation) => Err(violation),
    }
}

/// The text that deriving transplanting gives for a described type.
pub open spec fn transplantable_text(d: DescriptorView) -> Result<Seq<char>, Violation> {
    match transplantable(d, OTHER_HEAP@) {
        Ok(block) => Ok(rendered(block.tokens())),
        Err(violation) => Err(violation),
    }
}

/// The text that deriving the class pairing gives for a described type.
pub open spec fn class_text(d: DescriptorView) -> Result<Seq<char>, Violation> {
    match class_association(d) {
        Ok(pairing) => Ok(rendered(pairing.tokens())),
        Err(violation) => Err(violation),
    }
}

/// The text that deriving tracing gives for a described type.
pub open spec fn traceable_text(d: DescriptorView) -> Result<Seq<char>, Violation> {
    match traceable(d) {
        Ok(block) => Ok(rendered(block.tokens())),
        Err(violation) => Err(violation),
    }
}

/// A derive's result reports an outcome for a type of some name: the same text,
/// or the same violation under that name.
pub open spec fn reports(
    r: Result<String, DeriveError>,
    capability: Capability,
    offender: Seq<char>,
    outcome: Result<Seq<char>, Violation>,
) -> bool {
    match r {
        Ok(text) => outcome == Ok::<Seq<char>, Violation>(text@),
        Err(e) => outcome == Err::<Seq<char>, Violation>(e.violation) && e.capability == capability
            && e.offender@ == offender,
    }
}

/// A derive's result says that the text could not be parsed: the refusal names
/// no type.
pub open spec fn unparsed(r: Result<String, DeriveError>, capability: Capability) -> bool {
    r matches Err(e) && e.violation == Violation::Malformed && e.capability == capability
        && e.offender@.len() == 0
}

/// Derives rooting from the text of a type declaration. A text that cannot be
/// parsed is refused without a name; for any other, the result is what
/// [`rootable_text`] gives for the description that the text declares.
pub fn derive_js_rootable(input: &str) -> (r: Result<String, DeriveError>)
    ensures
        match described(input@) {
            None => unparsed(r, Capability::Rootable),
            Some(d) => reports(r, Capability::Rootable, d.name, rootable_text(d)),
        },
{
    match describe(input, Capability::Rootable) {
        Err(e) => Err(e),
        Ok(d) => match impl_js_rootable(&d) {
            Ok(tokens) => Ok(tokens.into_string()),
            Err(e) => Err(e),
        },
    }
}

/// Derives transplanting from the text of a type declaration. A text that
/// cannot be parsed is refused without a name; for any other, the result is
/// what [`transplantable_text`] gives for the description that the text
/// declares.
pub fn derive_js_transplantable(input: &str) -> (r: Result<String, DeriveError>)
    ensures
        match described(input@) {
            None => unparsed(r, Capability::Transplantable),
            Some(d) => reports(r, Capability::Transplantable, d.name, transplantable_text(d)),
        },
{
    match describe(input, Capability::Transplantable) {
        Err(e) => Err(e),
        Ok(d) => match impl_js_transplantable(&d) {
            Ok(tokens) => Ok(tokens.into_string()),
            Err(e) => Err(e),
        },
    }
}

/// Derives the class pairing from the text of a type declaration. A text that
/// cannot be parsed is refused without a name; for any other, the result is
/// what [`class_text`] gives for the description that the text declares.
pub fn derive_has_class(input: &str) -> (r: Result<String, DeriveError>)
    ensures
        match described(input@) {
            None => unparsed(r, Capability::ClassAssociation),
            Some(d) => reports(r, Capability::ClassAssociation, d.name, class_text(d)),
        },
{
    match describe(input, Capability::ClassAssociation) {
        Err(e) => Err(e),
        Ok(d) => match impl_has_class(&d) {
            Ok(tokens) => Ok(tokens.into_string()),
            Err(e) => Err(e),
        },
    }
}

/// Derives tracing from the text of a type declaration. A text that cannot be
/// parsed is refused without a name; for any other, the result is what
/// [`traceable_text`] gives for the description that the text declares.
pub fn expand_token_stream(input: &str) -> (r: Result<String, DeriveError>)
    ensures
        match described(input@) {
            None => unparsed(r, Capability::Trace),
            Some(d) => reports(r, Capability::Trace, d.name, traceable_text(d)),
        },
{
    match describe_with_arms(input) {
        Err(e) => Err(e),
        Ok((d, arms)) => {
            proof {
                lemma_tracing_around_its_arms(d@);
            }
            expand_string(&d, arms.as_str())
        },
    }
}

} // verus!
