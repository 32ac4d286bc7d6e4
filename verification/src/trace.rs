//! The visitation of a type: for every variant, a match arm that binds each
//! field by reference and has it traced.
//!
//! What is generated is complete in structure: every field of every variant is
//! bound and visited, once. Whether visiting every field reaches everything
//! that the collector has to reach is not decided here. A field may hide a
//! managed value behind a handle whose own tracing does nothing, and nothing in
//! a type's description shows it. The generated block is therefore an `unsafe
//! impl`, and the soundness of tracing stays an obligation of the runtime and
//! of whoever derives the capability.

use crate::binding::binding_name;
use crate::descriptor::{
    DescriptorView, FieldView, Kind, Shape, TypeDescriptor, TypeParam, TypeParamView, VariantView,
};
use crate::error::{Capability, DeriveError, Violation};
use crate::model::{concat_strings, copy_params, copy_strings, ImplHeader, ImplHeaderView};
use crate::tokens::{
    append, joined, joined_all, lemma_joined_all_is_joined, put, put_words, rendered, tokens_text,
    words, TokenSeq,
};
use vstd::prelude::*;

verus! {

/// A field bound to a name inside a pattern.
pub struct BindingView {
    pub ident: Seq<char>,
    pub field: FieldView,
}

/// One match arm: the path that the pattern starts with, the bindings that the
/// pattern makes, and the bindings (by name) that the body has traced.
pub struct TraceArmView {
    pub path: TokenSeq,
    pub shape: Shape,
    pub bindings: Seq<BindingView>,
    pub visits: Seq<Seq<char>>,
}

impl BindingView {
    /// The binding inside a pattern: by reference, after the field's name where
    /// fields are named, and closed by a comma.
    pub open spec fn pattern(self, shape: Shape) -> TokenSeq {
        match (shape, self.field.name) {
            (Shape::Named, Some(name)) => seq![name, ":"@, "ref"@, self.ident, ","@],
            _ => seq!["ref"@, self.ident, ","@],
        }
    }
}

/// The bindings of a pattern, one after the other.
pub open spec fn patterns(bindings: Seq<BindingView>, shape: Shape) -> TokenSeq
    decreases bindings.len(),
{
    if bindings.len() == 0 {
        Seq::empty()
    } else {
        patterns(bindings.drop_last(), shape) + bindings.last().pattern(shape)
    }
}

/// The statement that has one bound field traced.
pub open spec fn statement(ident: Seq<char>) -> TokenSeq {
    seq![ident, "."@, "trace"@, "("@, "tracer"@, ")"@, ";"@]
}

/// The visit of one bound field: the statement in a block of its own.
pub open spec fn visit(ident: Seq<char>) -> TokenSeq {
    seq!["{"@] + statement(ident) + seq!["}"@]
}

/// One visit for each name, in order.
pub open spec fn visit_all(idents: Seq<Seq<char>>) -> TokenSeq
    decreases idents.len(),
{
    if idents.len() == 0 {
        Seq::empty()
    } else {
        visit_all(idents.drop_last()) + visit(idents.last())
    }
}

impl TraceArmView {
    /// The pattern: the path, and the bindings in the brackets of the shape.
    pub open spec fn pattern(self) -> TokenSeq {
        match self.shape {
            Shape::Unit => self.path,
            Shape::Tuple => self.path + seq!["("@] + patterns(self.bindings, self.shape) + seq![
                ")"@,
            ],
            Shape::Named => self.path + seq!["{"@] + patterns(self.bindings, self.shape) + seq![
                "}"@,
            ],
        }
    }

    /// The arrow and the body: one visit for each name, and a unit value.
    pub open spec fn body(self) -> TokenSeq {
        seq!["=>"@, "{"@] + visit_all(self.visits) + seq!["("@, ")"@, "}"@]
    }

    /// The pattern and the body.
    pub open spec fn tokens(self) -> TokenSeq {
        self.pattern() + self.body()
    }
}

/// The implementation of tracing for a type: the header and one arm for each
/// variant.
pub struct TraceImplView {
    pub header: ImplHeaderView,
    pub arms: Seq<TraceArmView>,
}

/// The arms of a match, one after the other.
pub open spec fn arms_tokens(arms: Seq<TraceArmView>) -> TokenSeq
    decreases arms.len(),
{
    if arms.len() == 0 {
        Seq::empty()
    } else {
        arms_tokens(arms.drop_last()) + arms.last().tokens()
    }
}

/// From the block's opening brace to the opening brace of the match: the
/// method's attributes and signature, and the import of the capability.
pub open spec fn method_opening() -> TokenSeq {
    seq![
        "{"@,
        "#"@,
        "["@,
        "inline"@,
        "]"@,
        "#"@,
        "["@,
        "allow"@,
        "("@,
        "unused_variables"@,
        ","@,
        "unused_imports"@,
        ")"@,
        "]"@,
        "unsafe"@,
        "fn"@,
        "trace"@,
        "("@,
        "&"@,
        "self"@,
        ","@,
        "tracer"@,
        ":"@,
        "*"@,
        "mut"@,
        "::"@,
        "linjs"@,
        "::"@,
        "JSTracer"@,
        ")"@,
        "{"@,
        "use"@,
        "::"@,
        "linjs"@,
        "::"@,
        "JSTraceable"@,
        ";"@,
        "match"@,
        "*"@,
        "self"@,
        "{"@,
    ]
}

/// The closing braces of the match, of the method and of the block.
pub open spec fn method_closing() -> TokenSeq {
    seq!["}"@, "}"@, "}"@]
}

impl TraceImplView {
    /// The header, and the method with one arm for each variant.
    pub open spec fn tokens(self) -> TokenSeq {
        self.header.tokens() + method_opening() + arms_tokens(self.arms) + method_closing()
    }
}

fn put_method_opening(tokens: &mut quote::Tokens, Ghost(done): Ghost<TokenSeq>)
    requires
        tokens_text(*old(tokens)) == rendered(done),
    ensures
        tokens_text(*final(tokens)) == rendered(done + method_opening()),
{
    let opening = [
        "{",
        "#",
        "[",
        "inline",
        "]",
        "#",
        "[",
        "allow",
        "(",
        "unused_variables",
        ",",
        "unused_imports",
        ")",
        "]",
        "unsafe",
        "fn",
        "trace",
        "(",
        "&",
        "self",
        ",",
        "tracer",
        ":",
        "*",
        "mut",
        "::",
        "linjs",
        "::",
        "JSTracer",
        ")",
        "{",
        "use",
        "::",
        "linjs",
        "::",
        "JSTraceable",
        ";",
        "match",
        "*",
        "self",
        "{",
    ];
    put_words(tokens, &opening, Ghost(done));
    assert(words(opening@) =~= method_opening());
}

/// The bindings that a pattern makes for a list of fields: the field at
/// position `i` is bound to the name for position `i`.
pub open spec fn bindings_of(fields: Seq<FieldView>) -> Seq<BindingView> {
    Seq::new(fields.len(), |i: int| BindingView { ident: binding_name(i as nat), field: fields[i] })
}

/// The names bound for a list of fields, in order.
pub open spec fn idents_of(fields: Seq<FieldView>) -> Seq<Seq<char>> {
    Seq::new(fields.len(), |i: int| binding_name(i as nat))
}

/// What a variant's pattern starts with: the type's name for a product type,
/// the type's and the variant's names for a sum type.
pub open spec fn path_of(name: Seq<char>, kind: Kind, variant: VariantView) -> TokenSeq {
    match kind {
        Kind::Product => seq![name],
        Kind::Sum => seq![name, "::"@, variant.name],
    }
}

/// The arm for one variant: every field is bound, and every binding is visited,
/// in the order of the fields.
pub open spec fn arm_of(name: Seq<char>, kind: Kind, variant: VariantView) -> TraceArmView {
    TraceArmView {
        path: path_of(name, kind, variant),
        shape: variant.shape,
        bindings: bindings_of(variant.fields),
        visits: idents_of(variant.fields),
    }
}

/// One arm for each variant, in order.
pub open spec fn arms_of(name: Seq<char>, kind: Kind, variants: Seq<VariantView>) -> Seq<
    TraceArmView,
> {
    Seq::new(variants.len(), |k: int| arm_of(name, kind, variants[k]))
}

/// The constraint that a type parameter can itself be traced.
pub open spec fn traceable_constraint(name: Seq<char>) -> Seq<char> {
    rendered(seq![name, ":"@, "::"@, "linjs"@, "::"@, "JSTraceable"@])
}

/// One such constraint for every type parameter but the first. The first is the
/// leading type parameter, the one that the class pairing sets apart as the
/// instance type; tracing asks nothing of it.
pub open spec fn traceable_rest(params: Seq<TypeParamView>) -> Seq<Seq<char>> {
    if params.len() == 0 {
        Seq::empty()
    } else {
        Seq::new((params.len() - 1) as nat, |i: int| traceable_constraint(params[i + 1].name))
    }
}

/// The header of the implementation of tracing for a type.
pub open spec fn tracing_header(d: DescriptorView) -> ImplHeaderView {
    ImplHeaderView {
        unchecked: true,
        scopes: d.scope_params,
        types: d.type_params,
        capability: "JSTraceable"@,
        witness_scopes: Seq::empty(),
        witness_types: Seq::empty(),
        subject: d.applied(),
        constraints: d.where_constraints + traceable_rest(d.type_params),
    }
}

/// The implementation of tracing generated for a type.
pub open spec fn tracing(d: DescriptorView) -> TraceImplView {
    TraceImplView { header: tracing_header(d), arms: arms_of(d.name, d.kind, d.variants) }
}

/// What tracing makes of a type, or why it refuses it.
pub open spec fn traceable(d: DescriptorView) -> Result<TraceImplView, Violation> {
    if !d.well_formed() {
        Err(Violation::Malformed)
    } else {
        Ok(tracing(d))
    }
}

/// The implementation of tracing around given match arms: the header and the
/// opening of the method, the arms as one piece of text, the closing braces.
pub open spec fn tracing_around(d: DescriptorView, arms: Seq<char>) -> Seq<char> {
    joined_all(
        joined(rendered(tracing_header(d).tokens() + method_opening()), arms),
        method_closing(),
    )
}

/// Around the arms that tracing asks for, the text is that of the whole
/// implementation.
pub proof fn lemma_tracing_around_its_arms(d: DescriptorView)
    ensures
        tracing_around(d, rendered(arms_tokens(tracing(d).arms))) == rendered(
            tracing(d).tokens(),
        ),
{
    let lead = tracing_header(d).tokens() + method_opening();
    let arms = arms_tokens(tracing(d).arms);
    lemma_joined_all_is_joined(rendered(lead), arms);
    lemma_joined_all_is_joined(Seq::empty(), lead);
    crate::tokens::lemma_joined_all_concat(Seq::empty(), lead, arms);
    crate::tokens::lemma_joined_all_concat(Seq::empty(), lead + arms, method_closing());
    assert(joined(Seq::empty(), rendered(lead)) =~= rendered(lead));
    assert(lead + arms + method_closing() =~= tracing(d).tokens());
}

/// The statement that has the field bound to `ident` traced.
pub fn visit_statement(ident: &str) -> (tokens: quote::Tokens)
    ensures
        tokens_text(tokens) == rendered(statement(ident@)),
{
    let mut tokens = quote::Tokens::new();
    put(&mut tokens, ident, Ghost(Seq::empty()));
    let call = [".", "trace", "(", "tracer", ")", ";"];
    put_words(&mut tokens, &call, Ghost(Seq::<Seq<char>>::empty().push(ident@)));
    assert(Seq::<Seq<char>>::empty().push(ident@) + words(call@) =~= statement(ident@));
    tokens
}

/// The constraints that every type parameter but the first can be traced.
fn trace_rest(params: &Vec<TypeParam>) -> (constraints: Vec<String>)
    ensures
        constraints.deep_view() == traceable_rest(params.deep_view()),
{
    let mut constraints: Vec<String> = Vec::new();
    if params.len() == 0 {
        assert(constraints.deep_view() =~= traceable_rest(params.deep_view()));
        return constraints;
    }
    let mut i: usize = 1;
    while i < params.len()
        invariant
            1 <= i <= params.len(),
            constraints.len() == i - 1,
            forall|j: int|
                0 <= j < i - 1 ==> constraints@[j]@ == traceable_constraint(params@[j + 1].name@),
        decreases params.len() - i,
    {
        let mut tokens = quote::Tokens::new();
        put(&mut tokens, params[i].name.as_str(), Ghost(Seq::empty()));
        let ghost named = Seq::<Seq<char>>::empty().push(params@[i as int].name@);
        let bound = [":", "::", "linjs", "::", "JSTraceable"];
        put_words(&mut tokens, &bound, Ghost(named));
        assert(named + words(bound@) =~= seq![
            params@[i as int].name@,
            ":"@,
            "::"@,
            "linjs"@,
            "::"@,
            "JSTraceable"@,
        ]);
        constraints.push(tokens.into_string());
        i += 1;
    }
    assert(constraints.deep_view() =~= traceable_rest(params.deep_view()));
    constraints
}

/// Generates the implementation of tracing for a type around its match arms.
/// The arms are text of the caller's: for the arms that tracing asks for, see
/// [`lemma_tracing_around_its_arms`].
pub fn expand_string(d: &TypeDescriptor, arms: &str) -> (r: Result<String, DeriveError>)
    ensures
        match r {
            Ok(text) => d@.well_formed() && text@ == tracing_around(d@, arms@),
            Err(e) => !d@.well_formed() && e.violation == Violation::Malformed && e.capability
                == Capability::Trace && e.offender@ == d@.name,
        },
{
    if !d.is_well_formed() {
        return Err(DeriveError::new(Capability::Trace, Violation::Malformed, d.name.as_str()));
    }
    let added = trace_rest(&d.type_params);
    let header = ImplHeader {
        unchecked: true,
        scopes: copy_strings(&d.scope_params),
        types: copy_params(&d.type_params),
        capability: "JSTraceable".to_owned(),
        witness_scopes: Vec::new(),
        witness_types: Vec::new(),
        subject: d.applied(),
        constraints: concat_strings(&d.where_constraints, &added),
    };
    assert(header.witness_scopes.deep_view() =~= Seq::<Seq<char>>::empty());
    assert(header.witness_types.deep_view() =~= Seq::<Seq<char>>::empty());
    assert(header.deep_view() == tracing_header(d@));
    let mut tokens = quote::Tokens::new();
    header.put(&mut tokens, Ghost(Seq::empty()));
    let ghost headed = Seq::<Seq<char>>::empty() + tracing_header(d@).tokens();
    put_method_opening(&mut tokens, Ghost(headed));
    assert(headed + method_opening() =~= tracing_header(d@).tokens() + method_opening());
    append(&mut tokens, arms);
    let ghost inner = tokens_text(tokens);
    append(&mut tokens, "}");
    append(&mut tokens, "}");
    append(&mut tokens, "}");
    proof {
        let closing = method_closing();
        let two = closing.drop_last();
        let one = two.drop_last();
        assert(two =~= seq!["}"@, "}"@]);
        assert(one =~= seq!["}"@]);
        assert(one.drop_last() =~= Seq::<Seq<char>>::empty());
        assert(joined_all(inner, one.drop_last()) == inner);
        assert(joined_all(inner, one) == joined(inner, "}"@));
        assert(joined_all(inner, two) == joined(joined(inner, "}"@), "}"@));
        assert(joined_all(inner, closing) == joined(joined(joined(inner, "}"@), "}"@), "}"@));
    }
    Ok(tokens.into_string())
}

} // verus!
