//! The shape of generated code: applied types and implementation blocks, with
//! the token list each of them stands for.

use crate::descriptor::{DescriptorView, TypeDescriptor, TypeParam, TypeParamView};
use crate::tokens::{
    put, put_separated, put_words, rendered, separated, tokens_text, words, TokenSeq,
};
use vstd::prelude::*;

verus! {

/// A type applied to arguments: `Name<'a, T>`.
#[derive(Debug, Clone)]
pub struct AppliedType {
    pub name: String,
    pub scopes: Vec<String>,
    pub types: Vec<String>,
}

/// What an [`AppliedType`] stands for in contracts.
pub struct AppliedTypeView {
    pub name: Seq<char>,
    pub scopes: Seq<Seq<char>>,
    pub types: Seq<Seq<char>>,
}

impl DeepView for AppliedType {
    type V = AppliedTypeView;

    open spec fn deep_view(&self) -> AppliedTypeView {
        AppliedTypeView {
            name: self.name@,
            scopes: self.scopes.deep_view(),
            types: self.types.deep_view(),
        }
    }
}

/// An argument list in angle brackets, scopes before types; nothing at all when
/// there is no argument.
pub open spec fn angle_tokens(scopes: Seq<Seq<char>>, types: Seq<Seq<char>>) -> TokenSeq {
    if scopes.len() == 0 && types.len() == 0 {
        Seq::empty()
    } else {
        seq!["<"@] + separated(scopes + types, ","@) + seq![">"@]
    }
}

impl AppliedTypeView {
    /// The name, and the arguments in angle brackets.
    pub open spec fn tokens(self) -> TokenSeq {
        seq![self.name] + angle_tokens(self.scopes, self.types)
    }
}

/// Copies a list of strings.
pub(crate) fn copy_strings(list: &Vec<String>) -> (copy: Vec<String>)
    ensures
        copy.deep_view() == list.deep_view(),
{
    let mut copy: Vec<String> = Vec::new();
    let mut i: usize = 0;
    while i < list.len()
        invariant
            i <= list.len(),
            copy.len() == i,
            forall|j: int| 0 <= j < i ==> copy@[j]@ == list@[j]@,
        decreases list.len() - i,
    {
        copy.push(list[i].clone());
        i += 1;
    }
    assert(copy.deep_view() =~= list.deep_view());
    copy
}

/// A list of one string.
pub(crate) fn one(item: &str) -> (list: Vec<String>)
    ensures
        list.deep_view() == seq![item@],
{
    let mut list: Vec<String> = Vec::new();
    list.push(item.to_owned());
    assert(list.deep_view() =~= seq![item@]);
    list
}

/// Joins two lists of strings into one.
pub(crate) fn concat_strings(first: &Vec<String>, second: &Vec<String>) -> (both: Vec<String>)
    ensures
        both.deep_view() == first.deep_view() + second.deep_view(),
{
    let mut both = copy_strings(first);
    let mut i: usize = 0;
    assert(both.deep_view().len() == first.deep_view().len());
    assert forall|j: int| 0 <= j < first.len() implies both@[j]@ == first@[j]@ by {
        assert(both.deep_view()[j] == first.deep_view()[j]);
    }
    while i < second.len()
        invariant
            i <= second.len(),
            both.len() == first.len() + i,
            forall|j: int| 0 <= j < first.len() ==> both@[j]@ == first@[j]@,
            forall|j: int| 0 <= j < i ==> both@[first.len() + j]@ == second@[j]@,
        decreases second.len() - i,
    {
        both.push(second[i].clone());
        i += 1;
    }
    assert(both.deep_view() =~= first.deep_view() + second.deep_view());
    both
}

/// Appends an argument list in angle brackets.
pub(crate) fn put_angle(
    tokens: &mut quote::Tokens,
    scopes: &Vec<String>,
    types: &Vec<String>,
    Ghost(done): Ghost<TokenSeq>,
)
    requires
        tokens_text(*old(tokens)) == rendered(done),
    ensures
        tokens_text(*final(tokens)) == rendered(
            done + angle_tokens(scopes.deep_view(), types.deep_view()),
        ),
{
    if scopes.len() == 0 && types.len() == 0 {
        assert(done + angle_tokens(scopes.deep_view(), types.deep_view()) =~= done);
    } else {
        let args = concat_strings(scopes, types);
        put(tokens, "<", Ghost(done));
        put_separated(tokens, &args, ",", Ghost(done.push("<"@)));
        put(tokens, ">", Ghost(done.push("<"@) + separated(args.deep_view(), ","@)));
        assert((done.push("<"@) + separated(args.deep_view(), ","@)).push(">"@) =~= done
            + angle_tokens(scopes.deep_view(), types.deep_view()));
    }
}

impl AppliedType {
    /// Appends the type's tokens.
    pub(crate) fn put(&self, tokens: &mut quote::Tokens, Ghost(done): Ghost<TokenSeq>)
        requires
            tokens_text(*old(tokens)) == rendered(done),
        ensures
            tokens_text(*final(tokens)) == rendered(done + self.deep_view().tokens()),
    {
        put(tokens, self.name.as_str(), Ghost(done));
        put_angle(tokens, &self.scopes, &self.types, Ghost(done.push(self.name@)));
        assert(done.push(self.name@) + angle_tokens(self.scopes.deep_view(), self.types.deep_view())
            =~= done + self.deep_view().tokens());
    }

    /// The type as text.
    pub fn to_tokens(&self) -> (tokens: quote::Tokens)
        ensures
            tokens_text(tokens) == rendered(self.deep_view().tokens()),
    {
        let mut tokens = quote::Tokens::new();
        self.put(&mut tokens, Ghost(Seq::empty()));
        assert(Seq::<Seq<char>>::empty() + self.deep_view().tokens() =~= self.deep_view().tokens());
        tokens
    }
}

/// The bounds of a type parameter: nothing, or a colon and the bounds joined by
/// `+`.
pub open spec fn bound_tokens(bounds: Seq<Seq<char>>) -> TokenSeq {
    if bounds.len() == 0 {
        Seq::empty()
    } else {
        seq![":"@] + separated(bounds, "+"@)
    }
}

/// A type parameter as it is declared: its name and its bounds.
pub open spec fn param_text(param: TypeParamView) -> Seq<char> {
    rendered(seq![param.name] + bound_tokens(param.bounds))
}

/// The declarations of a list of type parameters, in order.
pub open spec fn param_texts(params: Seq<TypeParamView>) -> Seq<Seq<char>> {
    Seq::new(params.len(), |i: int| param_text(params[i]))
}

/// A `where` clause: nothing, or the keyword and the constraints joined by
/// commas.
pub open spec fn where_tokens(constraints: Seq<Seq<char>>) -> TokenSeq {
    if constraints.len() == 0 {
        Seq::empty()
    } else {
        seq!["where"@] + separated(constraints, ","@)
    }
}

/// What stands before an `impl` that the compiler cannot check: the lint
/// allowance and the keyword.
pub open spec fn unchecked_tokens() -> TokenSeq {
    seq!["#"@, "["@, "allow"@, "("@, "unsafe_code"@, ")"@, "]"@, "unsafe"@]
}

/// The path of a capability of the runtime.
pub open spec fn capability_tokens(capability: Seq<char>) -> TokenSeq {
    seq!["::"@, "linjs"@, "::"@, capability]
}

impl TypeParam {
    /// The parameter as it is declared.
    pub fn text(&self) -> (text: String)
        ensures
            text@ == param_text(self.deep_view()),
    {
        let mut tokens = quote::Tokens::new();
        let ghost named = Seq::<Seq<char>>::empty().push(self.name@);
        put(&mut tokens, self.name.as_str(), Ghost(Seq::empty()));
        if self.bounds.len() > 0 {
            put(&mut tokens, ":", Ghost(named));
            put_separated(&mut tokens, &self.bounds, "+", Ghost(named.push(":"@)));
            assert(named.push(":"@) + separated(self.bounds.deep_view(), "+"@) =~= seq![self.name@]
                + bound_tokens(self.deep_view().bounds));
        } else {
            assert(named =~= seq![self.name@] + bound_tokens(self.deep_view().bounds));
        }
        tokens.into_string()
    }
}

/// The declarations of a list of type parameters, in order.
pub fn declare_params(params: &Vec<TypeParam>) -> (texts: Vec<String>)
    ensures
        texts.deep_view() == param_texts(params.deep_view()),
{
    let mut texts: Vec<String> = Vec::new();
    let mut i: usize = 0;
    while i < params.len()
        invariant
            i <= params.len(),
            texts.len() == i,
            forall|j: int| 0 <= j < i ==> texts@[j]@ == param_text(params@[j].deep_view()),
        decreases params.len() - i,
    {
        texts.push(params[i].text());
        i += 1;
    }
    assert(texts.deep_view() =~= param_texts(params.deep_view()));
    texts
}

/// The head of an implementation block: what it is generic over, the capability
/// it provides with the arguments of that capability, the type it is for, and
/// its constraints.
#[derive(Debug, Clone)]
pub struct ImplHeader {
    /// Whether the compiler cannot check the block (`unsafe impl`): what the
    /// block promises of the type is then for whoever relies on it to audit.
    pub unchecked: bool,
    /// The scope parameters that the block introduces.
    pub scopes: Vec<String>,
    /// The type parameters that the block introduces, with their bounds.
    pub types: Vec<TypeParam>,
    /// The name of the capability, as the runtime exports it.
    pub capability: String,
    /// The scopes that the capability is provided for.
    pub witness_scopes: Vec<String>,
    /// The types that the capability is provided for.
    pub witness_types: Vec<String>,
    /// The type that the block is for.
    pub subject: AppliedType,
    /// The constraints under which the block holds.
    pub constraints: Vec<String>,
}

/// What an [`ImplHeader`] stands for in contracts.
pub struct ImplHeaderView {
    pub unchecked: bool,
    pub scopes: Seq<Seq<char>>,
    pub types: Seq<TypeParamView>,
    pub capability: Seq<char>,
    pub witness_scopes: Seq<Seq<char>>,
    pub witness_types: Seq<Seq<char>>,
    pub subject: AppliedTypeView,
    pub constraints: Seq<Seq<char>>,
}

impl DeepView for ImplHeader {
    type V = ImplHeaderView;

    open spec fn deep_view(&self) -> ImplHeaderView {
        ImplHeaderView {
            unchecked: self.unchecked,
            scopes: self.scopes.deep_view(),
            types: self.types.deep_view(),
            capability: self.capability@,
            witness_scopes: self.witness_scopes.deep_view(),
            witness_types: self.witness_types.deep_view(),
            subject: self.subject.deep_view(),
            constraints: self.constraints.deep_view(),
        }
    }
}

impl ImplHeaderView {
    /// `impl` and what the block is generic over.
    pub open spec fn opening(self) -> TokenSeq {
        (if self.unchecked {
            unchecked_tokens()
        } else {
            Seq::empty()
        }) + seq!["impl"@] + angle_tokens(self.scopes, param_texts(self.types))
    }

    /// The capability with its arguments.
    pub open spec fn provided(self) -> TokenSeq {
        capability_tokens(self.capability) + angle_tokens(self.witness_scopes, self.witness_types)
    }

    /// `for`, the type the block is for, and the constraints.
    pub open spec fn target(self) -> TokenSeq {
        seq!["for"@] + self.subject.tokens() + where_tokens(self.constraints)
    }

    /// The header from `impl` to the last constraint.
    pub open spec fn tokens(self) -> TokenSeq {
        self.opening() + self.provided() + self.target()
    }
}

impl ImplHeader {
    fn put_opening(&self, tokens: &mut quote::Tokens, Ghost(done): Ghost<TokenSeq>)
        requires
            tokens_text(*old(tokens)) == rendered(done),
        ensures
            tokens_text(*final(tokens)) == rendered(done + self.deep_view().opening()),
    {
        let ghost view = self.deep_view();
        let ghost mut so_far = done;
        let ghost mut lead = Seq::<Seq<char>>::empty();
        if self.unchecked {
            let marker = ["#", "[", "allow", "(", "unsafe_code", ")", "]", "unsafe"];
            put_words(tokens, &marker, Ghost(so_far));
            proof {
                assert(words(marker@) =~= unchecked_tokens());
                lead = unchecked_tokens();
                so_far = done + lead;
            }
        } else {
            assert(done + lead =~= done);
        }
        put(tokens, "impl", Ghost(so_far));
        let declared = declare_params(&self.types);
        put_angle(tokens, &self.scopes, &declared, Ghost(so_far.push("impl"@)));
        assert(so_far.push("impl"@) + angle_tokens(view.scopes, param_texts(view.types)) =~= done
            + view.opening());
    }

    fn put_provided(&self, tokens: &mut quote::Tokens, Ghost(done): Ghost<TokenSeq>)
        requires
            tokens_text(*old(tokens)) == rendered(done),
        ensures
            tokens_text(*final(tokens)) == rendered(done + self.deep_view().provided()),
    {
        let ghost view = self.deep_view();
        let path = ["::", "linjs", "::"];
        put_words(tokens, &path, Ghost(done));
        put(tokens, self.capability.as_str(), Ghost(done + words(path@)));
        let ghost named = (done + words(path@)).push(view.capability);
        assert(named =~= done + capability_tokens(view.capability));
        put_angle(tokens, &self.witness_scopes, &self.witness_types, Ghost(named));
        assert(named + angle_tokens(view.witness_scopes, view.witness_types) =~= done
            + view.provided());
    }

    fn put_target(&self, tokens: &mut quote::Tokens, Ghost(done): Ghost<TokenSeq>)
        requires
            tokens_text(*old(tokens)) == rendered(done),
        ensures
            tokens_text(*final(tokens)) == rendered(done + self.deep_view().target()),
    {
        let ghost view = self.deep_view();
        put(tokens, "for", Ghost(done));
        self.subject.put(tokens, Ghost(done.push("for"@)));
        let ghost aimed = done.push("for"@) + view.subject.tokens();
        if self.constraints.len() > 0 {
            put(tokens, "where", Ghost(aimed));
            put_separated(tokens, &self.constraints, ",", Ghost(aimed.push("where"@)));
            assert(aimed.push("where"@) + separated(view.constraints, ","@) =~= done
                + view.target());
        } else {
            assert(aimed =~= done + view.target());
        }
    }

    /// Appends the header's tokens.
    pub(crate) fn put(&self, tokens: &mut quote::Tokens, Ghost(done): Ghost<TokenSeq>)
        requires
            tokens_text(*old(tokens)) == rendered(done),
        ensures
            tokens_text(*final(tokens)) == rendered(done + self.deep_view().tokens()),
    {
        let ghost view = self.deep_view();
        self.put_opening(tokens, Ghost(done));
        self.put_provided(tokens, Ghost(done + view.opening()));
        self.put_target(tokens, Ghost(done + view.opening() + view.provided()));
        assert(done + view.opening() + view.provided() + view.target() =~= done + view.tokens());
    }
}

/// An implementation block that binds one associated type: `impl .. { type
/// Binding = Bound; }`.
#[derive(Debug, Clone)]
pub struct Association {
    pub header: ImplHeader,
    pub binding: String,
    pub bound: AppliedType,
}

/// What an [`Association`] stands for in contracts.
pub struct AssociationView {
    pub header: ImplHeaderView,
    pub binding: Seq<char>,
    pub bound: AppliedTypeView,
}

impl DeepView for Association {
    type V = AssociationView;

    open spec fn deep_view(&self) -> AssociationView {
        AssociationView {
            header: self.header.deep_view(),
            binding: self.binding@,
            bound: self.bound.deep_view(),
        }
    }
}

impl AssociationView {
    /// The block's one item, in braces.
    pub open spec fn body(self) -> TokenSeq {
        seq!["{"@, "type"@, self.binding, "="@] + self.bound.tokens() + seq![";"@, "}"@]
    }

    /// The header and the body.
    pub open spec fn tokens(self) -> TokenSeq {
        self.header.tokens() + self.body()
    }
}

impl Association {
    /// Appends the block's tokens.
    pub(crate) fn put(&self, tokens: &mut quote::Tokens, Ghost(done): Ghost<TokenSeq>)
        requires
            tokens_text(*old(tokens)) == rendered(done),
        ensures
            tokens_text(*final(tokens)) == rendered(done + self.deep_view().tokens()),
    {
        let ghost view = self.deep_view();
        self.header.put(tokens, Ghost(done));
        let ghost headed = done + view.header.tokens();
        let open = ["{", "type"];
        put_words(tokens, &open, Ghost(headed));
        put(tokens, self.binding.as_str(), Ghost(headed + words(open@)));
        put(tokens, "=", Ghost((headed + words(open@)).push(view.binding)));
        let ghost bound = (headed + words(open@)).push(view.binding).push("="@);
        self.bound.put(tokens, Ghost(bound));
        let close = [";", "}"];
        put_words(tokens, &close, Ghost(bound + view.bound.tokens()));
        assert(bound + view.bound.tokens() + words(close@) =~= headed + view.body());
        assert(headed + view.body() =~= done + view.tokens());
    }

    /// The block as text.
    pub fn to_tokens(&self) -> (tokens: quote::Tokens)
        ensures
            tokens_text(tokens) == rendered(self.deep_view().tokens()),
    {
        let mut tokens = quote::Tokens::new();
        self.put(&mut tokens, Ghost(Seq::empty()));
        assert(Seq::<Seq<char>>::empty() + self.deep_view().tokens() =~= self.deep_view().tokens());
        tokens
    }
}

impl DescriptorView {
    /// The type applied to its own parameters.
    pub open spec fn applied(self) -> AppliedTypeView {
        AppliedTypeView { name: self.name, scopes: self.scope_params, types: self.type_names() }
    }
}

impl TypeParam {
    /// A copy of the parameter.
    pub fn duplicate(&self) -> (copy: TypeParam)
        ensures
            copy.deep_view() == self.deep_view(),
    {
        TypeParam { name: self.name.clone(), bounds: copy_strings(&self.bounds) }
    }

    /// A parameter without bounds.
    pub fn bare(name: &str) -> (param: TypeParam)
        ensures
            param.deep_view() == (TypeParamView { name: name@, bounds: Seq::empty() }),
    {
        let param = TypeParam { name: name.to_owned(), bounds: Vec::new() };
        assert(param.bounds.deep_view() =~= Seq::<Seq<char>>::empty());
        param
    }
}

/// Copies a list of type parameters.
pub(crate) fn copy_params(params: &Vec<TypeParam>) -> (copy: Vec<TypeParam>)
    ensures
        copy.deep_view() == params.deep_view(),
{
    let mut copy: Vec<TypeParam> = Vec::new();
    let mut i: usize = 0;
    while i < params.len()
        invariant
            i <= params.len(),
            copy.len() == i,
            forall|j: int| 0 <= j < i ==> copy@[j].deep_view() == params@[j].deep_view(),
        decreases params.len() - i,
    {
        copy.push(params[i].duplicate());
        i += 1;
    }
    assert(copy.deep_view() =~= params.deep_view());
    copy
}

impl TypeDescriptor {
    /// The type applied to its own parameters.
    pub fn applied(&self) -> (applied: AppliedType)
        ensures
            applied.deep_view() == self@.applied(),
    {
        AppliedType {
            name: self.name.clone(),
            scopes: copy_strings(&self.scope_params),
            types: self.type_names(),
        }
    }
}

} // verus!
