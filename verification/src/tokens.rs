//! The token buffer that generated code is written into.
//!
//! The buffer is `quote::Tokens`. Its text is modelled as a `Seq<char>`, and a
//! list of tokens as a `Seq<Seq<char>>`; [`joined_all`] says what text a list
//! of tokens becomes once every token has been appended.

use vstd::prelude::*;

verus! {

/// `quote::Tokens`, a buffer of tokens. All that is known of it is the text it
/// holds.
#[verifier::external_type_specification]
#[verifier::external_body]
pub struct ExTokens(quote::Tokens);

/// The text held by a token buffer.
pub uninterp spec fn tokens_text(tokens: quote::Tokens) -> Seq<char>;

/// A list of tokens.
pub type TokenSeq = Seq<Seq<char>>;

/// The text after one more token: the token follows a single space, unless the
/// text so far or the token is empty.
pub open spec fn joined(text: Seq<char>, token: Seq<char>) -> Seq<char> {
    if text.len() > 0 && token.len() > 0 {
        text + seq![' '] + token
    } else {
        text + token
    }
}

/// The text after every token of `tokens` has been appended in order.
pub open spec fn joined_all(text: Seq<char>, tokens: TokenSeq) -> Seq<char>
    decreases tokens.len(),
{
    if tokens.len() == 0 {
        text
    } else {
        joined(joined_all(text, tokens.drop_last()), tokens.last())
    }
}

/// The text of a token list written into an empty buffer.
pub open spec fn rendered(tokens: TokenSeq) -> Seq<char> {
    joined_all(Seq::empty(), tokens)
}

/// `quote::Tokens::new` returns a buffer without text.
pub assume_specification[ quote::Tokens::new ]() -> (tokens: quote::Tokens)
    ensures
        tokens_text(tokens) == Seq::<char>::empty(),
;

/// `quote::Tokens::into_string` turns the buffer into its text.
pub assume_specification[ quote::Tokens::into_string ](tokens: quote::Tokens) -> (text: String)
    ensures
        text@ == tokens_text(tokens),
;

/// `quote::Tokens::append` with a string slice: the token is pushed onto the
/// text, after one space when neither the text nor the token is empty.
#[verifier::external_body]
pub(crate) fn append(tokens: &mut quote::Tokens, token: &str)
    ensures
        tokens_text(*final(tokens)) == joined(tokens_text(*old(tokens)), token@),
{
    tokens.append(token)
}

/// The items of a list with a separator between each two of them.
pub open spec fn separated(items: TokenSeq, separator: Seq<char>) -> TokenSeq
    decreases items.len(),
{
    if items.len() == 0 {
        Seq::empty()
    } else if items.len() == 1 {
        items
    } else {
        separated(items.drop_last(), separator) + seq![separator, items.last()]
    }
}

/// Appends one token to a buffer that holds the tokens `done`.
pub(crate) fn put(tokens: &mut quote::Tokens, token: &str, Ghost(done): Ghost<TokenSeq>)
    requires
        tokens_text(*old(tokens)) == rendered(done),
    ensures
        tokens_text(*final(tokens)) == rendered(done.push(token@)),
{
    append(tokens, token);
    assert(done.push(token@).drop_last() =~= done);
}

/// Appends the strings of `items` with `separator` between each two of them.
pub(crate) fn put_separated(
    tokens: &mut quote::Tokens,
    items: &Vec<String>,
    separator: &str,
    Ghost(done): Ghost<TokenSeq>,
)
    requires
        tokens_text(*old(tokens)) == rendered(done),
    ensures
        tokens_text(*final(tokens)) == rendered(done + separated(items.deep_view(), separator@)),
{
    let ghost all = items.deep_view();
    let mut i: usize = 0;
    assert(done + separated(all.take(0), separator@) =~= done);
    while i < items.len()
        invariant
            i <= items.len(),
            all == items.deep_view(),
            tokens_text(*tokens) == rendered(done + separated(all.take(i as int), separator@)),
        decreases items.len() - i,
    {
        let ghost before = done + separated(all.take(i as int), separator@);
        let ghost next = all.take(i + 1);
        assert(next.drop_last() =~= all.take(i as int));
        assert(next.last() == items[i as int]@);
        if i > 0 {
            put(tokens, separator, Ghost(before));
            put(tokens, items[i].as_str(), Ghost(before.push(separator@)));
            assert(before.push(separator@).push(items[i as int]@) =~= done + separated(
                next,
                separator@,
            ));
        } else {
            put(tokens, items[i].as_str(), Ghost(before));
            assert(before.push(items[i as int]@) =~= done + separated(next, separator@));
        }
        i += 1;
    }
    assert(all.take(items.len() as int) =~= all);
}

/// The tokens spelled by a list of fixed words.
pub open spec fn words(list: Seq<&'static str>) -> TokenSeq {
    Seq::new(list.len(), |i: int| list[i]@)
}

/// Appends a list of fixed words, one token each.
pub(crate) fn put_words(
    tokens: &mut quote::Tokens,
    list: &[&'static str],
    Ghost(done): Ghost<TokenSeq>,
)
    requires
        tokens_text(*old(tokens)) == rendered(done),
    ensures
        tokens_text(*final(tokens)) == rendered(done + words(list@)),
{
    let mut i: usize = 0;
    assert(done + words(list@).take(0) =~= done);
    while i < list.len()
        invariant
            i <= list.len(),
            tokens_text(*tokens) == rendered(done + words(list@).take(i as int)),
        decreases list.len() - i,
    {
        put(tokens, list[i], Ghost(done + words(list@).take(i as int)));
        assert((done + words(list@).take(i as int)).push(list[i as int]@) =~= done + words(
            list@,
        ).take(i + 1));
        i += 1;
    }
    assert(words(list@).take(list.len() as int) =~= words(list@));
}

/// Appending one list after another is appending their concatenation.
pub proof fn lemma_joined_all_concat(text: Seq<char>, first: TokenSeq, second: TokenSeq)
    ensures
        joined_all(joined_all(text, first), second) == joined_all(text, first + second),
    decreases second.len(),
{
    if second.len() == 0 {
        assert(first + second =~= first);
    } else {
        lemma_joined_all_concat(text, first, second.drop_last());
        assert((first + second).drop_last() =~= first + second.drop_last());
        assert((first + second).last() == second.last());
    }
}

/// Joining is associative: it does not matter which of two joins comes first.
pub proof fn lemma_joined_is_associative(a: Seq<char>, b: Seq<char>, c: Seq<char>)
    ensures
        joined(joined(a, b), c) == joined(a, joined(b, c)),
{
    assert(joined(joined(a, b), c) =~= joined(a, joined(b, c)));
}

/// Appending the tokens of a list one by one is appending the text that the
/// list makes on its own.
pub proof fn lemma_joined_all_is_joined(text: Seq<char>, tokens: TokenSeq)
    ensures
        joined_all(text, tokens) == joined(text, rendered(tokens)),
    decreases tokens.len(),
{
    if tokens.len() == 0 {
        assert(joined(text, Seq::<char>::empty()) =~= text);
    } else {
        lemma_joined_all_is_joined(text, tokens.drop_last());
        lemma_joined_is_associative(text, rendered(tokens.drop_last()), tokens.last());
    }
}

} // verus!
