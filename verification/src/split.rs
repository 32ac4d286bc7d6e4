//! Taking joined text apart again: the tokens are what stands between the
//! spaces.

use crate::tokens::{rendered, TokenSeq};
use vstd::prelude::*;

verus! {

/// Where the first space of a text stands; the length of the text where it
/// holds no space.
pub open spec fn first_space(text: Seq<char>) -> int
    decreases text.len(),
{
    if text.len() == 0 || text[0] == ' ' {
        0
    } else {
        1 + first_space(text.drop_first())
    }
}

/// The tokens of a text: the stretches between its spaces. An empty text has no
/// token.
pub open spec fn split(text: Seq<char>) -> TokenSeq
    decreases text.len(),
{
    if text.len() == 0 {
        Seq::empty()
    } else {
        let at = first_space(text);
        if 0 <= at < text.len() {
            seq![text.take(at)] + split(text.skip(at + 1))
        } else {
            seq![text]
        }
    }
}

/// A token is whole when it is not empty and holds no space.
pub open spec fn whole(token: Seq<char>) -> bool {
    token.len() > 0 && forall|i: int| 0 <= i < token.len() ==> #[trigger] token[i] != ' '
}

/// The first space stands behind a stretch without spaces.
pub proof fn lemma_first_space(text: Seq<char>, at: int)
    requires
        0 <= at <= text.len(),
        forall|i: int| 0 <= i < at ==> #[trigger] text[i] != ' ',
        at == text.len() || text[at] == ' ',
    ensures
        first_space(text) == at,
    decreases at,
{
    if at > 0 {
        let rest = text.drop_first();
        assert(text[0] != ' ');
        assert forall|i: int| 0 <= i < at - 1 implies #[trigger] rest[i] != ' ' by {
            assert(rest[i] == text[i + 1]);
        }
        if at < text.len() {
            assert(rest[at - 1] == text[at]);
        }
        lemma_first_space(rest, at - 1);
    }
}

/// The first space stands inside the text or at its end.
pub proof fn lemma_first_space_bounds(text: Seq<char>)
    ensures
        0 <= first_space(text) <= text.len(),
        forall|i: int| 0 <= i < first_space(text) ==> #[trigger] text[i] != ' ',
        first_space(text) < text.len() ==> text[first_space(text)] == ' ',
    decreases text.len(),
{
    if text.len() > 0 && text[0] != ' ' {
        let rest = text.drop_first();
        lemma_first_space_bounds(rest);
        assert forall|i: int| 0 <= i < first_space(text) implies #[trigger] text[i] != ' ' by {
            if i > 0 {
                assert(rest[i - 1] == text[i]);
            }
        }
        if first_space(text) < text.len() {
            assert(rest[first_space(rest)] == text[first_space(text)]);
        }
    }
}

/// A whole token behind a space is the last token of the text.
pub proof fn lemma_split_last(text: Seq<char>, token: Seq<char>)
    requires
        text.len() > 0,
        text.last() != ' ',
        whole(token),
    ensures
        split(text + seq![' '] + token) == split(text).push(token),
    decreases text.len(),
{
    let all = text + seq![' '] + token;
    let at = first_space(text);
    lemma_first_space_bounds(text);
    assert forall|i: int| 0 <= i < at implies #[trigger] all[i] != ' ' by {
        assert(all[i] == text[i]);
    }
    if at < text.len() {
        assert(all[at] == text[at]);
        lemma_first_space(all, at);
        assert(all.take(at) =~= text.take(at));
        let rest = text.skip(at + 1);
        assert(all.skip(at + 1) =~= rest + seq![' '] + token);
        assert(rest.len() > 0);
        assert(rest.last() == text.last());
        lemma_split_last(rest, token);
        assert(split(all) =~= split(text).push(token));
    } else {
        assert(all[at] == ' ');
        lemma_first_space(all, at);
        assert(all.take(at) =~= text);
        assert(all.skip(at + 1) =~= token);
        lemma_first_space(token, token.len() as int);
        assert(split(token) =~= seq![token]);
        assert(split(text) =~= seq![text]);
        assert(split(all) =~= split(text).push(token));
    }
}

/// Joining whole tokens and taking the text apart again gives the tokens.
pub proof fn lemma_split_rendered(tokens: TokenSeq)
    requires
        forall|i: int| 0 <= i < tokens.len() ==> whole(#[trigger] tokens[i]),
    ensures
        split(rendered(tokens)) == tokens,
        tokens.len() > 0 ==> rendered(tokens).len() > 0 && rendered(tokens).last() != ' ',
    decreases tokens.len(),
{
    if tokens.len() > 0 {
        let front = tokens.drop_last();
        let last = tokens.last();
        assert(whole(last));
        assert forall|i: int| 0 <= i < front.len() implies whole(#[trigger] front[i]) by {
            assert(front[i] == tokens[i]);
        }
        lemma_split_rendered(front);
        if front.len() == 0 {
            assert(rendered(front) =~= Seq::<char>::empty());
            assert(rendered(tokens) =~= last);
            lemma_first_space(last, last.len() as int);
            assert(split(last) =~= seq![last]);
            assert(tokens =~= seq![last]);
        } else {
            assert(rendered(tokens) =~= rendered(front) + seq![' '] + last);
            assert(rendered(tokens).last() == last.last());
            lemma_split_last(rendered(front), last);
            assert(front.push(last) =~= tokens);
        }
    }
}

/// Takes a text apart into its tokens.
pub fn split_text(text: &str) -> (tokens: Vec<String>)
    ensures
        tokens.deep_view() == split(text@),
{
    let n = text.unicode_len();
    let mut tokens: Vec<String> = Vec::new();
    let mut start: usize = 0;
    let mut i: usize = 0;
    assert(text@.skip(0) =~= text@);
    assert(tokens.deep_view() + split(text@) =~= split(text@));
    while i < n
        invariant
            start <= i <= n,
            n == text@.len(),
            tokens.deep_view() + split(text@.skip(start as int)) == split(text@),
            forall|j: int| start <= j < i ==> #[trigger] text@[j] != ' ',
        decreases n - i,
    {
        if text.get_char(i) == ' ' {
            let token = text.substring_char(start, i);
            proof {
                let rest = text@.skip(start as int);
                assert forall|j: int| 0 <= j < i - start implies #[trigger] rest[j] != ' ' by {
                    assert(rest[j] == text@[start + j]);
                }
                assert(rest[i - start] == text@[i as int]);
                lemma_first_space(rest, i - start);
                assert(rest.take(i - start) =~= text@.subrange(start as int, i as int));
                assert(rest.skip(i - start + 1) =~= text@.skip(i + 1));
                assert(split(rest) == seq![token@] + split(text@.skip(i + 1)));
            }
            let ghost before = tokens.deep_view();
            tokens.push(token.to_owned());
            assert(tokens.deep_view() =~= before.push(token@));
            assert(tokens.deep_view() + split(text@.skip(i + 1)) =~= before + (seq![token@] + split(
                text@.skip(i + 1),
            )));
            start = i + 1;
        }
        i += 1;
    }
    if start < n {
        let token = text.substring_char(start, n);
        proof {
            let rest = text@.skip(start as int);
            assert forall|j: int| 0 <= j < n - start implies #[trigger] rest[j] != ' ' by {
                assert(rest[j] == text@[start + j]);
            }
            lemma_first_space(rest, n - start);
            assert(rest =~= text@.subrange(start as int, n as int));
            assert(split(rest) == seq![token@]);
        }
        let ghost before = tokens.deep_view();
        tokens.push(token.to_owned());
        assert(tokens.deep_view() =~= before.push(token@));
        assert(before.push(token@) =~= before + seq![token@]);
    } else {
        assert(text@.skip(start as int) =~= Seq::<char>::empty());
        assert(tokens.deep_view() + Seq::<Seq<char>>::empty() =~= tokens.deep_view());
    }
    tokens
}

} // verus!
