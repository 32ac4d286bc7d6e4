//! Reading generated tokens back: from the tokens of an applied type to the
//! applied type, and from the body of an association to what it binds.

use crate::model::{AppliedType, AppliedTypeView, AssociationView};
use crate::tokens::{separated, TokenSeq};
use vstd::prelude::*;

verus! {

/// A list is well separated when it has a separator at every odd position and
/// ends with an item.
pub open spec fn well_separated(tokens: TokenSeq, separator: Seq<char>) -> bool {
    &&& tokens.len() % 2 == 1
    &&& forall|i: int| 0 <= i < tokens.len() && i % 2 == 1 ==> #[trigger] tokens[i] == separator
}

/// The items of a well-separated list: what stands at the even positions.
pub open spec fn every_other(tokens: TokenSeq) -> TokenSeq {
    Seq::new(((tokens.len() + 1) / 2) as nat, |i: int| tokens[2 * i])
}

/// Whether a token reads as a scope: it starts with an apostrophe.
pub open spec fn reads_as_scope(token: Seq<char>) -> bool {
    token.len() > 0 && token[0] == '\''
}

/// How many tokens at the front of a list read as scopes.
pub open spec fn scope_count(args: TokenSeq) -> nat
    decreases args.len(),
{
    if args.len() > 0 && reads_as_scope(args[0]) {
        1 + scope_count(args.drop_first())
    } else {
        0
    }
}

/// Reads an argument list: the scopes in front, the types behind them. A scope
/// behind a type is refused.
pub open spec fn parse_args(name: Seq<char>, args: TokenSeq) -> Option<AppliedTypeView> {
    let n = scope_count(args) as int;
    if forall|i: int| n <= i < args.len() ==> !reads_as_scope(#[trigger] args[i]) {
        Some(AppliedTypeView { name, scopes: args.take(n), types: args.skip(n) })
    } else {
        None
    }
}

/// Reads an applied type off its tokens: a name alone, or a name and a
/// non-empty, comma-separated argument list in angle brackets.
pub open spec fn parse_applied(tokens: TokenSeq) -> Option<AppliedTypeView> {
    if tokens.len() == 1 {
        Some(AppliedTypeView { name: tokens[0], scopes: Seq::empty(), types: Seq::empty() })
    } else if tokens.len() >= 4 && tokens[1] == "<"@ && tokens.last() == ">"@ && well_separated(
        tokens.subrange(2, tokens.len() - 1),
        ","@,
    ) {
        parse_args(tokens[0], every_other(tokens.subrange(2, tokens.len() - 1)))
    } else {
        None
    }
}

/// Reads the body of an association: the name it binds and the applied type it
/// binds the name to.
pub open spec fn parse_body(tokens: TokenSeq) -> Option<(Seq<char>, AppliedTypeView)> {
    if tokens.len() >= 7 && tokens[0] == "{"@ && tokens[1] == "type"@ && tokens[3] == "="@
        && tokens[tokens.len() - 2] == ";"@ && tokens.last() == "}"@ {
        match parse_applied(tokens.subrange(4, tokens.len() - 2)) {
            Some(bound) => Some((tokens[2], bound)),
            None => None,
        }
    } else {
        None
    }
}

/// An applied type reads back as itself when its scopes read as scopes and its
/// types do not.
pub open spec fn readable(applied: AppliedTypeView) -> bool {
    &&& forall|i: int|
        0 <= i < applied.scopes.len() ==> reads_as_scope(#[trigger] applied.scopes[i])
    &&& forall|i: int|
        0 <= i < applied.types.len() ==> !reads_as_scope(#[trigger] applied.types[i])
}

/// A separated list has its items at the even positions and the separator at
/// the odd ones.
pub proof fn lemma_separated_shape(items: TokenSeq, separator: Seq<char>)
    requires
        items.len() > 0,
    ensures
        separated(items, separator).len() == 2 * items.len() - 1,
        well_separated(separated(items, separator), separator),
        every_other(separated(items, separator)) == items,
    decreases items.len(),
{
    let all = separated(items, separator);
    if items.len() > 1 {
        let front = separated(items.drop_last(), separator);
        lemma_separated_shape(items.drop_last(), separator);
        assert(all == front + seq![separator, items.last()]);
        assert forall|i: int| 0 <= i < all.len() && i % 2 == 1 implies #[trigger] all[i]
            == separator by {
            if i < front.len() {
                assert(all[i] == front[i]);
            }
        }
        assert forall|i: int| 0 <= i < items.len() implies #[trigger] every_other(all)[i]
            == items[i] by {
            if i < items.len() - 1 {
                assert(all[2 * i] == front[2 * i]);
                assert(every_other(front)[i] == items.drop_last()[i]);
            }
        }
        assert(every_other(all) =~= items);
    } else {
        assert(every_other(all) =~= items);
    }
}

/// Scopes in front of types are counted exactly.
pub proof fn lemma_scope_count(scopes: TokenSeq, types: TokenSeq)
    requires
        forall|i: int| 0 <= i < scopes.len() ==> reads_as_scope(#[trigger] scopes[i]),
        forall|i: int| 0 <= i < types.len() ==> !reads_as_scope(#[trigger] types[i]),
    ensures
        scope_count(scopes + types) == scopes.len(),
    decreases scopes.len(),
{
    let args = scopes + types;
    if scopes.len() == 0 {
        assert(args =~= types);
        if types.len() > 0 {
            assert(!reads_as_scope(types[0]));
        }
    } else {
        assert(args[0] == scopes[0]);
        assert(args.drop_first() =~= scopes.drop_first() + types);
        assert forall|i: int| 0 <= i < scopes.drop_first().len() implies reads_as_scope(
            #[trigger] scopes.drop_first()[i],
        ) by {
            assert(scopes.drop_first()[i] == scopes[i + 1]);
        }
        lemma_scope_count(scopes.drop_first(), types);
    }
}

/// Emitting an applied type and reading it back gives the applied type.
pub proof fn lemma_applied_round_trip(applied: AppliedTypeView)
    requires
        readable(applied),
    ensures
        parse_applied(applied.tokens()) == Some(applied),
{
    let tokens = applied.tokens();
    let args = applied.scopes + applied.types;
    if args.len() == 0 {
        assert(applied.scopes =~= Seq::<Seq<char>>::empty());
        assert(applied.types =~= Seq::<Seq<char>>::empty());
        assert(tokens =~= seq![applied.name]);
    } else {
        let inner = separated(args, ","@);
        lemma_separated_shape(args, ","@);
        assert(tokens =~= seq![applied.name, "<"@] + inner + seq![">"@]);
        assert(tokens.subrange(2, tokens.len() - 1) =~= inner);
        lemma_scope_count(applied.scopes, applied.types);
        let n = applied.scopes.len() as int;
        assert(args.take(n) =~= applied.scopes);
        assert(args.skip(n) =~= applied.types);
        assert forall|i: int| n <= i < args.len() implies !reads_as_scope(#[trigger] args[i]) by {
            assert(args[i] == applied.types[i - n]);
        }
    }
}

/// Emitting the body of an association and reading it back gives the bound name
/// and the bound type.
pub proof fn lemma_body_round_trip(block: AssociationView)
    requires
        readable(block.bound),
    ensures
        parse_body(block.body()) == Some((block.binding, block.bound)),
{
    let tokens = block.body();
    let inner = block.bound.tokens();
    lemma_applied_round_trip(block.bound);
    assert(tokens =~= seq!["{"@, "type"@, block.binding, "="@] + inner + seq![";"@, "}"@]);
    assert(tokens.subrange(4, tokens.len() - 2) =~= inner);
}

/// The scopes at the front of a list are counted up to the first token that
/// does not read as a scope.
pub proof fn lemma_scope_count_stops(args: TokenSeq, count: int)
    requires
        0 <= count <= args.len(),
        forall|i: int| 0 <= i < count ==> reads_as_scope(#[trigger] args[i]),
        count == args.len() || !reads_as_scope(args[count]),
    ensures
        scope_count(args) == count,
    decreases count,
{
    if count > 0 {
        assert(reads_as_scope(args[0]));
        let rest = args.drop_first();
        assert forall|i: int| 0 <= i < count - 1 implies reads_as_scope(#[trigger] rest[i]) by {
            assert(rest[i] == args[i + 1]);
        }
        if count < args.len() {
            assert(rest[count - 1] == args[count]);
        }
        lemma_scope_count_stops(rest, count - 1);
    }
}

/// Whether a token reads as a scope.
pub fn scope_token(token: &str) -> (b: bool)
    ensures
        b == reads_as_scope(token@),
{
    token.unicode_len() > 0 && token.get_char(0) == '\''
}

fn same(token: &String, word: &str) -> (b: bool)
    ensures
        b == (token@ == word@),
{
    *token == word.to_owned()
}

/// Takes the items out of a comma-separated run of tokens: those from position
/// `from` up to position `to`.
fn read_separated(tokens: &Vec<String>, from: usize, to: usize) -> (r: Option<Vec<String>>)
    requires
        from <= to <= tokens.len(),
    ensures
        match r {
            Some(items) => well_separated(tokens.deep_view().subrange(from as int, to as int), ","@)
                && items.deep_view() == every_other(
                tokens.deep_view().subrange(from as int, to as int),
            ),
            None => !well_separated(tokens.deep_view().subrange(from as int, to as int), ","@),
        },
{
    let ghost inner = tokens.deep_view().subrange(from as int, to as int);
    let mut items: Vec<String> = Vec::new();
    let mut at: usize = from;
    while at < to
        invariant
            from <= at <= to <= tokens.len(),
            inner == tokens.deep_view().subrange(from as int, to as int),
            forall|i: int| 0 <= i < at - from && i % 2 == 1 ==> #[trigger] inner[i] == ","@,
            items.len() == (at - from + 1) / 2,
            forall|i: int| 0 <= i < items.len() ==> items@[i]@ == inner[2 * i],
        decreases to - at,
    {
        assert(inner[at - from] == tokens@[at as int]@);
        if (at - from) % 2 == 1 {
            if !same(&tokens[at], ",") {
                return None;
            }
        } else {
            items.push(tokens[at].clone());
        }
        at += 1;
    }
    if (to - from) % 2 == 1 {
        assert(items.deep_view() =~= every_other(inner));
        Some(items)
    } else {
        None
    }
}

/// Reads an applied type off its tokens.
pub fn read_applied(tokens: &Vec<String>) -> (r: Option<AppliedType>)
    ensures
        match r {
            Some(applied) => parse_applied(tokens.deep_view()) == Some(applied.deep_view()),
            None => parse_applied(tokens.deep_view()) is None,
        },
{
    let ghost all = tokens.deep_view();
    let n = tokens.len();
    if n == 1 {
        let applied = AppliedType {
            name: tokens[0].clone(),
            scopes: Vec::new(),
            types: Vec::new(),
        };
        assert(applied.scopes.deep_view() =~= Seq::<Seq<char>>::empty());
        assert(applied.types.deep_view() =~= Seq::<Seq<char>>::empty());
        assert(all[0] == tokens@[0]@);
        return Some(applied);
    }
    if n < 4 {
        return None;
    }
    assert(all[1] == tokens@[1]@);
    assert(all.last() == tokens@[n - 1]@);
    assert(all[0] == tokens@[0]@);
    if !same(&tokens[1], "<") || !same(&tokens[n - 1], ">") {
        return None;
    }
    let args = match read_separated(tokens, 2, n - 1) {
        Some(args) => args,
        None => {
            return None;
        },
    };
    let ghost listed = args.deep_view();
    let mut count: usize = 0;
    while count < args.len() && scope_token(args[count].as_str())
        invariant
            count <= args.len(),
            listed == args.deep_view(),
            forall|i: int| 0 <= i < count ==> reads_as_scope(#[trigger] listed[i]),
        decreases args.len() - count,
    {
        count += 1;
    }
    proof {
        if count < args.len() {
            assert(listed[count as int] == args@[count as int]@);
        }
        lemma_scope_count_stops(listed, count as int);
    }
    assert(parse_applied(all) == parse_args(all[0], listed));
    let mut scopes: Vec<String> = Vec::new();
    let mut types: Vec<String> = Vec::new();
    let mut i: usize = 0;
    while i < args.len()
        invariant
            i <= args.len(),
            count <= args.len(),
            listed == args.deep_view(),
            all == tokens.deep_view(),
            scope_count(listed) == count,
            parse_applied(all) == parse_args(all[0], listed),
            scopes.len() == (if i < count {
                i
            } else {
                count
            }),
            types.len() == (if i < count {
                0
            } else {
                i - count
            }),
            forall|j: int| 0 <= j < scopes.len() ==> scopes@[j]@ == listed[j],
            forall|j: int| 0 <= j < types.len() ==> types@[j]@ == listed[count + j],
            forall|j: int| count <= j < i ==> !reads_as_scope(#[trigger] listed[j]),
        decreases args.len() - i,
    {
        assert(listed[i as int] == args@[i as int]@);
        if i < count {
            scopes.push(args[i].clone());
        } else {
            if scope_token(args[i].as_str()) {
                return None;
            }
            types.push(args[i].clone());
        }
        i += 1;
    }
    let applied = AppliedType { name: tokens[0].clone(), scopes, types };
    assert(applied.scopes.deep_view() =~= listed.take(count as int));
    assert(applied.types.deep_view() =~= listed.skip(count as int));
    Some(applied)
}

/// Reads the body of an association off its tokens: the name it binds and the
/// applied type it binds the name to.
pub fn read_body(tokens: &Vec<String>) -> (r: Option<(String, AppliedType)>)
    ensures
        match r {
            Some((binding, bound)) => parse_body(tokens.deep_view()) == Some(
                (binding@, bound.deep_view()),
            ),
            None => parse_body(tokens.deep_view()) is None,
        },
{
    let ghost all = tokens.deep_view();
    let n = tokens.len();
    if n < 7 {
        return None;
    }
    assert(all[0] == tokens@[0]@);
    assert(all[1] == tokens@[1]@);
    assert(all[2] == tokens@[2]@);
    assert(all[3] == tokens@[3]@);
    assert(all[n - 2] == tokens@[n - 2]@);
    assert(all.last() == tokens@[n - 1]@);
    if !same(&tokens[0], "{") || !same(&tokens[1], "type") || !same(&tokens[3], "=") || !same(
        &tokens[n - 2],
        ";",
    ) || !same(&tokens[n - 1], "}") {
        return None;
    }
    let mut inner: Vec<String> = Vec::new();
    let mut at: usize = 4;
    while at < n - 2
        invariant
            4 <= at <= n - 2,
            n == tokens.len(),
            inner.len() == at - 4,
            forall|j: int| 0 <= j < inner.len() ==> inner@[j]@ == tokens@[4 + j]@,
        decreases n - at,
    {
        inner.push(tokens[at].clone());
        at += 1;
    }
    assert(inner.deep_view() =~= all.subrange(4, n - 2));
    match read_applied(&inner) {
        Some(bound) => Some((tokens[2].clone(), bound)),
        None => None,
    }
}

} // verus!
