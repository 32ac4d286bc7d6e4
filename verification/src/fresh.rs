//! Names that a type has not taken.

use crate::descriptor::{contains_name, DescriptorView, TypeDescriptor};
use crate::lexical::{is_ident_char, is_identifier, is_scope_label};
use crate::model::{concat_strings, one};
use vstd::prelude::*;
use vstd::string::StringExecFns;

verus! {

/// The length of the longest of a list of names.
pub open spec fn longest(names: Seq<Seq<char>>) -> nat
    decreases names.len(),
{
    if names.len() == 0 {
        0
    } else if names.last().len() > longest(names.drop_last()) {
        names.last().len()
    } else {
        longest(names.drop_last())
    }
}

/// A run of `n` underscores.
pub open spec fn underscores(n: nat) -> Seq<char> {
    Seq::new(n, |i: int| '_')
}

/// A name built on `stem` that is not among `taken`: the stem itself where it
/// is free, else the stem followed by enough underscores to be longer than
/// every name taken.
pub open spec fn fresh_name(taken: Seq<Seq<char>>, stem: Seq<char>) -> Seq<char> {
    if taken.contains(stem) {
        stem + underscores(longest(taken) + 1)
    } else {
        stem
    }
}

impl DescriptorView {
    /// Every identifier that the type has taken: its name, its scope
    /// parameters, its type parameters.
    pub open spec fn declared(self) -> Seq<Seq<char>> {
        seq![self.name] + self.scope_params + self.type_names()
    }
}

/// No name of a list is longer than the longest.
pub proof fn lemma_longest_bounds(names: Seq<Seq<char>>, i: int)
    requires
        0 <= i < names.len(),
    ensures
        names[i].len() <= longest(names),
    decreases names.len(),
{
    if i < names.len() - 1 {
        lemma_longest_bounds(names.drop_last(), i);
    }
}

/// A fresh name is not taken.
pub proof fn lemma_fresh_name_is_free(taken: Seq<Seq<char>>, stem: Seq<char>)
    ensures
        !taken.contains(fresh_name(taken, stem)),
{
    let fresh = fresh_name(taken, stem);
    if taken.contains(stem) {
        assert forall|i: int| 0 <= i < taken.len() implies taken[i] != fresh by {
            lemma_longest_bounds(taken, i);
        }
    }
}

/// A fresh name on an identifier is an identifier, and one on a scope label is
/// a scope label.
pub proof fn lemma_fresh_name_keeps_its_kind(taken: Seq<Seq<char>>, stem: Seq<char>)
    ensures
        is_identifier(stem) ==> is_identifier(fresh_name(taken, stem)),
        is_scope_label(stem) ==> is_scope_label(fresh_name(taken, stem)),
{
    let fresh = fresh_name(taken, stem);
    if taken.contains(stem) {
        let tail = underscores(longest(taken) + 1);
        if is_identifier(stem) {
            assert forall|i: int| 0 <= i < fresh.len() implies is_ident_char(
                #[trigger] fresh[i],
            ) by {
                if i < stem.len() {
                    assert(fresh[i] == stem[i]);
                } else {
                    assert(fresh[i] == tail[i - stem.len()]);
                }
            }
            assert(fresh[0] == stem[0]);
        }
        if is_scope_label(stem) {
            let inner = stem.subrange(1, stem.len() as int);
            let fresh_inner = fresh.subrange(1, fresh.len() as int);
            assert(fresh_inner =~= inner + tail);
            assert forall|i: int| 0 <= i < fresh_inner.len() implies is_ident_char(
                #[trigger] fresh_inner[i],
            ) by {
                if i < inner.len() {
                    assert(fresh_inner[i] == inner[i]);
                } else {
                    assert(fresh_inner[i] == tail[i - inner.len()]);
                }
            }
            assert(fresh_inner[0] == inner[0]);
            assert(fresh[0] == stem[0]);
        }
    }
}

/// The type declares exactly what [`DescriptorView::declared`] lists.
pub proof fn lemma_declared_lists_what_is_declared(d: DescriptorView, ident: Seq<char>)
    ensures
        d.declares(ident) <==> d.declared().contains(ident),
{
    let all = d.declared();
    let scopes = d.scope_params;
    let types = d.type_names();
    if d.declares(ident) {
        if d.name == ident {
            assert(all[0] == ident);
        } else if scopes.contains(ident) {
            let i = choose|i: int| 0 <= i < scopes.len() && scopes[i] == ident;
            assert(all[1 + i] == ident);
        } else {
            let i = choose|i: int| 0 <= i < types.len() && types[i] == ident;
            assert(all[1 + scopes.len() + i] == ident);
        }
    }
    if all.contains(ident) {
        let i = choose|i: int| 0 <= i < all.len() && all[i] == ident;
        if i == 0 {
        } else if i < 1 + scopes.len() {
            assert(scopes[i - 1] == ident);
        } else {
            assert(types[i - 1 - scopes.len()] == ident);
        }
    }
}

/// The length of the longest of a list of names.
fn longest_of(names: &Vec<String>) -> (n: usize)
    ensures
        n == longest(names.deep_view()),
{
    let ghost all = names.deep_view();
    let mut n: usize = 0;
    let mut i: usize = 0;
    assert(all.take(0) =~= Seq::<Seq<char>>::empty());
    while i < names.len()
        invariant
            i <= names.len(),
            all == names.deep_view(),
            n == longest(all.take(i as int)),
        decreases names.len() - i,
    {
        let len = names[i].as_str().unicode_len();
        assert(all.take(i + 1).drop_last() =~= all.take(i as int));
        assert(all.take(i + 1).last() == names@[i as int]@);
        if len > n {
            n = len;
        }
        i += 1;
    }
    assert(all.take(names.len() as int) =~= all);
    n
}

/// Builds a name on `stem` that is not among `taken`.
pub fn fresh_identifier(taken: &Vec<String>, stem: &str) -> (name: String)
    ensures
        name@ == fresh_name(taken.deep_view(), stem@),
        !taken.deep_view().contains(name@),
{
    proof {
        lemma_fresh_name_is_free(taken.deep_view(), stem@);
    }
    let mut name = stem.to_owned();
    if contains_name(taken, stem) {
        let mut left = longest_of(taken);
        let ghost total = left as nat + 1;
        assert(name@ =~= stem@ + underscores(0));
        loop
            invariant_except_break
                left < total,
                name@ == stem@ + underscores((total - left - 1) as nat),
            ensures
                name@ == stem@ + underscores(total),
            decreases left,
        {
            name = name.concat("_");
            proof {
                reveal_strlit("_");
            }
            assert(name@ =~= stem@ + underscores((total - left) as nat));
            if left == 0 {
                break ;
            }
            left -= 1;
        }
    }
    name
}

impl TypeDescriptor {
    /// Every identifier that the type has taken.
    pub fn declared(&self) -> (names: Vec<String>)
        ensures
            names.deep_view() == self@.declared(),
    {
        let own = one(self.name.as_str());
        let scoped = concat_strings(&own, &self.scope_params);
        let types = self.type_names();
        concat_strings(&scoped, &types)
    }
}

} // verus!
