//! The names that generated patterns bind fields to.

use vstd::prelude::*;

verus! {

/// What every binding's name starts with.
pub const BINDING_PREFIX: &'static str = "__binding_";

/// One decimal digit as text.
pub open spec fn digit(d: nat) -> Seq<char> {
    if d == 0 {
        "0"@
    } else if d == 1 {
        "1"@
    } else if d == 2 {
        "2"@
    } else if d == 3 {
        "3"@
    } else if d == 4 {
        "4"@
    } else if d == 5 {
        "5"@
    } else if d == 6 {
        "6"@
    } else if d == 7 {
        "7"@
    } else if d == 8 {
        "8"@
    } else {
        "9"@
    }
}

/// A number in decimal, without leading zeros.
pub open spec fn decimal(n: nat) -> Seq<char>
    decreases n,
{
    if n < 10 {
        digit(n)
    } else {
        decimal(n / 10) + digit(n % 10)
    }
}

/// The name bound to the field at position `index` of a variant.
pub open spec fn binding_name(index: nat) -> Seq<char> {
    BINDING_PREFIX@ + decimal(index)
}

/// Every digit is one character, and different digits are different characters.
pub proof fn lemma_digits(a: nat, b: nat)
    requires
        a < 10,
        b < 10,
    ensures
        digit(a).len() == 1,
        digit(a) == digit(b) ==> a == b,
{
    reveal_strlit("0");
    reveal_strlit("1");
    reveal_strlit("2");
    reveal_strlit("3");
    reveal_strlit("4");
    reveal_strlit("5");
    reveal_strlit("6");
    reveal_strlit("7");
    reveal_strlit("8");
    reveal_strlit("9");
    if digit(a) == digit(b) {
        assert(digit(a)[0] == digit(b)[0]);
    }
}

/// A number's decimal form is never empty.
pub proof fn lemma_decimal_len(n: nat)
    ensures
        decimal(n).len() >= 1,
        n >= 10 ==> decimal(n).len() >= 2,
    decreases n,
{
    lemma_digits(n % 10, 0);
    if n >= 10 {
        lemma_decimal_len(n / 10);
    }
}

/// Different numbers have different decimal forms.
pub proof fn lemma_decimal_injective(a: nat, b: nat)
    requires
        decimal(a) == decimal(b),
    ensures
        a == b,
    decreases a,
{
    lemma_decimal_len(a);
    lemma_decimal_len(b);
    lemma_digits(a % 10, b % 10);
    lemma_digits(b % 10, a % 10);
    if a < 10 && b < 10 {
    } else if a >= 10 && b >= 10 {
        let da = decimal(a / 10);
        let db = decimal(b / 10);
        assert((da + digit(a % 10)).drop_last() =~= da);
        assert((db + digit(b % 10)).drop_last() =~= db);
        assert((da + digit(a % 10)).last() == digit(a % 10)[0]);
        assert((db + digit(b % 10)).last() == digit(b % 10)[0]);
        assert(digit(a % 10) =~= digit(b % 10));
        lemma_decimal_injective(a / 10, b / 10);
    }
}

/// Fields at different positions are bound to different names.
pub proof fn lemma_binding_names_differ(i: nat, j: nat)
    requires
        binding_name(i) == binding_name(j),
    ensures
        i == j,
{
    let prefix = BINDING_PREFIX@;
    assert(binding_name(i).subrange(prefix.len() as int, binding_name(i).len() as int)
        =~= decimal(i));
    assert(binding_name(j).subrange(prefix.len() as int, binding_name(j).len() as int)
        =~= decimal(j));
    lemma_decimal_injective(i, j);
}

} // verus!
