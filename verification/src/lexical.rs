//! What counts as an identifier, a scope label, and a piece of declared text.

use vstd::prelude::*;

verus! {

/// A character that may occur in an identifier: an ASCII letter or digit, an
/// underscore, or any character outside ASCII.
pub open spec fn is_ident_char(c: char) -> bool {
    ||| c == '_'
    ||| 'a' <= c <= 'z'
    ||| 'A' <= c <= 'Z'
    ||| '0' <= c <= '9'
    ||| c as u32 >= 128
}

/// An identifier is non-empty, made of identifier characters, and does not
/// start with a digit.
pub open spec fn is_identifier(s: Seq<char>) -> bool {
    &&& s.len() > 0
    &&& !('0' <= s[0] <= '9')
    &&& forall|i: int| 0 <= i < s.len() ==> is_ident_char(#[trigger] s[i])
}

/// A scope label is an apostrophe followed by an identifier.
pub open spec fn is_scope_label(s: Seq<char>) -> bool {
    &&& s.len() > 1
    &&& s[0] == '\''
    &&& is_identifier(s.subrange(1, s.len() as int))
}

/// Declared text (a bound, a constraint, a field's type) is carried through as
/// it is; it only has to be there.
pub open spec fn is_text(s: Seq<char>) -> bool {
    s.len() > 0
}

/// Whether a character may occur in an identifier.
pub fn ident_char(c: char) -> (b: bool)
    ensures
        b == is_ident_char(c),
{
    c == '_' || ('a' <= c && c <= 'z') || ('A' <= c && c <= 'Z') || ('0' <= c && c <= '9')
        || c as u32 >= 128
}

/// Whether the characters of `s` from position `from` on form an identifier.
fn identifier_from(s: &str, from: usize) -> (b: bool)
    requires
        from <= s@.len(),
    ensures
        b == is_identifier(s@.subrange(from as int, s@.len() as int)),
{
    let n = s.unicode_len();
    if from >= n {
        return false;
    }
    let ghost tail = s@.subrange(from as int, n as int);
    let first = s.get_char(from);
    assert(tail[0] == first);
    if '0' <= first && first <= '9' {
        return false;
    }
    let mut i: usize = from;
    while i < n
        invariant
            from <= i <= n,
            n == s@.len(),
            tail == s@.subrange(from as int, n as int),
            forall|j: int| 0 <= j < i - from ==> is_ident_char(#[trigger] tail[j]),
        decreases n - i,
    {
        let c = s.get_char(i);
        assert(tail[i - from] == c);
        if !ident_char(c) {
            return false;
        }
        i += 1;
    }
    true
}

/// Whether a string is an identifier.
pub fn check_identifier(s: &str) -> (b: bool)
    ensures
        b == is_identifier(s@),
{
    assert(s@.subrange(0, s@.len() as int) =~= s@);
    identifier_from(s, 0)
}

/// Whether a string is a scope label.
pub fn check_scope_label(s: &str) -> (b: bool)
    ensures
        b == is_scope_label(s@),
{
    let n = s.unicode_len();
    if n < 2 {
        return false;
    }
    if s.get_char(0) != '\'' {
        return false;
    }
    identifier_from(s, 1)
}

/// Whether a string holds any text.
pub fn check_text(s: &str) -> (b: bool)
    ensures
        b == is_text(s@),
{
    s.unicode_len() > 0
}

} // verus!
