use vstd::prelude::*;
use vstd::string::StrSliceExecFns;

verus! {

pub open spec fn is_ascii_letter(c: char) -> bool {
    ('a' <= c && c <= 'z') || ('A' <= c && c <= 'Z')
}

pub open spec fn is_ascii_digit(c: char) -> bool {
    '0' <= c && c <= '9'
}

pub open spec fn is_ident_char(c: char) -> bool {
    is_ascii_letter(c) || is_ascii_digit(c) || c == '_'
}

/// A name that may stand in an identifier position of a statement: non-empty,
/// made of ASCII letters, digits and underscores, not starting with a digit.
pub open spec fn valid_identifier(s: Seq<char>) -> bool {
    &&& s.len() > 0
    &&& !is_ascii_digit(s[0])
    &&& forall|i: int| 0 <= i < s.len() ==> is_ident_char(#[trigger] s[i])
}

/// All names of `names` are valid identifiers.
pub open spec fn all_valid_identifiers(names: Seq<Seq<char>>) -> bool {
    forall|i: int| 0 <= i < names.len() ==> valid_identifier(#[trigger] names[i])
}

/// Checks a table or column name against the identifier allow-list.
pub fn is_valid_identifier(s: &str) -> (r: bool)
    ensures
        r == valid_identifier(s@),
{
    let n = s.unicode_len();
    if n == 0 {
        return false;
    }
    let first = s.get_char(0);
    if '0' <= first && first <= '9' {
        return false;
    }
    let mut i: usize = 0;
    while i < n
        invariant
            n == s@.len(),
            0 <= i <= n,
            forall|j: int| 0 <= j < i ==> is_ident_char(#[trigger] s@[j]),
        decreases n - i,
    {
        let c = s.get_char(i);
        let ok = ('a' <= c && c <= 'z') || ('A' <= c && c <= 'Z') || ('0' <= c && c <= '9')
            || c == '_';
        if !ok {
            return false;
        }
        i = i + 1;
    }
    true
}

/// Checks every name of `names` against the identifier allow-list.
pub fn all_identifiers_valid(names: &Vec<String>) -> (r: bool)
    ensures
        r == all_valid_identifiers(names@.map_values(|s: String| s@)),
{
    let ghost model = names@.map_values(|s: String| s@);
    let mut i: usize = 0;
    while i < names.len()
        invariant
            0 <= i <= names@.len(),
            model == names@.map_values(|s: String| s@),
            forall|j: int| 0 <= j < i ==> valid_identifier(#[trigger] model[j]),
        decreases names@.len() - i,
    {
        if !is_valid_identifier(names[i].as_str()) {
            assert(!valid_identifier(model[i as int]));
            return false;
        }
        i = i + 1;
    }
    true
}

} // verus!
