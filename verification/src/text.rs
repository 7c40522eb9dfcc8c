//! Character-level text helpers shared by the validation paths.

use vstd::prelude::*;
use vstd::string::StrSliceExecFns;

verus! {

/// Whether the character has the Unicode `White_Space` property, as
/// `char::is_whitespace` decides it; named rather than written out.
pub uninterp spec fn is_whitespace_char(c: char) -> bool;

/// Relies on char::is_whitespace: the Unicode `White_Space` property,
/// a function of the character alone.
#[verifier::external_body]
fn char_is_whitespace(c: char) -> (r: bool)
    ensures
        r == is_whitespace_char(c),
{
    c.is_whitespace()
}

/// A string is blank when every one of its characters is whitespace;
/// in particular the empty string is blank. A string is empty after
/// trimming exactly when it is blank.
pub open spec fn is_blank(s: Seq<char>) -> bool {
    forall|i: int| 0 <= i < s.len() ==> is_whitespace_char(s[i])
}

/// Whether the string is empty once whitespace is trimmed from both ends.
pub fn trimmed_empty(s: &str) -> (r: bool)
    ensures
        r == is_blank(s@),
{
    let n = s.unicode_len();
    let mut i: usize = 0;
    while i < n
        invariant
            n == s@.len(),
            0 <= i <= n,
            forall|j: int| 0 <= j < i ==> is_whitespace_char(s@[j]),
        decreases n - i,
    {
        if !char_is_whitespace(s.get_char(i)) {
            return false;
        }
        i += 1;
    }
    true
}

/// Whether two string slices read the same characters.
pub fn str_eq(a: &str, b: &str) -> (r: bool)
    ensures
        r == (a@ == b@),
{
    let na = a.unicode_len();
    let nb = b.unicode_len();
    if na != nb {
        return false;
    }
    let mut i: usize = 0;
    while i < na
        invariant
            na == a@.len(),
            na == b@.len(),
            0 <= i <= na,
            forall|j: int| 0 <= j < i ==> a@[j] == b@[j],
        decreases na - i,
    {
        if a.get_char(i) != b.get_char(i) {
            return false;
        }
        i += 1;
    }
    proof {
        assert(a@ =~= b@);
    }
    true
}

/// Whether some element of the list reads as the given text.
pub open spec fn contains_string(l: Seq<String>, x: Seq<char>) -> bool {
    exists|i: int| 0 <= i < l.len() && l[i]@ == x
}

/// The list with `x` appended, unless an equal entry is already present.
pub open spec fn add_unique(l: Seq<String>, x: String) -> Seq<String> {
    if contains_string(l, x@) {
        l
    } else {
        l.push(x)
    }
}

/// The position of the first entry that reads as `x`, if any.
pub fn str_vec_index_of(v: &Vec<String>, x: &str) -> (r: Option<usize>)
    ensures
        r is Some <==> contains_string(v@, x@),
        r matches Some(i) ==> 0 <= i < v@.len() && v@[i as int]@ == x@ && (forall|j: int|
            0 <= j < i ==> v@[j]@ != x@),
{
    let mut i: usize = 0;
    while i < v.len()
        invariant
            0 <= i <= v@.len(),
            forall|j: int| 0 <= j < i ==> v@[j]@ != x@,
        decreases v@.len() - i,
    {
        if str_eq(v[i].as_str(), x) {
            return Some(i);
        }
        i += 1;
    }
    None
}

/// Whether some element of the slice reads as `x`.
pub fn str_slice_contains(v: &[String], x: &str) -> (r: bool)
    ensures
        r == contains_string(v@, x@),
{
    let mut i: usize = 0;
    while i < v.len()
        invariant
            0 <= i <= v@.len(),
            forall|j: int| 0 <= j < i ==> v@[j]@ != x@,
        decreases v@.len() - i,
    {
        if str_eq(v[i].as_str(), x) {
            return true;
        }
        i += 1;
    }
    false
}

/// Whether the vector holds an entry that reads as `x`.
pub fn str_vec_contains(v: &Vec<String>, x: &str) -> (r: bool)
    ensures
        r == contains_string(v@, x@),
{
    str_vec_index_of(v, x).is_some()
}

/// Relies on String::push: appends the one character at the end.
#[verifier::external_body]
pub(crate) fn push_char(s: &mut String, c: char)
    ensures
        final(s)@ == old(s)@.push(c),
{
    s.push(c);
}

} // verus!
