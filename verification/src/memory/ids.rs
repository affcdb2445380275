//! Identifiers that can stand in file names.

use crate::memory::error::{MemoryError, MemoryErrorView};
use crate::text::chars_of;
use vstd::prelude::*;

verus! {

/// An ASCII letter or digit.
pub open spec fn is_alphanumeric(c: char) -> bool {
    ('a' <= c && c <= 'z') || ('A' <= c && c <= 'Z') || ('0' <= c && c <= '9')
}

/// A character that an identifier may have.
pub open spec fn is_id_char(c: char) -> bool {
    is_alphanumeric(c) || c == '-' || c == '_'
}

/// All characters of `s` may stand in an identifier.
pub open spec fn all_id_chars(s: Seq<char>) -> bool {
    forall|i: int| 0 <= i < s.len() ==> is_id_char(#[trigger] s[i])
}

/// An identifier: not empty, of ASCII letters, digits, `-` and `_`.
pub open spec fn is_id(s: Seq<char>) -> bool {
    s.len() > 0 && all_id_chars(s)
}

/// What is said of a text that is no identifier.
pub open spec fn bad_id(field: Seq<char>, value: Seq<char>) -> MemoryErrorView {
    MemoryErrorView::Conflict(field + " 只能包含字母、数字、-、_: "@ + value)
}

fn id_char(c: char) -> (r: bool)
    ensures
        r == is_id_char(c),
{
    (c >= 'a' && c <= 'z') || (c >= 'A' && c <= 'Z') || (c >= '0' && c <= '9') || c == '-' || c
        == '_'
}

/// Whether all characters of `s` may stand in an identifier.
pub fn only_id_chars(s: &str) -> (r: bool)
    ensures
        r == all_id_chars(s@),
{
    let cs = chars_of(s);
    let mut i: usize = 0;
    while i < cs.len()
        invariant
            i <= cs@.len(),
            cs@ == s@,
            forall|k: int| 0 <= k < i ==> is_id_char(#[trigger] cs@[k]),
        decreases cs@.len() - i,
    {
        if !id_char(cs[i]) {
            assert(!is_id_char(s@[i as int]));
            return false;
        }
        i = i + 1;
    }
    true
}

/// Checks that `value` is an identifier.
pub fn validate_id(field: &str, value: &str) -> (r: Result<(), MemoryError>)
    ensures
        match r {
            Ok(_) => is_id(value@),
            Err(e) => !is_id(value@) && e.deep_view() == bad_id(field@, value@),
        },
{
    if !value.is_empty() && only_id_chars(value) {
        Ok(())
    } else {
        let mut text = field.to_owned();
        text.append(" 只能包含字母、数字、-、_: ");
        text.append(value);
        Err(MemoryError::Conflict(text))
    }
}

} // verus!
