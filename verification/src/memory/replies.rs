//! The JSON in the replies of a model.

use crate::json::{json_of_text, Json};
use crate::text::{chars_of, find_chars, find_from, text_of, trim, trimmed};
use vstd::prelude::*;

verus! {

/// What stands between `opener` and the next fence, without the white space
/// around it.
pub open spec fn fenced(t: Seq<char>, opener: Seq<char>) -> Option<Seq<char>> {
    match find_from(t, opener, 0) {
        Some(s) => match find_from(t, "```"@, s + opener.len()) {
            Some(e) => Some(trimmed(t.subrange(s + opener.len(), e))),
            None => None,
        },
        None => None,
    }
}

/// What a reply has in a fence of JSON or, where there is none, in any fence.
pub open spec fn fenced_json(t: Seq<char>) -> Option<Seq<char>> {
    match fenced(t, "```json"@) {
        Some(x) => Some(x),
        None => fenced(t, "```"@),
    }
}

/// How far into a text a walk over brackets has come, and what it knows.
pub struct Walk {
    /// How many brackets are open.
    pub depth: int,
    /// Whether the walk is inside a string.
    pub in_string: bool,
    /// Whether the character before was a backslash that counts.
    pub escape: bool,
}

/// What a walk knows after one character more. Brackets inside strings do not
/// count.
pub open spec fn walked(w: Walk, c: char, open: char, close: char) -> Walk {
    if w.escape {
        Walk { escape: false, ..w }
    } else if c == '\\' {
        Walk { escape: true, ..w }
    } else if c == '"' {
        Walk { in_string: !w.in_string, ..w }
    } else if w.in_string {
        w
    } else if c == open {
        Walk { depth: w.depth + 1, ..w }
    } else if c == close {
        Walk { depth: w.depth - 1, ..w }
    } else {
        w
    }
}

/// One character closes the last open bracket.
pub open spec fn closes(w: Walk, c: char, open: char, close: char) -> bool {
    !w.escape && c != '\\' && c != '"' && !w.in_string && c != open && c == close && w.depth == 1
}

/// The position after the bracket that closes the last open one, or the end of
/// the text.
pub open spec fn walk_end(t: Seq<char>, i: int, w: Walk, open: char, close: char) -> int
    decreases t.len() - i,
{
    if i < 0 || i >= t.len() {
        t.len() as int
    } else if closes(w, t[i], open, close) {
        i + 1
    } else {
        walk_end(t, i + 1, walked(w, t[i], open, close), open, close)
    }
}

/// The bracket that closes what `open` opens.
pub open spec fn closer(open: char) -> char {
    if open == '{' {
        '}'
    } else {
        ']'
    }
}

/// The position after the bracket that closes the one at `start`, or the end
/// of the text where it is not closed.
pub open spec fn matching_end(t: Seq<char>, start: int) -> int {
    walk_end(
        t,
        start,
        Walk { depth: 0, in_string: false, escape: false },
        t[start],
        closer(t[start]),
    )
}

/// What stands in a text from the first `open` to the bracket that closes it.
pub open spec fn bracketed(t: Seq<char>, open: Seq<char>) -> Option<Seq<char>> {
    match find_from(t, open, 0) {
        Some(s) => Some(t.subrange(s, matching_end(t, s))),
        None => None,
    }
}

/// The JSON in a text, given whether what its first `{` opens and what its
/// first `[` opens read as JSON: the first of the two that does. Where neither
/// does, it is what the `{` opens, or else what the `[` opens, or else the
/// whole text.
pub open spec fn json_among(t: Seq<char>, object_reads: bool, list_reads: bool) -> Seq<char> {
    match (bracketed(t, "{"@), bracketed(t, "["@)) {
        (Some(object), Some(list)) => {
            let list_first = find_from(t, "["@, 0)->0 < find_from(t, "{"@, 0)->0;
            if list_reads && (list_first || !object_reads) {
                list
            } else {
                object
            }
        },
        (Some(object), None) => object,
        (None, Some(list)) => list,
        (None, None) => t,
    }
}

/// There is such a part, and it reads as JSON.
pub open spec fn part_reads(part: Option<Seq<char>>) -> bool {
    part is Some && json_of_text(part->0) is Ok
}

/// The JSON in the reply of a model: in a fence, or else between brackets, where
/// those that do not read as JSON give way to others that do.
pub open spec fn json_in(reply: Seq<char>) -> Seq<char> {
    let t = trimmed(reply);
    match fenced_json(t) {
        Some(x) => x,
        None => json_among(
            t,
            part_reads(bracketed(t, "{"@)),
            part_reads(bracketed(t, "["@)),
        ),
    }
}

fn find_fenced(cs: &Vec<char>, opener: &str) -> (r: Option<String>)
    ensures
        r.deep_view() == fenced(cs@, opener@),
{
    let total: usize = cs.len();
    let o = chars_of(opener);
    let fence = chars_of("```");
    match find_chars(cs, &o, 0) {
        Some(s) => {
            let from: usize = s + o.len();
            match find_chars(cs, &fence, from) {
                Some(e) => {
                    let inner = text_of(cs, from, e);
                    Some(trim(inner.as_str()))
                },
                None => None,
            }
        },
        None => None,
    }
}

fn find_fenced_json(cs: &Vec<char>) -> (r: Option<String>)
    ensures
        r.deep_view() == fenced_json(cs@),
{
    match find_fenced(cs, "```json") {
        Some(x) => Some(x),
        None => find_fenced(cs, "```"),
    }
}

/// What a text has in a fence of JSON or, where there is none, in any fence.
pub fn find_fence(t: &str) -> (r: Option<String>)
    ensures
        r.deep_view() == fenced_json(t@),
{
    find_fenced_json(&chars_of(t))
}

/// The position after the bracket that closes the one at `start`.
pub fn find_matching_brace(cs: &Vec<char>, start: usize) -> (r: usize)
    requires
        start < cs@.len(),
        cs@[start as int] == '{' || cs@[start as int] == '[',
    ensures
        r == matching_end(cs@, start as int),
        start <= r <= cs@.len(),
{
    let open = cs[start];
    let close = if open == '{' {
        '}'
    } else {
        ']'
    };
    let mut depth: usize = 0;
    let mut in_string = false;
    let mut escape = false;
    let mut i: usize = start;
    while i < cs.len()
        invariant
            start <= i <= cs@.len(),
            start < cs@.len(),
            open == cs@[start as int],
            open == '{' || open == '[',
            close == closer(open),
            depth <= i - start,
            i > start ==> depth >= 1,
            i == start ==> depth == 0 && !in_string && !escape,
            matching_end(cs@, start as int) == walk_end(
                cs@,
                i as int,
                Walk { depth: depth as int, in_string, escape },
                open,
                close,
            ),
        decreases cs@.len() - i,
    {
        let c = cs[i];
        if escape {
            escape = false;
        } else if c == '\\' {
            escape = true;
        } else if c == '"' {
            in_string = !in_string;
        } else if in_string {
        } else if c == open {
            depth = depth + 1;
        } else if c == close {
            if depth == 1 {
                return i + 1;
            }
            depth = depth - 1;
        }
        i = i + 1;
    }
    cs.len()
}

fn find_bracketed(cs: &Vec<char>, open: &str) -> (r: Option<String>)
    requires
        open@ == "{"@ || open@ == "["@,
    ensures
        r.deep_view() == bracketed(cs@, open@),
{
    proof {
        reveal_strlit("{");
        reveal_strlit("[");
    }
    match find_chars(cs, &chars_of(open), 0) {
        Some(s) => {
            assert(cs@.subrange(s as int, s + 1)[0] == cs@[s as int]);
            let e: usize = find_matching_brace(cs, s);
            Some(text_of(cs, s, e))
        },
        None => None,
    }
}

/// The JSON in a text, given whether what its first `{` opens and what its
/// first `[` opens read as JSON.
pub fn choose_json(text: &str, object_reads: bool, list_reads: bool) -> (r: String)
    ensures
        r@ == json_among(text@, object_reads, list_reads),
{
    let cs = chars_of(text);
    match (find_bracketed(&cs, "{"), find_bracketed(&cs, "[")) {
        (Some(object), Some(list)) => {
            let at_object = find_chars(&cs, &chars_of("{"), 0);
            let at_list = find_chars(&cs, &chars_of("["), 0);
            let list_first = match (at_list, at_object) {
                (Some(a), Some(b)) => a < b,
                _ => false,
            };
            if list_reads && (list_first || !object_reads) {
                list
            } else {
                object
            }
        },
        (Some(object), None) => object,
        (None, Some(list)) => list,
        (None, None) => text.to_owned(),
    }
}

fn reads(part: &Option<String>) -> (r: bool)
    ensures
        r == part_reads(part.deep_view()),
{
    match part {
        Some(text) => Json::parse(text.as_str()).is_ok(),
        None => false,
    }
}

/// The JSON in the reply of a model.
pub fn extract_json(text: &str) -> (r: String)
    ensures
        r@ == json_in(text@),
{
    let t = trim(text);
    let cs = chars_of(t.as_str());
    if let Some(x) = find_fenced_json(&cs) {
        return x;
    }
    let object = find_bracketed(&cs, "{");
    let list = find_bracketed(&cs, "[");
    choose_json(t.as_str(), reads(&object), reads(&list))
}

} // verus!
