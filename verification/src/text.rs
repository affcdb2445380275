//! Text as sequences of characters: searching, splitting, trimming, joining
//! and printing numbers.

use vstd::prelude::*;

verus! {

// ---------------------------------------------------------------------------
// What the standard library does
// ---------------------------------------------------------------------------

/// The characters that have the Unicode property `White_Space`.
pub open spec fn is_white_space(c: char) -> bool {
    let u = c as u32;
    ||| 0x09 <= u <= 0x0d
    ||| u == 0x20
    ||| u == 0x85
    ||| u == 0xa0
    ||| u == 0x1680
    ||| 0x2000 <= u <= 0x200a
    ||| u == 0x2028
    ||| u == 0x2029
    ||| u == 0x202f
    ||| u == 0x205f
    ||| u == 0x3000
}

/// `char::is_whitespace`: a character counts exactly if it has the Unicode
/// property `White_Space`.
pub assume_specification[ char::is_whitespace ](c: char) -> (r: bool)
    ensures
        r == is_white_space(c),
;

/// `String::push` appends one character.
pub assume_specification[ String::push ](s: &mut String, c: char)
    ensures
        final(s)@ == old(s)@.push(c),
;

/// What `str::to_lowercase` makes of a text.
pub uninterp spec fn lowercase_of(s: Seq<char>) -> Seq<char>;

/// `str::to_lowercase` maps a text by the Unicode lower-case mapping, which
/// depends on the text alone. A text of ASCII characters alone gets small
/// letters in place of its capital ones, and made lower case once more that
/// stays as it is. The rest of the table is left unsaid.
pub assume_specification[ str::to_lowercase ](s: &str) -> (r: String)
    ensures
        r@ == lowercase_of(s@),
        all_ascii(s@) ==> r@ == ascii_lower(s@) && lowercase_of(r@) == r@,
;

/// How the `Debug` of `str` writes a text.
pub uninterp spec fn quoted_of(s: Seq<char>) -> Seq<char>;

/// The `Debug` of `str`: the text in double quotes, with what does not print
/// escaped. What it writes depends on the text alone; its escapes are left
/// unsaid.
#[verifier::external_body]
pub(crate) fn quoted(s: &str) -> (r: String)
    ensures
        r@ == quoted_of(s@),
{
    format!("{s:?}")
}

/// The text that `String::from_utf8_lossy` makes of bytes.
pub uninterp spec fn lossy_text_of(bytes: Seq<u8>) -> Seq<char>;

/// `String::from_utf8_lossy`: the text that the bytes encode, where they are
/// valid UTF-8. Else the text depends on the bytes alone, and what stands for
/// the bytes that encode nothing is left unsaid.
#[verifier::external_body]
pub(crate) fn lossy_text(bytes: &[u8]) -> (r: String)
    ensures
        r@ == lossy_text_of(bytes@),
        vstd::utf8::valid_utf8(bytes@) ==> r@ == vstd::utf8::decode_utf8(bytes@),
{
    String::from_utf8_lossy(bytes).into_owned()
}

/// `String::from_utf8`: the text that the bytes encode, where they are valid
/// UTF-8, and nothing else.
#[verifier::external_body]
pub(crate) fn text_of_utf8(bytes: Vec<u8>) -> (r: Option<String>)
    ensures
        r.deep_view() == if vstd::utf8::valid_utf8(bytes@) {
            Some(vstd::utf8::decode_utf8(bytes@))
        } else {
            None
        },
{
    String::from_utf8(bytes).ok()
}

// ---------------------------------------------------------------------------
// Characters of a text
// ---------------------------------------------------------------------------

/// The characters of `s`.
pub fn chars_of(s: &str) -> (r: Vec<char>)
    ensures
        r@ == s@,
{
    let mut r: Vec<char> = Vec::new();
    for c in iter: s.chars()
        invariant
            iter.seq() == s@,
            r@ == s@.take(iter.index() as int),
    {
        r.push(c);
    }
    r
}

/// The text made of the characters `from..to` of `cs`.
pub fn text_of(cs: &Vec<char>, from: usize, to: usize) -> (r: String)
    requires
        from <= to <= cs@.len(),
    ensures
        r@ == cs@.subrange(from as int, to as int),
{
    let mut r = String::new();
    let mut i: usize = from;
    while i < to
        invariant
            from <= i <= to <= cs@.len(),
            r@ == cs@.subrange(from as int, i as int),
        decreases to - i,
    {
        r.push(cs[i]);
        i = i + 1;
    }
    r
}

/// The number of characters of `s`.
pub fn char_count(s: &str) -> (r: usize)
    ensures
        r == s@.len(),
{
    s.unicode_len()
}

/// Whether two texts are equal.
pub fn same(a: &str, b: &str) -> (r: bool)
    ensures
        r == (a@ == b@),
{
    let x = chars_of(a);
    let y = chars_of(b);
    if x.len() != y.len() {
        return false;
    }
    let mut i: usize = 0;
    while i < x.len()
        invariant
            i <= x@.len(),
            x@.len() == y@.len(),
            x@ == a@,
            y@ == b@,
            forall|k: int| 0 <= k < i ==> x@[k] == y@[k],
        decreases x@.len() - i,
    {
        if x[i] != y[i] {
            assert(a@[i as int] != b@[i as int]);
            return false;
        }
        i = i + 1;
    }
    assert(a@ =~= b@);
    true
}

// ---------------------------------------------------------------------------
// Searching
// ---------------------------------------------------------------------------

/// `n` stands in `h` at position `i`.
pub open spec fn occurs_at(h: Seq<char>, n: Seq<char>, i: int) -> bool {
    0 <= i && i + n.len() <= h.len() && h.subrange(i, i + n.len()) == n
}

/// `n` stands somewhere in `h`.
pub open spec fn has_text(h: Seq<char>, n: Seq<char>) -> bool {
    exists|i: int| occurs_at(h, n, i)
}

/// The first position at or after `from` where `n` stands in `h`.
pub open spec fn find_from(h: Seq<char>, n: Seq<char>, from: int) -> Option<int>
    decreases h.len() + 1 - from,
{
    if from < 0 || from + n.len() > h.len() {
        None
    } else if occurs_at(h, n, from) {
        Some(from)
    } else {
        find_from(h, n, from + 1)
    }
}

/// What `find_from` finds is the first occurrence, and it finds one exactly if
/// there is one.
pub proof fn lemma_find_from(h: Seq<char>, n: Seq<char>, from: int)
    requires
        0 <= from,
    ensures
        match find_from(h, n, from) {
            Some(i) => from <= i && occurs_at(h, n, i) && (forall|k: int|
                from <= k < i ==> !#[trigger] occurs_at(h, n, k)),
            None => forall|k: int| from <= k ==> !#[trigger] occurs_at(h, n, k),
        },
    decreases h.len() + 1 - from,
{
    if from + n.len() > h.len() {
    } else if occurs_at(h, n, from) {
    } else {
        lemma_find_from(h, n, from + 1);
    }
}

fn occurs(h: &Vec<char>, n: &Vec<char>, at: usize) -> (r: bool)
    requires
        at + n@.len() <= h@.len(),
    ensures
        r == occurs_at(h@, n@, at as int),
{
    let len: usize = h.len();
    let mut j: usize = 0;
    while j < n.len()
        invariant
            j <= n@.len(),
            len == h@.len(),
            at + n@.len() <= h@.len(),
            forall|k: int| 0 <= k < j ==> h@[at + k] == n@[k],
        decreases n@.len() - j,
    {
        if h[at + j] != n[j] {
            proof {
                let sub = h@.subrange(at as int, at + n@.len());
                assert(sub[j as int] == h@[at + j]);
            }
            return false;
        }
        j = j + 1;
    }
    assert(h@.subrange(at as int, at + n@.len()) =~= n@);
    true
}

/// The first position at or after `from` where `n` stands in `h`.
pub fn find_chars(h: &Vec<char>, n: &Vec<char>, from: usize) -> (r: Option<usize>)
    ensures
        match r {
            Some(i) => find_from(h@, n@, from as int) == Some(i as int) && from <= i && occurs_at(
                h@,
                n@,
                i as int,
            ),
            None => find_from(h@, n@, from as int) is None,
        },
{
    if n.len() > h.len() || from > h.len() - n.len() {
        return None;
    }
    let last: usize = h.len() - n.len();
    let mut i: usize = from;
    while i < last
        invariant
            from <= i <= last,
            last == h@.len() - n@.len(),
            find_from(h@, n@, from as int) == find_from(h@, n@, i as int),
        decreases last - i,
    {
        if occurs(h, n, i) {
            return Some(i);
        }
        i = i + 1;
    }
    if occurs(h, n, i) {
        return Some(i);
    }
    proof {
        assert(find_from(h@, n@, i + 1) is None);
    }
    None
}

/// Whether `n` stands somewhere in `h`.
pub fn contains(h: &str, n: &str) -> (r: bool)
    ensures
        r == has_text(h@, n@),
{
    let hs = chars_of(h);
    let ns = chars_of(n);
    proof {
        lemma_find_from(h@, n@, 0);
    }
    let found = find_chars(&hs, &ns, 0);
    match found {
        Some(i) => {
            assert(occurs_at(h@, n@, i as int));
            true
        },
        None => false,
    }
}

/// Whether `n` stands at the start of `h`.
pub fn starts_with(h: &str, n: &str) -> (r: bool)
    ensures
        r == occurs_at(h@, n@, 0),
{
    let hs = chars_of(h);
    let ns = chars_of(n);
    if ns.len() > hs.len() {
        return false;
    }
    occurs(&hs, &ns, 0)
}

/// `h` from `from` on without `n` wherever it stands there.
pub open spec fn without_from(h: Seq<char>, n: Seq<char>, from: int) -> Seq<char>
    decreases h.len() - from,
{
    match find_from(h, n, from) {
        Some(i) => if n.len() > 0 && from <= i && i + n.len() <= h.len() {
            h.subrange(from, i) + without_from(h, n, i + n.len())
        } else {
            h.skip(from)
        },
        None => h.skip(from),
    }
}

/// `h` without `n` wherever it stands there.
pub open spec fn without_text(h: Seq<char>, n: Seq<char>) -> Seq<char> {
    without_from(h, n, 0)
}

proof fn lemma_without_from(h: Seq<char>, n: Seq<char>, from: int)
    requires
        0 <= from <= h.len(),
    ensures
        without_from(h, n, from).len() <= h.len() - from,
        n.len() > 0 && find_from(h, n, from) is Some ==> without_from(h, n, from).len() < h.len()
            - from,
    decreases h.len() - from,
{
    lemma_find_from(h, n, from);
    if n.len() > 0 {
        if let Some(i) = find_from(h, n, from) {
            lemma_without_from(h, n, i + n.len());
        }
    }
}

/// A text gets shorter when something that stands in it is taken out.
pub proof fn lemma_without_text(h: Seq<char>, n: Seq<char>)
    requires
        n.len() > 0,
        has_text(h, n),
    ensures
        without_text(h, n).len() < h.len(),
{
    lemma_find_from(h, n, 0);
    let i = choose|i: int| occurs_at(h, n, i);
    assert(occurs_at(h, n, i));
    lemma_without_from(h, n, 0);
}

/// `h` without `n` wherever it stands there.
pub fn remove_text(h: &str, n: &str) -> (r: String)
    ensures
        r@ == without_text(h@, n@),
{
    let hs = chars_of(h);
    let ns = chars_of(n);
    let total: usize = hs.len();
    let mut r = "".to_owned();
    if ns.len() == 0 {
        assert(h@.skip(0) =~= h@);
        return h.to_owned();
    }
    let mut from: usize = 0;
    proof {
        reveal_strlit("");
        assert(""@ + without_from(h@, n@, 0) =~= without_from(h@, n@, 0));
    }
    loop
        invariant
            from <= total == hs@.len(),
            hs@ == h@,
            ns@ == n@,
            n@.len() > 0,
            r@ + without_from(h@, n@, from as int) == without_text(h@, n@),
        decreases total - from,
    {
        match find_chars(&hs, &ns, from) {
            Some(i) => {
                let ghost before = r@;
                let part = text_of(&hs, from, i);
                r.append(part.as_str());
                proof {
                    let later = without_from(h@, n@, i + n@.len());
                    assert(before + (h@.subrange(from as int, i as int) + later) =~= (before
                        + h@.subrange(from as int, i as int)) + later);
                }
                from = i + ns.len();
            },
            None => {
                let part = text_of(&hs, from, total);
                assert(h@.subrange(from as int, total as int) =~= h@.skip(from as int));
                r.append(part.as_str());
                return r;
            },
        }
    }
}

/// `s` without the characters `c` at its end.
pub open spec fn trim_end_of(s: Seq<char>, c: char) -> Seq<char>
    decreases s.len(),
{
    if s.len() > 0 && s.last() == c {
        trim_end_of(s.drop_last(), c)
    } else {
        s
    }
}

/// `s` without the characters `c` at its end.
pub fn trim_end_char(s: &str, c: char) -> (r: String)
    ensures
        r@ == trim_end_of(s@, c),
{
    let cs = chars_of(s);
    let mut n: usize = cs.len();
    assert(s@.take(n as int) =~= s@);
    while n > 0 && cs[n - 1] == c
        invariant
            n <= cs@.len(),
            cs@ == s@,
            trim_end_of(s@, c) == trim_end_of(s@.take(n as int), c),
        decreases n,
    {
        assert(s@.take(n as int).drop_last() =~= s@.take(n - 1));
        n = n - 1;
    }
    assert(s@.take(n as int) =~= s@.subrange(0, n as int));
    text_of(&cs, 0, n)
}

/// `h` without `n` at its start, where `n` stands there.
pub open spec fn strip_prefix_of(h: Seq<char>, n: Seq<char>) -> Option<Seq<char>> {
    if occurs_at(h, n, 0) {
        Some(h.skip(n.len() as int))
    } else {
        None
    }
}

/// `h` without `n` at its start, where `n` stands there.
pub fn strip_prefix(h: &str, n: &str) -> (r: Option<String>)
    ensures
        r.deep_view() == strip_prefix_of(h@, n@),
{
    let hs = chars_of(h);
    let ns = chars_of(n);
    if ns.len() > hs.len() || !occurs(&hs, &ns, 0) {
        return None;
    }
    let rest = text_of(&hs, ns.len(), hs.len());
    assert(rest@ =~= h@.skip(n@.len() as int));
    Some(rest)
}

/// The two sides of the first `n` in `h`.
pub open spec fn split_once_of(h: Seq<char>, n: Seq<char>) -> Option<(Seq<char>, Seq<char>)> {
    match find_from(h, n, 0) {
        Some(i) => Some((h.take(i), h.skip(i + n.len()))),
        None => None,
    }
}

/// The two sides of the first `n` in `h`.
pub fn split_once(h: &str, n: &str) -> (r: Option<(String, String)>)
    ensures
        r.deep_view() == split_once_of(h@, n@),
{
    let hs = chars_of(h);
    let ns = chars_of(n);
    match find_chars(&hs, &ns, 0) {
        Some(i) => {
            let a = text_of(&hs, 0, i);
            let end: usize = hs.len();
            let b = text_of(&hs, i + ns.len(), end);
            assert(a@ =~= h@.take(i as int));
            assert(b@ =~= h@.skip(i + n@.len()));
            Some((a, b))
        },
        None => None,
    }
}

// ---------------------------------------------------------------------------
// Trimming
// ---------------------------------------------------------------------------

/// `s` without its leading white space.
pub open spec fn trim_start(s: Seq<char>) -> Seq<char>
    decreases s.len(),
{
    if s.len() > 0 && is_white_space(s[0]) {
        trim_start(s.skip(1))
    } else {
        s
    }
}

/// `s` without its trailing white space.
pub open spec fn trim_end(s: Seq<char>) -> Seq<char>
    decreases s.len(),
{
    if s.len() > 0 && is_white_space(s.last()) {
        trim_end(s.drop_last())
    } else {
        s
    }
}

/// `s` without leading and trailing white space.
pub open spec fn trimmed(s: Seq<char>) -> Seq<char> {
    trim_end(trim_start(s))
}

/// `s` without leading and trailing white space.
pub fn trim(s: &str) -> (r: String)
    ensures
        r@ == trimmed(s@),
{
    let cs = chars_of(s);
    let n: usize = cs.len();
    let mut a: usize = 0;
    assert(s@.skip(0) =~= s@);
    while a < n && cs[a].is_whitespace()
        invariant
            a <= n == cs@.len(),
            cs@ == s@,
            trim_start(s@) == trim_start(s@.skip(a as int)),
        decreases n - a,
    {
        assert(s@.skip(a as int).skip(1) =~= s@.skip(a + 1));
        a = a + 1;
    }
    let ghost rest = s@.skip(a as int);
    assert(trim_start(s@) == rest);
    let mut b: usize = n;
    assert(rest.take(b - a) =~= rest);
    while b > a && cs[b - 1].is_whitespace()
        invariant
            a <= b <= n == cs@.len(),
            cs@ == s@,
            rest == s@.skip(a as int),
            trim_end(rest) == trim_end(rest.take(b - a)),
        decreases b,
    {
        assert(rest.take(b - a).drop_last() =~= rest.take(b - a - 1));
        b = b - 1;
    }
    assert(trim_end(rest) == rest.take(b - a));
    assert(rest.take(b - a) =~= s@.subrange(a as int, b as int));
    text_of(&cs, a, b)
}

/// Whether `s` holds nothing but white space.
pub fn is_blank(s: &str) -> (r: bool)
    ensures
        r == (trimmed(s@).len() == 0),
{
    let t = trim(s);
    t.as_str().is_empty()
}

/// `s` has ASCII characters alone.
pub open spec fn all_ascii(s: Seq<char>) -> bool {
    forall|i: int| 0 <= i < s.len() ==> #[trigger] s[i] < '\u{80}'
}

/// `c` as a small letter, where it is an ASCII letter.
pub open spec fn ascii_lower_char(c: char) -> char {
    if 'A' <= c && c <= 'Z' {
        (c as u32 + 32) as char
    } else {
        c
    }
}

/// `s` with small letters in place of the capital ASCII letters.
pub open spec fn ascii_lower(s: Seq<char>) -> Seq<char> {
    s.map_values(|c: char| ascii_lower_char(c))
}

fn same_letter(a: char, b: char) -> (r: bool)
    ensures
        r == (ascii_lower_char(a) == ascii_lower_char(b)),
{
    let x: u32 = if a >= 'A' && a <= 'Z' {
        a as u32 + 32
    } else {
        a as u32
    };
    let y: u32 = if b >= 'A' && b <= 'Z' {
        b as u32 + 32
    } else {
        b as u32
    };
    x == y
}

/// Whether two texts are the same but for the case of ASCII letters.
pub fn same_ignoring_case(a: &str, b: &str) -> (r: bool)
    ensures
        r == (ascii_lower(a@) == ascii_lower(b@)),
{
    let x = chars_of(a);
    let y = chars_of(b);
    if x.len() != y.len() {
        assert(ascii_lower(a@).len() != ascii_lower(b@).len());
        return false;
    }
    let mut i: usize = 0;
    while i < x.len()
        invariant
            i <= x@.len() == y@.len(),
            x@ == a@,
            y@ == b@,
            forall|k: int|
                0 <= k < i ==> ascii_lower_char(#[trigger] x@[k]) == ascii_lower_char(y@[k]),
        decreases x@.len() - i,
    {
        if !same_letter(x[i], y[i]) {
            assert(ascii_lower(a@)[i as int] != ascii_lower(b@)[i as int]);
            return false;
        }
        i = i + 1;
    }
    assert(ascii_lower(a@) =~= ascii_lower(b@));
    true
}

// ---------------------------------------------------------------------------
// Splitting and joining
// ---------------------------------------------------------------------------

/// The parts of `s` between the characters that `sep` picks out.
pub open spec fn split_at_chars(s: Seq<char>, sep: spec_fn(char) -> bool) -> Seq<Seq<char>>
    decreases s.len(),
{
    if s.len() == 0 {
        seq![Seq::<char>::empty()]
    } else {
        let parts = split_at_chars(s.drop_last(), sep);
        if sep(s.last()) {
            parts.push(Seq::<char>::empty())
        } else {
            parts.drop_last().push(parts.last().push(s.last()))
        }
    }
}

/// Whether `c` is one of `set`.
pub fn char_in(c: char, set: &[char]) -> (r: bool)
    ensures
        r == set@.contains(c),
{
    let mut i: usize = 0;
    while i < set.len()
        invariant
            i <= set@.len(),
            forall|k: int| 0 <= k < i ==> set@[k] != c,
        decreases set@.len() - i,
    {
        if set[i] == c {
            assert(set@[i as int] == c);
            return true;
        }
        i = i + 1;
    }
    false
}

/// The parts of `s` between the characters of `set`.
pub fn split_any(s: &str, set: &[char]) -> (r: Vec<String>)
    ensures
        r.deep_view() == split_at_chars(s@, |c: char| set@.contains(c)),
{
    let cs = chars_of(s);
    let ghost sep = |c: char| set@.contains(c);
    let mut parts: Vec<String> = Vec::new();
    let mut cur = String::new();
    let mut i: usize = 0;
    assert(parts.deep_view().push(cur@) =~= seq![Seq::<char>::empty()]);
    assert(s@.take(0) =~= Seq::<char>::empty());
    while i < cs.len()
        invariant
            i <= cs@.len(),
            cs@ == s@,
            sep == (|c: char| set@.contains(c)),
            parts.deep_view().push(cur@) == split_at_chars(s@.take(i as int), sep),
        decreases cs@.len() - i,
    {
        let c = cs[i];
        let ghost before = parts.deep_view().push(cur@);
        assert(s@.take(i + 1).drop_last() =~= s@.take(i as int));
        assert(s@.take(i + 1).last() == c);
        assert(before.last() == cur@);
        assert(before.drop_last() =~= parts.deep_view());
        if char_in(c, set) {
            let ghost old_parts = parts.deep_view();
            parts.push(cur);
            assert(parts.deep_view() =~= before);
            cur = String::new();
        } else {
            cur.push(c);
        }
        i = i + 1;
    }
    assert(s@.take(i as int) =~= s@);
    let ghost old_parts = parts.deep_view();
    let ghost tail = cur@;
    parts.push(cur);
    assert(parts.deep_view() =~= old_parts.push(tail));
    parts
}

/// `parts` one after the other, with `sep` between each two.
pub open spec fn joined(parts: Seq<Seq<char>>, sep: Seq<char>) -> Seq<char>
    decreases parts.len(),
{
    if parts.len() == 0 {
        Seq::empty()
    } else if parts.len() == 1 {
        parts[0]
    } else {
        joined(parts.drop_last(), sep) + sep + parts.last()
    }
}

/// `parts` one after the other, with `sep` between each two.
pub fn join(parts: &[String], sep: &str) -> (r: String)
    ensures
        r@ == joined(parts.deep_view(), sep@),
{
    let mut r = String::new();
    let mut i: usize = 0;
    let ghost all = parts.deep_view();
    while i < parts.len()
        invariant
            i <= parts@.len(),
            all == parts.deep_view(),
            r@ == joined(all.take(i as int), sep@),
        decreases parts@.len() - i,
    {
        assert(all.take(i + 1).drop_last() =~= all.take(i as int));
        assert(all.take(i + 1).last() == parts@[i as int]@);
        if i > 0 {
            r.append(sep);
        }
        r.append(parts[i].as_str());
        proof {
            if i == 0 {
                assert(r@ =~= parts@[0]@);
            }
        }
        i = i + 1;
    }
    assert(all.take(i as int) =~= all);
    r
}

/// Each of `items` with `prefix` before it.
pub fn with_prefix(items: &Vec<String>, prefix: &str) -> (r: Vec<String>)
    ensures
        r.deep_view() == items.deep_view().map_values(|s: Seq<char>| prefix@ + s),
{
    let mut r: Vec<String> = Vec::new();
    let mut i: usize = 0;
    while i < items.len()
        invariant
            i <= items@.len(),
            r@.len() == i,
            forall|k: int| 0 <= k < i ==> (#[trigger] r@[k])@ == prefix@ + items@[k]@,
        decreases items@.len() - i,
    {
        let mut line = prefix.to_owned();
        line.append(items[i].as_str());
        r.push(line);
        i = i + 1;
    }
    assert(r.deep_view() =~= items.deep_view().map_values(|s: Seq<char>| prefix@ + s));
    r
}

// ---------------------------------------------------------------------------
// Numbers
// ---------------------------------------------------------------------------

/// The decimal digit for `d`.
pub open spec fn digit(d: int) -> char {
    (d + 48) as char
}

/// `n` in decimal.
pub open spec fn decimal(n: nat) -> Seq<char>
    decreases n,
{
    if n < 10 {
        seq![digit(n as int)]
    } else {
        decimal(n / 10).push(digit((n % 10) as int))
    }
}

fn digit_char(d: u8) -> (r: char)
    requires
        d < 10,
    ensures
        r == digit(d as int),
{
    (d + 48) as char
}

/// `n` in decimal.
pub fn number(n: u64) -> (r: String)
    ensures
        r@ == decimal(n as nat),
    decreases n,
{
    if n < 10 {
        let mut s = String::new();
        s.push(digit_char(n as u8));
        assert(s@ =~= seq![digit(n as int)]);
        s
    } else {
        let mut s = number(n / 10);
        s.push(digit_char((n % 10) as u8));
        s
    }
}

/// `n` in decimal, with a minus sign where it is negative.
pub open spec fn signed_decimal(n: int) -> Seq<char> {
    if n < 0 {
        seq!['-'] + decimal((-n) as nat)
    } else {
        decimal(n as nat)
    }
}

/// A number is written with at least one digit, and begins with one.
pub proof fn lemma_decimal_digits(n: nat)
    ensures
        decimal(n).len() > 0,
        n >= 10 ==> decimal(n).len() > 1,
        decimal(n)[0] != '-',
    decreases n,
{
    if n >= 10 {
        lemma_decimal_digits(n / 10);
    }
}

proof fn lemma_decimal_tells_apart(a: nat, b: nat)
    requires
        decimal(a) == decimal(b),
    ensures
        a == b,
    decreases a,
{
    lemma_decimal_digits(a);
    lemma_decimal_digits(b);
    assert(decimal(a).last() == digit((a % 10) as int));
    assert(decimal(b).last() == digit((b % 10) as int));
    assert(digit((a % 10) as int) as int == a % 10 + 48);
    assert(digit((b % 10) as int) as int == b % 10 + 48);
    if a >= 10 && b >= 10 {
        assert(decimal(a).drop_last() =~= decimal(a / 10));
        assert(decimal(b).drop_last() =~= decimal(b / 10));
        lemma_decimal_tells_apart(a / 10, b / 10);
    }
}

/// Different numbers are written differently.
pub proof fn lemma_signed_decimal_tells_apart(a: int, b: int)
    requires
        signed_decimal(a) == signed_decimal(b),
    ensures
        a == b,
{
    if a < 0 {
        lemma_decimal_digits((-a) as nat);
        assert(signed_decimal(a).skip(1) =~= decimal((-a) as nat));
    } else {
        lemma_decimal_digits(a as nat);
    }
    if b < 0 {
        lemma_decimal_digits((-b) as nat);
        assert(signed_decimal(b).skip(1) =~= decimal((-b) as nat));
    } else {
        lemma_decimal_digits(b as nat);
    }
    assert(signed_decimal(a)[0] == signed_decimal(b)[0]);
    if a < 0 {
        lemma_decimal_tells_apart((-a) as nat, (-b) as nat);
    } else {
        lemma_decimal_tells_apart(a as nat, b as nat);
    }
}

/// `n` in decimal, with a minus sign where it is negative.
pub fn signed_number(n: i64) -> (r: String)
    ensures
        r@ == signed_decimal(n as int),
{
    if n < 0 {
        let mut r = String::new();
        r.push('-');
        assert(r@ =~= seq!['-']);
        let size: u64 = (-(n as i128)) as u64;
        let digits = number(size);
        r.append(digits.as_str());
        r
    } else {
        number(n as u64)
    }
}

/// The hexadecimal digit for `d`.
pub open spec fn hex_digit(d: int) -> char {
    if d < 10 {
        (d + 48) as char
    } else {
        (d + 87) as char
    }
}

/// The last `width` hexadecimal digits of `n`.
pub open spec fn hex_of(n: nat, width: nat) -> Seq<char>
    decreases width,
{
    if width == 0 {
        Seq::empty()
    } else {
        hex_of(n / 16, (width - 1) as nat).push(hex_digit((n % 16) as int))
    }
}

/// The hexadecimal digit for `d`.
pub fn hex_char(d: u8) -> (r: char)
    requires
        d < 16,
    ensures
        r == hex_digit(d as int),
{
    if d < 10 {
        (d + 48) as char
    } else {
        (d + 87) as char
    }
}

/// The last `width` hexadecimal digits of `n`.
pub fn hex(n: u64, width: u32) -> (r: String)
    ensures
        r@ == hex_of(n as nat, width as nat),
    decreases width,
{
    if width == 0 {
        String::new()
    } else {
        let mut s = hex(n / 16, width - 1);
        s.push(hex_char((n % 16) as u8));
        s
    }
}

/// One step of the FNV-1a hash.
pub open spec fn fnv_step(h: u64, b: u8) -> u64 {
    (((h ^ (b as u64)) as nat * 0x0000_0100_0000_01b3) % 0x1_0000_0000_0000_0000) as u64
}

/// The FNV-1a hash of some bytes.
pub open spec fn fnv_of(bytes: Seq<u8>) -> u64
    decreases bytes.len(),
{
    if bytes.len() == 0 {
        0xcbf2_9ce4_8422_2325
    } else {
        fnv_step(fnv_of(bytes.drop_last()), bytes.last())
    }
}

/// `n` occurs in `h`, upper and lower case taken for one.
pub open spec fn has_text_in_any_case(h: Seq<char>, n: Seq<char>) -> bool {
    has_text(lowercase_of(h), lowercase_of(n))
}

/// Whether `n` occurs in `h`, upper and lower case taken for one.
pub fn contains_in_any_case(h: &str, n: &str) -> (r: bool)
    ensures
        r == has_text_in_any_case(h@, n@),
{
    let low = h.to_lowercase();
    let wanted = n.to_lowercase();
    contains(low.as_str(), wanted.as_str())
}

/// How many bytes a text takes in UTF-8.
pub open spec fn byte_count(s: Seq<char>) -> nat {
    vstd::utf8::encode_utf8(s).len()
}

/// How many bytes a text takes in UTF-8.
pub fn byte_len(s: &str) -> (r: usize)
    ensures
        r == byte_count(s@),
{
    s.as_bytes().len()
}

/// The bytes of two texts count together.
pub proof fn lemma_byte_count_adds(a: Seq<char>, b: Seq<char>)
    ensures
        byte_count(a + b) == byte_count(a) + byte_count(b),
    decreases a.len(),
{
    if a.len() == 0 {
        assert(a + b =~= b);
    } else {
        assert((a + b).drop_first() =~= a.drop_first() + b);
        lemma_byte_count_adds(a.drop_first(), b);
    }
}

/// A hash of a text that is the same wherever it is computed: the FNV-1a hash
/// of its UTF-8 bytes.
pub fn stable_hash(value: &str) -> (r: u64)
    ensures
        r == fnv_of(vstd::utf8::encode_utf8(value@)),
{
    let bytes = value.as_bytes();
    let mut h: u64 = 0xcbf2_9ce4_8422_2325;
    let mut i: usize = 0;
    assert(bytes@.take(0) =~= Seq::<u8>::empty());
    while i < bytes.len()
        invariant
            i <= bytes@.len(),
            h == fnv_of(bytes@.take(i as int)),
        decreases bytes@.len() - i,
    {
        assert(bytes@.take(i + 1).drop_last() =~= bytes@.take(i as int));
        h = (h ^ (bytes[i] as u64)).wrapping_mul(0x0000_0100_0000_01b3);
        i = i + 1;
    }
    assert(bytes@.take(i as int) =~= bytes@);
    h
}

// ---------------------------------------------------------------------------
// Parts of a text
// ---------------------------------------------------------------------------

/// A part of a part of a text is a part of the text.
pub proof fn lemma_part_of_part(h: Seq<char>, m: Seq<char>, n: Seq<char>)
    requires
        has_text(h, m),
        has_text(m, n),
    ensures
        has_text(h, n),
{
    let i = choose|i: int| occurs_at(h, m, i);
    let k = choose|k: int| occurs_at(m, n, k);
    assert(h.subrange(i + k, i + k + n.len()) =~= h.subrange(i, i + m.len()).subrange(
        k,
        k + n.len(),
    ));
    assert(occurs_at(h, n, i + k));
}

proof fn lemma_trim_start(s: Seq<char>)
    ensures
        trim_start(s).len() <= s.len(),
        trim_start(s) == s.skip(s.len() - trim_start(s).len()),
    decreases s.len(),
{
    if s.len() > 0 && is_white_space(s[0]) {
        lemma_trim_start(s.skip(1));
        let n = trim_start(s).len();
        assert(s.skip(1).skip(s.len() - 1 - n) =~= s.skip(s.len() - n));
    } else {
        assert(s.skip(0) =~= s);
    }
}

proof fn lemma_trim_end(s: Seq<char>)
    ensures
        trim_end(s).len() <= s.len(),
        trim_end(s) == s.take(trim_end(s).len() as int),
    decreases s.len(),
{
    if s.len() > 0 && is_white_space(s.last()) {
        lemma_trim_end(s.drop_last());
        let n = trim_end(s).len() as int;
        assert(s.drop_last().take(n) =~= s.take(n));
    } else {
        assert(s.take(s.len() as int) =~= s);
    }
}

/// A text without the white space around it is a part of the text.
pub proof fn lemma_trimmed_is_part(s: Seq<char>)
    ensures
        has_text(s, trimmed(s)),
{
    let t = trim_start(s);
    lemma_trim_start(s);
    lemma_trim_end(t);
    let i = s.len() - t.len();
    assert(s.subrange(i, i + trimmed(s).len()) =~= trimmed(s));
    assert(occurs_at(s, trimmed(s), i));
}

/// What a text is split into are parts of it, and the last of them ends it.
pub proof fn lemma_split_gives_parts(s: Seq<char>, sep: spec_fn(char) -> bool)
    ensures
        split_at_chars(s, sep).len() > 0,
        split_at_chars(s, sep).last().len() <= s.len(),
        split_at_chars(s, sep).last() == s.skip(s.len() - split_at_chars(s, sep).last().len()),
        forall|i: int|
            0 <= i < split_at_chars(s, sep).len() ==> has_text(
                s,
                #[trigger] split_at_chars(s, sep)[i],
            ),
    decreases s.len(),
{
    let parts = split_at_chars(s, sep);
    if s.len() == 0 {
        assert(s.skip(0) =~= Seq::<char>::empty());
        assert(occurs_at(s, parts[0], 0));
    } else {
        let rest = s.drop_last();
        let before = split_at_chars(rest, sep);
        lemma_split_gives_parts(rest, sep);
        assert(has_text(s, rest)) by {
            assert(s.subrange(0, rest.len() as int) =~= rest);
            assert(occurs_at(s, rest, 0));
        }
        let n = parts.last().len();
        assert(parts.last() =~= s.skip(s.len() - n));
        assert forall|i: int| 0 <= i < parts.len() implies has_text(s, #[trigger] parts[i]) by {
            if i < parts.len() - 1 {
                assert(parts[i] == before[i]);
                lemma_part_of_part(s, rest, before[i]);
            } else {
                assert(s.subrange(s.len() - n, s.len() as int) =~= s.skip(s.len() - n));
                assert(occurs_at(s, parts[i], s.len() - n));
            }
        }
    }
}

} // verus!
