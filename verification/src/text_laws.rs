//! What holds of texts that are trimmed, split, joined and searched, and of
//! numbers that are written out.

use crate::text::{
    ascii_lower, decimal, find_from, has_text, hex_of, is_white_space, joined, lemma_decimal_digits,
    lemma_find_from, occurs_at, signed_decimal, split_at_chars, split_once_of, strip_prefix_of,
    trim_end, trim_end_of, trim_start, trimmed, without_from, without_text,
};
use crate::walk::{at_most, flat_mapped};
use vstd::prelude::*;

verus! {

/// `s` is empty or all white space.
pub open spec fn is_all_blank(s: Seq<char>) -> bool {
    forall|i: int| 0 <= i < s.len() ==> is_white_space(#[trigger] s[i])
}

proof fn lemma_start(s: Seq<char>) -> (n: int)
    ensures
        0 <= n <= s.len(),
        trim_start(s) == s.skip(n),
        is_all_blank(s.take(n)),
        n < s.len() ==> !is_white_space(s[n]),
    decreases s.len(),
{
    if s.len() > 0 && is_white_space(s[0]) {
        let rest = s.skip(1);
        let n = lemma_start(rest) + 1;
        assert(rest.skip(n - 1) =~= s.skip(n));
        assert forall|i: int| 0 <= i < n implies is_white_space(#[trigger] s.take(n)[i]) by {
            if i > 0 {
                assert(rest.take(n - 1)[i - 1] == s[i]);
            }
        }
        if n < s.len() {
            assert(rest[n - 1] == s[n]);
        }
        n
    } else {
        assert(s.skip(0) =~= s);
        0
    }
}

proof fn lemma_end(s: Seq<char>) -> (n: int)
    ensures
        0 <= n <= s.len(),
        trim_end(s) == s.take(n),
        is_all_blank(s.skip(n)),
        n > 0 ==> !is_white_space(s[n - 1]),
    decreases s.len(),
{
    if s.len() > 0 && is_white_space(s.last()) {
        let rest = s.drop_last();
        let n = lemma_end(rest);
        assert(rest.take(n) =~= s.take(n));
        assert forall|i: int| 0 <= i < s.len() - n implies is_white_space(
            #[trigger] s.skip(n)[i],
        ) by {
            if i < rest.len() - n {
                assert(rest.skip(n)[i] == s[n + i]);
            }
        }
        n
    } else {
        assert(s.take(s.len() as int) =~= s);
        s.len() as int
    }
}

/// A trimmed text is the text without white space at its two ends, and all that
/// stands between them.
pub proof fn law_trimmed_is_the_middle(s: Seq<char>)
    ensures
        exists|a: Seq<char>, b: Seq<char>| #[trigger] (a + trimmed(s) + b) == s && is_all_blank(a) && is_all_blank(b),
        trimmed(s).len() > 0 ==> !is_white_space(trimmed(s)[0]) && !is_white_space(
            trimmed(s).last(),
        ),
        (trimmed(s).len() == 0) == is_all_blank(s),
{
    let n = lemma_start(s);
    let t = trim_start(s);
    let m = lemma_end(t);
    let a = s.take(n);
    let b = t.skip(m);
    let r = trimmed(s);
    assert(a + r + b =~= s);
    if r.len() > 0 {
        assert(r[0] == t[0] && t[0] == s[n]);
        assert(r.last() == t[m - 1]);
    }
    if r.len() == 0 {
        assert forall|i: int| 0 <= i < s.len() implies is_white_space(#[trigger] s[i]) by {
            if i < n {
                assert(a[i] == s[i]);
            } else {
                assert(b[i - n] == s[i]);
            }
        }
    } else {
        assert(r[0] == s[n]);
    }
}

/// A text without a separator is one part of itself; and a separator parts what
/// stands before it from what stands behind it.
pub proof fn law_split_at_separators(
    a: Seq<char>,
    c: char,
    b: Seq<char>,
    sep: spec_fn(char) -> bool,
)
    ensures
        (forall|i: int| 0 <= i < a.len() ==> !sep(#[trigger] a[i])) ==> split_at_chars(a, sep)
            == seq![a],
        sep(c) ==> split_at_chars(a + seq![c] + b, sep) == split_at_chars(a, sep) + split_at_chars(
            b,
            sep,
        ),
        split_at_chars(a, sep).len() > 0,
{
    lemma_split_none(a, sep);
    if sep(c) {
        lemma_split_two(a, c, b, sep);
    }
}

proof fn lemma_split_none(a: Seq<char>, sep: spec_fn(char) -> bool)
    ensures
        (forall|i: int| 0 <= i < a.len() ==> !sep(#[trigger] a[i])) ==> split_at_chars(a, sep)
            == seq![a],
        split_at_chars(a, sep).len() > 0,
    decreases a.len(),
{
    if a.len() == 0 {
        assert(a =~= Seq::<char>::empty());
    } else {
        let rest = a.drop_last();
        lemma_split_none(rest, sep);
        if forall|i: int| 0 <= i < a.len() ==> !sep(#[trigger] a[i]) {
            assert forall|i: int| 0 <= i < rest.len() implies !sep(#[trigger] rest[i]) by {
                assert(rest[i] == a[i]);
            }
            assert(!sep(a[a.len() - 1]));
            assert(rest.push(a.last()) =~= a);
            assert(seq![rest].drop_last().push(a) =~= seq![a]);
        }
    }
}

proof fn lemma_split_two(a: Seq<char>, c: char, b: Seq<char>, sep: spec_fn(char) -> bool)
    requires
        sep(c),
    ensures
        split_at_chars(a + seq![c] + b, sep) == split_at_chars(a, sep) + split_at_chars(b, sep),
    decreases b.len(),
{
    let s = a + seq![c] + b;
    let first = split_at_chars(a, sep);
    if b.len() == 0 {
        assert(s.drop_last() =~= a);
        assert(s.last() == c);
        assert(b =~= Seq::<char>::empty());
        assert(first.push(Seq::<char>::empty()) =~= first + seq![Seq::<char>::empty()]);
    } else {
        let rest = b.drop_last();
        lemma_split_two(a, c, rest, sep);
        lemma_split_none(rest, sep);
        assert(s.drop_last() =~= a + seq![c] + rest);
        assert(s.last() == b.last());
        let parts = split_at_chars(rest, sep);
        assert(split_at_chars(s, sep) =~= first + split_at_chars(b, sep));
    }
}

/// Nothing is joined to nothing, one part to itself, and more parts with the
/// separator between what they are joined to.
pub proof fn law_joined_with_separators(a: Seq<Seq<char>>, b: Seq<Seq<char>>, sep: Seq<char>)
    ensures
        a.len() == 0 ==> joined(a, sep) == Seq::<char>::empty(),
        a.len() == 1 ==> joined(a, sep) == a[0],
        a.len() > 0 && b.len() > 0 ==> joined(a + b, sep) == joined(a, sep) + sep + joined(b, sep),
    decreases b.len(),
{
    if a.len() > 0 && b.len() > 0 {
        let rest = b.drop_last();
        assert((a + b).drop_last() =~= a + rest);
        if rest.len() == 0 {
            assert(a + rest =~= a);
        } else {
            law_joined_with_separators(a, rest, sep);
            assert(joined(a + b, sep) =~= joined(a, sep) + sep + joined(b, sep));
        }
    }
}

/// The number that is written with the digits `s`.
pub open spec fn value_of(s: Seq<char>, base: int) -> int
    decreases s.len(),
{
    if s.len() == 0 {
        0
    } else {
        value_of(s.drop_last(), base) * base + if '0' <= s.last() <= '9' {
            s.last() as int - '0' as int
        } else {
            s.last() as int - 'a' as int + 10
        }
    }
}

/// A number is written with digits, the first of which is no nought unless it
/// is the only one, and what is written is the number.
pub proof fn law_decimal_is_the_number(n: nat)
    ensures
        value_of(decimal(n), 10) == n,
        forall|i: int| 0 <= i < decimal(n).len() ==> '0' <= #[trigger] decimal(n)[i] <= '9',
        decimal(n).len() > 0,
        n > 0 ==> decimal(n)[0] != '0',
        signed_decimal(n as int) == decimal(n),
        n > 0 ==> signed_decimal(-n) == seq!['-'] + decimal(n),
    decreases n,
{
    reveal_with_fuel(value_of, 2);
    let s = decimal(n);
    if n < 10 {
        assert(s.drop_last() =~= Seq::<char>::empty());
        assert(s.last() as int == n + 48);
    } else {
        law_decimal_is_the_number(n / 10);
        lemma_decimal_digits(n / 10);
        assert(s.drop_last() =~= decimal(n / 10));
        assert(s.last() as int == n % 10 + 48);
        assert forall|i: int| 0 <= i < s.len() implies '0' <= #[trigger] s[i] <= '9' by {
            if i < s.len() - 1 {
                assert(s[i] == decimal(n / 10)[i]);
            }
        }
        assert(s[0] == decimal(n / 10)[0]);
    }
}

/// A number that fits is written with as many hexadecimal digits as were asked
/// for, and what is written is the number.
pub proof fn law_hex_is_the_number(n: nat, width: nat)
    ensures
        hex_of(n, width).len() == width,
        width == 16 && n <= u64::MAX ==> value_of(hex_of(n, width), 16) == n,
{
    lemma_hex(n, width);
    if width == 16 && n <= u64::MAX {
        reveal_with_fuel(sixteens, 17);
        assert(sixteens(16) == 0x1_0000_0000_0000_0000);
        vstd::arithmetic::div_mod::lemma_small_mod(n, sixteens(16) as nat);
    }
}

spec fn sixteens(k: nat) -> int
    decreases k,
{
    if k == 0 {
        1
    } else {
        16 * sixteens((k - 1) as nat)
    }
}

proof fn lemma_sixteens(k: nat)
    ensures
        sixteens(k) > 0,
    decreases k,
{
    if k > 0 {
        lemma_sixteens((k - 1) as nat);
    }
}

proof fn lemma_hex(n: nat, width: nat)
    ensures
        hex_of(n, width).len() == width,
        value_of(hex_of(n, width), 16) == (n as int) % sixteens(width),
    decreases width,
{
    lemma_sixteens(width);
    if width == 0 {
        assert(hex_of(n, width) =~= Seq::<char>::empty());
        assert((n as int) % 1 == 0);
    } else {
        let m = (width - 1) as nat;
        lemma_hex(n / 16, m);
        lemma_sixteens(m);
        let s = hex_of(n, width);
        assert(s.drop_last() =~= hex_of(n / 16, m));
        let d = (n % 16) as int;
        assert(s.last() as int == if d < 10 { d + 48 } else { d + 87 });
        let k = sixteens(m);
        vstd::arithmetic::div_mod::lemma_mod_breakdown(n as int, 16, k);
        assert(16 * k == sixteens(width));
        assert((n as int) % (16 * k) == 16 * (((n as int) / 16) % k) + (n as int) % 16);
    }
}

/// A text is found where it stands first from some place on, and nowhere only
/// where it does not stand from there on.
pub proof fn law_found_is_the_first(h: Seq<char>, n: Seq<char>, from: int)
    requires
        0 <= from,
    ensures
        match find_from(h, n, from) {
            Some(i) => {
                &&& from <= i
                &&& i + n.len() <= h.len()
                &&& h.subrange(i, i + n.len()) == n
                &&& forall|k: int|
                    from <= k < i ==> #[trigger] h.subrange(k, k + n.len()) != n
            },
            None => forall|k: int|
                from <= k && k + n.len() <= h.len() ==> #[trigger] h.subrange(k, k + n.len()) != n,
        },
        split_once_of(h, n) is Some <==> find_from(h, n, 0) is Some,
        split_once_of(h, n) matches Some((a, b)) ==> h == a + n + b && a.len() == find_from(
            h,
            n,
            0,
        )->0,
        strip_prefix_of(h, n) is Some <==> n.is_prefix_of(h),
        strip_prefix_of(h, n) is Some ==> h == n + strip_prefix_of(h, n)->0,
{
    lemma_find_from(h, n, from);
    lemma_find_from(h, n, 0);
    match find_from(h, n, from) {
        Some(i) => {
            assert forall|k: int| from <= k < i implies #[trigger] h.subrange(k, k + n.len())
                != n by {
                assert(!occurs_at(h, n, k));
            }
        },
        None => {
            assert forall|k: int| from <= k && k + n.len() <= h.len() implies #[trigger] h.subrange(
                k,
                k + n.len(),
            ) != n by {
                assert(!occurs_at(h, n, k));
            }
        },
    }
    if let Some(i) = find_from(h, n, 0) {
        let (a, b) = split_once_of(h, n)->0;
        assert forall|k: int| 0 <= k < h.len() implies h[k] == (a + n + b)[k] by {
            if i <= k < i + n.len() {
                assert(h.subrange(i, i + n.len())[k - i] == n[k - i]);
            }
        }
        assert(h =~= a + n + b);
    }
    if n.is_prefix_of(h) {
        assert(h.subrange(0, n.len() as int) =~= n);
        assert(occurs_at(h, n, 0));
        assert(h =~= n + h.skip(n.len() as int));
    }
    if occurs_at(h, n, 0) {
        assert(h.subrange(0, n.len() as int) == n);
        assert(n.is_prefix_of(h));
    }
}

/// Of a text without another, what stands before its first occurrence stays,
/// the occurrence goes, and the same holds of what stands behind it.
pub proof fn law_text_is_taken_out(h: Seq<char>, n: Seq<char>)
    requires
        n.len() > 0,
    ensures
        match split_once_of(h, n) {
            Some((a, b)) => without_text(h, n) == a + without_text(b, n),
            None => without_text(h, n) == h,
        },
{
    lemma_find_from(h, n, 0);
    match find_from(h, n, 0) {
        Some(i) => {
            assert(h.subrange(0, i) =~= h.take(i));
            lemma_without_suffix(h, n, i + n.len());
        },
        None => {
            assert(h.skip(0) =~= h);
        },
    }
}

proof fn lemma_find_suffix(h: Seq<char>, n: Seq<char>, at: int, from: int)
    requires
        0 <= from <= at <= h.len(),
    ensures
        find_from(h.skip(from), n, at - from) == match find_from(h, n, at) {
            Some(i) => Some(i - from),
            None => None,
        },
    decreases h.len() + 1 - at,
{
    if at + n.len() <= h.len() {
        assert(h.subrange(at, at + n.len()) =~= h.skip(from).subrange(
            at - from,
            at - from + n.len(),
        ));
        if !occurs_at(h, n, at) {
            if at < h.len() {
                lemma_find_suffix(h, n, at + 1, from);
            }
        }
    }
}

proof fn lemma_without_suffix(h: Seq<char>, n: Seq<char>, from: int)
    requires
        0 <= from <= h.len(),
        n.len() > 0,
    ensures
        without_text(h.skip(from), n) == without_from(h, n, from),
{
    lemma_without_shift(h, n, from, from);
}

proof fn lemma_without_shift(h: Seq<char>, n: Seq<char>, at: int, from: int)
    requires
        0 <= from <= at <= h.len(),
        n.len() > 0,
    ensures
        without_from(h.skip(from), n, at - from) == without_from(h, n, at),
    decreases h.len() - at,
{
    lemma_find_suffix(h, n, at, from);
    lemma_find_from(h, n, at);
    let t = h.skip(from);
    match find_from(h, n, at) {
        Some(i) => {
            lemma_without_shift(h, n, i + n.len(), from);
            assert(t.subrange(at - from, i - from) =~= h.subrange(at, i));
        },
        None => {
            assert(t.skip(at - from) =~= h.skip(at));
        },
    }
}

/// Without a character at its end, a text is what stands before the last run of
/// that character.
pub proof fn law_ends_without(s: Seq<char>, c: char)
    ensures
        trim_end_of(s, c).is_prefix_of(s),
        trim_end_of(s, c).len() > 0 ==> trim_end_of(s, c).last() != c,
        forall|i: int| trim_end_of(s, c).len() <= i < s.len() ==> #[trigger] s[i] == c,
    decreases s.len(),
{
    if s.len() > 0 && s.last() == c {
        let t = s.drop_last();
        law_ends_without(t, c);
        assert forall|i: int| trim_end_of(s, c).len() <= i < s.len() implies #[trigger] s[i]
            == c by {
            if i < t.len() {
                assert(t[i] == s[i]);
            }
        }
    }
}

/// Of a text in small letters only the capital letters differ, each by the
/// distance between the two cases.
pub proof fn law_small_letters(s: Seq<char>)
    ensures
        ascii_lower(s).len() == s.len(),
        forall|i: int|
            0 <= i < s.len() ==> #[trigger] ascii_lower(s)[i] as int == if 'A' <= s[i] <= 'Z' {
                s[i] as int + ('a' as int - 'A' as int)
            } else {
                s[i] as int
            },
        ascii_lower(ascii_lower(s)) == ascii_lower(s),
{
    assert(ascii_lower(ascii_lower(s)) =~= ascii_lower(s));
}

/// At most so many items are the first ones, all of them where they are no more.
pub proof fn law_at_most_is_the_beginning<A>(s: Seq<A>, n: nat)
    ensures
        at_most(s, n).is_prefix_of(s),
        at_most(s, n).len() <= n,
        at_most(s, n).len() < n ==> at_most(s, n) == s,
        s.len() <= n ==> at_most(s, n) == s,
{
}

/// What several parts give is what the first and what the rest of them give.
pub proof fn law_flat_mapped_in_parts<A, B>(a: Seq<A>, b: Seq<A>, g: spec_fn(A) -> Seq<B>)
    ensures
        flat_mapped(a + b, g) == flat_mapped(a, g) + flat_mapped(b, g),
        a.len() == 1 ==> flat_mapped(a, g) == g(a[0]),
    decreases b.len(),
{
    if a.len() == 1 {
        assert(flat_mapped(a.drop_last(), g) =~= Seq::<B>::empty());
        assert(flat_mapped(a, g) =~= g(a[0]));
    }
    if b.len() == 0 {
        assert(a + b =~= a);
        assert(flat_mapped(a + b, g) =~= flat_mapped(a, g) + flat_mapped(b, g));
    } else {
        law_flat_mapped_in_parts(a, b.drop_last(), g);
        assert((a + b).drop_last() =~= a + b.drop_last());
        assert(flat_mapped(a + b, g) =~= flat_mapped(a, g) + flat_mapped(b, g));
    }
}

/// The text `n` stands somewhere in `h`.
pub open spec fn stands_in(h: Seq<char>, n: Seq<char>) -> bool {
    exists|i: int|
        0 <= i && i + n.len() <= h.len() && #[trigger] h.subrange(i, i + n.len()) == n
}

/// A text has another where the other stands somewhere in it.
pub proof fn law_text_stands_in(h: Seq<char>, n: Seq<char>)
    ensures
        has_text(h, n) == stands_in(h, n),
{
    if has_text(h, n) {
        let i = choose|i: int| occurs_at(h, n, i);
        assert(h.subrange(i, i + n.len()) == n);
    }
    if stands_in(h, n) {
        let i = choose|i: int|
            0 <= i && i + n.len() <= h.len() && #[trigger] h.subrange(i, i + n.len()) == n;
        assert(occurs_at(h, n, i));
    }
}

/// What stands between two texts stands in all of it.
pub proof fn lemma_stands_between(a: Seq<char>, n: Seq<char>, b: Seq<char>, h: Seq<char>)
    requires
        h =~= a + n + b,
    ensures
        stands_in(h, n),
{
    let i = a.len() as int;
    assert(h.subrange(i, i + n.len()) =~= n);
}

/// What stands in a part of a text stands in the text.
pub proof fn lemma_stands_through(h: Seq<char>, m: Seq<char>, n: Seq<char>)
    requires
        stands_in(h, m),
        stands_in(m, n),
    ensures
        stands_in(h, n),
{
    let i = choose|i: int|
        0 <= i && i + m.len() <= h.len() && #[trigger] h.subrange(i, i + m.len()) == m;
    let k = choose|k: int|
        0 <= k && k + n.len() <= m.len() && #[trigger] m.subrange(k, k + n.len()) == n;
    let j = i + k;
    assert(h.subrange(j, j + n.len()) =~= m.subrange(k, k + n.len())) by {
        assert forall|x: int| 0 <= x < n.len() implies #[trigger] h.subrange(j, j + n.len())[x] == m.subrange(
            k,
            k + n.len(),
        )[x] by {
            assert(h.subrange(i, i + m.len())[k + x] == m[k + x]);
        }
    }
}

/// Each part stands in what the parts are joined to.
pub proof fn law_joined_has_each_part(parts: Seq<Seq<char>>, sep: Seq<char>, i: int)
    requires
        0 <= i < parts.len(),
    ensures
        stands_in(joined(parts, sep), parts[i]),
{
    let a = parts.take(i);
    let m = seq![parts[i]];
    let b = parts.skip(i + 1);
    let all = joined(parts, sep);
    let none = Seq::<char>::empty();
    law_joined_with_separators(m, m, sep);
    if a.len() > 0 && b.len() > 0 {
        assert(parts =~= a + m + b);
        law_joined_with_separators(a, m, sep);
        law_joined_with_separators(a + m, b, sep);
        lemma_stands_between(joined(a, sep) + sep, parts[i], sep + joined(b, sep), all);
    } else if a.len() > 0 {
        assert(parts =~= a + m);
        law_joined_with_separators(a, m, sep);
        lemma_stands_between(joined(a, sep) + sep, parts[i], none, all);
    } else if b.len() > 0 {
        assert(parts =~= m + b);
        law_joined_with_separators(m, b, sep);
        lemma_stands_between(none, parts[i], sep + joined(b, sep), all);
    } else {
        assert(parts =~= m);
        lemma_stands_between(none, parts[i], none, all);
    }
}

/// What several parts give together, one of them gives.
pub proof fn lemma_flat_has<A, B>(s: Seq<A>, g: spec_fn(A) -> Seq<B>, y: B)
    ensures
        flat_mapped(s, g).contains(y) <==> exists|i: int|
            0 <= i < s.len() && g(#[trigger] s[i]).contains(y),
    decreases s.len(),
{
    if s.len() > 0 {
        let rest = s.drop_last();
        lemma_flat_has(rest, g, y);
        let a = flat_mapped(rest, g);
        let b = g(s.last());
        let all = flat_mapped(s, g);
        if all.contains(y) {
            let k = choose|k: int| 0 <= k < all.len() && all[k] == y;
            if k < a.len() {
                assert(a[k] == y);
                let i = choose|i: int| 0 <= i < rest.len() && g(#[trigger] rest[i]).contains(y);
                assert(g(s[i]).contains(y));
            } else {
                assert(b[k - a.len()] == y);
                assert(g(s[s.len() - 1]).contains(y));
            }
        }
        if exists|i: int| 0 <= i < s.len() && g(#[trigger] s[i]).contains(y) {
            let i = choose|i: int| 0 <= i < s.len() && g(#[trigger] s[i]).contains(y);
            if i < rest.len() {
                assert(g(rest[i]).contains(y));
                let k = choose|k: int| 0 <= k < a.len() && a[k] == y;
                assert(all[k] == y);
            } else {
                let k = choose|k: int| 0 <= k < b.len() && b[k] == y;
                assert(all[a.len() + k] == y);
            }
        }
    }
}

} // verus!
