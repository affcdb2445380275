//! The keywords of a text.

use crate::memory::ids::is_alphanumeric;
use crate::seqs::{lemma_deep_push, lemma_filter_none, lemma_take_all, lemma_take_step};
use crate::text::{
    chars_of, has_text, lemma_part_of_part, lemma_split_gives_parts, lemma_trimmed_is_part,
    lowercase_of, occurs_at, same, split_any, split_at_chars, text_of, trim, trimmed,
};
use crate::walk::{append_all, at_most, filter_each, first_items, map_each};
use vstd::prelude::*;

verus! {

/// The characters between which a text is cut.
pub open spec fn separators() -> Seq<char> {
    seq![' ', ',', '，', '。', '、', '；', '！', '？', '\n', '\t', '：', ':', '(', ')', '（', '）', '[', ']', '"', '\'']
}

/// A word that says nothing by itself.
pub open spec fn is_stop_word(w: Seq<char>) -> bool {
    ||| w == "的"@
    ||| w == "了"@
    ||| w == "是"@
    ||| w == "在"@
    ||| w == "我"@
    ||| w == "你"@
    ||| w == "他"@
    ||| w == "她"@
    ||| w == "它"@
    ||| w == "们"@
    ||| w == "这"@
    ||| w == "那"@
    ||| w == "有"@
    ||| w == "不"@
    ||| w == "就"@
    ||| w == "也"@
    ||| w == "都"@
    ||| w == "还"@
    ||| w == "又"@
    ||| w == "很"@
    ||| w == "要"@
    ||| w == "会"@
    ||| w == "能"@
    ||| w == "把"@
    ||| w == "被"@
    ||| w == "让"@
    ||| w == "给"@
    ||| w == "到"@
    ||| w == "和"@
    ||| w == "与"@
    ||| w == "吗"@
    ||| w == "呢"@
    ||| w == "吧"@
    ||| w == "啊"@
    ||| w == "哦"@
    ||| w == "嗯"@
    ||| w == "呀"@
    ||| w == "哈"@
    ||| w == "哪"@
    ||| w == "什么"@
    ||| w == "怎么"@
    ||| w == "如何"@
    ||| w == "可以"@
    ||| w == "能够"@
    ||| w == "应该"@
    ||| w == "需要"@
    ||| w == "刚刚"@
    ||| w == "刚才"@
    ||| w == "一个"@
    ||| w == "一些"@
    ||| w == "这个"@
    ||| w == "那个"@
    ||| w == "这些"@
    ||| w == "那些"@
}

fn stop_word(w: &str) -> (r: bool)
    ensures
        r == is_stop_word(w@),
{
    same(w, "的")
        || same(w, "了")
        || same(w, "是")
        || same(w, "在")
        || same(w, "我")
        || same(w, "你")
        || same(w, "他")
        || same(w, "她")
        || same(w, "它")
        || same(w, "们")
        || same(w, "这")
        || same(w, "那")
        || same(w, "有")
        || same(w, "不")
        || same(w, "就")
        || same(w, "也")
        || same(w, "都")
        || same(w, "还")
        || same(w, "又")
        || same(w, "很")
        || same(w, "要")
        || same(w, "会")
        || same(w, "能")
        || same(w, "把")
        || same(w, "被")
        || same(w, "让")
        || same(w, "给")
        || same(w, "到")
        || same(w, "和")
        || same(w, "与")
        || same(w, "吗")
        || same(w, "呢")
        || same(w, "吧")
        || same(w, "啊")
        || same(w, "哦")
        || same(w, "嗯")
        || same(w, "呀")
        || same(w, "哈")
        || same(w, "哪")
        || same(w, "什么")
        || same(w, "怎么")
        || same(w, "如何")
        || same(w, "可以")
        || same(w, "能够")
        || same(w, "应该")
        || same(w, "需要")
        || same(w, "刚刚")
        || same(w, "刚才")
        || same(w, "一个")
        || same(w, "一些")
        || same(w, "这个")
        || same(w, "那个")
        || same(w, "这些")
        || same(w, "那些")
}

/// The text takes two bytes or more.
pub open spec fn takes_two_bytes(s: Seq<char>) -> bool {
    s.len() >= 2 || (s.len() == 1 && s[0] as u32 >= 0x80)
}

/// The text has an ASCII letter or digit.
pub open spec fn has_alphanumeric(s: Seq<char>) -> bool {
    exists|i: int| 0 <= i < s.len() && is_alphanumeric(#[trigger] s[i])
}

/// The pieces of `n` characters of a text, from left to right; a text that is
/// no longer is one piece.
pub open spec fn windows(s: Seq<char>, n: int) -> Seq<Seq<char>> {
    if s.len() <= n {
        if takes_two_bytes(s) {
            seq![s]
        } else {
            Seq::empty()
        }
    } else {
        Seq::new((s.len() - n + 1) as nat, |i: int| s.subrange(i, i + n))
    }
}

/// The pieces that are no stop words, each as the key by which it is known and
/// as itself.
pub open spec fn telling(pieces: Seq<Seq<char>>) -> Seq<(Seq<char>, Seq<char>)> {
    pieces.filter(|w: Seq<char>| !is_stop_word(w)).map_values(|w: Seq<char>| (w, w))
}

/// The keywords of one segment, each with the key by which it is known: a
/// segment with letters or digits is one, of any other its pieces of four,
/// three and two characters are.
pub open spec fn segment_words(seg: Seq<char>) -> Seq<(Seq<char>, Seq<char>)> {
    if has_alphanumeric(seg) && takes_two_bytes(seg) {
        seq![(lowercase_of(seg), seg)]
    } else {
        telling(windows(seg, 4)) + telling(windows(seg, 3)) + telling(windows(seg, 2))
    }
}

/// The keywords of several segments.
pub open spec fn all_words(segs: Seq<Seq<char>>) -> Seq<(Seq<char>, Seq<char>)>
    decreases segs.len(),
{
    if segs.len() == 0 {
        Seq::empty()
    } else {
        all_words(segs.drop_last()) + segment_words(segs.last())
    }
}

/// The segments of a text.
pub open spec fn segments(content: Seq<char>) -> Seq<Seq<char>> {
    split_at_chars(content, |c: char| separators().contains(c)).map_values(
        |s: Seq<char>| trimmed(s),
    ).filter(|s: Seq<char>| s.len() > 0)
}

/// Each keyword whose key did not come before.
pub open spec fn fresh(words: Seq<(Seq<char>, Seq<char>)>) -> Seq<Seq<char>>
    decreases words.len(),
{
    if words.len() == 0 {
        Seq::empty()
    } else {
        let before = fresh(words.drop_last());
        if exists|k: int| 0 <= k < words.len() - 1 && (#[trigger] words[k]).0 == words.last().0 {
            before
        } else {
            before.push(words.last().1)
        }
    }
}

/// The first `max` keywords of a text.
pub open spec fn keywords_of(content: Seq<char>, max: nat) -> Seq<Seq<char>> {
    at_most(fresh(all_words(segments(content))), max)
}

fn two_bytes(cs: &Vec<char>) -> (r: bool)
    ensures
        r == takes_two_bytes(cs@),
{
    cs.len() >= 2 || (cs.len() == 1 && cs[0] as u32 >= 0x80)
}

fn alphanumeric(cs: &Vec<char>) -> (r: bool)
    ensures
        r == has_alphanumeric(cs@),
{
    let mut i: usize = 0;
    while i < cs.len()
        invariant
            i <= cs@.len(),
            forall|k: int| 0 <= k < i ==> !is_alphanumeric(#[trigger] cs@[k]),
        decreases cs@.len() - i,
    {
        let c = cs[i];
        if (c >= 'a' && c <= 'z') || (c >= 'A' && c <= 'Z') || (c >= '0' && c <= '9') {
            assert(is_alphanumeric(cs@[i as int]));
            return true;
        }
        i = i + 1;
    }
    false
}

fn cut(cs: &Vec<char>, n: usize) -> (r: Vec<String>)
    requires
        n > 0,
    ensures
        r.deep_view() == windows(cs@, n as int),
{
    let mut r: Vec<String> = Vec::new();
    if cs.len() <= n {
        if two_bytes(cs) {
            let w = text_of(cs, 0, cs.len());
            assert(w@ =~= cs@);
            r.push(w);
            assert(r.deep_view() =~= seq![cs@]);
        } else {
            assert(r.deep_view() =~= Seq::<Seq<char>>::empty());
        }
        return r;
    }
    let total: usize = cs.len();
    let count: usize = total - n + 1;
    let mut i: usize = 0;
    while i < count
        invariant
            i <= count == cs@.len() - n + 1,
            total == cs@.len(),
            r@.len() == i,
            forall|k: int| 0 <= k < i ==> (#[trigger] r@[k])@ == cs@.subrange(k, k + n),
        decreases count - i,
    {
        r.push(text_of(cs, i, i + n));
        i = i + 1;
    }
    assert(r.deep_view() =~= windows(cs@, n as int));
    r
}

fn find_telling(pieces: &Vec<String>) -> (r: Vec<(String, String)>)
    ensures
        r.deep_view() == telling(pieces.deep_view()),
{
    let tells = |w: &String| -> (r: bool)
        ensures r == !is_stop_word(w@)
    {
        !stop_word(w.as_str())
    };
    let words = filter_each(pieces.as_slice(), tells, Ghost(|w: Seq<char>| !is_stop_word(w)));
    let twice = |w: &String| -> (r: (String, String))
        ensures r.deep_view() == (w@, w@)
    {
        (w.clone(), w.clone())
    };
    map_each(words.as_slice(), twice, Ghost(|w: Seq<char>| (w, w)))
}

fn find_segment_words(seg: &str) -> (r: Vec<(String, String)>)
    ensures
        r.deep_view() == segment_words(seg@),
{
    let cs = chars_of(seg);
    if alphanumeric(&cs) && two_bytes(&cs) {
        let pair = (seg.to_lowercase(), seg.to_owned());
        let r: Vec<(String, String)> = vec![pair];
        assert(r.deep_view() =~= seq![(lowercase_of(seg@), seg@)]);
        return r;
    }
    let mut r = find_telling(&cut(&cs, 4));
    append_all(&mut r, find_telling(&cut(&cs, 3)));
    append_all(&mut r, find_telling(&cut(&cs, 2)));
    r
}

fn find_fresh(words: &Vec<(String, String)>) -> (r: Vec<String>)
    ensures
        r.deep_view() == fresh(words.deep_view()),
{
    let ghost all = words.deep_view();
    let mut r: Vec<String> = Vec::new();
    let mut i: usize = 0;
    proof {
        assert(all.take(0) =~= Seq::<(Seq<char>, Seq<char>)>::empty());
        assert(r.deep_view() =~= Seq::<Seq<char>>::empty());
    }
    while i < words.len()
        invariant
            i <= words@.len(),
            all == words.deep_view(),
            r.deep_view() == fresh(all.take(i as int)),
        decreases words@.len() - i,
    {
        let ghost pre = all.take(i + 1);
        let mut seen = false;
        let mut k: usize = 0;
        while k < i && !seen
            invariant
                k <= i < words@.len(),
                all == words.deep_view(),
                pre == all.take(i + 1),
                seen ==> exists|j: int|
                    0 <= j < pre.len() - 1 && (#[trigger] pre[j]).0 == pre.last().0,
                !seen ==> forall|j: int| 0 <= j < k ==> (#[trigger] pre[j]).0 != pre.last().0,
            decreases i - k + (if seen { 0int } else { 1 }),
        {
            assert(pre[k as int] == words@[k as int].deep_view());
            assert(pre.last() == words@[i as int].deep_view());
            if same(words[k].0.as_str(), words[i].0.as_str()) {
                seen = true;
            } else {
                k = k + 1;
            }
        }
        proof {
            lemma_take_step(all, i as int);
            assert(pre.last() == words@[i as int].deep_view());
        }
        if !seen {
            let ghost before = r;
            let w = words[i].1.clone();
            r.push(w);
            proof {
                lemma_deep_push(before, r, w);
            }
        }
        i = i + 1;
    }
    proof {
        lemma_take_all(all);
    }
    r
}

/// The parts of a text between the characters of `set`, without the white
/// space around them and without those of which nothing is left.
pub fn parts_of(s: &str, set: &[char]) -> (r: Vec<String>)
    ensures
        r.deep_view() == split_at_chars(s@, |c: char| set@.contains(c)).map_values(
            |s: Seq<char>| trimmed(s),
        ).filter(|s: Seq<char>| s.len() > 0),
{
    let parts = split_any(s, set);
    let strip = |s: &String| -> (r: String)
        ensures r@ == trimmed(s@)
    {
        trim(s.as_str())
    };
    let stripped = map_each(parts.as_slice(), strip, Ghost(|s: Seq<char>| trimmed(s)));
    let filled = |s: &String| -> (r: bool)
        ensures r == (s@.len() > 0)
    {
        !s.as_str().is_empty()
    };
    filter_each(stripped.as_slice(), filled, Ghost(|s: Seq<char>| s.len() > 0))
}

/// The first `max` keywords of a text.
pub fn extract_keywords(content: &str, max: usize) -> (r: Vec<String>)
    ensures
        r.deep_view() == keywords_of(content@, max as nat),
{
    let set: [char; 20] = [' ', ',', '，', '。', '、', '；', '！', '？', '\n', '\t', '：', ':', '(', ')', '（', '）', '[', ']', '"', '\''];
    assert(set@ =~= separators());
    let segs = parts_of(content, &set);
    let ghost all = segs.deep_view();
    let ghost p = |c: char| separators().contains(c);
    assert(all == segments(content@));
    let mut words: Vec<(String, String)> = Vec::new();
    let mut i: usize = 0;
    proof {
        assert(all.take(0) =~= Seq::<Seq<char>>::empty());
        assert(words.deep_view() =~= Seq::<(Seq<char>, Seq<char>)>::empty());
    }
    while i < segs.len()
        invariant
            i <= segs@.len(),
            all == segs.deep_view(),
            words.deep_view() == all_words(all.take(i as int)),
        decreases segs@.len() - i,
    {
        proof {
            lemma_take_step(all, i as int);
            assert(all[i as int] == segs@[i as int]@);
        }
        append_all(&mut words, find_segment_words(segs[i].as_str()));
        i = i + 1;
    }
    proof {
        lemma_take_all(all);
    }
    let found = find_fresh(&words);
    first_items(found.as_slice(), max)
}

// ---------------------------------------------------------------------------
// Laws
// ---------------------------------------------------------------------------

proof fn lemma_stop_words_have_no_letters(w: Seq<char>)
    requires
        is_stop_word(w),
    ensures
        !has_alphanumeric(w),
{
    reveal_strlit("的");
    reveal_strlit("了");
    reveal_strlit("是");
    reveal_strlit("在");
    reveal_strlit("我");
    reveal_strlit("你");
    reveal_strlit("他");
    reveal_strlit("她");
    reveal_strlit("它");
    reveal_strlit("们");
    reveal_strlit("这");
    reveal_strlit("那");
    reveal_strlit("有");
    reveal_strlit("不");
    reveal_strlit("就");
    reveal_strlit("也");
    reveal_strlit("都");
    reveal_strlit("还");
    reveal_strlit("又");
    reveal_strlit("很");
    reveal_strlit("要");
    reveal_strlit("会");
    reveal_strlit("能");
    reveal_strlit("把");
    reveal_strlit("被");
    reveal_strlit("让");
    reveal_strlit("给");
    reveal_strlit("到");
    reveal_strlit("和");
    reveal_strlit("与");
    reveal_strlit("吗");
    reveal_strlit("呢");
    reveal_strlit("吧");
    reveal_strlit("啊");
    reveal_strlit("哦");
    reveal_strlit("嗯");
    reveal_strlit("呀");
    reveal_strlit("哈");
    reveal_strlit("哪");
    reveal_strlit("什么");
    reveal_strlit("怎么");
    reveal_strlit("如何");
    reveal_strlit("可以");
    reveal_strlit("能够");
    reveal_strlit("应该");
    reveal_strlit("需要");
    reveal_strlit("刚刚");
    reveal_strlit("刚才");
    reveal_strlit("一个");
    reveal_strlit("一些");
    reveal_strlit("这个");
    reveal_strlit("那个");
    reveal_strlit("这些");
    reveal_strlit("那些");
}

/// The key by which a keyword is known.
pub open spec fn key_of_word(w: Seq<char>) -> Seq<char> {
    if has_alphanumeric(w) {
        lowercase_of(w)
    } else {
        w
    }
}

/// A keyword of a text under its key.
pub open spec fn is_word_of(text: Seq<char>, w: (Seq<char>, Seq<char>)) -> bool {
    &&& w.1.len() > 0
    &&& has_text(text, w.1)
    &&& !is_stop_word(w.1)
    &&& w.0 == key_of_word(w.1)
}

proof fn lemma_telling(seg: Seq<char>, n: int)
    requires
        n > 0,
        !has_alphanumeric(seg),
    ensures
        forall|i: int|
            0 <= i < telling(windows(seg, n)).len() ==> is_word_of(
                seg,
                #[trigger] telling(windows(seg, n))[i],
            ),
{
    let pieces = windows(seg, n);
    let p = |w: Seq<char>| !is_stop_word(w);
    let told = pieces.filter(p);
    assert forall|i: int| 0 <= i < telling(pieces).len() implies is_word_of(
        seg,
        #[trigger] telling(pieces)[i],
    ) by {
        let w = told[i];
        pieces.lemma_filter_pred(p, i);
        assert(told.contains(w));
        pieces.lemma_filter_contains_rev(p, w);
        let k = choose|k: int| 0 <= k < pieces.len() && pieces[k] == w;
        if seg.len() <= n {
            assert(w == seg);
            assert(seg.subrange(0, seg.len() as int) =~= seg);
            assert(occurs_at(seg, w, 0));
        } else {
            assert(w == seg.subrange(k, k + n));
            assert(occurs_at(seg, w, k));
            assert forall|j: int| 0 <= j < w.len() implies !is_alphanumeric(#[trigger] w[j]) by {
                assert(w[j] == seg[k + j]);
            }
        }
        assert(!has_alphanumeric(w));
        assert(telling(pieces)[i] == (w, w));
    }
}

proof fn lemma_segment_words(seg: Seq<char>)
    requires
        seg.len() > 0,
    ensures
        forall|i: int|
            0 <= i < segment_words(seg).len() ==> is_word_of(
                seg,
                #[trigger] segment_words(seg)[i],
            ),
{
    let all = segment_words(seg);
    if has_alphanumeric(seg) && takes_two_bytes(seg) {
        assert(seg.subrange(0, seg.len() as int) =~= seg);
        assert(occurs_at(seg, seg, 0));
        if is_stop_word(seg) {
            lemma_stop_words_have_no_letters(seg);
        }
    } else if has_alphanumeric(seg) {
        assert(seg.len() == 1);
        let p = |w: Seq<char>| !is_stop_word(w);
        lemma_filter_none(Seq::<Seq<char>>::empty(), p);
        assert(windows(seg, 4) =~= Seq::<Seq<char>>::empty());
        assert(windows(seg, 3) =~= Seq::<Seq<char>>::empty());
        assert(windows(seg, 2) =~= Seq::<Seq<char>>::empty());
        assert(Seq::<Seq<char>>::empty().take(0) =~= Seq::<Seq<char>>::empty());
        assert(all.len() == 0);
    } else {
        let a = telling(windows(seg, 4));
        let b = telling(windows(seg, 3));
        let c = telling(windows(seg, 2));
        lemma_telling(seg, 4);
        lemma_telling(seg, 3);
        lemma_telling(seg, 2);
        assert forall|i: int| 0 <= i < all.len() implies is_word_of(seg, #[trigger] all[i]) by {
            if i < a.len() {
                assert(all[i] == a[i]);
            } else if i < a.len() + b.len() {
                assert(all[i] == b[i - a.len()]);
            } else {
                assert(all[i] == c[i - a.len() - b.len()]);
            }
        }
    }
}

proof fn lemma_all_words(text: Seq<char>, segs: Seq<Seq<char>>)
    requires
        forall|i: int|
            0 <= i < segs.len() ==> (#[trigger] segs[i]).len() > 0 && has_text(text, segs[i]),
    ensures
        forall|i: int|
            0 <= i < all_words(segs).len() ==> is_word_of(text, #[trigger] all_words(segs)[i]),
    decreases segs.len(),
{
    if segs.len() > 0 {
        let rest = segs.drop_last();
        let seg = segs.last();
        assert(seg == segs[segs.len() - 1]);
        assert forall|i: int| 0 <= i < rest.len() implies (#[trigger] rest[i]).len() > 0
            && has_text(text, rest[i]) by {
            assert(rest[i] == segs[i]);
        }
        lemma_all_words(text, rest);
        lemma_segment_words(seg);
        let before = all_words(rest);
        let all = all_words(segs);
        assert forall|i: int| 0 <= i < all.len() implies is_word_of(text, #[trigger] all[i]) by {
            if i < before.len() {
                assert(all[i] == before[i]);
            } else {
                let w = segment_words(seg)[i - before.len()];
                assert(all[i] == w);
                lemma_part_of_part(text, seg, w.1);
            }
        }
    }
}

proof fn lemma_segments(text: Seq<char>)
    ensures
        forall|i: int|
            0 <= i < segments(text).len() ==> (#[trigger] segments(text)[i]).len() > 0
                && has_text(text, segments(text)[i]),
{
    let sep = |c: char| separators().contains(c);
    let parts = split_at_chars(text, sep);
    let t = |s: Seq<char>| trimmed(s);
    let p = |s: Seq<char>| s.len() > 0;
    let bare = parts.map_values(t);
    lemma_split_gives_parts(text, sep);
    assert forall|i: int| 0 <= i < segments(text).len() implies (#[trigger] segments(
        text,
    )[i]).len() > 0 && has_text(text, segments(text)[i]) by {
        let seg = segments(text)[i];
        bare.lemma_filter_pred(p, i);
        assert(bare.filter(p).contains(seg));
        bare.lemma_filter_contains_rev(p, seg);
        let k = choose|k: int| 0 <= k < bare.len() && bare[k] == seg;
        assert(seg == trimmed(parts[k]));
        lemma_trimmed_is_part(parts[k]);
        lemma_part_of_part(text, parts[k], seg);
    }
}

proof fn lemma_fresh(text: Seq<char>, words: Seq<(Seq<char>, Seq<char>)>)
    requires
        forall|i: int| 0 <= i < words.len() ==> is_word_of(text, #[trigger] words[i]),
    ensures
        forall|i: int|
            0 <= i < fresh(words).len() ==> exists|k: int|
                0 <= k < words.len() && (#[trigger] words[k]).1 == #[trigger] fresh(words)[i],
        forall|i: int, j: int|
            0 <= i < j < fresh(words).len() ==> #[trigger] fresh(words)[i]
                != #[trigger] fresh(words)[j],
    decreases words.len(),
{
    if words.len() > 0 {
        let rest = words.drop_last();
        let last = words.last();
        assert(last == words[words.len() - 1]);
        assert forall|i: int| 0 <= i < rest.len() implies is_word_of(text, #[trigger] rest[i]) by {
            assert(rest[i] == words[i]);
        }
        lemma_fresh(text, rest);
        let before = fresh(rest);
        let all = fresh(words);
        assert forall|i: int| 0 <= i < all.len() implies exists|k: int|
            0 <= k < words.len() && (#[trigger] words[k]).1 == #[trigger] all[i] by {
            if i < before.len() {
                assert(all[i] == before[i]);
                let k = choose|k: int|
                    0 <= k < rest.len() && (#[trigger] rest[k]).1 == before[i];
                assert(words[k].1 == all[i]);
            } else {
                assert(words[words.len() - 1].1 == all[i]);
            }
        }
        assert forall|i: int, j: int| 0 <= i < j < all.len() implies #[trigger] all[i]
            != #[trigger] all[j] by {
            assert(all[i] == before[i]);
            if j < before.len() {
                assert(all[j] == before[j]);
            } else {
                let k = choose|k: int|
                    0 <= k < rest.len() && (#[trigger] rest[k]).1 == before[i];
                assert(words[k] == rest[k]);
                assert(words[k].0 != last.0);
            }
        }
    }
}

/// The keywords of a text are different from one another, each is a part of the
/// text and no stop word, there are no more than were asked for, and fewer that
/// are asked for are the first of more.
pub proof fn law_keywords_are_parts_of_the_text(content: Seq<char>, m: nat, n: nat)
    requires
        m <= n,
    ensures
        ({
            let r = keywords_of(content, n);
            &&& r.len() <= n
            &&& forall|i: int, j: int|
                0 <= i < j < r.len() ==> #[trigger] r[i] != #[trigger] r[j]
            &&& forall|i: int|
                0 <= i < r.len() ==> (#[trigger] r[i]).len() > 0 && has_text(content, r[i])
                    && !is_stop_word(r[i])
            &&& keywords_of(content, m) == at_most(r, m)
        }),
{
    let words = all_words(segments(content));
    let all = fresh(words);
    let r = keywords_of(content, n);
    lemma_segments(content);
    lemma_all_words(content, segments(content));
    lemma_fresh(content, words);
    assert forall|i: int| 0 <= i < r.len() implies (#[trigger] r[i]).len() > 0 && has_text(
        content,
        r[i],
    ) && !is_stop_word(r[i]) by {
        assert(r[i] == all[i]);
        let k = choose|k: int| 0 <= k < words.len() && (#[trigger] words[k]).1 == all[i];
        assert(is_word_of(content, words[k]));
    }
    assert forall|i: int, j: int| 0 <= i < j < r.len() implies #[trigger] r[i]
        != #[trigger] r[j] by {
        assert(r[i] == all[i] && r[j] == all[j]);
    }
    assert(keywords_of(content, m) =~= at_most(r, m));
}

} // verus!
