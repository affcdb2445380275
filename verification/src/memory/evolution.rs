//! The rules that are kept.

use crate::keyed::{
    distinct_keys, find_keyed, keyed_index, keyed_put, keyed_put_all, law_put_all_replaces, put_all,
    put_keyed, Keyed,
};
use crate::memory::novel::canon::has_string;
use crate::memory::types::{EvolutionRule, EvolutionRuleView};
use crate::paths::{join_path, path_of};
use crate::replicate::Replicate;
use crate::seqs::{
    first_index, lemma_first_index, lemma_take_all, lemma_take_step,
};
use crate::text::{
    lemma_signed_decimal_tells_apart, lowercase_of, same, signed_decimal, signed_number, trim,
    trimmed,
};
use crate::walk::{filter_each, no_items, position, push_one};
use vstd::prelude::*;

verus! {

/// A rule that an analysis found.
#[derive(Debug, PartialEq)]
pub struct NewEvolutionRule {
    pub rule: String,
    pub source_pitfall_ids: Vec<String>,
    pub priority: u8,
}

/// What such a rule is.
#[verifier::ext_equal]
pub struct NewEvolutionRuleView {
    pub rule: Seq<char>,
    pub source_pitfall_ids: Seq<Seq<char>>,
    pub priority: u8,
}

impl DeepView for NewEvolutionRule {
    type V = NewEvolutionRuleView;

    open spec fn deep_view(&self) -> NewEvolutionRuleView {
        NewEvolutionRuleView {
            rule: self.rule@,
            source_pitfall_ids: self.source_pitfall_ids.deep_view(),
            priority: self.priority,
        }
    }
}

impl Replicate for NewEvolutionRule {
    fn replicate(&self) -> (r: Self) {
        NewEvolutionRule {
            rule: self.rule.clone(),
            source_pitfall_ids: self.source_pitfall_ids.replicate(),
            priority: self.priority,
        }
    }
}

impl Keyed for EvolutionRule {
    open spec fn key_of(v: EvolutionRuleView) -> Seq<char> {
        v.id
    }

    fn key(&self) -> (r: &str) {
        self.id.as_str()
    }
}

/// The rules that are kept, each under its id.
pub struct EvolutionStore {
    pub base_dir: String,
    pub rules: Vec<EvolutionRule>,
}

/// Where the rule with a text stands; the case of letters and the white space
/// around do not matter.
pub open spec fn worded(rules: Seq<EvolutionRuleView>, rule: Seq<char>) -> Option<int> {
    first_index(
        rules,
        |r: EvolutionRuleView| lowercase_of(trimmed(r.rule)) == lowercase_of(trimmed(rule)),
    )
}

/// `have` and those of `more` that are not there yet.
pub open spec fn united(have: Seq<Seq<char>>, more: Seq<Seq<char>>) -> Seq<Seq<char>>
    decreases more.len(),
{
    if more.len() == 0 {
        have
    } else {
        let before = united(have, more.drop_last());
        if before.contains(more.last()) {
            before
        } else {
            before.push(more.last())
        }
    }
}

/// The id of a rule that was found at `time`.
pub open spec fn rule_id(time: i64) -> Seq<char> {
    "evo-"@ + signed_decimal(time as int)
}

/// A new rule that was found at `time`.
pub open spec fn first_rule(n: NewEvolutionRuleView, time: i64) -> EvolutionRuleView {
    EvolutionRuleView {
        id: rule_id(time),
        rule: n.rule,
        source_pitfall_ids: n.source_pitfall_ids,
        priority: n.priority,
        created_at: time,
        superseded: false,
    }
}

/// A rule that was found once more: the higher priority counts, and the
/// sources of both.
pub open spec fn strengthened(r: EvolutionRuleView, n: NewEvolutionRuleView) -> EvolutionRuleView {
    EvolutionRuleView {
        priority: if n.priority > r.priority {
            n.priority
        } else {
            r.priority
        },
        source_pitfall_ids: united(r.source_pitfall_ids, n.source_pitfall_ids),
        ..r
    }
}

/// The rules after one more, and that rule as it is kept.
pub open spec fn merged_rule(
    rules: Seq<EvolutionRuleView>,
    n: NewEvolutionRuleView,
    time: i64,
) -> (Seq<EvolutionRuleView>, EvolutionRuleView) {
    match worded(rules, n.rule) {
        Some(i) => (rules.update(i, strengthened(rules[i], n)), strengthened(rules[i], n)),
        None => (rules.push(first_rule(n, time)), first_rule(n, time)),
    }
}

/// The rules after several more, and these as they are kept.
pub open spec fn merged_rules(
    rules: Seq<EvolutionRuleView>,
    new: Seq<NewEvolutionRuleView>,
    times: Seq<i64>,
) -> (Seq<EvolutionRuleView>, Seq<EvolutionRuleView>)
    decreases new.len(),
{
    if new.len() == 0 {
        (rules, Seq::empty())
    } else {
        let before = merged_rules(rules, new.drop_last(), times);
        let after = merged_rule(before.0, new.last(), times[new.len() - 1]);
        (after.0, before.1.push(after.1))
    }
}

/// The rules with `x` behind the last one whose priority is not lower.
pub open spec fn ranked(rules: Seq<EvolutionRuleView>, x: EvolutionRuleView) -> Seq<
    EvolutionRuleView,
>
    decreases rules.len(),
{
    if rules.len() > 0 && rules.last().priority < x.priority {
        ranked(rules.drop_last(), x).push(rules.last())
    } else {
        rules.push(x)
    }
}

/// The rules by falling priority, those of one priority as they stood.
pub open spec fn by_priority(rules: Seq<EvolutionRuleView>) -> Seq<EvolutionRuleView>
    decreases rules.len(),
{
    if rules.len() == 0 {
        Seq::empty()
    } else {
        ranked(by_priority(rules.drop_last()), rules.last())
    }
}

/// The rules that were not replaced, by falling priority.
pub open spec fn active_rules(rules: Seq<EvolutionRuleView>) -> Seq<EvolutionRuleView> {
    by_priority(rules.filter(|x: EvolutionRuleView| !x.superseded))
}

fn insert_ranked(rules: &mut Vec<EvolutionRule>, x: EvolutionRule)
    ensures
        final(rules).deep_view() == ranked(old(rules).deep_view(), x.deep_view()),
{
    let ghost before = rules.deep_view();
    let ghost v = x.deep_view();
    let mut p: usize = rules.len();
    assert(before.take(p as int) =~= before);
    assert(ranked(before.take(p as int), v) + before.skip(p as int) =~= ranked(before, v));
    while p > 0 && rules[p - 1].priority < x.priority
        invariant
            p <= rules@.len(),
            before == rules.deep_view(),
            v == x.deep_view(),
            ranked(before.take(p as int), v) + before.skip(p as int) == ranked(before, v),
        decreases p,
    {
        proof {
            let t = before.take(p as int);
            assert(t.last() == rules@[p - 1].deep_view());
            assert(t.drop_last() =~= before.take(p - 1));
            assert(ranked(t, v) + before.skip(p as int) =~= ranked(before.take(p - 1), v)
                + before.skip(p - 1));
        }
        p = p - 1;
    }
    proof {
        let t = before.take(p as int);
        if p > 0 {
            assert(t.last() == rules@[p - 1].deep_view());
        }
        assert(ranked(before, v) =~= before.insert(p as int, v));
    }
    rules.insert(p, x);
    assert(rules.deep_view() =~= before.insert(p as int, v));
}

fn sort_by_priority(rules: &Vec<EvolutionRule>) -> (r: Vec<EvolutionRule>)
    ensures
        r.deep_view() == by_priority(rules.deep_view()),
{
    let ghost all = rules.deep_view();
    let mut r: Vec<EvolutionRule> = no_items();
    let mut i: usize = 0;
    assert(all.take(0) =~= Seq::<EvolutionRuleView>::empty());
    while i < rules.len()
        invariant
            i <= rules@.len(),
            all == rules.deep_view(),
            r.deep_view() == by_priority(all.take(i as int)),
        decreases rules@.len() - i,
    {
        proof {
            lemma_take_step(all, i as int);
            assert(all[i as int] == rules@[i as int].deep_view());
        }
        insert_ranked(&mut r, rules[i].replicate());
        i = i + 1;
    }
    proof {
        lemma_take_all(all);
    }
    r
}

/// Copies of the rules that were not replaced, by falling priority.
pub fn find_active_rules(rules: &Vec<EvolutionRule>) -> (r: Vec<EvolutionRule>)
    ensures
        r.deep_view() == active_rules(rules.deep_view()),
{
    let f = |x: &EvolutionRule| -> (r: bool)
        ensures r == !x.deep_view().superseded
    {
        !x.superseded
    };
    let active = filter_each(
        rules.as_slice(),
        f,
        Ghost(|x: EvolutionRuleView| !x.superseded),
    );
    sort_by_priority(&active)
}

pub(crate) fn unite(have: &Vec<String>, more: &Vec<String>) -> (r: Vec<String>)
    ensures
        r.deep_view() == united(have.deep_view(), more.deep_view()),
{
    let ghost all = more.deep_view();
    let mut r = have.replicate();
    let mut i: usize = 0;
    assert(all.take(0) =~= Seq::<Seq<char>>::empty());
    while i < more.len()
        invariant
            i <= more@.len(),
            all == more.deep_view(),
            r.deep_view() == united(have.deep_view(), all.take(i as int)),
        decreases more@.len() - i,
    {
        proof {
            lemma_take_step(all, i as int);
            assert(all[i as int] == more@[i as int]@);
        }
        if !has_string(&r, more[i].as_str()) {
            push_one(&mut r, more[i].clone());
        }
        i = i + 1;
    }
    proof {
        lemma_take_all(all);
    }
    r
}

fn find_worded(rules: &Vec<EvolutionRule>, rule: &str) -> (r: Option<usize>)
    ensures
        match r {
            Some(i) => i < rules@.len() && worded(rules.deep_view(), rule@) == Some(i as int),
            None => worded(rules.deep_view(), rule@) is None,
        },
{
    let wanted = trim(rule);
    let wanted = wanted.as_str().to_lowercase();
    let f = |r: &EvolutionRule| -> (b: bool)
        ensures
            b == (lowercase_of(trimmed(r.deep_view().rule)) == lowercase_of(trimmed(rule@)))
    {
        let own = trim(r.rule.as_str());
        let own = own.as_str().to_lowercase();
        same(own.as_str(), wanted.as_str())
    };
    position(
        rules.as_slice(),
        f,
        Ghost(
            |r: EvolutionRuleView| lowercase_of(trimmed(r.rule)) == lowercase_of(trimmed(rule@)),
        ),
    )
}

/// The rules, with the one under the id marked as replaced.
pub open spec fn rule_given_up(s: Seq<EvolutionRuleView>, id: Seq<char>) -> Seq<EvolutionRuleView> {
    match keyed_index::<EvolutionRule>(s, id) {
        Some(i) => s.update(i, EvolutionRuleView { superseded: true, ..s[i] }),
        None => s,
    }
}

impl EvolutionStore {
    /// A store below `base_dir` with no rules yet.
    pub fn new(base_dir: &str) -> (r: Self)
        ensures
            r.base_dir@ == base_dir@,
            r.rules.deep_view() == Seq::<EvolutionRuleView>::empty(),
    {
        EvolutionStore { base_dir: base_dir.to_owned(), rules: no_items() }
    }

    /// Where the store is.
    pub fn base_dir(&self) -> (r: &str)
        ensures
            r@ == self.base_dir@,
    {
        self.base_dir.as_str()
    }

    /// The directory of the rules.
    pub fn evolution_dir(&self) -> (r: String)
        ensures
            r@ == path_of(path_of(self.base_dir@, "memory"@), "evolution"@),
    {
        let memory = join_path(self.base_dir.as_str(), "memory");
        join_path(memory.as_str(), "evolution")
    }

    /// Keeps a rule in place of the one with its id.
    pub fn store(&mut self, rule: &EvolutionRule)
        ensures
            final(self).base_dir == old(self).base_dir,
            final(self).rules.deep_view() == keyed_put::<EvolutionRule>(
                old(self).rules.deep_view(),
                rule.deep_view(),
            ),
    {
        put_keyed(&mut self.rules, rule.replicate());
    }

    /// All rules.
    pub fn load_all(&self) -> (r: Vec<EvolutionRule>)
        ensures
            r.deep_view() == self.rules.deep_view(),
    {
        self.rules.replicate()
    }

    /// All rules, by falling priority.
    pub fn load_sorted_by_priority(&self) -> (r: Vec<EvolutionRule>)
        ensures
            r.deep_view() == by_priority(self.rules.deep_view()),
    {
        sort_by_priority(&self.rules)
    }

    /// The rules of a priority or a higher one.
    pub fn load_high_priority(&self, min_priority: u8) -> (r: Vec<EvolutionRule>)
        ensures
            r.deep_view() == self.rules.deep_view().filter(
                |x: EvolutionRuleView| x.priority >= min_priority,
            ),
    {
        let f = |x: &EvolutionRule| -> (r: bool)
            ensures r == (x.deep_view().priority >= min_priority)
        {
            x.priority >= min_priority
        };
        filter_each(
            self.rules.as_slice(),
            f,
            Ghost(|x: EvolutionRuleView| x.priority >= min_priority),
        )
    }

    /// Merges rules that an analysis found, each at its time: one whose text is
    /// there keeps the higher priority and the sources of both, any other is
    /// new. Gives these rules as they are kept.
    pub fn merge_analysis(
        &mut self,
        new_rules: &Vec<NewEvolutionRule>,
        times: &Vec<i64>,
    ) -> (r: Vec<EvolutionRule>)
        requires
            times@.len() == new_rules@.len(),
        ensures
            final(self).base_dir == old(self).base_dir,
            ({
                let m = merged_rules(old(self).rules.deep_view(), new_rules.deep_view(), times@);
                r.deep_view() == m.1 && final(self).rules.deep_view() == keyed_put_all::<
                    EvolutionRule,
                >(old(self).rules.deep_view(), m.0)
            }),
    {
        let ghost start = self.rules.deep_view();
        let ghost all = new_rules.deep_view();
        let total: usize = new_rules.len();
        let mut existing = self.rules.replicate();
        let mut r: Vec<EvolutionRule> = no_items();
        let mut i: usize = 0;
        assert(all.take(0) =~= Seq::<NewEvolutionRuleView>::empty());
        while i < total
            invariant
                i <= total == new_rules@.len() == times@.len(),
                all == new_rules.deep_view(),
                (existing.deep_view(), r.deep_view()) == merged_rules(
                    start,
                    all.take(i as int),
                    times@,
                ),
            decreases total - i,
        {
            let n = &new_rules[i];
            let ghost before = existing.deep_view();
            proof {
                lemma_take_step(all, i as int);
                assert(all[i as int] == n.deep_view());
            }
            match find_worded(&existing, n.rule.as_str()) {
                Some(k) => {
                    assert(before[k as int] == existing@[k as int].deep_view());
                    let mut rule = existing[k].replicate();
                    if n.priority > rule.priority {
                        rule.priority = n.priority;
                    }
                    rule.source_pitfall_ids = unite(
                        &rule.source_pitfall_ids,
                        &n.source_pitfall_ids,
                    );
                    assert(rule.deep_view() =~= strengthened(before[k as int], n.deep_view()));
                    push_one(&mut r, rule.replicate());
                    existing.set(k, rule);
                    assert(existing.deep_view() =~= before.update(k as int, rule.deep_view()));
                },
                None => {
                    let time: i64 = times[i];
                    let mut id = "evo-".to_owned();
                    let t = signed_number(time);
                    id.append(t.as_str());
                    let rule = EvolutionRule {
                        id,
                        rule: n.rule.clone(),
                        source_pitfall_ids: n.source_pitfall_ids.replicate(),
                        priority: n.priority,
                        created_at: time,
                        superseded: false,
                    };
                    push_one(&mut r, rule.replicate());
                    push_one(&mut existing, rule);
                },
            }
            i = i + 1;
        }
        proof {
            lemma_take_all(all);
        }
        put_all(&mut self.rules, &existing);
        r
    }

    /// How many rules there are.
    pub fn count(&self) -> (r: usize)
        ensures
            r == self.rules.deep_view().len(),
    {
        self.rules.len()
    }

    /// Marks the rule with the id as replaced, where there is one.
    pub fn mark_superseded(&mut self, id: &str)
        ensures
            final(self).base_dir == old(self).base_dir,
            final(self).rules.deep_view() == rule_given_up(old(self).rules.deep_view(), id@),
    {
        if let Some(i) = find_keyed(&self.rules, id) {
            let ghost before = self.rules.deep_view();
            let mut rule = self.rules[i].replicate();
            rule.superseded = true;
            self.rules.set(i, rule);
            assert(before[i as int] == old(self).rules@[i as int].deep_view());
            assert(rule.deep_view() =~= (EvolutionRuleView {
                superseded: true,
                ..before[i as int]
            }));
            assert(self.rules.deep_view() =~= before.update(i as int, rule.deep_view()));
        }
    }

    /// The rules that were not replaced, by falling priority.
    pub fn load_active(&self) -> (r: Vec<EvolutionRule>)
        ensures
            r.deep_view() == active_rules(self.rules.deep_view()),
    {
        find_active_rules(&self.rules)
    }
}

proof fn lemma_rule_ids(a: i64, b: i64)
    requires
        rule_id(a) == rule_id(b),
    ensures
        a == b,
{
    let n = "evo-"@.len() as int;
    assert(rule_id(a).skip(n) =~= signed_decimal(a as int));
    assert(rule_id(b).skip(n) =~= signed_decimal(b as int));
    lemma_signed_decimal_tells_apart(a as int, b as int);
}

/// None of the times is that of another or gives a rule an id that is taken.
pub open spec fn fresh_times(rules: Seq<EvolutionRuleView>, times: Seq<i64>) -> bool {
    &&& times.no_duplicates()
    &&& forall|i: int, k: int|
        0 <= i < rules.len() && 0 <= k < times.len() ==> (#[trigger] rules[i]).id != rule_id(
            #[trigger] times[k],
        )
}

/// The rules from `n` on were found at times among the first `m`.
spec fn found_at(rules: Seq<EvolutionRuleView>, times: Seq<i64>, n: int, m: int) -> bool {
    forall|i: int|
        n <= i < rules.len() ==> exists|k: int|
            0 <= k < m && (#[trigger] rules[i]).id == rule_id(#[trigger] times[k])
}

proof fn lemma_merged_rules(
    rules: Seq<EvolutionRuleView>,
    new: Seq<NewEvolutionRuleView>,
    times: Seq<i64>,
)
    requires
        distinct_keys::<EvolutionRule>(rules),
        fresh_times(rules, times),
        new.len() <= times.len(),
    ensures
        ({
            let m = merged_rules(rules, new, times);
            &&& distinct_keys::<EvolutionRule>(m.0)
            &&& m.1.len() == new.len()
            &&& m.0.len() >= rules.len()
            &&& forall|i: int|
                0 <= i < rules.len() ==> (#[trigger] m.0[i]).rule == rules[i].rule && m.0[i].id
                    == rules[i].id && m.0[i].priority >= rules[i].priority
            &&& found_at(m.0, times, rules.len() as int, new.len() as int)
            &&& forall|j: int|
                0 <= j < new.len() ==> worded(m.0, (#[trigger] new[j]).rule) is Some
        }),
    decreases new.len(),
{
    if new.len() > 0 {
        let rest = new.drop_last();
        lemma_merged_rules(rules, rest, times);
        let before = merged_rules(rules, rest, times).0;
        let m = merged_rules(rules, new, times).0;
        let n = new.last();
        let time = times[new.len() - 1];
        let p = |r: EvolutionRuleView|
            lowercase_of(trimmed(r.rule)) == lowercase_of(trimmed(n.rule));
        lemma_first_index(before, p);
        assert forall|i: int| 0 <= i < before.len() implies (#[trigger] m[i]).id == before[i].id
            && m[i].rule == before[i].rule by {}
        assert forall|i: int, j: int| 0 <= i < j < m.len() implies EvolutionRule::key_of(
            #[trigger] m[i],
        ) != EvolutionRule::key_of(#[trigger] m[j]) by {
            if j < before.len() {
                assert(EvolutionRule::key_of(before[i]) != EvolutionRule::key_of(before[j]));
            } else {
                assert(m[j].id == rule_id(time));
                if i < rules.len() {
                    assert(rules[i].id != rule_id(times[new.len() - 1]));
                } else {
                    let k = choose|k: int|
                        0 <= k < rest.len() && before[i].id == rule_id(#[trigger] times[k]);
                    if rule_id(times[k]) == rule_id(time) {
                        lemma_rule_ids(times[k], time);
                    }
                }
            }
        }
        assert forall|i: int| rules.len() <= i < m.len() implies exists|k: int|
            0 <= k < new.len() && (#[trigger] m[i]).id == rule_id(#[trigger] times[k]) by {
            if i < before.len() {
                let k = choose|k: int|
                    0 <= k < rest.len() && before[i].id == rule_id(#[trigger] times[k]);
                assert(m[i].id == rule_id(times[k]));
            } else {
                assert(m[i].id == rule_id(times[new.len() - 1]));
            }
        }
        assert forall|j: int| 0 <= j < new.len() implies worded(
            m,
            (#[trigger] new[j]).rule,
        ) is Some by {
            let q = |r: EvolutionRuleView|
                lowercase_of(trimmed(r.rule)) == lowercase_of(trimmed(new[j].rule));
            lemma_first_index(before, q);
            lemma_first_index(m, q);
            if j < rest.len() {
                assert(rest[j] == new[j]);
                let at = worded(before, new[j].rule)->0;
                assert(q(m[at]));
            } else {
                let at = match worded(before, n.rule) {
                    Some(i) => i,
                    None => before.len() as int,
                };
                assert(q(m[at]));
            }
        }
    }
}

/// Merging loses no rule from the store. Where no two times are equal and none
/// gives an id that is taken, all rules that were there are there under their
/// ids and with their texts, the priority of none is lower, each new rule is
/// there by its text, and no two have one id.
pub proof fn law_merging_keeps_rules(
    rules: Seq<EvolutionRuleView>,
    new: Seq<NewEvolutionRuleView>,
    times: Seq<i64>,
)
    requires
        distinct_keys::<EvolutionRule>(rules),
        times.len() == new.len(),
        fresh_times(rules, times),
    ensures
        ({
            let m = merged_rules(rules, new, times);
            let after = keyed_put_all::<EvolutionRule>(rules, m.0);
            &&& after == m.0
            &&& distinct_keys::<EvolutionRule>(after)
            &&& m.1.len() == new.len()
            &&& after.len() >= rules.len()
            &&& forall|i: int|
                0 <= i < rules.len() ==> (#[trigger] after[i]).rule == rules[i].rule && after[i].id
                    == rules[i].id && after[i].priority >= rules[i].priority
            &&& forall|j: int|
                0 <= j < new.len() ==> worded(after, (#[trigger] new[j]).rule) is Some
        }),
{
    lemma_merged_rules(rules, new, times);
    law_put_all_replaces::<EvolutionRule>(rules, merged_rules(rules, new, times).0);
}

/// The rules of a priority.
pub open spec fn of_priority(n: u8) -> spec_fn(EvolutionRuleView) -> bool {
    |x: EvolutionRuleView| x.priority == n
}

/// No rule stands before one of a higher priority.
pub open spec fn falls(rules: Seq<EvolutionRuleView>) -> bool {
    forall|i: int, j: int|
        0 <= i < j < rules.len() ==> (#[trigger] rules[i]).priority >= (
        #[trigger] rules[j]).priority
}

proof fn lemma_ranked(rules: Seq<EvolutionRuleView>, x: EvolutionRuleView, n: u8)
    requires
        falls(rules),
    ensures
        falls(ranked(rules, x)),
        ranked(rules, x).len() == rules.len() + 1,
        ranked(rules, x).filter(of_priority(n)) == rules.push(x).filter(of_priority(n)),
        ranked(rules, x).to_multiset() =~= rules.to_multiset().insert(x),
        forall|i: int|
            0 <= i < ranked(rules, x).len() ==> (#[trigger] ranked(rules, x)[i]).priority
                >= x.priority || (rules.len() > 0 && ranked(rules, x)[i].priority
                >= rules.last().priority),
    decreases rules.len(),
{
    reveal(Seq::filter);
    broadcast use vstd::seq_lib::group_to_multiset_ensures;

    let q = of_priority(n);
    let r = ranked(rules, x);
    assert(rules.push(x).drop_last() =~= rules);
    if rules.len() > 0 && rules.last().priority < x.priority {
        let rest = rules.drop_last();
        let last = rules.last();
        assert(falls(rest)) by {
            assert forall|i: int, j: int| 0 <= i < j < rest.len() implies (
            #[trigger] rest[i]).priority >= (#[trigger] rest[j]).priority by {
                assert(rest[i] == rules[i] && rest[j] == rules[j]);
            }
        }
        lemma_ranked(rest, x, n);
        let t = ranked(rest, x);
        assert(r.drop_last() =~= t);
        assert(rest.push(x).drop_last() =~= rest);
        assert(rules =~= rest.push(last));
        assert forall|i: int| 0 <= i < t.len() implies (#[trigger] t[i]).priority
            >= last.priority by {
            if rest.len() > 0 {
                assert(rules[rest.len() - 1].priority >= rules[rules.len() - 1].priority);
            }
        }
        assert forall|i: int, j: int| 0 <= i < j < r.len() implies (#[trigger] r[i]).priority >= (
        #[trigger] r[j]).priority by {
            if j < t.len() {
                assert(t[i].priority >= t[j].priority);
            }
        }
        assert(rules.filter(q) == if q(last) {
            rest.filter(q).push(last)
        } else {
            rest.filter(q)
        });
        assert(rest.push(x).filter(q) == if q(x) {
            rest.filter(q).push(x)
        } else {
            rest.filter(q)
        });
        assert(r.filter(q) =~= rules.push(x).filter(q));
    } else {
        assert forall|i: int, j: int| 0 <= i < j < r.len() implies (#[trigger] r[i]).priority >= (
        #[trigger] r[j]).priority by {
            if j == rules.len() && i < rules.len() {
                assert(rules[i].priority >= rules.last().priority);
            }
        }
    }
}

/// By falling priority there are the same rules, no rule stands before one of a
/// higher priority, and those of one priority stand as they stood.
pub proof fn law_sorted_by_priority(rules: Seq<EvolutionRuleView>, n: u8)
    ensures
        by_priority(rules).len() == rules.len(),
        by_priority(rules).to_multiset() == rules.to_multiset(),
        falls(by_priority(rules)),
        by_priority(rules).filter(of_priority(n)) == rules.filter(of_priority(n)),
    decreases rules.len(),
{
    reveal(Seq::filter);
    broadcast use vstd::seq_lib::group_to_multiset_ensures;

    if rules.len() > 0 {
        let rest = rules.drop_last();
        let x = rules.last();
        law_sorted_by_priority(rest, n);
        lemma_ranked(by_priority(rest), x, n);
        assert(by_priority(rest).push(x).drop_last() =~= by_priority(rest));
        assert(rules =~= rest.push(x));
    }
}

} // verus!
