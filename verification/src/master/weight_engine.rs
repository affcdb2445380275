//! How much each brain counts, and how that changes with what it does.

use crate::brains::{BrainId, BrainIdView};
use crate::keyed::{find_keyed, keyed_index, keyed_item, Keyed};
use crate::order::{comes_first, lemma_text_less_total, lemma_text_less_transitive, text_less};
use crate::replicate::Replicate;
use crate::seqs::{
    lemma_first_index, lemma_take_all, lemma_take_step, sorted_by,
};
use crate::shelf::{find_shelved, put_shelved, shelved_item, shelved_put, Shelved};
use crate::text::same;
use crate::walk::{
    append_all, at_most, filter_each, filter_map_each, first_items, flat_map_each, flat_mapped,
    map_each, no_items, push_one, sort_each,
};
use crate::weights::{
    clamp_weight, is_number, number_bits, rank, rank_of, weight_within, FIFTIETH, TENTH,
    TWENTIETH,
};
use vstd::prelude::*;

verus! {

/// How a brain did once.
#[derive(Debug, PartialEq)]
pub struct PerformanceRecord {
    pub brain_id: BrainId,
    pub task_type: String,
    pub relevant: bool,
    /// The bits of the confidence.
    pub confidence: u64,
    pub timestamp: i64,
}

/// What such a record is.
#[verifier::ext_equal]
pub struct PerformanceRecordView {
    pub brain_id: BrainIdView,
    pub task_type: Seq<char>,
    pub relevant: bool,
    pub confidence: u64,
    pub timestamp: i64,
}

impl DeepView for PerformanceRecord {
    type V = PerformanceRecordView;

    open spec fn deep_view(&self) -> PerformanceRecordView {
        PerformanceRecordView {
            brain_id: self.brain_id.deep_view(),
            task_type: self.task_type@,
            relevant: self.relevant,
            confidence: self.confidence,
            timestamp: self.timestamp,
        }
    }
}

impl Replicate for PerformanceRecord {
    fn replicate(&self) -> (r: Self) {
        PerformanceRecord {
            brain_id: self.brain_id.replicate(),
            task_type: self.task_type.clone(),
            relevant: self.relevant,
            confidence: self.confidence,
            timestamp: self.timestamp,
        }
    }
}

/// How a brain does at a kind of task.
#[derive(Debug, PartialEq)]
pub struct TaskTypeStats {
    pub total_tasks: u32,
    pub relevant_count: u32,
    /// The bits of the moving average of the confidence.
    pub avg_confidence: u64,
}

/// What such figures are.
#[verifier::ext_equal]
pub struct TaskTypeStatsView {
    pub total_tasks: u32,
    pub relevant_count: u32,
    pub avg_confidence: u64,
}

impl DeepView for TaskTypeStats {
    type V = TaskTypeStatsView;

    open spec fn deep_view(&self) -> TaskTypeStatsView {
        TaskTypeStatsView {
            total_tasks: self.total_tasks,
            relevant_count: self.relevant_count,
            avg_confidence: self.avg_confidence,
        }
    }
}

impl Replicate for TaskTypeStats {
    fn replicate(&self) -> (r: Self) {
        TaskTypeStats {
            total_tasks: self.total_tasks,
            relevant_count: self.relevant_count,
            avg_confidence: self.avg_confidence,
        }
    }
}

/// How a brain does at a kind of task.
#[derive(Debug, PartialEq)]
pub struct TaskStatsEntry {
    pub task_type: String,
    pub brain: String,
    pub stats: TaskTypeStats,
}

/// What such an entry is.
#[verifier::ext_equal]
pub struct TaskStatsEntryView {
    pub task_type: Seq<char>,
    pub brain: Seq<char>,
    pub stats: TaskTypeStatsView,
}

impl DeepView for TaskStatsEntry {
    type V = TaskStatsEntryView;

    open spec fn deep_view(&self) -> TaskStatsEntryView {
        TaskStatsEntryView {
            task_type: self.task_type@,
            brain: self.brain@,
            stats: self.stats.deep_view(),
        }
    }
}

impl Replicate for TaskStatsEntry {
    fn replicate(&self) -> (r: Self) {
        TaskStatsEntry {
            task_type: self.task_type.clone(),
            brain: self.brain.clone(),
            stats: self.stats.replicate(),
        }
    }
}

/// How often two brains were active together; the name that comes first in order stands first.
#[derive(Debug, PartialEq)]
pub struct PairCount {
    pub first: String,
    pub second: String,
    pub count: u32,
}

/// What such a count is.
#[verifier::ext_equal]
pub struct PairCountView {
    pub first: Seq<char>,
    pub second: Seq<char>,
    pub count: u32,
}

impl DeepView for PairCount {
    type V = PairCountView;

    open spec fn deep_view(&self) -> PairCountView {
        PairCountView {
            first: self.first@,
            second: self.second@,
            count: self.count,
        }
    }
}

impl Replicate for PairCount {
    fn replicate(&self) -> (r: Self) {
        PairCount {
            first: self.first.clone(),
            second: self.second.clone(),
            count: self.count,
        }
    }
}

/// How much a brain counts.
#[derive(Debug, PartialEq)]
pub struct BrainWeight {
    pub brain: BrainId,
    /// The bits of the weight.
    pub weight: u64,
}

/// What such a weight is.
#[verifier::ext_equal]
pub struct BrainWeightView {
    pub brain: BrainIdView,
    pub weight: u64,
}

impl DeepView for BrainWeight {
    type V = BrainWeightView;

    open spec fn deep_view(&self) -> BrainWeightView {
        BrainWeightView {
            brain: self.brain.deep_view(),
            weight: self.weight,
        }
    }
}

impl Replicate for BrainWeight {
    fn replicate(&self) -> (r: Self) {
        BrainWeight {
            brain: self.brain.replicate(),
            weight: self.weight,
        }
    }
}

impl Shelved for TaskStatsEntry {
    open spec fn category_of(v: TaskStatsEntryView) -> Seq<char> {
        v.task_type
    }

    open spec fn id_of(v: TaskStatsEntryView) -> Seq<char> {
        v.brain
    }

    fn shelf(&self) -> (r: &str) {
        self.task_type.as_str()
    }

    fn label(&self) -> (r: &str) {
        self.brain.as_str()
    }
}

impl Shelved for PairCount {
    open spec fn category_of(v: PairCountView) -> Seq<char> {
        v.first
    }

    open spec fn id_of(v: PairCountView) -> Seq<char> {
        v.second
    }

    fn shelf(&self) -> (r: &str) {
        self.first.as_str()
    }

    fn label(&self) -> (r: &str) {
        self.second.as_str()
    }
}

impl Keyed for BrainWeight {
    open spec fn key_of(v: BrainWeightView) -> Seq<char> {
        v.brain.name
    }

    fn key(&self) -> (r: &str) {
        self.brain.name.as_str()
    }
}

// ---------------------------------------------------------------------------
// Brains that are active together
// ---------------------------------------------------------------------------

/// Two names, the one that comes first in order in front.
pub open spec fn pair_of(a: Seq<char>, b: Seq<char>) -> (Seq<char>, Seq<char>) {
    if text_less(b, a) {
        (b, a)
    } else {
        (a, b)
    }
}

/// How often two brains were active together.
pub open spec fn together(m: Seq<PairCountView>, a: Seq<char>, b: Seq<char>) -> u32 {
    match shelved_item::<PairCount>(m, pair_of(a, b).0, pair_of(a, b).1) {
        Some(x) => x.count,
        None => 0,
    }
}

/// The counts once two brains were active together once more.
pub open spec fn counted(m: Seq<PairCountView>, a: Seq<char>, b: Seq<char>) -> Seq<PairCountView> {
    let p = pair_of(a, b);
    shelved_put::<PairCount>(
        m,
        PairCountView { first: p.0, second: p.1, count: (together(m, a, b) + 1) as u32 },
    )
}

/// The pairs of a name and each of some others.
pub open spec fn pairs_with(a: Seq<char>, others: Seq<Seq<char>>) -> Seq<(Seq<char>, Seq<char>)> {
    others.map_values(|b: Seq<char>| (a, b))
}

/// Each pair of names once.
pub open spec fn pairs_of(names: Seq<Seq<char>>) -> Seq<(Seq<char>, Seq<char>)>
    decreases names.len(),
{
    if names.len() == 0 {
        Seq::empty()
    } else {
        pairs_with(names[0], names.skip(1)) + pairs_of(names.skip(1))
    }
}

/// The counts once each of the pairs was active together once more.
pub open spec fn all_counted(
    m: Seq<PairCountView>,
    pairs: Seq<(Seq<char>, Seq<char>)>,
) -> Seq<PairCountView>
    decreases pairs.len(),
{
    if pairs.len() == 0 {
        m
    } else {
        counted(all_counted(m, pairs.drop_last()), pairs.last().0, pairs.last().1)
    }
}

/// No count is larger than `c`.
pub open spec fn counts_within(m: Seq<PairCountView>, c: int) -> bool {
    forall|i: int| 0 <= i < m.len() ==> (#[trigger] m[i]).count <= c
}

/// The names of brains.
pub open spec fn names_of(brains: Seq<BrainIdView>) -> Seq<Seq<char>> {
    brains.map_values(|b: BrainIdView| b.name)
}

/// The brain that a count tells of beside another, and how often.
pub open spec fn partner_in(x: PairCountView, name: Seq<char>) -> Option<(BrainIdView, u32)> {
    if x.first == name {
        Some((BrainIdView { name: x.second }, x.count))
    } else if x.second == name {
        Some((BrainIdView { name: x.first }, x.count))
    } else {
        None
    }
}

/// The brains that were active together with one.
pub open spec fn partners_of(m: Seq<PairCountView>, name: Seq<char>) -> Seq<(BrainIdView, u32)> {
    m.filter_map(|x: PairCountView| partner_in(x, name))
}

/// How often brains were active together.
pub struct CoActivationMatrix {
    pub pairs: Vec<PairCount>,
}

fn is_in_order(a: &str, b: &str) -> (r: bool)
    ensures
        r == !text_less(b@, a@),
{
    !comes_first(b, a)
}

fn list_pairs(names: &Vec<String>) -> (r: Vec<(String, String)>)
    ensures
        r.deep_view() == pairs_of(names.deep_view()),
{
    let ghost all = names.deep_view();
    let total: usize = names.len();
    let mut r: Vec<(String, String)> = no_items();
    let mut i: usize = total;
    assert(all.skip(total as int) =~= Seq::<Seq<char>>::empty());
    while i > 0
        invariant
            i <= total == names@.len(),
            all == names.deep_view(),
            r.deep_view() == pairs_of(all.skip(i as int)),
        decreases i,
    {
        i = i - 1;
        let mut own: Vec<(String, String)> = Vec::new();
        let mut j: usize = i + 1;
        let ghost rest = all.skip(i as int).skip(1);
        assert(rest =~= all.skip(i + 1));
        while j < total
            invariant
                i < j <= total == names@.len(),
                all == names.deep_view(),
                rest == all.skip(i + 1),
                own@.len() == j - i - 1,
                forall|k: int|
                    0 <= k < j - i - 1 ==> (#[trigger] own@[k]).deep_view() == (
                        all[i as int],
                        all[i + 1 + k],
                    ),
            decreases total - j,
        {
            own.push((names[i].clone(), names[j].clone()));
            j = j + 1;
        }
        assert(own.deep_view() =~= pairs_with(all[i as int], rest));
        let later = r;
        r = own;
        append_all(&mut r, later);
    }
    assert(all.skip(0) =~= all);
    r
}

impl CoActivationMatrix {
    /// No brains were active yet.
    pub fn new() -> (r: Self)
        ensures
            r.pairs.deep_view() == Seq::<PairCountView>::empty(),
    {
        CoActivationMatrix { pairs: no_items() }
    }

    /// Counts that two brains were active together once more.
    fn count_pair(&mut self, a: &str, b: &str)
        requires
            together(old(self).pairs.deep_view(), a@, b@) < u32::MAX,
        ensures
            final(self).pairs.deep_view() == counted(old(self).pairs.deep_view(), a@, b@),
    {
        let (first, second) = if is_in_order(a, b) {
            (a, b)
        } else {
            (b, a)
        };
        let count: u32 = match find_shelved(&self.pairs, first, second) {
            Some(i) => {
                assert(self.pairs.deep_view()[i as int] == self.pairs@[i as int].deep_view());
                self.pairs[i].count
            },
            None => 0,
        };
        put_shelved(
            &mut self.pairs,
            PairCount { first: first.to_owned(), second: second.to_owned(), count: count + 1 },
        );
    }

    /// Counts that brains were active together: each two of them once more. How
    /// often they can be is limited by the size of the counters.
    pub fn record_co_activation(&mut self, active_brains: &Vec<BrainId>)
        requires
            counts_within(
                old(self).pairs.deep_view(),
                u32::MAX - pairs_of(names_of(active_brains.deep_view())).len(),
            ),
            pairs_of(names_of(active_brains.deep_view())).len() <= u32::MAX,
        ensures
            final(self).pairs.deep_view() == all_counted(
                old(self).pairs.deep_view(),
                pairs_of(names_of(active_brains.deep_view())),
            ),
    {
        let f = |b: &BrainId| -> (r: String)
            ensures r.deep_view() == b.deep_view().name
        {
            b.name.clone()
        };
        let names = map_each(active_brains.as_slice(), f, Ghost(|b: BrainIdView| b.name));
        let pairs = list_pairs(&names);
        let ghost all = pairs.deep_view();
        let ghost start = self.pairs.deep_view();
        let ghost c = u32::MAX - all.len();
        let mut i: usize = 0;
        assert(all.take(0) =~= Seq::<(Seq<char>, Seq<char>)>::empty());
        while i < pairs.len()
            invariant
                i <= pairs@.len() == all.len(),
                all == pairs.deep_view(),
                c == u32::MAX - all.len(),
                self.pairs.deep_view() == all_counted(start, all.take(i as int)),
                counts_within(self.pairs.deep_view(), c + i),
                c >= 0,
            decreases pairs@.len() - i,
        {
            proof {
                lemma_take_step(all, i as int);
                assert(all[i as int] == pairs@[i as int].deep_view());
                lemma_together_within(self.pairs.deep_view(), all[i as int].0, all[i as int].1, c + i);
                lemma_counted_within(self.pairs.deep_view(), all[i as int].0, all[i as int].1, c + i);
            }
            self.count_pair(pairs[i].0.as_str(), pairs[i].1.as_str());
            i = i + 1;
        }
        proof {
            lemma_take_all(all);
        }
    }

    /// How often two brains were active together.
    pub fn get_co_activation(&self, a: &BrainId, b: &BrainId) -> (r: u32)
        ensures
            r == together(self.pairs.deep_view(), a.deep_view().name, b.deep_view().name),
    {
        let x = a.name.as_str();
        let y = b.name.as_str();
        let (first, second) = if is_in_order(x, y) {
            (x, y)
        } else {
            (y, x)
        };
        match find_shelved(&self.pairs, first, second) {
            Some(i) => {
                assert(self.pairs.deep_view()[i as int] == self.pairs@[i as int].deep_view());
                self.pairs[i].count
            },
            None => 0,
        }
    }

    /// The brains that were active together with one.
    pub fn partners(&self, brain_id: &BrainId) -> (r: Vec<(BrainId, u32)>)
        ensures
            r.deep_view() == partners_of(self.pairs.deep_view(), brain_id.deep_view().name),
    {
        let f = |x: &PairCount| -> (r: Option<(BrainId, u32)>)
            ensures r.deep_view() == partner_in(x.deep_view(), brain_id.deep_view().name)
        {
            if same(x.first.as_str(), brain_id.name.as_str()) {
                Some((BrainId { name: x.second.clone() }, x.count))
            } else if same(x.second.as_str(), brain_id.name.as_str()) {
                Some((BrainId { name: x.first.clone() }, x.count))
            } else {
                None
            }
        };
        let ghost name = brain_id.deep_view().name;
        filter_map_each(self.pairs.as_slice(), f, Ghost(|x: PairCountView| partner_in(x, name)))
    }

    /// The brains that were active together with one most often, the first `n`
    /// of them.
    pub fn top_partners(&self, brain_id: &BrainId, n: usize) -> (r: Vec<(BrainId, u32)>)
        ensures
            exists|sorted: Seq<(BrainIdView, u32)>|
                sorted_by(
                    partners_of(self.pairs.deep_view(), brain_id.deep_view().name),
                    |p: (BrainIdView, u32)| p.1 as i64,
                    true,
                    sorted,
                ) && r.deep_view() == #[trigger] at_most(sorted, n as nat),
    {
        let all = self.partners(brain_id);
        let f = |p: &(BrainId, u32)| -> (r: i64)
            ensures r == p.deep_view().1 as i64
        {
            p.1 as i64
        };
        let sorted = sort_each(
            all.as_slice(),
            f,
            true,
            Ghost(|p: (BrainIdView, u32)| p.1 as i64),
        );
        first_items(sorted.as_slice(), n)
    }
}

proof fn lemma_together_within(m: Seq<PairCountView>, a: Seq<char>, b: Seq<char>, c: int)
    requires
        counts_within(m, c),
        c >= 0,
    ensures
        together(m, a, b) <= c,
{
    let p = pair_of(a, b);
    lemma_first_index(m, crate::shelf::shelved_at::<PairCount>(p.0, p.1));
}

proof fn lemma_counted_within(m: Seq<PairCountView>, a: Seq<char>, b: Seq<char>, c: int)
    requires
        counts_within(m, c),
        0 <= c < u32::MAX,
    ensures
        counts_within(counted(m, a, b), c + 1),
{
    lemma_together_within(m, a, b, c);
    let p = pair_of(a, b);
    lemma_first_index(m, crate::shelf::shelved_at::<PairCount>(p.0, p.1));
    let after = counted(m, a, b);
    assert forall|i: int| 0 <= i < after.len() implies (#[trigger] after[i]).count <= c + 1 by {
        if i < m.len() {
            assert(m[i].count <= c);
        }
    }
}

/// The order in which two brains are named makes no difference.
pub proof fn law_together_is_symmetric(m: Seq<PairCountView>, a: Seq<char>, b: Seq<char>)
    ensures
        together(m, a, b) == together(m, b, a),
{
    lemma_text_less_total(a, b);
    if text_less(a, b) && text_less(b, a) {
        lemma_text_less_transitive(a, b, a);
        crate::order::lemma_text_less_irreflexive(a);
    }
}

/// Being active together once more adds one to the count of the two brains, and
/// to no other.
pub proof fn law_counting_adds_one(
    m: Seq<PairCountView>,
    a: Seq<char>,
    b: Seq<char>,
    x: Seq<char>,
    y: Seq<char>,
)
    requires
        together(m, a, b) < u32::MAX,
    ensures
        together(counted(m, a, b), a, b) == together(m, a, b) + 1,
        pair_of(x, y) != pair_of(a, b) ==> together(counted(m, a, b), x, y) == together(m, x, y),
{
    let p = pair_of(a, b);
    let q = pair_of(x, y);
    let e = PairCountView { first: p.0, second: p.1, count: (together(m, a, b) + 1) as u32 };
    crate::shelf::law_put_is_on_its_shelf::<PairCount>(m, e, q.0, q.1);
}

// ---------------------------------------------------------------------------
// How weights change
// ---------------------------------------------------------------------------

/// A change of a weight by an amount, given by its bits.
#[derive(Debug, Clone, Copy, PartialEq, Eq, Structural)]
pub enum Change {
    Strengthen(u64),
    Weaken(u64),
}

impl DeepView for Change {
    type V = Change;

    open spec fn deep_view(&self) -> Change {
        *self
    }
}

impl Replicate for Change {
    fn replicate(&self) -> (r: Self) {
        *self
    }
}

/// A change of the weight of a brain.
#[derive(Debug, PartialEq)]
pub struct WeightChange {
    pub brain: BrainId,
    pub change: Change,
}

/// What such a change is.
#[verifier::ext_equal]
pub struct WeightChangeView {
    pub brain: BrainIdView,
    pub change: Change,
}

impl DeepView for WeightChange {
    type V = WeightChangeView;

    open spec fn deep_view(&self) -> WeightChangeView {
        WeightChangeView {
            brain: self.brain.deep_view(),
            change: self.change,
        }
    }
}

impl Replicate for WeightChange {
    fn replicate(&self) -> (r: Self) {
        WeightChange {
            brain: self.brain.replicate(),
            change: self.change,
        }
    }
}

/// By how much a brain that did well counts more.
pub const BASE_FACTOR: u64 = TENTH;

/// By how much a brain that did nothing of use counts less.
pub const WEAKEN_FACTOR: u64 = TWENTIETH;

/// By how much a brain that did well at a kind of task counts more.
pub const TASK_TYPE_FACTOR: u64 = TWENTIETH;

/// By how much a brain that is often active with another counts more.
pub const HEBBIAN_FACTOR: u64 = FIFTIETH;

/// How often two brains must have been active together to count more.
pub const HEBBIAN_COUNT: u32 = 3;

/// For how many others a brain counts more at most.
pub const HEBBIAN_PARTNERS: usize = 3;

/// The first number is larger than the second.
pub open spec fn exceeds(a: u64, b: u64) -> bool {
    is_number(a) && is_number(b) && rank_of(a) > rank_of(b)
}

/// How the weight of a brain changes with what it did.
pub open spec fn changes_for(
    brain: BrainIdView,
    known: bool,
    relevant: bool,
    confident: bool,
) -> Seq<WeightChangeView> {
    if !known {
        Seq::empty()
    } else if relevant && confident {
        seq![
            WeightChangeView { brain, change: Change::Strengthen(BASE_FACTOR) },
            WeightChangeView { brain, change: Change::Strengthen(TASK_TYPE_FACTOR) },
        ]
    } else if !relevant {
        seq![WeightChangeView { brain, change: Change::Weaken(WEAKEN_FACTOR) }]
    } else {
        Seq::empty()
    }
}

/// For how many others a brain counts more.
pub open spec fn strong_partners(m: Seq<PairCountView>, name: Seq<char>) -> nat {
    let n = partners_of(m, name).filter(|p: (BrainIdView, u32)| p.1 >= HEBBIAN_COUNT).len();
    if n <= HEBBIAN_PARTNERS {
        n
    } else {
        HEBBIAN_PARTNERS as nat
    }
}

/// How the weight of a brain changes with those that are active with it.
pub open spec fn hebbian_changes(
    m: Seq<PairCountView>,
    weights: Seq<BrainWeightView>,
    brain: BrainIdView,
) -> Seq<WeightChangeView> {
    if keyed_item::<BrainWeight>(weights, brain.name) is Some {
        Seq::new(
            strong_partners(m, brain.name),
            |i: int| WeightChangeView { brain, change: Change::Strengthen(HEBBIAN_FACTOR) },
        )
    } else {
        Seq::empty()
    }
}

/// How the weights of brains change with those that are active with them.
pub open spec fn hebbian_of(m: Seq<PairCountView>, weights: Seq<BrainWeightView>) -> spec_fn(
    BrainIdView,
) -> Seq<WeightChangeView> {
    |b: BrainIdView| hebbian_changes(m, weights, b)
}

/// What an engine holds.
#[verifier::ext_equal]
pub struct WeightEngineView {
    pub weights: Seq<BrainWeightView>,
    pub default_weight: u64,
    pub history: Seq<PerformanceRecordView>,
    pub max_history: usize,
    pub task_stats: Seq<TaskStatsEntryView>,
    pub pairs: Seq<PairCountView>,
}

/// How much each brain counts, and what that comes from.
pub struct WeightEngine {
    pub weights: Vec<BrainWeight>,
    /// The bits of the weight of a brain that is not known.
    pub default_weight: u64,
    pub history: Vec<PerformanceRecord>,
    /// How many records are kept.
    pub max_history: usize,
    pub task_stats: Vec<TaskStatsEntry>,
    pub co_activation: CoActivationMatrix,
}

impl DeepView for WeightEngine {
    type V = WeightEngineView;

    open spec fn deep_view(&self) -> WeightEngineView {
        WeightEngineView {
            weights: self.weights.deep_view(),
            default_weight: self.default_weight,
            history: self.history.deep_view(),
            max_history: self.max_history,
            task_stats: self.task_stats.deep_view(),
            pairs: self.co_activation.pairs.deep_view(),
        }
    }
}

/// The weight of a brain.
pub open spec fn weight_of(e: WeightEngineView, name: Seq<char>) -> u64 {
    match keyed_item::<BrainWeight>(e.weights, name) {
        Some(w) => w.weight,
        None => e.default_weight,
    }
}

/// The rank of a brain's weight.
pub open spec fn weight_rank(e: WeightEngineView) -> spec_fn(BrainIdView) -> i64 {
    |b: BrainIdView| rank_of(weight_of(e, b.name))
}

/// All weights are numbers.
pub open spec fn weights_are_numbers(e: WeightEngineView) -> bool {
    is_number(e.default_weight) && forall|i: int|
        0 <= i < e.weights.len() ==> is_number((#[trigger] e.weights[i]).weight)
}

/// What a brain did.
#[verifier::ext_equal]
pub struct Deed {
    pub brain: BrainIdView,
    pub relevant: bool,
    pub confidence: u64,
    pub threshold: u64,
    pub task_type: Seq<char>,
    pub time: i64,
    /// The bits of the average confidence with this one taken in.
    pub blended: u64,
}

/// The figures of a brain at a kind of task.
pub open spec fn stats_of(e: WeightEngineView, task_type: Seq<char>, name: Seq<char>) -> Option<
    TaskTypeStatsView,
> {
    match shelved_item::<TaskStatsEntry>(e.task_stats, task_type, name) {
        Some(x) => Some(x.stats),
        None => None,
    }
}

/// No tasks yet.
pub open spec fn no_stats() -> TaskTypeStatsView {
    TaskTypeStatsView { total_tasks: 0, relevant_count: 0, avg_confidence: 0 }
}

/// The figures with one task more: the first confidence is the average, and
/// after that the average has it taken in.
pub open spec fn stats_after(s: TaskTypeStatsView, d: Deed) -> TaskTypeStatsView {
    TaskTypeStatsView {
        total_tasks: (s.total_tasks + 1) as u32,
        relevant_count: if d.relevant {
            (s.relevant_count + 1) as u32
        } else {
            s.relevant_count
        },
        avg_confidence: if s.total_tasks == 0 {
            d.confidence
        } else {
            d.blended
        },
    }
}

/// The figures of the deed's brain and kind of task.
pub open spec fn stats_before(e: WeightEngineView, d: Deed) -> TaskTypeStatsView {
    match stats_of(e, d.task_type, d.brain.name) {
        Some(s) => s,
        None => no_stats(),
    }
}

/// The last records, as many as are kept.
pub open spec fn last_kept(s: Seq<PerformanceRecordView>, max: nat) -> Seq<PerformanceRecordView> {
    if s.len() > max {
        s.skip(s.len() - max)
    } else {
        s
    }
}

/// What an engine holds after a deed.
pub open spec fn engine_after(e: WeightEngineView, d: Deed) -> WeightEngineView {
    WeightEngineView {
        history: last_kept(
            e.history.push(
                PerformanceRecordView {
                    brain_id: d.brain,
                    task_type: d.task_type,
                    relevant: d.relevant,
                    confidence: d.confidence,
                    timestamp: d.time,
                },
            ),
            e.max_history as nat,
        ),
        task_stats: shelved_put::<TaskStatsEntry>(
            e.task_stats,
            TaskStatsEntryView {
                task_type: d.task_type,
                brain: d.brain.name,
                stats: stats_after(stats_before(e, d), d),
            },
        ),
        ..e
    }
}

/// How weights change with a deed.
pub open spec fn changes_after(e: WeightEngineView, d: Deed) -> Seq<WeightChangeView> {
    changes_for(
        d.brain,
        keyed_item::<BrainWeight>(e.weights, d.brain.name) is Some,
        d.relevant,
        exceeds(d.confidence, d.threshold),
    )
}

/// The figures have room for `n` tasks more.
pub open spec fn stats_have_room(e: WeightEngineView, n: int) -> bool {
    n <= u32::MAX && forall|i: int|
        0 <= i < e.task_stats.len() ==> (#[trigger] e.task_stats[i]).stats.total_tasks + n
            <= u32::MAX && e.task_stats[i].stats.relevant_count + n <= u32::MAX
}

fn make_changes(brain: &BrainId, known: bool, relevant: bool, confident: bool) -> (r: Vec<
    WeightChange,
>)
    ensures
        r.deep_view() == changes_for(brain.deep_view(), known, relevant, confident),
{
    let mut r: Vec<WeightChange> = no_items();
    if known {
        if relevant && confident {
            push_one(
                &mut r,
                WeightChange { brain: brain.replicate(), change: Change::Strengthen(BASE_FACTOR) },
            );
            push_one(
                &mut r,
                WeightChange {
                    brain: brain.replicate(),
                    change: Change::Strengthen(TASK_TYPE_FACTOR),
                },
            );
        } else if !relevant {
            push_one(
                &mut r,
                WeightChange { brain: brain.replicate(), change: Change::Weaken(WEAKEN_FACTOR) },
            );
        }
    }
    assert(r.deep_view() =~= changes_for(brain.deep_view(), known, relevant, confident));
    r
}

/// The weights, with that of the brain, where it has one of its own, set within
/// the limits.
pub open spec fn with_weight(e: WeightEngineView, name: Seq<char>, weight: u64) -> WeightEngineView {
    WeightEngineView {
        weights: match keyed_index::<BrainWeight>(e.weights, name) {
            Some(i) => e.weights.update(
                i,
                BrainWeightView { weight: weight_within(weight), ..e.weights[i] },
            ),
            None => e.weights,
        },
        ..e
    }
}

impl WeightEngine {
    /// An engine with these weights and nothing done yet.
    pub fn new(initial: Vec<BrainWeight>, default_weight: u64) -> (r: Self)
        ensures
            r.deep_view() == (WeightEngineView {
                weights: initial.deep_view(),
                default_weight,
                history: Seq::empty(),
                max_history: 1000,
                task_stats: Seq::empty(),
                pairs: Seq::empty(),
            }),
    {
        WeightEngine {
            weights: initial,
            default_weight,
            history: no_items(),
            max_history: 1000,
            task_stats: no_items(),
            co_activation: CoActivationMatrix::new(),
        }
    }

    /// The weight of a brain.
    pub fn get(&self, id: &BrainId) -> (r: u64)
        ensures
            r == weight_of(self.deep_view(), id.deep_view().name),
    {
        match find_keyed(&self.weights, id.name.as_str()) {
            Some(i) => {
                assert(self.weights.deep_view()[i as int] == self.weights@[i as int].deep_view());
                self.weights[i].weight
            },
            None => self.default_weight,
        }
    }

    /// Sets the weight of a brain that is known, within 0.1 and 1.
    pub fn set_weight(&mut self, id: &BrainId, weight: u64)
        ensures
            final(self).deep_view() == with_weight(old(self).deep_view(), id.deep_view().name, weight),
    {
        let ghost before = self.weights.deep_view();
        if let Some(i) = find_keyed(&self.weights, id.name.as_str()) {
            let mut w = self.weights[i].replicate();
            assert(w.deep_view() == before[i as int]);
            w.weight = clamp_weight(weight);
            let ghost v = BrainWeightView { weight: weight_within(weight), ..before[i as int] };
            assert(w.deep_view() =~= v);
            self.weights.set(i, w);
            assert(self.weights.deep_view() =~= before.update(i as int, v));
        }
    }

    /// The brains by their weights, the largest first. Weights that are equal
    /// leave the order as it was.
    pub fn sort_by_weight(&self, ids: &Vec<BrainId>) -> (r: Vec<BrainId>)
        requires
            weights_are_numbers(self.deep_view()),
        ensures
            sorted_by(
                ids.deep_view(),
                weight_rank(self.deep_view()),
                true,
                r.deep_view(),
            ),
    {
        let f = |b: &BrainId| -> (r: i64)
            ensures r == rank_of(weight_of(self.deep_view(), b.deep_view().name))
        {
            rank(self.get(b))
        };
        let ghost e = self.deep_view();
        let items = ids.as_slice();
        assert(items.deep_view() =~= ids.deep_view());
        sort_each(
            items,
            f,
            true,
            Ghost(weight_rank(e)),
        )
    }

    /// Records what a brain did at a kind of task, and says how its weight
    /// changes.
    pub fn record_performance_with_task_type(
        &mut self,
        brain_id: &BrainId,
        relevant: bool,
        confidence: u64,
        threshold: u64,
        task_type: &str,
        now: i64,
        blended: u64,
    ) -> (r: Vec<WeightChange>)
        requires
            stats_have_room(old(self).deep_view(), 1),
        ensures
            ({
                let d = Deed {
                    brain: brain_id.deep_view(),
                    relevant,
                    confidence,
                    threshold,
                    task_type: task_type@,
                    time: now,
                    blended,
                };
                &&& final(self).deep_view() == engine_after(old(self).deep_view(), d)
                &&& r.deep_view() == changes_after(old(self).deep_view(), d)
            }),
    {
        let ghost e = self.deep_view();
        let ghost d = Deed {
            brain: brain_id.deep_view(),
            relevant,
            confidence,
            threshold,
            task_type: task_type@,
            time: now,
            blended,
        };
        push_one(
            &mut self.history,
            PerformanceRecord {
                brain_id: brain_id.replicate(),
                task_type: task_type.to_owned(),
                relevant,
                confidence,
                timestamp: now,
            },
        );
        let ghost all = self.history.deep_view();
        assert(all.len() == self.history@.len());
        if self.history.len() > self.max_history {
            let from: usize = self.history.len() - self.max_history;
            let kept = self.history.split_off(from);
            assert(kept.deep_view() =~= all.skip(from as int));
            self.history = kept;
        }
        let before = match find_shelved(
            &self.task_stats,
            task_type,
            brain_id.name.as_str(),
        ) {
            Some(i) => {
                assert(e.task_stats[i as int] == self.task_stats@[i as int].deep_view());
                self.task_stats[i].stats.replicate()
            },
            None => TaskTypeStats { total_tasks: 0, relevant_count: 0, avg_confidence: 0 },
        };
        let relevant_count: u32 = if relevant {
            before.relevant_count + 1
        } else {
            before.relevant_count
        };
        let avg_confidence: u64 = if before.total_tasks == 0 {
            confidence
        } else {
            blended
        };
        put_shelved(
            &mut self.task_stats,
            TaskStatsEntry {
                task_type: task_type.to_owned(),
                brain: brain_id.name.clone(),
                stats: TaskTypeStats {
                    total_tasks: before.total_tasks + 1,
                    relevant_count,
                    avg_confidence,
                },
            },
        );
        let known = find_keyed(&self.weights, brain_id.name.as_str()).is_some();
        let confident = number_bits(confidence) && number_bits(threshold) && rank(confidence)
            > rank(threshold);
        make_changes(brain_id, known, relevant, confident)
    }

    /// Records what a brain did, and says how its weight changes.
    pub fn record_performance(
        &mut self,
        brain_id: &BrainId,
        relevant: bool,
        confidence: u64,
        threshold: u64,
        now: i64,
        blended: u64,
    ) -> (r: Vec<WeightChange>)
        requires
            stats_have_room(old(self).deep_view(), 1),
        ensures
            ({
                let d = Deed {
                    brain: brain_id.deep_view(),
                    relevant,
                    confidence,
                    threshold,
                    task_type: "default"@,
                    time: now,
                    blended,
                };
                &&& final(self).deep_view() == engine_after(old(self).deep_view(), d)
                &&& r.deep_view() == changes_after(old(self).deep_view(), d)
            }),
    {
        self.record_performance_with_task_type(
            brain_id,
            relevant,
            confidence,
            threshold,
            "default",
            now,
            blended,
        )
    }

    fn make_hebbian_changes(&self, brain: &BrainId) -> (r: Vec<WeightChange>)
        ensures
            r.deep_view() == hebbian_changes(
                self.deep_view().pairs,
                self.deep_view().weights,
                brain.deep_view(),
            ),
    {
        let mut r: Vec<WeightChange> = no_items();
        if find_keyed(&self.weights, brain.name.as_str()).is_none() {
            return r;
        }
        let partners = self.co_activation.partners(brain);
        let f = |p: &(BrainId, u32)| -> (r: bool)
            ensures r == (p.deep_view().1 >= HEBBIAN_COUNT)
        {
            p.1 >= HEBBIAN_COUNT
        };
        let strong = filter_each(
            partners.as_slice(),
            f,
            Ghost(|p: (BrainIdView, u32)| p.1 >= HEBBIAN_COUNT),
        );
        assert(strong.deep_view().len() == strong@.len());
        let n: usize = if strong.len() <= HEBBIAN_PARTNERS {
            strong.len()
        } else {
            HEBBIAN_PARTNERS
        };
        let ghost v = WeightChangeView {
            brain: brain.deep_view(),
            change: Change::Strengthen(HEBBIAN_FACTOR),
        };
        let mut i: usize = 0;
        while i < n
            invariant
                i <= n,
                v == (WeightChangeView {
                    brain: brain.deep_view(),
                    change: Change::Strengthen(HEBBIAN_FACTOR),
                }),
                r.deep_view() == Seq::new(i as nat, |k: int| v),
            decreases n - i,
        {
            push_one(
                &mut r,
                WeightChange {
                    brain: brain.replicate(),
                    change: Change::Strengthen(HEBBIAN_FACTOR),
                },
            );
            i = i + 1;
            assert(r.deep_view() =~= Seq::new(i as nat, |k: int| v));
        }
        assert(r.deep_view() =~= hebbian_changes(
            self.deep_view().pairs,
            self.deep_view().weights,
            brain.deep_view(),
        ));
        r
    }

    /// Counts that brains were active together, and says how their weights
    /// change: a brain counts more for each other that it is often active with.
    pub fn record_round_co_activation(&mut self, active_brains: &Vec<BrainId>) -> (r: Vec<
        WeightChange,
    >)
        requires
            counts_within(
                old(self).deep_view().pairs,
                u32::MAX - pairs_of(names_of(active_brains.deep_view())).len(),
            ),
            pairs_of(names_of(active_brains.deep_view())).len() <= u32::MAX,
        ensures
            ({
                let pairs = all_counted(
                    old(self).deep_view().pairs,
                    pairs_of(names_of(active_brains.deep_view())),
                );
                let weights = old(self).deep_view().weights;
                &&& final(self).deep_view() == (WeightEngineView { pairs, ..old(self).deep_view() })
                &&& r.deep_view() == flat_mapped(
                    active_brains.deep_view(),
                    hebbian_of(pairs, weights),
                )
            }),
    {
        self.co_activation.record_co_activation(active_brains);
        let engine: &WeightEngine = self;
        let ghost pairs = engine.deep_view().pairs;
        let ghost weights = engine.deep_view().weights;
        let f = |b: &BrainId| -> (r: Vec<WeightChange>)
            ensures
                r.deep_view() == hebbian_changes(
                    engine.deep_view().pairs,
                    engine.deep_view().weights,
                    b.deep_view(),
                )
        {
            engine.make_hebbian_changes(b)
        };
        flat_map_each(
            active_brains.as_slice(),
            f,
            Ghost(hebbian_of(pairs, weights)),
        )
    }

    /// The figures of a brain at a kind of task.
    pub fn get_task_stats(&self, task_type: &str, brain_id: &BrainId) -> (r: Option<TaskTypeStats>)
        ensures
            r.deep_view() == stats_of(self.deep_view(), task_type@, brain_id.deep_view().name),
    {
        match find_shelved(&self.task_stats, task_type, brain_id.name.as_str()) {
            Some(i) => {
                assert(self.task_stats.deep_view()[i as int]
                    == self.task_stats@[i as int].deep_view());
                Some(self.task_stats[i].stats.replicate())
            },
            None => None,
        }
    }

    /// How often two brains were active together.
    pub fn get_co_activation(&self, a: &BrainId, b: &BrainId) -> (r: u32)
        ensures
            r == together(self.deep_view().pairs, a.deep_view().name, b.deep_view().name),
    {
        self.co_activation.get_co_activation(a, b)
    }

    /// All weights.
    pub fn all_weights(&self) -> (r: &Vec<BrainWeight>)
        ensures
            r.deep_view() == self.deep_view().weights,
    {
        &self.weights
    }

    /// What brains did, the last records of it.
    pub fn history(&self) -> (r: &Vec<PerformanceRecord>)
        ensures
            r.deep_view() == self.deep_view().history,
    {
        &self.history
    }
}

/// The history never has more records than are kept, and the deed that was
/// recorded last is its last, where any is kept.
pub proof fn law_history_is_bounded(e: WeightEngineView, d: Deed)
    requires
        e.history.len() <= e.max_history,
    ensures
        engine_after(e, d).history.len() <= engine_after(e, d).max_history,
        e.max_history > 0 ==> engine_after(e, d).history.last().brain_id == d.brain,
{
}

/// A deed counts once among the tasks of its brain and kind, and changes no
/// other figures.
pub proof fn law_deed_counts_once(
    e: WeightEngineView,
    d: Deed,
    task_type: Seq<char>,
    name: Seq<char>,
)
    requires
        stats_have_room(e, 1),
    ensures
        stats_of(engine_after(e, d), d.task_type, d.brain.name) is Some,
        stats_of(engine_after(e, d), d.task_type, d.brain.name)->0.total_tasks == stats_before(
            e,
            d,
        ).total_tasks + 1,
        (task_type != d.task_type || name != d.brain.name) ==> stats_of(
            engine_after(e, d),
            task_type,
            name,
        ) == stats_of(e, task_type, name),
{
    let x = TaskStatsEntryView {
        task_type: d.task_type,
        brain: d.brain.name,
        stats: stats_after(stats_before(e, d), d),
    };
    lemma_first_index(
        e.task_stats,
        crate::shelf::shelved_at::<TaskStatsEntry>(d.task_type, d.brain.name),
    );
    crate::shelf::law_put_is_on_its_shelf::<TaskStatsEntry>(e.task_stats, x, task_type, name);
}

} // verus!
