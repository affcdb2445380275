//! Making lasting memory of what was kept for a short time.

use crate::brains::{MemoryEntry, MemoryEntryView};
use crate::keyed::{keyed_put, put_keyed, Keyed};
use crate::memory::event_index::{
    event_added, EventDayView, EventEntry, EventEntryView, EventIndexLayer,
};
use crate::memory::experience_pack::{MistakeEntry, MistakeEntryView};
use crate::replicate::Replicate;
use crate::seqs::{lemma_take_all, lemma_take_step};
use crate::text::{
    contains, has_text, join, joined, split_any, split_at_chars, trim, trimmed,
};
use crate::times::{date_of, write_date};
use crate::walk::{filter_each, map_each, no_items, push_one};
use crate::weights::{rank, rank_of, FOUR_FIFTHS};
use vstd::prelude::*;

verus! {

/// The summary of a task.
#[derive(Debug, PartialEq)]
pub struct TaskSummary {
    pub id: String,
    pub task_description: String,
    pub trigger_pattern: String,
    pub reasoning_path: Vec<String>,
    pub mistakes: Vec<MistakeEntry>,
    pub files_modified: Vec<String>,
    pub tools_used: Vec<String>,
    /// The bits of how often it succeeds.
    pub success_rate: u64,
    pub shortcuts: Vec<String>,
    pub created_at: i64,
}

/// What such a summary is.
#[verifier::ext_equal]
pub struct TaskSummaryView {
    pub id: Seq<char>,
    pub task_description: Seq<char>,
    pub trigger_pattern: Seq<char>,
    pub reasoning_path: Seq<Seq<char>>,
    pub mistakes: Seq<MistakeEntryView>,
    pub files_modified: Seq<Seq<char>>,
    pub tools_used: Seq<Seq<char>>,
    pub success_rate: u64,
    pub shortcuts: Seq<Seq<char>>,
    pub created_at: i64,
}

impl DeepView for TaskSummary {
    type V = TaskSummaryView;

    open spec fn deep_view(&self) -> TaskSummaryView {
        TaskSummaryView {
            id: self.id@,
            task_description: self.task_description@,
            trigger_pattern: self.trigger_pattern@,
            reasoning_path: self.reasoning_path.deep_view(),
            mistakes: self.mistakes.deep_view(),
            files_modified: self.files_modified.deep_view(),
            tools_used: self.tools_used.deep_view(),
            success_rate: self.success_rate,
            shortcuts: self.shortcuts.deep_view(),
            created_at: self.created_at,
        }
    }
}

impl Replicate for TaskSummary {
    fn replicate(&self) -> (r: Self) {
        TaskSummary {
            id: self.id.clone(),
            task_description: self.task_description.clone(),
            trigger_pattern: self.trigger_pattern.clone(),
            reasoning_path: self.reasoning_path.replicate(),
            mistakes: self.mistakes.replicate(),
            files_modified: self.files_modified.replicate(),
            tools_used: self.tools_used.replicate(),
            success_rate: self.success_rate,
            shortcuts: self.shortcuts.replicate(),
            created_at: self.created_at,
        }
    }
}

impl Keyed for TaskSummary {
    open spec fn key_of(v: TaskSummaryView) -> Seq<char> {
        v.id
    }

    fn key(&self) -> (r: &str) {
        self.id.as_str()
    }
}

/// What a round of consolidation did.
#[derive(Debug, PartialEq, Eq)]
pub struct ConsolidationReport {
    pub task_summaries_created: usize,
    pub event_indexes_created: usize,
    pub memories_consolidated: usize,
}

/// The characters between which a text is cut into statements.
pub open spec fn statement_ends() -> Seq<char> {
    seq!['。', '，', '；', '！', '.']
}

/// A statement tells of something that was done.
pub open spec fn tells_of_action(s: Seq<char>) -> bool {
    has_text(s, "完成了"@) || has_text(s, "修复了"@) || has_text(s, "创建了"@) || has_text(
        s,
        "删除了"@,
    ) || has_text(s, "实现了"@) || has_text(s, "优化了"@) || has_text(s, "重写了"@)
}

/// The statements of a text that tell of something that was done.
pub open spec fn key_actions_of(content: Seq<char>) -> Seq<Seq<char>> {
    split_at_chars(content, |c: char| statement_ends().contains(c)).filter(
        |s: Seq<char>| tells_of_action(s),
    ).map_values(|s: Seq<char>| trimmed(s)).filter(|s: Seq<char>| s.len() > 0)
}

fn names_action(s: &str) -> (r: bool)
    ensures
        r == tells_of_action(s@),
{
    contains(s, "完成了") || contains(s, "修复了") || contains(s, "创建了") || contains(
        s,
        "删除了",
    ) || contains(s, "实现了") || contains(s, "优化了") || contains(s, "重写了")
}

/// The statements of a text that tell of something that was done.
pub fn extract_key_actions(content: &str) -> (r: Vec<String>)
    ensures
        r.deep_view() == key_actions_of(content@),
{
    let set: [char; 5] = ['。', '，', '；', '！', '.'];
    assert(set@ =~= statement_ends());
    let parts = split_any(content, &set);
    let f = |s: &String| -> (r: bool)
        ensures r == tells_of_action(s.deep_view())
    {
        names_action(s.as_str())
    };
    let told = filter_each(parts.as_slice(), f, Ghost(|s: Seq<char>| tells_of_action(s)));
    let g = |s: &String| -> (r: String)
        ensures r.deep_view() == trimmed(s.deep_view())
    {
        trim(s.as_str())
    };
    let bare = map_each(told.as_slice(), g, Ghost(|s: Seq<char>| trimmed(s)));
    let h = |s: &String| -> (r: bool)
        ensures r == (s.deep_view().len() > 0)
    {
        !s.as_str().is_empty()
    };
    filter_each(bare.as_slice(), h, Ghost(|s: Seq<char>| s.len() > 0))
}

/// The day of a time.
pub open spec fn day_of(now: i64) -> Seq<char> {
    match date_of(now) {
        Some(d) => d,
        None => ""@,
    }
}

/// An entry of the memory as an event.
pub open spec fn event_from(e: MemoryEntryView, now: i64) -> EventEntryView {
    EventEntryView {
        id: "ev-"@ + e.id,
        date: day_of(now),
        summary: e.content,
        key_actions: key_actions_of(e.content),
        tags: e.tags,
        importance: e.importance,
        created_at: now,
    }
}

/// An entry of the memory as the summary of a task.
pub open spec fn task_from(e: MemoryEntryView, now: i64) -> TaskSummaryView {
    TaskSummaryView {
        id: "task-"@ + e.id,
        task_description: e.content,
        trigger_pattern: joined(e.tags, ","@),
        reasoning_path: seq![e.content],
        mistakes: Seq::empty(),
        files_modified: Seq::empty(),
        tools_used: Seq::empty(),
        success_rate: e.confidence,
        shortcuts: Seq::empty(),
        created_at: now,
    }
}

/// An entry matters enough to be summed up: its importance is at least 0.8.
pub open spec fn matters(e: MemoryEntryView) -> bool {
    rank_of(e.importance) >= rank_of(FOUR_FIFTHS)
}

/// The entries that were not consolidated yet.
pub open spec fn fresh_entries(s: Seq<MemoryEntryView>) -> Seq<MemoryEntryView> {
    s.filter(|e: MemoryEntryView| !e.consolidated)
}

/// The days after each entry was added as an event.
pub open spec fn events_added(
    days: Seq<EventDayView>,
    entries: Seq<MemoryEntryView>,
    now: i64,
) -> Seq<EventDayView>
    decreases entries.len(),
{
    if entries.len() == 0 {
        days
    } else {
        event_added(
            events_added(days, entries.drop_last(), now),
            event_from(entries.last(), now),
        )
    }
}

/// The summaries after each entry was kept as one.
pub open spec fn tasks_added(
    tasks: Seq<TaskSummaryView>,
    entries: Seq<MemoryEntryView>,
    now: i64,
) -> Seq<TaskSummaryView>
    decreases entries.len(),
{
    if entries.len() == 0 {
        tasks
    } else {
        keyed_put::<TaskSummary>(
            tasks_added(tasks, entries.drop_last(), now),
            task_from(entries.last(), now),
        )
    }
}

/// The entries, all of them consolidated.
pub open spec fn all_consolidated(s: Seq<MemoryEntryView>) -> Seq<MemoryEntryView> {
    s.map_values(|e: MemoryEntryView| MemoryEntryView { consolidated: true, ..e })
}

fn make_event(e: &MemoryEntry, now: i64) -> (r: EventEntry)
    ensures
        r.deep_view() == event_from(e.deep_view(), now),
{
    let mut id = "ev-".to_owned();
    id.append(e.id.as_str());
    let date = match write_date(now) {
        Some(d) => d,
        None => "".to_owned(),
    };
    EventEntry {
        id,
        date,
        summary: e.content.clone(),
        key_actions: extract_key_actions(e.content.as_str()),
        tags: e.tags.replicate(),
        importance: e.importance,
        created_at: now,
    }
}

fn make_task(e: &MemoryEntry, now: i64) -> (r: TaskSummary)
    ensures
        r.deep_view() == task_from(e.deep_view(), now),
{
    let mut id = "task-".to_owned();
    id.append(e.id.as_str());
    let mut path: Vec<String> = no_items();
    push_one(&mut path, e.content.clone());
    assert(path.deep_view() =~= seq![e.content@]);
    TaskSummary {
        id,
        task_description: e.content.clone(),
        trigger_pattern: join(e.tags.as_slice(), ","),
        reasoning_path: path,
        mistakes: no_items(),
        files_modified: no_items(),
        tools_used: no_items(),
        success_rate: e.confidence,
        shortcuts: no_items(),
        created_at: now,
    }
}

fn mark_consolidated(e: &MemoryEntry) -> (r: MemoryEntry)
    ensures
        r.deep_view() == (MemoryEntryView { consolidated: true, ..e.deep_view() }),
{
    let mut r = e.replicate();
    r.consolidated = true;
    r
}

/// What makes lasting memory.
pub struct ConsolidationEngine {
    pub short_term: Vec<MemoryEntry>,
    pub event_index: EventIndexLayer,
    pub task_summaries: Vec<TaskSummary>,
}

impl ConsolidationEngine {
    /// An engine over what is kept for a short time and what lasts.
    pub fn new(
        short_term: Vec<MemoryEntry>,
        event_index: EventIndexLayer,
        task_summaries: Vec<TaskSummary>,
    ) -> (r: Self)
        ensures
            r.short_term == short_term,
            r.event_index == event_index,
            r.task_summaries == task_summaries,
    {
        ConsolidationEngine { short_term, event_index, task_summaries }
    }

    /// Makes an event of each entry that was not consolidated yet, and the
    /// summary of a task of each of them that matters enough.
    pub fn run(&mut self, now: i64) -> (r: ConsolidationReport)
        requires
            2 * old(self).short_term@.len() <= usize::MAX,
        ensures
            ({
                let fresh = fresh_entries(old(self).short_term.deep_view());
                let high = fresh.filter(|e: MemoryEntryView| matters(e));
                &&& final(self).short_term.deep_view() == all_consolidated(
                    old(self).short_term.deep_view(),
                )
                &&& final(self).event_index.days.deep_view() == events_added(
                    old(self).event_index.days.deep_view(),
                    fresh,
                    now,
                )
                &&& final(self).task_summaries.deep_view() == tasks_added(
                    old(self).task_summaries.deep_view(),
                    high,
                    now,
                )
                &&& r.event_indexes_created == fresh.len()
                &&& r.task_summaries_created == high.len()
                &&& r.memories_consolidated == fresh.len() + high.len()
            }),
    {
        let f = |e: &MemoryEntry| -> (r: bool)
            ensures r == !e.deep_view().consolidated
        {
            !e.consolidated
        };
        let fresh = filter_each(
            self.short_term.as_slice(),
            f,
            Ghost(|e: MemoryEntryView| !e.consolidated),
        );
        let g = |e: &MemoryEntry| -> (r: bool)
            ensures r == matters(e.deep_view())
        {
            rank(e.importance) >= rank(FOUR_FIFTHS)
        };
        let high = filter_each(fresh.as_slice(), g, Ghost(|e: MemoryEntryView| matters(e)));
        let ghost all = fresh.deep_view();
        let ghost top = high.deep_view();
        let ghost days = self.event_index.days.deep_view();
        let ghost tasks = self.task_summaries.deep_view();
        proof {
            self.short_term.deep_view().lemma_filter_len(|e: MemoryEntryView| !e.consolidated);
            all.lemma_filter_len(|e: MemoryEntryView| matters(e));
            assert(all.take(0) =~= Seq::<MemoryEntryView>::empty());
            assert(top.take(0) =~= Seq::<MemoryEntryView>::empty());
        }
        let mut i: usize = 0;
        while i < fresh.len()
            invariant
                i <= fresh@.len(),
                all == fresh.deep_view(),
                self.short_term == old(self).short_term,
                self.task_summaries == old(self).task_summaries,
                self.event_index.days.deep_view() == events_added(days, all.take(i as int), now),
            decreases fresh@.len() - i,
        {
            proof {
                lemma_take_step(all, i as int);
                assert(all[i as int] == fresh@[i as int].deep_view());
            }
            let event = make_event(&fresh[i], now);
            self.event_index.store(&event);
            i = i + 1;
        }
        proof {
            lemma_take_all(all);
        }
        let mut i: usize = 0;
        while i < high.len()
            invariant
                i <= high@.len(),
                top == high.deep_view(),
                self.short_term == old(self).short_term,
                self.event_index.days.deep_view() == events_added(days, all, now),
                self.task_summaries.deep_view() == tasks_added(tasks, top.take(i as int), now),
            decreases high@.len() - i,
        {
            proof {
                lemma_take_step(top, i as int);
                assert(top[i as int] == high@[i as int].deep_view());
            }
            let task = make_task(&high[i], now);
            put_keyed(&mut self.task_summaries, task);
            i = i + 1;
        }
        proof {
            lemma_take_all(top);
        }
        let h = |e: &MemoryEntry| -> (r: MemoryEntry)
            ensures r.deep_view() == (MemoryEntryView { consolidated: true, ..e.deep_view() })
        {
            mark_consolidated(e)
        };
        let marked = map_each(
            self.short_term.as_slice(),
            h,
            Ghost(|e: MemoryEntryView| MemoryEntryView { consolidated: true, ..e }),
        );
        self.short_term = marked;
        ConsolidationReport {
            task_summaries_created: high.len(),
            event_indexes_created: fresh.len(),
            memories_consolidated: fresh.len() + high.len(),
        }
    }
}

/// A second round finds nothing to do: once entries were consolidated, none of
/// them is made an event again.
pub proof fn law_consolidated_once(s: Seq<MemoryEntryView>)
    ensures
        fresh_entries(all_consolidated(s)) == Seq::<MemoryEntryView>::empty(),
    decreases s.len(),
{
    let p = |e: MemoryEntryView| !e.consolidated;
    let t = all_consolidated(s);
    reveal(Seq::filter);
    if s.len() > 0 {
        assert(t.drop_last() =~= all_consolidated(s.drop_last()));
        law_consolidated_once(s.drop_last());
        assert(!p(t.last()));
    }
}

} // verus!
