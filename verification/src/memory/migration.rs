//! Moving what was kept in the older layers into the present ones.

use crate::brains::{MemoryEntry, MemoryEntryView};
use crate::memory::consolidation::{TaskSummary, TaskSummaryView};
use crate::memory::event_index::{EventEntry, EventEntryView};
use crate::memory::experience_pack::{ExperiencePack, ExperiencePackLayer, ExperiencePackView};
use crate::memory::index_layer::{
    IndexEntry, IndexEntryView, IndexLayer, SourceRef, SourceRefView,
};
use crate::replicate::Replicate;
use crate::seqs::{lemma_take_all, lemma_take_step};
use crate::shelf::shelved_put;
use crate::text::{contains, has_text, join, joined, lowercase_of, split_any, split_at_chars};
use crate::walk::{no_items, push_one};
use vstd::prelude::*;

verus! {

/// What was moved.
#[derive(Debug, PartialEq, Eq)]
pub struct MigrationReport {
    pub task_summaries_migrated: u32,
    pub short_term_entries_migrated: u32,
    pub event_entries_migrated: u32,
    pub errors: u32,
}

impl Default for MigrationReport {
    fn default() -> (r: Self)
        ensures
            r == (MigrationReport {
                task_summaries_migrated: 0,
                short_term_entries_migrated: 0,
                event_entries_migrated: 0,
                errors: 0,
            }),
    {
        MigrationReport {
            task_summaries_migrated: 0,
            short_term_entries_migrated: 0,
            event_entries_migrated: 0,
            errors: 0,
        }
    }
}

/// What tags say when they are put together.
pub open spec fn tags_text(tags: Seq<Seq<char>>) -> Seq<char> {
    lowercase_of(joined(tags, " "@))
}

/// The category that tags point to.
pub open spec fn category_by_tags(tags: Seq<Seq<char>>) -> Seq<char> {
    let t = tags_text(tags);
    if has_text(t, "bug"@) || has_text(t, "错误"@) || has_text(t, "调试"@) {
        "debugging"@
    } else if has_text(t, "架构"@) || has_text(t, "设计"@) {
        "architecture"@
    } else if has_text(t, "测试"@) {
        "testing"@
    } else if has_text(t, "部署"@) || has_text(t, "发布"@) {
        "deployment"@
    } else {
        "development"@
    }
}

/// The category that tags point to.
pub fn categorize_by_tags(tags: &Vec<String>) -> (r: String)
    ensures
        r@ == category_by_tags(tags.deep_view()),
{
    let all = join(tags.as_slice(), " ");
    let all = all.as_str().to_lowercase();
    let t = all.as_str();
    if contains(t, "bug") || contains(t, "错误") || contains(t, "调试") {
        "debugging".to_owned()
    } else if contains(t, "架构") || contains(t, "设计") {
        "architecture".to_owned()
    } else if contains(t, "测试") {
        "testing".to_owned()
    } else if contains(t, "部署") || contains(t, "发布") {
        "deployment".to_owned()
    } else {
        "development".to_owned()
    }
}

/// The summary of a task as a pack of experience.
pub open spec fn pack_from(t: TaskSummaryView) -> ExperiencePackView {
    ExperiencePackView {
        id: t.id,
        title: t.task_description,
        category: "general"@,
        trigger_patterns: split_at_chars(t.trigger_pattern, |c: char| seq![','].contains(c)),
        reasoning_path: t.reasoning_path,
        mistakes: t.mistakes,
        files_modified_patterns: t.files_modified,
        tools_used: t.tools_used,
        success_rate: t.success_rate,
        shortcuts: t.shortcuts,
        source_index_ids: Seq::empty(),
        context_snippet: ""@,
        created_at: t.created_at,
        last_used_at: t.created_at,
        use_count: 0,
    }
}

/// Where a summary that was moved comes from.
pub open spec fn moved_refs() -> Seq<SourceRefView> {
    seq![
        SourceRefView {
            session_file: "migrated"@,
            line_range: (0usize, 0usize),
            entry_ids: Seq::empty(),
        },
    ]
}

/// An event as a summary of what was said.
pub open spec fn index_from(e: EventEntryView) -> IndexEntryView {
    IndexEntryView {
        id: e.id,
        summary: e.summary,
        category: category_by_tags(e.tags),
        tags: e.tags,
        importance: e.importance,
        source_refs: moved_refs(),
        created_at: e.created_at,
        last_accessed: e.created_at,
        recall_count: 0,
    }
}

/// An entry of the short-term memory as a summary of what was said.
pub open spec fn index_from_recent(m: MemoryEntryView) -> IndexEntryView {
    IndexEntryView {
        id: m.id,
        summary: m.content,
        category: category_by_tags(m.tags),
        tags: m.tags,
        importance: m.importance,
        source_refs: moved_refs(),
        created_at: m.created_at,
        last_accessed: m.created_at,
        recall_count: 0,
    }
}

/// The packs once the summary of a task was moved.
pub fn migrate_task_summary(experience: &mut ExperiencePackLayer, old_summary: TaskSummary)
    ensures
        final(experience).packs.deep_view() == shelved_put::<ExperiencePack>(
            old(experience).packs.deep_view(),
            pack_from(old_summary.deep_view()),
        ),
{
    let set: [char; 1] = [','];
    assert(set@ =~= seq![',']);
    let trigger_patterns = split_any(old_summary.trigger_pattern.as_str(), &set);
    let pack = ExperiencePack {
        id: old_summary.id,
        title: old_summary.task_description,
        category: "general".to_owned(),
        trigger_patterns,
        reasoning_path: old_summary.reasoning_path,
        mistakes: old_summary.mistakes,
        files_modified_patterns: old_summary.files_modified,
        tools_used: old_summary.tools_used,
        success_rate: old_summary.success_rate,
        shortcuts: old_summary.shortcuts,
        source_index_ids: no_items(),
        context_snippet: "".to_owned(),
        created_at: old_summary.created_at,
        last_used_at: old_summary.created_at,
        use_count: 0,
    };
    experience.store(&pack);
}

/// The summaries once events were moved.
pub open spec fn events_moved(
    s: Seq<IndexEntryView>,
    events: Seq<EventEntryView>,
) -> Seq<IndexEntryView>
    decreases events.len(),
{
    if events.len() == 0 {
        s
    } else {
        shelved_put::<IndexEntry>(events_moved(s, events.drop_last()), index_from(events.last()))
    }
}

fn make_moved_refs() -> (r: Vec<SourceRef>)
    ensures
        r.deep_view() == moved_refs(),
{
    let mut refs: Vec<SourceRef> = no_items();
    push_one(
        &mut refs,
        SourceRef {
            session_file: "migrated".to_owned(),
            line_range: (0, 0),
            entry_ids: no_items(),
        },
    );
    assert(refs.deep_view() =~= moved_refs());
    refs
}

fn make_index_entry(e: &EventEntry) -> (r: IndexEntry)
    ensures
        r.deep_view() == index_from(e.deep_view()),
{
    IndexEntry {
        id: e.id.clone(),
        summary: e.summary.clone(),
        category: categorize_by_tags(&e.tags),
        tags: e.tags.replicate(),
        importance: e.importance,
        source_refs: make_moved_refs(),
        created_at: e.created_at,
        last_accessed: e.created_at,
        recall_count: 0,
    }
}

fn make_recent_entry(m: &MemoryEntry) -> (r: IndexEntry)
    ensures
        r.deep_view() == index_from_recent(m.deep_view()),
{
    IndexEntry {
        id: m.id.clone(),
        summary: m.content.clone(),
        category: categorize_by_tags(&m.tags),
        tags: m.tags.replicate(),
        importance: m.importance,
        source_refs: make_moved_refs(),
        created_at: m.created_at,
        last_accessed: m.created_at,
        recall_count: 0,
    }
}

/// The summaries once the entries of the short-term memory that could be read
/// were moved.
pub open spec fn recent_moved(
    s: Seq<IndexEntryView>,
    entries: Seq<Option<MemoryEntryView>>,
) -> Seq<IndexEntryView>
    decreases entries.len(),
{
    if entries.len() == 0 {
        s
    } else {
        let before = recent_moved(s, entries.drop_last());
        match entries.last() {
            Some(m) => shelved_put::<IndexEntry>(before, index_from_recent(m)),
            None => before,
        }
    }
}

/// Moves the entries of the short-term memory that could be read, and says how
/// many.
pub fn migrate_short_term(index: &mut IndexLayer, entries: &Vec<Option<MemoryEntry>>) -> (r: u32)
    requires
        entries@.len() <= u32::MAX,
    ensures
        final(index).entries.deep_view() == recent_moved(
            old(index).entries.deep_view(),
            entries.deep_view(),
        ),
        r == readable(entries.deep_view()),
        r <= entries@.len(),
{
    let ghost start = index.entries.deep_view();
    let ghost all = entries.deep_view();
    let mut moved: u32 = 0;
    let mut i: usize = 0;
    assert(all.take(0) =~= Seq::<Option<MemoryEntryView>>::empty());
    while i < entries.len()
        invariant
            i <= entries@.len() <= u32::MAX,
            all == entries.deep_view(),
            index.entries.deep_view() == recent_moved(start, all.take(i as int)),
            moved == readable(all.take(i as int)),
            moved <= i,
        decreases entries@.len() - i,
    {
        proof {
            lemma_take_step(all, i as int);
            assert(all[i as int] == entries@[i as int].deep_view());
        }
        if let Some(m) = &entries[i] {
            let entry = make_recent_entry(m);
            index.store(&entry);
            moved = moved + 1;
        }
        i = i + 1;
    }
    proof {
        lemma_take_all(all);
    }
    moved
}

/// Moves the events of a day, and says how many.
pub fn migrate_event_entries(index: &mut IndexLayer, events: &Vec<EventEntry>) -> (r: u32)
    requires
        events@.len() <= u32::MAX,
    ensures
        final(index).entries.deep_view() == events_moved(
            old(index).entries.deep_view(),
            events.deep_view(),
        ),
        r == events@.len(),
{
    let ghost start = index.entries.deep_view();
    let ghost all = events.deep_view();
    let mut i: usize = 0;
    assert(all.take(0) =~= Seq::<EventEntryView>::empty());
    while i < events.len()
        invariant
            i <= events@.len(),
            all == events.deep_view(),
            index.entries.deep_view() == events_moved(start, all.take(i as int)),
        decreases events@.len() - i,
    {
        proof {
            lemma_take_step(all, i as int);
            assert(all[i as int] == events@[i as int].deep_view());
        }
        let entry = make_index_entry(&events[i]);
        index.store(&entry);
        i = i + 1;
    }
    proof {
        lemma_take_all(all);
    }
    events.len() as u32
}

/// The packs once the summaries that could be read were moved.
pub open spec fn tasks_moved(
    s: Seq<ExperiencePackView>,
    tasks: Seq<Option<TaskSummaryView>>,
) -> Seq<ExperiencePackView>
    decreases tasks.len(),
{
    if tasks.len() == 0 {
        s
    } else {
        let before = tasks_moved(s, tasks.drop_last());
        match tasks.last() {
            Some(t) => shelved_put::<ExperiencePack>(before, pack_from(t)),
            None => before,
        }
    }
}

/// The summaries once the days that could be read were moved.
pub open spec fn days_moved(
    s: Seq<IndexEntryView>,
    days: Seq<Option<Seq<EventEntryView>>>,
) -> Seq<IndexEntryView>
    decreases days.len(),
{
    if days.len() == 0 {
        s
    } else {
        let before = days_moved(s, days.drop_last());
        match days.last() {
            Some(d) => events_moved(before, d),
            None => before,
        }
    }
}

/// How many could be read.
pub open spec fn readable<A>(s: Seq<Option<A>>) -> nat
    decreases s.len(),
{
    if s.len() == 0 {
        0
    } else {
        readable(s.drop_last()) + if s.last() is Some {
            1nat
        } else {
            0nat
        }
    }
}

/// How many events the days that could be read have.
pub open spec fn event_total(days: Seq<Option<Seq<EventEntryView>>>) -> nat
    decreases days.len(),
{
    if days.len() == 0 {
        0
    } else {
        event_total(days.drop_last()) + match days.last() {
            Some(d) => d.len(),
            None => 0,
        }
    }
}

proof fn lemma_readable<A>(s: Seq<Option<A>>)
    ensures
        readable(s) <= s.len(),
    decreases s.len(),
{
    if s.len() > 0 {
        lemma_readable(s.drop_last());
    }
}

proof fn lemma_event_total_grows(days: Seq<Option<Seq<EventEntryView>>>, i: int)
    requires
        0 <= i <= days.len(),
    ensures
        event_total(days.take(i)) <= event_total(days),
    decreases days.len() - i,
{
    if i < days.len() {
        lemma_take_step(days, i);
        lemma_event_total_grows(days, i + 1);
    } else {
        lemma_take_all(days);
    }
}

/// What there is to move: whether it was moved before, whether there is
/// anything of the older layers, and what was read of it. What could not be
/// read is left out.
pub struct OldData {
    pub marked: bool,
    pub present: bool,
    pub tasks: Vec<Option<TaskSummary>>,
    pub short_term: Vec<Option<MemoryEntry>>,
    pub days: Vec<Option<Vec<EventEntry>>>,
}

/// Moves what is there, once: what was moved before is left alone. Says
/// whether it is now to be marked as moved.
#[verifier::rlimit(40)]
pub fn run_migration(
    data: OldData,
    index: &mut IndexLayer,
    experience: &mut ExperiencePackLayer,
) -> (r: (MigrationReport, bool))
    requires
        data.tasks@.len() + data.short_term@.len() + data.days@.len() <= u32::MAX,
        event_total(data.days.deep_view()) <= u32::MAX,
    ensures
        r.1 == !data.marked,
        if data.marked || !data.present {
            &&& r.0 == (MigrationReport {
                task_summaries_migrated: 0,
                short_term_entries_migrated: 0,
                event_entries_migrated: 0,
                errors: 0,
            })
            &&& final(index).entries.deep_view() == old(index).entries.deep_view()
            &&& final(experience).packs.deep_view() == old(experience).packs.deep_view()
        } else {
            let tasks = data.tasks.deep_view();
            let recent = data.short_term.deep_view();
            let days = data.days.deep_view();
            &&& r.0.task_summaries_migrated == readable(tasks)
            &&& r.0.short_term_entries_migrated == readable(recent)
            &&& r.0.event_entries_migrated == event_total(days)
            &&& r.0.errors == tasks.len() - readable(tasks) + recent.len() - readable(recent)
                + days.len() - readable(days)
            &&& final(index).entries.deep_view() == days_moved(
                recent_moved(old(index).entries.deep_view(), recent),
                days,
            )
            &&& final(experience).packs.deep_view() == tasks_moved(
                old(experience).packs.deep_view(),
                tasks,
            )
        },
{
    let mut report = MigrationReport::default();
    if data.marked {
        return (report, false);
    }
    if !data.present {
        return (report, true);
    }
    let ghost tasks = data.tasks.deep_view();
    let ghost days = data.days.deep_view();
    let ghost packs = experience.packs.deep_view();
    let ghost entries = index.entries.deep_view();
    let mut i: usize = 0;
    assert(tasks.take(0) =~= Seq::<Option<TaskSummaryView>>::empty());
    assert(days.take(0) =~= Seq::<Option<Seq<EventEntryView>>>::empty());
    while i < data.tasks.len()
        invariant
            i <= data.tasks@.len(),
            data.tasks@.len() + data.short_term@.len() + data.days@.len() <= u32::MAX,
            tasks == data.tasks.deep_view(),
            index.entries.deep_view() == entries,
            experience.packs.deep_view() == tasks_moved(packs, tasks.take(i as int)),
            report.task_summaries_migrated == readable(tasks.take(i as int)),
            readable(tasks.take(i as int)) <= i,
            report.short_term_entries_migrated == 0,
            report.event_entries_migrated == 0,
            report.errors == i - readable(tasks.take(i as int)),
        decreases data.tasks@.len() - i,
    {
        proof {
            lemma_take_step(tasks, i as int);
            assert(tasks[i as int] == data.tasks@[i as int].deep_view());
        }
        match &data.tasks[i] {
            Some(t) => {
                migrate_task_summary(experience, t.replicate());
                report.task_summaries_migrated = report.task_summaries_migrated + 1;
            },
            None => {
                report.errors = report.errors + 1;
            },
        }
        i = i + 1;
    }
    proof {
        lemma_take_all(tasks);
        lemma_readable(tasks);
    }
    let ghost recent = data.short_term.deep_view();
    let moved: u32 = migrate_short_term(index, &data.short_term);
    report.short_term_entries_migrated = moved;
    report.errors = report.errors + (data.short_term.len() as u32 - moved);
    let ghost after_recent = index.entries.deep_view();
    let mut i: usize = 0;
    while i < data.days.len()
        invariant
            i <= data.days@.len(),
            data.tasks@.len() + data.short_term@.len() + data.days@.len() <= u32::MAX,
            tasks == data.tasks.deep_view(),
            recent == data.short_term.deep_view(),
            recent.len() == data.short_term@.len(),
            readable(recent) <= recent.len(),
            days == data.days.deep_view(),
            tasks.len() == data.tasks@.len(),
            readable(tasks) <= tasks.len(),
            event_total(days) <= u32::MAX,
            experience.packs.deep_view() == tasks_moved(packs, tasks),
            after_recent == recent_moved(entries, recent),
            index.entries.deep_view() == days_moved(after_recent, days.take(i as int)),
            report.task_summaries_migrated == readable(tasks),
            report.short_term_entries_migrated == readable(recent),
            report.event_entries_migrated == event_total(days.take(i as int)),
            readable(days.take(i as int)) <= i,
            report.errors == tasks.len() - readable(tasks) + recent.len() - readable(recent) + i
                - readable(days.take(i as int)),
        decreases data.days@.len() - i,
    {
        proof {
            lemma_take_step(days, i as int);
            lemma_event_total_grows(days, i + 1);
            assert(days[i as int] == data.days@[i as int].deep_view());
        }
        match &data.days[i] {
            Some(events) => {
                assert(events.deep_view().len() == events@.len());
                let moved: u32 = migrate_event_entries(index, events);
                report.event_entries_migrated = report.event_entries_migrated + moved;
            },
            None => {
                report.errors = report.errors + 1;
            },
        }
        i = i + 1;
    }
    proof {
        lemma_take_all(days);
    }
    (report, true)
}

} // verus!
