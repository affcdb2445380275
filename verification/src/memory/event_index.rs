//! What happened, day by day.

use crate::brains::{
    KnowledgeSource, KnowledgeSourceView, MemoryEntry, MemoryEntryView, MemoryLayer,
};
use crate::keyed::{find_keyed, get_keyed, keyed_index, keyed_item, Keyed};
use crate::replicate::Replicate;
use crate::text::{ascii_lower, contains_in_any_case, has_text_in_any_case, same_ignoring_case};
use crate::walk::{
    any_is, at_most, filter_each, first_items, flat_map_each, flat_mapped, map_each, no_items,
    push_one, some_is,
};
use crate::weights::SEVENTEEN_TWENTIETHS;
use vstd::prelude::*;

verus! {

/// Something that happened.
#[derive(Debug, PartialEq)]
pub struct EventEntry {
    pub id: String,
    pub date: String,
    pub summary: String,
    pub key_actions: Vec<String>,
    pub tags: Vec<String>,
    /// The bits of the importance.
    pub importance: u64,
    pub created_at: i64,
}

/// What happened.
#[verifier::ext_equal]
pub struct EventEntryView {
    pub id: Seq<char>,
    pub date: Seq<char>,
    pub summary: Seq<char>,
    pub key_actions: Seq<Seq<char>>,
    pub tags: Seq<Seq<char>>,
    pub importance: u64,
    pub created_at: i64,
}

impl DeepView for EventEntry {
    type V = EventEntryView;

    open spec fn deep_view(&self) -> EventEntryView {
        EventEntryView {
            id: self.id@,
            date: self.date@,
            summary: self.summary@,
            key_actions: self.key_actions.deep_view(),
            tags: self.tags.deep_view(),
            importance: self.importance,
            created_at: self.created_at,
        }
    }
}

impl Replicate for EventEntry {
    fn replicate(&self) -> (r: Self) {
        EventEntry {
            id: self.id.clone(),
            date: self.date.clone(),
            summary: self.summary.clone(),
            key_actions: self.key_actions.replicate(),
            tags: self.tags.replicate(),
            importance: self.importance,
            created_at: self.created_at,
        }
    }
}

/// What happened on a day.
#[derive(Debug, PartialEq)]
pub struct EventDay {
    pub date: String,
    pub events: Vec<EventEntry>,
}

/// What such a day is.
#[verifier::ext_equal]
pub struct EventDayView {
    pub date: Seq<char>,
    pub events: Seq<EventEntryView>,
}

impl DeepView for EventDay {
    type V = EventDayView;

    open spec fn deep_view(&self) -> EventDayView {
        EventDayView {
            date: self.date@,
            events: self.events.deep_view(),
        }
    }
}

impl Replicate for EventDay {
    fn replicate(&self) -> (r: Self) {
        EventDay {
            date: self.date.clone(),
            events: self.events.replicate(),
        }
    }
}

impl Keyed for EventDay {
    open spec fn key_of(v: EventDayView) -> Seq<char> {
        v.date
    }

    fn key(&self) -> (r: &str) {
        self.date.as_str()
    }
}

/// The days with an event at the end of its day.
pub open spec fn event_added(days: Seq<EventDayView>, e: EventEntryView) -> Seq<EventDayView> {
    match keyed_index::<EventDay>(days, e.date) {
        Some(i) => days.update(i, EventDayView { events: days[i].events.push(e), ..days[i] }),
        None => days.push(EventDayView { date: e.date, events: seq![e] }),
    }
}

/// All that happened.
pub open spec fn events_of(days: Seq<EventDayView>) -> Seq<EventEntryView> {
    flat_mapped(days, |d: EventDayView| d.events)
}

/// A keyword points to an event.
pub open spec fn event_has(e: EventEntryView, kw: Seq<char>) -> bool {
    has_text_in_any_case(e.summary, kw) || some_is(
        e.tags,
        |t: Seq<char>| ascii_lower(t) == ascii_lower(kw),
    ) || some_is(e.key_actions, |a: Seq<char>| has_text_in_any_case(a, kw))
}

/// One of the keywords points to an event.
pub open spec fn event_hit(keywords: Seq<Seq<char>>) -> spec_fn(EventEntryView) -> bool {
    |e: EventEntryView| some_is(keywords, |kw: Seq<char>| event_has(e, kw))
}

/// An event as an entry of the memory.
pub open spec fn event_memory(e: EventEntryView) -> MemoryEntryView {
    MemoryEntryView {
        id: e.id,
        content: e.summary,
        tags: e.tags,
        layer: MemoryLayer::EventIndex,
        importance: e.importance,
        source: KnowledgeSourceView { memory_id: e.id, layer: MemoryLayer::EventIndex },
        confidence: SEVENTEEN_TWENTIETHS,
        reference_count: 0,
        created_at: e.created_at,
        last_accessed: e.created_at,
        consolidated: true,
    }
}

/// What a search finds. One hit is given even where none was asked for.
pub open spec fn events_found(
    days: Seq<EventDayView>,
    keywords: Seq<Seq<char>>,
    limit: nat,
) -> Seq<MemoryEntryView> {
    at_most(
        events_of(days).filter(event_hit(keywords)).map_values(
            |e: EventEntryView| event_memory(e),
        ),
        if limit == 0 {
            1
        } else {
            limit
        },
    )
}

fn keyword_in_event(e: &EventEntry, kw: &str) -> (r: bool)
    ensures
        r == event_has(e.deep_view(), kw@),
{
    if contains_in_any_case(e.summary.as_str(), kw) {
        return true;
    }
    let ghost k = kw@;
    let f = |t: &String| -> (r: bool)
        ensures r == (ascii_lower(t.deep_view()) == ascii_lower(kw@))
    {
        same_ignoring_case(t.as_str(), kw)
    };
    if any_is(e.tags.as_slice(), f, Ghost(|t: Seq<char>| ascii_lower(t) == ascii_lower(k))) {
        return true;
    }
    let g = |a: &String| -> (r: bool)
        ensures r == has_text_in_any_case(a.deep_view(), kw@)
    {
        contains_in_any_case(a.as_str(), kw)
    };
    any_is(e.key_actions.as_slice(), g, Ghost(|a: Seq<char>| has_text_in_any_case(a, k)))
}

fn any_keyword_in_event(e: &EventEntry, keywords: &Vec<String>) -> (r: bool)
    ensures
        r == event_hit(keywords.deep_view())(e.deep_view()),
{
    let f = |kw: &String| -> (r: bool)
        ensures r == event_has(e.deep_view(), kw.deep_view())
    {
        keyword_in_event(e, kw.as_str())
    };
    let ghost v = e.deep_view();
    any_is(keywords.as_slice(), f, Ghost(|kw: Seq<char>| event_has(v, kw)))
}

fn make_event_memory(e: &EventEntry) -> (r: MemoryEntry)
    ensures
        r.deep_view() == event_memory(e.deep_view()),
{
    MemoryEntry {
        id: e.id.clone(),
        content: e.summary.clone(),
        tags: e.tags.replicate(),
        layer: MemoryLayer::EventIndex,
        importance: e.importance,
        source: KnowledgeSource { memory_id: e.id.clone(), layer: MemoryLayer::EventIndex },
        confidence: SEVENTEEN_TWENTIETHS,
        reference_count: 0,
        created_at: e.created_at,
        last_accessed: e.created_at,
        consolidated: true,
    }
}

/// What happened, by day.
pub struct EventIndexLayer {
    pub days: Vec<EventDay>,
}

impl EventIndexLayer {
    /// Nothing happened yet.
    pub fn new() -> (r: Self)
        ensures
            r.days.deep_view() == Seq::<EventDayView>::empty(),
    {
        EventIndexLayer { days: no_items() }
    }

    /// Adds an event to its day.
    pub fn store(&mut self, entry: &EventEntry)
        ensures
            final(self).days.deep_view() == event_added(
                old(self).days.deep_view(),
                entry.deep_view(),
            ),
    {
        let ghost before = self.days.deep_view();
        match find_keyed(&self.days, entry.date.as_str()) {
            Some(i) => {
                let mut day = self.days[i].replicate();
                assert(day.deep_view() == before[i as int]);
                push_one(&mut day.events, entry.replicate());
                let ghost v = EventDayView {
                    events: before[i as int].events.push(entry.deep_view()),
                    ..before[i as int]
                };
                assert(day.deep_view() =~= v);
                self.days.set(i, day);
                assert(self.days.deep_view() =~= before.update(i as int, v));
            },
            None => {
                let mut events: Vec<EventEntry> = no_items();
                push_one(&mut events, entry.replicate());
                assert(events.deep_view() =~= seq![entry.deep_view()]);
                push_one(&mut self.days, EventDay { date: entry.date.clone(), events });
            },
        }
    }

    /// What happened on a day.
    pub fn read_date(&self, date: &str) -> (r: Vec<EventEntry>)
        ensures
            r.deep_view() == match keyed_item::<EventDay>(self.days.deep_view(), date@) {
                Some(d) => d.events,
                None => Seq::empty(),
            },
    {
        match get_keyed(&self.days, date) {
            Some(d) => d.events,
            None => no_items(),
        }
    }

    /// The first events that a keyword points to, as entries of the memory.
    pub fn search(&self, keywords: &Vec<String>, limit: usize) -> (r: Vec<MemoryEntry>)
        ensures
            r.deep_view() == events_found(
                self.days.deep_view(),
                keywords.deep_view(),
                limit as nat,
            ),
    {
        let f = |d: &EventDay| -> (r: Vec<EventEntry>)
            ensures r.deep_view() == d.deep_view().events
        {
            d.events.replicate()
        };
        let all = flat_map_each(self.days.as_slice(), f, Ghost(|d: EventDayView| d.events));
        let g = |e: &EventEntry| -> (r: bool)
            ensures r == event_hit(keywords.deep_view())(e.deep_view())
        {
            any_keyword_in_event(e, keywords)
        };
        let hits = filter_each(all.as_slice(), g, Ghost(event_hit(keywords.deep_view())));
        let h = |e: &EventEntry| -> (r: MemoryEntry)
            ensures r.deep_view() == event_memory(e.deep_view())
        {
            make_event_memory(e)
        };
        let found = map_each(hits.as_slice(), h, Ghost(|e: EventEntryView| event_memory(e)));
        first_items(
            found.as_slice(),
            if limit == 0 {
                1
            } else {
                limit
            },
        )
    }

    /// How many events there are, where they can be counted.
    pub fn count(&self) -> (r: u32)
        requires
            events_of(self.days.deep_view()).len() <= u32::MAX,
        ensures
            r == events_of(self.days.deep_view()).len(),
    {
        let f = |d: &EventDay| -> (r: Vec<EventEntry>)
            ensures r.deep_view() == d.deep_view().events
        {
            d.events.replicate()
        };
        let all = flat_map_each(self.days.as_slice(), f, Ghost(|d: EventDayView| d.events));
        assert(all.deep_view().len() == all@.len());
        all.len() as u32
    }
}

/// An event that was added is the last of its day, and the other days are as
/// they were.
pub proof fn law_added_event_is_read(days: Seq<EventDayView>, e: EventEntryView, date: Seq<char>)
    ensures
        ({
            let before = keyed_item::<EventDay>(days, e.date);
            let after = keyed_item::<EventDay>(event_added(days, e), e.date);
            after is Some && after->0.events == match before {
                Some(d) => d.events.push(e),
                None => seq![e],
            }
        }),
        date != e.date ==> keyed_item::<EventDay>(event_added(days, e), date) == keyed_item::<
            EventDay,
        >(days, date),
{
    let p = crate::keyed::with_key::<EventDay>(e.date);
    crate::seqs::lemma_first_index(days, p);
    let day = match keyed_index::<EventDay>(days, e.date) {
        Some(i) => {
            assert(p(days[i]));
            EventDayView { events: days[i].events.push(e), ..days[i] }
        },
        None => EventDayView { date: e.date, events: seq![e] },
    };
    assert(day.date == e.date);
    assert(event_added(days, e) == crate::keyed::keyed_put::<EventDay>(days, day));
    crate::keyed::law_put_is_found::<EventDay>(days, day, date);
}

} // verus!
