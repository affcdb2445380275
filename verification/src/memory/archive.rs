//! The archive: what was learnt, by topic.

use crate::keyed::{
    find_keyed, get_keyed, keyed_index, keyed_item, keyed_put, put_keyed, Keyed,
};
use crate::order::{in_order, sort_texts};
use crate::paths::{join_path, path_of};
use crate::replicate::Replicate;
use crate::seqs::{reorder, reordered, stable_order, stably_ordered};
use crate::text::{contains, has_text, join, joined, lowercase_of};
use crate::walk::{
    any_is, at_most, filter_map_each, first_items, map_each, no_items, some_is,
};
use crate::weights::{rank, rank_of};
use vstd::prelude::*;

verus! {

/// What one session gave to a topic.
#[derive(Debug, PartialEq)]
pub struct ArchiveReference {
    pub session_id: String,
    pub summary: String,
    /// The bits of the importance.
    pub importance: u64,
}

/// What a reference is.
#[verifier::ext_equal]
pub struct ArchiveReferenceView {
    pub session_id: Seq<char>,
    pub summary: Seq<char>,
    pub importance: u64,
}

impl DeepView for ArchiveReference {
    type V = ArchiveReferenceView;

    open spec fn deep_view(&self) -> ArchiveReferenceView {
        ArchiveReferenceView {
            session_id: self.session_id@,
            summary: self.summary@,
            importance: self.importance,
        }
    }
}

impl Replicate for ArchiveReference {
    fn replicate(&self) -> (r: Self) {
        ArchiveReference {
            session_id: self.session_id.clone(),
            summary: self.summary.clone(),
            importance: self.importance,
        }
    }
}

/// The index of a topic.
#[derive(Debug, PartialEq)]
pub struct ArchiveTopicIndex {
    pub topic: String,
    pub trigger_keywords: Vec<String>,
    pub merged_summary: String,
    /// The bits of the importance.
    pub importance: u64,
    pub references: Vec<ArchiveReference>,
    pub updated_at: i64,
    pub created_at: i64,
}

/// What an index is.
#[verifier::ext_equal]
pub struct ArchiveTopicIndexView {
    pub topic: Seq<char>,
    pub trigger_keywords: Seq<Seq<char>>,
    pub merged_summary: Seq<char>,
    pub importance: u64,
    pub references: Seq<ArchiveReferenceView>,
    pub updated_at: i64,
    pub created_at: i64,
}

impl DeepView for ArchiveTopicIndex {
    type V = ArchiveTopicIndexView;

    open spec fn deep_view(&self) -> ArchiveTopicIndexView {
        ArchiveTopicIndexView {
            topic: self.topic@,
            trigger_keywords: self.trigger_keywords.deep_view(),
            merged_summary: self.merged_summary@,
            importance: self.importance,
            references: self.references.deep_view(),
            updated_at: self.updated_at,
            created_at: self.created_at,
        }
    }
}

impl Replicate for ArchiveTopicIndex {
    fn replicate(&self) -> (r: Self) {
        ArchiveTopicIndex {
            topic: self.topic.clone(),
            trigger_keywords: self.trigger_keywords.replicate(),
            merged_summary: self.merged_summary.clone(),
            importance: self.importance,
            references: self.references.replicate(),
            updated_at: self.updated_at,
            created_at: self.created_at,
        }
    }
}

impl Keyed for ArchiveTopicIndex {
    open spec fn key_of(v: ArchiveTopicIndexView) -> Seq<char> {
        v.topic
    }

    fn key(&self) -> (r: &str) {
        self.topic.as_str()
    }
}

/// The topics that are kept.
pub struct ArchiveStore {
    pub base_dir: String,
    pub topics: Vec<ArchiveTopicIndex>,
}

/// The text of a topic in which keywords are looked for.
pub open spec fn topic_text(i: ArchiveTopicIndexView) -> Seq<char> {
    lowercase_of(i.topic + " "@ + joined(i.trigger_keywords, " "@) + " "@ + i.merged_summary)
}

/// One of the keywords is in the topic.
pub open spec fn topic_matches(i: ArchiveTopicIndexView, keywords: Seq<Seq<char>>) -> bool {
    some_is(keywords, |kw: Seq<char>| has_text(topic_text(i), lowercase_of(kw)))
}

/// The names of the topics, in order.
pub open spec fn topic_names(s: Seq<ArchiveTopicIndexView>) -> Seq<Seq<char>> {
    in_order(s.map_values(|i: ArchiveTopicIndexView| i.topic))
}

/// The topic with a name, where one of the keywords is in it.
pub open spec fn matching_topic(
    s: Seq<ArchiveTopicIndexView>,
    name: Seq<char>,
    keywords: Seq<Seq<char>>,
) -> Option<ArchiveTopicIndexView> {
    match keyed_item::<ArchiveTopicIndex>(s, name) {
        Some(i) => if topic_matches(i, keywords) {
            Some(i)
        } else {
            None
        },
        None => None,
    }
}

/// The first topics by their names that have one of the keywords.
pub open spec fn matching_topics(
    s: Seq<ArchiveTopicIndexView>,
    keywords: Seq<Seq<char>>,
    limit: nat,
) -> Seq<ArchiveTopicIndexView> {
    at_most(
        topic_names(s).filter_map(|name: Seq<char>| matching_topic(s, name, keywords)),
        limit,
    )
}

fn matches_topic(i: &ArchiveTopicIndex, keywords: &Vec<String>) -> (r: bool)
    ensures
        r == topic_matches(i.deep_view(), keywords.deep_view()),
{
    let mut text = i.topic.clone();
    text.append(" ");
    let words = join(i.trigger_keywords.as_slice(), " ");
    text.append(words.as_str());
    text.append(" ");
    text.append(i.merged_summary.as_str());
    let low = text.as_str().to_lowercase();
    let f = |kw: &String| -> (r: bool)
        ensures r == has_text(topic_text(i.deep_view()), lowercase_of(kw@))
    {
        let k = kw.as_str().to_lowercase();
        contains(low.as_str(), k.as_str())
    };
    any_is(
        keywords.as_slice(),
        f,
        Ghost(|kw: Seq<char>| has_text(topic_text(i.deep_view()), lowercase_of(kw))),
    )
}

impl ArchiveStore {
    /// A store below `base_dir` with no topics yet.
    pub fn new(base_dir: &str) -> (r: Self)
        ensures
            r.base_dir@ == base_dir@,
            r.topics.deep_view() == Seq::<ArchiveTopicIndexView>::empty(),
    {
        ArchiveStore { base_dir: base_dir.to_owned(), topics: no_items() }
    }

    /// The directory of a topic.
    pub fn topic_dir(&self, topic: &str) -> (r: String)
        ensures
            r@ == path_of(path_of(path_of(self.base_dir@, "memory"@), "archive"@), topic@),
    {
        let memory = join_path(self.base_dir.as_str(), "memory");
        let archive = join_path(memory.as_str(), "archive");
        join_path(archive.as_str(), topic)
    }

    /// The file of the index of a topic.
    pub fn index_path(&self, topic: &str) -> (r: String)
        ensures
            r@ == path_of(
                path_of(path_of(path_of(self.base_dir@, "memory"@), "archive"@), topic@),
                "index.json"@,
            ),
    {
        let dir = self.topic_dir(topic);
        join_path(dir.as_str(), "index.json")
    }

    /// The index of a topic.
    pub fn load_topic(&self, topic: &str) -> (r: Option<ArchiveTopicIndex>)
        ensures
            r.deep_view() == keyed_item::<ArchiveTopicIndex>(self.topics.deep_view(), topic@),
    {
        get_keyed(&self.topics, topic)
    }

    /// Keeps an index in place of the one of its topic.
    pub fn save_topic(&mut self, index: &ArchiveTopicIndex)
        ensures
            final(self).base_dir == old(self).base_dir,
            final(self).topics.deep_view() == keyed_put::<ArchiveTopicIndex>(
                old(self).topics.deep_view(),
                index.deep_view(),
            ),
    {
        put_keyed(&mut self.topics, index.replicate());
    }

    /// The names of the topics, in order.
    pub fn list_topics(&self) -> (r: Vec<String>)
        ensures
            r.deep_view() == topic_names(self.topics.deep_view()),
    {
        let f = |i: &ArchiveTopicIndex| -> (r: String)
            ensures r@ == i.deep_view().topic
        {
            i.topic.clone()
        };
        let names = map_each(
            self.topics.as_slice(),
            f,
            Ghost(|i: ArchiveTopicIndexView| i.topic),
        );
        sort_texts(&names)
    }

    /// The first topics by their names that have one of the keywords, the most
    /// important first.
    pub fn match_topics(&self, keywords: &Vec<String>, limit: usize) -> (r: Vec<
        ArchiveTopicIndex,
    >)
        ensures
            ({
                let found = matching_topics(
                    self.topics.deep_view(),
                    keywords.deep_view(),
                    limit as nat,
                );
                exists|order: Seq<usize>|
                    #![trigger reordered(found, order)]
                    stably_ordered(
                        found.map_values(|i: ArchiveTopicIndexView| rank_of(i.importance)),
                        true,
                        order,
                    ) && r.deep_view() == reordered(found, order)
            }),
    {
        let names = self.list_topics();
        let f = |name: &String| -> (r: Option<ArchiveTopicIndex>)
            ensures
                r.deep_view() == matching_topic(
                    self.topics.deep_view(),
                    name@,
                    keywords.deep_view(),
                )
        {
            match get_keyed(&self.topics, name.as_str()) {
                Some(i) => if matches_topic(&i, keywords) {
                    Some(i)
                } else {
                    None
                },
                None => None,
            }
        };
        let ghost s = self.topics.deep_view();
        let ghost words = keywords.deep_view();
        let all = filter_map_each(
            names.as_slice(),
            f,
            Ghost(|name: Seq<char>| matching_topic(s, name, words)),
        );
        let found = first_items(all.as_slice(), limit);
        assert(found.deep_view() == matching_topics(s, words, limit as nat));
        let f = |i: &ArchiveTopicIndex| -> (r: i64)
            ensures r == rank_of(i.deep_view().importance)
        {
            rank(i.importance)
        };
        let keys = map_each(
            found.as_slice(),
            f,
            Ghost(|i: ArchiveTopicIndexView| rank_of(i.importance)),
        );
        assert(keys@ =~= keys.deep_view());
        let order = stable_order(&keys, true);
        let items = found.as_slice();
        assert(items.deep_view() =~= found.deep_view());
        reorder(items, &order)
    }

    /// Forgets a topic.
    pub fn delete_topic(&mut self, topic: &str)
        ensures
            final(self).base_dir == old(self).base_dir,
            final(self).topics.deep_view() == match keyed_index::<ArchiveTopicIndex>(
                old(self).topics.deep_view(),
                topic@,
            ) {
                Some(i) => old(self).topics.deep_view().remove(i),
                None => old(self).topics.deep_view(),
            },
    {
        if let Some(i) = find_keyed(&self.topics, topic) {
            let ghost before = self.topics.deep_view();
            self.topics.remove(i);
            assert(self.topics.deep_view() =~= before.remove(i as int));
        }
    }
}

} // verus!
