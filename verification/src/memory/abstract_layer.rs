//! Experience by the kind of task, made anew each time.

use crate::keyed::{get_keyed, keyed_item, keyed_put_all, put_all, Keyed};
use crate::replicate::Replicate;
use crate::text::{all_ascii, ascii_lower, contains, has_text, lowercase_of, same};
use crate::walk::{
    any_is, filter_each, flat_map_each, flat_mapped, map_each, no_items, some_is,
};
use vstd::prelude::*;

verus! {

/// A kind of task.
#[derive(Debug, Clone, Copy, PartialEq, Eq, Structural)]
pub enum TaskType {
    Coding,
    Writing,
    Research,
}

impl DeepView for TaskType {
    type V = TaskType;

    open spec fn deep_view(&self) -> TaskType {
        *self
    }
}

impl Replicate for TaskType {
    fn replicate(&self) -> (r: Self) {
        *self
    }
}

/// The name of a kind of task.
pub open spec fn task_type_text(t: TaskType) -> Seq<char> {
    match t {
        TaskType::Coding => "coding"@,
        TaskType::Writing => "writing"@,
        TaskType::Research => "research"@,
    }
}

/// The name of a kind of task.
pub fn task_type_name(t: TaskType) -> (r: &'static str)
    ensures
        r@ == task_type_text(t),
{
    match t {
        TaskType::Coding => "coding",
        TaskType::Writing => "writing",
        TaskType::Research => "research",
    }
}

/// Something learned.
#[derive(Debug, PartialEq)]
pub struct Experience {
    pub pattern: String,
    pub description: String,
    pub source_tasks: Vec<String>,
    pub frequency: u32,
    /// Whether it may be handed to the main brain.
    pub injectable: bool,
}

/// What was learned.
#[verifier::ext_equal]
pub struct ExperienceView {
    pub pattern: Seq<char>,
    pub description: Seq<char>,
    pub source_tasks: Seq<Seq<char>>,
    pub frequency: u32,
    pub injectable: bool,
}

impl DeepView for Experience {
    type V = ExperienceView;

    open spec fn deep_view(&self) -> ExperienceView {
        ExperienceView {
            pattern: self.pattern@,
            description: self.description@,
            source_tasks: self.source_tasks.deep_view(),
            frequency: self.frequency,
            injectable: self.injectable,
        }
    }
}

impl Replicate for Experience {
    fn replicate(&self) -> (r: Self) {
        Experience {
            pattern: self.pattern.clone(),
            description: self.description.clone(),
            source_tasks: self.source_tasks.replicate(),
            frequency: self.frequency,
            injectable: self.injectable,
        }
    }
}

/// The tasks that a keyword leads to.
#[derive(Debug, PartialEq)]
pub struct KeywordIndex {
    pub keyword: String,
    pub l2_task_ids: Vec<String>,
}

/// What such an index is.
#[verifier::ext_equal]
pub struct KeywordIndexView {
    pub keyword: Seq<char>,
    pub l2_task_ids: Seq<Seq<char>>,
}

impl DeepView for KeywordIndex {
    type V = KeywordIndexView;

    open spec fn deep_view(&self) -> KeywordIndexView {
        KeywordIndexView {
            keyword: self.keyword@,
            l2_task_ids: self.l2_task_ids.deep_view(),
        }
    }
}

impl Replicate for KeywordIndex {
    fn replicate(&self) -> (r: Self) {
        KeywordIndex {
            keyword: self.keyword.clone(),
            l2_task_ids: self.l2_task_ids.replicate(),
        }
    }
}

/// What was learned of a kind of task.
#[derive(Debug, PartialEq)]
pub struct TypeExperience {
    pub task_type: TaskType,
    pub experiences: Vec<Experience>,
    pub l2_refs: Vec<String>,
    pub index: Vec<KeywordIndex>,
    pub updated_at: i64,
}

/// What that is.
#[verifier::ext_equal]
pub struct TypeExperienceView {
    pub task_type: TaskType,
    pub experiences: Seq<ExperienceView>,
    pub l2_refs: Seq<Seq<char>>,
    pub index: Seq<KeywordIndexView>,
    pub updated_at: i64,
}

impl DeepView for TypeExperience {
    type V = TypeExperienceView;

    open spec fn deep_view(&self) -> TypeExperienceView {
        TypeExperienceView {
            task_type: self.task_type,
            experiences: self.experiences.deep_view(),
            l2_refs: self.l2_refs.deep_view(),
            index: self.index.deep_view(),
            updated_at: self.updated_at,
        }
    }
}

impl Replicate for TypeExperience {
    fn replicate(&self) -> (r: Self) {
        TypeExperience {
            task_type: self.task_type,
            experiences: self.experiences.replicate(),
            l2_refs: self.l2_refs.replicate(),
            index: self.index.replicate(),
            updated_at: self.updated_at,
        }
    }
}

/// How much was learned of a kind of task.
#[derive(Debug, PartialEq)]
pub struct AbstractIndexEntry {
    pub task_type: TaskType,
    pub experience_count: usize,
    pub injectable_count: usize,
    pub l2_task_count: usize,
}

/// What such a count is.
#[verifier::ext_equal]
pub struct AbstractIndexEntryView {
    pub task_type: TaskType,
    pub experience_count: usize,
    pub injectable_count: usize,
    pub l2_task_count: usize,
}

impl DeepView for AbstractIndexEntry {
    type V = AbstractIndexEntryView;

    open spec fn deep_view(&self) -> AbstractIndexEntryView {
        AbstractIndexEntryView {
            task_type: self.task_type,
            experience_count: self.experience_count,
            injectable_count: self.injectable_count,
            l2_task_count: self.l2_task_count,
        }
    }
}

impl Replicate for AbstractIndexEntry {
    fn replicate(&self) -> (r: Self) {
        AbstractIndexEntry {
            task_type: self.task_type,
            experience_count: self.experience_count,
            injectable_count: self.injectable_count,
            l2_task_count: self.l2_task_count,
        }
    }
}

/// How much was learned.
#[derive(Debug, PartialEq)]
pub struct AbstractIndex {
    pub entries: Vec<AbstractIndexEntry>,
    pub updated_at: i64,
}

/// What such an index is.
#[verifier::ext_equal]
pub struct AbstractIndexView {
    pub entries: Seq<AbstractIndexEntryView>,
    pub updated_at: i64,
}

impl DeepView for AbstractIndex {
    type V = AbstractIndexView;

    open spec fn deep_view(&self) -> AbstractIndexView {
        AbstractIndexView {
            entries: self.entries.deep_view(),
            updated_at: self.updated_at,
        }
    }
}

impl Replicate for AbstractIndex {
    fn replicate(&self) -> (r: Self) {
        AbstractIndex {
            entries: self.entries.replicate(),
            updated_at: self.updated_at,
        }
    }
}

impl Keyed for TypeExperience {
    open spec fn key_of(v: TypeExperienceView) -> Seq<char> {
        task_type_text(v.task_type)
    }

    fn key(&self) -> (r: &str) {
        task_type_name(self.task_type)
    }
}

/// What may be handed to the main brain.
pub open spec fn injectable_of(t: TypeExperienceView) -> Seq<ExperienceView> {
    t.experiences.filter(|e: ExperienceView| e.injectable)
}

/// How much was learned of a kind of task. No more than `usize::MAX` can be
/// counted, and no more can be held.
pub open spec fn index_entry(t: TypeExperienceView) -> AbstractIndexEntryView {
    AbstractIndexEntryView {
        task_type: t.task_type,
        experience_count: t.experiences.len() as usize,
        injectable_count: injectable_of(t).len() as usize,
        l2_task_count: t.l2_refs.len() as usize,
    }
}

/// A keyword, which is in lower case, leads to what was learned of a kind of
/// task: it is one of its keywords, or stands in a pattern or a description.
pub open spec fn about_lowered(low: Seq<char>) -> spec_fn(TypeExperienceView) -> bool {
    |t: TypeExperienceView|
        some_is(t.index, |k: KeywordIndexView| lowercase_of(k.keyword) == low) || some_is(
            t.experiences,
            |e: ExperienceView|
                has_text(lowercase_of(e.pattern), low) || has_text(
                    lowercase_of(e.description),
                    low,
                ),
        )
}

/// A keyword leads to what was learned of a kind of task, whatever the case of
/// the letters.
pub open spec fn about(keyword: Seq<char>) -> spec_fn(TypeExperienceView) -> bool {
    about_lowered(lowercase_of(keyword))
}

fn injectable_experiences(t: &TypeExperience) -> (r: Vec<Experience>)
    ensures
        r.deep_view() == injectable_of(t.deep_view()),
{
    let f = |e: &Experience| -> (r: bool)
        ensures r == e.deep_view().injectable
    {
        e.injectable
    };
    filter_each(t.experiences.as_slice(), f, Ghost(|e: ExperienceView| e.injectable))
}

fn make_index_entry(t: &TypeExperience) -> (r: AbstractIndexEntry)
    ensures
        r.deep_view() == index_entry(t.deep_view()),
{
    let injectable = injectable_experiences(t);
    assert(injectable.deep_view().len() == injectable@.len());
    AbstractIndexEntry {
        task_type: t.task_type,
        experience_count: t.experiences.len(),
        injectable_count: injectable.len(),
        l2_task_count: t.l2_refs.len(),
    }
}

fn is_about(t: &TypeExperience, low: &str) -> (r: bool)
    ensures
        r == about_lowered(low@)(t.deep_view()),
{
    let ghost wanted = low@;
    let f = |k: &KeywordIndex| -> (r: bool)
        ensures r == (lowercase_of(k.deep_view().keyword) == low@)
    {
        let own = k.keyword.as_str().to_lowercase();
        same(own.as_str(), low)
    };
    let indexed = any_is(
        t.index.as_slice(),
        f,
        Ghost(|k: KeywordIndexView| lowercase_of(k.keyword) == wanted),
    );
    if indexed {
        return true;
    }
    let g = |e: &Experience| -> (r: bool)
        ensures
            r == (has_text(lowercase_of(e.deep_view().pattern), low@) || has_text(
                lowercase_of(e.deep_view().description),
                low@,
            ))
    {
        let pattern = e.pattern.as_str().to_lowercase();
        let description = e.description.as_str().to_lowercase();
        contains(pattern.as_str(), low) || contains(description.as_str(), low)
    };
    any_is(
        t.experiences.as_slice(),
        g,
        Ghost(
            |e: ExperienceView|
                has_text(lowercase_of(e.pattern), wanted) || has_text(
                    lowercase_of(e.description),
                    wanted,
                ),
        ),
    )
}

/// What was learned, by the kind of task.
pub struct AbstractLayer {
    pub types: Vec<TypeExperience>,
    pub index: Option<AbstractIndex>,
}

impl AbstractLayer {
    /// Nothing learned yet.
    pub fn new() -> (r: Self)
        ensures
            r.types.deep_view() == Seq::<TypeExperienceView>::empty(),
            r.index is None,
    {
        AbstractLayer { types: no_items(), index: None }
    }

    /// Puts what was learned in place of all that was there. Of two of one kind
    /// the later stays.
    pub fn regenerate(&mut self, type_experiences: Vec<TypeExperience>, now: i64)
        ensures
            final(self).types.deep_view() == keyed_put_all::<TypeExperience>(
                Seq::empty(),
                type_experiences.deep_view(),
            ),
            final(self).index is Some,
            final(self).index->0.deep_view() == (AbstractIndexView {
                entries: type_experiences.deep_view().map_values(
                    |t: TypeExperienceView| index_entry(t),
                ),
                updated_at: now,
            }),
    {
        let f = |t: &TypeExperience| -> (r: AbstractIndexEntry)
            ensures r.deep_view() == index_entry(t.deep_view())
        {
            make_index_entry(t)
        };
        let entries = map_each(
            type_experiences.as_slice(),
            f,
            Ghost(|t: TypeExperienceView| index_entry(t)),
        );
        let mut types: Vec<TypeExperience> = no_items();
        put_all(&mut types, &type_experiences);
        self.types = types;
        self.index = Some(AbstractIndex { entries, updated_at: now });
    }

    /// What was learned of a kind of task.
    pub fn load_type(&self, task_type: TaskType) -> (r: Option<TypeExperience>)
        ensures
            r.deep_view() == keyed_item::<TypeExperience>(
                self.types.deep_view(),
                task_type_text(task_type),
            ),
    {
        get_keyed(&self.types, task_type_name(task_type))
    }

    /// What was learned of every kind of task.
    pub fn load_all(&self) -> (r: Vec<TypeExperience>)
        ensures
            r.deep_view() == self.types.deep_view(),
    {
        self.types.replicate()
    }

    /// How much was learned; at `now` nothing, where nothing is kept.
    pub fn load_index(&self, now: i64) -> (r: AbstractIndex)
        ensures
            r.deep_view() == match self.index.deep_view() {
                Some(i) => i,
                None => AbstractIndexView { entries: Seq::empty(), updated_at: now },
            },
    {
        match &self.index {
            Some(i) => i.replicate(),
            None => AbstractIndex { entries: no_items(), updated_at: now },
        }
    }

    /// What may be handed to the main brain.
    pub fn load_injectable(&self) -> (r: Vec<Experience>)
        ensures
            r.deep_view() == flat_mapped(
                self.types.deep_view(),
                |t: TypeExperienceView| injectable_of(t),
            ),
    {
        let f = |t: &TypeExperience| -> (r: Vec<Experience>)
            ensures r.deep_view() == injectable_of(t.deep_view())
        {
            injectable_experiences(t)
        };
        flat_map_each(
            self.types.as_slice(),
            f,
            Ghost(|t: TypeExperienceView| injectable_of(t)),
        )
    }

    /// What a keyword leads to. A keyword of ASCII characters leads to the same
    /// as it does in lower case.
    pub fn find_by_keyword(&self, keyword: &str) -> (r: Vec<TypeExperience>)
        ensures
            r.deep_view() == self.types.deep_view().filter(about(keyword@)),
            all_ascii(keyword@) ==> r.deep_view() == self.types.deep_view().filter(
                about(ascii_lower(keyword@)),
            ),
    {
        let low = keyword.to_lowercase();
        let f = |t: &TypeExperience| -> (r: bool)
            ensures r == about_lowered(low@)(t.deep_view())
        {
            is_about(t, low.as_str())
        };
        filter_each(self.types.as_slice(), f, Ghost(about_lowered(low@)))
    }
}

proof fn lemma_put_all_keys(s: Seq<TypeExperienceView>, more: Seq<TypeExperienceView>)
    requires
        crate::keyed::distinct_keys::<TypeExperience>(s),
    ensures
        crate::keyed::distinct_keys::<TypeExperience>(keyed_put_all::<TypeExperience>(s, more)),
    decreases more.len(),
{
    if more.len() > 0 {
        lemma_put_all_keys(s, more.drop_last());
        crate::keyed::law_put_keeps_keys_distinct::<TypeExperience>(
            keyed_put_all::<TypeExperience>(s, more.drop_last()),
            more.last(),
        );
    }
}

proof fn lemma_put_all_found(more: Seq<TypeExperienceView>, i: int)
    requires
        0 <= i < more.len(),
        forall|k: int|
            i < k < more.len() ==> task_type_text((#[trigger] more[k]).task_type)
                != task_type_text(more[i].task_type),
    ensures
        keyed_item::<TypeExperience>(
            keyed_put_all::<TypeExperience>(Seq::empty(), more),
            task_type_text(more[i].task_type),
        ) == Some(more[i]),
    decreases more.len(),
{
    let rest = more.drop_last();
    crate::keyed::law_put_is_found::<TypeExperience>(
        keyed_put_all::<TypeExperience>(Seq::empty(), rest),
        more.last(),
        task_type_text(more[i].task_type),
    );
    if i < rest.len() {
        assert(task_type_text(more[more.len() - 1].task_type) != task_type_text(
            more[i].task_type,
        ));
        assert forall|k: int| i < k < rest.len() implies task_type_text(
            (#[trigger] rest[k]).task_type,
        ) != task_type_text(rest[i].task_type) by {
            assert(rest[k] == more[k]);
        }
        lemma_put_all_found(rest, i);
    }
}

/// Of each kind of task there is at most one record, and of the records that
/// were given each one that no later one of its kind follows is there as it was
/// given: where the kinds are distinct, all of them.
pub proof fn law_regenerated_types(more: Seq<TypeExperienceView>, i: int)
    requires
        0 <= i < more.len(),
        forall|k: int|
            i < k < more.len() ==> task_type_text((#[trigger] more[k]).task_type)
                != task_type_text(more[i].task_type),
    ensures
        crate::keyed::distinct_keys::<TypeExperience>(
            keyed_put_all::<TypeExperience>(Seq::empty(), more),
        ),
        keyed_item::<TypeExperience>(
            keyed_put_all::<TypeExperience>(Seq::empty(), more),
            task_type_text(more[i].task_type),
        ) == Some(more[i]),
{
    lemma_put_all_keys(Seq::empty(), more);
    lemma_put_all_found(more, i);
}

/// Letter case makes no difference to what a keyword leads to: keywords that
/// are the same in lower case lead to the same, and so does a keyword in lower
/// case where making it lower case once more changes nothing.
pub proof fn law_case_makes_no_difference(
    types: Seq<TypeExperienceView>,
    a: Seq<char>,
    b: Seq<char>,
)
    ensures
        lowercase_of(a) == lowercase_of(b) ==> types.filter(about(a)) == types.filter(about(b)),
        lowercase_of(lowercase_of(a)) == lowercase_of(a) ==> types.filter(about(lowercase_of(a)))
            == types.filter(about(a)),
{
}

} // verus!
