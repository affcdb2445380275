//! The main brain: what it carries from turn to turn, what it shows the model
//! and what it keeps of the model's work.

use crate::llm::provider::{
    calls_tool, saying, text_of_blocks, ChatMessage, MessageRole, MessageView,
};
use crate::llm::types::{no_usage, BlockView, ContentBlock, TokenUsage, ToolDefinition};
use crate::main_brain::compact::{
    body_chars, find_slide_out_turn, last_turn_chars, last_turn_tool_chars, pending_applied,
    saved_chars, shortened_count, slide_out, CompactionConfig,
};
use crate::main_brain::conversation::{
    chat_message, context_tokens_of, history_chars, rebuilt, said, tool_message, uttered,
    ConversationHistory, ConversationMessage, ConversationMessageView, HistoryView, SpeakerRole,
};
use crate::main_brain::error::{error_message, MainBrainError};
use crate::main_brain::prompts::{
    build_system_prompt_no_tools, build_system_prompt_with_tools, section, SYSTEM_PROMPT_NO_TOOLS,
    SYSTEM_PROMPT_WITH_TOOLS,
};
use crate::main_brain::tool_loop::ToolLoopResult;
use crate::memory::types::BrainState;
use crate::replicate::Replicate;
use crate::seqs::{lemma_deep_push, lemma_take_all, lemma_take_step};
use crate::shared::{TurnRecord, TurnRecordView, TurnRole};
use crate::text::{join, joined, same};
use std::collections::HashMap;
use std::collections::HashSet;
use vstd::prelude::*;

verus! {

/// The main brain.
#[derive(Debug)]
pub struct MainBrain {
    pub history: ConversationHistory,
    pub tools: Vec<ToolDefinition>,
    pub llm_max_tokens: u32,
    /// The sampling temperature, as it is written in decimal.
    pub llm_temperature: String,
    /// What the memory brain gave it to start with.
    pub memory_context: Option<String>,
    /// Which skills there are.
    pub skill_summary: Option<String>,
    /// The skill that every session starts with.
    pub bootstrap_content: Option<String>,
    pub session_prompt_tokens: u64,
    pub session_completion_tokens: u64,
    pub session_cache_read_tokens: u64,
    /// Shortened texts that wait to be put in place.
    pub pending_compressions: HashMap<usize, String>,
    /// The messages that were shortened.
    pub compressed_indices: HashSet<usize>,
    /// Whether shortening has started.
    pub compaction_triggered: bool,
    pub compaction_config: CompactionConfig,
    /// How many messages were shortened.
    pub compaction_count: u32,
    /// How many characters that saved.
    pub chars_saved_by_compaction: usize,
}

/// What a turn took.
#[derive(Debug, Clone, Copy, PartialEq, Eq)]
pub struct TurnUsage {
    pub total_tokens: u64,
    pub llm_calls: u32,
    pub duration_ms: u64,
    pub prompt_tokens: u64,
    pub completion_tokens: u64,
}

/// What a turn came to.
#[derive(Debug, PartialEq)]
pub struct MainBrainOutput {
    pub answer: String,
    pub usage: TurnUsage,
    pub turns: Vec<TurnRecord>,
}

// ---------------------------------------------------------------------------
// What the model is shown
// ---------------------------------------------------------------------------

/// The parts of the system prompt, the steadiest first.
pub open spec fn prompt_parts(
    bootstrap: Option<Seq<char>>,
    has_tools: bool,
    env_info: Seq<char>,
    skills: Option<Seq<char>>,
    memory: Option<Seq<char>>,
) -> Seq<Seq<char>> {
    section(bootstrap is Some, bootstrap->0) + seq![
        if has_tools {
            SYSTEM_PROMPT_WITH_TOOLS@
        } else {
            SYSTEM_PROMPT_NO_TOOLS@
        },
    ] + seq![env_info] + section(skills is Some, skills->0) + section(
        memory is Some,
        "\n"@ + memory->0,
    )
}

/// What the model is shown: the system prompt, and the conversation.
pub open spec fn shown_messages(b: MainBrain, env_info: Seq<char>) -> Seq<MessageView> {
    seq![
        saying(
            MessageRole::System,
            joined(
                prompt_parts(
                    b.bootstrap_content.deep_view(),
                    b.tools@.len() > 0,
                    env_info,
                    b.skill_summary.deep_view(),
                    b.memory_context.deep_view(),
                ),
                "\n"@,
            ),
        ),
    ] + b.history.deep_view().messages.map_values(|m: ConversationMessageView| chat_message(m))
}

fn add_part(parts: &mut Vec<String>, part: String)
    ensures
        final(parts).deep_view() == old(parts).deep_view() + seq![part@],
{
    let ghost before = *parts;
    parts.push(part);
    proof {
        lemma_deep_push(before, *parts, part);
        assert(before.deep_view().push(part@) =~= before.deep_view() + seq![part@]);
    }
}

// ---------------------------------------------------------------------------
// What is kept of the model's work
// ---------------------------------------------------------------------------

/// The tool results among the blocks, as messages.
pub open spec fn kept_results(blocks: Seq<BlockView>, now: i64) -> Seq<ConversationMessageView>
    decreases blocks.len(),
{
    if blocks.len() == 0 {
        Seq::empty()
    } else {
        let before = kept_results(blocks.drop_last(), now);
        match blocks.last() {
            BlockView::ToolResult { tool_use_id, content, is_error } => before.push(
                tool_message(tool_use_id, content, is_error, now),
            ),
            _ => before,
        }
    }
}

/// What is kept of a message of the loop: what the assistant said, with its
/// tool calls where it made some, and the tool results.
pub open spec fn kept(m: MessageView, now: i64) -> Seq<ConversationMessageView> {
    match m.role {
        MessageRole::Assistant => if calls_tool(m.content) {
            seq![
                ConversationMessageView {
                    role: SpeakerRole::Assistant,
                    content: m.content,
                    timestamp: now,
                },
            ]
        } else if text_of_blocks(m.content).len() > 0 {
            seq![uttered(SpeakerRole::Assistant, text_of_blocks(m.content), now)]
        } else {
            Seq::empty()
        },
        MessageRole::User => kept_results(m.content, now),
        _ => Seq::empty(),
    }
}

/// What is kept of the messages of the loop.
pub open spec fn kept_all(ms: Seq<MessageView>, now: i64) -> Seq<ConversationMessageView>
    decreases ms.len(),
{
    if ms.len() == 0 {
        Seq::empty()
    } else {
        kept_all(ms.drop_last(), now) + kept(ms.last(), now)
    }
}

/// The messages that the loop added to those it started with.
pub open spec fn added(ms: Seq<MessageView>, start: int) -> Seq<MessageView> {
    if start < ms.len() {
        ms.skip(start)
    } else {
        Seq::empty()
    }
}

/// The conversation with what is kept of the loop.
pub open spec fn with_loop(h: HistoryView, ms: Seq<MessageView>, now: i64) -> HistoryView {
    HistoryView {
        messages: h.messages + kept_all(added(ms, h.messages.len() as int + 1), now),
        ..h
    }
}

/// The answer is among the last three messages.
pub open spec fn ends_with_answer(ms: Seq<ConversationMessageView>, answer: Seq<char>) -> bool {
    exists|i: int|
        ms.len() - 3 <= i < ms.len() && 0 <= i && (#[trigger] ms[i]).role == SpeakerRole::Assistant
            && text_of_blocks(ms[i].content) == answer
}

/// The conversation after a turn that went well.
pub open spec fn after_success(
    h: HistoryView,
    ms: Seq<MessageView>,
    answer: Seq<char>,
    last_prompt_tokens: u64,
    now: i64,
) -> HistoryView {
    let merged = with_loop(h, ms, now);
    HistoryView {
        messages: if ends_with_answer(merged.messages, answer) {
            merged.messages
        } else {
            merged.messages.push(uttered(SpeakerRole::Assistant, answer, now))
        },
        tracked_prompt_tokens: last_prompt_tokens,
        ..merged
    }
}

/// The history after a turn that failed: what the loop said, and the error.
pub open spec fn after_failure(
    h: HistoryView,
    ms: Seq<MessageView>,
    error: Seq<char>,
    now: i64,
) -> HistoryView {
    said(with_loop(h, ms, now), SpeakerRole::Assistant, "[系统错误] "@ + error, now)
}

/// The history with what the user says, once what waited to be shortened is.
pub open spec fn with_input(
    h: HistoryView,
    input: Seq<char>,
    pending: Map<usize, String>,
    now: i64,
) -> HistoryView {
    HistoryView {
        messages: pending_applied(said(h, SpeakerRole::User, input, now).messages, pending),
        ..h
    }
}

/// Whether turns are to be shortened: it was decided before, the context fills
/// up, or the tools of the last turn said more than `threshold` characters.
pub open spec fn is_to_shorten(h: HistoryView, triggered: bool, threshold: nat) -> bool {
    triggered || fills_up(h) || last_turn_chars(h.messages) > threshold
}

/// What the last call took.
pub open spec fn last_usage(records: Seq<TokenUsage>) -> TokenUsage {
    if records.len() == 0 {
        no_usage()
    } else {
        records.last()
    }
}

fn keep_results(history: &mut ConversationHistory, blocks: &Vec<ContentBlock>, now: i64)
    ensures
        final(history).deep_view() == (HistoryView {
            messages: old(history).deep_view().messages + kept_results(blocks.deep_view(), now),
            ..old(history).deep_view()
        }),
{
    let ghost h = history.deep_view();
    let ghost all = blocks.deep_view();
    let mut i: usize = 0;
    assert(h.messages + kept_results(all.take(0), now) =~= h.messages);
    while i < blocks.len()
        invariant
            i <= blocks@.len(),
            all == blocks.deep_view(),
            history.deep_view() == (HistoryView {
                messages: h.messages + kept_results(all.take(i as int), now),
                ..h
            }),
        decreases blocks@.len() - i,
    {
        proof {
            lemma_take_step(all, i as int);
            assert(all[i as int] == blocks@[i as int].deep_view());
        }
        if let ContentBlock::ToolResult { tool_use_id, content, is_error } = &blocks[i] {
            history.push_tool_result(tool_use_id.as_str(), content.as_str(), *is_error, now);
            assert(history.deep_view().messages =~= h.messages + kept_results(
                all.take(i + 1),
                now,
            ));
        }
        i = i + 1;
    }
    proof {
        lemma_take_all(all);
    }
}

fn keep_message(history: &mut ConversationHistory, m: &ChatMessage, now: i64)
    ensures
        final(history).deep_view() == (HistoryView {
            messages: old(history).deep_view().messages + kept(m.deep_view(), now),
            ..old(history).deep_view()
        }),
{
    let ghost h = history.deep_view();
    let ghost v = m.deep_view();
    match m.role {
        MessageRole::Assistant => {
            let has_calls = m_calls_tool(m);
            if has_calls {
                history.push_assistant_blocks(m.content.replicate(), now);
                assert(history.deep_view().messages =~= h.messages + kept(v, now));
            } else {
                let text = m.text_content();
                if !text.as_str().is_empty() {
                    history.push_assistant(text.as_str(), now);
                    assert(history.deep_view().messages =~= h.messages + kept(v, now));
                } else {
                    assert(h.messages + kept(v, now) =~= h.messages);
                }
            }
        },
        MessageRole::User => keep_results(history, &m.content, now),
        _ => {
            assert(h.messages + kept(v, now) =~= h.messages);
        },
    }
}

fn m_calls_tool(m: &ChatMessage) -> (r: bool)
    ensures
        r == calls_tool(m.deep_view().content),
{
    let ghost all = m.content.deep_view();
    let mut i: usize = 0;
    while i < m.content.len()
        invariant
            i <= m.content@.len(),
            all == m.content.deep_view(),
            forall|k: int| 0 <= k < i ==> !(#[trigger] all[k] is ToolUse),
        decreases m.content@.len() - i,
    {
        assert(all[i as int] == m.content@[i as int].deep_view());
        if m.content[i].is_tool_use() {
            return true;
        }
        i = i + 1;
    }
    false
}

fn keep_loop(history: &mut ConversationHistory, messages: &[ChatMessage], now: i64)
    requires
        old(history).messages@.len() < usize::MAX,
    ensures
        final(history).deep_view() == with_loop(
            old(history).deep_view(),
            messages.deep_view(),
            now,
        ),
{
    let ghost h = history.deep_view();
    let start: usize = history.len() + 1;
    let ghost all = added(messages.deep_view(), start as int);
    let mut i: usize = start;
    assert(h.messages + kept_all(all.take(0), now) =~= h.messages);
    while i < messages.len()
        invariant
            start <= i,
            start < messages@.len() ==> i <= messages@.len(),
            all == added(messages.deep_view(), start as int),
            start < messages@.len() ==> history.deep_view() == (HistoryView {
                messages: h.messages + kept_all(all.take(i - start), now),
                ..h
            }),
            start >= messages@.len() ==> history.deep_view() == h && i == start,
        decreases messages@.len() - i,
    {
        proof {
            lemma_take_step(all, i - start);
            assert(all[i - start] == messages@[i as int].deep_view());
        }
        keep_message(history, &messages[i], now);
        assert(history.deep_view().messages =~= h.messages + kept_all(all.take(i - start + 1), now));
        i = i + 1;
    }
    proof {
        if start < messages@.len() {
            lemma_take_all(all);
        } else {
            assert(h.messages + kept_all(all, now) =~= h.messages);
        }
    }
}

fn has_answer(messages: &[ConversationMessage], answer: &str) -> (r: bool)
    ensures
        r == ends_with_answer(messages.deep_view(), answer@),
{
    let ghost all = messages.deep_view();
    let count: usize = messages.len();
    let from: usize = if count > 3 {
        count - 3
    } else {
        0
    };
    let mut i: usize = from;
    while i < count
        invariant
            from <= i <= count == messages@.len(),
            from == if count > 3 {
                count - 3
            } else {
                0
            },
            all == messages.deep_view(),
            forall|k: int|
                from <= k < i ==> !((#[trigger] all[k]).role == SpeakerRole::Assistant
                    && text_of_blocks(all[k].content) == answer@),
        decreases count - i,
    {
        assert(all[i as int] == messages@[i as int].deep_view());
        if messages[i].role == SpeakerRole::Assistant {
            let text = messages[i].text_content();
            if same(text.as_str(), answer) {
                return true;
            }
        }
        i = i + 1;
    }
    false
}

/// More than three fifths of the context are taken; of none that is limited to
/// nothing.
pub open spec fn fills_up(h: HistoryView) -> bool {
    h.max_context_tokens > 0 && 5 * context_tokens_of(h) > 3 * h.max_context_tokens
}

impl MainBrain {
    /// What holds of a main brain at all times: a message for which a shortened
    /// text waits counts as shortened.
    pub open spec fn wf(self) -> bool {
        forall|i: usize| #[trigger]
            self.pending_compressions@.dom().contains(i) ==> self.compressed_indices@.contains(i)
    }

    /// Everything but the conversation is as in `b`.
    pub open spec fn same_but_history(self, b: MainBrain) -> bool {
        &&& self.tools == b.tools
        &&& self.llm_max_tokens == b.llm_max_tokens
        &&& self.llm_temperature == b.llm_temperature
        &&& self.memory_context == b.memory_context
        &&& self.skill_summary == b.skill_summary
        &&& self.bootstrap_content == b.bootstrap_content
        &&& self.session_prompt_tokens == b.session_prompt_tokens
        &&& self.session_completion_tokens == b.session_completion_tokens
        &&& self.session_cache_read_tokens == b.session_cache_read_tokens
        &&& self.pending_compressions == b.pending_compressions
        &&& self.compressed_indices == b.compressed_indices
        &&& self.compaction_triggered == b.compaction_triggered
        &&& self.compaction_config == b.compaction_config
        &&& self.compaction_count == b.compaction_count
        &&& self.chars_saved_by_compaction == b.chars_saved_by_compaction
    }

    /// A main brain that has heard nothing yet.
    pub fn new(
        max_context_tokens: usize,
        llm_max_tokens: u32,
        llm_temperature: &str,
    ) -> (r: Self)
        ensures
            r.wf(),
            r.history.deep_view() == (HistoryView {
                messages: Seq::empty(),
                max_context_tokens,
                tracked_prompt_tokens: 0,
            }),
            r.tools@.len() == 0,
            r.llm_max_tokens == llm_max_tokens,
            r.llm_temperature@ == llm_temperature@,
            r.memory_context is None,
            r.skill_summary is None,
            r.bootstrap_content is None,
            r.session_prompt_tokens == 0,
            r.session_completion_tokens == 0,
            r.session_cache_read_tokens == 0,
            r.pending_compressions@ == Map::<usize, String>::empty(),
            r.compressed_indices@ == Set::<usize>::empty(),
            !r.compaction_triggered,
            r.compaction_config.preserve_recent_turns == 4,
            r.compaction_config.tool_result_compress_threshold == 10000,
            r.compaction_count == 0,
            r.chars_saved_by_compaction == 0,
    {
        MainBrain {
            history: ConversationHistory::new(max_context_tokens),
            tools: Vec::new(),
            llm_max_tokens,
            llm_temperature: llm_temperature.to_owned(),
            memory_context: None,
            skill_summary: None,
            bootstrap_content: None,
            session_prompt_tokens: 0,
            session_completion_tokens: 0,
            session_cache_read_tokens: 0,
            pending_compressions: HashMap::new(),
            compressed_indices: HashSet::new(),
            compaction_triggered: false,
            compaction_config: CompactionConfig::default(),
            compaction_count: 0,
            chars_saved_by_compaction: 0,
        }
    }

    /// Sets the tools.
    pub fn register_tools(&mut self, tools: Vec<ToolDefinition>)
        ensures
            *final(self) == (MainBrain { tools, ..*old(self) }),
    {
        self.tools = tools;
    }

    /// The start of a turn: what the user says is kept at once, so that it is
    /// not lost whatever comes, and the shortened texts that wait are put in
    /// place.
    pub fn accept_input(&mut self, input: &str, now: i64)
        requires
            old(self).wf(),
            body_chars(
                old(self).history.deep_view().messages.push(
                    uttered(SpeakerRole::User, input@, now),
                ),
            ) <= usize::MAX,
            old(self).compaction_count + old(self).history.messages@.len() + 1 <= u32::MAX,
            old(self).chars_saved_by_compaction + body_chars(
                old(self).history.deep_view().messages.push(
                    uttered(SpeakerRole::User, input@, now),
                ),
            ) <= usize::MAX,
        ensures
            final(self).wf(),
            ({
                let ms = old(self).history.deep_view().messages.push(
                    uttered(SpeakerRole::User, input@, now),
                );
                let pending = old(self).pending_compressions@;
                &&& final(self).history.deep_view() == with_input(
                    old(self).history.deep_view(),
                    input@,
                    pending,
                    now,
                )
                &&& final(self).pending_compressions@ == Map::<usize, String>::empty()
                &&& final(self).compaction_count == old(self).compaction_count + shortened_count(
                    ms,
                    pending,
                    ms.len() as int,
                )
                &&& final(self).chars_saved_by_compaction == old(self).chars_saved_by_compaction
                    + saved_chars(ms, pending, ms.len() as int)
            }),
            final(self).same_but_history(
                MainBrain {
                    pending_compressions: final(self).pending_compressions,
                    compaction_count: final(self).compaction_count,
                    chars_saved_by_compaction: final(self).chars_saved_by_compaction,
                    ..*old(self)
                },
            ),
    {
        self.history.push_user(input, now);
        let ghost ms = self.history.deep_view().messages;
        let mut pending: HashMap<usize, String> = HashMap::new();
        std::mem::swap(&mut pending, &mut self.pending_compressions);
        let done = self.history.apply_pending_compaction(&pending);
        proof {
            crate::main_brain::compact::lemma_saved_bounds(ms, pending@);
        }
        self.compaction_count = self.compaction_count + done.compacted_groups as u32;
        self.chars_saved_by_compaction = self.chars_saved_by_compaction + done.chars_saved;
    }

    /// What the model is shown: the system prompt with the environment, the
    /// skills and the memories, and the conversation.
    pub fn build_messages(&self, env_info: &str) -> (r: Vec<ChatMessage>)
        ensures
            r.deep_view() == shown_messages(*self, env_info@),
    {
        let mut parts: Vec<String> = Vec::new();
        assert(parts.deep_view() =~= Seq::<Seq<char>>::empty());
        if let Some(b) = &self.bootstrap_content {
            add_part(&mut parts, b.clone());
        }
        assert(parts.deep_view() =~= section(
            self.bootstrap_content is Some,
            self.bootstrap_content.deep_view()->0,
        ));
        let system_prompt = if self.tools.len() == 0 {
            build_system_prompt_no_tools()
        } else {
            build_system_prompt_with_tools()
        };
        add_part(&mut parts, system_prompt);
        add_part(&mut parts, env_info.to_owned());
        let ghost before = parts.deep_view();
        assert(before + Seq::<Seq<char>>::empty() =~= before);
        if let Some(skills) = &self.skill_summary {
            add_part(&mut parts, skills.clone());
        }
        let ghost before = parts.deep_view();
        assert(before + Seq::<Seq<char>>::empty() =~= before);
        if let Some(ctx) = &self.memory_context {
            let mut text = "\n".to_owned();
            text.append(ctx.as_str());
            add_part(&mut parts, text);
        }
        assert(parts.deep_view() == prompt_parts(
            self.bootstrap_content.deep_view(),
            self.tools@.len() > 0,
            env_info@,
            self.skill_summary.deep_view(),
            self.memory_context.deep_view(),
        ));
        let full = join(parts.as_slice(), "\n");
        let first = ChatMessage::system(full.as_str());
        let mut messages: Vec<ChatMessage> = Vec::new();
        messages.push(first);
        assert(messages.deep_view() =~= seq![first.deep_view()]);
        let mut rest = self.history.to_chat_messages();
        let ghost tail = rest.deep_view();
        messages.append(&mut rest);
        assert(messages.deep_view() =~= seq![first.deep_view()] + tail);
        messages
    }

    /// A turn that failed: what the loop did is kept, and the failure is noted
    /// as the assistant's word.
    pub fn record_failure(&mut self, messages: &[ChatMessage], error: &MainBrainError, now: i64)
        requires
            old(self).history.messages@.len() < usize::MAX,
        ensures
            final(self).history.deep_view() == after_failure(
                old(self).history.deep_view(),
                messages.deep_view(),
                error_message(error.deep_view()),
                now,
            ),
            final(self).same_but_history(*old(self)),
    {
        keep_loop(&mut self.history, messages, now);
        let mut text = "[系统错误] ".to_owned();
        let message = error.message();
        text.append(message.as_str());
        self.history.push_assistant(text.as_str(), now);
    }

    /// A turn that went well: what the loop did and the answer are kept, and
    /// the tokens are counted.
    pub fn record_success(
        &mut self,
        messages: &[ChatMessage],
        result: ToolLoopResult,
        input: &str,
        duration_ms: u64,
        now: i64,
        now_text: &str,
    ) -> (r: MainBrainOutput)
        requires
            old(self).history.messages@.len() < usize::MAX,
            old(self).session_prompt_tokens + result.total_prompt_tokens <= u64::MAX,
            old(self).session_completion_tokens + last_usage(
                result.usage_records@,
            ).completion_tokens <= u64::MAX,
            old(self).session_cache_read_tokens + last_usage(
                result.usage_records@,
            ).cache_read_input_tokens <= u64::MAX,
        ensures
            ({
                let answer = text_of_blocks(result.response.content.deep_view());
                let usage = last_usage(result.usage_records@);
                &&& final(self).history.deep_view() == after_success(
                    old(self).history.deep_view(),
                    messages.deep_view(),
                    answer,
                    result.last_prompt_tokens,
                    now,
                )
                &&& final(self).session_prompt_tokens == old(self).session_prompt_tokens
                    + result.total_prompt_tokens
                &&& final(self).session_completion_tokens == old(self).session_completion_tokens
                    + usage.completion_tokens
                &&& final(self).session_cache_read_tokens == old(self).session_cache_read_tokens
                    + usage.cache_read_input_tokens
                &&& r.answer@ == answer
                &&& r.usage == (TurnUsage {
                    total_tokens: usage.total_tokens,
                    llm_calls: result.llm_calls,
                    duration_ms,
                    prompt_tokens: result.total_prompt_tokens,
                    completion_tokens: usage.completion_tokens,
                })
                &&& r.turns.deep_view() == seq![
                    TurnRecordView {
                        role: TurnRole::User,
                        content: input@,
                        tool_call: None,
                        timestamp: now_text@,
                    },
                ] + result.turns.deep_view()
            }),
            final(self).same_but_history(
                MainBrain {
                    session_prompt_tokens: final(self).session_prompt_tokens,
                    session_completion_tokens: final(self).session_completion_tokens,
                    session_cache_read_tokens: final(self).session_cache_read_tokens,
                    ..*old(self)
                },
            ),
    {
        let answer = result.response.text();
        let usage: TokenUsage = if result.usage_records.len() == 0 {
            TokenUsage::default()
        } else {
            result.usage_records[result.usage_records.len() - 1]
        };
        keep_loop(&mut self.history, messages, now);
        if !has_answer(self.history.messages(), answer.as_str()) {
            self.history.push_assistant(answer.as_str(), now);
        }
        self.session_prompt_tokens = self.session_prompt_tokens + result.total_prompt_tokens;
        self.session_completion_tokens = self.session_completion_tokens + usage.completion_tokens;
        self.session_cache_read_tokens =
        self.session_cache_read_tokens + usage.cache_read_input_tokens;
        self.history.set_tracked_tokens(result.last_prompt_tokens);
        let mut turns: Vec<TurnRecord> = Vec::new();
        let first = TurnRecord {
            role: TurnRole::User,
            content: input.to_owned(),
            tool_call: None,
            timestamp: now_text.to_owned(),
        };
        turns.push(first);
        assert(turns.deep_view() =~= seq![first.deep_view()]);
        let mut rest = result.turns;
        let ghost tail = rest.deep_view();
        turns.append(&mut rest);
        assert(turns.deep_view() =~= seq![first.deep_view()] + tail);
        MainBrainOutput {
            answer,
            usage: TurnUsage {
                total_tokens: usage.total_tokens,
                llm_calls: result.llm_calls,
                duration_ms,
                prompt_tokens: result.total_prompt_tokens,
                completion_tokens: usage.completion_tokens,
            },
            turns,
        }
    }

    /// Which turn to shorten in the background, if any. Shortening starts once
    /// the tool results of a turn are long or the context fills up, and then
    /// goes on.
    pub fn plan_compaction(&mut self) -> (r: Option<(usize, usize)>)
        requires
            body_chars(old(self).history.deep_view().messages) <= usize::MAX,
            history_chars(old(self).history.deep_view().messages) * 3 <= usize::MAX,
            old(self).history.tracked_prompt_tokens <= usize::MAX,
        ensures
            ({
                let ms = old(self).history.deep_view().messages;
                let triggered = is_to_shorten(
                    old(self).history.deep_view(),
                    old(self).compaction_triggered,
                    old(self).compaction_config.tool_result_compress_threshold as nat,
                );
                let turn = slide_out(
                    ms,
                    old(self).compressed_indices@,
                    old(self).compaction_config.preserve_recent_turns as int,
                );
                &&& *final(self) == (MainBrain { compaction_triggered: triggered, ..*old(self) })
                &&& match r {
                    Some((start, end)) => triggered && turn == Some((start as int, end as int)),
                    None => !triggered || turn is None,
                }
            }),
    {
        let chars: usize = last_turn_tool_chars(self.history.messages());
        let tokens: usize = self.history.context_tokens();
        let limit: usize = self.history.max_context_tokens;
        let filling = limit > 0 && 5 * (tokens as u128) > 3 * (limit as u128);
        if chars > self.compaction_config.tool_result_compress_threshold || filling {
            self.compaction_triggered = true;
        }
        if self.compaction_triggered {
            find_slide_out_turn(
                self.history.messages(),
                &self.compressed_indices,
                &self.compaction_config,
            )
        } else {
            None
        }
    }

    /// What the model made of the turn `start..end`: its text waits to be put in
    /// the place of the turn's tool messages, and these count as shortened.
    pub fn accept_compression(&mut self, turn: &[ConversationMessage], start: usize, text: &str)
        requires
            old(self).wf(),
            start + turn@.len() <= usize::MAX,
        ensures
            final(self).wf(),
            forall|i: usize| #[trigger]
                final(self).pending_compressions@.dom().contains(i) <==> (
                old(self).pending_compressions@.dom().contains(i) || (text@.len() > 0 && start <= i
                    < start + turn@.len() && turn@[i - start].role == SpeakerRole::Tool)),
            forall|i: usize|
                text@.len() > 0 && start <= i < start + turn@.len() && turn@[i - start].role
                    == SpeakerRole::Tool ==> (
                #[trigger] final(self).pending_compressions@[i])@ == text@,
            forall|i: usize|
                !(text@.len() > 0 && start <= i < start + turn@.len() && turn@[i - start].role
                    == SpeakerRole::Tool) && old(self).pending_compressions@.dom().contains(i)
                    ==> #[trigger] final(self).pending_compressions@[i] == old(
                    self,
                ).pending_compressions@[i],
            forall|i: usize| #[trigger]
                final(self).compressed_indices@.contains(i) <==> (
                old(self).compressed_indices@.contains(i) || (text@.len() > 0 && start <= i < start
                    + turn@.len() && turn@[i - start].role == SpeakerRole::Tool)),
            final(self).history == old(self).history,
            final(self).same_but_history(
                MainBrain {
                    pending_compressions: final(self).pending_compressions,
                    compressed_indices: final(self).compressed_indices,
                    ..*old(self)
                },
            ),
    {
        broadcast use vstd::std_specs::hash::group_hash_axioms;

        let ghost before = *self;
        if text.is_empty() {
            return;
        }
        let mut k: usize = 0;
        while k < turn.len()
            invariant
                k <= turn@.len(),
                start + turn@.len() <= usize::MAX,
                self.wf(),
                forall|i: usize| #[trigger]
                    self.pending_compressions@.dom().contains(i) <==> (
                    before.pending_compressions@.dom().contains(i) || (start <= i < start + k
                        && turn@[i - start].role == SpeakerRole::Tool)),
                forall|i: usize|
                    start <= i < start + k && turn@[i - start].role == SpeakerRole::Tool ==> (
                    #[trigger] self.pending_compressions@[i])@ == text@,
                forall|i: usize|
                    !(start <= i < start + k && turn@[i - start].role == SpeakerRole::Tool)
                        && before.pending_compressions@.dom().contains(i)
                        ==> #[trigger] self.pending_compressions@[i]
                        == before.pending_compressions@[i],
                forall|i: usize| #[trigger]
                    self.compressed_indices@.contains(i) <==> (before.compressed_indices@.contains(
                        i,
                    ) || (start <= i < start + k && turn@[i - start].role == SpeakerRole::Tool)),
                self.history == before.history,
                self.same_but_history(
                    MainBrain {
                        pending_compressions: self.pending_compressions,
                        compressed_indices: self.compressed_indices,
                        ..before
                    },
                ),
            decreases turn@.len() - k,
        {
            if turn[k].role == SpeakerRole::Tool {
                self.pending_compressions.insert(start + k, text.to_owned());
                self.compressed_indices.insert(start + k);
            }
            k = k + 1;
        }
    }

    /// Keeps an answer that was streamed.
    pub fn commit_streaming_result(&mut self, answer: &str, now: i64)
        ensures
            final(self).history.deep_view() == said(
                old(self).history.deep_view(),
                SpeakerRole::Assistant,
                answer@,
                now,
            ),
            final(self).same_but_history(*old(self)),
    {
        self.history.push_assistant(answer, now);
    }

    /// Keeps what the evaluation says.
    pub fn push_evaluator_to_history(&mut self, feedback: &str, now: i64)
        ensures
            final(self).history.deep_view() == said(
                old(self).history.deep_view(),
                SpeakerRole::Evaluator,
                feedback@,
                now,
            ),
            final(self).same_but_history(*old(self)),
    {
        self.history.push_evaluator(feedback, now);
    }

    /// Starts the conversation again from a snapshot of the memory.
    pub fn rebuild_context(&mut self, brain_state: &BrainState, keep_recent_turns: usize, now: i64)
        ensures
            final(self).history.deep_view() == rebuilt(
                old(self).history.deep_view(),
                brain_state.deep_view(),
                keep_recent_turns as nat,
                now,
            ),
            final(self).same_but_history(*old(self)),
    {
        let _cut: usize = self.history.clear_and_rebuild(brain_state, keep_recent_turns, now);
    }

    /// Sets what the memory brain gave; an empty text changes nothing.
    pub fn inject_memory_context(&mut self, brain_state_text: &str)
        ensures
            brain_state_text@.len() == 0 ==> *final(self) == *old(self),
            brain_state_text@.len() > 0 ==> {
                &&& final(self).memory_context.deep_view() == Some(brain_state_text@)
                &&& *final(self) == (MainBrain {
                    memory_context: final(self).memory_context,
                    ..*old(self)
                })
            },
    {
        if brain_state_text.is_empty() {
            return;
        }
        self.memory_context = Some(brain_state_text.to_owned());
    }

    /// Sets which skills there are; an empty text changes nothing.
    pub fn inject_skill_summary(&mut self, summary: String)
        ensures
            summary@.len() == 0 ==> *final(self) == *old(self),
            summary@.len() > 0 ==> *final(self) == (MainBrain {
                skill_summary: Some(summary),
                ..*old(self)
            }),
    {
        if summary.as_str().is_empty() {
            return;
        }
        self.skill_summary = Some(summary);
    }

    /// Sets the skill that the session starts with; an empty text changes
    /// nothing.
    pub fn inject_bootstrap(&mut self, content: String)
        ensures
            content@.len() == 0 ==> *final(self) == *old(self),
            content@.len() > 0 ==> *final(self) == (MainBrain {
                bootstrap_content: Some(content),
                ..*old(self)
            }),
    {
        if content.as_str().is_empty() {
            return;
        }
        self.bootstrap_content = Some(content);
    }

    /// Adds memories to the conversation as the system's word; an empty text
    /// changes nothing.
    pub fn push_memory_context(&mut self, memory_text: &str, now: i64)
        ensures
            memory_text@.len() == 0 ==> *final(self) == *old(self),
            memory_text@.len() > 0 ==> final(self).history.deep_view() == said(
                old(self).history.deep_view(),
                SpeakerRole::System,
                memory_text@,
                now,
            ),
            final(self).same_but_history(*old(self)),
    {
        if memory_text.is_empty() {
            return;
        }
        self.history.push_system(memory_text, now);
    }

    /// What was said.
    pub fn history(&self) -> (r: &[ConversationMessage])
        ensures
            r.deep_view() == self.history.deep_view().messages,
    {
        self.history.messages()
    }

    /// How many messages there are.
    pub fn history_len(&self) -> (r: usize)
        ensures
            r == self.history.deep_view().messages.len(),
    {
        self.history.len()
    }

    /// Forgets what was said.
    pub fn clear_history(&mut self)
        ensures
            final(self).history.deep_view() == (HistoryView {
                messages: Seq::empty(),
                ..old(self).history.deep_view()
            }),
            final(self).same_but_history(*old(self)),
    {
        self.history.clear();
    }

    /// The prompt tokens of the session.
    pub fn cumulative_prompt_tokens(&self) -> (r: u64)
        ensures
            r == self.session_prompt_tokens,
    {
        self.session_prompt_tokens
    }

    /// The completion tokens of the session.
    pub fn cumulative_completion_tokens(&self) -> (r: u64)
        ensures
            r == self.session_completion_tokens,
    {
        self.session_completion_tokens
    }

    /// The tokens that the session had from the cache.
    pub fn cumulative_cache_read_tokens(&self) -> (r: u64)
        ensures
            r == self.session_cache_read_tokens,
    {
        self.session_cache_read_tokens
    }

    /// How many messages were shortened.
    pub fn compaction_count(&self) -> (r: u32)
        ensures
            r == self.compaction_count,
    {
        self.compaction_count
    }

    /// How many characters that saved.
    pub fn chars_saved_by_compaction(&self) -> (r: usize)
        ensures
            r == self.chars_saved_by_compaction,
    {
        self.chars_saved_by_compaction
    }
}

// ---------------------------------------------------------------------------
// Laws
// ---------------------------------------------------------------------------

/// Whatever the loop did, what was said before it stays, the user's last word
/// included: a turn only adds to the conversation.
pub proof fn law_turns_only_add(
    h: HistoryView,
    ms: Seq<MessageView>,
    answer: Seq<char>,
    tokens: u64,
    now: i64,
)
    ensures
        with_loop(h, ms, now).messages.len() >= h.messages.len(),
        with_loop(h, ms, now).messages.take(h.messages.len() as int) == h.messages,
        after_success(h, ms, answer, tokens, now).messages.len() >= h.messages.len(),
        after_success(h, ms, answer, tokens, now).messages.take(h.messages.len() as int)
            == h.messages,
{
    assert(with_loop(h, ms, now).messages.take(h.messages.len() as int) =~= h.messages);
    assert(after_success(h, ms, answer, tokens, now).messages.take(h.messages.len() as int)
        =~= h.messages);
}

/// After a turn that went well the answer stands among the last three
/// messages, as the assistant's word.
pub proof fn law_answer_is_kept(
    h: HistoryView,
    ms: Seq<MessageView>,
    answer: Seq<char>,
    tokens: u64,
    now: i64,
)
    ensures
        ends_with_answer(after_success(h, ms, answer, tokens, now).messages, answer),
{
    let merged = with_loop(h, ms, now).messages;
    if !ends_with_answer(merged, answer) {
        let last = uttered(SpeakerRole::Assistant, answer, now);
        let all = merged.push(last);
        assert(last.content.drop_last() =~= Seq::<BlockView>::empty());
        assert(text_of_blocks(last.content.drop_last()) =~= Seq::<char>::empty());
        assert(text_of_blocks(last.content) =~= answer);
        assert(all[merged.len() as int] == last);
    }
}

} // verus!
