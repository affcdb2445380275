//! The conversation that the main brain keeps.

use crate::llm::provider::{
    text_of_blocks, text_of_content, ChatMessage, MessageRole, MessageView,
};
use crate::llm::types::{BlockView, ContentBlock};

use crate::main_brain::compact::{
    apply_pending, body_chars, pending_applied, saved_chars, shortened_count, CompactionResult,
};
use crate::main_brain::tool_loop::estimate;
use crate::main_brain::prompts::{build_context_rebuild_prompt, context_rebuild_prompt};
use crate::memory::types::{
    pitfall_line, write_pitfall_line, BrainState, BrainStateView, PitfallRecord, PitfallRecordView,
};
use crate::replicate::{copies, Replicate};
use crate::seqs::{lemma_deep_push, lemma_take_all, lemma_take_step};
use crate::text::{char_count, join, joined, quoted, quoted_of};
use std::collections::HashMap;
use vstd::prelude::*;

verus! {

/// Who speaks in a conversation.
#[derive(Debug, Clone, Copy, PartialEq, Eq, Structural)]
pub enum SpeakerRole {
    User,
    Assistant,
    Tool,
    System,
    Evaluator,
}

impl DeepView for SpeakerRole {
    type V = SpeakerRole;

    open spec fn deep_view(&self) -> SpeakerRole {
        *self
    }
}

impl Replicate for SpeakerRole {
    fn replicate(&self) -> (r: Self) {
        *self
    }
}

/// One message of a conversation.
#[derive(Debug, PartialEq)]
pub struct ConversationMessage {
    pub role: SpeakerRole,
    pub content: Vec<ContentBlock>,
    /// When it was said, in milliseconds of Unix time.
    pub timestamp: i64,
}

/// What a message is.
#[verifier::ext_equal]
pub struct ConversationMessageView {
    pub role: SpeakerRole,
    pub content: Seq<BlockView>,
    pub timestamp: i64,
}

impl DeepView for ConversationMessage {
    type V = ConversationMessageView;

    open spec fn deep_view(&self) -> ConversationMessageView {
        ConversationMessageView {
            role: self.role,
            content: self.content.deep_view(),
            timestamp: self.timestamp,
        }
    }
}

impl Replicate for ConversationMessage {
    fn replicate(&self) -> (r: Self) {
        ConversationMessage {
            role: self.role,
            content: self.content.replicate(),
            timestamp: self.timestamp,
        }
    }
}


/// A message of `role` that says `text`.
pub open spec fn uttered(role: SpeakerRole, text: Seq<char>, now: i64) -> ConversationMessageView {
    ConversationMessageView { role, content: seq![BlockView::Text { text }], timestamp: now }
}

/// The message of a tool's result.
pub open spec fn tool_message(
    tool_use_id: Seq<char>,
    content: Seq<char>,
    is_error: bool,
    now: i64,
) -> ConversationMessageView {
    ConversationMessageView {
        role: SpeakerRole::Tool,
        content: seq![BlockView::ToolResult { tool_use_id, content, is_error }],
        timestamp: now,
    }
}

impl ConversationMessage {
    /// A message of `role` that says `text`.
    pub fn saying(role: SpeakerRole, text: &str, now: i64) -> (r: Self)
        ensures
            r.deep_view() == uttered(role, text@, now),
    {
        let m = ConversationMessage {
            role,
            content: vec![ContentBlock::text(text)],
            timestamp: now,
        };
        assert(m.deep_view() =~= uttered(role, text@, now));
        m
    }

    /// What the user says.
    pub fn user(text: &str, now: i64) -> (r: Self)
        ensures
            r.deep_view() == uttered(SpeakerRole::User, text@, now),
    {
        Self::saying(SpeakerRole::User, text, now)
    }

    /// What the assistant says.
    pub fn assistant(text: &str, now: i64) -> (r: Self)
        ensures
            r.deep_view() == uttered(SpeakerRole::Assistant, text@, now),
    {
        Self::saying(SpeakerRole::Assistant, text, now)
    }

    /// What a tool says.
    pub fn tool(text: &str, now: i64) -> (r: Self)
        ensures
            r.deep_view() == uttered(SpeakerRole::Tool, text@, now),
    {
        Self::saying(SpeakerRole::Tool, text, now)
    }

    /// What a tool gave back for a call.
    pub fn tool_result(tool_use_id: &str, content: &str, is_error: bool, now: i64) -> (r: Self)
        ensures
            r.deep_view() == tool_message(tool_use_id@, content@, is_error, now),
    {
        let m = ConversationMessage {
            role: SpeakerRole::Tool,
            content: vec![
                ContentBlock::ToolResult {
                    tool_use_id: tool_use_id.to_owned(),
                    content: content.to_owned(),
                    is_error,
                },
            ],
            timestamp: now,
        };
        assert(m.deep_view() =~= tool_message(tool_use_id@, content@, is_error, now));
        m
    }

    /// The text of the text blocks, one after the other.
    pub fn text_content(&self) -> (r: String)
        ensures
            r@ == text_of_blocks(self.content.deep_view()),
    {
        text_of_content(self.content.as_slice())
    }
}

/// The conversation, and how much of it the model takes in.
#[derive(Debug, PartialEq)]
pub struct ConversationHistory {
    pub messages: Vec<ConversationMessage>,
    /// The most tokens that the context may hold.
    pub max_context_tokens: usize,
    /// The prompt tokens that the service counted last; 0 where it did not.
    pub tracked_prompt_tokens: u64,
}

/// What a conversation is.
#[verifier::ext_equal]
pub struct HistoryView {
    pub messages: Seq<ConversationMessageView>,
    pub max_context_tokens: usize,
    pub tracked_prompt_tokens: u64,
}

impl DeepView for ConversationHistory {
    type V = HistoryView;

    open spec fn deep_view(&self) -> HistoryView {
        HistoryView {
            messages: self.messages.deep_view(),
            max_context_tokens: self.max_context_tokens,
            tracked_prompt_tokens: self.tracked_prompt_tokens,
        }
    }
}

/// How many characters of text the messages have.
pub open spec fn history_chars(ms: Seq<ConversationMessageView>) -> nat
    decreases ms.len(),
{
    if ms.len() == 0 {
        0
    } else {
        history_chars(ms.drop_last()) + text_of_blocks(ms.last().content).len()
    }
}

/// About how many tokens the text of the messages takes.
pub open spec fn history_tokens(ms: Seq<ConversationMessageView>) -> nat
    decreases ms.len(),
{
    if ms.len() == 0 {
        0
    } else {
        history_tokens(ms.drop_last()) + estimate(text_of_blocks(ms.last().content).len())
    }
}

/// How many tokens a conversation takes: what the service counted, and an
/// estimate where it did not count.
pub open spec fn context_tokens_of(h: HistoryView) -> nat {
    if h.tracked_prompt_tokens > 0 {
        h.tracked_prompt_tokens as nat
    } else {
        history_tokens(h.messages)
    }
}

pub(crate) proof fn lemma_history_chars_prefix(ms: Seq<ConversationMessageView>, i: int)
    requires
        0 <= i <= ms.len(),
    ensures
        history_chars(ms.take(i)) <= history_chars(ms),
        history_tokens(ms.take(i)) <= history_chars(ms.take(i)),
    decreases ms.len() + i,
{
    if i == ms.len() {
        lemma_take_all(ms);
        if i > 0 {
            lemma_take_step(ms, i - 1);
            lemma_history_chars_prefix(ms, i - 1);
        }
    } else {
        let shorter = ms.drop_last();
        assert(shorter.take(i) =~= ms.take(i));
        lemma_history_chars_prefix(shorter, i);
    }
}

/// A message as the model gets it: only the assistant's stay the assistant's.
pub open spec fn chat_message(m: ConversationMessageView) -> MessageView {
    MessageView {
        role: if m.role == SpeakerRole::Assistant {
            MessageRole::Assistant
        } else {
            MessageRole::User
        },
        content: m.content,
    }
}

/// How the first five preferences are written.
pub open spec fn preferences_text(s: BrainStateView) -> Seq<char> {
    let all = s.user_profile.explicit_preferences + s.user_profile.implicit_preferences;
    let five = if all.len() > 5 {
        all.take(5)
    } else {
        all
    };
    "["@ + joined(five.map_values(|p: Seq<char>| quoted_of(p)), ", "@) + "]"@
}

/// What the conversation starts with after it was rebuilt from a snapshot.
pub open spec fn rebuild_summary(s: BrainStateView) -> Seq<char> {
    context_rebuild_prompt(
        "事实总结: "@ + s.fact_summary + "\n用户偏好: "@ + preferences_text(s)
            + "\n注意事项: "@ + joined(
            s.active_pitfalls.map_values(
                |p: PitfallRecordView| pitfall_line(p.category, p.description),
            ),
            "\n"@,
        ),
    )
}

/// What the conversation starts with after it was shortened.
pub open spec fn shortened_summary(summary: Seq<char>) -> Seq<char> {
    "以下是之前对话的决策链路摘要：\n\n"@ + summary
        + "\n\n请基于这个摘要继续对话，不要重复已经完成的工作。"@
}

/// The lines of the pitfalls.
pub fn pitfall_lines(items: &Vec<PitfallRecord>) -> (r: Vec<String>)
    ensures
        r.deep_view() == items.deep_view().map_values(
            |p: PitfallRecordView| pitfall_line(p.category, p.description),
        ),
{
    let mut r: Vec<String> = Vec::new();
    let mut i: usize = 0;
    while i < items.len()
        invariant
            i <= items@.len(),
            r@.len() == i,
            forall|k: int|
                0 <= k < i ==> (#[trigger] r@[k])@ == pitfall_line(
                    items@[k].category,
                    items@[k].description@,
                ),
        decreases items@.len() - i,
    {
        r.push(write_pitfall_line(items[i].category, items[i].description.as_str()));
        i = i + 1;
    }
    assert(r.deep_view() =~= items.deep_view().map_values(
        |p: PitfallRecordView| pitfall_line(p.category, p.description),
    ));
    r
}

fn write_preferences(state: &BrainState) -> (r: String)
    ensures
        r@ == preferences_text(state.deep_view()),
{
    let explicit = &state.user_profile.explicit_preferences;
    let implicit = &state.user_profile.implicit_preferences;
    let ghost all = state.deep_view().user_profile.explicit_preferences
        + state.deep_view().user_profile.implicit_preferences;
    let mut items: Vec<String> = Vec::new();
    let mut i: usize = 0;
    while i < explicit.len() && items.len() < 5
        invariant
            i <= explicit@.len(),
            explicit == state.user_profile.explicit_preferences,
            all == state.deep_view().user_profile.explicit_preferences
                + state.deep_view().user_profile.implicit_preferences,
            items@.len() == i <= 5,
            forall|k: int| 0 <= k < items@.len() ==> (#[trigger] items@[k])@ == quoted_of(all[k]),
        decreases explicit@.len() - i,
    {
        assert(all[i as int] == explicit@[i as int]@);
        items.push(quoted(explicit[i].as_str()));
        i = i + 1;
    }
    let ghost taken = i as int;
    let mut j: usize = 0;
    while j < implicit.len() && items.len() < 5
        invariant
            j <= implicit@.len(),
            explicit == state.user_profile.explicit_preferences,
            implicit == state.user_profile.implicit_preferences,
            all == state.deep_view().user_profile.explicit_preferences
                + state.deep_view().user_profile.implicit_preferences,
            taken == explicit@.len() || taken == 5,
            taken <= explicit@.len(),
            items@.len() == taken + j <= 5,
            forall|k: int| 0 <= k < items@.len() ==> (#[trigger] items@[k])@ == quoted_of(all[k]),
        decreases implicit@.len() - j,
    {
        assert(all[taken + j] == implicit@[j as int]@);
        items.push(quoted(implicit[j].as_str()));
        j = j + 1;
    }
    proof {
        let five = if all.len() > 5 {
            all.take(5)
        } else {
            all
        };
        assert(items.deep_view() =~= five.map_values(|p: Seq<char>| quoted_of(p)));
    }
    let mut r = "[".to_owned();
    let list = join(items.as_slice(), ", ");
    r.append(list.as_str());
    r.append("]");
    r
}

/// The last `n` messages, or all where there are fewer.
pub open spec fn last_ones(ms: Seq<ConversationMessageView>, n: nat) -> Seq<
    ConversationMessageView,
> {
    if ms.len() <= n {
        ms
    } else {
        ms.skip(ms.len() - n)
    }
}

/// The history with one thing more that was said.
pub open spec fn said(h: HistoryView, role: SpeakerRole, text: Seq<char>, now: i64) -> HistoryView {
    HistoryView { messages: h.messages.push(uttered(role, text, now)), ..h }
}

/// The history with no more than its last `n` messages; where some are gone, the
/// tokens are no longer known.
pub open spec fn cut_to(h: HistoryView, n: nat) -> HistoryView {
    if h.messages.len() <= n {
        h
    } else {
        HistoryView {
            messages: h.messages.skip(h.messages.len() - n),
            tracked_prompt_tokens: 0,
            ..h
        }
    }
}

/// The history that begins with what is known, followed by its last `n` messages.
pub open spec fn rebuilt(h: HistoryView, s: BrainStateView, n: nat, now: i64) -> HistoryView {
    HistoryView {
        messages: seq![uttered(SpeakerRole::User, rebuild_summary(s), now)] + last_ones(
            h.messages,
            n,
        ),
        ..h
    }
}

/// The history that begins with a summary, followed by `recent`.
pub open spec fn rebuilt_from(
    h: HistoryView,
    summary: Seq<char>,
    recent: Seq<ConversationMessageView>,
    now: i64,
) -> HistoryView {
    HistoryView {
        messages: seq![uttered(SpeakerRole::System, shortened_summary(summary), now)] + recent,
        tracked_prompt_tokens: 0,
        ..h
    }
}

impl ConversationHistory {
    /// A conversation in which nothing was said.
    pub fn new(max_context_tokens: usize) -> (r: Self)
        ensures
            r.deep_view() == (HistoryView {
                messages: Seq::empty(),
                max_context_tokens,
                tracked_prompt_tokens: 0,
            }),
    {
        let r = ConversationHistory {
            messages: Vec::new(),
            max_context_tokens,
            tracked_prompt_tokens: 0,
        };
        assert(r.messages.deep_view() =~= Seq::<ConversationMessageView>::empty());
        r
    }

    /// Adds a message.
    pub fn push(&mut self, message: ConversationMessage)
        ensures
            final(self).deep_view() == (HistoryView {
                messages: old(self).deep_view().messages.push(message.deep_view()),
                ..old(self).deep_view()
            }),
    {
        let ghost before = self.messages;
        self.messages.push(message);
        proof {
            lemma_deep_push(before, self.messages, message);
        }
    }

    /// Adds what the user says.
    pub fn push_user(&mut self, content: &str, now: i64)
        ensures
            final(self).deep_view() == said(
                old(self).deep_view(),
                SpeakerRole::User,
                content@,
                now,
            ),
    {
        self.push(ConversationMessage::user(content, now));
    }

    /// Adds what the assistant says.
    pub fn push_assistant(&mut self, content: &str, now: i64)
        ensures
            final(self).deep_view() == said(
                old(self).deep_view(),
                SpeakerRole::Assistant,
                content@,
                now,
            ),
    {
        self.push(ConversationMessage::assistant(content, now));
    }

    /// Adds what the assistant says, block by block.
    pub fn push_assistant_blocks(&mut self, blocks: Vec<ContentBlock>, now: i64)
        ensures
            final(self).deep_view() == (HistoryView {
                messages: old(self).deep_view().messages.push(
                    ConversationMessageView {
                        role: SpeakerRole::Assistant,
                        content: blocks.deep_view(),
                        timestamp: now,
                    },
                ),
                ..old(self).deep_view()
            }),
    {
        self.push(
            ConversationMessage { role: SpeakerRole::Assistant, content: blocks, timestamp: now },
        );
    }

    /// Adds what a tool gave back for a call.
    pub fn push_tool_result(&mut self, tool_use_id: &str, content: &str, is_error: bool, now: i64)
        ensures
            final(self).deep_view() == (HistoryView {
                messages: old(self).deep_view().messages.push(
                    tool_message(tool_use_id@, content@, is_error, now),
                ),
                ..old(self).deep_view()
            }),
    {
        self.push(ConversationMessage::tool_result(tool_use_id, content, is_error, now));
    }

    /// Adds what the evaluation says.
    pub fn push_evaluator(&mut self, content: &str, now: i64)
        ensures
            final(self).deep_view() == said(
                old(self).deep_view(),
                SpeakerRole::Evaluator,
                content@,
                now,
            ),
    {
        self.push(ConversationMessage::saying(SpeakerRole::Evaluator, content, now));
    }

    /// Adds what the system says.
    pub fn push_system(&mut self, content: &str, now: i64)
        ensures
            final(self).deep_view() == said(
                old(self).deep_view(),
                SpeakerRole::System,
                content@,
                now,
            ),
    {
        self.push(ConversationMessage::saying(SpeakerRole::System, content, now));
    }

    /// What was said.
    pub fn messages(&self) -> (r: &[ConversationMessage])
        ensures
            r@ == self.messages@,
            r.deep_view() == self.deep_view().messages,
    {
        let r = self.messages.as_slice();
        assert(r.deep_view() =~= self.deep_view().messages);
        r
    }

    /// How many messages there are.
    pub fn len(&self) -> (r: usize)
        ensures
            r == self.deep_view().messages.len(),
    {
        self.messages.len()
    }

    /// About how many tokens the text of the conversation takes.
    pub fn estimate_tokens(&self) -> (r: usize)
        requires
            history_chars(self.deep_view().messages) * 3 <= usize::MAX,
        ensures
            r == history_tokens(self.deep_view().messages),
    {
        let ghost all = self.messages.deep_view();
        let mut tokens: usize = 0;
        let mut i: usize = 0;
        assert(all.take(0) =~= Seq::<ConversationMessageView>::empty());
        while i < self.messages.len()
            invariant
                i <= self.messages@.len(),
                all == self.messages.deep_view(),
                history_chars(all) * 3 <= usize::MAX,
                tokens == history_tokens(all.take(i as int)),
            decreases self.messages@.len() - i,
        {
            proof {
                lemma_take_step(all, i as int);
                lemma_history_chars_prefix(all, i + 1);
                assert(all[i as int] == self.messages@[i as int].deep_view());
            }
            let text = self.messages[i].text_content();
            let chars: usize = char_count(text.as_str());
            tokens = tokens + chars * 3 / 4;
            i = i + 1;
        }
        proof {
            lemma_take_all(all);
        }
        tokens
    }

    /// How many tokens the conversation takes: what the service counted, and an
    /// estimate where it did not count.
    pub fn context_tokens(&self) -> (r: usize)
        requires
            history_chars(self.deep_view().messages) * 3 <= usize::MAX,
            self.tracked_prompt_tokens <= usize::MAX,
        ensures
            r == context_tokens_of(self.deep_view()),
    {
        if self.tracked_prompt_tokens > 0 {
            self.tracked_prompt_tokens as usize
        } else {
            self.estimate_tokens()
        }
    }

    /// Notes what the service counted.
    pub fn set_tracked_tokens(&mut self, tokens: u64)
        ensures
            final(self).deep_view() == (HistoryView {
                tracked_prompt_tokens: tokens,
                ..old(self).deep_view()
            }),
    {
        self.tracked_prompt_tokens = tokens;
    }

    /// What the service counted.
    pub fn tracked_prompt_tokens(&self) -> (r: u64)
        ensures
            r == self.tracked_prompt_tokens,
    {
        self.tracked_prompt_tokens
    }

    /// Forgets what was said.
    pub fn clear(&mut self)
        ensures
            final(self).deep_view() == (HistoryView {
                messages: Seq::empty(),
                ..old(self).deep_view()
            }),
    {
        self.messages = Vec::new();
        assert(self.messages.deep_view() =~= Seq::<ConversationMessageView>::empty());
    }

    /// Keeps the last `keep_recent` messages and says how many went. Where some
    /// did, the count of the service no longer holds.
    pub fn truncate_to_recent(&mut self, keep_recent: usize) -> (r: usize)
        ensures
            ({
                let ms = old(self).deep_view().messages;
                &&& ms.len() <= keep_recent ==> *final(self) == *old(self)
                &&& final(self).deep_view() == cut_to(old(self).deep_view(), keep_recent as nat)
                &&& r == ms.len() - final(self).deep_view().messages.len()
            }),
    {
        if self.messages.len() <= keep_recent {
            return 0;
        }
        let ghost ms = self.deep_view().messages;
        let cut: usize = self.messages.len() - keep_recent;
        self.messages = self.messages.split_off(cut);
        self.tracked_prompt_tokens = 0;
        assert(self.messages.deep_view() =~= ms.skip(cut as int));
        cut
    }

    /// Starts the conversation again from a snapshot of the memory and the last
    /// `keep_recent_turns` messages, or all where there are fewer, and says how
    /// many messages went.
    pub fn clear_and_rebuild(
        &mut self,
        brain_state: &BrainState,
        keep_recent_turns: usize,
        now: i64,
    ) -> (r: usize)
        ensures
            ({
                let ms = old(self).deep_view().messages;
                &&& final(self).deep_view() == rebuilt(
                    old(self).deep_view(),
                    brain_state.deep_view(),
                    keep_recent_turns as nat,
                    now,
                )
                &&& r == ms.len() - last_ones(ms, keep_recent_turns as nat).len()
            }),
    {
        let ghost ms = self.deep_view().messages;
        let old_len: usize = self.messages.len();
        let cut: usize = if keep_recent_turns < old_len {
            old_len - keep_recent_turns
        } else {
            0
        };
        let mut recent = self.messages.split_off(cut);
        assert(recent.deep_view() =~= ms.skip(cut as int));
        let mut facts = "事实总结: ".to_owned();
        facts.append(brain_state.fact_summary.as_str());
        facts.append("\n用户偏好: ");
        let preferences = write_preferences(brain_state);
        facts.append(preferences.as_str());
        facts.append("\n注意事项: ");
        let lines = pitfall_lines(&brain_state.active_pitfalls);
        let pitfalls = join(lines.as_slice(), "\n");
        facts.append(pitfalls.as_str());
        let summary = build_context_rebuild_prompt(facts.as_str());
        let mut messages: Vec<ConversationMessage> = Vec::new();
        let first = ConversationMessage::user(summary.as_str(), now);
        messages.push(first);
        assert(messages.deep_view() =~= seq![first.deep_view()]);
        let ghost kept = recent.deep_view();
        let ghost head = messages;
        messages.append(&mut recent);
        assert(messages.deep_view() =~= seq![first.deep_view()] + kept);
        self.messages = messages;
        cut
    }

    /// Starts the conversation again from a summary of it and the messages that
    /// are to stay.
    pub fn clear_and_rebuild_from_compressed(
        &mut self,
        summary: &str,
        recent_messages: &[ConversationMessage],
        now: i64,
    )
        ensures
            final(self).deep_view() == rebuilt_from(
                old(self).deep_view(),
                summary@,
                recent_messages.deep_view(),
                now,
            ),
    {
        let mut text = "以下是之前对话的决策链路摘要：\n\n".to_owned();
        text.append(summary);
        text.append("\n\n请基于这个摘要继续对话，不要重复已经完成的工作。");
        let mut messages: Vec<ConversationMessage> = Vec::new();
        let first = ConversationMessage::saying(SpeakerRole::System, text.as_str(), now);
        messages.push(first);
        assert(messages.deep_view() =~= seq![first.deep_view()]);
        let mut recent = copies(recent_messages);
        let ghost kept = recent.deep_view();
        messages.append(&mut recent);
        assert(messages.deep_view() =~= seq![first.deep_view()] + kept);
        self.messages = messages;
        self.tracked_prompt_tokens = 0;
    }

    /// Puts shortened texts in place of tool results.
    pub fn apply_pending_compaction(&mut self, pending: &HashMap<usize, String>) -> (r:
        CompactionResult)
        requires
            body_chars(old(self).deep_view().messages) <= usize::MAX,
        ensures
            final(self).deep_view() == (HistoryView {
                messages: pending_applied(old(self).deep_view().messages, pending@),
                ..old(self).deep_view()
            }),
            ({
                let ms = old(self).deep_view().messages;
                &&& r.compacted_groups == shortened_count(ms, pending@, ms.len() as int)
                &&& r.chars_saved == saved_chars(ms, pending@, ms.len() as int)
            }),
    {
        apply_pending(&mut self.messages, pending)
    }

    /// The conversation as the model gets it, block for block.
    pub fn to_chat_messages(&self) -> (r: Vec<ChatMessage>)
        ensures
            r.deep_view() == self.deep_view().messages.map_values(
                |m: ConversationMessageView| chat_message(m),
            ),
    {
        let mut r: Vec<ChatMessage> = Vec::new();
        let mut i: usize = 0;
        while i < self.messages.len()
            invariant
                i <= self.messages@.len(),
                r@.len() == i,
                forall|k: int|
                    0 <= k < i ==> (#[trigger] r@[k]).deep_view() == chat_message(
                        self.messages@[k].deep_view(),
                    ),
            decreases self.messages@.len() - i,
        {
            let role = match self.messages[i].role {
                SpeakerRole::Assistant => MessageRole::Assistant,
                _ => MessageRole::User,
            };
            r.push(ChatMessage { role, content: self.messages[i].content.replicate() });
            i = i + 1;
        }
        assert(r.deep_view() =~= self.deep_view().messages.map_values(
            |m: ConversationMessageView| chat_message(m),
        ));
        r
    }
}

} // verus!
