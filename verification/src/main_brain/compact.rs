//! Making the conversation smaller: which turn to shorten, what the model is
//! asked to make of it, and how its answer takes the place of tool results.

use crate::llm::provider::{saying, ChatMessage, ChatRequest, MessageRole, RequestView};
use crate::llm::types::{BlockView, ContentBlock};
use crate::main_brain::conversation::{ConversationMessage, ConversationMessageView, SpeakerRole};
use crate::seqs::{
    lemma_deep_push, lemma_filter_map_none, lemma_filter_map_step, lemma_take_all, lemma_take_step,
};
use crate::text::{char_count, join, joined};
use std::collections::HashMap;
use std::collections::HashSet;
use vstd::prelude::*;

verus! {

/// When and how much is shortened.
#[derive(Debug, Clone, Copy, PartialEq, Eq)]
pub struct CompactionConfig {
    /// The last so many turns are left alone.
    pub preserve_recent_turns: usize,
    /// A turn with more characters of tool results than this is shortened.
    pub tool_result_compress_threshold: usize,
}

impl Default for CompactionConfig {
    fn default() -> (r: Self)
        ensures
            r.preserve_recent_turns == 4,
            r.tool_result_compress_threshold == 10000,
    {
        CompactionConfig { preserve_recent_turns: 4, tool_result_compress_threshold: 10000 }
    }
}

/// What shortening came to.
#[derive(Debug, Clone, Copy, PartialEq, Eq)]
pub struct CompactionResult {
    /// How many messages were shortened.
    pub compacted_groups: usize,
    /// How many characters that saved.
    pub chars_saved: usize,
}

// ---------------------------------------------------------------------------
// The text of a message
// ---------------------------------------------------------------------------

/// What a message says: its texts and its tool results, one after the other.
pub open spec fn body_of(blocks: Seq<BlockView>) -> Seq<char>
    decreases blocks.len(),
{
    if blocks.len() == 0 {
        Seq::empty()
    } else {
        let before = body_of(blocks.drop_last());
        match blocks.last() {
            BlockView::Text { text } => before + text,
            BlockView::ToolResult { content, .. } => before + content,
            _ => before,
        }
    }
}

/// What a message says: its texts and its tool results, one after the other.
pub fn body(content: &[ContentBlock]) -> (r: String)
    ensures
        r@ == body_of(content.deep_view()),
{
    let mut r = String::new();
    let mut i: usize = 0;
    let ghost all = content.deep_view();
    while i < content.len()
        invariant
            i <= content@.len(),
            all == content.deep_view(),
            r@ == body_of(all.take(i as int)),
        decreases content@.len() - i,
    {
        proof {
            lemma_take_step(all, i as int);
            assert(all[i as int] == content@[i as int].deep_view());
        }
        match &content[i] {
            ContentBlock::Text { text } => r.append(text.as_str()),
            ContentBlock::ToolResult { content, .. } => r.append(content.as_str()),
            _ => {},
        }
        i = i + 1;
    }
    proof {
        lemma_take_all(all);
    }
    r
}

/// How many characters the messages say.
pub open spec fn body_chars(ms: Seq<ConversationMessageView>) -> nat
    decreases ms.len(),
{
    if ms.len() == 0 {
        0
    } else {
        body_chars(ms.drop_last()) + body_of(ms.last().content).len()
    }
}

pub(crate) proof fn lemma_body_chars_prefix(ms: Seq<ConversationMessageView>, i: int)
    requires
        0 <= i <= ms.len(),
    ensures
        body_chars(ms.take(i)) <= body_chars(ms),
    decreases ms.len() - i,
{
    if i == ms.len() {
        lemma_take_all(ms);
    } else {
        lemma_take_step(ms, i);
        lemma_body_chars_prefix(ms, i + 1);
    }
}

// ---------------------------------------------------------------------------
// Turns
// ---------------------------------------------------------------------------

/// A turn: a message of the user and what follows up to the next one.
#[derive(Debug, PartialEq)]
pub struct TurnBlock {
    /// Where the message of the user stands.
    pub start: usize,
    /// Where the turn has ended.
    pub end: usize,
    /// Where its tool messages stand.
    pub tool_indices: Vec<usize>,
    /// How many characters its tool messages have.
    pub tool_chars: usize,
}

/// What a turn is.
#[verifier::ext_equal]
pub struct TurnBlockView {
    pub start: int,
    pub end: int,
    pub tool_indices: Seq<usize>,
    pub tool_chars: int,
}

impl DeepView for TurnBlock {
    type V = TurnBlockView;

    open spec fn deep_view(&self) -> TurnBlockView {
        TurnBlockView {
            start: self.start as int,
            end: self.end as int,
            tool_indices: self.tool_indices@,
            tool_chars: self.tool_chars as int,
        }
    }
}

/// The turns that have ended, and the one that has not.
#[verifier::ext_equal]
pub struct Turns {
    /// The turns that have ended.
    pub ended: Seq<TurnBlockView>,
    /// Where the current one started, if one has.
    pub start: Option<int>,
    /// The tool messages since the last turn ended.
    pub tools: Seq<usize>,
    /// Their characters.
    pub chars: int,
}

/// The current turn, ended at `end`.
pub open spec fn ended_at(t: Turns, end: int) -> Seq<TurnBlockView> {
    match t.start {
        Some(start) => t.ended.push(
            TurnBlockView { start, end, tool_indices: t.tools, tool_chars: t.chars },
        ),
        None => t.ended,
    }
}

/// The turns of the messages, the last of which may go on. A message of the
/// user ends the turn before it; tool messages before the first one belong to
/// the first turn.
pub open spec fn turns_of(ms: Seq<ConversationMessageView>) -> Turns
    decreases ms.len(),
{
    if ms.len() == 0 {
        Turns { ended: Seq::empty(), start: None, tools: Seq::empty(), chars: 0 }
    } else {
        let t = turns_of(ms.drop_last());
        let i = ms.len() - 1;
        match ms.last().role {
            SpeakerRole::User => Turns {
                ended: ended_at(t, i),
                start: Some(i),
                tools: if t.start is Some {
                    Seq::empty()
                } else {
                    t.tools
                },
                chars: if t.start is Some {
                    0
                } else {
                    t.chars
                },
            },
            SpeakerRole::Tool => Turns {
                tools: t.tools.push(i as usize),
                chars: t.chars + body_of(ms.last().content).len(),
                ..t
            },
            _ => t,
        }
    }
}

/// The turns of the messages.
pub open spec fn turn_blocks(ms: Seq<ConversationMessageView>) -> Seq<TurnBlockView> {
    ended_at(turns_of(ms), ms.len() as int)
}

proof fn lemma_turn_chars(ms: Seq<ConversationMessageView>)
    ensures
        0 <= turns_of(ms).chars <= body_chars(ms),
    decreases ms.len(),
{
    if ms.len() > 0 {
        lemma_turn_chars(ms.drop_last());
    }
}

/// The turns of the messages.
pub fn split_turn_blocks(messages: &[ConversationMessage]) -> (r: Vec<TurnBlock>)
    requires
        body_chars(messages.deep_view()) <= usize::MAX,
    ensures
        r.deep_view() == turn_blocks(messages.deep_view()),
{
    let ghost all = messages.deep_view();
    let mut blocks: Vec<TurnBlock> = Vec::new();
    let mut current: Option<usize> = None;
    let mut tools: Vec<usize> = Vec::new();
    let mut chars: usize = 0;
    let mut i: usize = 0;
    assert(blocks.deep_view() =~= Seq::<TurnBlockView>::empty());
    assert(all.take(0) =~= Seq::<ConversationMessageView>::empty());
    while i < messages.len()
        invariant
            i <= messages@.len(),
            all == messages.deep_view(),
            body_chars(all) <= usize::MAX,
            blocks.deep_view() == turns_of(all.take(i as int)).ended,
            match current {
                Some(start) => turns_of(all.take(i as int)).start == Some(start as int),
                None => turns_of(all.take(i as int)).start is None,
            },
            tools@ == turns_of(all.take(i as int)).tools,
            chars == turns_of(all.take(i as int)).chars,
        decreases messages@.len() - i,
    {
        proof {
            lemma_take_step(all, i as int);
            lemma_body_chars_prefix(all, i + 1);
            lemma_turn_chars(all.take(i + 1));
            assert(all[i as int] == messages@[i as int].deep_view());
        }
        match messages[i].role {
            SpeakerRole::User => {
                if let Some(start) = current {
                    let ghost before = blocks;
                    let block = TurnBlock { start, end: i, tool_indices: tools, tool_chars: chars };
                    blocks.push(block);
                    proof {
                        lemma_deep_push(before, blocks, block);
                    }
                    tools = Vec::new();
                    chars = 0;
                }
                current = Some(i);
            },
            SpeakerRole::Tool => {
                tools.push(i);
                let text = body(messages[i].content.as_slice());
                chars = chars + char_count(text.as_str());
            },
            _ => {},
        }
        i = i + 1;
    }
    proof {
        lemma_take_all(all);
    }
    if let Some(start) = current {
        let ghost before = blocks;
        let block = TurnBlock {
            start,
            end: messages.len(),
            tool_indices: tools,
            tool_chars: chars,
        };
        blocks.push(block);
        proof {
            lemma_deep_push(before, blocks, block);
        }
    }
    blocks
}

/// Some message of the turn was shortened before.
pub open spec fn touched(b: TurnBlockView, shortened: Set<usize>) -> bool {
    exists|i: usize| b.start <= i < b.end && shortened.contains(i)
}

/// A turn that can be shortened.
pub open spec fn can_shorten(b: TurnBlockView, shortened: Set<usize>) -> bool {
    !touched(b, shortened) && b.tool_indices.len() > 0
}

/// The first of the turns that can be shortened.
pub open spec fn first_to_shorten(
    blocks: Seq<TurnBlockView>,
    shortened: Set<usize>,
) -> Option<(int, int)>
    decreases blocks.len(),
{
    if blocks.len() == 0 {
        None
    } else if can_shorten(blocks[0], shortened) {
        Some((blocks[0].start, blocks[0].end))
    } else {
        first_to_shorten(blocks.skip(1), shortened)
    }
}

/// The turn to shorten: the first that can be, before the last `keep` turns.
pub open spec fn slide_out(
    ms: Seq<ConversationMessageView>,
    shortened: Set<usize>,
    keep: int,
) -> Option<(int, int)> {
    let blocks = turn_blocks(ms);
    if blocks.len() <= keep {
        None
    } else {
        first_to_shorten(blocks.take(blocks.len() - keep), shortened)
    }
}

fn any_shortened(start: usize, end: usize, shortened: &HashSet<usize>) -> (r: bool)
    ensures
        r == exists|i: usize| start <= i < end && shortened@.contains(i),
{
    let mut i: usize = start;
    while i < end
        invariant
            start <= i,
            i <= end || start > end,
            forall|k: usize| start <= k < i ==> !shortened@.contains(k),
        decreases end - i,
    {
        if shortened.contains(&i) {
            return true;
        }
        i = i + 1;
    }
    false
}

/// The turn to shorten: the first that was not shortened before and has tool
/// results, before the turns that are left alone.
pub fn find_slide_out_turn(
    messages: &[ConversationMessage],
    compressed_indices: &HashSet<usize>,
    config: &CompactionConfig,
) -> (r: Option<(usize, usize)>)
    requires
        body_chars(messages.deep_view()) <= usize::MAX,
    ensures
        match r {
            Some((start, end)) => slide_out(
                messages.deep_view(),
                compressed_indices@,
                config.preserve_recent_turns as int,
            ) == Some((start as int, end as int)),
            None => slide_out(
                messages.deep_view(),
                compressed_indices@,
                config.preserve_recent_turns as int,
            ) is None,
        },
{
    let blocks = split_turn_blocks(messages);
    let keep: usize = config.preserve_recent_turns;
    if blocks.len() <= keep {
        return None;
    }
    let eligible: usize = blocks.len() - keep;
    let ghost all = blocks.deep_view().take(eligible as int);
    let mut i: usize = 0;
    assert(all.skip(0) =~= all);
    while i < eligible
        invariant
            i <= eligible <= blocks@.len(),
            all == blocks.deep_view().take(eligible as int),
            slide_out(
                messages.deep_view(),
                compressed_indices@,
                config.preserve_recent_turns as int,
            ) == first_to_shorten(all, compressed_indices@),
            first_to_shorten(all, compressed_indices@) == first_to_shorten(
                all.skip(i as int),
                compressed_indices@,
            ),
        decreases eligible - i,
    {
        let b = &blocks[i];
        assert(all.skip(i as int)[0] == b.deep_view());
        assert(all.skip(i as int).skip(1) =~= all.skip(i + 1));
        let before = any_shortened(b.start, b.end, compressed_indices);
        assert(before == touched(b.deep_view(), compressed_indices@));
        if !before && b.tool_indices.len() > 0 {
            return Some((b.start, b.end));
        }
        i = i + 1;
    }
    None
}

// ---------------------------------------------------------------------------
// What the model is asked
// ---------------------------------------------------------------------------

/// How shortened tool results start.
pub const COMPRESSION_WATERMARK: &'static str = "[工具调用结果已压缩]";

/// How shortened tool results are put.
pub open spec fn compressed_content(
    task: Seq<char>,
    chain: Seq<char>,
    key_info: Seq<char>,
    conclusion: Seq<char>,
) -> Seq<char> {
    COMPRESSION_WATERMARK@
        + " 以下是调用后的结论和关键内容。\n如有疑问，优先根据标注的文件路径和行号重新浏览。\n\n任务："@
        + task + "\n调用链路："@ + chain + "\n关键信息：\n"@ + key_info + "\n结论："@ + conclusion
}

/// How shortened tool results are put.
pub fn build_compressed_content(
    task: &str,
    chain: &str,
    key_info: &str,
    conclusion: &str,
) -> (r: String)
    ensures
        r@ == compressed_content(task@, chain@, key_info@, conclusion@),
{
    let mut r = COMPRESSION_WATERMARK.to_owned();
    r.append(
        " 以下是调用后的结论和关键内容。\n如有疑问，优先根据标注的文件路径和行号重新浏览。\n\n任务：",
    );
    r.append(task);
    r.append("\n调用链路：");
    r.append(chain);
    r.append("\n关键信息：\n");
    r.append(key_info);
    r.append("\n结论：");
    r.append(conclusion);
    r
}

/// What the model is asked to make of a turn.
pub open spec fn compaction_prompt(
    user_message: Seq<char>,
    tool_results: Seq<char>,
    assistant_conclusion: Seq<char>,
) -> Seq<char> {
    "你是一个上下文压缩引擎。请分析以下对话轮次，提取关键信息，丢弃冗余细节。\n\n## 用户意图\n"@
        + user_message + "\n\n## 工具调用结果\n"@ + tool_results + "\n\n## 助手结论\n"@
        + assistant_conclusion + COMPACTION_RULES@
}

/// How the model is to shorten a turn.
pub const COMPACTION_RULES: &'static str = "\n\n## 压缩要求\n1. 参考助手结论，理解工具调用发现了什么\n2. 保留调用链路（哪个方法调了哪个方法）\n3. 保留关键文件信息（路径、行数范围、方法/函数名）\n4. 保留关键结论（问题根因、修改内容等）\n5. 丢弃：完整代码内容、完整 grep 输出、中间过程日志\n\n## 输出格式（直接输出，不要多余解释）\n任务：{一句话描述任务意图}\n调用链路：{关键调用路径}\n关键信息：\n  - {文件路径}（行 {xx}-{yy}，{方法名}）：{关键发现}\n  - ...\n结论：{助手总结的核心结论}";

/// What the model is asked to make of a turn.
pub fn build_compaction_prompt(
    user_message: &str,
    tool_results: &str,
    assistant_conclusion: &str,
) -> (r: String)
    ensures
        r@ == compaction_prompt(user_message@, tool_results@, assistant_conclusion@),
{
    let mut r =
        "你是一个上下文压缩引擎。请分析以下对话轮次，提取关键信息，丢弃冗余细节。\n\n## 用户意图\n".to_owned();
    r.append(user_message);
    r.append("\n\n## 工具调用结果\n");
    r.append(tool_results);
    r.append("\n\n## 助手结论\n");
    r.append(assistant_conclusion);
    r.append(COMPACTION_RULES);
    r
}

/// What the first message of `role` says.
pub open spec fn first_body(ms: Seq<ConversationMessageView>, role: SpeakerRole) -> Seq<char>
    decreases ms.len(),
{
    if ms.len() == 0 {
        Seq::empty()
    } else if ms[0].role == role {
        body_of(ms[0].content)
    } else {
        first_body(ms.skip(1), role)
    }
}

/// What the last message of `role` says.
pub open spec fn last_body(ms: Seq<ConversationMessageView>, role: SpeakerRole) -> Seq<char>
    decreases ms.len(),
{
    if ms.len() == 0 {
        Seq::empty()
    } else if ms.last().role == role {
        body_of(ms.last().content)
    } else {
        last_body(ms.drop_last(), role)
    }
}

/// What a tool message says.
pub open spec fn tool_body(m: ConversationMessageView) -> Option<Seq<char>> {
    if m.role == SpeakerRole::Tool {
        Some(body_of(m.content))
    } else {
        None
    }
}

/// The tool results of a turn.
pub open spec fn tool_results_of(ms: Seq<ConversationMessageView>) -> Seq<char> {
    joined(ms.filter_map(|m: ConversationMessageView| tool_body(m)), "\n---\n"@)
}

/// What the model is asked to make of the turn `ms`; nothing where the turn
/// has no tool results.
pub open spec fn turn_prompt_of(ms: Seq<ConversationMessageView>) -> Option<Seq<char>> {
    if tool_results_of(ms).len() == 0 {
        None
    } else {
        Some(
            compaction_prompt(
                first_body(ms, SpeakerRole::User),
                tool_results_of(ms),
                last_body(ms, SpeakerRole::Assistant),
            ),
        )
    }
}

fn find_first_body(ms: &[ConversationMessage], role: SpeakerRole) -> (r: String)
    ensures
        r@ == first_body(ms.deep_view(), role),
{
    let ghost all = ms.deep_view();
    let mut i: usize = 0;
    assert(all.skip(0) =~= all);
    while i < ms.len()
        invariant
            i <= ms@.len(),
            all == ms.deep_view(),
            first_body(all, role) == first_body(all.skip(i as int), role),
        decreases ms@.len() - i,
    {
        assert(all.skip(i as int)[0] == ms@[i as int].deep_view());
        assert(all.skip(i as int).skip(1) =~= all.skip(i + 1));
        if ms[i].role == role {
            return body(ms[i].content.as_slice());
        }
        i = i + 1;
    }
    String::new()
}

fn find_last_body(ms: &[ConversationMessage], role: SpeakerRole) -> (r: String)
    ensures
        r@ == last_body(ms.deep_view(), role),
{
    let ghost all = ms.deep_view();
    let mut i: usize = ms.len();
    proof {
        lemma_take_all(all);
    }
    while i > 0
        invariant
            i <= ms@.len(),
            all == ms.deep_view(),
            last_body(all, role) == last_body(all.take(i as int), role),
        decreases i,
    {
        proof {
            lemma_take_step(all, i - 1);
            assert(all[i - 1] == ms@[i - 1].deep_view());
        }
        if ms[i - 1].role == role {
            return body(ms[i - 1].content.as_slice());
        }
        i = i - 1;
    }
    String::new()
}

fn tool_bodies(ms: &[ConversationMessage]) -> (r: Vec<String>)
    ensures
        r.deep_view() == ms.deep_view().filter_map(|m: ConversationMessageView| tool_body(m)),
{
    let ghost all = ms.deep_view();
    let ghost f = |m: ConversationMessageView| tool_body(m);
    let mut r: Vec<String> = Vec::new();
    let mut i: usize = 0;
    proof {
        lemma_filter_map_none(all, f);
        assert(r.deep_view() =~= Seq::<Seq<char>>::empty());
    }
    while i < ms.len()
        invariant
            i <= ms@.len(),
            all == ms.deep_view(),
            f == (|m: ConversationMessageView| tool_body(m)),
            r.deep_view() == all.take(i as int).filter_map(f),
        decreases ms@.len() - i,
    {
        proof {
            lemma_filter_map_step(all, i as int, f);
            assert(all[i as int] == ms@[i as int].deep_view());
        }
        if ms[i].role == SpeakerRole::Tool {
            let ghost before = r;
            let text = body(ms[i].content.as_slice());
            r.push(text);
            proof {
                lemma_deep_push(before, r, text);
            }
        }
        i = i + 1;
    }
    proof {
        lemma_take_all(all);
    }
    r
}

/// What the model is asked to make of a turn: the user's message, the tool
/// results and the last answer. Nothing where there are no tool results.
pub fn turn_prompt(turn: &[ConversationMessage]) -> (r: Option<String>)
    ensures
        r.deep_view() == turn_prompt_of(turn.deep_view()),
{
    let results = tool_bodies(turn);
    let tool_results = join(results.as_slice(), "\n---\n");
    if tool_results.as_str().is_empty() {
        return None;
    }
    let user = find_first_body(turn, SpeakerRole::User);
    let conclusion = find_last_body(turn, SpeakerRole::Assistant);
    Some(build_compaction_prompt(user.as_str(), tool_results.as_str(), conclusion.as_str()))
}

/// The request that asks the model to shorten a turn.
pub fn compaction_request(prompt: &str) -> (r: ChatRequest)
    ensures
        r.deep_view() == (RequestView {
            model: None,
            messages: seq![saying(MessageRole::User, prompt@)],
            max_tokens: Some(2048),
            temperature: Some("0.3"@),
            tools: None,
            tool_choice: None,
        }),
{
    let r = ChatRequest {
        model: None,
        messages: vec![ChatMessage::user(prompt)],
        max_tokens: Some(2048),
        temperature: Some("0.3".to_owned()),
        tools: None,
        tool_choice: None,
    };
    assert(r.messages.deep_view() =~= seq![saying(MessageRole::User, prompt@)]);
    r
}

/// What takes the place of the tool messages of a turn: the text that the model
/// made of it, for each of them; nothing where the model said nothing. The turn
/// starts at `offset` in the conversation.
pub fn compressed_turn(turn: &[ConversationMessage], offset: usize, text: &str) -> (r: HashMap<
    usize,
    String,
>)
    requires
        offset + turn@.len() <= usize::MAX,
    ensures
        forall|i: usize| #[trigger]
            r@.dom().contains(i) <==> text@.len() > 0 && offset <= i < offset + turn@.len()
                && turn@[i - offset].role == SpeakerRole::Tool,
        forall|i: usize| #[trigger] r@.dom().contains(i) ==> r@[i]@ == text@,
{
    broadcast use vstd::std_specs::hash::group_hash_axioms;

    let mut r: HashMap<usize, String> = HashMap::new();
    if text.is_empty() {
        return r;
    }
    let mut k: usize = 0;
    while k < turn.len()
        invariant
            k <= turn@.len(),
            offset + turn@.len() <= usize::MAX,
            forall|i: usize| #[trigger]
                r@.dom().contains(i) <==> offset <= i < offset + k && turn@[i - offset].role
                    == SpeakerRole::Tool,
            forall|i: usize| #[trigger] r@.dom().contains(i) ==> r@[i]@ == text@,
        decreases turn@.len() - k,
    {
        if turn[k].role == SpeakerRole::Tool {
            r.insert(offset + k, text.to_owned());
        }
        k = k + 1;
    }
    r
}

// ---------------------------------------------------------------------------
// Putting the shortened texts in place
// ---------------------------------------------------------------------------

/// `text` in the place of what a message says; a tool result keeps its id.
pub open spec fn replaced(content: Seq<BlockView>, text: Seq<char>) -> Seq<BlockView> {
    if content.len() > 0 && content[0] is ToolResult {
        seq![
            BlockView::ToolResult {
                tool_use_id: content[0]->ToolResult_tool_use_id,
                content: text,
                is_error: content[0]->ToolResult_is_error,
            },
        ]
    } else {
        seq![BlockView::Text { text }]
    }
}

/// The message at `i` is shortened: it is a tool's, there is a text for it, and
/// the text is shorter.
pub open spec fn is_shortened(
    ms: Seq<ConversationMessageView>,
    i: int,
    pending: Map<usize, String>,
) -> bool {
    &&& 0 <= i < ms.len()
    &&& ms[i].role == SpeakerRole::Tool
    &&& pending.dom().contains(i as usize)
    &&& pending[i as usize]@.len() < body_of(ms[i].content).len()
}

/// The conversation with the shortened texts in place.
pub open spec fn pending_applied(
    ms: Seq<ConversationMessageView>,
    pending: Map<usize, String>,
) -> Seq<ConversationMessageView> {
    ms.map(
        |i: int, m: ConversationMessageView|
            if is_shortened(ms, i, pending) {
                ConversationMessageView {
                    content: replaced(m.content, pending[i as usize]@),
                    ..m
                }
            } else {
                m
            },
    )
}

/// How many of the first `n` messages are shortened.
pub open spec fn shortened_count(
    ms: Seq<ConversationMessageView>,
    pending: Map<usize, String>,
    n: int,
) -> nat
    decreases n,
{
    if n <= 0 {
        0
    } else {
        shortened_count(ms, pending, n - 1) + if is_shortened(ms, n - 1, pending) {
            1nat
        } else {
            0
        }
    }
}

/// How many characters shortening the first `n` messages saves.
pub open spec fn saved_chars(
    ms: Seq<ConversationMessageView>,
    pending: Map<usize, String>,
    n: int,
) -> int
    decreases n,
{
    if n <= 0 {
        0
    } else {
        saved_chars(ms, pending, n - 1) + if is_shortened(ms, n - 1, pending) {
            body_of(ms[n - 1].content).len() - pending[(n - 1) as usize]@.len()
        } else {
            0
        }
    }
}

proof fn lemma_saved_chars(ms: Seq<ConversationMessageView>, pending: Map<usize, String>, n: int)
    requires
        0 <= n <= ms.len(),
    ensures
        0 <= saved_chars(ms, pending, n) <= body_chars(ms.take(n)),
        shortened_count(ms, pending, n) <= n,
    decreases n,
{
    if n > 0 {
        lemma_saved_chars(ms, pending, n - 1);
        lemma_take_step(ms, n - 1);
    }
}

/// Shortening saves no more than there is, in no more messages than there are.
pub proof fn lemma_saved_bounds(ms: Seq<ConversationMessageView>, pending: Map<usize, String>)
    ensures
        0 <= saved_chars(ms, pending, ms.len() as int) <= body_chars(ms),
        shortened_count(ms, pending, ms.len() as int) <= ms.len(),
{
    lemma_saved_chars(ms, pending, ms.len() as int);
    lemma_take_all(ms);
}

fn replace_body(content: &Vec<ContentBlock>, text: &str) -> (r: Vec<ContentBlock>)
    ensures
        r.deep_view() == replaced(content.deep_view(), text@),
{
    if content.len() > 0 {
        assert(content.deep_view()[0] == content@[0].deep_view());
        if let ContentBlock::ToolResult { tool_use_id, is_error, .. } = &content[0] {
            let r: Vec<ContentBlock> = vec![
                ContentBlock::ToolResult {
                    tool_use_id: tool_use_id.clone(),
                    content: text.to_owned(),
                    is_error: *is_error,
                },
            ];
            assert(r.deep_view() =~= replaced(content.deep_view(), text@));
            return r;
        }
    }
    let r: Vec<ContentBlock> = vec![ContentBlock::text(text)];
    assert(r.deep_view() =~= replaced(content.deep_view(), text@));
    r
}

/// Puts the shortened texts in place: each where the message is a tool's and
/// the text is shorter than what the message says.
pub fn apply_pending(
    messages: &mut Vec<ConversationMessage>,
    pending: &HashMap<usize, String>,
) -> (r: CompactionResult)
    requires
        body_chars(old(messages).deep_view()) <= usize::MAX,
    ensures
        final(messages).deep_view() == pending_applied(old(messages).deep_view(), pending@),
        r.compacted_groups == shortened_count(
            old(messages).deep_view(),
            pending@,
            old(messages)@.len() as int,
        ),
        r.chars_saved == saved_chars(
            old(messages).deep_view(),
            pending@,
            old(messages)@.len() as int,
        ),
{
    broadcast use vstd::std_specs::hash::group_hash_axioms;

    let ghost all = messages.deep_view();
    let ghost wanted = pending_applied(all, pending@);
    let mut compacted_groups: usize = 0;
    let mut chars_saved: usize = 0;
    let count: usize = messages.len();
    let mut i: usize = 0;
    while i < count
        invariant
            i <= count == messages@.len() == all.len(),
            body_chars(all) <= usize::MAX,
            wanted == pending_applied(all, pending@),
            forall|k: int|
                0 <= k < i ==> (#[trigger] messages@[k]).deep_view() == wanted[k],
            forall|k: int|
                i <= k < count ==> (#[trigger] messages@[k]).deep_view() == all[k],
            compacted_groups == shortened_count(all, pending@, i as int),
            chars_saved == saved_chars(all, pending@, i as int),
        decreases count - i,
    {
        proof {
            lemma_saved_chars(all, pending@, i + 1);
            lemma_body_chars_prefix(all, i + 1);
            assert(messages@[i as int].deep_view() == all[i as int]);
        }
        if messages[i].role == SpeakerRole::Tool {
            if let Some(text) = pending.get(&i) {
                let old_text = body(messages[i].content.as_slice());
                let old_len: usize = char_count(old_text.as_str());
                let new_len: usize = char_count(text.as_str());
                if new_len < old_len {
                    chars_saved = chars_saved + (old_len - new_len);
                    compacted_groups = compacted_groups + 1;
                    let m = ConversationMessage {
                        role: messages[i].role,
                        content: replace_body(&messages[i].content, text.as_str()),
                        timestamp: messages[i].timestamp,
                    };
                    messages.set(i, m);
                }
            }
        }
        i = i + 1;
    }
    assert(messages.deep_view() =~= wanted);
    CompactionResult { compacted_groups, chars_saved }
}

// ---------------------------------------------------------------------------
// The last turn
// ---------------------------------------------------------------------------

/// Where the last message of the user stands, and the start where there is
/// none.
pub open spec fn last_user(ms: Seq<ConversationMessageView>) -> int
    decreases ms.len(),
{
    if ms.len() == 0 {
        0
    } else if ms.last().role == SpeakerRole::User {
        ms.len() - 1
    } else {
        last_user(ms.drop_last())
    }
}

/// How many characters the tool messages say.
pub open spec fn tool_body_chars(ms: Seq<ConversationMessageView>) -> nat
    decreases ms.len(),
{
    if ms.len() == 0 {
        0
    } else {
        tool_body_chars(ms.drop_last()) + if ms.last().role == SpeakerRole::Tool {
            body_of(ms.last().content).len()
        } else {
            0
        }
    }
}

/// How many characters the tool messages of the last turn say.
pub open spec fn last_turn_chars(ms: Seq<ConversationMessageView>) -> nat {
    tool_body_chars(ms.skip(last_user(ms)))
}

proof fn lemma_last_user(ms: Seq<ConversationMessageView>)
    ensures
        0 <= last_user(ms) <= ms.len(),
    decreases ms.len(),
{
    if ms.len() > 0 {
        lemma_last_user(ms.drop_last());
    }
}

proof fn lemma_tool_body_chars(ms: Seq<ConversationMessageView>, start: int, end: int)
    requires
        0 <= start <= end <= ms.len(),
    ensures
        tool_body_chars(ms.subrange(start, end)) <= body_chars(ms.take(end)),
    decreases end - start,
{
    if start < end {
        lemma_tool_body_chars(ms, start, end - 1);
        lemma_take_step(ms, end - 1);
        assert(ms.subrange(start, end).drop_last() =~= ms.subrange(start, end - 1));
    }
}

/// How many characters the tool messages of the last turn say.
pub fn last_turn_tool_chars(messages: &[ConversationMessage]) -> (r: usize)
    requires
        body_chars(messages.deep_view()) <= usize::MAX,
    ensures
        r == last_turn_chars(messages.deep_view()),
{
    let ghost all = messages.deep_view();
    let mut start: usize = messages.len();
    let mut found = false;
    proof {
        lemma_take_all(all);
    }
    while start > 0 && !found
        invariant
            start <= messages@.len(),
            all == messages.deep_view(),
            found ==> last_user(all) == start,
            !found ==> last_user(all) == last_user(all.take(start as int)),
        decreases start,
    {
        proof {
            lemma_take_step(all, start - 1);
            assert(all[start - 1] == messages@[start - 1].deep_view());
        }
        if messages[start - 1].role == SpeakerRole::User {
            found = true;
        }
        start = start - 1;
    }
    assert(last_user(all) == start);
    let mut chars: usize = 0;
    let mut i: usize = start;
    let ghost from = start as int;
    while i < messages.len()
        invariant
            start <= i <= messages@.len(),
            from == start,
            all == messages.deep_view(),
            body_chars(all) <= usize::MAX,
            chars == tool_body_chars(all.subrange(from, i as int)),
        decreases messages@.len() - i,
    {
        proof {
            assert(all.subrange(from, i + 1).drop_last() =~= all.subrange(from, i as int));
            assert(all.subrange(from, i + 1).last() == messages@[i as int].deep_view());
            lemma_tool_body_chars(all, from, i + 1);
            lemma_body_chars_prefix(all, i + 1);
        }
        if messages[i].role == SpeakerRole::Tool {
            let text = body(messages[i].content.as_slice());
            chars = chars + char_count(text.as_str());
        }
        i = i + 1;
    }
    assert(all.subrange(from, i as int) =~= all.skip(from));
    chars
}

// ---------------------------------------------------------------------------
// Laws
// ---------------------------------------------------------------------------

/// The turns that have ended follow each other without a gap, each starts with
/// a message of the user, and no other message of the user stands in it.
pub open spec fn turns_well_formed(ms: Seq<ConversationMessageView>, t: Turns) -> bool {
    &&& t.start matches Some(start) ==> {
        &&& 0 <= start < ms.len()
        &&& ms[start].role == SpeakerRole::User
        &&& forall|k: int| start < k < ms.len() ==> (#[trigger] ms[k]).role != SpeakerRole::User
        &&& t.ended.len() > 0 ==> t.ended.last().end == start
    }
    &&& t.start is None ==> t.ended.len() == 0
    &&& blocks_well_formed(ms, t.ended)
}

/// Turns that follow each other without a gap, each starting with a message of
/// the user and holding no other.
pub open spec fn blocks_well_formed(
    ms: Seq<ConversationMessageView>,
    blocks: Seq<TurnBlockView>,
) -> bool {
    &&& forall|b: int|
        0 <= b < blocks.len() ==> {
            let x = #[trigger] blocks[b];
            &&& 0 <= x.start < x.end <= ms.len()
            &&& ms[x.start].role == SpeakerRole::User
            &&& forall|k: int| x.start < k < x.end ==> (#[trigger] ms[k]).role != SpeakerRole::User
        }
    &&& forall|b: int, c: int|
        0 <= b < blocks.len() && c == b + 1 && c < blocks.len() ==> (#[trigger] blocks[b]).end == (
        #[trigger] blocks[c]).start
}

proof fn lemma_turns_well_formed(ms: Seq<ConversationMessageView>)
    ensures
        turns_well_formed(ms, turns_of(ms)),
    decreases ms.len(),
{
    if ms.len() > 0 {
        let before = ms.drop_last();
        lemma_turns_well_formed(before);
        let t = turns_of(before);
        assert forall|k: int| 0 <= k < before.len() implies before[k] == ms[k] by {}
        assert(blocks_well_formed(ms, t.ended)) by {
            assert forall|b: int| 0 <= b < t.ended.len() implies {
                let x = #[trigger] t.ended[b];
                &&& 0 <= x.start < x.end <= ms.len()
                &&& ms[x.start].role == SpeakerRole::User
                &&& forall|k: int|
                    x.start < k < x.end ==> (#[trigger] ms[k]).role != SpeakerRole::User
            } by {
                let x = t.ended[b];
                assert(before[x.start] == ms[x.start]);
                assert forall|k: int| x.start < k < x.end implies (#[trigger] ms[k]).role
                    != SpeakerRole::User by {
                    assert(before[k] == ms[k]);
                }
            }
        }
        if t.start is Some {
            let start = t.start->0;
            assert(before[start] == ms[start]);
            assert forall|k: int| start < k < before.len() implies (#[trigger] ms[k]).role
                != SpeakerRole::User by {
                assert(before[k] == ms[k]);
            }
        }
    }
}

/// The turns of a conversation follow each other without a gap up to its end,
/// each starts with a message of the user, and no other message of the user
/// stands in it.
pub proof fn law_turns_partition(ms: Seq<ConversationMessageView>)
    ensures
        blocks_well_formed(ms, turn_blocks(ms)),
        turn_blocks(ms).len() > 0 ==> turn_blocks(ms).last().end == ms.len(),
{
    lemma_turns_well_formed(ms);
}

/// Putting shortened texts in place leaves the number of messages, who spoke
/// and when as they were, and every message that is not a tool's.
pub proof fn law_applying_keeps_the_rest(
    ms: Seq<ConversationMessageView>,
    pending: Map<usize, String>,
    i: int,
)
    requires
        0 <= i < ms.len(),
    ensures
        pending_applied(ms, pending).len() == ms.len(),
        pending_applied(ms, pending)[i].role == ms[i].role,
        pending_applied(ms, pending)[i].timestamp == ms[i].timestamp,
        ms[i].role != SpeakerRole::Tool ==> pending_applied(ms, pending)[i] == ms[i],
        body_of(pending_applied(ms, pending)[i].content).len() <= body_of(ms[i].content).len(),
{
    let m = pending_applied(ms, pending)[i];
    if is_shortened(ms, i, pending) {
        let text = pending[i as usize]@;
        assert(m.content.drop_last() =~= Seq::<BlockView>::empty());
        assert(body_of(m.content.drop_last()) =~= Seq::<char>::empty());
        assert(body_of(m.content) =~= text);
    }
}

} // verus!
