//! The wire format of the services that speak the protocol of OpenAI.

use crate::json::{
    array, field, json_of_text, text_of_json, Json, JsonFields, JsonNumber, JsonView,
};
use crate::llm::provider::{
    calls_tool, text_of_blocks, ChatMessage, ChatRequest, ChatResponse, MessageRole, MessageView,
    RequestView, ResponseView,
};
use crate::llm::types::{
    finish_reason_of, no_usage, BlockView, ContentBlock, FinishReason, TokenUsage, ToolChoice,
    ToolChoiceView, ToolDefinition, ToolDefinitionView,
};
use crate::replicate::Replicate;
use crate::text::{
    chars_of, contains, find_chars, find_from, has_text, join, joined, lemma_without_text,
    remove_text, split_once, split_once_of, strip_prefix, strip_prefix_of, text_of, trim,
    trim_end_char, trim_end_of, trimmed, without_text,
};
use crate::walk::{
    any_is, append_all, filter_map_each, flat_map_each, flat_mapped, map_each, no_items, push_one,
    some_is,
};
use vstd::prelude::*;

verus! {

// ---------------------------------------------------------------------------
// Requests
// ---------------------------------------------------------------------------

/// How a role is written.
pub open spec fn role_name(role: MessageRole) -> Seq<char> {
    match role {
        MessageRole::System => "system"@,
        MessageRole::User => "user"@,
        MessageRole::Assistant => "assistant"@,
        MessageRole::Tool => "tool"@,
    }
}

/// A text block as a part of a message.
pub open spec fn text_part(b: BlockView) -> Option<JsonView> {
    match b {
        BlockView::Text { text } => Some(
            JsonView::Object(
                seq![("type"@, JsonView::Str("text"@)), ("text"@, JsonView::Str(text))],
            ),
        ),
        _ => None,
    }
}

/// A tool call as it is written.
pub open spec fn call_part(b: BlockView) -> Option<JsonView> {
    match b {
        BlockView::ToolUse { id, name, input } => Some(
            JsonView::Object(
                seq![
                    ("id"@, JsonView::Str(id)),
                    ("type"@, JsonView::Str("function"@)),
                    (
                        "function"@,
                        JsonView::Object(
                            seq![
                                ("name"@, JsonView::Str(name)),
                                ("arguments"@, JsonView::Str(text_of_json(input))),
                            ],
                        ),
                    ),
                ],
            ),
        ),
        _ => None,
    }
}

/// What a block says that was thought.
pub open spec fn thought_in(b: BlockView) -> Option<Seq<char>> {
    match b {
        BlockView::Thinking { content } => Some(content),
        _ => None,
    }
}

/// A tool's result as a message of its own.
pub open spec fn result_message(b: BlockView) -> Option<JsonView> {
    match b {
        BlockView::ToolResult { tool_use_id, content, .. } => Some(
            JsonView::Object(
                seq![
                    ("role"@, JsonView::Str("tool"@)),
                    ("tool_call_id"@, JsonView::Str(tool_use_id)),
                    ("content"@, JsonView::Str(content)),
                ],
            ),
        ),
        _ => None,
    }
}

/// The texts that blocks say were thought.
pub open spec fn thoughts_in(blocks: Seq<BlockView>) -> Seq<Seq<char>> {
    blocks.filter_map(|b: BlockView| thought_in(b))
}

/// Items as an array, where there are any.
pub open spec fn some_array(items: Seq<JsonView>) -> Option<JsonView> {
    if items.len() == 0 {
        None
    } else {
        Some(JsonView::Array(items))
    }
}

/// A message with tool calls: of several thoughts the last is kept.
pub open spec fn calling_message(blocks: Seq<BlockView>) -> JsonView {
    let thoughts = thoughts_in(blocks);
    JsonView::Object(
        seq![("role"@, JsonView::Str("assistant"@))] + field(
            "content"@,
            some_array(blocks.filter_map(|b: BlockView| text_part(b))),
        ) + field("tool_calls"@, some_array(blocks.filter_map(|b: BlockView| call_part(b)))) + field(
            "reasoning_content"@,
            if thoughts.len() == 0 {
                None
            } else {
                Some(JsonView::Str(thoughts.last()))
            },
        ),
    )
}

/// A message of the model with thoughts: of several the first is kept.
pub open spec fn thinking_message(blocks: Seq<BlockView>) -> JsonView {
    let thoughts = thoughts_in(blocks);
    let text = text_of_blocks(blocks);
    JsonView::Object(
        seq![("role"@, JsonView::Str("assistant"@))] + field(
            "content"@,
            if text.len() == 0 {
                None
            } else {
                Some(JsonView::Str(text))
            },
        ) + field(
            "reasoning_content"@,
            if thoughts.len() == 0 {
                None
            } else {
                Some(JsonView::Str(thoughts[0]))
            },
        ),
    )
}

/// A message as it is written: one for each tool result where it has any, else
/// one.
pub open spec fn message_api(m: MessageView) -> Seq<JsonView> {
    if calls_tool(m.content) {
        seq![calling_message(m.content)]
    } else if some_is(m.content, |b: BlockView| b is ToolResult) {
        m.content.filter_map(|b: BlockView| result_message(b))
    } else if m.role == MessageRole::Assistant && some_is(
        m.content,
        |b: BlockView| b is Thinking,
    ) {
        seq![thinking_message(m.content)]
    } else {
        seq![
            JsonView::Object(
                seq![
                    ("role"@, JsonView::Str(role_name(m.role))),
                    ("content"@, JsonView::Str(text_of_blocks(m.content))),
                ],
            ),
        ]
    }
}

/// The messages of a request as they are written.
pub open spec fn messages_api(messages: Seq<MessageView>) -> Seq<JsonView> {
    flat_mapped(messages, |m: MessageView| message_api(m))
}

/// A tool as it is written.
pub open spec fn tool_api(t: ToolDefinitionView) -> JsonView {
    JsonView::Object(
        seq![
            ("type"@, JsonView::Str("function"@)),
            (
                "function"@,
                JsonView::Object(
                    seq![
                        ("name"@, JsonView::Str(t.name)),
                        ("description"@, JsonView::Str(t.description)),
                        ("parameters"@, t.input_schema),
                    ],
                ),
            ),
        ],
    )
}

/// The tools of a request as they are written.
pub open spec fn tools_api(tools: Option<Seq<ToolDefinitionView>>) -> Option<JsonView> {
    match tools {
        Some(ts) => Some(JsonView::Array(ts.map_values(|t: ToolDefinitionView| tool_api(t)))),
        None => None,
    }
}

/// The choice of a tool as it is written.
pub open spec fn choice_api(choice: Option<ToolChoiceView>) -> Option<JsonView> {
    match choice {
        Some(ToolChoiceView::Auto) => Some(JsonView::Str("auto"@)),
        Some(ToolChoiceView::NoTool) => Some(JsonView::Str("none"@)),
        Some(ToolChoiceView::Tool { name }) => Some(
            JsonView::Object(
                seq![
                    ("type"@, JsonView::Str("function"@)),
                    ("function"@, JsonView::Object(seq![("name"@, JsonView::Str(name))])),
                ],
            ),
        ),
        None => None,
    }
}

fn make_text_part(b: &ContentBlock) -> (r: Option<Json>)
    ensures
        r.deep_view() == text_part(b.deep_view()),
{
    match b {
        ContentBlock::Text { text } => {
            let mut f = JsonFields::new();
            f.put_text("type", "text");
            f.put_text("text", text.as_str());
            assert(f@ =~= text_part(b.deep_view())->0->Object_0);
            Some(f.done())
        },
        _ => None,
    }
}

fn make_call_part(b: &ContentBlock) -> (r: Option<Json>)
    ensures
        r.deep_view() == call_part(b.deep_view()),
{
    match b {
        ContentBlock::ToolUse { id, name, input } => {
            let mut g = JsonFields::new();
            g.put_text("name", name.as_str());
            let arguments = input.to_text();
            g.put_text("arguments", arguments.as_str());
            let ghost inner = seq![
                ("name"@, JsonView::Str(name@)),
                ("arguments"@, JsonView::Str(text_of_json(input.deep_view()))),
            ];
            assert(g@ =~= inner);
            let mut f = JsonFields::new();
            f.put_text("id", id.as_str());
            f.put_text("type", "function");
            f.put("function", g.done());
            assert(f@ =~= call_part(b.deep_view())->0->Object_0);
            Some(f.done())
        },
        _ => None,
    }
}

fn make_thought(b: &ContentBlock) -> (r: Option<String>)
    ensures
        r.deep_view() == thought_in(b.deep_view()),
{
    match b {
        ContentBlock::Thinking { content } => Some(content.clone()),
        _ => None,
    }
}

fn make_result_message(b: &ContentBlock) -> (r: Option<Json>)
    ensures
        r.deep_view() == result_message(b.deep_view()),
{
    match b {
        ContentBlock::ToolResult { tool_use_id, content, .. } => {
            let mut f = JsonFields::new();
            f.put_text("role", "tool");
            f.put_text("tool_call_id", tool_use_id.as_str());
            f.put_text("content", content.as_str());
            assert(f@ =~= result_message(b.deep_view())->0->Object_0);
            Some(f.done())
        },
        _ => None,
    }
}

fn make_thoughts(blocks: &Vec<ContentBlock>) -> (r: Vec<String>)
    ensures
        r.deep_view() == thoughts_in(blocks.deep_view()),
{
    let f = |b: &ContentBlock| -> (r: Option<String>)
        ensures r.deep_view() == thought_in(b.deep_view())
    {
        make_thought(b)
    };
    filter_map_each(blocks.as_slice(), f, Ghost(|b: BlockView| thought_in(b)))
}

fn make_some_array(items: Vec<Json>) -> (r: Option<Json>)
    ensures
        r.deep_view() == some_array(items.deep_view()),
{
    assert(items.deep_view().len() == items@.len());
    if items.len() == 0 {
        None
    } else {
        Some(array(items))
    }
}

fn make_calling_message(blocks: &Vec<ContentBlock>) -> (r: Json)
    ensures
        r.deep_view() == calling_message(blocks.deep_view()),
{
    let f = |b: &ContentBlock| -> (r: Option<Json>)
        ensures r.deep_view() == text_part(b.deep_view())
    {
        make_text_part(b)
    };
    let texts = filter_map_each(blocks.as_slice(), f, Ghost(|b: BlockView| text_part(b)));
    let g = |b: &ContentBlock| -> (r: Option<Json>)
        ensures r.deep_view() == call_part(b.deep_view())
    {
        make_call_part(b)
    };
    let calls = filter_map_each(blocks.as_slice(), g, Ghost(|b: BlockView| call_part(b)));
    let thoughts = make_thoughts(blocks);
    assert(thoughts.deep_view().len() == thoughts@.len());
    let thought = if thoughts.len() == 0 {
        None
    } else {
        assert(thoughts.deep_view().last() == thoughts@[thoughts@.len() - 1]@);
        Some(Json::Str(thoughts[thoughts.len() - 1].clone()))
    };
    let mut fields = JsonFields::new();
    fields.put_text("role", "assistant");
    assert(fields@ =~= seq![("role"@, JsonView::Str("assistant"@))]);
    fields.put_some("content", make_some_array(texts));
    fields.put_some("tool_calls", make_some_array(calls));
    fields.put_some("reasoning_content", thought);
    fields.done()
}

fn make_thinking_message(m: &ChatMessage) -> (r: Json)
    ensures
        r.deep_view() == thinking_message(m.deep_view().content),
{
    let thoughts = make_thoughts(&m.content);
    assert(thoughts.deep_view().len() == thoughts@.len());
    let thought = if thoughts.len() == 0 {
        None
    } else {
        assert(thoughts.deep_view()[0] == thoughts@[0]@);
        Some(Json::Str(thoughts[0].clone()))
    };
    let text = m.text_content();
    let content = if text.as_str().is_empty() {
        None
    } else {
        Some(Json::Str(text))
    };
    let mut fields = JsonFields::new();
    fields.put_text("role", "assistant");
    assert(fields@ =~= seq![("role"@, JsonView::Str("assistant"@))]);
    fields.put_some("content", content);
    fields.put_some("reasoning_content", thought);
    fields.done()
}

fn one_json(x: Json) -> (r: Vec<Json>)
    ensures
        r.deep_view() == seq![x.deep_view()],
{
    let mut r: Vec<Json> = no_items();
    push_one(&mut r, x);
    assert(r.deep_view() =~= seq![x.deep_view()]);
    r
}

fn write_message(msg: &ChatMessage) -> (r: Vec<Json>)
    ensures
        r.deep_view() == message_api(msg.deep_view()),
{
    let f = |b: &ContentBlock| -> (r: bool)
        ensures r == (b.deep_view() is ToolUse)
    {
        b.is_tool_use()
    };
    let calls = any_is(msg.content.as_slice(), f, Ghost(|b: BlockView| b is ToolUse));
    assert(calls == calls_tool(msg.deep_view().content));
    if calls {
        return one_json(make_calling_message(&msg.content));
    }
    let g = |b: &ContentBlock| -> (r: bool)
        ensures r == (b.deep_view() is ToolResult)
    {
        b.is_tool_result()
    };
    if any_is(msg.content.as_slice(), g, Ghost(|b: BlockView| b is ToolResult)) {
        let h = |b: &ContentBlock| -> (r: Option<Json>)
            ensures r.deep_view() == result_message(b.deep_view())
        {
            make_result_message(b)
        };
        return filter_map_each(
            msg.content.as_slice(),
            h,
            Ghost(|b: BlockView| result_message(b)),
        );
    }
    let t = |b: &ContentBlock| -> (r: bool)
        ensures r == (b.deep_view() is Thinking)
    {
        b.is_thinking()
    };
    let thinks = any_is(msg.content.as_slice(), t, Ghost(|b: BlockView| b is Thinking));
    if msg.role == MessageRole::Assistant && thinks {
        return one_json(make_thinking_message(msg));
    }
    let role = match msg.role {
        MessageRole::System => "system",
        MessageRole::User => "user",
        MessageRole::Assistant => "assistant",
        MessageRole::Tool => "tool",
    };
    let text = msg.text_content();
    let mut fields = JsonFields::new();
    fields.put_text("role", role);
    fields.put_text("content", text.as_str());
    assert(fields@ =~= seq![
        ("role"@, JsonView::Str(role_name(msg.role))),
        ("content"@, JsonView::Str(text_of_blocks(msg.deep_view().content))),
    ]);
    one_json(fields.done())
}

fn make_messages(messages: &Vec<ChatMessage>) -> (r: Vec<Json>)
    ensures
        r.deep_view() == messages_api(messages.deep_view()),
{
    let f = |m: &ChatMessage| -> (r: Vec<Json>)
        ensures r.deep_view() == message_api(m.deep_view())
    {
        write_message(m)
    };
    flat_map_each(messages.as_slice(), f, Ghost(|m: MessageView| message_api(m)))
}

fn make_tool(t: &ToolDefinition) -> (r: Json)
    ensures
        r.deep_view() == tool_api(t.deep_view()),
{
    let mut g = JsonFields::new();
    g.put_text("name", t.name.as_str());
    g.put_text("description", t.description.as_str());
    g.put("parameters", t.input_schema.replicate());
    assert(g@ =~= seq![
        ("name"@, JsonView::Str(t.name@)),
        ("description"@, JsonView::Str(t.description@)),
        ("parameters"@, t.input_schema.deep_view()),
    ]);
    let mut f = JsonFields::new();
    f.put_text("type", "function");
    f.put("function", g.done());
    assert(f@ =~= tool_api(t.deep_view())->Object_0);
    f.done()
}

fn make_tools(tools: &Option<Vec<ToolDefinition>>) -> (r: Option<Json>)
    ensures
        r.deep_view() == tools_api(tools.deep_view()),
{
    match tools {
        Some(ts) => {
            let f = |t: &ToolDefinition| -> (r: Json)
                ensures r.deep_view() == tool_api(t.deep_view())
            {
                make_tool(t)
            };
            Some(
                array(map_each(ts.as_slice(), f, Ghost(|t: ToolDefinitionView| tool_api(t)))),
            )
        },
        None => None,
    }
}

fn make_choice(choice: &Option<ToolChoice>) -> (r: Option<Json>)
    ensures
        r.deep_view() == choice_api(choice.deep_view()),
{
    match choice {
        Some(ToolChoice::Auto) => Some(Json::Str("auto".to_owned())),
        Some(ToolChoice::NoTool) => Some(Json::Str("none".to_owned())),
        Some(ToolChoice::Tool { name }) => {
            let mut g = JsonFields::new();
            g.put_text("name", name.as_str());
            assert(g@ =~= seq![("name"@, JsonView::Str(name@))]);
            let mut f = JsonFields::new();
            f.put_text("type", "function");
            f.put("function", g.done());
            assert(f@ =~= choice_api(choice.deep_view())->0->Object_0);
            Some(f.done())
        },
        None => None,
    }
}

/// A request as it is sent.
#[derive(Debug, PartialEq)]
pub struct ApiChatRequest {
    pub model: String,
    pub messages: Vec<Json>,
    pub max_tokens: Option<u32>,
    /// The sampling temperature, as it is written in decimal.
    pub temperature: Option<String>,
    pub stream: Option<bool>,
    pub tools: Option<Json>,
    pub tool_choice: Option<Json>,
}

/// What is sent.
#[verifier::ext_equal]
pub struct ApiChatRequestView {
    pub model: Seq<char>,
    pub messages: Seq<JsonView>,
    pub max_tokens: Option<u32>,
    pub temperature: Option<Seq<char>>,
    pub stream: Option<bool>,
    pub tools: Option<JsonView>,
    pub tool_choice: Option<JsonView>,
}

impl DeepView for ApiChatRequest {
    type V = ApiChatRequestView;

    open spec fn deep_view(&self) -> ApiChatRequestView {
        ApiChatRequestView {
            model: self.model@,
            messages: self.messages.deep_view(),
            max_tokens: self.max_tokens.deep_view(),
            temperature: self.temperature.deep_view(),
            stream: self.stream.deep_view(),
            tools: self.tools.deep_view(),
            tool_choice: self.tool_choice.deep_view(),
        }
    }
}

/// What a request is sent as by a client with these settings.
pub open spec fn request_api(
    q: RequestView,
    model: Seq<char>,
    max_tokens: u32,
    temperature: Seq<char>,
    stream: bool,
) -> ApiChatRequestView {
    ApiChatRequestView {
        model: match q.model {
            Some(m) => m,
            None => model,
        },
        messages: messages_api(q.messages),
        max_tokens: Some(
            match q.max_tokens {
                Some(n) => n,
                None => max_tokens,
            },
        ),
        temperature: Some(
            match q.temperature {
                Some(t) => t,
                None => temperature,
            },
        ),
        stream: Some(stream),
        tools: tools_api(q.tools),
        tool_choice: choice_api(q.tool_choice),
    }
}

/// A request that is sent as one JSON value.
pub open spec fn request_body(a: ApiChatRequestView) -> JsonView {
    JsonView::Object(
        seq![
            ("model"@, JsonView::Str(a.model)),
            ("messages"@, JsonView::Array(a.messages)),
            ("stream"@, JsonView::Bool(a.stream == Some(true))),
        ] + field(
            "max_tokens"@,
            match a.max_tokens {
                Some(n) => Some(JsonView::Unsigned(n as u64)),
                None => None,
            },
        ) + field(
            "temperature"@,
            match a.temperature {
                Some(t) => Some(JsonView::Decimal(t)),
                None => None,
            },
        ) + field("tools"@, a.tools) + field("tool_choice"@, a.tool_choice),
    )
}

// ---------------------------------------------------------------------------
// Thoughts in a text
// ---------------------------------------------------------------------------

/// The first match of a pattern in a text, and its first group, as `regex`
/// finds them.
pub uninterp spec fn captured_of(pattern: Seq<char>, text: Seq<char>) -> Option<
    (Seq<char>, Seq<char>),
>;

/// `regex::Regex::new`, then `captures`: the text of the first match and of its
/// first group, an empty text where the group takes no part; nothing where
/// there is no match or the pattern is none. Both depend on the pattern and the
/// text alone, and the match stands in the text. How a pattern matches is left
/// unsaid.
#[verifier::external_body]
fn first_captures(pattern: &str, text: &str) -> (r: Option<(String, String)>)
    ensures
        r.deep_view() == captured_of(pattern@, text@),
        match r {
            Some(c) => has_text(text@, c.0@),
            None => true,
        },
{
    let found = regex::Regex::new(pattern).ok()?;
    let groups = found.captures(text)?;
    let whole = groups.get(0).map(|m| m.as_str().to_owned()).unwrap_or_default();
    let inner = groups.get(1).map(|m| m.as_str().to_owned()).unwrap_or_default();
    Some((whole, inner))
}

/// How a thought stands in a text: between tags, whatever they hold.
pub const THOUGHT_PATTERN: &'static str =
    "(?s)<think(?:ing)?[^>]*>(.*?)</think(?:ing)?\\s*>";

/// A text as a list of one, where something is left of it without the space
/// around it.
pub open spec fn noted(text: Seq<char>) -> Seq<Seq<char>> {
    if trimmed(text).len() == 0 {
        Seq::empty()
    } else {
        seq![trimmed(text)]
    }
}

/// The thoughts between tags, and the text without them.
pub open spec fn thoughts_apart(text: Seq<char>) -> (Seq<Seq<char>>, Seq<char>)
    decreases text.len(),
{
    match captured_of(THOUGHT_PATTERN@, text) {
        Some(c) => if c.0.len() == 0 || !has_text(text, c.0) {
            (Seq::empty(), text)
        } else {
            proof {
                lemma_without_text(text, c.0);
            }
            let later = thoughts_apart(without_text(text, c.0));
            (noted(c.1) + later.0, later.1)
        },
        None => (Seq::empty(), text),
    }
}

/// A text without the tag at its start: its name, and where a `>` follows on the
/// line of the tag, all up to that.
pub open spec fn after_tag(s: Seq<char>) -> Seq<char> {
    let t = match strip_prefix_of(s, "<thinking"@) {
        Some(t) => t,
        None => match strip_prefix_of(s, "<think"@) {
            Some(t) => t,
            None => s,
        },
    };
    match split_once_of(t, ">"@) {
        Some((rest, thought)) => if has_text(rest, "\n"@) {
            t
        } else {
            thought
        },
        None => t,
    }
}

/// Where a thought begins that has no end.
pub open spec fn open_thought(text: Seq<char>) -> Option<int> {
    match find_from(text, "<think"@, 0) {
        Some(i) => if has_text(text.skip(i), "</think"@) {
            None
        } else {
            Some(i)
        },
        None => None,
    }
}

/// What was thought and what was said, given the thoughts between tags and the
/// text without them: a thought that has no end goes to the end of the text.
pub open spec fn thought_and_said(parts: Seq<Seq<char>>, text: Seq<char>) -> (
    Option<Seq<char>>,
    Seq<char>,
) {
    let at = open_thought(text);
    let all = match at {
        Some(i) => parts + noted(after_tag(text.skip(i))),
        None => parts,
    };
    let rest = match at {
        Some(i) => text.take(i),
        None => text,
    };
    (
        if all.len() == 0 {
            None
        } else {
            Some(joined(all, "\n"@))
        },
        trimmed(rest),
    )
}

/// What was thought and what was said in a text.
pub open spec fn thinking_and_text(text: Seq<char>) -> (Option<Seq<char>>, Seq<char>) {
    thought_and_said(thoughts_apart(text).0, thoughts_apart(text).1)
}

fn drop_tag(s: &str) -> (r: String)
    ensures
        r@ == after_tag(s@),
{
    let t = match strip_prefix(s, "<thinking") {
        Some(t) => t,
        None => match strip_prefix(s, "<think") {
            Some(t) => t,
            None => s.to_owned(),
        },
    };
    match split_once(t.as_str(), ">") {
        Some(p) => if contains(p.0.as_str(), "\n") {
            t
        } else {
            p.1
        },
        None => t,
    }
}

fn note(parts: &mut Vec<String>, text: &str)
    ensures
        final(parts).deep_view() == old(parts).deep_view() + noted(text@),
{
    let ghost before = parts.deep_view();
    let bare = trim(text);
    if !bare.as_str().is_empty() {
        push_one(parts, bare);
        assert(parts.deep_view() =~= before + noted(text@));
    } else {
        assert(before + Seq::<Seq<char>>::empty() =~= before);
    }
}

/// What was thought and what was said, given the thoughts between tags and the
/// text without them.
pub fn split_said(parts: Vec<String>, text: &str) -> (r: (Option<String>, String))
    ensures
        (r.0.deep_view(), r.1@) == thought_and_said(parts.deep_view(), text@),
{
    let mut parts = parts;
    let cs = chars_of(text);
    let tag = chars_of("<think");
    let total: usize = cs.len();
    let mut end: usize = total;
    if let Some(i) = find_chars(&cs, &tag, 0) {
        let rest = text_of(&cs, i, total);
        assert(cs@.subrange(i as int, total as int) =~= cs@.skip(i as int));
        if !contains(rest.as_str(), "</think") {
            let thought = drop_tag(rest.as_str());
            note(&mut parts, thought.as_str());
            end = i;
        }
    }
    let rest = text_of(&cs, 0, end);
    proof {
        if open_thought(text@) is None {
            assert(cs@.subrange(0, end as int) =~= text@);
        } else {
            assert(cs@.subrange(0, end as int) =~= text@.take(end as int));
        }
        assert(parts.deep_view().len() == parts@.len());
    }
    let thinking = if parts.len() == 0 {
        None
    } else {
        Some(join(parts.as_slice(), "\n"))
    };
    (thinking, trim(rest.as_str()))
}

/// What was thought and what was said in a text.
pub fn extract_thinking_and_text(text: &str) -> (r: (Option<String>, String))
    ensures
        (r.0.deep_view(), r.1@) == thinking_and_text(text@),
{
    let mut parts: Vec<String> = no_items();
    let mut remaining = text.to_owned();
    assert(Seq::<Seq<char>>::empty() + thoughts_apart(text@).0 =~= thoughts_apart(text@).0);
    loop
        invariant
            (parts.deep_view() + thoughts_apart(remaining@).0, thoughts_apart(remaining@).1)
                == thoughts_apart(text@),
        decreases remaining@.len(),
    {
        let ghost before = parts.deep_view();
        match first_captures(THOUGHT_PATTERN, remaining.as_str()) {
            Some(c) => {
                if c.0.as_str().is_empty() {
                    assert(before + Seq::<Seq<char>>::empty() =~= before);
                    return split_said(parts, remaining.as_str());
                }
                proof {
                    lemma_without_text(remaining@, c.0@);
                }
                note(&mut parts, c.1.as_str());
                let rest = remove_text(remaining.as_str(), c.0.as_str());
                proof {
                    let later = thoughts_apart(rest@).0;
                    assert(before + (noted(c.1@) + later) =~= (before + noted(c.1@)) + later);
                }
                remaining = rest;
            },
            None => {
                assert(before + Seq::<Seq<char>>::empty() =~= before);
                return split_said(parts, remaining.as_str());
            },
        }
    }
}

// ---------------------------------------------------------------------------
// Replies
// ---------------------------------------------------------------------------

/// The function that a call names.
#[derive(Debug, PartialEq)]
pub struct ApiFunction {
    pub name: String,
    pub arguments: String,
}

/// What that is.
#[verifier::ext_equal]
pub struct ApiFunctionView {
    pub name: Seq<char>,
    pub arguments: Seq<char>,
}

impl DeepView for ApiFunction {
    type V = ApiFunctionView;

    open spec fn deep_view(&self) -> ApiFunctionView {
        ApiFunctionView {
            name: self.name@,
            arguments: self.arguments@,
        }
    }
}

/// A tool call of a reply.
#[derive(Debug, PartialEq)]
pub struct ApiToolCall {
    pub id: String,
    pub kind: String,
    pub function: ApiFunction,
}

/// What that is.
#[verifier::ext_equal]
pub struct ApiToolCallView {
    pub id: Seq<char>,
    pub kind: Seq<char>,
    pub function: ApiFunctionView,
}

impl DeepView for ApiToolCall {
    type V = ApiToolCallView;

    open spec fn deep_view(&self) -> ApiToolCallView {
        ApiToolCallView {
            id: self.id@,
            kind: self.kind@,
            function: self.function.deep_view(),
        }
    }
}

/// The message of a reply.
#[derive(Debug, PartialEq)]
pub struct ApiMessage {
    pub role: String,
    pub content: Option<Json>,
    pub reasoning_content: Option<String>,
    pub tool_calls: Option<Vec<ApiToolCall>>,
}

/// What that is.
#[verifier::ext_equal]
pub struct ApiMessageView {
    pub role: Seq<char>,
    pub content: Option<JsonView>,
    pub reasoning_content: Option<Seq<char>>,
    pub tool_calls: Option<Seq<ApiToolCallView>>,
}

impl DeepView for ApiMessage {
    type V = ApiMessageView;

    open spec fn deep_view(&self) -> ApiMessageView {
        ApiMessageView {
            role: self.role@,
            content: self.content.deep_view(),
            reasoning_content: self.reasoning_content.deep_view(),
            tool_calls: self.tool_calls.deep_view(),
        }
    }
}

/// One of the answers of a reply.
#[derive(Debug, PartialEq)]
pub struct ApiChoice {
    pub message: Option<ApiMessage>,
    pub finish_reason: Option<String>,
}

/// What that is.
#[verifier::ext_equal]
pub struct ApiChoiceView {
    pub message: Option<ApiMessageView>,
    pub finish_reason: Option<Seq<char>>,
}

impl DeepView for ApiChoice {
    type V = ApiChoiceView;

    open spec fn deep_view(&self) -> ApiChoiceView {
        ApiChoiceView {
            message: self.message.deep_view(),
            finish_reason: self.finish_reason.deep_view(),
        }
    }
}

/// The tokens that a reply says were used.
#[derive(Debug, PartialEq)]
pub struct ApiUsage {
    pub prompt_tokens: Option<u64>,
    pub completion_tokens: Option<u64>,
    pub total_tokens: Option<u64>,
}

/// What those are.
#[verifier::ext_equal]
pub struct ApiUsageView {
    pub prompt_tokens: Option<u64>,
    pub completion_tokens: Option<u64>,
    pub total_tokens: Option<u64>,
}

impl DeepView for ApiUsage {
    type V = ApiUsageView;

    open spec fn deep_view(&self) -> ApiUsageView {
        ApiUsageView {
            prompt_tokens: self.prompt_tokens.deep_view(),
            completion_tokens: self.completion_tokens.deep_view(),
            total_tokens: self.total_tokens.deep_view(),
        }
    }
}

/// A reply as it is received.
#[derive(Debug, PartialEq)]
pub struct ApiChatResponse {
    pub choices: Vec<ApiChoice>,
    pub model: Option<String>,
    pub usage: Option<ApiUsage>,
}

/// What is received.
#[verifier::ext_equal]
pub struct ApiChatResponseView {
    pub choices: Seq<ApiChoiceView>,
    pub model: Option<Seq<char>>,
    pub usage: Option<ApiUsageView>,
}

impl DeepView for ApiChatResponse {
    type V = ApiChatResponseView;

    open spec fn deep_view(&self) -> ApiChatResponseView {
        ApiChatResponseView {
            choices: self.choices.deep_view(),
            model: self.model.deep_view(),
            usage: self.usage.deep_view(),
        }
    }
}

/// A thought, where it is not empty.
pub open spec fn thought_block(s: Option<Seq<char>>) -> Seq<BlockView> {
    match s {
        Some(content) => if content.len() > 0 {
            seq![BlockView::Thinking { content }]
        } else {
            Seq::empty()
        },
        None => Seq::empty(),
    }
}

/// A text, where it is not empty.
pub open spec fn text_block(s: Option<Seq<char>>) -> Seq<BlockView> {
    match s {
        Some(text) => if text.len() > 0 {
            seq![BlockView::Text { text }]
        } else {
            Seq::empty()
        },
        None => Seq::empty(),
    }
}

/// What was thought and what was said, as blocks.
pub open spec fn said_blocks(thinking: Option<Seq<char>>, text: Seq<char>) -> Seq<BlockView> {
    (match thinking {
        Some(content) => seq![BlockView::Thinking { content }],
        None => Seq::empty(),
    }) + text_block(Some(text))
}

/// A part of a message as blocks.
pub open spec fn part_blocks(part: JsonView) -> Seq<BlockView> {
    thought_block(part.str_at("reasoning_content"@)) + text_block(part.str_at("text"@))
}

/// The content of a message as blocks.
pub open spec fn content_blocks(content: Option<JsonView>) -> Seq<BlockView> {
    match content {
        Some(JsonView::Str(s)) => if s.len() > 0 {
            said_blocks(thinking_and_text(s).0, thinking_and_text(s).1)
        } else {
            Seq::empty()
        },
        Some(JsonView::Array(parts)) => flat_mapped(parts, |p: JsonView| part_blocks(p)),
        _ => Seq::empty(),
    }
}

/// A tool call as a block, by what was read of its arguments.
pub open spec fn call_block(c: ApiToolCallView, read: Result<JsonView, Seq<char>>) -> BlockView {
    BlockView::ToolUse {
        id: c.id,
        name: c.function.name,
        input: match read {
            Ok(v) => v,
            Err(_) => JsonView::Null,
        },
    }
}

/// The tool calls of a message as blocks.
pub open spec fn call_blocks(calls: Option<Seq<ApiToolCallView>>) -> Seq<BlockView> {
    match calls {
        Some(cs) => cs.map_values(
            |c: ApiToolCallView| call_block(c, json_of_text(c.function.arguments)),
        ),
        None => Seq::empty(),
    }
}

/// A message as blocks; an empty text where it says nothing.
pub open spec fn message_blocks(m: ApiMessageView) -> Seq<BlockView> {
    let blocks = thought_block(m.reasoning_content) + content_blocks(m.content) + call_blocks(
        m.tool_calls,
    );
    if blocks.len() == 0 {
        seq![BlockView::Text { text: ""@ }]
    } else {
        blocks
    }
}

/// The tokens that were used.
pub open spec fn usage_of(u: Option<ApiUsageView>) -> TokenUsage {
    match u {
        Some(u) => TokenUsage {
            prompt_tokens: match u.prompt_tokens {
                Some(n) => n,
                None => 0,
            },
            completion_tokens: match u.completion_tokens {
                Some(n) => n,
                None => 0,
            },
            total_tokens: match u.total_tokens {
                Some(n) => n,
                None => 0,
            },
            cache_creation_input_tokens: 0,
            cache_read_input_tokens: 0,
        },
        None => no_usage(),
    }
}

/// What a reply says: its first answer counts.
pub open spec fn response_of(a: ApiChatResponseView, fallback_model: Seq<char>) -> ResponseView {
    ResponseView {
        content: if a.choices.len() == 0 {
            Seq::empty()
        } else {
            match a.choices[0].message {
                Some(m) => message_blocks(m),
                None => Seq::empty(),
            }
        },
        model: match a.model {
            Some(m) => m,
            None => fallback_model,
        },
        usage: usage_of(a.usage),
        finish_reason: if a.choices.len() == 0 {
            None
        } else {
            match a.choices[0].finish_reason {
                Some(s) => Some(finish_reason_of(s)),
                None => None,
            }
        },
    }
}

fn make_thought_block(s: Option<&str>) -> (r: Vec<ContentBlock>)
    ensures
        r.deep_view() == thought_block(s.deep_view()),
{
    let mut r: Vec<ContentBlock> = no_items();
    if let Some(t) = s {
        if !t.is_empty() {
            push_one(&mut r, ContentBlock::thinking(t));
        }
    }
    assert(r.deep_view() =~= thought_block(s.deep_view()));
    r
}

fn make_text_block(s: Option<&str>) -> (r: Vec<ContentBlock>)
    ensures
        r.deep_view() == text_block(s.deep_view()),
{
    let mut r: Vec<ContentBlock> = no_items();
    if let Some(t) = s {
        if !t.is_empty() {
            push_one(&mut r, ContentBlock::text(t));
        }
    }
    assert(r.deep_view() =~= text_block(s.deep_view()));
    r
}

/// What was thought and what was said, as blocks.
pub fn blocks_of_said(thinking: Option<String>, text: &str) -> (r: Vec<ContentBlock>)
    ensures
        r.deep_view() == said_blocks(thinking.deep_view(), text@),
{
    let ghost th = thinking.deep_view();
    let mut r: Vec<ContentBlock> = no_items();
    if let Some(t) = thinking {
        push_one(&mut r, ContentBlock::Thinking { content: t });
    }
    let ghost first = r.deep_view();
    assert(first =~= match th {
        Some(content) => seq![BlockView::Thinking { content }],
        None => Seq::empty(),
    });
    append_all(&mut r, make_text_block(Some(text)));
    r
}

fn make_part_blocks(part: &Json) -> (r: Vec<ContentBlock>)
    ensures
        r.deep_view() == part_blocks(part.deep_view()),
{
    let thought = part.str_at("reasoning_content");
    let text = part.str_at("text");
    let mut r = match &thought {
        Some(t) => make_thought_block(Some(t.as_str())),
        None => make_thought_block(None),
    };
    let more = match &text {
        Some(t) => make_text_block(Some(t.as_str())),
        None => make_text_block(None),
    };
    append_all(&mut r, more);
    r
}

fn make_content_blocks(content: &Option<Json>) -> (r: Vec<ContentBlock>)
    ensures
        r.deep_view() == content_blocks(content.deep_view()),
{
    match content {
        Some(Json::Str(s)) => if s.as_str().is_empty() {
            no_items()
        } else {
            let (thinking, text) = extract_thinking_and_text(s.as_str());
            blocks_of_said(thinking, text.as_str())
        },
        Some(Json::Array(parts)) => {
            let f = |p: &Json| -> (r: Vec<ContentBlock>)
                ensures r.deep_view() == part_blocks(p.deep_view())
            {
                make_part_blocks(p)
            };
            assert(parts.deep_view() =~= content.deep_view()->0->Array_0);
            flat_map_each(parts.as_slice(), f, Ghost(|p: JsonView| part_blocks(p)))
        },
        _ => no_items(),
    }
}

/// A tool call as a block, by what was read of its arguments: nothing where
/// they could not be read.
pub fn block_of_call(call: &ApiToolCall, read: Result<Json, String>) -> (r: ContentBlock)
    ensures
        r.deep_view() == call_block(
            call.deep_view(),
            match read {
                Ok(v) => Ok(v.deep_view()),
                Err(e) => Err(e@),
            },
        ),
{
    let input = match read {
        Ok(v) => v,
        Err(_) => Json::Null,
    };
    ContentBlock::ToolUse { id: call.id.clone(), name: call.function.name.clone(), input }
}

fn make_call_blocks(calls: &Option<Vec<ApiToolCall>>) -> (r: Vec<ContentBlock>)
    ensures
        r.deep_view() == call_blocks(calls.deep_view()),
{
    match calls {
        Some(cs) => {
            let f = |c: &ApiToolCall| -> (r: ContentBlock)
                ensures
                    r.deep_view() == call_block(
                        c.deep_view(),
                        json_of_text(c.deep_view().function.arguments),
                    )
            {
                block_of_call(c, Json::parse(c.function.arguments.as_str()))
            };
            map_each(
                cs.as_slice(),
                f,
                Ghost(
                    |c: ApiToolCallView| call_block(c, json_of_text(c.function.arguments)),
                ),
            )
        },
        None => no_items(),
    }
}

fn read_message(msg: &ApiMessage) -> (r: Vec<ContentBlock>)
    ensures
        r.deep_view() == message_blocks(msg.deep_view()),
{
    let mut blocks = match &msg.reasoning_content {
        Some(t) => make_thought_block(Some(t.as_str())),
        None => make_thought_block(None),
    };
    append_all(&mut blocks, make_content_blocks(&msg.content));
    append_all(&mut blocks, make_call_blocks(&msg.tool_calls));
    assert(blocks.deep_view().len() == blocks@.len());
    if blocks.len() == 0 {
        push_one(&mut blocks, ContentBlock::text(""));
        assert(blocks.deep_view() =~= seq![BlockView::Text { text: ""@ }]);
    }
    blocks
}

fn make_usage(u: &Option<ApiUsage>) -> (r: TokenUsage)
    ensures
        r == usage_of(u.deep_view()),
{
    match u {
        Some(u) => {
            let prompt_tokens: u64 = match u.prompt_tokens {
                Some(n) => n,
                None => 0,
            };
            let completion_tokens: u64 = match u.completion_tokens {
                Some(n) => n,
                None => 0,
            };
            let total_tokens: u64 = match u.total_tokens {
                Some(n) => n,
                None => 0,
            };
            TokenUsage {
                prompt_tokens,
                completion_tokens,
                total_tokens,
                cache_creation_input_tokens: 0,
                cache_read_input_tokens: 0,
            }
        },
        None => TokenUsage::default(),
    }
}

fn read_response(api_resp: ApiChatResponse, fallback_model: String) -> (r: ChatResponse)
    ensures
        r.deep_view() == response_of(api_resp.deep_view(), fallback_model@),
{
    let usage = make_usage(&api_resp.usage);
    let mut content: Vec<ContentBlock> = no_items();
    let mut finish_reason: Option<FinishReason> = None;
    assert(api_resp.deep_view().choices.len() == api_resp.choices@.len());
    if api_resp.choices.len() > 0 {
        let choice = &api_resp.choices[0];
        assert(api_resp.deep_view().choices[0] == choice.deep_view());
        if let Some(m) = &choice.message {
            content = read_message(m);
        }
        if let Some(s) = &choice.finish_reason {
            finish_reason = Some(FinishReason::from_api_str(s.as_str()));
        }
    }
    let model = match api_resp.model {
        Some(m) => m,
        None => fallback_model,
    };
    ChatResponse { content, model, usage, finish_reason }
}

// ---------------------------------------------------------------------------
// The client
// ---------------------------------------------------------------------------

/// What a client is set up with.
#[derive(Debug)]
pub struct OpenAiCompatClient {
    pub api_base: String,
    pub api_key: String,
    pub model: String,
    pub max_tokens: u32,
    /// The sampling temperature, as it is written in decimal.
    pub temperature: String,
}

impl OpenAiCompatClient {
    /// A client with these settings.
    pub fn new(
        api_base: String,
        api_key: String,
        model: String,
        max_tokens: u32,
        temperature: String,
    ) -> (r: Self)
        ensures
            r == (OpenAiCompatClient { api_base, api_key, model, max_tokens, temperature }),
    {
        OpenAiCompatClient { api_base, api_key, model, max_tokens, temperature }
    }

    /// The model it asks.
    pub fn model(&self) -> (r: &str)
        ensures
            r@ == self.model@,
    {
        self.model.as_str()
    }

    /// Where requests go.
    pub fn chat_url(&self) -> (r: String)
        ensures
            r@ == trim_end_of(self.api_base@, '/') + "/chat/completions"@,
    {
        let mut r = trim_end_char(self.api_base.as_str(), '/');
        r.append("/chat/completions");
        r
    }

    /// What is sent to show who asks.
    pub fn authorization(&self) -> (r: String)
        ensures
            r@ == "Bearer "@ + self.api_key@,
    {
        let mut r = "Bearer ".to_owned();
        r.append(self.api_key.as_str());
        r
    }

    /// A message as it is written.
    pub fn message_to_api(msg: &ChatMessage) -> (r: Vec<Json>)
        ensures
            r.deep_view() == message_api(msg.deep_view()),
    {
        write_message(msg)
    }

    /// A message as blocks; an empty text where it says nothing.
    pub fn parse_api_message(msg: &ApiMessage) -> (r: Vec<ContentBlock>)
        ensures
            r.deep_view() == message_blocks(msg.deep_view()),
    {
        read_message(msg)
    }

    /// What a reply says: its first answer counts.
    pub fn parse_response(api_resp: ApiChatResponse, fallback_model: String) -> (r: ChatResponse)
        ensures
            r.deep_view() == response_of(api_resp.deep_view(), fallback_model@),
    {
        read_response(api_resp, fallback_model)
    }

    fn request_to_api(&self, request: &ChatRequest, stream: bool) -> (r: ApiChatRequest)
        ensures
            r.deep_view() == request_api(
                request.deep_view(),
                self.model@,
                self.max_tokens,
                self.temperature@,
                stream,
            ),
    {
        let model = match &request.model {
            Some(m) => m.clone(),
            None => self.model.clone(),
        };
        let max_tokens: u32 = match request.max_tokens {
            Some(n) => n,
            None => self.max_tokens,
        };
        let temperature = match &request.temperature {
            Some(t) => t.clone(),
            None => self.temperature.clone(),
        };
        ApiChatRequest {
            model,
            messages: make_messages(&request.messages),
            max_tokens: Some(max_tokens),
            temperature: Some(temperature),
            stream: Some(stream),
            tools: make_tools(&request.tools),
            tool_choice: make_choice(&request.tool_choice),
        }
    }

    /// A request as it is sent, to be answered at once.
    pub fn to_api_request(&self, request: &ChatRequest) -> (r: ApiChatRequest)
        ensures
            r.deep_view() == request_api(
                request.deep_view(),
                self.model@,
                self.max_tokens,
                self.temperature@,
                false,
            ),
    {
        self.request_to_api(request, false)
    }

    /// A request as it is sent, to be answered piece by piece.
    pub fn to_stream_api_body(&self, request: &ChatRequest) -> (r: Json)
        ensures
            r.deep_view() == request_body(
                request_api(
                    request.deep_view(),
                    self.model@,
                    self.max_tokens,
                    self.temperature@,
                    true,
                ),
            ),
    {
        let a = self.request_to_api(request, true);
        let ghost v = a.deep_view();
        let mut f = JsonFields::new();
        f.put_text("model", a.model.as_str());
        f.put("messages", array(a.messages));
        f.put("stream", Json::Bool(true));
        assert(f@ =~= seq![
            ("model"@, JsonView::Str(v.model)),
            ("messages"@, JsonView::Array(v.messages)),
            ("stream"@, JsonView::Bool(true)),
        ]);
        let max_tokens = match a.max_tokens {
            Some(n) => Some(Json::Number(JsonNumber::Unsigned(n as u64))),
            None => None,
        };
        f.put_some("max_tokens", max_tokens);
        let temperature = match a.temperature {
            Some(t) => Some(Json::Number(JsonNumber::Decimal(t))),
            None => None,
        };
        f.put_some("temperature", temperature);
        f.put_some("tools", a.tools);
        f.put_some("tool_choice", a.tool_choice);
        f.done()
    }
}

// ---------------------------------------------------------------------------
// Laws
// ---------------------------------------------------------------------------

/// A reply always says something: its blocks are never none.
pub proof fn law_a_message_has_blocks(m: ApiMessageView)
    ensures
        message_blocks(m).len() > 0,
{
}

/// Each tool result is handed back, in order: as many messages are written as
/// there are results, where the message calls no tool.
pub proof fn law_results_are_handed_back(m: MessageView)
    requires
        !calls_tool(m.content),
        some_is(m.content, |b: BlockView| b is ToolResult),
    ensures
        message_api(m).len() == m.content.filter(|b: BlockView| b is ToolResult).len(),
{
    lemma_results_counted(m.content);
}

proof fn lemma_results_counted(s: Seq<BlockView>)
    ensures
        s.filter_map(|b: BlockView| result_message(b)).len() == s.filter(
            |b: BlockView| b is ToolResult,
        ).len(),
    decreases s.len(),
{
    reveal(Seq::filter);
    if s.len() > 0 {
        lemma_results_counted(s.drop_last());
    }
}

} // verus!
