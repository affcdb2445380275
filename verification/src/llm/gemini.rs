//! The wire format of Gemini.

use crate::json::{array, field, Json, JsonFields, JsonNumber, JsonView};
use crate::llm::error::LlmError;
use crate::llm::http_client::{check_proxy, proxy_problem, url_scheme_of};
use crate::llm::provider::{
    calls_tool, text_of_blocks, ChatMessage, ChatRequest, ChatResponse, MessageRole, MessageView,
    RequestView, ResponseView,
};
use crate::llm::stream::count_at;
use crate::llm::types::{
    no_usage, BlockView, ContentBlock, FinishReason, TokenUsage, ToolChoice, ToolChoiceView,
    ToolDefinition, ToolDefinitionView,
};
use crate::replicate::Replicate;
use crate::seqs::{lemma_take_all, lemma_take_step};
use crate::text::{
    decimal, find_from, hex_char, hex_digit, join, joined, lemma_find_from, number, occurs_at, same,
    split_once, split_once_of, text_of_utf8, trim_end_char, trim_end_of,
};
use crate::walk::{
    any_is, filter_map_each, flat_map_each, flat_mapped, map_each, no_items, push_one, some_is,
};
use vstd::prelude::*;
use vstd::utf8::{decode_utf8, encode_utf8, valid_utf8};

verus! {

// ---------------------------------------------------------------------------
// Thought signatures in the ids of tool calls
// ---------------------------------------------------------------------------

/// Bytes in hexadecimal, two digits each.
pub open spec fn hex_text(bytes: Seq<u8>) -> Seq<char>
    decreases bytes.len(),
{
    if bytes.len() == 0 {
        Seq::empty()
    } else {
        hex_text(bytes.drop_last()).push(hex_digit(bytes.last() as int / 16)).push(
            hex_digit(bytes.last() as int % 16),
        )
    }
}

/// The value of a hexadecimal digit, in either case.
pub open spec fn hex_value(b: u8) -> Option<int> {
    if 48 <= b <= 57 {
        Some(b - 48)
    } else if 97 <= b <= 102 {
        Some(b - 87)
    } else if 65 <= b <= 70 {
        Some(b - 55)
    } else {
        None
    }
}

/// The bytes that hexadecimal digits stand for, two digits each; nothing where
/// a digit is none, or one is left over.
pub open spec fn hex_bytes(b: Seq<u8>) -> Option<Seq<u8>>
    decreases b.len(),
{
    if b.len() == 0 {
        Some(Seq::empty())
    } else if b.len() == 1 {
        None
    } else {
        match (hex_bytes(b.take(b.len() - 2)), hex_value(b[b.len() - 2]), hex_value(b.last())) {
            (Some(before), Some(high), Some(low)) => Some(before.push((16 * high + low) as u8)),
            _ => None,
        }
    }
}

/// What stands between the number of a call and its signature.
pub const SIGNATURE_MARK: &'static str = "__gemini_thought_";

/// The id of a tool call: its number, and the signature of the thought that it
/// came from.
pub open spec fn call_id(sequence: nat, signature: Option<Seq<char>>) -> Seq<char> {
    match signature {
        None => "call_"@ + decimal(sequence),
        Some(s) => "call_"@ + decimal(sequence) + SIGNATURE_MARK@ + hex_text(encode_utf8(s)),
    }
}

/// The signature in the id of a tool call.
pub open spec fn signature_of(id: Seq<char>) -> Option<Seq<char>> {
    match split_once_of(id, SIGNATURE_MARK@) {
        None => None,
        Some((_, encoded)) => match hex_bytes(encode_utf8(encoded)) {
            None => None,
            Some(bytes) => if valid_utf8(bytes) {
                Some(decode_utf8(bytes))
            } else {
                None
            },
        },
    }
}

/// Bytes in hexadecimal, two digits each.
pub fn hex_encode(bytes: &[u8]) -> (r: String)
    ensures
        r@ == hex_text(bytes@),
{
    let mut r = String::new();
    let mut i: usize = 0;
    assert(bytes@.take(0) =~= Seq::<u8>::empty());
    while i < bytes.len()
        invariant
            i <= bytes@.len(),
            r@ == hex_text(bytes@.take(i as int)),
        decreases bytes@.len() - i,
    {
        proof {
            lemma_take_step(bytes@, i as int);
        }
        let b: u8 = bytes[i];
        r.push(hex_char(b / 16));
        r.push(hex_char(b % 16));
        i = i + 1;
    }
    proof {
        lemma_take_all(bytes@);
    }
    r
}

fn find_hex_value(b: u8) -> (r: Option<u8>)
    ensures
        match r {
            Some(v) => hex_value(b) == Some(v as int) && v < 16,
            None => hex_value(b) is None,
        },
{
    if 48 <= b && b <= 57 {
        Some(b - 48)
    } else if 97 <= b && b <= 102 {
        Some(b - 87)
    } else if 65 <= b && b <= 70 {
        Some(b - 55)
    } else {
        None
    }
}

proof fn lemma_hex_bytes_fails(b: Seq<u8>, i: int)
    requires
        0 <= i <= b.len(),
        (b.len() - i) % 2 == 0,
        hex_bytes(b.take(i)) is None,
    ensures
        hex_bytes(b) is None,
    decreases b.len() - i,
{
    if i < b.len() {
        assert(b.take(i + 2).take(i) =~= b.take(i));
        lemma_hex_bytes_fails(b, i + 2);
    } else {
        assert(b.take(i) =~= b);
    }
}

proof fn lemma_odd_digits(b: Seq<u8>)
    requires
        b.len() % 2 == 1,
    ensures
        hex_bytes(b) is None,
    decreases b.len(),
{
    if b.len() > 1 {
        lemma_odd_digits(b.take(b.len() - 2));
    }
}

/// The bytes that hexadecimal digits stand for, two digits each.
pub fn hex_decode(value: &str) -> (r: Option<Vec<u8>>)
    ensures
        match r {
            Some(v) => hex_bytes(encode_utf8(value@)) == Some(v@),
            None => hex_bytes(encode_utf8(value@)) is None,
        },
{
    let bytes = value.as_bytes();
    let ghost b = encode_utf8(value@);
    let total: usize = bytes.len();
    if total % 2 != 0 {
        proof {
            lemma_odd_digits(b);
        }
        return None;
    }
    let mut r: Vec<u8> = Vec::new();
    let mut i: usize = 0;
    assert(b.take(0) =~= Seq::<u8>::empty());
    while i < total
        invariant
            i <= total == b.len(),
            bytes@ == b,
            b == encode_utf8(value@),
            total % 2 == 0,
            i % 2 == 0,
            hex_bytes(b.take(i as int)) == Some(r@),
        decreases total - i,
    {
        proof {
            assert(b.take(i + 2).take(i as int) =~= b.take(i as int));
            assert(b.take(i + 2)[i as int] == b[i as int]);
            assert(b.take(i + 2).last() == b[i + 1]);
        }
        let high: u8 = match find_hex_value(bytes[i]) {
            Some(v) => v,
            None => {
                proof {
                    lemma_hex_bytes_fails(b, i + 2);
                }
                return None;
            },
        };
        let low: u8 = match find_hex_value(bytes[i + 1]) {
            Some(v) => v,
            None => {
                proof {
                    lemma_hex_bytes_fails(b, i + 2);
                }
                return None;
            },
        };
        r.push(16 * high + low);
        i = i + 2;
    }
    assert(b.take(i as int) =~= b);
    Some(r)
}

/// The id of a tool call: its number, and the signature of the thought that it
/// came from.
pub fn gemini_tool_call_id(sequence: usize, thought_signature: Option<&str>) -> (r: String)
    ensures
        r@ == call_id(sequence as nat, thought_signature.deep_view()),
{
    let mut r = "call_".to_owned();
    let n = number(sequence as u64);
    r.append(n.as_str());
    if let Some(s) = thought_signature {
        r.append(SIGNATURE_MARK);
        let h = hex_encode(s.as_bytes());
        r.append(h.as_str());
    }
    r
}

/// The signature in the id of a tool call.
pub fn thought_signature_from_tool_call_id(id: &str) -> (r: Option<String>)
    ensures
        r.deep_view() == signature_of(id@),
{
    match split_once(id, SIGNATURE_MARK) {
        None => None,
        Some(p) => match hex_decode(p.1.as_str()) {
            None => None,
            Some(bytes) => text_of_utf8(bytes),
        },
    }
}

// ---------------------------------------------------------------------------
// Requests
// ---------------------------------------------------------------------------

/// The name of the tool that a call with the id asked for: where an id occurs
/// twice, the last counts.
pub open spec fn called_name(blocks: Seq<BlockView>, id: Seq<char>) -> Option<Seq<char>>
    decreases blocks.len(),
{
    if blocks.len() == 0 {
        None
    } else {
        match blocks.last() {
            BlockView::ToolUse { id: own, name, .. } => if own == id {
                Some(name)
            } else {
                called_name(blocks.drop_last(), id)
            },
            _ => called_name(blocks.drop_last(), id),
        }
    }
}

/// All that messages say.
pub open spec fn all_blocks(messages: Seq<MessageView>) -> Seq<BlockView> {
    flat_mapped(messages, |m: MessageView| m.content)
}

/// A text as a part.
pub open spec fn text_json(text: Seq<char>) -> JsonView {
    JsonView::Object(seq![("text"@, JsonView::Str(text))])
}

/// A tool's result as a part, where the call is known.
pub open spec fn response_part(known: Seq<BlockView>, b: BlockView) -> Option<JsonView> {
    match b {
        BlockView::ToolResult { tool_use_id, content, .. } => match called_name(
            known,
            tool_use_id,
        ) {
            Some(name) => Some(
                JsonView::Object(
                    seq![
                        (
                            "functionResponse"@,
                            JsonView::Object(
                                seq![
                                    ("name"@, JsonView::Str(name)),
                                    (
                                        "response"@,
                                        JsonView::Object(
                                            seq![("output"@, JsonView::Str(content))],
                                        ),
                                    ),
                                ],
                            ),
                        ),
                    ],
                ),
            ),
            None => None,
        },
        _ => None,
    }
}

/// A block of a message with tool calls as a part: thoughts are left out, and
/// the signature of a call is given back.
pub open spec fn calling_part(b: BlockView) -> Option<JsonView> {
    match b {
        BlockView::Text { text } => Some(text_json(text)),
        BlockView::ToolUse { id, name, input } => Some(
            JsonView::Object(
                seq![
                    (
                        "functionCall"@,
                        JsonView::Object(
                            seq![("name"@, JsonView::Str(name)), ("args"@, input)],
                        ),
                    ),
                ] + field(
                    "thoughtSignature"@,
                    match signature_of(id) {
                        Some(s) => Some(JsonView::Str(s)),
                        None => None,
                    },
                ),
            ),
        ),
        _ => None,
    }
}

/// The parts of a message.
pub open spec fn parts_of_message(known: Seq<BlockView>, m: MessageView) -> Seq<JsonView> {
    if some_is(m.content, |b: BlockView| b is ToolResult) {
        m.content.filter_map(|b: BlockView| response_part(known, b))
    } else if calls_tool(m.content) {
        m.content.filter_map(|b: BlockView| calling_part(b))
    } else {
        seq![text_json(text_of_blocks(m.content))]
    }
}

/// Who speaks in a message.
pub open spec fn gemini_role(m: MessageView) -> Seq<char> {
    if some_is(m.content, |b: BlockView| b is ToolResult) {
        "user"@
    } else if m.role == MessageRole::Assistant {
        "model"@
    } else {
        "user"@
    }
}

/// A message as it is written: nothing where it is an instruction or has no
/// parts.
pub open spec fn content_json(known: Seq<BlockView>, m: MessageView) -> Option<JsonView> {
    let parts = parts_of_message(known, m);
    if m.role == MessageRole::System || parts.len() == 0 {
        None
    } else {
        Some(
            JsonView::Object(
                seq![
                    ("role"@, JsonView::Str(gemini_role(m))),
                    ("parts"@, JsonView::Array(parts)),
                ],
            ),
        )
    }
}

/// An instruction that says something.
pub open spec fn instruction(m: MessageView) -> Option<Seq<char>> {
    if m.role == MessageRole::System && text_of_blocks(m.content).len() > 0 {
        Some(text_of_blocks(m.content))
    } else {
        None
    }
}

/// The instructions as they are written.
pub open spec fn instructions_json(messages: Seq<MessageView>) -> Option<JsonView> {
    let texts = messages.filter_map(|m: MessageView| instruction(m));
    if texts.len() == 0 {
        None
    } else {
        Some(
            JsonView::Object(
                seq![("parts"@, JsonView::Array(seq![text_json(joined(texts, "\n\n"@))]))],
            ),
        )
    }
}

/// A tool as it is declared.
pub open spec fn declaration(t: ToolDefinitionView) -> JsonView {
    JsonView::Object(
        seq![
            ("name"@, JsonView::Str(t.name)),
            ("description"@, JsonView::Str(t.description)),
            ("parametersJsonSchema"@, t.input_schema),
        ],
    )
}

/// The tools as they are declared, where there are any.
pub open spec fn declarations_json(tools: Option<Seq<ToolDefinitionView>>) -> Option<JsonView> {
    match tools {
        Some(ts) => if ts.len() == 0 {
            None
        } else {
            Some(
                JsonView::Array(
                    seq![
                        JsonView::Object(
                            seq![
                                (
                                    "functionDeclarations"@,
                                    JsonView::Array(
                                        ts.map_values(|t: ToolDefinitionView| declaration(t)),
                                    ),
                                ),
                            ],
                        ),
                    ],
                ),
            )
        },
        None => None,
    }
}

/// How the model may call tools.
pub open spec fn calling_mode(choice: ToolChoiceView) -> JsonView {
    match choice {
        ToolChoiceView::Auto => JsonView::Object(seq![("mode"@, JsonView::Str("AUTO"@))]),
        ToolChoiceView::NoTool => JsonView::Object(seq![("mode"@, JsonView::Str("NONE"@))]),
        ToolChoiceView::Tool { name } => JsonView::Object(
            seq![
                ("mode"@, JsonView::Str("ANY"@)),
                ("allowedFunctionNames"@, JsonView::Array(seq![JsonView::Str(name)])),
            ],
        ),
    }
}

/// How the model may call tools, as it is written.
pub open spec fn tool_config(choice: Option<ToolChoiceView>) -> Option<JsonView> {
    match choice {
        Some(c) => Some(JsonView::Object(seq![("functionCallingConfig"@, calling_mode(c))])),
        None => None,
    }
}

/// How much the model may say, and how freely.
pub open spec fn generation_config(
    q: RequestView,
    max_tokens: u32,
    temperature: Seq<char>,
) -> Seq<(Seq<char>, JsonView)> {
    seq![
        (
            "maxOutputTokens"@,
            JsonView::Unsigned(
                match q.max_tokens {
                    Some(n) => n as u64,
                    None => max_tokens as u64,
                },
            ),
        ),
        (
            "temperature"@,
            JsonView::Decimal(
                match q.temperature {
                    Some(t) => t,
                    None => temperature,
                },
            ),
        ),
    ]
}

/// What a request is sent as by a client with these settings.
pub open spec fn gemini_request(
    q: RequestView,
    max_tokens: u32,
    temperature: Seq<char>,
) -> JsonView {
    let known = all_blocks(q.messages);
    JsonView::Object(
        seq![
            (
                "contents"@,
                JsonView::Array(
                    q.messages.filter_map(|m: MessageView| content_json(known, m)),
                ),
            ),
        ] + field("systemInstruction"@, instructions_json(q.messages)) + field(
            "tools"@,
            declarations_json(q.tools),
        ) + field("toolConfig"@, tool_config(q.tool_choice)) + seq![
            (
                "generationConfig"@,
                JsonView::Object(generation_config(q, max_tokens, temperature)),
            ),
        ],
    )
}

fn find_called_name(blocks: &Vec<ContentBlock>, id: &str) -> (r: Option<String>)
    ensures
        r.deep_view() == called_name(blocks.deep_view(), id@),
{
    let ghost all = blocks.deep_view();
    let mut i: usize = blocks.len();
    proof {
        lemma_take_all(all);
    }
    while i > 0
        invariant
            i <= blocks@.len(),
            all == blocks.deep_view(),
            called_name(all, id@) == called_name(all.take(i as int), id@),
        decreases i,
    {
        i = i - 1;
        proof {
            lemma_take_step(all, i as int);
            assert(all[i as int] == blocks@[i as int].deep_view());
        }
        if let ContentBlock::ToolUse { id: own, name, .. } = &blocks[i] {
            if same(own.as_str(), id) {
                return Some(name.clone());
            }
        }
    }
    assert(all.take(0) =~= Seq::<BlockView>::empty());
    None
}

fn make_text_json(text: &str) -> (r: Json)
    ensures
        r.deep_view() == text_json(text@),
{
    let mut f = JsonFields::new();
    f.put_text("text", text);
    assert(f@ =~= text_json(text@)->Object_0);
    f.done()
}

fn make_response_part(known: &Vec<ContentBlock>, b: &ContentBlock) -> (r: Option<Json>)
    ensures
        r.deep_view() == response_part(known.deep_view(), b.deep_view()),
{
    match b {
        ContentBlock::ToolResult { tool_use_id, content, .. } => match find_called_name(
            known,
            tool_use_id.as_str(),
        ) {
            Some(name) => {
                let mut h = JsonFields::new();
                h.put_text("output", content.as_str());
                assert(h@ =~= seq![("output"@, JsonView::Str(content@))]);
                let mut g = JsonFields::new();
                g.put_text("name", name.as_str());
                g.put("response", h.done());
                assert(g@ =~= seq![
                    ("name"@, JsonView::Str(name@)),
                    (
                        "response"@,
                        JsonView::Object(seq![("output"@, JsonView::Str(content@))]),
                    ),
                ]);
                let mut f = JsonFields::new();
                f.put("functionResponse", g.done());
                assert(f@ =~= response_part(known.deep_view(), b.deep_view())->0->Object_0);
                Some(f.done())
            },
            None => None,
        },
        _ => None,
    }
}

fn make_calling_part(b: &ContentBlock) -> (r: Option<Json>)
    ensures
        r.deep_view() == calling_part(b.deep_view()),
{
    match b {
        ContentBlock::Text { text } => Some(make_text_json(text.as_str())),
        ContentBlock::ToolUse { id, name, input } => {
            let mut g = JsonFields::new();
            g.put_text("name", name.as_str());
            g.put("args", input.replicate());
            let ghost inner = seq![("name"@, JsonView::Str(name@)), ("args"@, input.deep_view())];
            assert(g@ =~= inner);
            let mut f = JsonFields::new();
            f.put("functionCall", g.done());
            assert(f@ =~= seq![("functionCall"@, JsonView::Object(inner))]);
            let signature = match thought_signature_from_tool_call_id(id.as_str()) {
                Some(s) => Some(Json::Str(s)),
                None => None,
            };
            f.put_some("thoughtSignature", signature);
            Some(f.done())
        },
        _ => None,
    }
}

fn has_result(m: &ChatMessage) -> (r: bool)
    ensures
        r == some_is(m.deep_view().content, |b: BlockView| b is ToolResult),
{
    let g = |b: &ContentBlock| -> (r: bool)
        ensures r == (b.deep_view() is ToolResult)
    {
        b.is_tool_result()
    };
    any_is(m.content.as_slice(), g, Ghost(|b: BlockView| b is ToolResult))
}

fn has_call(blocks: &Vec<ContentBlock>) -> (r: bool)
    ensures
        r == calls_tool(blocks.deep_view()),
{
    let f = |b: &ContentBlock| -> (r: bool)
        ensures r == (b.deep_view() is ToolUse)
    {
        b.is_tool_use()
    };
    let r = any_is(blocks.as_slice(), f, Ghost(|b: BlockView| b is ToolUse));
    assert(r == calls_tool(blocks.deep_view()));
    r
}

fn make_parts(known: &Vec<ContentBlock>, m: &ChatMessage) -> (r: Vec<Json>)
    ensures
        r.deep_view() == parts_of_message(known.deep_view(), m.deep_view()),
{
    if has_result(m) {
        let f = |b: &ContentBlock| -> (r: Option<Json>)
            ensures r.deep_view() == response_part(known.deep_view(), b.deep_view())
        {
            make_response_part(known, b)
        };
        let ghost k = known.deep_view();
        filter_map_each(m.content.as_slice(), f, Ghost(|b: BlockView| response_part(k, b)))
    } else if has_call(&m.content) {
        let f = |b: &ContentBlock| -> (r: Option<Json>)
            ensures r.deep_view() == calling_part(b.deep_view())
        {
            make_calling_part(b)
        };
        filter_map_each(m.content.as_slice(), f, Ghost(|b: BlockView| calling_part(b)))
    } else {
        let text = m.text_content();
        let mut r: Vec<Json> = no_items();
        push_one(&mut r, make_text_json(text.as_str()));
        assert(r.deep_view() =~= seq![text_json(text@)]);
        r
    }
}

fn make_content(known: &Vec<ContentBlock>, m: &ChatMessage) -> (r: Option<Json>)
    ensures
        r.deep_view() == content_json(known.deep_view(), m.deep_view()),
{
    if m.role == MessageRole::System {
        return None;
    }
    let parts = make_parts(known, m);
    assert(parts.deep_view().len() == parts@.len());
    if parts.len() == 0 {
        return None;
    }
    let role = if has_result(m) {
        "user"
    } else if m.role == MessageRole::Assistant {
        "model"
    } else {
        "user"
    };
    let mut f = JsonFields::new();
    f.put_text("role", role);
    f.put("parts", array(parts));
    assert(f@ =~= content_json(known.deep_view(), m.deep_view())->0->Object_0);
    Some(f.done())
}

fn make_instructions(messages: &Vec<ChatMessage>) -> (r: Option<Json>)
    ensures
        r.deep_view() == instructions_json(messages.deep_view()),
{
    let f = |m: &ChatMessage| -> (r: Option<String>)
        ensures r.deep_view() == instruction(m.deep_view())
    {
        if m.role == MessageRole::System {
            let text = m.text_content();
            if text.as_str().is_empty() {
                None
            } else {
                Some(text)
            }
        } else {
            None
        }
    };
    let texts = filter_map_each(messages.as_slice(), f, Ghost(|m: MessageView| instruction(m)));
    assert(texts.deep_view().len() == texts@.len());
    if texts.len() == 0 {
        return None;
    }
    let text = join(texts.as_slice(), "\n\n");
    let mut parts: Vec<Json> = no_items();
    push_one(&mut parts, make_text_json(text.as_str()));
    assert(parts.deep_view() =~= seq![text_json(text@)]);
    let mut g = JsonFields::new();
    g.put("parts", array(parts));
    assert(g@ =~= instructions_json(messages.deep_view())->0->Object_0);
    Some(g.done())
}

fn make_declarations(tools: &Option<Vec<ToolDefinition>>) -> (r: Option<Json>)
    ensures
        r.deep_view() == declarations_json(tools.deep_view()),
{
    match tools {
        Some(ts) => {
            assert(ts.deep_view().len() == ts@.len());
            if ts.len() == 0 {
                return None;
            }
            let f = |t: &ToolDefinition| -> (r: Json)
                ensures r.deep_view() == declaration(t.deep_view())
            {
                let mut d = JsonFields::new();
                d.put_text("name", t.name.as_str());
                d.put_text("description", t.description.as_str());
                d.put("parametersJsonSchema", t.input_schema.replicate());
                assert(d@ =~= declaration(t.deep_view())->Object_0);
                d.done()
            };
            let all = map_each(ts.as_slice(), f, Ghost(|t: ToolDefinitionView| declaration(t)));
            let ghost list = JsonView::Array(all.deep_view());
            let mut g = JsonFields::new();
            g.put("functionDeclarations", array(all));
            assert(g@ =~= seq![("functionDeclarations"@, list)]);
            let mut out: Vec<Json> = no_items();
            push_one(&mut out, g.done());
            assert(out.deep_view() =~= declarations_json(tools.deep_view())->0->Array_0);
            Some(array(out))
        },
        None => None,
    }
}

fn make_tool_config(choice: &Option<ToolChoice>) -> (r: Option<Json>)
    ensures
        r.deep_view() == tool_config(choice.deep_view()),
{
    match choice {
        Some(c) => {
            let mut m = JsonFields::new();
            match c {
                ToolChoice::Auto => {
                    m.put_text("mode", "AUTO");
                },
                ToolChoice::NoTool => {
                    m.put_text("mode", "NONE");
                },
                ToolChoice::Tool { name } => {
                    m.put_text("mode", "ANY");
                    let mut names: Vec<Json> = no_items();
                    push_one(&mut names, Json::Str(name.clone()));
                    assert(names.deep_view() =~= seq![JsonView::Str(name@)]);
                    m.put("allowedFunctionNames", array(names));
                },
            }
            assert(m@ =~= calling_mode(c.deep_view())->Object_0);
            let mut f = JsonFields::new();
            f.put("functionCallingConfig", m.done());
            assert(f@ =~= tool_config(choice.deep_view())->0->Object_0);
            Some(f.done())
        },
        None => None,
    }
}

// ---------------------------------------------------------------------------
// Replies
// ---------------------------------------------------------------------------

/// The parts of a reply read so far: the blocks, and how many tools were
/// called.
#[verifier::ext_equal]
pub struct PartsRead {
    pub blocks: Seq<BlockView>,
    pub calls: nat,
}

/// What a part says as text: a thought where it is marked as one.
pub open spec fn part_text(part: JsonView) -> Seq<BlockView> {
    match part.str_at("text"@) {
        Some(text) => {
            let thought = match part.get("thought"@) {
                Some(t) => t.as_bool() == Some(true),
                None => false,
            };
            seq![
                if thought {
                    BlockView::Thinking { content: text }
                } else {
                    BlockView::Text { text }
                },
            ]
        },
        None => Seq::empty(),
    }
}

/// The tool that a part calls, and with what.
pub open spec fn part_call(part: JsonView) -> Option<(Seq<char>, JsonView)> {
    match part.get("functionCall"@) {
        Some(f) => match f.str_at("name"@) {
            Some(name) => Some(
                (
                    name,
                    match f.get("args"@) {
                        Some(args) => args,
                        None => JsonView::Object(Seq::empty()),
                    },
                ),
            ),
            None => None,
        },
        None => None,
    }
}

/// What was read with one part more. A call gets its number and the signature
/// of the part as its id.
pub open spec fn part_read(p: PartsRead, part: JsonView) -> PartsRead {
    let said = p.blocks + part_text(part);
    match part_call(part) {
        Some((name, input)) => PartsRead {
            blocks: said.push(
                BlockView::ToolUse {
                    id: call_id(p.calls + 1, part.str_at("thoughtSignature"@)),
                    name,
                    input,
                },
            ),
            calls: p.calls + 1,
        },
        None => PartsRead { blocks: said, ..p },
    }
}

/// What was read of parts.
pub open spec fn parts_read(parts: Seq<JsonView>) -> PartsRead
    decreases parts.len(),
{
    if parts.len() == 0 {
        PartsRead { blocks: Seq::empty(), calls: 0 }
    } else {
        part_read(parts_read(parts.drop_last()), parts.last())
    }
}

/// The first answer of a reply.
pub open spec fn first_candidate(body: JsonView) -> Option<JsonView> {
    match body.array_at("candidates"@) {
        Some(cs) => if cs.len() == 0 {
            None
        } else {
            Some(cs[0])
        },
        None => None,
    }
}

/// The parts of an answer.
pub open spec fn candidate_parts(c: JsonView) -> Option<Seq<JsonView>> {
    match c.get("content"@) {
        Some(content) => content.array_at("parts"@),
        None => None,
    }
}

/// Why the model stopped: a call of a tool counts more than any reason but that
/// there was no more room.
pub open spec fn gemini_finish(reason: Seq<char>, blocks: Seq<BlockView>) -> FinishReason {
    if reason == "MAX_TOKENS"@ {
        FinishReason::MaxTokens
    } else if calls_tool(blocks) {
        FinishReason::ToolUse
    } else {
        FinishReason::EndTurn
    }
}

/// The blocks of a reply.
pub open spec fn reply_blocks(body: JsonView) -> Seq<BlockView> {
    match first_candidate(body) {
        Some(c) => match candidate_parts(c) {
            Some(parts) => parts_read(parts).blocks,
            None => Seq::empty(),
        },
        None => Seq::empty(),
    }
}

/// The tokens that a reply says were used.
pub open spec fn gemini_usage(body: JsonView) -> TokenUsage {
    match body.get("usageMetadata"@) {
        Some(u) => TokenUsage {
            prompt_tokens: count_at(u, "promptTokenCount"@),
            completion_tokens: count_at(u, "candidatesTokenCount"@),
            total_tokens: count_at(u, "totalTokenCount"@),
            cache_creation_input_tokens: 0,
            cache_read_input_tokens: 0,
        },
        None => no_usage(),
    }
}

/// What a reply says.
pub open spec fn gemini_response(body: JsonView, model: Seq<char>) -> ResponseView {
    let blocks = reply_blocks(body);
    ResponseView {
        content: blocks,
        model,
        usage: gemini_usage(body),
        finish_reason: match first_candidate(body) {
            Some(c) => match c.str_at("finishReason"@) {
                Some(reason) => Some(gemini_finish(reason, blocks)),
                None => None,
            },
            None => None,
        },
    }
}

fn add_part_text(blocks: &mut Vec<ContentBlock>, part: &Json)
    ensures
        final(blocks).deep_view() == old(blocks).deep_view() + part_text(part.deep_view()),
{
    let ghost before = blocks.deep_view();
    if let Some(text) = part.str_at("text") {
        let thought = match part.get("thought") {
            Some(t) => match t.as_bool() {
                Some(b) => b,
                None => false,
            },
            None => false,
        };
        if thought {
            push_one(blocks, ContentBlock::Thinking { content: text });
        } else {
            push_one(blocks, ContentBlock::Text { text });
        }
        assert(blocks.deep_view() =~= before + part_text(part.deep_view()));
    } else {
        assert(before + Seq::<BlockView>::empty() =~= before);
    }
}

fn find_part_call(part: &Json) -> (r: Option<(String, Json)>)
    ensures
        r.deep_view() == part_call(part.deep_view()),
{
    match part.get("functionCall") {
        Some(f) => match f.str_at("name") {
            Some(name) => {
                let input = match f.get("args") {
                    Some(args) => args.replicate(),
                    None => JsonFields::new().done(),
                };
                Some((name, input))
            },
            None => None,
        },
        None => None,
    }
}

fn read_parts(parts: &Vec<Json>) -> (r: Vec<ContentBlock>)
    ensures
        r.deep_view() == parts_read(parts.deep_view()).blocks,
{
    let ghost all = parts.deep_view();
    let total: usize = parts.len();
    let mut blocks: Vec<ContentBlock> = no_items();
    let mut calls: usize = 0;
    let mut i: usize = 0;
    assert(all.take(0) =~= Seq::<JsonView>::empty());
    while i < total
        invariant
            i <= total == parts@.len(),
            calls <= i,
            all == parts.deep_view(),
            (PartsRead { blocks: blocks.deep_view(), calls: calls as nat }) == parts_read(
                all.take(i as int),
            ),
        decreases total - i,
    {
        proof {
            lemma_take_step(all, i as int);
            assert(all[i as int] == parts@[i as int].deep_view());
        }
        add_part_text(&mut blocks, &parts[i]);
        if let Some((name, input)) = find_part_call(&parts[i]) {
            calls = calls + 1;
            let signature = parts[i].str_at("thoughtSignature");
            let id = match &signature {
                Some(s) => gemini_tool_call_id(calls, Some(s.as_str())),
                None => gemini_tool_call_id(calls, None),
            };
            push_one(&mut blocks, ContentBlock::ToolUse { id, name, input });
        }
        i = i + 1;
    }
    proof {
        lemma_take_all(all);
    }
    blocks
}

fn read_count(u: &Json, key: &str) -> (r: u64)
    ensures
        r == count_at(u.deep_view(), key@),
{
    match u.u64_at(key) {
        Some(n) => n,
        None => 0,
    }
}

fn read_usage(body: &Json) -> (r: TokenUsage)
    ensures
        r == gemini_usage(body.deep_view()),
{
    match body.get("usageMetadata") {
        Some(u) => TokenUsage {
            prompt_tokens: read_count(u, "promptTokenCount"),
            completion_tokens: read_count(u, "candidatesTokenCount"),
            total_tokens: read_count(u, "totalTokenCount"),
            cache_creation_input_tokens: 0,
            cache_read_input_tokens: 0,
        },
        None => TokenUsage::default(),
    }
}

// ---------------------------------------------------------------------------
// The client
// ---------------------------------------------------------------------------

/// What a client is set up with.
#[derive(Debug)]
pub struct GeminiClient {
    pub api_base: String,
    pub api_key: String,
    pub model: String,
    pub max_tokens: u32,
    /// The sampling temperature, as it is written in decimal.
    pub temperature: String,
    pub proxy_url: Option<String>,
}

impl GeminiClient {
    /// A client with these settings, where its proxy can be used.
    pub fn try_new(
        api_base: String,
        api_key: String,
        model: String,
        max_tokens: u32,
        temperature: String,
        proxy_url: Option<String>,
    ) -> (r: Result<Self, LlmError>)
        ensures
            match (
                match proxy_url.deep_view() {
                    Some(url) => proxy_problem(url, url_scheme_of(url)),
                    None => None,
                }
            ) {
                Some(e) => r is Err && r->Err_0.deep_view() == e,
                None => r is Ok && r->Ok_0 == (GeminiClient {
                    api_base,
                    api_key,
                    model,
                    max_tokens,
                    temperature,
                    proxy_url,
                }),
            },
    {
        let check = match &proxy_url {
            Some(url) => check_proxy(Some(url.as_str())),
            None => Ok(()),
        };
        match check {
            Err(e) => Err(e),
            Ok(_) => Ok(
                GeminiClient { api_base, api_key, model, max_tokens, temperature, proxy_url },
            ),
        }
    }

    /// The model it asks.
    pub fn model(&self) -> (r: &str)
        ensures
            r@ == self.model@,
    {
        self.model.as_str()
    }

    fn model_url(&self, method: &str) -> (r: String)
        ensures
            r@ == trim_end_of(self.api_base@, '/') + "/models/"@ + self.model@ + method@,
    {
        let mut r = trim_end_char(self.api_base.as_str(), '/');
        r.append("/models/");
        r.append(self.model.as_str());
        r.append(method);
        r
    }

    /// Where requests go that are answered at once.
    pub fn generate_url(&self) -> (r: String)
        ensures
            r@ == trim_end_of(self.api_base@, '/') + "/models/"@ + self.model@
                + ":generateContent"@,
    {
        self.model_url(":generateContent")
    }

    /// Where requests go that are answered piece by piece.
    pub fn stream_url(&self) -> (r: String)
        ensures
            r@ == trim_end_of(self.api_base@, '/') + "/models/"@ + self.model@
                + ":streamGenerateContent?alt=sse"@,
    {
        self.model_url(":streamGenerateContent?alt=sse")
    }

    /// What is sent along with a request.
    pub fn build_headers(&self) -> (r: Vec<(String, String)>)
        ensures
            r.deep_view() == seq![
                ("Content-Type"@, "application/json"@),
                ("x-goog-api-key"@, self.api_key@),
            ],
    {
        let mut r: Vec<(String, String)> = no_items();
        push_one(&mut r, ("Content-Type".to_owned(), "application/json".to_owned()));
        push_one(&mut r, ("x-goog-api-key".to_owned(), self.api_key.clone()));
        r
    }

    /// A request as it is sent.
    pub fn to_gemini_request(&self, request: &ChatRequest) -> (r: Json)
        ensures
            r.deep_view() == gemini_request(
                request.deep_view(),
                self.max_tokens,
                self.temperature@,
            ),
    {
        let ghost q = request.deep_view();
        let b = |m: &ChatMessage| -> (r: Vec<ContentBlock>)
            ensures r.deep_view() == m.deep_view().content
        {
            m.content.replicate()
        };
        let known = flat_map_each(
            request.messages.as_slice(),
            b,
            Ghost(|m: MessageView| m.content),
        );
        let ghost k = known.deep_view();
        assert(k == all_blocks(q.messages));
        let c = |m: &ChatMessage| -> (r: Option<Json>)
            ensures r.deep_view() == content_json(known.deep_view(), m.deep_view())
        {
            make_content(&known, m)
        };
        let contents = filter_map_each(
            request.messages.as_slice(),
            c,
            Ghost(|m: MessageView| content_json(k, m)),
        );
        let ghost list = JsonView::Array(contents.deep_view());
        let max_tokens: u32 = match request.max_tokens {
            Some(n) => n,
            None => self.max_tokens,
        };
        let temperature = match &request.temperature {
            Some(t) => t.clone(),
            None => self.temperature.clone(),
        };
        let mut g = JsonFields::new();
        g.put("maxOutputTokens", Json::Number(JsonNumber::Unsigned(max_tokens as u64)));
        g.put("temperature", Json::Number(JsonNumber::Decimal(temperature)));
        let ghost config = generation_config(q, self.max_tokens, self.temperature@);
        assert(g@ =~= config);
        let mut f = JsonFields::new();
        f.put("contents", array(contents));
        assert(f@ =~= seq![("contents"@, list)]);
        f.put_some("systemInstruction", make_instructions(&request.messages));
        f.put_some("tools", make_declarations(&request.tools));
        f.put_some("toolConfig", make_tool_config(&request.tool_choice));
        let ghost before = f@;
        f.put("generationConfig", g.done());
        assert(f@ =~= before + seq![("generationConfig"@, JsonView::Object(config))]);
        assert(f@ =~= gemini_request(q, self.max_tokens, self.temperature@)->Object_0);
        f.done()
    }

    /// What a reply says.
    pub fn parse_gemini_response(body: &Json, fallback_model: String) -> (r: ChatResponse)
        ensures
            r.deep_view() == gemini_response(body.deep_view(), fallback_model@),
    {
        let mut content: Vec<ContentBlock> = no_items();
        let mut finish_reason: Option<FinishReason> = None;
        if let Some(cs) = body.array_at("candidates") {
            assert(cs.deep_view().len() == cs@.len());
            if cs.len() > 0 {
                let first = &cs[0];
                assert(cs.deep_view()[0] == first.deep_view());
                if let Some(c) = first.get("content") {
                    if let Some(parts) = c.array_at("parts") {
                        content = read_parts(parts);
                    }
                }
                if let Some(reason) = first.str_at("finishReason") {
                    finish_reason = Some(Self::finish_reason_from_str(reason.as_str(), &content));
                }
            }
        }
        ChatResponse { content, model: fallback_model, usage: read_usage(body), finish_reason }
    }

    /// Why the model stopped.
    pub fn finish_reason_from_str(reason: &str, content: &Vec<ContentBlock>) -> (r: FinishReason)
        ensures
            r == gemini_finish(reason@, content.deep_view()),
    {
        let calls = has_call(content);
        if same(reason, "MAX_TOKENS") {
            FinishReason::MaxTokens
        } else if calls {
            FinishReason::ToolUse
        } else {
            FinishReason::EndTurn
        }
    }
}

// ---------------------------------------------------------------------------
// Laws
// ---------------------------------------------------------------------------

proof fn lemma_hex_text(bytes: Seq<u8>)
    ensures
        hex_text(bytes).len() == 2 * bytes.len(),
        forall|i: int|
            0 <= i < bytes.len() ==> #[trigger] hex_text(bytes)[2 * i] == hex_digit(
                bytes[i] as int / 16,
            ) && hex_text(bytes)[2 * i + 1] == hex_digit(bytes[i] as int % 16),
    decreases bytes.len(),
{
    if bytes.len() > 0 {
        lemma_hex_text(bytes.drop_last());
        let before = hex_text(bytes.drop_last());
        assert forall|i: int| 0 <= i < bytes.len() implies #[trigger] hex_text(bytes)[2 * i]
            == hex_digit(bytes[i] as int / 16) && hex_text(bytes)[2 * i + 1] == hex_digit(
            bytes[i] as int % 16,
        ) by {
            if i < bytes.len() - 1 {
                assert(before[2 * i] == hex_digit(bytes.drop_last()[i] as int / 16));
            }
        }
    }
}

/// UTF-8 writes what is in ASCII as one byte each.
proof fn lemma_ascii_bytes(s: Seq<char>)
    requires
        forall|i: int| 0 <= i < s.len() ==> 0 <= (#[trigger] s[i] as int) < 128,
    ensures
        encode_utf8(s).len() == s.len(),
        forall|i: int| 0 <= i < s.len() ==> #[trigger] encode_utf8(s)[i] == s[i] as int,
    decreases s.len(),
{
    if s.len() > 0 {
        let rest = s.drop_first();
        assert forall|i: int| 0 <= i < rest.len() implies 0 <= (#[trigger] rest[i] as int)
            < 128 by {
            assert(rest[i] == s[i + 1]);
        }
        lemma_ascii_bytes(rest);
        let c = s[0] as u32;
        assert(c == s[0] as int);
        assert(c < 128);
        assert(c < 128 ==> (c & 0x7F) as u8 == c) by (bit_vector);
        let head = vstd::utf8::encode_scalar(c);
        assert(head =~= seq![c as u8]);
        assert(encode_utf8(s) =~= head + encode_utf8(rest));
        assert forall|i: int| 0 <= i < s.len() implies #[trigger] encode_utf8(s)[i]
            == s[i] as int by {
            if i > 0 {
                assert(encode_utf8(rest)[i - 1] == rest[i - 1] as int);
                assert(rest[i - 1] == s[i]);
            }
        }
    }
}

proof fn lemma_hex_digit(d: int)
    requires
        0 <= d < 16,
    ensures
        0 <= (hex_digit(d) as int) < 128,
        forall|b: u8| b == hex_digit(d) as int ==> #[trigger] hex_value(b) == Some(d),
{
}

/// What was written in hexadecimal is read back as it was.
pub proof fn law_hex_is_read_back(bytes: Seq<u8>)
    ensures
        hex_bytes(encode_utf8(hex_text(bytes))) == Some(bytes),
    decreases bytes.len(),
{
    let t = hex_text(bytes);
    lemma_hex_text(bytes);
    assert forall|i: int| 0 <= i < t.len() implies 0 <= (#[trigger] t[i] as int)
        < 128 by {
        let k = i / 2;
        if i % 2 == 0 {
            assert(t[2 * k] == hex_digit(bytes[k] as int / 16));
            lemma_hex_digit(bytes[k] as int / 16);
        } else {
            assert(t[2 * k] == hex_digit(bytes[k] as int / 16));
            lemma_hex_digit(bytes[k] as int % 16);
        }
    }
    lemma_ascii_bytes(t);
    if bytes.len() > 0 {
        let before = bytes.drop_last();
        let s = hex_text(before);
        law_hex_is_read_back(before);
        lemma_hex_text(before);
        let n = t.len();
        assert(t.take(n - 2) =~= s);
        assert forall|i: int| 0 <= i < s.len() implies 0 <= (#[trigger] s[i] as int)
            < 128 by {
            assert(s[i] == t[i]);
        }
        lemma_ascii_bytes(s);
        let e = encode_utf8(t);
        assert forall|i: int| 0 <= i < n - 2 implies e.take(n - 2)[i] == encode_utf8(s)[i] by {
            assert(s[i] == t[i]);
            assert(encode_utf8(s)[i] == s[i] as int);
            assert(e[i] == t[i] as int);
        }
        assert(e.take(n - 2) =~= encode_utf8(s));
        let b = bytes.last() as int;
        assert(t[n - 2] == hex_digit(b / 16));
        assert(t[n - 1] == hex_digit(b % 16));
        lemma_hex_digit(b / 16);
        lemma_hex_digit(b % 16);
        assert(e[n - 2] == t[n - 2] as int);
        assert(e[n - 1] == t[n - 1] as int);
        assert(before.push(b as u8) =~= bytes);
    }
}

proof fn lemma_decimal_digits(n: nat)
    ensures
        decimal(n).len() > 0,
        forall|i: int| 0 <= i < decimal(n).len() ==> '0' <= #[trigger] decimal(n)[i] <= '9',
    decreases n,
{
    if n >= 10 {
        lemma_decimal_digits(n / 10);
    }
}

/// The signature that was put into the id of a tool call is read back from it,
/// whatever the number of the call.
pub proof fn law_signature_is_read_back(sequence: nat, signature: Seq<char>)
    ensures
        signature_of(call_id(sequence, Some(signature))) == Some(signature),
{
    let head = "call_"@ + decimal(sequence);
    let mark = SIGNATURE_MARK@;
    let tail = hex_text(encode_utf8(signature));
    let id = call_id(sequence, Some(signature));
    let at = head.len() as int;
    reveal_strlit("call_");
    reveal_strlit("__gemini_thought_");
    lemma_decimal_digits(sequence);
    assert(id =~= head + mark + tail);
    assert(id.subrange(at, at + mark.len()) =~= mark);
    assert(occurs_at(id, mark, at));
    assert forall|k: int| 0 <= k < at implies !#[trigger] occurs_at(id, mark, k) by {
        if occurs_at(id, mark, k) {
            let w = id.subrange(k, k + mark.len());
            assert(w[0] == id[k] && w[1] == id[k + 1]);
            assert(mark[0] == '_' && mark[1] == '_');
            if k < 4 {
                assert(id[k] == "call_"@[k]);
            } else if k == 4 {
                assert(id[5] == decimal(sequence)[0]);
            } else {
                assert(id[k] == decimal(sequence)[k - 5]);
            }
        }
    }
    lemma_find_from(id, mark, 0);
    assert(find_from(id, mark, 0) == Some(at));
    assert(id.skip(at + mark.len()) =~= tail);
    assert(id.subrange(at + mark.len(), id.len() as int) =~= tail);
    law_hex_is_read_back(encode_utf8(signature));
    vstd::utf8::encode_utf8_valid_utf8(signature);
    vstd::utf8::encode_utf8_decode_utf8(signature);
}

/// The id of a call without a signature holds none.
pub proof fn law_plain_id_has_no_signature(sequence: nat)
    ensures
        signature_of(call_id(sequence, None)) is None,
{
    let id = call_id(sequence, None);
    let mark = SIGNATURE_MARK@;
    reveal_strlit("call_");
    reveal_strlit("__gemini_thought_");
    lemma_decimal_digits(sequence);
    assert forall|k: int| 0 <= k implies !#[trigger] occurs_at(id, mark, k) by {
        if occurs_at(id, mark, k) {
            let w = id.subrange(k, k + mark.len());
            assert(w[0] == id[k] && w[1] == id[k + 1]);
            assert(mark[0] == '_' && mark[1] == '_');
            if k < 4 {
                assert(id[k] == "call_"@[k]);
            } else if k == 4 {
                assert(id[5] == decimal(sequence)[0]);
            } else {
                assert(id[k] == decimal(sequence)[k - 5]);
            }
        }
    }
    lemma_find_from(id, mark, 0);
}

} // verus!
