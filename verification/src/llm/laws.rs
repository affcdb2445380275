//! What holds of requests, replies and settings, whatever they hold.

use crate::json::{JsonView, field, json_of_text, text_of_json};
use crate::llm::openai_compat::{
    ApiChatResponseView, ApiMessageView, after_tag, call_block, call_blocks, call_part,
    calling_message, content_blocks, message_api, message_blocks, messages_api, noted, part_blocks,
    request_api, request_body, response_of, result_message, some_array, text_part, thinking_message,
    thought_and_said, thought_in,
};
use crate::llm::provider::{
    MessageRole, MessageView, RequestView, calls_tool, text_of_blocks, tool_calls_of,
};
use crate::llm::types::{BlockView, FinishReason, ToolChoiceView, finish_reason_of};
use crate::seqs::{lemma_filter_has, lemma_filter_map_has};
use crate::text::{find_from, has_text, joined, lemma_find_from, occurs_at, trimmed};
use crate::walk::some_is;
use vstd::prelude::*;

verus! {

// ---------------------------------------------------------------------------
// Fields of objects
// ---------------------------------------------------------------------------

/// The object has a field with this key and this value.
pub open spec fn has_field(j: JsonView, key: Seq<char>, value: JsonView) -> bool {
    j matches JsonView::Object(fields) && fields.contains((key, value))
}

/// The object has no field with this key.
pub open spec fn lacks_field(j: JsonView, key: Seq<char>) -> bool {
    j matches JsonView::Object(fields) && forall|i: int|
        0 <= i < fields.len() ==> (#[trigger] fields[i]).0 != key
}

proof fn lemma_contains_add<A>(a: Seq<A>, b: Seq<A>, x: A)
    requires
        a.contains(x) || b.contains(x),
    ensures
        (a + b).contains(x),
{
    if a.contains(x) {
        let i = choose|i: int| 0 <= i < a.len() && a[i] == x;
        assert((a + b)[i] == x);
    } else {
        let i = choose|i: int| 0 <= i < b.len() && b[i] == x;
        assert((a + b)[a.len() + i] == x);
    }
}

/// The value under a key is that of the first field with the key, and there is
/// none where no field has it.
pub proof fn law_first_field_counts(fields: Seq<(Seq<char>, JsonView)>, key: Seq<char>, i: int)
    ensures
        0 <= i < fields.len() && fields[i].0 == key && (forall|k: int|
            0 <= k < i ==> (#[trigger] fields[k]).0 != key) ==> JsonView::Object(fields).get(key)
            == Some(fields[i].1),
        (forall|k: int| 0 <= k < fields.len() ==> (#[trigger] fields[k]).0 != key)
            ==> JsonView::Object(fields).get(key) is None,
    decreases fields.len(),
{
    if fields.len() > 0 {
        let rest = fields.skip(1);
        assert forall|k: int| 0 <= k < rest.len() implies #[trigger] rest[k] == fields[k + 1] by {}
        law_first_field_counts(rest, key, i - 1);
        if fields[0].0 != key {
            if 0 <= i < fields.len() && fields[i].0 == key && (forall|k: int|
                0 <= k < i ==> (#[trigger] fields[k]).0 != key) {
                assert(i > 0);
                assert(rest[i - 1] == fields[i]);
            }
        }
    }
}

// ---------------------------------------------------------------------------
// Blocks
// ---------------------------------------------------------------------------

/// The text of blocks is what their text blocks say, one after the other;
/// thoughts, calls and results are no text.
pub proof fn law_text_is_what_is_said(blocks: Seq<BlockView>, b: BlockView)
    ensures
        text_of_blocks(Seq::empty()) == Seq::<char>::empty(),
        b matches BlockView::Text { text } ==> text_of_blocks(blocks.push(b)) == text_of_blocks(
            blocks,
        ) + text,
        !(b is Text) ==> text_of_blocks(blocks.push(b)) == text_of_blocks(blocks),
        tool_calls_of(blocks).contains(b) <==> blocks.contains(b) && b is ToolUse,
        calls_tool(blocks) <==> tool_calls_of(blocks).len() > 0,
{
    assert(blocks.push(b).drop_last() =~= blocks);
    let p = |x: BlockView| x is ToolUse;
    lemma_filter_has(blocks, p, b);
    if calls_tool(blocks) {
        let i = choose|i: int| 0 <= i < blocks.len() && blocks[i] is ToolUse;
        lemma_filter_has(blocks, p, blocks[i]);
        assert(blocks.contains(blocks[i]));
    }
    if tool_calls_of(blocks).len() > 0 {
        let x = tool_calls_of(blocks)[0];
        lemma_filter_has(blocks, p, x);
        assert(tool_calls_of(blocks).contains(x));
        let i = choose|i: int| 0 <= i < blocks.len() && blocks[i] == x;
        assert(blocks[i] is ToolUse);
    }
}

/// A reply stops for tools, for want of room, or at its end, by the word of the
/// service.
pub proof fn law_finish_by_the_word(s: Seq<char>)
    ensures
        s == "tool_calls"@ ==> finish_reason_of(s) == FinishReason::ToolUse,
        s == "length"@ ==> finish_reason_of(s) == FinishReason::MaxTokens,
        finish_reason_of(s) == FinishReason::ToolUse ==> s == "tool_calls"@,
        finish_reason_of(s) == FinishReason::MaxTokens ==> s == "length"@,
{
    reveal_strlit("tool_calls");
    reveal_strlit("length");
    assert("tool_calls"@.len() != "length"@.len());
}

// ---------------------------------------------------------------------------
// Requests to a service like OpenAI's
// ---------------------------------------------------------------------------

/// No block of the kinds that are written in a way of their own.
pub open spec fn is_plain(m: MessageView) -> bool {
    forall|i: int|
        0 <= i < m.content.len() ==> {
            let b = #[trigger] m.content[i];
            !(b is ToolUse) && !(b is ToolResult) && !(b is Thinking)
        }
}

/// A message of texts alone is written as one object with its own role and its
/// whole text, so that messages of different roles are told apart.
pub proof fn law_role_is_told(m: MessageView)
    requires
        is_plain(m),
    ensures
        message_api(m).len() == 1,
        message_api(m)[0] matches JsonView::Object(fields) && fields.len() == 2,
        m.role == MessageRole::System ==> has_field(
            message_api(m)[0],
            "role"@,
            JsonView::Str("system"@),
        ),
        m.role == MessageRole::User ==> has_field(
            message_api(m)[0],
            "role"@,
            JsonView::Str("user"@),
        ),
        m.role == MessageRole::Assistant ==> has_field(
            message_api(m)[0],
            "role"@,
            JsonView::Str("assistant"@),
        ),
        m.role == MessageRole::Tool ==> has_field(
            message_api(m)[0],
            "role"@,
            JsonView::Str("tool"@),
        ),
        has_field(message_api(m)[0], "content"@, JsonView::Str(text_of_blocks(m.content))),
{
    assert(!calls_tool(m.content));
    assert(!some_is(m.content, |b: BlockView| b is ToolResult));
    assert(!some_is(m.content, |b: BlockView| b is Thinking));
    let fields = message_api(m)[0]->Object_0;
    assert(fields[0].0 == "role"@);
    assert(fields[1].0 == "content"@);
}

/// Two plain messages that are written alike have the same role and the same
/// text.
pub proof fn law_different_messages_are_written_differently(a: MessageView, b: MessageView)
    requires
        is_plain(a),
        is_plain(b),
        message_api(a) == message_api(b),
    ensures
        a.role == b.role,
        text_of_blocks(a.content) == text_of_blocks(b.content),
{
    assert(!calls_tool(a.content) && !calls_tool(b.content));
    assert(!some_is(a.content, |b: BlockView| b is ToolResult));
    assert(!some_is(a.content, |b: BlockView| b is Thinking));
    assert(!some_is(b.content, |b: BlockView| b is ToolResult));
    assert(!some_is(b.content, |b: BlockView| b is Thinking));
    reveal_strlit("system");
    reveal_strlit("user");
    reveal_strlit("assistant");
    reveal_strlit("tool");
    let x = message_api(a)[0]->Object_0;
    let y = message_api(b)[0]->Object_0;
    assert(x[0].1->Str_0 == y[0].1->Str_0);
    assert(x[0].1->Str_0.len() == y[0].1->Str_0.len());
    assert(x[1].1->Str_0 == y[1].1->Str_0);
    assert("user"@[0] != "tool"@[0]);
}

/// What calls a tool is written as one word of the assistant: it has each call
/// with its id, its name and its input as text, each text, and the last
/// thought.
pub proof fn law_calls_are_written(m: MessageView, i: int)
    requires
        calls_tool(m.content),
        0 <= i < m.content.len(),
    ensures
        message_api(m).len() == 1,
        has_field(message_api(m)[0], "role"@, JsonView::Str("assistant"@)),
        exists|calls: Seq<JsonView>|
            {
                &&& #[trigger] has_field(message_api(m)[0], "tool_calls"@, JsonView::Array(calls))
                &&& calls.len() > 0
                &&& m.content[i] matches BlockView::ToolUse { id, name, input } ==> calls.contains(
                    JsonView::Object(
                        seq![
                            ("id"@, JsonView::Str(id)),
                            ("type"@, JsonView::Str("function"@)),
                            (
                                "function"@,
                                JsonView::Object(
                                    seq![
                                        ("name"@, JsonView::Str(name)),
                                        ("arguments"@, JsonView::Str(text_of_json(input))),
                                    ],
                                ),
                            ),
                        ],
                    ),
                )
            },
        m.content[i] matches BlockView::Text { text } ==> exists|parts: Seq<JsonView>| #[trigger]
            has_field(message_api(m)[0], "content"@, JsonView::Array(parts)) && parts.contains(
                JsonView::Object(
                    seq![("type"@, JsonView::Str("text"@)), ("text"@, JsonView::Str(text))],
                ),
            ),
        m.content[i] matches BlockView::Thinking { content } ==> (forall|k: int|
            i < k < m.content.len() ==> !((#[trigger] m.content[k]) is Thinking)) ==> has_field(
            message_api(m)[0],
            "reasoning_content"@,
            JsonView::Str(content),
        ),
{
    let j = calling_message(m.content);
    let role = seq![("role"@, JsonView::Str("assistant"@))];
    let texts = m.content.filter_map(|b: BlockView| text_part(b));
    let calls = m.content.filter_map(|b: BlockView| call_part(b));
    let thoughts = m.content.filter_map(|b: BlockView| thought_in(b));
    let a = field("content"@, some_array(texts));
    let b = field("tool_calls"@, some_array(calls));
    let c = field(
        "reasoning_content"@,
        if thoughts.len() == 0 {
            None
        } else {
            Some(JsonView::Str(thoughts.last()))
        },
    );
    assert(j->Object_0 == role + a + b + c);
    assert(role.contains(("role"@, JsonView::Str("assistant"@)))) by {
        assert(role[0] == ("role"@, JsonView::Str("assistant"@)));
    }
    lemma_contains_add(role, a, ("role"@, JsonView::Str("assistant"@)));
    lemma_contains_add(role + a, b, ("role"@, JsonView::Str("assistant"@)));
    lemma_contains_add(role + a + b, c, ("role"@, JsonView::Str("assistant"@)));
    let k = choose|k: int| 0 <= k < m.content.len() && m.content[k] is ToolUse;
    lemma_filter_map_has(
        m.content,
        |b: BlockView| call_part(b),
        call_part(m.content[k])->0,
    );
    assert(calls.contains(call_part(m.content[k])->0));
    let f = ("tool_calls"@, JsonView::Array(calls));
    assert(b[0] == f);
    assert(b.contains(f));
    lemma_contains_add(role + a, b, f);
    lemma_contains_add(role + a + b, c, f);
    assert(has_field(message_api(m)[0], "tool_calls"@, JsonView::Array(calls)));
    if m.content[i] is ToolUse {
        lemma_filter_map_has(
            m.content,
            |b: BlockView| call_part(b),
            call_part(m.content[i])->0,
        );
    }
    if m.content[i] is Text {
        lemma_filter_map_has(
            m.content,
            |b: BlockView| text_part(b),
            text_part(m.content[i])->0,
        );
        let g = ("content"@, JsonView::Array(texts));
        assert(a[0] == g);
        assert(a.contains(g));
        lemma_contains_add(role, a, g);
        lemma_contains_add(role + a, b, g);
        lemma_contains_add(role + a + b, c, g);
        assert(has_field(message_api(m)[0], "content"@, JsonView::Array(texts)));
    }
    if m.content[i] is Thinking && (forall|k: int|
        i < k < m.content.len() ==> !((#[trigger] m.content[k]) is Thinking)) {
        lemma_last_thought(m.content, i);
        let g = ("reasoning_content"@, JsonView::Str(m.content[i]->Thinking_content));
        assert(c[0] == g);
        assert(c.contains(g));
        lemma_contains_add(role + a + b, c, g);
    }
}

proof fn lemma_last_thought(blocks: Seq<BlockView>, i: int)
    requires
        0 <= i < blocks.len(),
        blocks[i] is Thinking,
        forall|k: int| i < k < blocks.len() ==> !((#[trigger] blocks[k]) is Thinking),
    ensures
        blocks.filter_map(|b: BlockView| thought_in(b)).len() > 0,
        blocks.filter_map(|b: BlockView| thought_in(b)).last() == blocks[i]->Thinking_content,
    decreases blocks.len(),
{
    reveal(Seq::filter_map);
    let t = blocks.drop_last();
    if i < t.len() {
        assert(!(blocks[blocks.len() - 1] is Thinking));
        assert(t[i] == blocks[i]);
        lemma_last_thought(t, i);
    }
}

/// Each result of a tool is written as a message of a tool, with the id of the
/// call that it answers and its whole content, and nothing else is written of
/// such a message.
pub proof fn law_results_are_written(m: MessageView, j: JsonView)
    requires
        !calls_tool(m.content),
        exists|i: int| 0 <= i < m.content.len() && (#[trigger] m.content[i]) is ToolResult,
    ensures
        message_api(m).contains(j) <==> exists|i: int|
            0 <= i < m.content.len() && ((#[trigger] m.content[i]) matches BlockView::ToolResult {
                tool_use_id,
                content,
                ..
            } && j == JsonView::Object(
                seq![
                    ("role"@, JsonView::Str("tool"@)),
                    ("tool_call_id"@, JsonView::Str(tool_use_id)),
                    ("content"@, JsonView::Str(content)),
                ],
            )),
{
    let i = choose|i: int| 0 <= i < m.content.len() && (#[trigger] m.content[i]) is ToolResult;
    assert(some_is(m.content, |b: BlockView| b is ToolResult));
    let f = |b: BlockView| result_message(b);
    lemma_filter_map_has(m.content, f, j);
    if exists|i: int| 0 <= i < m.content.len() && f(#[trigger] m.content[i]) == Some(j) {
        let k = choose|k: int| 0 <= k < m.content.len() && f(#[trigger] m.content[k]) == Some(j);
        assert(m.content[k] is ToolResult);
    }
    if exists|i: int|
        0 <= i < m.content.len() && ((#[trigger] m.content[i]) matches BlockView::ToolResult {
            tool_use_id,
            content,
            ..
        } && j == JsonView::Object(
            seq![
                ("role"@, JsonView::Str("tool"@)),
                ("tool_call_id"@, JsonView::Str(tool_use_id)),
                ("content"@, JsonView::Str(content)),
            ],
        )) {
        let k = choose|k: int|
            0 <= k < m.content.len() && ((#[trigger] m.content[k]) matches BlockView::ToolResult {
                tool_use_id,
                content,
                ..
            } && j == JsonView::Object(
                seq![
                    ("role"@, JsonView::Str("tool"@)),
                    ("tool_call_id"@, JsonView::Str(tool_use_id)),
                    ("content"@, JsonView::Str(content)),
                ],
            ));
        assert(f(m.content[k]) == Some(j));
    }
}

/// What the assistant thought before it spoke is handed back with what it said.
pub proof fn law_thoughts_are_written(m: MessageView, i: int)
    requires
        m.role == MessageRole::Assistant,
        0 <= i < m.content.len(),
        m.content[i] is Thinking,
        forall|k: int|
            0 <= k < m.content.len() ==> !((#[trigger] m.content[k]) is ToolUse)
                && !(m.content[k] is ToolResult),
        forall|k: int| 0 <= k < i ==> !((#[trigger] m.content[k]) is Thinking),
    ensures
        message_api(m).len() == 1,
        has_field(message_api(m)[0], "role"@, JsonView::Str("assistant"@)),
        has_field(
            message_api(m)[0],
            "reasoning_content"@,
            JsonView::Str(m.content[i]->Thinking_content),
        ),
        text_of_blocks(m.content).len() > 0 ==> has_field(
            message_api(m)[0],
            "content"@,
            JsonView::Str(text_of_blocks(m.content)),
        ),
        text_of_blocks(m.content).len() == 0 ==> lacks_field(message_api(m)[0], "content"@),
{
    assert(!calls_tool(m.content));
    assert(!some_is(m.content, |b: BlockView| b is ToolResult));
    assert(some_is(m.content, |b: BlockView| b is Thinking));
    lemma_first_thought(m.content, i);
    let fields = thinking_message(m.content)->Object_0;
    let text = text_of_blocks(m.content);
    reveal_strlit("role");
    reveal_strlit("content");
    reveal_strlit("reasoning_content");
    assert(fields[0] == ("role"@, JsonView::Str("assistant"@)));
    let n: int = if text.len() == 0 {
        1
    } else {
        2
    };
    assert(fields[n] == (
        "reasoning_content"@,
        JsonView::Str(m.content[i]->Thinking_content),
    ));
    if text.len() > 0 {
        assert(fields[1] == ("content"@, JsonView::Str(text)));
    } else {
        assert(fields.len() == 2);
        assert("role"@.len() != "content"@.len());
        assert("reasoning_content"@.len() != "content"@.len());
    }
}

proof fn lemma_first_thought(blocks: Seq<BlockView>, i: int)
    requires
        0 <= i < blocks.len(),
        blocks[i] is Thinking,
        forall|k: int| 0 <= k < i ==> !((#[trigger] blocks[k]) is Thinking),
    ensures
        blocks.filter_map(|b: BlockView| thought_in(b)).len() > 0,
        blocks.filter_map(|b: BlockView| thought_in(b))[0] == blocks[i]->Thinking_content,
    decreases blocks.len(),
{
    reveal(Seq::filter_map);
    let t = blocks.drop_last();
    if i < t.len() {
        assert(t[i] == blocks[i]);
        lemma_first_thought(t, i);
    } else {
        lemma_no_thoughts(t);
    }
}

proof fn lemma_no_thoughts(blocks: Seq<BlockView>)
    requires
        forall|k: int| 0 <= k < blocks.len() ==> !((#[trigger] blocks[k]) is Thinking),
    ensures
        blocks.filter_map(|b: BlockView| thought_in(b)).len() == 0,
    decreases blocks.len(),
{
    reveal(Seq::filter_map);
    if blocks.len() > 0 {
        let t = blocks.drop_last();
        assert forall|k: int| 0 <= k < t.len() implies !((#[trigger] t[k]) is Thinking) by {
            assert(t[k] == blocks[k]);
        }
        assert(!(blocks[blocks.len() - 1] is Thinking));
        lemma_no_thoughts(t);
    }
}

/// A request has all messages of the conversation, in their order; its own
/// model, limit and temperature count before those of the client; and it says
/// whether it wants a stream.
pub proof fn law_request_is_whole(
    q: RequestView,
    model: Seq<char>,
    max_tokens: u32,
    temperature: Seq<char>,
    stream: bool,
    rest: Seq<MessageView>,
    m: MessageView,
)
    ensures
        messages_api(Seq::empty()) == Seq::<JsonView>::empty(),
        messages_api(rest.push(m)) == messages_api(rest) + message_api(m),
        ({
            let body = request_body(request_api(q, model, max_tokens, temperature, stream));
            &&& q.model is Some ==> has_field(body, "model"@, JsonView::Str(q.model->0))
            &&& q.model is None ==> has_field(body, "model"@, JsonView::Str(model))
            &&& has_field(body, "messages"@, JsonView::Array(messages_api(q.messages)))
            &&& has_field(body, "stream"@, JsonView::Bool(stream))
            &&& q.max_tokens is Some ==> has_field(
                body,
                "max_tokens"@,
                JsonView::Unsigned(q.max_tokens->0 as u64),
            )
            &&& q.max_tokens is None ==> has_field(
                body,
                "max_tokens"@,
                JsonView::Unsigned(max_tokens as u64),
            )
            &&& q.temperature is Some ==> has_field(
                body,
                "temperature"@,
                JsonView::Decimal(q.temperature->0),
            )
            &&& q.temperature is None ==> has_field(
                body,
                "temperature"@,
                JsonView::Decimal(temperature),
            )
        }),
{
    assert(rest.push(m).drop_last() =~= rest);
    let a = request_api(q, model, max_tokens, temperature, stream);
    let fields = request_body(a)->Object_0;
    assert(fields[0] == ("model"@, JsonView::Str(a.model)));
    assert(fields[1] == ("messages"@, JsonView::Array(a.messages)));
    assert(fields[2] == ("stream"@, JsonView::Bool(stream)));
    assert(fields[3] == ("max_tokens"@, JsonView::Unsigned(a.max_tokens->0 as u64)));
    assert(fields[4] == ("temperature"@, JsonView::Decimal(a.temperature->0)));
}

/// Each tool is offered as a function with its name, its description and the
/// schema of its input, in the order of the tools, and the choice of a tool is
/// told by the words of the service.
pub proof fn law_tools_are_offered(
    q: RequestView,
    model: Seq<char>,
    max_tokens: u32,
    temperature: Seq<char>,
    stream: bool,
)
    ensures
        ({
            let body = request_body(request_api(q, model, max_tokens, temperature, stream));
            &&& q.tools matches Some(ts) ==> exists|offered: Seq<JsonView>|
                {
                    &&& #[trigger] has_field(body, "tools"@, JsonView::Array(offered))
                    &&& offered.len() == ts.len()
                    &&& forall|i: int|
                        0 <= i < ts.len() ==> #[trigger] offered[i] == JsonView::Object(
                            seq![
                                ("type"@, JsonView::Str("function"@)),
                                (
                                    "function"@,
                                    JsonView::Object(
                                        seq![
                                            ("name"@, JsonView::Str(ts[i].name)),
                                            ("description"@, JsonView::Str(ts[i].description)),
                                            ("parameters"@, ts[i].input_schema),
                                        ],
                                    ),
                                ),
                            ],
                        )
                }
            &&& q.tools is None ==> lacks_field(body, "tools"@)
            &&& q.tool_choice is None ==> lacks_field(body, "tool_choice"@)
            &&& q.tool_choice == Some(ToolChoiceView::Auto) ==> has_field(
                body,
                "tool_choice"@,
                JsonView::Str("auto"@),
            )
            &&& q.tool_choice == Some(ToolChoiceView::NoTool) ==> has_field(
                body,
                "tool_choice"@,
                JsonView::Str("none"@),
            )
            &&& q.tool_choice matches Some(ToolChoiceView::Tool { name }) ==> has_field(
                body,
                "tool_choice"@,
                JsonView::Object(
                    seq![
                        ("type"@, JsonView::Str("function"@)),
                        ("function"@, JsonView::Object(seq![("name"@, JsonView::Str(name))])),
                    ],
                ),
            )
        }),
{
    let a = request_api(q, model, max_tokens, temperature, stream);
    let body = request_body(a);
    let fields = body->Object_0;
    reveal_strlit("model");
    reveal_strlit("messages");
    reveal_strlit("stream");
    reveal_strlit("max_tokens");
    reveal_strlit("temperature");
    reveal_strlit("tools");
    reveal_strlit("tool_choice");
    assert("model"@[0] != "tools"@[0]);
    assert(fields[0].0 == "model"@ && fields[1].0 == "messages"@ && fields[2].0 == "stream"@
        && fields[3].0 == "max_tokens"@ && fields[4].0 == "temperature"@);
    assert("temperature"@[1] != "tool_choice"@[1]);
    let n: int = if q.tools is Some {
        6
    } else {
        5
    };
    if q.tools is Some {
        let offered = a.tools->0->Array_0;
        assert(fields[5] == ("tools"@, JsonView::Array(offered)));
        assert(has_field(body, "tools"@, JsonView::Array(offered)));
    }
    assert forall|i: int| 0 <= i < 5 implies (#[trigger] fields[i]).0 != "tools"@ && fields[i].0
        != "tool_choice"@ by {
        assert("messages"@.len() == 8 && "stream"@.len() == 6 && "max_tokens"@.len() == 10);
        assert("tools"@.len() == 5 && "tool_choice"@.len() == 11);
        assert("model"@.len() == 5 && "temperature"@.len() == 11);
    }
    assert("tools"@ != "tool_choice"@) by {
        assert("tools"@.len() != "tool_choice"@.len());
    }
    if q.tool_choice is Some {
        assert(fields[n] == ("tool_choice"@, a.tool_choice->0));
    } else {
        assert(fields.len() == n);
    }
}

// ---------------------------------------------------------------------------
// Replies of a service like OpenAI's
// ---------------------------------------------------------------------------

/// Of a reply the first choice counts: its calls come last, in their order, each
/// with its id, its name and its arguments as they read, or nothing where they
/// do not read.
pub proof fn law_calls_are_read(m: ApiMessageView, fallback: Seq<char>, i: int)
    requires
        m.tool_calls is Some,
        0 <= i < m.tool_calls->0.len(),
    ensures
        ({
            let blocks = message_blocks(m);
            let calls = m.tool_calls->0;
            let c = calls[i];
            &&& blocks.len() >= calls.len()
            &&& blocks[blocks.len() - calls.len() + i] == BlockView::ToolUse {
                id: c.id,
                name: c.function.name,
                input: if json_of_text(c.function.arguments) is Ok {
                    json_of_text(c.function.arguments)->Ok_0
                } else {
                    JsonView::Null
                },
            }
        }),
{
    let calls = call_blocks(m.tool_calls);
    assert(calls.len() == m.tool_calls->0.len());
    assert(calls[i] == call_block(
        m.tool_calls->0[i],
        json_of_text(m.tool_calls->0[i].function.arguments),
    ));
    assert(message_blocks(m)[message_blocks(m).len() - calls.len() + i] == calls[i]);
}

/// What a reply says of its thoughts in a field of its own comes first, as a
/// thought; parts of texts are texts, in their order.
pub proof fn law_texts_are_read(m: ApiMessageView, rest: Seq<JsonView>, part: JsonView)
    ensures
        m.reasoning_content matches Some(t) ==> t.len() > 0 ==> message_blocks(m)[0] == (
        BlockView::Thinking { content: t }),
        m.content is None && m.tool_calls is None && m.reasoning_content is None
            ==> text_of_blocks(message_blocks(m)).len() == 0,
        content_blocks(Some(JsonView::Array(rest.push(part)))) == content_blocks(
            Some(JsonView::Array(rest)),
        ) + part_blocks(part),
        part.get("text"@) matches Some(JsonView::Str(t)) ==> t.len() > 0 ==> part_blocks(
            part,
        ).len() > 0 && part_blocks(part).last() == (BlockView::Text { text: t }),
        part.get("reasoning_content"@) matches Some(JsonView::Str(t)) ==> t.len() > 0
            ==> part_blocks(part).len() > 0 && part_blocks(part)[0] == (BlockView::Thinking {
            content: t,
        }),
{
    assert(rest.push(part).drop_last() =~= rest);
    reveal_with_fuel(text_of_blocks, 2);
    reveal_strlit("");
    if m.content is None && m.tool_calls is None && m.reasoning_content is None {
        let one = seq![BlockView::Text { text: ""@ }];
        assert(message_blocks(m) == one);
        assert(one.drop_last() =~= Seq::<BlockView>::empty());
    }
}

/// What a reply says it took, which model answered and why it stopped is taken
/// over from it; without choices there are no blocks.
pub proof fn law_reply_is_taken_over(a: ApiChatResponseView, fallback: Seq<char>)
    ensures
        ({
            let r = response_of(a, fallback);
            &&& a.choices.len() == 0 ==> r.content.len() == 0 && r.finish_reason is None
            &&& a.choices.len() > 0 && a.choices[0].message is Some ==> r.content
                == message_blocks(a.choices[0].message->0)
            &&& a.choices.len() > 0 ==> match a.choices[0].finish_reason {
                Some(s) => r.finish_reason == Some(finish_reason_of(s)),
                None => r.finish_reason is None,
            }
            &&& a.model is Some ==> r.model == a.model->0
            &&& a.model is None ==> r.model == fallback
            &&& r.usage.cache_creation_input_tokens == 0
            &&& r.usage.cache_read_input_tokens == 0
            &&& match a.usage {
                Some(u) => {
                    &&& u.prompt_tokens is Some ==> r.usage.prompt_tokens == u.prompt_tokens->0
                    &&& u.prompt_tokens is None ==> r.usage.prompt_tokens == 0
                    &&& u.completion_tokens is Some ==> r.usage.completion_tokens
                        == u.completion_tokens->0
                    &&& u.completion_tokens is None ==> r.usage.completion_tokens == 0
                    &&& u.total_tokens is Some ==> r.usage.total_tokens == u.total_tokens->0
                },
                None => r.usage.prompt_tokens == 0 && r.usage.completion_tokens == 0
                    && r.usage.total_tokens == 0,
            }
        }),
{
}

proof fn lemma_no_bracket(a: Seq<char>, b: Seq<char>)
    requires
        !a.contains('>'),
    ensures
        find_from(a + ">"@ + b, ">"@, 0) == Some(a.len() as int),
{
    let h = a + ">"@ + b;
    reveal_strlit(">");
    lemma_find_from(h, ">"@, 0);
    assert(h.subrange(a.len() as int, a.len() + 1int) =~= ">"@);
    assert(occurs_at(h, ">"@, a.len() as int));
    assert forall|k: int| 0 <= k < a.len() implies !#[trigger] occurs_at(h, ">"@, k) by {
        if occurs_at(h, ">"@, k) {
            assert(h.subrange(k, k + 1)[0] == '>');
            assert(a[k] == '>');
        }
    }
}

/// A thought that has no end is kept whole: the tag goes, with what stands in
/// it on its line, and everything behind it stays.
pub proof fn law_open_thought_is_kept(attributes: Seq<char>, thought: Seq<char>)
    requires
        !attributes.contains('>'),
        !attributes.contains('\n'),
    ensures
        after_tag("<think"@ + attributes + ">"@ + thought) == thought,
        after_tag("<thinking"@ + attributes + ">"@ + thought) == thought,
        !thought.contains('>') ==> after_tag("<thinking\n"@ + thought) == "\n"@ + thought,
{
    reveal_strlit("<think");
    reveal_strlit("<thinking");
    reveal_strlit("<thinking\n");
    reveal_strlit(">");
    reveal_strlit("\n");
    let s = "<think"@ + attributes + ">"@ + thought;
    let t = "<thinking"@ + attributes + ">"@ + thought;
    // After the long tag.
    assert(t.subrange(0, 9) =~= "<thinking"@);
    assert(t.skip(9) =~= attributes + ">"@ + thought);
    lemma_no_bracket(attributes, thought);
    lemma_no_line_break(attributes);
    let u = attributes + ">"@ + thought;
    assert(u.take(attributes.len() as int) =~= attributes);
    assert(u.skip(attributes.len() + 1int) =~= thought);
    // After the short tag, which the long one may begin with.
    if occurs_at(s, "<thinking"@, 0) {
        let v = s.skip(9);
        assert(s.subrange(0, 9)[6] == 'i' && s.subrange(0, 9)[7] == 'n' && s.subrange(0, 9)[8]
            == 'g');
        if attributes.len() < 3 {
            assert(s[6int + attributes.len()] == '>');
            assert(s.subrange(0, 9)[6int + attributes.len()] == '>');
        }
        let w = attributes.skip(3);
        assert(v =~= w + ">"@ + thought);
        assert forall|k: int| 0 <= k < w.len() implies w[k] != '>' && w[k] != '\n' by {
            assert(attributes[k + 3] == w[k]);
            assert(attributes.contains(w[k]));
        }
        lemma_no_bracket(w, thought);
        lemma_no_line_break(w);
        assert(v.take(w.len() as int) =~= w);
        assert(v.skip(w.len() + 1int) =~= thought);
    } else {
        assert(s.subrange(0, 6) =~= "<think"@);
        assert(s.skip(6) =~= u);
    }
    // With the thought on a line of its own.
    let z = "<thinking\n"@ + thought;
    assert(z.subrange(0, 9) =~= "<thinking"@);
    assert(z.skip(9) =~= "\n"@ + thought);
    if !thought.contains('>') {
        let y = "\n"@ + thought;
        lemma_find_from(y, ">"@, 0);
        if find_from(y, ">"@, 0) is Some {
            let i = find_from(y, ">"@, 0)->0;
            assert(y.subrange(i, i + 1)[0] == '>');
            assert(y[i] == '>');
            assert(thought[i - 1] == '>');
        }
    }
}

proof fn lemma_no_line_break(a: Seq<char>)
    requires
        !a.contains('\n'),
    ensures
        !has_text(a, "\n"@),
{
    reveal_strlit("\n");
    if has_text(a, "\n"@) {
        let i = choose|i: int| occurs_at(a, "\n"@, i);
        assert(a.subrange(i, i + 1)[0] == '\n');
        assert(a[i] == '\n');
    }
}

/// Where no thought begins, all of the text is said, and the thoughts are those
/// that stood between tags; where one begins that does not end, what stands
/// before it is said.
pub proof fn law_said_and_thought(parts: Seq<Seq<char>>, text: Seq<char>, i: int)
    ensures
        !has_text(text, "<think"@) ==> {
            &&& thought_and_said(parts, text).1 == trimmed(text)
            &&& parts.len() == 0 ==> thought_and_said(parts, text).0 is None
            &&& parts.len() > 0 ==> thought_and_said(parts, text).0 == Some(joined(parts, "\n"@))
        },
        occurs_at(text, "<think"@, i) && (forall|k: int|
            0 <= k < i ==> !#[trigger] occurs_at(text, "<think"@, k)) && !has_text(
            text.skip(i),
            "</think"@,
        ) ==> {
            &&& thought_and_said(parts, text).1 == trimmed(text.take(i))
            &&& parts.len() == 0 && trimmed(after_tag(text.skip(i))).len() > 0
                ==> thought_and_said(parts, text).0 == Some(trimmed(after_tag(text.skip(i))))
        },
{
    lemma_find_from(text, "<think"@, 0);
    if find_from(text, "<think"@, 0) is Some {
        assert(occurs_at(text, "<think"@, find_from(text, "<think"@, 0)->0));
    }
    if parts.len() == 0 {
        let t = after_tag(text.skip(i));
        assert(parts + noted(t) =~= noted(t));
    }
}

} // verus!
