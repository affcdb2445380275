//! What holds of the requests to Gemini and of its replies.

use crate::json::JsonView;
use crate::llm::gemini::{
    all_blocks, called_name, calling_part, content_json, declarations_json, gemini_request,
    gemini_response, gemini_role, generation_config, instruction, instructions_json,
    parts_of_message, parts_read, response_part, signature_of, tool_config,
};
use crate::llm::laws::{has_field, is_plain, lacks_field};
use crate::llm::provider::{MessageRole, MessageView, RequestView, calls_tool, text_of_blocks};
use crate::llm::types::{BlockView, FinishReason, ToolChoiceView};
use crate::seqs::{lemma_filter_map_has, lemma_filter_map_one, lemma_filter_map_parts};
use crate::text::joined;
use crate::walk::some_is;
use vstd::prelude::*;

verus! {

/// The object with a text.
pub open spec fn says(text: Seq<char>) -> JsonView {
    JsonView::Object(seq![("text"@, JsonView::Str(text))])
}

proof fn lemma_plain(m: MessageView)
    requires
        is_plain(m),
    ensures
        !calls_tool(m.content),
        !some_is(m.content, |b: BlockView| b is ToolResult),
{
}

/// A message of texts is one part with its whole text, told as the model's where
/// the assistant said it and as the user's else; what the system says is no
/// part of the conversation.
pub proof fn law_gemini_role_is_told(known: Seq<BlockView>, m: MessageView)
    requires
        is_plain(m),
    ensures
        m.role == MessageRole::System ==> content_json(known, m) is None,
        m.role == MessageRole::Assistant ==> content_json(known, m) is Some && has_field(
            content_json(known, m)->0,
            "role"@,
            JsonView::Str("model"@),
        ),
        m.role == MessageRole::User || m.role == MessageRole::Tool ==> content_json(known, m)
            is Some && has_field(content_json(known, m)->0, "role"@, JsonView::Str("user"@)),
        m.role != MessageRole::System ==> has_field(
            content_json(known, m)->0,
            "parts"@,
            JsonView::Array(seq![says(text_of_blocks(m.content))]),
        ),
{
    lemma_plain(m);
    if m.role != MessageRole::System {
        let fields = content_json(known, m)->0->Object_0;
        assert(fields[0].0 == "role"@);
        assert(fields[1] == ("parts"@, JsonView::Array(parts_of_message(known, m))));
    }
}

proof fn lemma_called(blocks: Seq<BlockView>, i: int, id: Seq<char>)
    requires
        0 <= i < blocks.len(),
        blocks[i] matches BlockView::ToolUse { id: own, .. } && own == id,
        forall|k: int|
            i < k < blocks.len() ==> !((#[trigger] blocks[k]) matches BlockView::ToolUse {
                id: own,
                ..
            } && own == id),
    ensures
        called_name(blocks, id) == Some(blocks[i]->ToolUse_name),
    decreases blocks.len(),
{
    let t = blocks.drop_last();
    if i < t.len() {
        assert(t[i] == blocks[i]);
        let last = blocks[blocks.len() - 1];
        assert(!(last matches BlockView::ToolUse { id: own, .. } && own == id));
        lemma_called(t, i, id);
    }
}

proof fn lemma_not_called(blocks: Seq<BlockView>, id: Seq<char>)
    requires
        forall|k: int|
            0 <= k < blocks.len() ==> !((#[trigger] blocks[k]) matches BlockView::ToolUse {
                id: own,
                ..
            } && own == id),
    ensures
        called_name(blocks, id) is None,
    decreases blocks.len(),
{
    if blocks.len() > 0 {
        let t = blocks.drop_last();
        let last = blocks[blocks.len() - 1];
        assert(!(last matches BlockView::ToolUse { id: own, .. } && own == id));
        assert forall|k: int| 0 <= k < t.len() implies !(
        (#[trigger] t[k]) matches BlockView::ToolUse { id: own, .. } && own == id) by {
            assert(t[k] == blocks[k]);
        }
        lemma_not_called(t, id);
    }
}

/// A result is handed back under the name of the tool that was called with its
/// id, the last call with it, with its whole content and as the user's word;
/// without such a call it is left out.
pub proof fn law_gemini_results_are_named(known: Seq<BlockView>, m: MessageView, i: int, k: int)
    requires
        0 <= i < m.content.len(),
        m.content[i] is ToolResult,
    ensures
        ({
            let id = m.content[i]->ToolResult_tool_use_id;
            let content = m.content[i]->ToolResult_content;
            &&& gemini_role(m) == "user"@
            &&& 0 <= k < known.len() && (known[k] matches BlockView::ToolUse { id: own, .. } && own
                == id) && (forall|n: int|
                k < n < known.len() ==> !((#[trigger] known[n]) matches BlockView::ToolUse {
                    id: own,
                    ..
                } && own == id)) ==> parts_of_message(known, m).contains(
                JsonView::Object(
                    seq![
                        (
                            "functionResponse"@,
                            JsonView::Object(
                                seq![
                                    ("name"@, JsonView::Str(known[k]->ToolUse_name)),
                                    (
                                        "response"@,
                                        JsonView::Object(
                                            seq![("output"@, JsonView::Str(content))],
                                        ),
                                    ),
                                ],
                            ),
                        ),
                    ],
                ),
            )
            &&& (forall|n: int|
                0 <= n < known.len() ==> !((#[trigger] known[n]) matches BlockView::ToolUse {
                    id: own,
                    ..
                } && own == id)) ==> response_part(known, m.content[i]) is None
        }),
{
    let id = m.content[i]->ToolResult_tool_use_id;
    assert(some_is(m.content, |b: BlockView| b is ToolResult));
    let f = |b: BlockView| response_part(known, b);
    if 0 <= k < known.len() && (known[k] matches BlockView::ToolUse { id: own, .. } && own == id)
        && (forall|n: int|
        k < n < known.len() ==> !((#[trigger] known[n]) matches BlockView::ToolUse {
            id: own,
            ..
        } && own == id)) {
        lemma_called(known, k, id);
        lemma_filter_map_has(m.content, f, f(m.content[i])->0);
    }
    if forall|n: int|
        0 <= n < known.len() ==> !((#[trigger] known[n]) matches BlockView::ToolUse {
            id: own,
            ..
        } && own == id) {
        lemma_not_called(known, id);
    }
}

/// What calls a tool keeps its texts and its calls, in their order, each call
/// with its name and its input, and with the signature that its id holds.
pub proof fn law_gemini_calls_are_written(
    known: Seq<BlockView>,
    role: MessageRole,
    blocks: Seq<BlockView>,
    b: BlockView,
)
    requires
        calls_tool(blocks),
        forall|k: int| 0 <= k < blocks.len() ==> !((#[trigger] blocks[k]) is ToolResult),
        !(b is ToolResult),
    ensures
        ({
            let before = parts_of_message(known, MessageView { role, content: blocks });
            let after = parts_of_message(known, MessageView { role, content: blocks.push(b) });
            match b {
                BlockView::Text { text } => after == before.push(says(text)),
                BlockView::ToolUse { id, name, input } => {
                    &&& after.len() == before.len() + 1
                    &&& after.drop_last() == before
                    &&& has_field(
                        after.last(),
                        "functionCall"@,
                        JsonView::Object(seq![("name"@, JsonView::Str(name)), ("args"@, input)]),
                    )
                    &&& signature_of(id) matches Some(s) ==> has_field(
                        after.last(),
                        "thoughtSignature"@,
                        JsonView::Str(s),
                    )
                    &&& signature_of(id) is None ==> lacks_field(
                        after.last(),
                        "thoughtSignature"@,
                    )
                },
                _ => after == before,
            }
        }),
{
    let more = blocks.push(b);
    let k = choose|k: int| 0 <= k < blocks.len() && blocks[k] is ToolUse;
    assert(more[k] is ToolUse);
    assert(calls_tool(more));
    assert(!some_is(blocks, |b: BlockView| b is ToolResult));
    assert(!some_is(more, |b: BlockView| b is ToolResult)) by {
        assert forall|k: int| 0 <= k < more.len() implies !((#[trigger] more[k]) is ToolResult) by {
            if k < blocks.len() {
                assert(more[k] == blocks[k]);
            }
        }
    }
    let f = |b: BlockView| calling_part(b);
    lemma_filter_map_parts(blocks, seq![b], f);
    lemma_filter_map_one(b, f);
    assert(blocks + seq![b] =~= more);
    let before = blocks.filter_map(f);
    let after = more.filter_map(f);
    match b {
        BlockView::Text { text } => {
            assert(after =~= before.push(says(text)));
        },
        BlockView::ToolUse { id, name, input } => {
            let part = calling_part(b)->0;
            assert(after =~= before.push(part));
            assert(after.drop_last() =~= before);
            let fields = part->Object_0;
            assert(fields[0].0 == "functionCall"@);
            reveal_strlit("functionCall");
            reveal_strlit("thoughtSignature");
            assert("functionCall"@.len() != "thoughtSignature"@.len());
            if signature_of(id) is Some {
                assert(fields[1] == ("thoughtSignature"@, JsonView::Str(signature_of(id)->0)));
            }
        },
        _ => {
            assert(after =~= before);
        },
    }
}

/// A request has the messages that are not the system's, in their order, and the
/// texts of the system together as the instruction; the limit and the
/// temperature of the request count before those of the client.
pub proof fn law_gemini_request_is_whole(
    q: RequestView,
    max_tokens: u32,
    temperature: Seq<char>,
    rest: Seq<MessageView>,
    m: MessageView,
)
    ensures
        all_blocks(Seq::empty()) == Seq::<BlockView>::empty(),
        all_blocks(rest.push(m)) == all_blocks(rest) + m.content,
        ({
            let body = gemini_request(q, max_tokens, temperature);
            let known = all_blocks(q.messages);
            &&& has_field(
                body,
                "contents"@,
                JsonView::Array(q.messages.filter_map(|m: MessageView| content_json(known, m))),
            )
            &&& instructions_json(q.messages) matches Some(j) ==> has_field(
                body,
                "systemInstruction"@,
                j,
            )
            &&& has_field(
                body,
                "generationConfig"@,
                JsonView::Object(
                    seq![
                        (
                            "maxOutputTokens"@,
                            JsonView::Unsigned(
                                if q.max_tokens is Some {
                                    q.max_tokens->0 as u64
                                } else {
                                    max_tokens as u64
                                },
                            ),
                        ),
                        (
                            "temperature"@,
                            JsonView::Decimal(
                                if q.temperature is Some {
                                    q.temperature->0
                                } else {
                                    temperature
                                },
                            ),
                        ),
                    ],
                ),
            )
        }),
{
    assert(rest.push(m).drop_last() =~= rest);
    let body = gemini_request(q, max_tokens, temperature);
    let fields = body->Object_0;
    let known = all_blocks(q.messages);
    assert(fields[0] == (
        "contents"@,
        JsonView::Array(q.messages.filter_map(|m: MessageView| content_json(known, m))),
    ));
    if instructions_json(q.messages) is Some {
        assert(fields[1] == ("systemInstruction"@, instructions_json(q.messages)->0));
    }
    assert(fields.last() == (
        "generationConfig"@,
        JsonView::Object(generation_config(q, max_tokens, temperature)),
    ));
    assert(fields[fields.len() - 1] == fields.last());
    assert(generation_config(q, max_tokens, temperature) =~= seq![
        (
            "maxOutputTokens"@,
            JsonView::Unsigned(
                if q.max_tokens is Some {
                    q.max_tokens->0 as u64
                } else {
                    max_tokens as u64
                },
            ),
        ),
        (
            "temperature"@,
            JsonView::Decimal(
                if q.temperature is Some {
                    q.temperature->0
                } else {
                    temperature
                },
            ),
        ),
    ]);
}

/// The instruction has the texts of the system, those that are not empty, in
/// their order and with an empty line between them.
pub proof fn law_gemini_instruction(messages: Seq<MessageView>, m: MessageView)
    ensures
        m.role == MessageRole::System && text_of_blocks(m.content).len() > 0 ==> instruction(m)
            == Some(text_of_blocks(m.content)),
        m.role != MessageRole::System || text_of_blocks(m.content).len() == 0 ==> instruction(m)
            is None,
        ({
            let texts = messages.filter_map(|m: MessageView| instruction(m));
            &&& texts.len() == 0 ==> instructions_json(messages) is None
            &&& texts.len() > 0 ==> instructions_json(messages) == Some(
                JsonView::Object(
                    seq![("parts"@, JsonView::Array(seq![says(joined(texts, "\n\n"@))]))],
                ),
            )
        }),
{
}

/// Each tool is declared with its name, its description and the schema of its
/// input, and the choice of a tool is told by the modes of the service.
pub proof fn law_gemini_tools_are_declared(
    q: RequestView,
    max_tokens: u32,
    temperature: Seq<char>,
)
    ensures
        ({
            let body = gemini_request(q, max_tokens, temperature);
            &&& q.tools matches Some(ts) ==> ts.len() > 0 ==> exists|declared: Seq<JsonView>|
                {
                    &&& #[trigger] has_field(
                        body,
                        "tools"@,
                        JsonView::Array(
                            seq![
                                JsonView::Object(
                                    seq![("functionDeclarations"@, JsonView::Array(declared))],
                                ),
                            ],
                        ),
                    )
                    &&& declared.len() == ts.len()
                    &&& forall|i: int|
                        0 <= i < ts.len() ==> #[trigger] declared[i] == JsonView::Object(
                            seq![
                                ("name"@, JsonView::Str(ts[i].name)),
                                ("description"@, JsonView::Str(ts[i].description)),
                                ("parametersJsonSchema"@, ts[i].input_schema),
                            ],
                        )
                }
            &&& q.tool_choice matches Some(choice) ==> has_field(
                body,
                "toolConfig"@,
                JsonView::Object(
                    seq![
                        (
                            "functionCallingConfig"@,
                            match choice {
                                ToolChoiceView::Auto => JsonView::Object(
                                    seq![("mode"@, JsonView::Str("AUTO"@))],
                                ),
                                ToolChoiceView::NoTool => JsonView::Object(
                                    seq![("mode"@, JsonView::Str("NONE"@))],
                                ),
                                ToolChoiceView::Tool { name } => JsonView::Object(
                                    seq![
                                        ("mode"@, JsonView::Str("ANY"@)),
                                        (
                                            "allowedFunctionNames"@,
                                            JsonView::Array(seq![JsonView::Str(name)]),
                                        ),
                                    ],
                                ),
                            },
                        ),
                    ],
                ),
            )
        }),
{
    let body = gemini_request(q, max_tokens, temperature);
    let fields = body->Object_0;
    let at: int = if instructions_json(q.messages) is Some {
        2
    } else {
        1
    };
    let has_tools = q.tools is Some && q.tools->0.len() > 0;
    if has_tools {
        let tools = declarations_json(q.tools)->0;
        let declared = tools->Array_0[0]->Object_0[0].1->Array_0;
        assert(fields[at] == ("tools"@, tools));
        assert(has_field(
            body,
            "tools"@,
            JsonView::Array(
                seq![
                    JsonView::Object(
                        seq![("functionDeclarations"@, JsonView::Array(declared))],
                    ),
                ],
            ),
        ));
    }
    if q.tool_choice is Some {
        let n = if has_tools {
            at + 1
        } else {
            at
        };
        assert(fields[n] == ("toolConfig"@, tool_config(q.tool_choice)->0));
    }
}

/// What a part of a reply says is a text, or a thought where it is marked as
/// one, and what it calls is a call with its name and its input. The calls are
/// numbered in their order, and what came before stays.
pub proof fn law_gemini_parts_are_read(before: Seq<JsonView>, part: JsonView)
    ensures
        ({
            let a = parts_read(before);
            let b = parts_read(before.push(part));
            let said = part.get("text"@) matches Some(JsonView::Str(_));
            let thought = part.get("thought"@) == Some(JsonView::Bool(true));
            let calls = part.get("functionCall"@) is Some
                && part.get("functionCall"@)->0.get("name"@) matches Some(JsonView::Str(_));
            &&& parts_read(Seq::empty()).blocks.len() == 0
            &&& b.blocks.len() == a.blocks.len() + (if said {
                1nat
            } else {
                0nat
            }) + (if calls {
                1nat
            } else {
                0nat
            })
            &&& b.blocks.take(a.blocks.len() as int) == a.blocks
            &&& said ==> b.blocks[a.blocks.len() as int] == (if thought {
                BlockView::Thinking { content: part.get("text"@)->0->Str_0 }
            } else {
                BlockView::Text { text: part.get("text"@)->0->Str_0 }
            })
            &&& calls ==> (b.blocks.last() matches BlockView::ToolUse { name, input, .. } && name
                == part.get("functionCall"@)->0.get("name"@)->0->Str_0 && (part.get(
                "functionCall"@,
            )->0.get("args"@) matches Some(args) ==> input == args))
            &&& b.calls == a.calls + (if calls {
                1nat
            } else {
                0nat
            })
        }),
{
    let a = parts_read(before);
    let b = parts_read(before.push(part));
    assert(before.push(part).drop_last() =~= before);
    assert(b.blocks.take(a.blocks.len() as int) =~= a.blocks);
}

/// The blocks of a reply are those of its first candidate; it stopped for want
/// of room where the service says so, else for tools where it calls some; and
/// what it took is taken over.
pub proof fn law_gemini_reply_is_taken_over(
    body: JsonView,
    model: Seq<char>,
    candidates: Seq<JsonView>,
    parts: Seq<JsonView>,
)
    requires
        body.get("candidates"@) == Some(JsonView::Array(candidates)),
        candidates.len() > 0,
        candidates[0].get("content"@) is Some,
        candidates[0].get("content"@)->0.get("parts"@) == Some(JsonView::Array(parts)),
    ensures
        ({
            let r = gemini_response(body, model);
            let reason = candidates[0].get("finishReason"@);
            &&& r.content == parts_read(parts).blocks
            &&& r.model == model
            &&& reason matches Some(JsonView::Str(s)) ==> {
                &&& r.finish_reason is Some
                &&& r.finish_reason == Some(FinishReason::MaxTokens) <==> s == "MAX_TOKENS"@
                &&& r.finish_reason == Some(FinishReason::ToolUse) <==> s != "MAX_TOKENS"@ && (
                exists|i: int|
                    0 <= i < r.content.len() && (#[trigger] r.content[i]) is ToolUse)
            }
            &&& reason is None ==> r.finish_reason is None
            &&& r.usage.cache_creation_input_tokens == 0
            &&& r.usage.cache_read_input_tokens == 0
            &&& body.get("usageMetadata"@) matches Some(u) ==> {
                &&& u.get("promptTokenCount"@) matches Some(JsonView::Unsigned(n))
                    ==> r.usage.prompt_tokens == n
                &&& u.get("candidatesTokenCount"@) matches Some(JsonView::Unsigned(n))
                    ==> r.usage.completion_tokens == n
                &&& u.get("totalTokenCount"@) matches Some(JsonView::Unsigned(n))
                    ==> r.usage.total_tokens == n
            }
            &&& body.get("usageMetadata"@) is None ==> r.usage.prompt_tokens == 0
                && r.usage.completion_tokens == 0 && r.usage.total_tokens == 0
        }),
{
}

} // verus!
