//! Replies that come in piece by piece, as server-sent events.

use crate::json::{json_of_text, Json, JsonView};
use crate::llm::types::{
    finish_reason_of, FinishReason, StreamEvent, StreamEventView, TokenUsage,
};
use crate::replicate::Replicate;
use crate::seqs::{lemma_take_all, lemma_take_step};
use crate::text::{
    join, joined, lossy_text, lossy_text_of, same, split_any, split_at_chars, starts_with,
    strip_prefix, strip_prefix_of, trim, trimmed,
};
use crate::walk::{
    append_all, filter_map_each, flat_map_each, flat_mapped, map_each, no_items, push_one,
};
use vstd::prelude::*;

verus! {

/// A tool call that comes in piece by piece.
#[derive(Debug, PartialEq)]
pub struct ToolCallAccumulator {
    pub id: String,
    pub name: String,
    pub arguments: String,
}

/// What came in of a tool call.
#[verifier::ext_equal]
pub struct ToolCallAccumulatorView {
    pub id: Seq<char>,
    pub name: Seq<char>,
    pub arguments: Seq<char>,
}

impl DeepView for ToolCallAccumulator {
    type V = ToolCallAccumulatorView;

    open spec fn deep_view(&self) -> ToolCallAccumulatorView {
        ToolCallAccumulatorView {
            id: self.id@,
            name: self.name@,
            arguments: self.arguments@,
        }
    }
}

impl Replicate for ToolCallAccumulator {
    fn replicate(&self) -> (r: Self) {
        ToolCallAccumulator {
            id: self.id.clone(),
            name: self.name.clone(),
            arguments: self.arguments.clone(),
        }
    }
}

/// Nothing came in yet.
pub open spec fn no_call() -> ToolCallAccumulatorView {
    ToolCallAccumulatorView { id: ""@, name: ""@, arguments: ""@ }
}

impl Default for ToolCallAccumulator {
    fn default() -> (r: Self)
        ensures
            r.deep_view() == no_call(),
    {
        ToolCallAccumulator { id: "".to_owned(), name: "".to_owned(), arguments: "".to_owned() }
    }
}

// ---------------------------------------------------------------------------
// Chunks
// ---------------------------------------------------------------------------

/// What a reply has given so far: the tool calls that are not complete, and the
/// events.
#[verifier::ext_equal]
pub struct Progress {
    pub calls: Seq<ToolCallAccumulatorView>,
    pub events: Seq<StreamEventView>,
}

/// The calls, with empty ones at the end until there are `n`.
pub open spec fn padded(s: Seq<ToolCallAccumulatorView>, n: int) -> Seq<ToolCallAccumulatorView>
    decreases n - s.len(),
{
    if s.len() >= n {
        s
    } else {
        padded(s.push(no_call()), n)
    }
}

/// A call with a piece more: a new id and name take the place of the old, and
/// the arguments are added to.
pub open spec fn call_grown(c: ToolCallAccumulatorView, tc: JsonView) -> ToolCallAccumulatorView {
    let f = tc.get("function"@);
    ToolCallAccumulatorView {
        id: match tc.str_at("id"@) {
            Some(id) => id,
            None => c.id,
        },
        name: match f {
            Some(f) => match f.str_at("name"@) {
                Some(name) => name,
                None => c.name,
            },
            None => c.name,
        },
        arguments: match f {
            Some(f) => match f.str_at("arguments"@) {
                Some(args) => c.arguments + args,
                None => c.arguments,
            },
            None => c.arguments,
        },
    }
}

/// Which call a piece belongs to.
pub open spec fn call_index(tc: JsonView) -> int {
    match tc.u64_at("index"@) {
        Some(n) => n as usize as int,
        None => 0,
    }
}

/// The calls with a piece more.
pub open spec fn with_piece(s: Seq<ToolCallAccumulatorView>, tc: JsonView) -> Seq<
    ToolCallAccumulatorView,
> {
    let i = call_index(tc);
    let p = padded(s, i + 1);
    p.update(i, call_grown(p[i], tc))
}

/// The calls with several pieces more.
pub open spec fn with_pieces(s: Seq<ToolCallAccumulatorView>, pieces: Seq<JsonView>) -> Seq<
    ToolCallAccumulatorView,
>
    decreases pieces.len(),
{
    if pieces.len() == 0 {
        s
    } else {
        with_piece(with_pieces(s, pieces.drop_last()), pieces.last())
    }
}

/// A complete call as events.
pub open spec fn call_events(c: ToolCallAccumulatorView) -> Seq<StreamEventView> {
    seq![
        StreamEventView::ToolCallStart { id: c.id, name: c.name },
        StreamEventView::ToolCallDelta { tool_use_id: c.id, delta: c.arguments },
    ]
}

/// The calls are complete.
pub open spec fn finalized(p: Progress) -> Progress {
    Progress {
        calls: Seq::empty(),
        events: p.events + flat_mapped(p.calls, |c: ToolCallAccumulatorView| call_events(c)),
    }
}

/// The text under a key, where there is one that is not empty.
pub open spec fn said_at(d: JsonView, key: Seq<char>) -> Option<Seq<char>> {
    match d.str_at(key) {
        Some(s) => if s.len() > 0 {
            Some(s)
        } else {
            None
        },
        None => None,
    }
}

/// The text events of a delta.
pub open spec fn delta_events(d: JsonView) -> Seq<StreamEventView> {
    let a = match said_at(d, "content"@) {
        Some(text) => seq![StreamEventView::TextDelta { text }],
        None => Seq::empty(),
    };
    let b = match said_at(d, "reasoning_content"@) {
        Some(content) => seq![StreamEventView::ThinkingDelta { content }],
        None => Seq::empty(),
    };
    a + b
}

/// What a delta adds.
pub open spec fn delta_added(p: Progress, d: JsonView) -> Progress {
    Progress {
        calls: match d.array_at("tool_calls"@) {
            Some(pieces) => with_pieces(p.calls, pieces),
            None => p.calls,
        },
        events: p.events + delta_events(d),
    }
}

/// A count under a key; 0 where there is none.
pub open spec fn count_at(u: JsonView, key: Seq<char>) -> u64 {
    match u.u64_at(key) {
        Some(n) => n,
        None => 0,
    }
}

/// The tokens that a chunk says were used.
pub open spec fn chunk_usage(chunk: JsonView) -> Option<TokenUsage> {
    match chunk.get("usage"@) {
        Some(u) => Some(
            TokenUsage {
                prompt_tokens: count_at(u, "prompt_tokens"@),
                completion_tokens: count_at(u, "completion_tokens"@),
                total_tokens: count_at(u, "total_tokens"@),
                cache_creation_input_tokens: 0,
                cache_read_input_tokens: 0,
            },
        ),
        None => None,
    }
}

/// What a choice of a chunk adds: its delta, and the end where it gives a
/// reason. Where the reason is a tool call, the calls are complete.
pub open spec fn choice_added(p: Progress, choice: JsonView, chunk: JsonView) -> Progress {
    let with_delta = match choice.get("delta"@) {
        Some(d) => delta_added(p, d),
        None => p,
    };
    match choice.str_at("finish_reason"@) {
        None => with_delta,
        Some(s) => {
            let reason = finish_reason_of(s);
            let q = if reason == FinishReason::ToolUse {
                finalized(with_delta)
            } else {
                with_delta
            };
            Progress {
                events: q.events.push(
                    StreamEventView::Done {
                        finish_reason: Some(reason),
                        usage: chunk_usage(chunk),
                    },
                ),
                ..q
            }
        },
    }
}

/// What several choices of a chunk add.
pub open spec fn choices_added(p: Progress, choices: Seq<JsonView>, chunk: JsonView) -> Progress
    decreases choices.len(),
{
    if choices.len() == 0 {
        p
    } else {
        choice_added(choices_added(p, choices.drop_last(), chunk), choices.last(), chunk)
    }
}

/// What a chunk adds.
pub open spec fn chunk_added(p: Progress, chunk: JsonView) -> Progress {
    match chunk.array_at("choices"@) {
        Some(choices) => choices_added(p, choices, chunk),
        None => p,
    }
}

fn add_piece(states: &mut Vec<ToolCallAccumulator>, tc: &Json)
    ensures
        final(states).deep_view() == with_piece(old(states).deep_view(), tc.deep_view()),
{
    let ghost before = states.deep_view();
    let ghost v = tc.deep_view();
    let idx: usize = match tc.u64_at("index") {
        Some(n) => n as usize,
        None => 0,
    };
    assert(idx as int == call_index(v));
    while states.len() <= idx
        invariant
            padded(states.deep_view(), idx + 1) == padded(before, idx + 1),
        decreases idx + 1 - states.deep_view().len(),
    {
        assert(states.deep_view().len() == states@.len());
        push_one(states, ToolCallAccumulator::default());
    }
    let ghost p = states.deep_view();
    assert(p.len() == states@.len());
    assert(p == padded(before, idx + 1));
    let mut c = states[idx].replicate();
    assert(c.deep_view() == p[idx as int]);
    if let Some(id) = tc.str_at("id") {
        c.id = id;
    }
    if let Some(f) = tc.get("function") {
        if let Some(name) = f.str_at("name") {
            c.name = name;
        }
        if let Some(args) = f.str_at("arguments") {
            c.arguments.append(args.as_str());
        }
    }
    assert(c.deep_view() =~= call_grown(p[idx as int], v));
    states.set(idx, c);
    assert(states.deep_view() =~= p.update(idx as int, call_grown(p[idx as int], v)));
}

fn add_pieces(states: &mut Vec<ToolCallAccumulator>, pieces: &Vec<Json>)
    ensures
        final(states).deep_view() == with_pieces(old(states).deep_view(), pieces.deep_view()),
{
    let ghost start = states.deep_view();
    let ghost all = pieces.deep_view();
    let mut i: usize = 0;
    assert(all.take(0) =~= Seq::<JsonView>::empty());
    while i < pieces.len()
        invariant
            i <= pieces@.len(),
            all == pieces.deep_view(),
            states.deep_view() == with_pieces(start, all.take(i as int)),
        decreases pieces@.len() - i,
    {
        proof {
            lemma_take_step(all, i as int);
            assert(all[i as int] == pieces@[i as int].deep_view());
        }
        add_piece(states, &pieces[i]);
        i = i + 1;
    }
    proof {
        lemma_take_all(all);
    }
}

fn make_call_events(c: &ToolCallAccumulator) -> (r: Vec<StreamEvent>)
    ensures
        r.deep_view() == call_events(c.deep_view()),
{
    let mut r: Vec<StreamEvent> = no_items();
    push_one(&mut r, StreamEvent::ToolCallStart { id: c.id.clone(), name: c.name.clone() });
    push_one(
        &mut r,
        StreamEvent::ToolCallDelta { tool_use_id: c.id.clone(), delta: c.arguments.clone() },
    );
    r
}

/// Makes events of the tool calls, which are complete.
pub fn finalize_tool_calls(
    tool_call_states: &mut Vec<ToolCallAccumulator>,
    events: &mut Vec<StreamEvent>,
)
    ensures
        (Progress {
            calls: final(tool_call_states).deep_view(),
            events: final(events).deep_view(),
        }) == finalized(
            Progress {
                calls: old(tool_call_states).deep_view(),
                events: old(events).deep_view(),
            },
        ),
{
    let f = |c: &ToolCallAccumulator| -> (r: Vec<StreamEvent>)
        ensures r.deep_view() == call_events(c.deep_view())
    {
        make_call_events(c)
    };
    let more = flat_map_each(
        tool_call_states.as_slice(),
        f,
        Ghost(|c: ToolCallAccumulatorView| call_events(c)),
    );
    append_all(events, more);
    *tool_call_states = no_items();
}

fn make_usage(chunk: &Json) -> (r: Option<TokenUsage>)
    ensures
        r == chunk_usage(chunk.deep_view()),
{
    match chunk.get("usage") {
        Some(u) => {
            let prompt_tokens: u64 = match u.u64_at("prompt_tokens") {
                Some(n) => n,
                None => 0,
            };
            let completion_tokens: u64 = match u.u64_at("completion_tokens") {
                Some(n) => n,
                None => 0,
            };
            let total_tokens: u64 = match u.u64_at("total_tokens") {
                Some(n) => n,
                None => 0,
            };
            Some(
                TokenUsage {
                    prompt_tokens,
                    completion_tokens,
                    total_tokens,
                    cache_creation_input_tokens: 0,
                    cache_read_input_tokens: 0,
                },
            )
        },
        None => None,
    }
}

fn add_delta(
    delta: &Json,
    tool_call_states: &mut Vec<ToolCallAccumulator>,
    events: &mut Vec<StreamEvent>,
)
    ensures
        (Progress {
            calls: final(tool_call_states).deep_view(),
            events: final(events).deep_view(),
        }) == delta_added(
            Progress {
                calls: old(tool_call_states).deep_view(),
                events: old(events).deep_view(),
            },
            delta.deep_view(),
        ),
{
    let ghost e = events.deep_view();
    if let Some(content) = delta.str_at("content") {
        if !content.as_str().is_empty() {
            push_one(events, StreamEvent::TextDelta { text: content });
        }
    }
    if let Some(reasoning) = delta.str_at("reasoning_content") {
        if !reasoning.as_str().is_empty() {
            push_one(events, StreamEvent::ThinkingDelta { content: reasoning });
        }
    }
    assert(events.deep_view() =~= e + delta_events(delta.deep_view()));
    if let Some(pieces) = delta.array_at("tool_calls") {
        add_pieces(tool_call_states, pieces);
    }
}

fn add_choice(
    choice: &Json,
    chunk: &Json,
    tool_call_states: &mut Vec<ToolCallAccumulator>,
    events: &mut Vec<StreamEvent>,
)
    ensures
        (Progress {
            calls: final(tool_call_states).deep_view(),
            events: final(events).deep_view(),
        }) == choice_added(
            Progress {
                calls: old(tool_call_states).deep_view(),
                events: old(events).deep_view(),
            },
            choice.deep_view(),
            chunk.deep_view(),
        ),
{
    if let Some(delta) = choice.get("delta") {
        add_delta(delta, tool_call_states, events);
    }
    if let Some(s) = choice.str_at("finish_reason") {
        let reason = FinishReason::from_api_str(s.as_str());
        if reason == FinishReason::ToolUse {
            finalize_tool_calls(tool_call_states, events);
        }
        let usage = make_usage(chunk);
        push_one(events, StreamEvent::Done { finish_reason: Some(reason), usage });
    }
}

/// Adds what a chunk tells: text, pieces of tool calls, and the end.
pub fn process_chunk(
    chunk: &Json,
    tool_call_states: &mut Vec<ToolCallAccumulator>,
    events: &mut Vec<StreamEvent>,
)
    ensures
        (Progress {
            calls: final(tool_call_states).deep_view(),
            events: final(events).deep_view(),
        }) == chunk_added(
            Progress {
                calls: old(tool_call_states).deep_view(),
                events: old(events).deep_view(),
            },
            chunk.deep_view(),
        ),
{
    if let Some(choices) = chunk.array_at("choices") {
        let ghost start = Progress {
            calls: tool_call_states.deep_view(),
            events: events.deep_view(),
        };
        let ghost all = choices.deep_view();
        let ghost c = chunk.deep_view();
        let mut i: usize = 0;
        assert(all.take(0) =~= Seq::<JsonView>::empty());
        while i < choices.len()
            invariant
                i <= choices@.len(),
                all == choices.deep_view(),
                c == chunk.deep_view(),
                (Progress {
                    calls: tool_call_states.deep_view(),
                    events: events.deep_view(),
                }) == choices_added(start, all.take(i as int), c),
            decreases choices@.len() - i,
        {
            proof {
                lemma_take_step(all, i as int);
                assert(all[i as int] == choices@[i as int].deep_view());
            }
            add_choice(&choices[i], chunk, tool_call_states, events);
            i = i + 1;
        }
        proof {
            lemma_take_all(all);
        }
    }
}

// ---------------------------------------------------------------------------
// A whole body
// ---------------------------------------------------------------------------

/// The lines of a text, without the space around them.
pub open spec fn bare_lines(text: Seq<char>) -> Seq<Seq<char>> {
    split_at_chars(text, |c: char| seq!['\n'].contains(c)).map_values(
        |s: Seq<char>| trimmed(s),
    )
}

/// What a line of a body says: nothing where it is empty or a comment.
pub open spec fn line_data(line: Seq<char>) -> Option<Seq<char>> {
    if line.len() == 0 || line[0] == ':' {
        None
    } else {
        match strip_prefix_of(line, "data: "@) {
            Some(data) => Some(data),
            None => Some(line),
        }
    }
}

/// What a body has given so far, and whether it is at its end.
#[verifier::ext_equal]
pub struct Reading {
    pub progress: Progress,
    pub done: bool,
}

/// What the data of a line adds. What is no JSON is passed over.
pub open spec fn data_added(r: Reading, data: Seq<char>) -> Reading {
    if r.done {
        r
    } else if data == "[DONE]"@ {
        let p = finalized(r.progress);
        Reading {
            progress: Progress {
                events: p.events.push(StreamEventView::Done { finish_reason: None, usage: None }),
                ..p
            },
            done: true,
        }
    } else {
        match json_of_text(data) {
            Ok(chunk) => Reading { progress: chunk_added(r.progress, chunk), ..r },
            Err(_) => r,
        }
    }
}

/// What the lines of a body add.
pub open spec fn lines_added(lines: Seq<Seq<char>>) -> Reading
    decreases lines.len(),
{
    if lines.len() == 0 {
        Reading {
            progress: Progress { calls: Seq::empty(), events: Seq::empty() },
            done: false,
        }
    } else {
        let before = lines_added(lines.drop_last());
        match line_data(lines.last()) {
            Some(data) => data_added(before, data),
            None => before,
        }
    }
}

fn split_bare_lines(text: &str) -> (r: Vec<String>)
    ensures
        r.deep_view() == bare_lines(text@),
{
    let set: [char; 1] = ['\n'];
    assert(set@ =~= seq!['\n']);
    let lines = split_any(text, &set);
    let f = |s: &String| -> (r: String)
        ensures r.deep_view() == trimmed(s.deep_view())
    {
        trim(s.as_str())
    };
    map_each(lines.as_slice(), f, Ghost(|s: Seq<char>| trimmed(s)))
}

fn starts_with_colon(line: &str) -> (r: bool)
    requires
        line@.len() > 0,
    ensures
        r == (line@[0] == ':'),
{
    proof {
        reveal_strlit(":");
        assert(line@.subrange(0, 1) =~= seq![line@[0]]);
        assert(":"@ =~= seq![':']);
        assert(seq![line@[0]][0] == line@[0]);
        assert(seq![':'][0] == ':');
    }
    starts_with(line, ":")
}

fn find_line_data(line: &str) -> (r: Option<String>)
    ensures
        r.deep_view() == line_data(line@),
{
    if line.is_empty() || starts_with_colon(line) {
        return None;
    }
    match strip_prefix(line, "data: ") {
        Some(data) => Some(data),
        None => Some(line.to_owned()),
    }
}

proof fn lemma_done_stays(lines: Seq<Seq<char>>, i: int)
    requires
        0 <= i <= lines.len(),
        lines_added(lines.take(i)).done,
    ensures
        lines_added(lines) == lines_added(lines.take(i)),
    decreases lines.len() - i,
{
    if i < lines.len() {
        lemma_take_step(lines, i);
        lemma_done_stays(lines, i + 1);
    } else {
        lemma_take_all(lines);
    }
}

/// The events of a whole body. What comes after the line that ends it is not
/// looked at.
pub fn parse_sse_body(body: &str) -> (r: Vec<StreamEvent>)
    ensures
        r.deep_view() == lines_added(bare_lines(body@)).progress.events,
{
    let lines = split_bare_lines(body);
    let ghost all = lines.deep_view();
    let mut events: Vec<StreamEvent> = no_items();
    let mut states: Vec<ToolCallAccumulator> = no_items();
    let mut i: usize = 0;
    assert(all.take(0) =~= Seq::<Seq<char>>::empty());
    while i < lines.len()
        invariant
            i <= lines@.len(),
            all == lines.deep_view(),
            all == bare_lines(body@),
            (Reading {
                progress: Progress { calls: states.deep_view(), events: events.deep_view() },
                done: false,
            }) == lines_added(all.take(i as int)),
        decreases lines@.len() - i,
    {
        proof {
            lemma_take_step(all, i as int);
            assert(all[i as int] == lines@[i as int]@);
        }
        if let Some(data) = find_line_data(lines[i].as_str()) {
            if same(data.as_str(), "[DONE]") {
                finalize_tool_calls(&mut states, &mut events);
                push_one(&mut events, StreamEvent::Done { finish_reason: None, usage: None });
                proof {
                    lemma_done_stays(all, i + 1);
                }
                return events;
            }
            if let Ok(chunk) = Json::parse(data.as_str()) {
                process_chunk(&chunk, &mut states, &mut events);
            }
        }
        i = i + 1;
    }
    proof {
        lemma_take_all(all);
    }
    events
}

// ---------------------------------------------------------------------------
// Bytes as they come in
// ---------------------------------------------------------------------------

/// A frame ends at `i`: there are two line ends.
pub open spec fn frame_ends_at(b: Seq<u8>, i: int) -> bool {
    0 <= i && i + 1 < b.len() && b[i] == 10 && b[i + 1] == 10
}

/// Where the first frame ends at or after `from`.
pub open spec fn frame_end_from(b: Seq<u8>, from: int) -> Option<int>
    decreases b.len() - from,
{
    if from < 0 || from + 1 >= b.len() {
        None
    } else if frame_ends_at(b, from) {
        Some(from)
    } else {
        frame_end_from(b, from + 1)
    }
}

/// Where the first frame ends.
pub open spec fn frame_end(b: Seq<u8>) -> Option<int> {
    frame_end_from(b, 0)
}

/// The data lines of a frame.
pub open spec fn data_lines(text: Seq<char>) -> Seq<Seq<char>> {
    bare_lines(text).filter_map(|line: Seq<char>| strip_prefix_of(line, "data: "@))
}

/// What a frame says; nothing where it has no data.
pub open spec fn frame_data(text: Seq<char>) -> Option<Seq<char>> {
    if data_lines(text).len() == 0 {
        None
    } else {
        Some(joined(data_lines(text), "\n"@))
    }
}

/// What the first frame says, and the bytes after it. A frame that says nothing
/// is taken away all the same.
pub open spec fn frame_taken(b: Seq<u8>) -> (Option<Seq<char>>, Seq<u8>) {
    match frame_end(b) {
        Some(i) => (frame_data(lossy_text_of(b.take(i + 2))), b.skip(i + 2)),
        None => (None, b),
    }
}

proof fn lemma_frame_end_from(b: Seq<u8>, from: int)
    requires
        0 <= from,
    ensures
        match frame_end_from(b, from) {
            Some(i) => from <= i && frame_ends_at(b, i) && forall|k: int|
                from <= k < i ==> !#[trigger] frame_ends_at(b, k),
            None => forall|k: int| from <= k ==> !#[trigger] frame_ends_at(b, k),
        },
    decreases b.len() - from,
{
    if from + 1 < b.len() && !frame_ends_at(b, from) {
        lemma_frame_end_from(b, from + 1);
    }
}

pub(crate) proof fn lemma_frame_end_is(b: Seq<u8>, from: int, i: int)
    requires
        0 <= from <= i,
        frame_ends_at(b, i),
        forall|k: int| from <= k < i ==> !#[trigger] frame_ends_at(b, k),
    ensures
        frame_end_from(b, from) == Some(i),
    decreases i - from,
{
    if from < i {
        assert(!frame_ends_at(b, from));
        lemma_frame_end_is(b, from + 1, i);
    }
}

fn find_frame_end(b: &Vec<u8>) -> (r: Option<usize>)
    ensures
        match r {
            Some(i) => frame_end(b@) == Some(i as int) && i + 1 < b@.len(),
            None => frame_end(b@) is None,
        },
{
    let total: usize = b.len();
    if total < 2 {
        return None;
    }
    let mut i: usize = 0;
    while i < total - 1
        invariant
            2 <= total == b@.len(),
            i <= total - 1,
            frame_end(b@) == frame_end_from(b@, i as int),
        decreases total - i,
    {
        if b[i] == 10 && b[i + 1] == 10 {
            return Some(i);
        }
        i = i + 1;
    }
    None
}

/// What the text of a frame says: its data lines, one after the other.
pub fn read_frame(text: &str) -> (r: Option<String>)
    ensures
        r.deep_view() == frame_data(text@),
{
    let lines = split_bare_lines(text);
    let f = |line: &String| -> (r: Option<String>)
        ensures r.deep_view() == strip_prefix_of(line.deep_view(), "data: "@)
    {
        strip_prefix(line.as_str(), "data: ")
    };
    let data = filter_map_each(
        lines.as_slice(),
        f,
        Ghost(|line: Seq<char>| strip_prefix_of(line, "data: "@)),
    );
    assert(data.deep_view().len() == data@.len());
    if data.len() == 0 {
        None
    } else {
        Some(join(data.as_slice(), "\n"))
    }
}

/// Takes the first complete frame out of the bytes that came in, and says what
/// it says.
pub fn extract_sse_frame(buffer: &mut Vec<u8>) -> (r: Option<String>)
    ensures
        (r.deep_view(), final(buffer)@) == frame_taken(old(buffer)@),
{
    match find_frame_end(buffer) {
        Some(i) => {
            let ghost b = buffer@;
            let total: usize = buffer.len();
            assert(i + 2 <= total);
            let rest = buffer.split_off(i + 2);
            assert(rest@ =~= b.skip(i + 2));
            assert(buffer@ =~= b.take(i + 2));
            let text = lossy_text(buffer.as_slice());
            *buffer = rest;
            read_frame(text.as_str())
        },
        None => None,
    }
}

/// The events of one payload: nothing where it says nothing.
pub open spec fn payload_events(data: Seq<char>) -> Option<Seq<StreamEventView>> {
    if trimmed(data) == "[DONE]"@ {
        Some(seq![StreamEventView::Done { finish_reason: None, usage: None }])
    } else {
        match json_of_text(data) {
            Ok(chunk) => chunk_events(chunk),
            Err(_) => None,
        }
    }
}

/// The events of one chunk on its own: nothing where it has none.
pub open spec fn chunk_events(chunk: JsonView) -> Option<Seq<StreamEventView>> {
    let p = chunk_added(Progress { calls: Seq::empty(), events: Seq::empty() }, chunk);
    if p.events.len() == 0 {
        None
    } else {
        Some(p.events)
    }
}

/// The events of one chunk on its own: nothing where it has none.
pub fn events_of_chunk(chunk: &Json) -> (r: Option<Vec<StreamEvent>>)
    ensures
        r.deep_view() == chunk_events(chunk.deep_view()),
{
    let mut events: Vec<StreamEvent> = no_items();
    let mut states: Vec<ToolCallAccumulator> = no_items();
    process_chunk(chunk, &mut states, &mut events);
    assert(events.deep_view().len() == events@.len());
    if events.len() == 0 {
        None
    } else {
        Some(events)
    }
}

/// The events of one payload: nothing where it says nothing.
pub fn parse_single_sse_data(data: &str) -> (r: Option<Vec<StreamEvent>>)
    ensures
        r.deep_view() == payload_events(data@),
{
    let bare = trim(data);
    if same(bare.as_str(), "[DONE]") {
        let mut events: Vec<StreamEvent> = no_items();
        push_one(&mut events, StreamEvent::Done { finish_reason: None, usage: None });
        assert(events.deep_view() =~= seq![
            StreamEventView::Done { finish_reason: None, usage: None },
        ]);
        return Some(events);
    }
    match Json::parse(data) {
        Ok(chunk) => events_of_chunk(&chunk),
        Err(_) => None,
    }
}

/// The events of what a frame says.
pub open spec fn events_or_none(data: Seq<char>) -> Seq<StreamEventView> {
    match payload_events(data) {
        Some(e) => e,
        None => Seq::empty(),
    }
}

/// The events of the complete frames, and the bytes that are left. It stops at
/// a frame that says nothing.
pub open spec fn drained(b: Seq<u8>) -> (Seq<StreamEventView>, Seq<u8>)
    decreases b.len(),
{
    match frame_end(b) {
        None => (Seq::empty(), b),
        Some(i) => if i < 0 || i + 1 >= b.len() {
            (Seq::empty(), b)
        } else {
            let rest = b.skip(i + 2);
            match frame_data(lossy_text_of(b.take(i + 2))) {
                None => (Seq::empty(), rest),
                Some(data) => {
                    let later = drained(rest);
                    (events_or_none(data) + later.0, later.1)
                },
            }
        },
    }
}

/// The events of the lines that are left when the bytes come to an end.
pub open spec fn tail_events(text: Seq<char>) -> Seq<StreamEventView> {
    flat_mapped(data_lines(text), |data: Seq<char>| events_or_none(data))
}

fn make_events_or_none(data: &str) -> (r: Vec<StreamEvent>)
    ensures
        r.deep_view() == events_or_none(data@),
{
    match parse_single_sse_data(data) {
        Some(e) => e,
        None => no_items(),
    }
}

/// A reply whose bytes are coming in.
#[derive(Debug)]
pub struct SseStream {
    pub buffer: Vec<u8>,
}

impl SseStream {
    /// No bytes came in yet.
    pub fn new() -> (r: Self)
        ensures
            r.buffer@ == Seq::<u8>::empty(),
    {
        SseStream { buffer: Vec::new() }
    }

    /// Takes in more bytes, and gives the events of the frames that are
    /// complete now.
    pub fn feed(&mut self, bytes: &[u8]) -> (r: Vec<StreamEvent>)
        ensures
            (r.deep_view(), final(self).buffer@) == drained(old(self).buffer@ + bytes@),
    {
        let ghost start = self.buffer@ + bytes@;
        self.buffer.extend_from_slice(bytes);
        assert(self.buffer@ =~= start);
        let mut events: Vec<StreamEvent> = no_items();
        loop
            invariant
                start == old(self).buffer@ + bytes@,
                (events.deep_view() + drained(self.buffer@).0, drained(self.buffer@).1) == drained(
                    start,
                ),
            decreases self.buffer@.len(),
        {
            let ghost b = self.buffer@;
            let ghost e = events.deep_view();
            proof {
                lemma_frame_end_from(b, 0);
            }
            match extract_sse_frame(&mut self.buffer) {
                Some(data) => {
                    let more = make_events_or_none(data.as_str());
                    append_all(&mut events, more);
                    assert(e + (events_or_none(data@) + drained(self.buffer@).0) =~= (e
                        + events_or_none(data@)) + drained(self.buffer@).0);
                },
                None => {
                    assert(e + Seq::<StreamEventView>::empty() =~= e);
                    return events;
                },
            }
        }
    }

    /// Gives the events of what is left when the bytes come to an end.
    pub fn finish(&self) -> (r: Vec<StreamEvent>)
        ensures
            r.deep_view() == if self.buffer@.len() == 0 {
                Seq::empty()
            } else {
                tail_events(lossy_text_of(self.buffer@))
            },
    {
        if self.buffer.len() == 0 {
            return no_items();
        }
        let text = lossy_text(self.buffer.as_slice());
        let lines = split_bare_lines(text.as_str());
        let f = |line: &String| -> (r: Option<String>)
            ensures r.deep_view() == strip_prefix_of(line.deep_view(), "data: "@)
        {
            strip_prefix(line.as_str(), "data: ")
        };
        let data = filter_map_each(
            lines.as_slice(),
            f,
            Ghost(|line: Seq<char>| strip_prefix_of(line, "data: "@)),
        );
        let g = |d: &String| -> (r: Vec<StreamEvent>)
            ensures r.deep_view() == events_or_none(d.deep_view())
        {
            make_events_or_none(d.as_str())
        };
        flat_map_each(data.as_slice(), g, Ghost(|d: Seq<char>| events_or_none(d)))
    }
}

// ---------------------------------------------------------------------------
// Laws
// ---------------------------------------------------------------------------

/// Each complete frame says something.
pub open spec fn every_frame_speaks(b: Seq<u8>) -> bool
    decreases b.len(),
{
    match frame_end(b) {
        None => true,
        Some(i) => if i < 0 || i + 1 >= b.len() {
            true
        } else {
            frame_data(lossy_text_of(b.take(i + 2))) is Some && every_frame_speaks(b.skip(i + 2))
        },
    }
}

/// Where each frame says something, the events do not depend on how the bytes
/// were cut on their way: bytes that come in two pieces give the events that
/// they give together, and leave the same bytes.
pub proof fn law_events_do_not_depend_on_cuts(a: Seq<u8>, b: Seq<u8>)
    requires
        every_frame_speaks(a + b),
    ensures
        drained(a + b).0 == drained(a).0 + drained(drained(a).1 + b).0,
        drained(a + b).1 == drained(drained(a).1 + b).1,
    decreases a.len(),
{
    lemma_frame_end_from(a, 0);
    match frame_end(a) {
        None => {
            assert(Seq::<StreamEventView>::empty() + drained(a + b).0 =~= drained(a + b).0);
        },
        Some(i) => {
            let w = a + b;
            assert forall|k: int| 0 <= k < i implies !#[trigger] frame_ends_at(w, k) by {
                assert(!frame_ends_at(a, k));
            }
            assert(frame_ends_at(w, i));
            lemma_frame_end_is(w, 0, i);
            assert(w.take(i + 2) =~= a.take(i + 2));
            assert(w.skip(i + 2) =~= a.skip(i + 2) + b);
            law_events_do_not_depend_on_cuts(a.skip(i + 2), b);
            let e = events_or_none(frame_data(lossy_text_of(a.take(i + 2)))->0);
            let x = drained(a.skip(i + 2));
            assert((e + x.0) + drained(x.1 + b).0 =~= e + (x.0 + drained(x.1 + b).0));
        },
    }
}

/// No byte is made up or comes back: what is left is the end of what came in.
pub proof fn law_what_is_left_came_in(b: Seq<u8>)
    ensures
        drained(b).1.len() <= b.len(),
        drained(b).1 == b.skip(b.len() - drained(b).1.len()),
    decreases b.len(),
{
    lemma_frame_end_from(b, 0);
    match frame_end(b) {
        None => {
            assert(b.skip(0) =~= b);
        },
        Some(i) => {
            let rest = b.skip(i + 2);
            if frame_data(lossy_text_of(b.take(i + 2))) is Some {
                law_what_is_left_came_in(rest);
                let left = drained(rest).1;
                assert(rest.skip(rest.len() - left.len()) =~= b.skip(b.len() - left.len()));
            }
        },
    }
}

/// The part of the arguments that a piece has.
pub open spec fn fragment(tc: JsonView) -> Seq<char> {
    match tc.get("function"@) {
        Some(f) => match f.str_at("arguments"@) {
            Some(args) => args,
            None => ""@,
        },
        None => ""@,
    }
}

/// The pieces of call `i` put together: the id and the name that were given
/// last, and the fragments of the arguments one after the other.
pub open spec fn call_from(pieces: Seq<JsonView>, i: int) -> ToolCallAccumulatorView
    decreases pieces.len(),
{
    if pieces.len() == 0 {
        no_call()
    } else {
        let before = call_from(pieces.drop_last(), i);
        let tc = pieces.last();
        if call_index(tc) == i {
            ToolCallAccumulatorView {
                id: match tc.str_at("id"@) {
                    Some(id) => id,
                    None => before.id,
                },
                name: match tc.get("function"@) {
                    Some(f) => match f.str_at("name"@) {
                        Some(name) => name,
                        None => before.name,
                    },
                    None => before.name,
                },
                arguments: before.arguments + fragment(tc),
            }
        } else {
            before
        }
    }
}

proof fn lemma_padded(s: Seq<ToolCallAccumulatorView>, n: int)
    ensures
        padded(s, n).len() == if s.len() >= n {
            s.len() as int
        } else {
            n
        },
        forall|i: int|
            0 <= i < padded(s, n).len() ==> #[trigger] padded(s, n)[i] == if i < s.len() {
                s[i]
            } else {
                no_call()
            },
    decreases n - s.len(),
{
    if s.len() < n {
        lemma_padded(s.push(no_call()), n);
    }
}

/// Each streamed call has its own pieces only, joined in the order in which
/// they came, whatever came between them.
pub proof fn law_pieces_of_a_call_are_joined(pieces: Seq<JsonView>, i: int)
    requires
        0 <= i,
    ensures
        i < with_pieces(Seq::empty(), pieces).len() ==> with_pieces(Seq::empty(), pieces)[i]
            == call_from(pieces, i),
        i >= with_pieces(Seq::empty(), pieces).len() ==> call_from(pieces, i) == no_call(),
    decreases pieces.len(),
{
    if pieces.len() > 0 {
        let tc = pieces.last();
        let before = with_pieces(Seq::empty(), pieces.drop_last());
        law_pieces_of_a_call_are_joined(pieces.drop_last(), i);
        let k = call_index(tc);
        lemma_padded(before, k + 1);
        let p = padded(before, k + 1);
        if k == i {
            let c = call_from(pieces.drop_last(), i);
            assert(p[i] == c);
            reveal_strlit("");
            assert(c.arguments + ""@ =~= c.arguments);
            assert(call_grown(p[i], tc) =~= call_from(pieces, i));
        }
    }
}

/// What several chunks add, one after the other.
pub open spec fn chunks_added(p: Progress, chunks: Seq<JsonView>) -> Progress
    decreases chunks.len(),
{
    if chunks.len() == 0 {
        p
    } else {
        chunk_added(chunks_added(p, chunks.drop_last()), chunks.last())
    }
}

/// The choice of a chunk that has one.
pub open spec fn only_choice(chunk: JsonView) -> Option<JsonView> {
    match chunk.array_at("choices"@) {
        Some(choices) => if choices.len() == 1 {
            Some(choices[0])
        } else {
            None
        },
        None => None,
    }
}

/// A chunk with one choice that does not end the reply.
pub open spec fn goes_on(chunk: JsonView) -> bool {
    only_choice(chunk) is Some && only_choice(chunk)->0.str_at("finish_reason"@) is None
}

/// The pieces of tool calls in a chunk with one choice.
pub open spec fn pieces_in(chunk: JsonView) -> Seq<JsonView> {
    match only_choice(chunk) {
        Some(choice) => match choice.get("delta"@) {
            Some(d) => match d.array_at("tool_calls"@) {
                Some(pieces) => pieces,
                None => Seq::empty(),
            },
            None => Seq::empty(),
        },
        None => Seq::empty(),
    }
}

/// The pieces of tool calls in several chunks, in their order.
pub open spec fn all_pieces(chunks: Seq<JsonView>) -> Seq<JsonView> {
    flat_mapped(chunks, |c: JsonView| pieces_in(c))
}

/// A chunk with one choice that ends the reply with tool calls and adds nothing
/// else.
pub open spec fn ends_with_calls(chunk: JsonView) -> bool {
    match only_choice(chunk) {
        Some(choice) => {
            &&& choice.str_at("finish_reason"@) is Some
            &&& finish_reason_of(choice.str_at("finish_reason"@)->0) == FinishReason::ToolUse
            &&& pieces_in(chunk).len() == 0
            &&& choice.get("delta"@) is Some ==> delta_events(choice.get("delta"@)->0).len() == 0
        },
        None => false,
    }
}

/// An event that tells of a text and not of a tool.
pub open spec fn tells_text(e: StreamEventView) -> bool {
    e is TextDelta || e is ThinkingDelta
}

proof fn lemma_one_choice(p: Progress, chunk: JsonView)
    requires
        only_choice(chunk) is Some,
    ensures
        chunk_added(p, chunk) == choice_added(p, only_choice(chunk)->0, chunk),
{
    let choices = chunk.array_at("choices"@)->0;
    assert(choices.drop_last() =~= Seq::<JsonView>::empty());
    reveal_with_fuel(choices_added, 2);
}

proof fn lemma_pieces_add_up(
    s: Seq<ToolCallAccumulatorView>,
    a: Seq<JsonView>,
    b: Seq<JsonView>,
)
    ensures
        with_pieces(s, a + b) == with_pieces(with_pieces(s, a), b),
    decreases b.len(),
{
    if b.len() == 0 {
        assert(a + b =~= a);
    } else {
        assert((a + b).drop_last() =~= a + b.drop_last());
        lemma_pieces_add_up(s, a, b.drop_last());
    }
}

proof fn lemma_chunks_add_pieces(events: Seq<StreamEventView>, chunks: Seq<JsonView>)
    requires
        forall|i: int| 0 <= i < chunks.len() ==> goes_on(#[trigger] chunks[i]),
    ensures
        ({
            let p = chunks_added(Progress { calls: Seq::empty(), events }, chunks);
            &&& p.calls == with_pieces(Seq::empty(), all_pieces(chunks))
            &&& events.len() <= p.events.len()
            &&& p.events.take(events.len() as int) == events
            &&& forall|i: int|
                events.len() <= i < p.events.len() ==> tells_text(#[trigger] p.events[i])
        }),
    decreases chunks.len(),
{
    let p = chunks_added(Progress { calls: Seq::empty(), events }, chunks);
    if chunks.len() == 0 {
        assert(events.take(events.len() as int) =~= events);
    } else {
        let rest = chunks.drop_last();
        let chunk = chunks.last();
        assert(goes_on(chunks[chunks.len() - 1]));
        assert forall|i: int| 0 <= i < rest.len() implies goes_on(#[trigger] rest[i]) by {
            assert(rest[i] == chunks[i]);
        }
        lemma_chunks_add_pieces(events, rest);
        let q = chunks_added(Progress { calls: Seq::empty(), events }, rest);
        lemma_one_choice(q, chunk);
        lemma_pieces_add_up(Seq::empty(), all_pieces(rest), pieces_in(chunk));
        assert(all_pieces(chunks) == all_pieces(rest) + pieces_in(chunk));
        let choice = only_choice(chunk)->0;
        match choice.get("delta"@) {
            Some(d) => {
                let more = delta_events(d);
                assert(p.events == q.events + more);
                assert(forall|i: int| 0 <= i < more.len() ==> tells_text(#[trigger] more[i]));
                assert forall|i: int| events.len() <= i < p.events.len() implies tells_text(
                    #[trigger] p.events[i],
                ) by {
                    if i < q.events.len() {
                        assert(p.events[i] == q.events[i]);
                    } else {
                        assert(p.events[i] == more[i - q.events.len()]);
                    }
                }
                assert(p.events.take(events.len() as int) =~= q.events.take(events.len() as int));
            },
            None => {},
        }
    }
}

/// A tool call that comes in over several chunks comes out once, when the reply
/// ends, with its fragments joined in their order; until then no event tells of
/// a tool.
pub proof fn law_a_streamed_call_comes_out_whole(
    events: Seq<StreamEventView>,
    chunks: Seq<JsonView>,
    end: JsonView,
)
    requires
        forall|i: int| 0 <= i < chunks.len() ==> goes_on(#[trigger] chunks[i]),
        all_pieces(chunks).len() > 0,
        forall|i: int|
            0 <= i < all_pieces(chunks).len() ==> call_index(
                #[trigger] all_pieces(chunks)[i],
            ) == 0,
        ends_with_calls(end),
    ensures
        ({
            let before = chunks_added(Progress { calls: Seq::empty(), events }, chunks);
            let c = call_from(all_pieces(chunks), 0);
            &&& events.len() <= before.events.len()
            &&& before.events.take(events.len() as int) == events
            &&& forall|i: int|
                events.len() <= i < before.events.len() ==> tells_text(
                    #[trigger] before.events[i],
                )
            &&& chunk_added(before, end) == (Progress {
                calls: Seq::empty(),
                events: before.events + seq![
                    StreamEventView::ToolCallStart { id: c.id, name: c.name },
                    StreamEventView::ToolCallDelta { tool_use_id: c.id, delta: c.arguments },
                    StreamEventView::Done {
                        finish_reason: Some(FinishReason::ToolUse),
                        usage: chunk_usage(end),
                    },
                ],
            })
        }),
{
    let pieces = all_pieces(chunks);
    let before = chunks_added(Progress { calls: Seq::empty(), events }, chunks);
    lemma_chunks_add_pieces(events, chunks);
    lemma_only_call(pieces);
    let c = call_from(pieces, 0);
    assert(before.calls == seq![c]);
    lemma_one_choice(before, end);
    let choice = only_choice(end)->0;
    let with_delta = match choice.get("delta"@) {
        Some(d) => delta_added(before, d),
        None => before,
    };
    assert(with_delta =~= before) by {
        match choice.get("delta"@) {
            Some(d) => {
                assert(before.events + delta_events(d) =~= before.events);
                match d.array_at("tool_calls"@) {
                    Some(none) => {
                        assert(none =~= Seq::<JsonView>::empty());
                    },
                    None => {},
                }
            },
            None => {},
        }
    }
    let f = |c: ToolCallAccumulatorView| call_events(c);
    assert(flat_mapped(seq![c], f) =~= call_events(c)) by {
        reveal_with_fuel(flat_mapped, 2);
        assert(seq![c].drop_last() =~= Seq::<ToolCallAccumulatorView>::empty());
        assert(Seq::<StreamEventView>::empty() + call_events(c) =~= call_events(c));
    }
    assert(chunk_added(before, end).events =~= before.events + seq![
        StreamEventView::ToolCallStart { id: c.id, name: c.name },
        StreamEventView::ToolCallDelta { tool_use_id: c.id, delta: c.arguments },
        StreamEventView::Done {
            finish_reason: Some(FinishReason::ToolUse),
            usage: chunk_usage(end),
        },
    ]);
}

proof fn lemma_only_call(pieces: Seq<JsonView>)
    requires
        pieces.len() > 0,
        forall|i: int| 0 <= i < pieces.len() ==> call_index(#[trigger] pieces[i]) == 0,
    ensures
        with_pieces(Seq::empty(), pieces) == seq![call_from(pieces, 0)],
    decreases pieces.len(),
{
    let rest = pieces.drop_last();
    assert(call_index(pieces[pieces.len() - 1]) == 0);
    assert forall|i: int| 0 <= i < rest.len() implies call_index(#[trigger] rest[i]) == 0 by {
        assert(rest[i] == pieces[i]);
    }
    if rest.len() > 0 {
        lemma_only_call(rest);
    }
    lemma_padded(with_pieces(Seq::empty(), rest), 1);
    law_pieces_of_a_call_are_joined(pieces, 0);
    assert(with_pieces(Seq::empty(), pieces).len() == 1);
    assert(with_pieces(Seq::empty(), pieces) =~= seq![call_from(pieces, 0)]);
}

} // verus!
