//! What holds of replies that come in pieces.

use crate::json::json_of_text;
use crate::llm::stream::{
    bare_lines, chunk_added, chunk_events, data_lines, events_or_none, finalized, frame_data,
    line_data, lines_added, payload_events, tail_events,
};
use crate::llm::types::StreamEventView;
use crate::seqs::{lemma_filter_map_contains, lemma_filter_map_from};
use crate::text::{joined, occurs_at, split_at_chars, strip_prefix_of, trimmed};
use crate::text_laws::{law_split_at_separators, lemma_flat_has};
use vstd::prelude::*;

verus! {

/// The lines of a reply are read one after the other: a line without data, and
/// one that cannot be read, changes nothing; the line that ends the reply ends
/// it, and nothing counts after it.
pub proof fn law_lines_are_read_in_turn(
    lines: Seq<Seq<char>>,
    line: Seq<char>,
    data: Seq<char>,
)
    ensures
        lines.len() == 0 ==> lines_added(lines).progress.events.len() == 0 && !lines_added(
            lines,
        ).done,
        line_data(line) is None ==> lines_added(lines.push(line)) == lines_added(lines),
        lines_added(lines).done ==> lines_added(lines.push(line)) == lines_added(lines),
        !lines_added(lines).done && line_data(line) == Some("[DONE]"@) ==> ({
            let r = lines_added(lines.push(line));
            &&& r.done
            &&& r.progress.events.len() > 0
            &&& r.progress.events.last() == (StreamEventView::Done {
                finish_reason: None,
                usage: None,
            })
            &&& r.progress.events.drop_last() == finalized(lines_added(lines).progress).events
        }),
        !lines_added(lines).done && line_data(line) == Some(data) && data != "[DONE]"@
            && json_of_text(data) is Err ==> lines_added(lines.push(line)) == lines_added(lines),
        !lines_added(lines).done && line_data(line) == Some(data) && data != "[DONE]"@
            && json_of_text(data) is Ok ==> !lines_added(lines.push(line)).done && lines_added(
            lines.push(line),
        ).progress == chunk_added(lines_added(lines).progress, json_of_text(data)->Ok_0),
{
    assert(lines.push(line).drop_last() =~= lines);
    if !lines_added(lines).done && line_data(line) == Some("[DONE]"@) {
        let r = lines_added(lines.push(line));
        assert(r.progress.events.drop_last() =~= finalized(lines_added(lines).progress).events);
    }
}

/// A frame speaks where a line of it is marked as data, and then it says what
/// those lines hold behind the mark; one that has no such line says nothing.
pub proof fn law_frame_says_its_data(text: Seq<char>)
    ensures
        frame_data(text) is Some <==> exists|i: int|
            0 <= i < bare_lines(text).len() && occurs_at(
                #[trigger] bare_lines(text)[i],
                "data: "@,
                0,
            ),
        frame_data(text) is Some ==> frame_data(text)->0 == joined(data_lines(text), "\n"@),
        forall|i: int|
            0 <= i < data_lines(text).len() ==> bare_lines(text).contains(
                "data: "@ + #[trigger] data_lines(text)[i],
            ),
{
    let f = |line: Seq<char>| strip_prefix_of(line, "data: "@);
    let lines = bare_lines(text);
    if exists|i: int| 0 <= i < lines.len() && occurs_at(#[trigger] lines[i], "data: "@, 0) {
        let i = choose|i: int|
            0 <= i < lines.len() && occurs_at(#[trigger] lines[i], "data: "@, 0);
        lemma_filter_map_contains(lines, f, i);
    }
    if data_lines(text).len() > 0 {
        let k = lemma_filter_map_from(lines, f, 0);
        assert(occurs_at(lines[k], "data: "@, 0));
    }
    assert forall|i: int| 0 <= i < data_lines(text).len() implies lines.contains(
        "data: "@ + #[trigger] data_lines(text)[i],
    ) by {
        let k = lemma_filter_map_from(lines, f, i);
        assert("data: "@ + data_lines(text)[i] =~= lines[k]);
    }
}

/// The lines of a body are parted by line ends, without white space at their
/// own ends.
pub proof fn law_lines_of_a_body(a: Seq<char>, b: Seq<char>)
    ensures
        bare_lines(a + seq!['\n'] + b) == bare_lines(a) + bare_lines(b),
        (forall|i: int| 0 <= i < a.len() ==> #[trigger] a[i] != '\n') ==> bare_lines(a) == seq![
            trimmed(a),
        ],
{
    let sep = |c: char| seq!['\n'].contains(c);
    let g = |s: Seq<char>| trimmed(s);
    assert forall|c: char| seq!['\n'].contains(c) <==> c == '\n' by {
        assert(seq!['\n'][0] == '\n');
    }
    assert(sep('\n'));
    law_split_at_separators(a, '\n', b, sep);
    let x = split_at_chars(a, sep);
    let y = split_at_chars(b, sep);
    assert((x + y).map_values(g) =~= x.map_values(g) + y.map_values(g));
    if forall|i: int| 0 <= i < a.len() ==> #[trigger] a[i] != '\n' {
        assert forall|i: int| 0 <= i < a.len() implies !sep(#[trigger] a[i]) by {
            assert(a[i] != '\n');
        }
        assert(seq![a].map_values(g) =~= seq![trimmed(a)]);
    }
}

/// A payload that ends the reply says so, one that cannot be read says nothing;
/// and what is left at the end is read payload by payload.
pub proof fn law_payloads_are_told(data: Seq<char>, text: Seq<char>, e: StreamEventView)
    ensures
        trimmed(data) == "[DONE]"@ ==> payload_events(data) == Some(
            seq![StreamEventView::Done { finish_reason: None, usage: None }],
        ),
        trimmed(data) != "[DONE]"@ && json_of_text(data) is Err ==> payload_events(data) is None,
        trimmed(data) != "[DONE]"@ && json_of_text(data) is Ok ==> payload_events(data)
            == chunk_events(json_of_text(data)->Ok_0),
        tail_events(text).contains(e) <==> exists|i: int|
            0 <= i < data_lines(text).len() && payload_events(#[trigger] data_lines(text)[i])
                is Some && payload_events(data_lines(text)[i])->0.contains(e),
{
    let g = |data: Seq<char>| events_or_none(data);
    let lines = data_lines(text);
    lemma_flat_has(lines, g, e);
    if exists|i: int| 0 <= i < lines.len() && g(#[trigger] lines[i]).contains(e) {
        let i = choose|i: int| 0 <= i < lines.len() && g(#[trigger] lines[i]).contains(e);
        assert(payload_events(lines[i]) is Some) by {
            if payload_events(lines[i]) is None {
                assert(!Seq::<StreamEventView>::empty().contains(e));
            }
        }
    }
    if exists|i: int|
        0 <= i < lines.len() && payload_events(#[trigger] lines[i]) is Some && payload_events(
            lines[i],
        )->0.contains(e) {
        let i = choose|i: int|
            0 <= i < lines.len() && payload_events(#[trigger] lines[i]) is Some && payload_events(
                lines[i],
            )->0.contains(e);
        assert(g(lines[i]).contains(e));
    }
}

} // verus!
