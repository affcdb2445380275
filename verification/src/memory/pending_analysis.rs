//! Conversations that wait to be analysed.

use crate::main_brain::tool_loop::head;
use crate::paths::{join_path, path_of};
use crate::replicate::Replicate;
use crate::text::{char_count, decimal, join, joined, number};
use crate::times::{rfc3339_of, write_time};
use vstd::prelude::*;

verus! {

/// Conversations that were not analysed yet.
#[derive(Debug, PartialEq)]
pub struct PendingAnalysis {
    pub conversations: Vec<String>,
    pub session_id: String,
    pub saved_at: String,
}

/// What waits.
#[verifier::ext_equal]
pub struct PendingAnalysisView {
    pub conversations: Seq<Seq<char>>,
    pub session_id: Seq<char>,
    pub saved_at: Seq<char>,
}

impl DeepView for PendingAnalysis {
    type V = PendingAnalysisView;

    open spec fn deep_view(&self) -> PendingAnalysisView {
        PendingAnalysisView {
            conversations: self.conversations.deep_view(),
            session_id: self.session_id@,
            saved_at: self.saved_at@,
        }
    }
}

impl Replicate for PendingAnalysis {
    fn replicate(&self) -> (r: Self) {
        PendingAnalysis {
            conversations: self.conversations.replicate(),
            session_id: self.session_id.clone(),
            saved_at: self.saved_at.clone(),
        }
    }
}

/// A conversation, cut after 500 characters.
pub open spec fn cut_conversation(c: Seq<char>) -> Seq<char> {
    if c.len() > 500 {
        c.take(500) + "..."@
    } else {
        c
    }
}

/// The lines that tell of the conversations.
pub open spec fn pending_lines(p: PendingAnalysisView) -> Seq<Seq<char>> {
    seq![
        "[上次会话记忆（会话 "@ + p.session_id + "，保存于 "@ + p.saved_at
            + "）— 以下是你上次和用户的对话摘要]"@,
        ""@,
    ] + Seq::new(
        p.conversations.len(),
        |i: int| decimal((i + 1) as nat) + ". "@ + cut_conversation(p.conversations[i]),
    )
}

impl PendingAnalysis {
    /// What is kept of conversations at a time; nothing where there are none.
    pub fn save(conversations: Vec<String>, session_id: String, now: i64) -> (r: Option<Self>)
        ensures
            r.deep_view() == if conversations.deep_view().len() == 0 {
                None
            } else {
                Some(
                    PendingAnalysisView {
                        conversations: conversations.deep_view(),
                        session_id: session_id@,
                        saved_at: match rfc3339_of(now) {
                            Some(t) => t,
                            None => ""@,
                        },
                    },
                )
            },
    {
        if conversations.len() == 0 {
            return None;
        }
        let saved_at = match write_time(now) {
            Some(t) => t,
            None => "".to_owned(),
        };
        Some(PendingAnalysis { conversations, session_id, saved_at })
    }

    /// The file of what waits.
    pub fn path(base_dir: &str) -> (r: String)
        ensures
            r@ == path_of(base_dir@, "pending_analysis.json"@),
    {
        join_path(base_dir, "pending_analysis.json")
    }

    /// The conversations as text.
    pub fn format_for_injection(&self) -> (r: String)
        ensures
            r@ == joined(pending_lines(self.deep_view()), "\n"@),
    {
        let ghost p = self.deep_view();
        let mut first = "[上次会话记忆（会话 ".to_owned();
        first.append(self.session_id.as_str());
        first.append("，保存于 ");
        first.append(self.saved_at.as_str());
        first.append("）— 以下是你上次和用户的对话摘要]");
        let mut lines: Vec<String> = Vec::new();
        lines.push(first);
        lines.push("".to_owned());
        let total: usize = self.conversations.len();
        let mut i: usize = 0;
        while i < total
            invariant
                i <= total == self.conversations@.len(),
                p == self.deep_view(),
                lines@.len() == i + 2,
                lines@[0]@ == pending_lines(p)[0],
                lines@[1]@ == ""@,
                forall|k: int|
                    2 <= k < i + 2 ==> (#[trigger] lines@[k])@ == decimal((k - 1) as nat) + ". "@
                        + cut_conversation(p.conversations[k - 2]),
            decreases total - i,
        {
            let c = &self.conversations[i];
            assert(p.conversations[i as int] == c@);
            let mut line = number((i + 1) as u64);
            line.append(". ");
            if char_count(c.as_str()) > 500 {
                let cut = head(c.as_str(), 500);
                line.append(cut.as_str());
                assert(decimal((i + 1) as nat) + ". "@ + c@.take(500) + "..."@ =~= decimal(
                    (i + 1) as nat,
                ) + ". "@ + (c@.take(500) + "..."@));
                line.append("...");
            } else {
                line.append(c.as_str());
            }
            lines.push(line);
            i = i + 1;
        }
        assert(lines.deep_view() =~= pending_lines(p));
        join(lines.as_slice(), "\n")
    }
}

} // verus!
