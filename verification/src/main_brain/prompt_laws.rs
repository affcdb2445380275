//! What the model is told: nothing of what it should know is left out.

use crate::main_brain::compact::{
    COMPACTION_RULES, COMPRESSION_WATERMARK, body_of, compaction_prompt, compressed_content,
    first_body, last_body, shortened_count, tool_body, tool_results_of, turn_prompt_of,
};
use crate::main_brain::conversation::{
    ConversationMessageView, SpeakerRole, preferences_text, rebuild_summary, shortened_summary,
};
use crate::main_brain::prompts::{
    MEMORY_PREAMBLE, SYSTEM_PROMPT_WITH_TOOLS, environment_info, full_system_prompt,
    memory_injection_prompt, memory_sections, os_name, pitfall_memory_line, preference_lines,
    rule_line, section, weekday_name,
};
use crate::memory::types::{
    BrainStateView, EvolutionRuleView, PitfallRecordView, category_name, pitfall_line,
};
use crate::seqs::lemma_filter_map_contains;
use crate::text::{decimal, joined, quoted_of};
use crate::text_laws::{
    law_joined_has_each_part, lemma_stands_between, lemma_stands_through, stands_in,
};
use vstd::prelude::*;

verus! {

/// What is remembered is told in full: what is known, each preference, taboo
/// and habit, each pitfall with its correction, and each rule with its
/// priority; and where there is nothing of it, nothing is told.
pub proof fn law_memory_is_told(s: BrainStateView, i: int)
    requires
        0 <= i,
    ensures
        ({
            let r = memory_injection_prompt(s);
            let u = s.user_profile;
            &&& s.fact_summary.len() > 0 ==> stands_in(r, s.fact_summary)
            &&& i < u.explicit_preferences.len() ==> stands_in(
                r,
                "- [明确偏好] "@ + u.explicit_preferences[i],
            )
            &&& i < u.implicit_preferences.len() ==> stands_in(
                r,
                "- [推断偏好] "@ + u.implicit_preferences[i],
            )
            &&& i < u.taboos.len() ==> stands_in(r, "- "@ + u.taboos[i])
            &&& i < u.habits.len() ==> stands_in(r, "- "@ + u.habits[i])
            &&& i < s.active_pitfalls.len() ==> stands_in(
                r,
                "- ["@ + category_name(s.active_pitfalls[i].category) + "] "@
                    + s.active_pitfalls[i].description + "（用户纠正: "@ + (
                if s.active_pitfalls[i].user_correction is Some {
                    s.active_pitfalls[i].user_correction->0
                } else {
                    "无"@
                }) + "）"@,
            )
            &&& i < s.evolution_rules.len() ==> stands_in(
                r,
                "- [P"@ + decimal(s.evolution_rules[i].priority as nat) + "] "@
                    + s.evolution_rules[i].rule,
            )
            &&& s.fact_summary.len() == 0 && u.explicit_preferences.len() == 0
                && u.implicit_preferences.len() == 0 && u.taboos.len() == 0 && u.habits.len() == 0
                && s.active_pitfalls.len() == 0 && s.evolution_rules.len() == 0 ==> r.len() == 0
        }),
{
    let u = s.user_profile;
    let r = memory_injection_prompt(s);
    let facts = "## 事实记忆\n"@ + s.fact_summary;
    let prefs = preference_lines(s);
    let taboos = u.taboos.map_values(|t: Seq<char>| "- "@ + t);
    let habits = u.habits.map_values(|h: Seq<char>| "- "@ + h);
    let pitfalls = s.active_pitfalls.map_values(|x: PitfallRecordView| pitfall_memory_line(x));
    let rules = s.evolution_rules.map_values(|x: EvolutionRuleView| rule_line(x));
    let has_prefs = u.explicit_preferences.len() > 0 || u.implicit_preferences.len() > 0;
    let s1 = section(s.fact_summary.len() > 0, facts);
    let s2 = section(has_prefs, "## 用户偏好\n"@ + joined(prefs, "\n"@));
    let s3 = section(u.taboos.len() > 0, "## 用户禁忌\n"@ + joined(taboos, "\n"@));
    let s4 = section(u.habits.len() > 0, "## 用户习惯\n"@ + joined(habits, "\n"@));
    let s5 = section(
        s.active_pitfalls.len() > 0,
        "## 踩坑记录（请避免）\n"@ + joined(pitfalls, "\n"@),
    );
    let s6 = section(
        s.evolution_rules.len() > 0,
        "## 自进化规则\n"@ + joined(rules, "\n"@),
    );
    let all = memory_sections(s);
    assert(all == s1 + s2 + s3 + s4 + s5 + s6);
    let a = s1.len() as int;
    let b = a + s2.len();
    let c = b + s3.len();
    let d = c + s4.len();
    let e = d + s5.len();
    if s.fact_summary.len() > 0 {
        assert(all[0] == facts);
        lemma_stands_between("## 事实记忆\n"@, s.fact_summary, Seq::empty(), facts);
        lemma_in_section(s, 0, s.fact_summary);
    }
    if i < u.explicit_preferences.len() {
        assert(all[a] == s2[0]);
        assert(prefs[i] == "- [明确偏好] "@ + u.explicit_preferences[i]);
        lemma_line(s, a, "## 用户偏好\n"@, prefs, i);
    }
    if i < u.implicit_preferences.len() {
        assert(all[a] == s2[0]);
        let k = u.explicit_preferences.len() + i;
        assert(prefs[k] == "- [推断偏好] "@ + u.implicit_preferences[i]);
        lemma_line(s, a, "## 用户偏好\n"@, prefs, k);
    }
    if i < u.taboos.len() {
        assert(all[b] == s3[0]);
        lemma_line(s, b, "## 用户禁忌\n"@, taboos, i);
    }
    if i < u.habits.len() {
        assert(all[c] == s4[0]);
        lemma_line(s, c, "## 用户习惯\n"@, habits, i);
    }
    if i < s.active_pitfalls.len() {
        assert(all[d] == s5[0]);
        lemma_line(s, d, "## 踩坑记录（请避免）\n"@, pitfalls, i);
    }
    if i < s.evolution_rules.len() {
        assert(all[e] == s6[0]);
        lemma_line(s, e, "## 自进化规则\n"@, rules, i);
    }
}

proof fn lemma_in_section(s: BrainStateView, k: int, n: Seq<char>)
    requires
        0 <= k < memory_sections(s).len(),
        stands_in(memory_sections(s)[k], n),
    ensures
        stands_in(memory_injection_prompt(s), n),
{
    let all = memory_sections(s);
    let text = joined(all, "\n\n"@);
    law_joined_has_each_part(all, "\n\n"@, k);
    lemma_stands_through(text, all[k], n);
    lemma_stands_between(MEMORY_PREAMBLE@, text, "\n\n---"@, memory_injection_prompt(s));
    lemma_stands_through(memory_injection_prompt(s), text, n);
}

proof fn lemma_line(s: BrainStateView, k: int, head: Seq<char>, lines: Seq<Seq<char>>, i: int)
    requires
        0 <= k < memory_sections(s).len(),
        0 <= i < lines.len(),
        memory_sections(s)[k] == head + joined(lines, "\n"@),
    ensures
        stands_in(memory_injection_prompt(s), lines[i]),
{
    let text = joined(lines, "\n"@);
    law_joined_has_each_part(lines, "\n"@, i);
    lemma_stands_between(head, text, Seq::empty(), memory_sections(s)[k]);
    lemma_stands_through(memory_sections(s)[k], text, lines[i]);
    lemma_in_section(s, k, lines[i]);
}

/// The days of the week are numbered from Monday on, and no other number is one.
pub proof fn law_days_are_named(day: u32)
    ensures
        day < 7 ==> weekday_name(day) == seq!['周', "一二三四五六日"@[day as int]],
        day >= 7 ==> weekday_name(day) == "未知"@,
{
    reveal_strlit("一二三四五六日");
    reveal_strlit("周一");
    reveal_strlit("周二");
    reveal_strlit("周三");
    reveal_strlit("周四");
    reveal_strlit("周五");
    reveal_strlit("周六");
    reveal_strlit("周日");
    assert(day < 7 ==> weekday_name(day) =~= seq!['周', "一二三四五六日"@[day as int]]);
}

/// The environment tells the system, the directory and the day; and the prompt
/// of the system holds the environment and the memory, where there is any.
pub proof fn law_environment_is_told(
    cwd: Seq<char>,
    os: Seq<char>,
    date: Seq<char>,
    weekday: u32,
    memory: Seq<char>,
    env: Seq<char>,
)
    ensures
        stands_in(environment_info(cwd, os, date, weekday), cwd),
        stands_in(environment_info(cwd, os, date, weekday), date),
        stands_in(environment_info(cwd, os, date, weekday), os_name(os)),
        stands_in(environment_info(cwd, os, date, weekday), weekday_name(weekday)),
        stands_in(full_system_prompt(None, env), env),
        stands_in(full_system_prompt(Some(memory), env), env),
        stands_in(full_system_prompt(Some(memory), env), memory),
        stands_in(full_system_prompt(None, env), SYSTEM_PROMPT_WITH_TOOLS@),
{
    let r = environment_info(cwd, os, date, weekday);
    let a = "\n## 运行环境\n- 操作系统: "@;
    let b = "\n- 工作目录: "@;
    let c = "\n- 当前日期: "@;
    let w = weekday_name(weekday);
    lemma_stands_between(a, os_name(os), b + cwd + c + date + " "@ + w, r);
    lemma_stands_between(a + os_name(os) + b, cwd, c + date + " "@ + w, r);
    lemma_stands_between(a + os_name(os) + b + cwd + c, date, " "@ + w, r);
    lemma_stands_between(a + os_name(os) + b + cwd + c + date + " "@, w, Seq::empty(), r);
    let p = SYSTEM_PROMPT_WITH_TOOLS@;
    let none = Seq::<char>::empty();
    let h = full_system_prompt(None, env);
    let m = full_system_prompt(Some(memory), env);
    lemma_stands_between(p + "\n"@, env, none, h);
    lemma_stands_between(none, p, "\n"@ + env, h);
    if memory.len() > 0 {
        lemma_stands_between(p + "\n"@, env, "\n\n"@ + memory, m);
        lemma_stands_between(p + "\n"@ + env + "\n\n"@, memory, none, m);
    } else {
        lemma_stands_between(p + "\n"@, env, none, m);
        lemma_stands_between(none, memory, m, m);
    }
}

/// A history that is rebuilt begins with what is known, the first five
/// preferences and the pitfalls; one that is shortened with the summary.
pub proof fn law_rebuilt_history_tells(s: BrainStateView, summary: Seq<char>, i: int)
    requires
        0 <= i,
    ensures
        ({
            let r = rebuild_summary(s);
            let all = s.user_profile.explicit_preferences + s.user_profile.implicit_preferences;
            &&& stands_in(r, s.fact_summary)
            &&& i < 5 && i < all.len() ==> stands_in(r, quoted_of(all[i]))
            &&& i < s.active_pitfalls.len() ==> stands_in(
                r,
                "- ["@ + category_name(s.active_pitfalls[i].category) + "] "@
                    + s.active_pitfalls[i].description,
            )
        }),
        stands_in(shortened_summary(summary), summary),
{
    let r = rebuild_summary(s);
    let prefs = preferences_text(s);
    let lines = s.active_pitfalls.map_values(
        |p: PitfallRecordView| pitfall_line(p.category, p.description),
    );
    let a = "事实总结: "@;
    let b = "\n用户偏好: "@;
    let c = "\n注意事项: "@;
    let told = joined(lines, "\n"@);
    let body = a + s.fact_summary + b + prefs + c + told;
    let head = "以下是之前的会话总结：\n\n"@;
    let foot = "\n\n请基于这个上下文继续工作。"@;
    lemma_stands_between(head, body, foot, r);
    lemma_stands_between(a, s.fact_summary, b + prefs + c + told, body);
    lemma_stands_through(r, body, s.fact_summary);
    let all = s.user_profile.explicit_preferences + s.user_profile.implicit_preferences;
    if i < 5 && i < all.len() {
        let five = if all.len() > 5 { all.take(5) } else { all };
        let quoted = five.map_values(|p: Seq<char>| quoted_of(p));
        assert(quoted[i] == quoted_of(all[i]));
        law_joined_has_each_part(quoted, ", "@, i);
        lemma_stands_between("["@, joined(quoted, ", "@), "]"@, prefs);
        lemma_stands_through(prefs, joined(quoted, ", "@), quoted[i]);
        lemma_stands_between(a + s.fact_summary + b, prefs, c + told, body);
        lemma_stands_through(body, prefs, quoted[i]);
        lemma_stands_through(r, body, quoted[i]);
    }
    if i < s.active_pitfalls.len() {
        law_joined_has_each_part(lines, "\n"@, i);
        lemma_stands_between(a + s.fact_summary + b + prefs + c, told, Seq::empty(), body);
        lemma_stands_through(body, told, lines[i]);
        lemma_stands_through(r, body, lines[i]);
    }
    lemma_stands_between(
        "以下是之前对话的决策链路摘要：\n\n"@,
        summary,
        "\n\n请基于这个摘要继续对话，不要重复已经完成的工作。"@,
        shortened_summary(summary),
    );
}

/// The first message of a role, and the last, is what it says; and where the
/// role has not spoken, nothing.
pub proof fn law_first_and_last_word(
    a: Seq<ConversationMessageView>,
    m: ConversationMessageView,
    b: Seq<ConversationMessageView>,
    role: SpeakerRole,
)
    requires
        m.role == role,
    ensures
        (forall|i: int| 0 <= i < a.len() ==> (#[trigger] a[i]).role != role) ==> first_body(a, role)
            == Seq::<char>::empty() && last_body(a, role) == Seq::<char>::empty() && first_body(
            a + seq![m] + b,
            role,
        ) == body_of(m.content),
        (forall|i: int| 0 <= i < b.len() ==> (#[trigger] b[i]).role != role) ==> last_body(
            a + seq![m] + b,
            role,
        ) == body_of(m.content),
{
    if forall|i: int| 0 <= i < a.len() ==> (#[trigger] a[i]).role != role {
        lemma_first_word(a, m, b, role);
        lemma_no_word(a, role);
    }
    if forall|i: int| 0 <= i < b.len() ==> (#[trigger] b[i]).role != role {
        lemma_last_word(a, m, b, role);
    }
}

proof fn lemma_first_word(
    a: Seq<ConversationMessageView>,
    m: ConversationMessageView,
    b: Seq<ConversationMessageView>,
    role: SpeakerRole,
)
    requires
        m.role == role,
        forall|i: int| 0 <= i < a.len() ==> (#[trigger] a[i]).role != role,
    ensures
        first_body(a + seq![m] + b, role) == body_of(m.content),
    decreases a.len(),
{
    let all = a + seq![m] + b;
    if a.len() == 0 {
        assert(all[0] == m);
    } else {
        assert(all[0] == a[0]);
        assert(all.skip(1) =~= a.skip(1) + seq![m] + b);
        assert forall|i: int| 0 <= i < a.skip(1).len() implies (#[trigger] a.skip(1)[i]).role
            != role by {
            assert(a.skip(1)[i] == a[i + 1]);
        }
        lemma_first_word(a.skip(1), m, b, role);
    }
}

proof fn lemma_last_word(
    a: Seq<ConversationMessageView>,
    m: ConversationMessageView,
    b: Seq<ConversationMessageView>,
    role: SpeakerRole,
)
    requires
        m.role == role,
        forall|i: int| 0 <= i < b.len() ==> (#[trigger] b[i]).role != role,
    ensures
        last_body(a + seq![m] + b, role) == body_of(m.content),
    decreases b.len(),
{
    let all = a + seq![m] + b;
    if b.len() == 0 {
        assert(all.last() == m);
    } else {
        let t = b.drop_last();
        assert(all.last() == b[b.len() - 1]);
        assert(all.drop_last() =~= a + seq![m] + t);
        assert forall|i: int| 0 <= i < t.len() implies (#[trigger] t[i]).role != role by {
            assert(t[i] == b[i]);
        }
        lemma_last_word(a, m, t, role);
    }
}

proof fn lemma_no_word(a: Seq<ConversationMessageView>, role: SpeakerRole)
    requires
        forall|i: int| 0 <= i < a.len() ==> (#[trigger] a[i]).role != role,
    ensures
        first_body(a, role) == Seq::<char>::empty(),
        last_body(a, role) == Seq::<char>::empty(),
    decreases a.len(),
{
    if a.len() > 0 {
        let t = a.skip(1);
        let u = a.drop_last();
        assert(a[0].role != role && a[a.len() - 1].role != role);
        assert forall|i: int| 0 <= i < t.len() implies (#[trigger] t[i]).role != role by {
            assert(t[i] == a[i + 1]);
        }
        assert forall|i: int| 0 <= i < u.len() implies (#[trigger] u[i]).role != role by {
            assert(u[i] == a[i]);
        }
        lemma_no_word(t, role);
        lemma_no_word(u, role);
    }
}

/// A turn is put to the model where its tools said anything: with the first
/// word of the user, what each tool said, and the last word of the assistant.
pub proof fn law_turn_is_put_to_the_model(ms: Seq<ConversationMessageView>, i: int)
    requires
        0 <= i < ms.len(),
    ensures
        turn_prompt_of(ms) is Some ==> stands_in(
            turn_prompt_of(ms)->0,
            first_body(ms, SpeakerRole::User),
        ) && stands_in(turn_prompt_of(ms)->0, last_body(ms, SpeakerRole::Assistant)),
        ms[i].role == SpeakerRole::Tool && body_of(ms[i].content).len() > 0 ==> turn_prompt_of(ms)
            is Some,
        ms[i].role == SpeakerRole::Tool && turn_prompt_of(ms) is Some ==> stands_in(
            turn_prompt_of(ms)->0,
            body_of(ms[i].content),
        ),
{
    let f = |m: ConversationMessageView| tool_body(m);
    let bodies = ms.filter_map(f);
    let told = tool_results_of(ms);
    let user = first_body(ms, SpeakerRole::User);
    let last = last_body(ms, SpeakerRole::Assistant);
    let a = "你是一个上下文压缩引擎。请分析以下对话轮次，提取关键信息，丢弃冗余细节。\n\n## 用户意图\n"@;
    let b = "\n\n## 工具调用结果\n"@;
    let c = "\n\n## 助手结论\n"@;
    let d = COMPACTION_RULES@;
    let r = compaction_prompt(user, told, last);
    lemma_stands_between(a, user, b + told + c + last + d, r);
    lemma_stands_between(a + user + b, told, c + last + d, r);
    lemma_stands_between(a + user + b + told + c, last, d, r);
    if ms[i].role == SpeakerRole::Tool {
        let x = body_of(ms[i].content);
        assert(f(ms[i]) == Some(x));
        lemma_filter_map_contains(ms, f, i);
        let k = choose|k: int| 0 <= k < bodies.len() && bodies[k] == x;
        law_joined_has_each_part(bodies, "\n---\n"@, k);
        lemma_stands_through(r, told, x);
    }
}

/// What is kept of a turn says its task, the chain of calls, what matters and
/// the conclusion, behind the mark by which it is known.
pub proof fn law_shortened_turn_says(
    task: Seq<char>,
    chain: Seq<char>,
    key: Seq<char>,
    end: Seq<char>,
)
    ensures
        ({
            let r = compressed_content(task, chain, key, end);
            &&& COMPRESSION_WATERMARK@.is_prefix_of(r)
            &&& stands_in(r, task)
            &&& stands_in(r, chain)
            &&& stands_in(r, key)
            &&& stands_in(r, end)
        }),
{
    let r = compressed_content(task, chain, key, end);
    let a = COMPRESSION_WATERMARK@
        + " 以下是调用后的结论和关键内容。\n如有疑问，优先根据标注的文件路径和行号重新浏览。\n\n任务："@;
    let b = "\n调用链路："@;
    let c = "\n关键信息：\n"@;
    let d = "\n结论："@;
    lemma_stands_between(a, task, b + chain + c + key + d + end, r);
    lemma_stands_between(a + task + b, chain, c + key + d + end, r);
    lemma_stands_between(a + task + b + chain + c, key, d + end, r);
    lemma_stands_between(a + task + b + chain + c + key + d, end, Seq::empty(), r);
}

/// How many messages are shortened is how many get shorter.
pub proof fn law_shortened_are_counted(
    ms: Seq<ConversationMessageView>,
    pending: Map<usize, String>,
    n: int,
)
    requires
        0 <= n < ms.len(),
    ensures
        shortened_count(ms, pending, 0) == 0,
        shortened_count(ms, pending, n + 1) == shortened_count(ms, pending, n) + (if ms[n].role
            == SpeakerRole::Tool && pending.dom().contains(n as usize) && pending[n as usize]@.len()
            < body_of(ms[n].content).len() {
            1int
        } else {
            0
        }),
{
}

} // verus!
