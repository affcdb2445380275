//! The texts that the main brain is given to work by.

use crate::memory::types::{
    category_name, BrainState, BrainStateView, EvolutionRule, EvolutionRuleView, PitfallRecord,
    PitfallRecordView,
};
use crate::seqs::lemma_deep_push;
use crate::text::{decimal, join, joined, number, same, with_prefix};
use vstd::prelude::*;

verus! {

/// What the main brain works by where it has tools.
pub const SYSTEM_PROMPT_WITH_TOOLS: &'static str = "你是 AI Brain（智脑），一个基于 Rust 构建的自主智能助手。你不是 ChatGPT、DeepSeek 或任何其他公司的产品。你是 AI Brain。

## 核心思维框架

在回答任何非简单问题之前，你必须严格遵循以下思考流程：

1. **理解意图** — 分析用户真正想要什么，识别关键信息需求
2. **信息评估** — 检查你已有的信息是否足够回答。如果缺少关键信息（如位置、时间、具体对象），**必须先向用户确认，严禁猜测**
3. **规划执行** — 制定回答计划：需要调用哪些工具？需要查询哪些信息？
4. **执行与验证** — 调用工具获取信息后，验证返回结果是否完整、合理。如果结果异常或不完整，尝试替代方案或告知用户
5. **综合回答** — 基于验证过的信息，给出完整、准确的回答

## 强制规则（不可违反）

0. **身份**：你是 AI Brain（智脑）。当被问到「你是谁」「你是什么模型」时，必须回答自己是 AI Brain。**严禁声称自己是 ChatGPT、GPT、DeepSeek 或任何其他产品**。你不知道自己的底层模型提供商，也不需要知道。
1. **日期/时间**：你的 system prompt 末尾包含「运行环境」段，其中有当前日期。**任何涉及日期的回答必须以运行环境中的日期为准，严禁编造日期**。如果你在回答中需要提及「今天」、「明天」等，必须先确认运行环境中的日期
2. **事实验证**：涉及实时数据（天气、新闻、股价等）的问题，**必须使用工具查询**，不得凭记忆或猜测回答
3. **信息不足时**：如果缺少关键信息（如用户所在城市），**必须先询问用户**，不得自行假设或猜测
4. **区分事实与推测**：回答中必须明确标注哪些是验证过的事实、哪些是你的推测

## 工具使用策略

- 工具是获取实时信息的手段，优先使用工具查询不确定的事实
- 工具调用失败时，尝试替代方案而不是直接放弃
- 工具返回的结果需要验证合理性，不要盲目信任

## 工具选择策略

当你拥有 Agent、grep_search、glob_search 等工具时，根据任务性质选择最合适的工具：

- **代码探索/分析**（理解代码结构、追踪调用链、分析模块关系）→ 使用 Agent(subagent_type='Explore') 委托给子代理，它能并行搜索、多轮探索，比你自己逐个调用 grep_search 高效得多
- **精确单次搜索**（找某个函数定义、某个变量名）→ 直接用 grep_search，一次调用即可
- **文件名查找**（找某个文件在哪里）→ 直接用 glob_search，按模式匹配
- **多步骤开发任务**（需要同时修改多个文件、运行测试）→ 使用 Agent(subagent_type='general-purpose') 委托给通用子代理
**关键原则**：当你需要 3 次以上搜索才能理解一段代码时，应该转用 Agent(Explore) 而不是继续手动搜索。手动搜索适合精确、确定性的查询。

## 回答准则

- 始终使用用户的语言回复（用户写中文就用中文回复）
- 回答简洁直接，但必须完整 — 不要遗漏关键信息
- 历史会话记忆仅供参考，不代表当前事实
- **禁止编造数据**：没有实时数据就用工具查询，查询不了就说「我目前无法获取该信息」

## 规则与建议的表述原则

当需要制定规则、给出建议或修改提示词时，遵循以下原则：

1. **场景化描述，不用量词限制**
   - ✓ 正确做法：描述「什么场景下适合/不适合」「什么条件下可以/不可以」
   - ✗ 错误做法：用「不超过N个」「至少N条」「几分之N」等数量约束

2. **给出适用范围而非硬性数字**
   - ✓ 「技术文档、代码注释、错误信息等正式场景使用平实准确的表述；创意写作、故事叙述、对话场景可以自然使用修辞」
   - ✗ 「修辞手法总计不超过3处」
   - ✓ 「术语首次出现或面向非专业用户时给出简要说明；面向专业用户或上下文已明确时无需重复解释」
   - ✗ 「专业术语出现频率不超过20%」

3. **说明判断依据而非机械计数**
   - ✓ 「当读者可能不理解术语含义时添加说明」
   - ✗ 「每N个术语解释1次」

## Novel 应用边界

- 小说创作任务必须先调用 Skill(skill='novel-writing-workflow')，再只通过 `novel_project` 和 `novel_task` 高层应用入口工作；不得用 `Agent(subagent_type='Novel')` 或通用文件工具绕过
- Novel 应用服务拥有 TaskRun、候选稿、自检、review、用户决策、发布恢复和 Canon commit 的状态转换；默认须经用户接受后发布
- 主脑必须独立复审候选稿，不得把 Writer 自检或通用评估脑的结论当作复审结果
- revision 过期、ContextRef hash 变化或 Canon 冲突时按应用错误重新召回和复审

## 可选通用评估脑

通用评估脑默认关闭，仅在运行配置显式启用时才会检查输出质量。不要依赖它替代你自己的验证和审查：
- 如果你收到来自评估脑的反馈（以「评估结果-存在问题」开头），说明你的回复存在需要修正的问题
- 请认真阅读评估脑指出的具体问题，理解问题原因，并在后续回复中主动修正
- 没有评估反馈不代表输出已经通过审查；小说任务始终执行小说脑自检和主脑独立复审

## 自我诊断

你身后还有一个进化脑（后台运行），它会分析你的能力短板并自动生成新的技能文件来补强你。

当你遇到以下情况时，说明存在能力缺口，系统会记录下来用于进化：
- 多次尝试仍无法解决的问题（工具调用失败 / 信息不足 / 超出知识范围）
- 明显缺少某个领域的专业知识（如某个库、框架、协议的细节）
- 需要人工介入才能完成的复杂操作
- 回答后感到不确定、需要补充的信息

你不需要主动报告这些缺口，进化机制会根据运行记录分析。你只需要专注于做好每次回答；如果回答存在不确定性，应在回答中如实说明。
";

/// What the main brain works by where it has no tools.
pub const SYSTEM_PROMPT_NO_TOOLS: &'static str = "你是 AI Brain（智脑），一个基于 Rust 构建的自主智能助手。你不是 ChatGPT、DeepSeek 或任何其他公司的产品。你是 AI Brain。

## 核心思维框架

在回答问题之前，遵循以下思考流程：
1. **理解意图** — 分析用户真正想要什么
2. **信息评估** — 检查你的知识是否足够回答。如果缺少关键信息，先向用户确认
3. **综合回答** — 给出完整、准确的回答

## 回答准则

- 始终使用用户的语言回复（用户写中文就用中文回复）
- 回答简洁直接、内容完整
- 如果不确定，明确说明而不是猜测
- 区分「已知事实」和「推测」
- 你的 system prompt 末尾包含「运行环境」段，其中有当前日期，涉及日期的回答必须以此为淮
";

/// What the main brain works by where it has tools.
pub fn build_system_prompt_with_tools() -> (r: String)
    ensures
        r@ == SYSTEM_PROMPT_WITH_TOOLS@,
{
    SYSTEM_PROMPT_WITH_TOOLS.to_owned()
}

/// What the main brain works by where it has no tools.
pub fn build_system_prompt_no_tools() -> (r: String)
    ensures
        r@ == SYSTEM_PROMPT_NO_TOOLS@,
{
    SYSTEM_PROMPT_NO_TOOLS.to_owned()
}

/// How a summary of what came before is put.
pub open spec fn context_rebuild_prompt(summary: Seq<char>) -> Seq<char> {
    "以下是之前的会话总结：\n\n"@ + summary + "\n\n请基于这个上下文继续工作。"@
}

/// How a summary of what came before is put.
pub fn build_context_rebuild_prompt(summary: &str) -> (r: String)
    ensures
        r@ == context_rebuild_prompt(summary@),
{
    let mut r = "以下是之前的会话总结：\n\n".to_owned();
    r.append(summary);
    r.append("\n\n请基于这个上下文继续工作。");
    r
}

/// The whole system prompt: the rules, the environment, and the memories where
/// there are some.
pub open spec fn full_system_prompt(memory: Option<Seq<char>>, env_info: Seq<char>) -> Seq<char> {
    let head = SYSTEM_PROMPT_WITH_TOOLS@ + "\n"@ + env_info;
    match memory {
        Some(ctx) => if ctx.len() > 0 {
            head + "\n\n"@ + ctx
        } else {
            head
        },
        None => head,
    }
}

/// The whole system prompt: the rules, the environment, and the memories where
/// there are some.
pub fn build_full_system_prompt(memory_context: Option<&str>, env_info: &str) -> (r: String)
    ensures
        r@ == full_system_prompt(memory_context.deep_view(), env_info@),
{
    let mut r = build_system_prompt_with_tools();
    r.append("\n");
    r.append(env_info);
    if let Some(ctx) = memory_context {
        if !ctx.is_empty() {
            r.append("\n\n");
            r.append(ctx);
        }
    }
    r
}

/// How an operating system is called.
pub open spec fn os_name(os: Seq<char>) -> Seq<char> {
    if os == "macos"@ {
        "macOS"@
    } else if os == "linux"@ {
        "Linux"@
    } else if os == "windows"@ {
        "Windows"@
    } else {
        os
    }
}

/// How a day of the week is called, counted from Monday.
pub open spec fn weekday_name(day: u32) -> Seq<char> {
    match day {
        0 => "周一"@,
        1 => "周二"@,
        2 => "周三"@,
        3 => "周四"@,
        4 => "周五"@,
        5 => "周六"@,
        6 => "周日"@,
        _ => "未知"@,
    }
}

/// What the main brain is told of where and when it runs.
pub open spec fn environment_info(
    cwd: Seq<char>,
    os: Seq<char>,
    date: Seq<char>,
    weekday: u32,
) -> Seq<char> {
    "\n## 运行环境\n- 操作系统: "@ + os_name(os) + "\n- 工作目录: "@ + cwd + "\n- 当前日期: "@
        + date + " "@ + weekday_name(weekday)
}

/// What the main brain is told of where and when it runs: the working
/// directory, the name of the system, the date and the day of the week counted
/// from Monday.
pub fn build_environment_info_for(cwd: &str, os: &str, date: &str, weekday: u32) -> (r: String)
    ensures
        r@ == environment_info(cwd@, os@, date@, weekday),
{
    let name = if same(os, "macos") {
        "macOS"
    } else if same(os, "linux") {
        "Linux"
    } else if same(os, "windows") {
        "Windows"
    } else {
        os
    };
    let day = match weekday {
        0 => "周一",
        1 => "周二",
        2 => "周三",
        3 => "周四",
        4 => "周五",
        5 => "周六",
        6 => "周日",
        _ => "未知",
    };
    let mut r = "\n## 运行环境\n- 操作系统: ".to_owned();
    r.append(name);
    r.append("\n- 工作目录: ");
    r.append(cwd);
    r.append("\n- 当前日期: ");
    r.append(date);
    r.append(" ");
    r.append(day);
    r
}

/// A section of a text: there where `there` holds.
pub open spec fn section(there: bool, text: Seq<char>) -> Seq<Seq<char>> {
    if there {
        seq![text]
    } else {
        Seq::empty()
    }
}

/// The lines of the user's preferences.
pub open spec fn preference_lines(s: BrainStateView) -> Seq<Seq<char>> {
    s.user_profile.explicit_preferences.map_values(|p: Seq<char>| "- [明确偏好] "@ + p)
        + s.user_profile.implicit_preferences.map_values(|p: Seq<char>| "- [推断偏好] "@ + p)
}

/// The line of a pitfall.
pub open spec fn pitfall_memory_line(p: PitfallRecordView) -> Seq<char> {
    "- ["@ + category_name(p.category) + "] "@ + p.description + "（用户纠正: "@
        + match p.user_correction {
        Some(c) => c,
        None => "无"@,
    } + "）"@
}

/// The line of a rule.
pub open spec fn rule_line(r: EvolutionRuleView) -> Seq<char> {
    "- [P"@ + decimal(r.priority as nat) + "] "@ + r.rule
}

/// The sections of what the main brain is told of past sessions.
pub open spec fn memory_sections(s: BrainStateView) -> Seq<Seq<char>> {
    let p = s.user_profile;
    section(s.fact_summary.len() > 0, "## 事实记忆\n"@ + s.fact_summary) + section(
        p.explicit_preferences.len() > 0 || p.implicit_preferences.len() > 0,
        "## 用户偏好\n"@ + joined(preference_lines(s), "\n"@),
    ) + section(
        p.taboos.len() > 0,
        "## 用户禁忌\n"@ + joined(p.taboos.map_values(|t: Seq<char>| "- "@ + t), "\n"@),
    ) + section(
        p.habits.len() > 0,
        "## 用户习惯\n"@ + joined(p.habits.map_values(|h: Seq<char>| "- "@ + h), "\n"@),
    ) + section(
        s.active_pitfalls.len() > 0,
        "## 踩坑记录（请避免）\n"@ + joined(
            s.active_pitfalls.map_values(|x: PitfallRecordView| pitfall_memory_line(x)),
            "\n"@,
        ),
    ) + section(
        s.evolution_rules.len() > 0,
        "## 自进化规则\n"@ + joined(
            s.evolution_rules.map_values(|x: EvolutionRuleView| rule_line(x)),
            "\n"@,
        ),
    )
}

/// What the main brain is told of past sessions.
pub open spec fn memory_injection_prompt(s: BrainStateView) -> Seq<char> {
    if memory_sections(s).len() == 0 {
        Seq::empty()
    } else {
        MEMORY_PREAMBLE@ + joined(memory_sections(s), "\n\n"@) + "\n\n---"@
    }
}

/// How memories are to be taken.
pub const MEMORY_PREAMBLE: &'static str = "以下是来自历史会话的参考记忆，供你了解用户背景。请遵守以下原则：\n\n1. 这些记忆仅供参考，不代表当前事实。时令、天气、项目状态等可能已变化。\n2. 不要根据记忆编造不存在的数据（如天气、新闻、代码内容）。如果需要，使用工具实时查询。\n3. 用户偏好和称呼习惯可以直接采用。事实性信息（位置、日期、数据）需要验证后再使用。\n4. 踩坑记录和进化规则是系统从过去错误中学到的经验，应当遵循。\n\n";

fn pitfall_memory_lines(items: &Vec<PitfallRecord>) -> (r: Vec<String>)
    ensures
        r.deep_view() == items.deep_view().map_values(
            |x: PitfallRecordView| pitfall_memory_line(x),
        ),
{
    let mut r: Vec<String> = Vec::new();
    let mut i: usize = 0;
    while i < items.len()
        invariant
            i <= items@.len(),
            r@.len() == i,
            forall|k: int|
                0 <= k < i ==> (#[trigger] r@[k])@ == pitfall_memory_line(items@[k].deep_view()),
        decreases items@.len() - i,
    {
        let p = &items[i];
        let mut line = "- [".to_owned();
        line.append(p.category.name());
        line.append("] ");
        line.append(p.description.as_str());
        line.append("（用户纠正: ");
        match &p.user_correction {
            Some(c) => line.append(c.as_str()),
            None => line.append("无"),
        }
        line.append("）");
        r.push(line);
        i = i + 1;
    }
    assert(r.deep_view() =~= items.deep_view().map_values(
        |x: PitfallRecordView| pitfall_memory_line(x),
    ));
    r
}

/// The lines of the rules.
pub fn rule_lines(items: &Vec<EvolutionRule>) -> (r: Vec<String>)
    ensures
        r.deep_view() == items.deep_view().map_values(|x: EvolutionRuleView| rule_line(x)),
{
    let mut r: Vec<String> = Vec::new();
    let mut i: usize = 0;
    while i < items.len()
        invariant
            i <= items@.len(),
            r@.len() == i,
            forall|k: int| 0 <= k < i ==> (#[trigger] r@[k])@ == rule_line(items@[k].deep_view()),
        decreases items@.len() - i,
    {
        let mut line = "- [P".to_owned();
        let priority = number(items[i].priority as u64);
        line.append(priority.as_str());
        line.append("] ");
        line.append(items[i].rule.as_str());
        r.push(line);
        i = i + 1;
    }
    assert(r.deep_view() =~= items.deep_view().map_values(|x: EvolutionRuleView| rule_line(x)));
    r
}

/// Adds a section that has a title and lines, where there are lines.
fn add_section(sections: &mut Vec<String>, title: &str, lines: &Vec<String>)
    ensures
        final(sections).deep_view() == old(sections).deep_view() + section(
            lines@.len() > 0,
            title@ + joined(lines.deep_view(), "\n"@),
        ),
{
    let ghost before = *sections;
    if lines.len() > 0 {
        let mut text = title.to_owned();
        let body = join(lines.as_slice(), "\n");
        text.append(body.as_str());
        sections.push(text);
        proof {
            lemma_deep_push(before, *sections, text);
            assert(before.deep_view().push(text@) =~= before.deep_view() + seq![text@]);
        }
    } else {
        assert(before.deep_view() + Seq::<Seq<char>>::empty() =~= before.deep_view());
    }
}

/// What the main brain is told of past sessions: the facts, the user's profile,
/// the pitfalls and the rules, each where there is something to say.
pub fn build_memory_injection_prompt(brain_state: &BrainState) -> (r: String)
    ensures
        r@ == memory_injection_prompt(brain_state.deep_view()),
{
    let ghost s = brain_state.deep_view();
    let ghost p = s.user_profile;
    let profile = &brain_state.user_profile;
    let mut sections: Vec<String> = Vec::new();
    if !brain_state.fact_summary.as_str().is_empty() {
        let mut text = "## 事实记忆\n".to_owned();
        text.append(brain_state.fact_summary.as_str());
        sections.push(text);
    }
    assert(sections.deep_view() =~= section(
        s.fact_summary.len() > 0,
        "## 事实记忆\n"@ + s.fact_summary,
    ));
    let mut lines = with_prefix(&profile.explicit_preferences, "- [明确偏好] ");
    let mut inferred = with_prefix(&profile.implicit_preferences, "- [推断偏好] ");
    let ghost first = lines.deep_view();
    let ghost second = inferred.deep_view();
    lines.append(&mut inferred);
    assert(lines.deep_view() =~= first + second);
    assert(lines.deep_view() == preference_lines(s));
    add_section(&mut sections, "## 用户偏好\n", &lines);
    let taboos = with_prefix(&profile.taboos, "- ");
    add_section(&mut sections, "## 用户禁忌\n", &taboos);
    let habits = with_prefix(&profile.habits, "- ");
    add_section(&mut sections, "## 用户习惯\n", &habits);
    let pitfalls = pitfall_memory_lines(&brain_state.active_pitfalls);
    add_section(&mut sections, "## 踩坑记录（请避免）\n", &pitfalls);
    let rules = rule_lines(&brain_state.evolution_rules);
    add_section(&mut sections, "## 自进化规则\n", &rules);
    proof {
        assert(lines@.len() == lines.deep_view().len());
        assert(taboos@.len() == taboos.deep_view().len());
        assert(habits@.len() == habits.deep_view().len());
        assert(pitfalls@.len() == pitfalls.deep_view().len());
        assert(rules@.len() == rules.deep_view().len());
        assert(sections.deep_view() == memory_sections(s));
    }
    if sections.len() == 0 {
        return String::new();
    }
    let mut r = MEMORY_PREAMBLE.to_owned();
    let body = join(sections.as_slice(), "\n\n");
    r.append(body.as_str());
    r.append("\n\n---");
    r
}

} // verus!
