//! What holds of the settings, of retries and of the streams of a service.

use crate::json::JsonView;
use crate::keyed::{Keyed, keyed_item, with_key};
use crate::llm::config::{
    LlmConfigView, NamedParams, NamedProvider, NamedText, ProviderKind, api_key_of, params_of,
    plan_of, policy_of, proxy_of,
};
use crate::llm::echo::{echo_of, last_said};
use crate::llm::error::LlmErrorView;
use crate::llm::http_client::proxy_problem;
use crate::llm::provider::{MessageRole, MessageView, text_of_blocks};
use crate::llm::retry::{
    Attempts, IoFailure, RetryConfig, RetryStep, TransportFailure, backoff_of, is_route_error,
    is_transient_failure, is_transient_status, multiplier_of, step_after,
};
use crate::llm::stream::{Progress, choices_added, chunk_added, frame_data, frame_taken, line_data};
use crate::llm::types::{StreamEventView, finish_reason_of};
use crate::seqs::{lemma_first_index_none, lemma_first_index_some};
use crate::text::{has_text, lowercase_of, trimmed};
use vstd::arithmetic::power2::{lemma_pow2_unfold, pow2};
use vstd::prelude::*;

verus! {

proof fn lemma_keyed_at<T: Keyed>(s: Seq<T::V>, key: Seq<char>, i: int)
    requires
        0 <= i < s.len(),
        T::key_of(s[i]) == key,
        forall|k: int| 0 <= k < i ==> T::key_of(#[trigger] s[k]) != key,
    ensures
        keyed_item::<T>(s, key) == Some(s[i]),
{
    let p = with_key::<T>(key);
    assert forall|k: int| 0 <= k < i implies !p(#[trigger] s[k]) by {}
    lemma_first_index_some(s, p, i);
}

proof fn lemma_keyed_none<T: Keyed>(s: Seq<T::V>, key: Seq<char>)
    requires
        forall|k: int| 0 <= k < s.len() ==> T::key_of(#[trigger] s[k]) != key,
    ensures
        keyed_item::<T>(s, key) is None,
{
    let p = with_key::<T>(key);
    assert forall|k: int| 0 <= k < s.len() implies !p(#[trigger] s[k]) by {}
    lemma_first_index_none(s, p);
}

/// A brain has the model that stands under its name, and the model for all
/// where none does.
pub proof fn law_model_of_a_brain(c: LlmConfigView, brain: Seq<char>, i: int)
    ensures
        0 <= i < c.llm.brain_models.len() && c.llm.brain_models[i].name == brain && (forall|k: int|
            0 <= k < i ==> (#[trigger] c.llm.brain_models[k]).name != brain) ==> policy_of(
            c,
            brain,
        ).model == c.llm.brain_models[i].value,
        (forall|k: int|
            0 <= k < c.llm.brain_models.len() ==> (#[trigger] c.llm.brain_models[k]).name != brain)
            ==> policy_of(c, brain).model == c.llm.default_model,
        policy_of(c, brain).policy_id == brain,
{
    let s = c.llm.brain_models;
    if 0 <= i < s.len() && s[i].name == brain && (forall|k: int|
        0 <= k < i ==> (#[trigger] s[k]).name != brain) {
        lemma_keyed_at::<NamedText>(s, brain, i);
    }
    if forall|k: int| 0 <= k < s.len() ==> (#[trigger] s[k]).name != brain {
        lemma_keyed_none::<NamedText>(s, brain);
    }
}

/// A brain has the provider that stands under its name, and the provider for all
/// where none does.
pub proof fn law_provider_of_a_brain(c: LlmConfigView, brain: Seq<char>, i: int)
    ensures
        0 <= i < c.llm.brain_providers.len() && c.llm.brain_providers[i].name == brain && (forall|
            k: int,
        |
            0 <= k < i ==> (#[trigger] c.llm.brain_providers[k]).name != brain) ==> policy_of(
            c,
            brain,
        ).provider == c.llm.brain_providers[i].value,
        (forall|k: int|
            0 <= k < c.llm.brain_providers.len() ==> (#[trigger] c.llm.brain_providers[k]).name
                != brain) ==> policy_of(c, brain).provider == c.llm.default_provider,
{
    let s = c.llm.brain_providers;
    if 0 <= i < s.len() && s[i].name == brain && (forall|k: int|
        0 <= k < i ==> (#[trigger] s[k]).name != brain) {
        lemma_keyed_at::<NamedText>(s, brain, i);
    }
    if forall|k: int| 0 <= k < s.len() ==> (#[trigger] s[k]).name != brain {
        lemma_keyed_none::<NamedText>(s, brain);
    }
}

/// A brain has the limit and the temperature that stand under its name, and
/// those for all where none do.
pub proof fn law_params_of_a_brain(c: LlmConfigView, brain: Seq<char>, i: int)
    ensures
        0 <= i < c.llm.brain_params.len() && c.llm.brain_params[i].name == brain && (forall|k: int|
            0 <= k < i ==> (#[trigger] c.llm.brain_params[k]).name != brain) ==> {
            &&& policy_of(c, brain).max_output_tokens == c.llm.brain_params[i].params.max_tokens
            &&& policy_of(c, brain).temperature == c.llm.brain_params[i].params.temperature
            &&& params_of(c, brain).0 == c.llm.brain_params[i].params.max_tokens
            &&& params_of(c, brain).1 == c.llm.brain_params[i].params.temperature
        },
        (forall|k: int|
            0 <= k < c.llm.brain_params.len() ==> (#[trigger] c.llm.brain_params[k]).name != brain)
            ==> {
            &&& policy_of(c, brain).max_output_tokens == c.llm.defaults.max_tokens
            &&& policy_of(c, brain).temperature == c.llm.defaults.temperature
            &&& params_of(c, brain).0 == c.llm.defaults.max_tokens
            &&& params_of(c, brain).1 == c.llm.defaults.temperature
        },
{
    let s = c.llm.brain_params;
    if 0 <= i < s.len() && s[i].name == brain && (forall|k: int|
        0 <= k < i ==> (#[trigger] s[k]).name != brain) {
        lemma_keyed_at::<NamedParams>(s, brain, i);
    }
    if forall|k: int| 0 <= k < s.len() ==> (#[trigger] s[k]).name != brain {
        lemma_keyed_none::<NamedParams>(s, brain);
    }
}

/// The key in the environment counts before the key in the settings, where the
/// provider names a variable; without a key, and without the provider, the
/// error says which.
pub proof fn law_key_of_a_provider(
    c: LlmConfigView,
    name: Seq<char>,
    env: Option<Seq<char>>,
    i: int,
)
    ensures
        0 <= i < c.llm.providers.len() && c.llm.providers[i].name == name && (forall|k: int|
            0 <= k < i ==> (#[trigger] c.llm.providers[k]).name != name) ==> {
            let p = c.llm.providers[i].config;
            let named = p.api_key_env.len() > 0;
            &&& named && env is Some ==> api_key_of(c, name, env) == Ok::<
                Seq<char>,
                LlmErrorView,
            >(env->0)
            &&& (!named || env is None) && p.api_key is Some ==> api_key_of(c, name, env) == Ok::<
                Seq<char>,
                LlmErrorView,
            >(p.api_key->0)
            &&& (!named || env is None) && p.api_key is None ==> api_key_of(c, name, env) == Err::<
                Seq<char>,
                LlmErrorView,
            >(LlmErrorView::ApiKeyNotFound(p.api_key_env))
        },
        (forall|k: int|
            0 <= k < c.llm.providers.len() ==> (#[trigger] c.llm.providers[k]).name != name)
            ==> api_key_of(c, name, env) == Err::<Seq<char>, LlmErrorView>(
            LlmErrorView::ProviderNotFound(name),
        ),
{
    let s = c.llm.providers;
    if 0 <= i < s.len() && s[i].name == name && (forall|k: int|
        0 <= k < i ==> (#[trigger] s[k]).name != name) {
        lemma_keyed_at::<NamedProvider>(s, name, i);
    }
    if forall|k: int| 0 <= k < s.len() ==> (#[trigger] s[k]).name != name {
        lemma_keyed_none::<NamedProvider>(s, name);
    }
}

/// The proxy of a provider counts before the one for all; `none` and a blank
/// switch it off.
pub proof fn law_proxy_of_a_provider(c: LlmConfigView, name: Seq<char>, i: int)
    ensures
        0 <= i < c.llm.providers.len() && c.llm.providers[i].name == name && (forall|k: int|
            0 <= k < i ==> (#[trigger] c.llm.providers[k]).name != name) ==> {
            let own = c.llm.providers[i].config.proxy;
            &&& proxy_of(c, name) is Ok
            &&& own is None ==> proxy_of(c, name)->Ok_0 == c.proxy.default
            &&& own is Some && (own->0 == "none"@ || trimmed(own->0).len() == 0) ==> proxy_of(
                c,
                name,
            )->Ok_0 is None
            &&& own is Some && own->0 != "none"@ && trimmed(own->0).len() > 0 ==> proxy_of(
                c,
                name,
            )->Ok_0 == own
        },
        (forall|k: int|
            0 <= k < c.llm.providers.len() ==> (#[trigger] c.llm.providers[k]).name != name)
            ==> proxy_of(c, name) == Err::<Option<Seq<char>>, LlmErrorView>(
            LlmErrorView::ProviderNotFound(name),
        ),
{
    let s = c.llm.providers;
    if 0 <= i < s.len() && s[i].name == name && (forall|k: int|
        0 <= k < i ==> (#[trigger] s[k]).name != name) {
        lemma_keyed_at::<NamedProvider>(s, name, i);
    }
    if forall|k: int| 0 <= k < s.len() ==> (#[trigger] s[k]).name != name {
        lemma_keyed_none::<NamedProvider>(s, name);
    }
}

/// The client of a brain has the address and the kind of its provider, the key
/// and the proxy of that provider, and the model and the limits of the brain.
/// There is one just where there is a key, and no trouble with a proxy that
/// Gemini would go through.
pub proof fn law_client_of_a_brain(
    c: LlmConfigView,
    brain: Seq<char>,
    env: Option<Seq<char>>,
    problem: Option<LlmErrorView>,
    i: int,
)
    requires
        0 <= i < c.llm.providers.len(),
        c.llm.providers[i].name == policy_of(c, brain).provider,
        forall|k: int|
            0 <= k < i ==> (#[trigger] c.llm.providers[k]).name != policy_of(c, brain).provider,
    ensures
        ({
            let p = c.llm.providers[i].config;
            let key = api_key_of(c, policy_of(c, brain).provider, env);
            let plan = plan_of(c, brain, env, problem);
            &&& key is Err ==> plan is Err && plan->Err_0 == key->Err_0
            &&& key is Ok && p.kind == ProviderKind::Gemini && problem is Some ==> plan is Err
                && plan->Err_0 == problem->0
            &&& key is Ok && (p.kind != ProviderKind::Gemini || problem is None) ==> {
                &&& plan is Ok
                &&& plan->Ok_0.kind == p.kind
                &&& plan->Ok_0.api_base == p.api_base
                &&& plan->Ok_0.api_key == key->Ok_0
                &&& plan->Ok_0.model == policy_of(c, brain).model
                &&& plan->Ok_0.max_tokens == policy_of(c, brain).max_output_tokens
                &&& plan->Ok_0.temperature == policy_of(c, brain).temperature
                &&& plan->Ok_0.proxy_url == proxy_of(c, policy_of(c, brain).provider)->Ok_0
            }
        }),
{
    lemma_keyed_at::<NamedProvider>(c.llm.providers, policy_of(c, brain).provider, i);
}

/// A proxy is fine just where its address reads and its scheme is `http`.
pub proof fn law_only_http_proxies(url: Seq<char>, scheme: Result<Seq<char>, Seq<char>>)
    ensures
        proxy_problem(url, scheme) is None <==> scheme is Ok && scheme->Ok_0 == "http"@,
        proxy_problem(url, scheme) is Some ==> proxy_problem(url, scheme)->0 is Config,
{
}

// ---------------------------------------------------------------------------
// Retries
// ---------------------------------------------------------------------------

/// Each wait is twice the one before, up to the longest, and the first is the
/// shortest.
pub proof fn law_backoff_doubles(c: RetryConfig, attempt: u32)
    requires
        1 <= attempt < 32,
    ensures
        backoff_of(c, 0) == backoff_of(c, 1),
        c.initial_backoff <= c.max_backoff ==> backoff_of(c, 1) == c.initial_backoff,
        c.initial_backoff > c.max_backoff ==> backoff_of(c, 1) == c.max_backoff,
        2 * backoff_of(c, attempt) <= c.max_backoff ==> backoff_of(c, (attempt + 1) as u32) == 2
            * backoff_of(c, attempt),
        2 * backoff_of(c, attempt) > c.max_backoff ==> backoff_of(c, (attempt + 1) as u32)
            == c.max_backoff,
{
    lemma_pow2_unfold(attempt as nat);
    let a = multiplier_of(attempt);
    let b = multiplier_of((attempt + 1) as u32);
    if attempt == 1 {
        assert(pow2(0) == 1) by {
            vstd::arithmetic::power2::lemma2_to64();
        }
    }
    assert(b == 2 * a);
    let x = c.initial_backoff as int;
    assert(x * b == 2 * (x * a)) by (nonlinear_arith)
        requires
            b == 2 * a,
    ;
    assert(x * 1 == x);
    assert(x * a >= 0) by (nonlinear_arith)
        requires
            x >= 0,
            a >= 0,
    ;
}

/// What failed is tried again just where the failure may pass and an attempt is
/// left; the first attempt is none of the retries.
pub proof fn law_retry_while_attempts_are_left(a: Attempts, may_pass: bool)
    ensures
        step_after(a, may_pass) is Retry <==> may_pass && a.made <= a.config.max_retries,
        step_after(a, may_pass) matches RetryStep::Retry { backoff } ==> backoff <= u64::MAX
            && backoff == backoff_of(a.config, a.made),
{
    crate::llm::retry::law_backoff_is_bounded(a.config, a.made);
}

/// Only what may pass by itself is tried again: time-outs, too many requests and
/// failures of the server. A model that is not there does not pass.
pub proof fn law_what_may_pass(status: u16, message: Seq<char>)
    ensures
        is_transient_status(status) <==> (status == 408 || status == 429 || status == 500 || status
            == 502 || status == 503 || status == 504),
        400 <= status < 500 && status != 408 && status != 429 ==> !is_transient_status(status),
        has_text(lowercase_of(message), "model_not_found"@) ==> is_route_error(message),
        has_text(lowercase_of(message), "model not found"@) ==> is_route_error(message),
        has_text(lowercase_of(message), "no available channel"@) ==> is_route_error(message),
        has_text(lowercase_of(message), "没有可用渠道"@) ==> is_route_error(message),
        is_route_error(message) ==> has_text(lowercase_of(message), "model_not_found"@) || has_text(
            lowercase_of(message),
            "model not found"@,
        ) || has_text(lowercase_of(message), "no available channel"@) || has_text(
            lowercase_of(message),
            "没有可用渠道"@,
        ),
{
}

/// A failure on the way is tried again where it is one of time, of the
/// connection, of the request or of the body, or was caused by a connection
/// that broke, and not where the request was wrong, led elsewhere or was
/// answered.
pub proof fn law_failures_on_the_way(f: TransportFailure, i: int)
    ensures
        f.is_builder || f.is_redirect || f.is_status ==> !is_transient_failure(f),
        !f.is_builder && !f.is_redirect && !f.is_status && (f.is_timeout || f.is_connect
            || f.is_request || f.is_body) ==> is_transient_failure(f),
        !f.is_builder && !f.is_redirect && !f.is_status && 0 <= i < f.causes@.len()
            && f.causes@[i] != IoFailure::Other ==> is_transient_failure(f),
        is_transient_failure(f) && !f.is_timeout && !f.is_connect && !f.is_request && !f.is_body
            ==> exists|k: int|
            0 <= k < f.causes@.len() && #[trigger] f.causes@[k] != IoFailure::Other,
{
}

// ---------------------------------------------------------------------------
// The echo
// ---------------------------------------------------------------------------

/// The echo has what the user said last, whatever others said since.
pub proof fn law_echo_of_the_user(messages: Seq<MessageView>, m: MessageView)
    ensures
        m.role == MessageRole::User ==> last_said(messages.push(m)) == text_of_blocks(m.content),
        m.role != MessageRole::User ==> last_said(messages.push(m)) == last_said(messages),
        last_said(Seq::empty()).len() == 0,
        ({
            let said = last_said(messages);
            said.len() > 0 ==> has_text(echo_of(said), said)
        }),
{
    reveal_strlit("");
    assert(messages.push(m).drop_last() =~= messages);
    let said = last_said(messages);
    if said.len() > 0 {
        let a = "[回声模式] 收到你的消息: "@;
        let b = "\n\n提示: 配置 ZHIPU_API_KEY 环境变量以启用真实 AI 响应。"@;
        assert(echo_of(said) == a + said + b);
        assert((a + said + b).subrange(a.len() as int, a.len() + said.len() as int) =~= said);
        assert(crate::text::occurs_at(echo_of(said), said, a.len() as int));
    }
}

// ---------------------------------------------------------------------------
// Streams
// ---------------------------------------------------------------------------

/// A chunk that says something tells it: its text as a text, its thoughts as
/// thoughts, in this order, and at its end why the reply stopped and what it
/// took.
pub proof fn law_chunk_is_told(p: Progress, chunk: JsonView, choice: JsonView, delta: JsonView)
    requires
        chunk.get("choices"@) == Some(JsonView::Array(seq![choice])),
        choice.get("delta"@) == Some(delta),
        delta.get("tool_calls"@) is None,
    ensures
        ({
            let q = chunk_added(p, chunk);
            let text = delta.get("content"@);
            let thought = delta.get("reasoning_content"@);
            let says = text is Some && text->0 is Str && text->0->Str_0.len() > 0;
            let thinks = thought is Some && thought->0 is Str && thought->0->Str_0.len() > 0;
            let n = p.events.len() as int;
            &&& q.events.len() >= n && q.events.take(n) == p.events
            &&& says ==> q.events[n] == (StreamEventView::TextDelta { text: text->0->Str_0 })
            &&& thinks ==> q.events[if says { n + 1 } else { n }]
                == (StreamEventView::ThinkingDelta { content: thought->0->Str_0 })
            &&& choice.get("finish_reason"@) is None ==> q.calls == p.calls && q.events.len() == n
                + (if says { 1int } else { 0int }) + (if thinks { 1int } else { 0int })
            &&& choice.get("finish_reason"@) matches Some(JsonView::Str(s)) ==> (q.events.last()
                matches StreamEventView::Done { finish_reason, usage } && finish_reason == Some(
                finish_reason_of(s),
            ) && (chunk.get("usage"@) is None ==> usage is None) && (chunk.get("usage"@)
                matches Some(u) ==> usage is Some && (u.get("prompt_tokens"@)
                matches Some(JsonView::Unsigned(k)) ==> usage->0.prompt_tokens == k) && (u.get(
                "completion_tokens"@,
            ) matches Some(JsonView::Unsigned(k)) ==> usage->0.completion_tokens == k) && (u.get(
                "total_tokens"@,
            ) matches Some(JsonView::Unsigned(k)) ==> usage->0.total_tokens == k)
                && usage->0.cache_creation_input_tokens == 0 && usage->0.cache_read_input_tokens
                == 0))
        }),
{
    let choices = seq![choice];
    reveal_with_fuel(choices_added, 2);
    assert(choices.drop_last() =~= Seq::<JsonView>::empty());
    let q = chunk_added(p, chunk);
    let n = p.events.len() as int;
    assert(q.events.take(n) =~= p.events);
}

/// A line that begins with a colon or is empty says nothing; one that is marked
/// as data says what follows the mark.
pub proof fn law_lines_of_data(line: Seq<char>, data: Seq<char>)
    ensures
        line.len() == 0 ==> line_data(line) is None,
        line.len() > 0 && line[0] == ':' ==> line_data(line) is None,
        line_data("data: "@ + data) == Some(data),
{
    reveal_strlit("data: ");
    let l = "data: "@ + data;
    assert(l.subrange(0, 6) =~= "data: "@);
    assert(l.skip(6) =~= data);
}

/// A frame is taken from the buffer up to the first empty line, and what follows
/// stays; without an empty line everything stays.
pub proof fn law_frame_is_taken(b: Seq<u8>, i: int)
    requires
        0 <= i,
        i + 1 < b.len(),
        b[i] == 10,
        b[i + 1] == 10,
        forall|k: int| 0 <= k < i ==> !(#[trigger] b[k] == 10 && b[k + 1] == 10),
    ensures
        frame_taken(b).1 == b.skip(i + 2),
        frame_taken(b).0 == frame_data(crate::text::lossy_text_of(b.take(i + 2))),
{
    assert forall|k: int| 0 <= k < i implies !#[trigger] crate::llm::stream::frame_ends_at(b, k) by {
        assert(!(b[k] == 10 && b[k + 1] == 10));
    }
    crate::llm::stream::lemma_frame_end_is(b, 0, i);
}

} // verus!
