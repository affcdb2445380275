//! Which model each brain uses, and where it is found.

use crate::json::{Json, JsonView};
use crate::keyed::{find_keyed, keyed_item, Keyed};
use crate::llm::error::{LlmError, LlmErrorView};
use crate::llm::http_client::{check_proxy, proxy_problem, url_scheme_of};
use crate::paths::{join_path, path_of};
use crate::replicate::Replicate;
use crate::text::{same, trim, trimmed};
use crate::walk::{no_items, push_one};
use vstd::prelude::*;

verus! {

/// The protocol that a provider speaks.
#[derive(Debug, Clone, Copy, PartialEq, Eq, Structural)]
pub enum ProviderKind {
    OpenAi,
    Gemini,
}

impl DeepView for ProviderKind {
    type V = ProviderKind;

    open spec fn deep_view(&self) -> ProviderKind {
        *self
    }
}

impl Replicate for ProviderKind {
    fn replicate(&self) -> (r: Self) {
        *self
    }
}

impl Default for ProviderKind {
    fn default() -> (r: Self)
        ensures
            r == ProviderKind::OpenAi,
    {
        ProviderKind::OpenAi
    }
}

/// The proxy for all providers.
#[derive(Debug, PartialEq)]
pub struct ProxySection {
    pub default: Option<String>,
}

/// What that section is.
#[verifier::ext_equal]
pub struct ProxySectionView {
    pub default: Option<Seq<char>>,
}

impl DeepView for ProxySection {
    type V = ProxySectionView;

    open spec fn deep_view(&self) -> ProxySectionView {
        ProxySectionView {
            default: self.default.deep_view(),
        }
    }
}

impl Replicate for ProxySection {
    fn replicate(&self) -> (r: Self) {
        ProxySection {
            default: self.default.replicate(),
        }
    }
}

/// How a brain has its model generate.
#[derive(Debug, PartialEq)]
pub struct BrainParams {
    pub max_tokens: u32,
    /// The sampling temperature, as it is written in decimal.
    pub temperature: String,
}

/// What those parameters are.
#[verifier::ext_equal]
pub struct BrainParamsView {
    pub max_tokens: u32,
    pub temperature: Seq<char>,
}

impl DeepView for BrainParams {
    type V = BrainParamsView;

    open spec fn deep_view(&self) -> BrainParamsView {
        BrainParamsView {
            max_tokens: self.max_tokens,
            temperature: self.temperature@,
        }
    }
}

impl Replicate for BrainParams {
    fn replicate(&self) -> (r: Self) {
        BrainParams {
            max_tokens: self.max_tokens,
            temperature: self.temperature.clone(),
        }
    }
}

/// What a brain uses in the end.
#[derive(Debug, PartialEq)]
pub struct ResolvedModelPolicy {
    pub policy_id: String,
    pub provider: String,
    pub model: String,
    pub max_output_tokens: u32,
    /// The sampling temperature, as it is written in decimal.
    pub temperature: String,
}

/// What that is.
#[verifier::ext_equal]
pub struct ResolvedModelPolicyView {
    pub policy_id: Seq<char>,
    pub provider: Seq<char>,
    pub model: Seq<char>,
    pub max_output_tokens: u32,
    pub temperature: Seq<char>,
}

impl DeepView for ResolvedModelPolicy {
    type V = ResolvedModelPolicyView;

    open spec fn deep_view(&self) -> ResolvedModelPolicyView {
        ResolvedModelPolicyView {
            policy_id: self.policy_id@,
            provider: self.provider@,
            model: self.model@,
            max_output_tokens: self.max_output_tokens,
            temperature: self.temperature@,
        }
    }
}

impl Replicate for ResolvedModelPolicy {
    fn replicate(&self) -> (r: Self) {
        ResolvedModelPolicy {
            policy_id: self.policy_id.clone(),
            provider: self.provider.clone(),
            model: self.model.clone(),
            max_output_tokens: self.max_output_tokens,
            temperature: self.temperature.clone(),
        }
    }
}

/// Where a provider is found.
#[derive(Debug, PartialEq)]
pub struct ProviderConfig {
    pub api_base: String,
    /// The variable of the environment that holds the key.
    pub api_key_env: String,
    pub api_key: Option<String>,
    pub kind: ProviderKind,
    /// The proxy: as for all where there is none here, no proxy where it is `none` or blank.
    pub proxy: Option<String>,
}

/// What that is.
#[verifier::ext_equal]
pub struct ProviderConfigView {
    pub api_base: Seq<char>,
    pub api_key_env: Seq<char>,
    pub api_key: Option<Seq<char>>,
    pub kind: ProviderKind,
    pub proxy: Option<Seq<char>>,
}

impl DeepView for ProviderConfig {
    type V = ProviderConfigView;

    open spec fn deep_view(&self) -> ProviderConfigView {
        ProviderConfigView {
            api_base: self.api_base@,
            api_key_env: self.api_key_env@,
            api_key: self.api_key.deep_view(),
            kind: self.kind,
            proxy: self.proxy.deep_view(),
        }
    }
}

impl Replicate for ProviderConfig {
    fn replicate(&self) -> (r: Self) {
        ProviderConfig {
            api_base: self.api_base.clone(),
            api_key_env: self.api_key_env.clone(),
            api_key: self.api_key.replicate(),
            kind: self.kind,
            proxy: self.proxy.replicate(),
        }
    }
}

/// The parameters of the brains that have none of their own.
#[derive(Debug, PartialEq)]
pub struct LlmDefaults {
    pub max_tokens: u32,
    /// The sampling temperature, as it is written in decimal.
    pub temperature: String,
}

/// What those are.
#[verifier::ext_equal]
pub struct LlmDefaultsView {
    pub max_tokens: u32,
    pub temperature: Seq<char>,
}

impl DeepView for LlmDefaults {
    type V = LlmDefaultsView;

    open spec fn deep_view(&self) -> LlmDefaultsView {
        LlmDefaultsView {
            max_tokens: self.max_tokens,
            temperature: self.temperature@,
        }
    }
}

impl Replicate for LlmDefaults {
    fn replicate(&self) -> (r: Self) {
        LlmDefaults {
            max_tokens: self.max_tokens,
            temperature: self.temperature.clone(),
        }
    }
}

/// A text under a name.
#[derive(Debug, PartialEq)]
pub struct NamedText {
    pub name: String,
    pub value: String,
}

/// What such a text is.
#[verifier::ext_equal]
pub struct NamedTextView {
    pub name: Seq<char>,
    pub value: Seq<char>,
}

impl DeepView for NamedText {
    type V = NamedTextView;

    open spec fn deep_view(&self) -> NamedTextView {
        NamedTextView {
            name: self.name@,
            value: self.value@,
        }
    }
}

impl Replicate for NamedText {
    fn replicate(&self) -> (r: Self) {
        NamedText {
            name: self.name.clone(),
            value: self.value.clone(),
        }
    }
}

/// A provider under a name.
#[derive(Debug, PartialEq)]
pub struct NamedProvider {
    pub name: String,
    pub config: ProviderConfig,
}

/// What such a provider is.
#[verifier::ext_equal]
pub struct NamedProviderView {
    pub name: Seq<char>,
    pub config: ProviderConfigView,
}

impl DeepView for NamedProvider {
    type V = NamedProviderView;

    open spec fn deep_view(&self) -> NamedProviderView {
        NamedProviderView {
            name: self.name@,
            config: self.config.deep_view(),
        }
    }
}

impl Replicate for NamedProvider {
    fn replicate(&self) -> (r: Self) {
        NamedProvider {
            name: self.name.clone(),
            config: self.config.replicate(),
        }
    }
}

/// The parameters of a brain.
#[derive(Debug, PartialEq)]
pub struct NamedParams {
    pub name: String,
    pub params: BrainParams,
}

/// What those are.
#[verifier::ext_equal]
pub struct NamedParamsView {
    pub name: Seq<char>,
    pub params: BrainParamsView,
}

impl DeepView for NamedParams {
    type V = NamedParamsView;

    open spec fn deep_view(&self) -> NamedParamsView {
        NamedParamsView {
            name: self.name@,
            params: self.params.deep_view(),
        }
    }
}

impl Replicate for NamedParams {
    fn replicate(&self) -> (r: Self) {
        NamedParams {
            name: self.name.clone(),
            params: self.params.replicate(),
        }
    }
}

impl Keyed for NamedText {
    open spec fn key_of(v: NamedTextView) -> Seq<char> {
        v.name
    }

    fn key(&self) -> (r: &str) {
        self.name.as_str()
    }
}

impl Keyed for NamedProvider {
    open spec fn key_of(v: NamedProviderView) -> Seq<char> {
        v.name
    }

    fn key(&self) -> (r: &str) {
        self.name.as_str()
    }
}

impl Keyed for NamedParams {
    open spec fn key_of(v: NamedParamsView) -> Seq<char> {
        v.name
    }

    fn key(&self) -> (r: &str) {
        self.name.as_str()
    }
}

/// The thresholds of the brains.
#[derive(Debug, PartialEq)]
pub struct BrainSection {
    /// Each as it is written in decimal.
    pub thresholds: Vec<NamedText>,
}

/// What that section is.
#[verifier::ext_equal]
pub struct BrainSectionView {
    pub thresholds: Seq<NamedTextView>,
}

impl DeepView for BrainSection {
    type V = BrainSectionView;

    open spec fn deep_view(&self) -> BrainSectionView {
        BrainSectionView {
            thresholds: self.thresholds.deep_view(),
        }
    }
}

impl Replicate for BrainSection {
    fn replicate(&self) -> (r: Self) {
        BrainSection {
            thresholds: self.thresholds.replicate(),
        }
    }
}

/// The models and where they are found.
#[derive(Debug, PartialEq)]
pub struct LlmSection {
    pub default_provider: String,
    pub default_model: String,
    pub providers: Vec<NamedProvider>,
    pub brain_models: Vec<NamedText>,
    pub brain_params: Vec<NamedParams>,
    pub brain_providers: Vec<NamedText>,
    pub defaults: LlmDefaults,
}

/// What that section is.
#[verifier::ext_equal]
pub struct LlmSectionView {
    pub default_provider: Seq<char>,
    pub default_model: Seq<char>,
    pub providers: Seq<NamedProviderView>,
    pub brain_models: Seq<NamedTextView>,
    pub brain_params: Seq<NamedParamsView>,
    pub brain_providers: Seq<NamedTextView>,
    pub defaults: LlmDefaultsView,
}

impl DeepView for LlmSection {
    type V = LlmSectionView;

    open spec fn deep_view(&self) -> LlmSectionView {
        LlmSectionView {
            default_provider: self.default_provider@,
            default_model: self.default_model@,
            providers: self.providers.deep_view(),
            brain_models: self.brain_models.deep_view(),
            brain_params: self.brain_params.deep_view(),
            brain_providers: self.brain_providers.deep_view(),
            defaults: self.defaults.deep_view(),
        }
    }
}

impl Replicate for LlmSection {
    fn replicate(&self) -> (r: Self) {
        LlmSection {
            default_provider: self.default_provider.clone(),
            default_model: self.default_model.clone(),
            providers: self.providers.replicate(),
            brain_models: self.brain_models.replicate(),
            brain_params: self.brain_params.replicate(),
            brain_providers: self.brain_providers.replicate(),
            defaults: self.defaults.replicate(),
        }
    }
}

/// All that is set up.
#[derive(Debug, PartialEq)]
pub struct LlmConfig {
    pub llm: LlmSection,
    pub brain: BrainSection,
    pub proxy: ProxySection,
    /// What is set up for hooks, as it stands.
    pub hooks: Option<Json>,
}

/// What is set up.
#[verifier::ext_equal]
pub struct LlmConfigView {
    pub llm: LlmSectionView,
    pub brain: BrainSectionView,
    pub proxy: ProxySectionView,
    pub hooks: Option<JsonView>,
}

impl DeepView for LlmConfig {
    type V = LlmConfigView;

    open spec fn deep_view(&self) -> LlmConfigView {
        LlmConfigView {
            llm: self.llm.deep_view(),
            brain: self.brain.deep_view(),
            proxy: self.proxy.deep_view(),
            hooks: self.hooks.deep_view(),
        }
    }
}

impl Replicate for LlmConfig {
    fn replicate(&self) -> (r: Self) {
        LlmConfig {
            llm: self.llm.replicate(),
            brain: self.brain.replicate(),
            proxy: self.proxy.replicate(),
            hooks: self.hooks.replicate(),
        }
    }
}

impl Default for ProviderConfig {
    fn default() -> (r: Self)
        ensures
            r.deep_view() == (ProviderConfigView {
                api_base: ""@,
                api_key_env: ""@,
                api_key: None,
                kind: ProviderKind::OpenAi,
                proxy: None,
            }),
    {
        ProviderConfig {
            api_base: "".to_owned(),
            api_key_env: "".to_owned(),
            api_key: None,
            kind: ProviderKind::OpenAi,
            proxy: None,
        }
    }
}

impl Default for LlmDefaults {
    fn default() -> (r: Self)
        ensures
            r.deep_view() == (LlmDefaultsView { max_tokens: 4096, temperature: "0.7"@ }),
    {
        LlmDefaults { max_tokens: 4096, temperature: "0.7".to_owned() }
    }
}

/// A text under its name.
pub open spec fn named(name: Seq<char>, value: Seq<char>) -> NamedTextView {
    NamedTextView { name, value }
}

/// A provider that keeps its key in the environment, under its name.
pub open spec fn provider(
    name: Seq<char>,
    api_base: Seq<char>,
    api_key_env: Seq<char>,
    kind: ProviderKind,
) -> NamedProviderView {
    NamedProviderView {
        name,
        config: ProviderConfigView { api_base, api_key_env, api_key: None, kind, proxy: None },
    }
}

/// The parameters of a brain.
pub open spec fn params(name: Seq<char>, max_tokens: u32, temperature: Seq<char>) -> NamedParamsView {
    NamedParamsView { name, params: BrainParamsView { max_tokens, temperature } }
}

fn add_named(items: &mut Vec<NamedText>, name: &str, value: &str)
    ensures
        final(items).deep_view() == old(items).deep_view().push(named(name@, value@)),
{
    push_one(items, NamedText { name: name.to_owned(), value: value.to_owned() });
}

fn add_provider(
    items: &mut Vec<NamedProvider>,
    name: &str,
    api_base: &str,
    api_key_env: &str,
    kind: ProviderKind,
)
    ensures
        final(items).deep_view() == old(items).deep_view().push(
            provider(name@, api_base@, api_key_env@, kind),
        ),
{
    push_one(
        items,
        NamedProvider {
            name: name.to_owned(),
            config: ProviderConfig {
                api_base: api_base.to_owned(),
                api_key_env: api_key_env.to_owned(),
                api_key: None,
                kind,
                proxy: None,
            },
        },
    );
}

fn add_params(items: &mut Vec<NamedParams>, name: &str, max_tokens: u32, temperature: &str)
    ensures
        final(items).deep_view() == old(items).deep_view().push(
            params(name@, max_tokens, temperature@),
        ),
{
    push_one(
        items,
        NamedParams {
            name: name.to_owned(),
            params: BrainParams { max_tokens, temperature: temperature.to_owned() },
        },
    );
}

/// The providers that are known from the start.
pub open spec fn default_provider_list() -> Seq<NamedProviderView> {
    seq![
        provider("xiaomi"@, "https://xiaomi-llm.example.com/v1"@, "XIAOMI_API_KEY"@, ProviderKind::OpenAi),
        provider("deepseek"@, "https://api.deepseek.com/v1"@, "DEEPSEEK_API_KEY"@, ProviderKind::OpenAi),
        provider("zhipu"@, "https://open.bigmodel.cn/api/paas/v4"@, "ZHIPU_API_KEY"@, ProviderKind::OpenAi),
        provider("kimi"@, "https://api.moonshot.ai/v1"@, "MOONSHOT_API_KEY"@, ProviderKind::OpenAi),
        provider("gemini"@, "https://generativelanguage.googleapis.com/v1beta"@, "GEMINI_API_KEY"@, ProviderKind::Gemini),
    ]
}

/// The models of the brains from the start.
pub open spec fn default_models() -> Seq<NamedTextView> {
    seq![
        named("main"@, "mimo-7b"@),
        named("sensory"@, "mimo-7b"@),
        named("reasoning"@, "mimo-7b"@),
        named("memory"@, "mimo-7b"@),
        named("eval"@, "deepseek-chat"@),
        named("evolver"@, "mimo-7b"@),
    ]
}

/// The providers of the brains from the start.
pub open spec fn default_brain_providers() -> Seq<NamedTextView> {
    seq![
        named("main"@, "xiaomi"@),
        named("memory"@, "xiaomi"@),
        named("eval"@, "deepseek"@),
        named("evolver"@, "xiaomi"@),
    ]
}

/// The parameters of the brains from the start.
pub open spec fn default_params() -> Seq<NamedParamsView> {
    seq![
        params("main"@, 32768, "0.7"@),
        params("memory"@, 32768, "0.3"@),
        params("eval"@, 16384, "0.3"@),
        params("evolver"@, 16384, "0.3"@),
        params("sensory"@, 8192, "0.3"@),
        params("reasoning"@, 8192, "0.5"@),
        params("compact"@, 4096, "0.3"@),
    ]
}

/// What is set up from the start.
pub open spec fn default_llm_config() -> LlmConfigView {
    LlmConfigView {
        llm: LlmSectionView {
            default_provider: "xiaomi"@,
            default_model: "mimo-7b"@,
            providers: default_provider_list(),
            brain_models: default_models(),
            brain_params: default_params(),
            brain_providers: default_brain_providers(),
            defaults: LlmDefaultsView { max_tokens: 4096, temperature: "0.7"@ },
        },
        brain: BrainSectionView { thresholds: Seq::empty() },
        proxy: ProxySectionView { default: None },
        hooks: None,
    }
}

fn make_default_providers() -> (r: Vec<NamedProvider>)
    ensures
        r.deep_view() == default_provider_list(),
{
    let mut r: Vec<NamedProvider> = no_items();
    add_provider(
        &mut r,
        "xiaomi",
        "https://xiaomi-llm.example.com/v1",
        "XIAOMI_API_KEY",
        ProviderKind::OpenAi,
    );
    add_provider(
        &mut r,
        "deepseek",
        "https://api.deepseek.com/v1",
        "DEEPSEEK_API_KEY",
        ProviderKind::OpenAi,
    );
    add_provider(
        &mut r,
        "zhipu",
        "https://open.bigmodel.cn/api/paas/v4",
        "ZHIPU_API_KEY",
        ProviderKind::OpenAi,
    );
    add_provider(
        &mut r,
        "kimi",
        "https://api.moonshot.ai/v1",
        "MOONSHOT_API_KEY",
        ProviderKind::OpenAi,
    );
    add_provider(
        &mut r,
        "gemini",
        "https://generativelanguage.googleapis.com/v1beta",
        "GEMINI_API_KEY",
        ProviderKind::Gemini,
    );
    assert(r.deep_view() =~= default_provider_list());
    r
}

fn make_default_models() -> (r: Vec<NamedText>)
    ensures
        r.deep_view() == default_models(),
{
    let mut r: Vec<NamedText> = no_items();
    add_named(&mut r, "main", "mimo-7b");
    add_named(&mut r, "sensory", "mimo-7b");
    add_named(&mut r, "reasoning", "mimo-7b");
    add_named(&mut r, "memory", "mimo-7b");
    add_named(&mut r, "eval", "deepseek-chat");
    add_named(&mut r, "evolver", "mimo-7b");
    assert(r.deep_view() =~= default_models());
    r
}

fn make_default_brain_providers() -> (r: Vec<NamedText>)
    ensures
        r.deep_view() == default_brain_providers(),
{
    let mut r: Vec<NamedText> = no_items();
    add_named(&mut r, "main", "xiaomi");
    add_named(&mut r, "memory", "xiaomi");
    add_named(&mut r, "eval", "deepseek");
    add_named(&mut r, "evolver", "xiaomi");
    assert(r.deep_view() =~= default_brain_providers());
    r
}

fn make_default_params() -> (r: Vec<NamedParams>)
    ensures
        r.deep_view() == default_params(),
{
    let mut r: Vec<NamedParams> = no_items();
    add_params(&mut r, "main", 32768, "0.7");
    add_params(&mut r, "memory", 32768, "0.3");
    add_params(&mut r, "eval", 16384, "0.3");
    add_params(&mut r, "evolver", 16384, "0.3");
    add_params(&mut r, "sensory", 8192, "0.3");
    add_params(&mut r, "reasoning", 8192, "0.5");
    add_params(&mut r, "compact", 4096, "0.3");
    assert(r.deep_view() =~= default_params());
    r
}

/// The text under a name, or another where there is none.
pub open spec fn named_or(items: Seq<NamedTextView>, name: Seq<char>, other: Seq<char>) -> Seq<
    char,
> {
    match keyed_item::<NamedText>(items, name) {
        Some(x) => x.value,
        None => other,
    }
}

/// The parameters of a brain.
pub open spec fn params_of(c: LlmConfigView, brain: Seq<char>) -> (u32, Seq<char>) {
    match keyed_item::<NamedParams>(c.llm.brain_params, brain) {
        Some(x) => (x.params.max_tokens, x.params.temperature),
        None => (c.llm.defaults.max_tokens, c.llm.defaults.temperature),
    }
}

/// What a brain uses in the end.
pub open spec fn policy_of(c: LlmConfigView, id: Seq<char>) -> ResolvedModelPolicyView {
    ResolvedModelPolicyView {
        policy_id: id,
        provider: named_or(c.llm.brain_providers, id, c.llm.default_provider),
        model: named_or(c.llm.brain_models, id, c.llm.default_model),
        max_output_tokens: params_of(c, id).0,
        temperature: params_of(c, id).1,
    }
}

/// The key of a provider, by what the environment holds under its variable:
/// the environment counts first.
pub open spec fn api_key_of(
    c: LlmConfigView,
    name: Seq<char>,
    env: Option<Seq<char>>,
) -> Result<Seq<char>, LlmErrorView> {
    match keyed_item::<NamedProvider>(c.llm.providers, name) {
        None => Err(LlmErrorView::ProviderNotFound(name)),
        Some(p) => if p.config.api_key_env.len() > 0 && env is Some {
            Ok(env->0)
        } else {
            match p.config.api_key {
                Some(key) => Ok(key),
                None => Err(LlmErrorView::ApiKeyNotFound(p.config.api_key_env)),
            }
        },
    }
}

/// The proxy of a provider.
pub open spec fn proxy_of(c: LlmConfigView, name: Seq<char>) -> Result<
    Option<Seq<char>>,
    LlmErrorView,
> {
    match keyed_item::<NamedProvider>(c.llm.providers, name) {
        None => Err(LlmErrorView::ProviderNotFound(name)),
        Some(p) => Ok(
            match p.config.proxy {
                Some(s) => if s == "none"@ || trimmed(s).len() == 0 {
                    None
                } else {
                    Some(s)
                },
                None => c.proxy.default,
            },
        ),
    }
}

/// What is needed to reach the model of a brain.
#[derive(Debug, PartialEq)]
pub struct ClientPlan {
    pub kind: ProviderKind,
    pub api_base: String,
    pub api_key: String,
    pub model: String,
    pub max_tokens: u32,
    /// The sampling temperature, as it is written in decimal.
    pub temperature: String,
    pub proxy_url: Option<String>,
}

/// What that is.
#[verifier::ext_equal]
pub struct ClientPlanView {
    pub kind: ProviderKind,
    pub api_base: Seq<char>,
    pub api_key: Seq<char>,
    pub model: Seq<char>,
    pub max_tokens: u32,
    pub temperature: Seq<char>,
    pub proxy_url: Option<Seq<char>>,
}

impl DeepView for ClientPlan {
    type V = ClientPlanView;

    open spec fn deep_view(&self) -> ClientPlanView {
        ClientPlanView {
            kind: self.kind,
            api_base: self.api_base@,
            api_key: self.api_key@,
            model: self.model@,
            max_tokens: self.max_tokens,
            temperature: self.temperature@,
            proxy_url: self.proxy_url.deep_view(),
        }
    }
}

impl Replicate for ClientPlan {
    fn replicate(&self) -> (r: Self) {
        ClientPlan {
            kind: self.kind,
            api_base: self.api_base.clone(),
            api_key: self.api_key.clone(),
            model: self.model.clone(),
            max_tokens: self.max_tokens,
            temperature: self.temperature.clone(),
            proxy_url: self.proxy_url.replicate(),
        }
    }
}

/// What is needed to reach the model of a brain, by what the environment holds
/// and whether its proxy can be used: the proxy is looked at for the protocol of
/// Gemini only.
pub open spec fn plan_of(
    c: LlmConfigView,
    brain: Seq<char>,
    env: Option<Seq<char>>,
    problem: Option<LlmErrorView>,
) -> Result<ClientPlanView, LlmErrorView> {
    let policy = policy_of(c, brain);
    match api_key_of(c, policy.provider, env) {
        Err(e) => Err(e),
        Ok(api_key) => {
            let p = keyed_item::<NamedProvider>(c.llm.providers, policy.provider)->0.config;
            if p.kind == ProviderKind::Gemini && problem is Some {
                Err(problem->0)
            } else {
                Ok(
                    ClientPlanView {
                        kind: p.kind,
                        api_base: p.api_base,
                        api_key,
                        model: policy.model,
                        max_tokens: policy.max_output_tokens,
                        temperature: policy.temperature,
                        proxy_url: proxy_of(c, policy.provider)->Ok_0,
                    },
                )
            }
        },
    }
}

/// What is wrong with the proxy of a brain's provider.
pub open spec fn brain_proxy_problem(c: LlmConfigView, brain: Seq<char>) -> Option<LlmErrorView> {
    match proxy_of(c, policy_of(c, brain).provider) {
        Ok(Some(url)) => proxy_problem(url, url_scheme_of(url)),
        _ => None,
    }
}

fn find_named<'a>(items: &'a Vec<NamedText>, name: &str, other: &'a str) -> (r: &'a str)
    ensures
        r@ == named_or(items.deep_view(), name@, other@),
{
    match find_keyed(items, name) {
        Some(i) => {
            assert(items.deep_view()[i as int] == items@[i as int].deep_view());
            items[i].value.as_str()
        },
        None => other,
    }
}

impl LlmConfig {
    /// The file of the configuration, below the home directory that the
    /// environment names.
    pub fn default_config_path(home: Option<&str>, user_profile: Option<&str>) -> (r: String)
        ensures
            r@ == path_of(
                path_of(
                    match (home.deep_view(), user_profile.deep_view()) {
                        (Some(h), _) => h,
                        (None, Some(u)) => u,
                        (None, None) => "/tmp"@,
                    },
                    ".ai-brain"@,
                ),
                "config.toml"@,
            ),
    {
        let base = match home {
            Some(h) => h,
            None => match user_profile {
                Some(u) => u,
                None => "/tmp",
            },
        };
        let dir = join_path(base, ".ai-brain");
        join_path(dir.as_str(), "config.toml")
    }

    /// The model of a brain.
    pub fn model_for_brain(&self, brain_name: &str) -> (r: &str)
        ensures
            r@ == named_or(
                self.deep_view().llm.brain_models,
                brain_name@,
                self.llm.default_model@,
            ),
    {
        find_named(&self.llm.brain_models, brain_name, self.llm.default_model.as_str())
    }

    /// The provider of a brain.
    pub fn provider_for_brain(&self, brain_name: &str) -> (r: &str)
        ensures
            r@ == named_or(
                self.deep_view().llm.brain_providers,
                brain_name@,
                self.llm.default_provider@,
            ),
    {
        find_named(&self.llm.brain_providers, brain_name, self.llm.default_provider.as_str())
    }

    /// The parameters of a brain: its own, or those for all.
    pub fn params_for_brain(&self, brain_name: &str) -> (r: (u32, String))
        ensures
            (r.0, r.1@) == params_of(self.deep_view(), brain_name@),
    {
        match find_keyed(&self.llm.brain_params, brain_name) {
            Some(i) => {
                let p = &self.llm.brain_params[i];
                assert(self.llm.brain_params.deep_view()[i as int] == p.deep_view());
                (p.params.max_tokens, p.params.temperature.clone())
            },
            None => (self.llm.defaults.max_tokens, self.llm.defaults.temperature.clone()),
        }
    }

    /// What a brain uses in the end.
    pub fn resolve_model_policy(&self, policy_id: &str) -> (r: ResolvedModelPolicy)
        ensures
            r.deep_view() == policy_of(self.deep_view(), policy_id@),
    {
        let p = self.params_for_brain(policy_id);
        ResolvedModelPolicy {
            policy_id: policy_id.to_owned(),
            provider: self.provider_for_brain(policy_id).to_owned(),
            model: self.model_for_brain(policy_id).to_owned(),
            max_output_tokens: p.0,
            temperature: p.1,
        }
    }

    /// The variable of the environment that holds the key of a provider.
    pub fn api_key_variable(&self, provider_name: &str) -> (r: Option<String>)
        ensures
            r.deep_view() == match keyed_item::<NamedProvider>(
                self.deep_view().llm.providers,
                provider_name@,
            ) {
                Some(p) => if p.config.api_key_env.len() > 0 {
                    Some(p.config.api_key_env)
                } else {
                    None
                },
                None => None,
            },
    {
        match find_keyed(&self.llm.providers, provider_name) {
            Some(i) => {
                let p = &self.llm.providers[i];
                assert(self.llm.providers.deep_view()[i as int] == p.deep_view());
                if p.config.api_key_env.as_str().is_empty() {
                    None
                } else {
                    Some(p.config.api_key_env.clone())
                }
            },
            None => None,
        }
    }

    /// The key of a provider, by what the environment holds under its variable:
    /// the environment counts first.
    pub fn resolve_api_key(&self, provider_name: &str, env: Option<&str>) -> (r: Result<
        String,
        LlmError,
    >)
        ensures
            match api_key_of(self.deep_view(), provider_name@, env.deep_view()) {
                Ok(key) => r is Ok && r->Ok_0@ == key,
                Err(e) => r is Err && r->Err_0.deep_view() == e,
            },
    {
        match find_keyed(&self.llm.providers, provider_name) {
            Some(i) => {
                let p = &self.llm.providers[i];
                assert(self.llm.providers.deep_view()[i as int] == p.deep_view());
                if !p.config.api_key_env.as_str().is_empty() {
                    if let Some(key) = env {
                        return Ok(key.to_owned());
                    }
                }
                match &p.config.api_key {
                    Some(key) => Ok(key.clone()),
                    None => Err(LlmError::ApiKeyNotFound(p.config.api_key_env.clone())),
                }
            },
            None => Err(LlmError::ProviderNotFound(provider_name.to_owned())),
        }
    }

    /// The proxy of a provider: its own, none where it is `none` or blank, or
    /// the one for all.
    pub fn resolve_proxy(&self, provider_name: &str) -> (r: Result<Option<String>, LlmError>)
        ensures
            match proxy_of(self.deep_view(), provider_name@) {
                Ok(p) => r is Ok && r->Ok_0.deep_view() == p,
                Err(e) => r is Err && r->Err_0.deep_view() == e,
            },
    {
        match find_keyed(&self.llm.providers, provider_name) {
            Some(i) => {
                let p = &self.llm.providers[i];
                assert(self.llm.providers.deep_view()[i as int] == p.deep_view());
                match &p.config.proxy {
                    Some(s) => {
                        let bare = trim(s.as_str());
                        if same(s.as_str(), "none") || bare.as_str().is_empty() {
                            Ok(None)
                        } else {
                            Ok(Some(s.clone()))
                        }
                    },
                    None => Ok(self.proxy.default.replicate()),
                }
            },
            None => Err(LlmError::ProviderNotFound(provider_name.to_owned())),
        }
    }

    /// What is needed to reach the model of a brain, by what the environment
    /// holds and whether its proxy can be used.
    pub fn plan_brain_client(
        &self,
        brain_name: &str,
        env: Option<&str>,
        proxy_check: Result<(), LlmError>,
    ) -> (r: Result<ClientPlan, LlmError>)
        ensures
            match plan_of(
                self.deep_view(),
                brain_name@,
                env.deep_view(),
                match proxy_check {
                    Ok(_) => None,
                    Err(e) => Some(e.deep_view()),
                },
            ) {
                Ok(p) => r is Ok && r->Ok_0.deep_view() == p,
                Err(e) => r is Err && r->Err_0.deep_view() == e,
            },
    {
        let policy = self.resolve_model_policy(brain_name);
        let api_key = match self.resolve_api_key(policy.provider.as_str(), env) {
            Ok(key) => key,
            Err(e) => {
                return Err(e);
            },
        };
        let proxy_url = match self.resolve_proxy(policy.provider.as_str()) {
            Ok(p) => p,
            Err(e) => {
                return Err(e);
            },
        };
        match find_keyed(&self.llm.providers, policy.provider.as_str()) {
            Some(i) => {
                let p = &self.llm.providers[i];
                assert(self.llm.providers.deep_view()[i as int] == p.deep_view());
                if p.config.kind == ProviderKind::Gemini {
                    if let Err(e) = proxy_check {
                        return Err(e);
                    }
                }
                Ok(
                    ClientPlan {
                        kind: p.config.kind,
                        api_base: p.config.api_base.clone(),
                        api_key,
                        model: policy.model,
                        max_tokens: policy.max_output_tokens,
                        temperature: policy.temperature,
                        proxy_url,
                    },
                )
            },
            None => Err(LlmError::ProviderNotFound(policy.provider)),
        }
    }

    /// What is needed to reach the model of a brain.
    pub fn create_brain_client(&self, brain_name: &str, env: Option<&str>) -> (r: Result<
        ClientPlan,
        LlmError,
    >)
        ensures
            match plan_of(
                self.deep_view(),
                brain_name@,
                env.deep_view(),
                brain_proxy_problem(self.deep_view(), brain_name@),
            ) {
                Ok(p) => r is Ok && r->Ok_0.deep_view() == p,
                Err(e) => r is Err && r->Err_0.deep_view() == e,
            },
    {
        let policy = self.resolve_model_policy(brain_name);
        let check = match self.resolve_proxy(policy.provider.as_str()) {
            Ok(Some(url)) => check_proxy(Some(url.as_str())),
            _ => Ok(()),
        };
        self.plan_brain_client(brain_name, env, check)
    }

    /// What is set up from the start.
    pub fn default_config() -> (r: Self)
        ensures
            r.deep_view() == default_llm_config(),
    {
        LlmConfig {
            llm: LlmSection {
                default_provider: "xiaomi".to_owned(),
                default_model: "mimo-7b".to_owned(),
                providers: make_default_providers(),
                brain_models: make_default_models(),
                brain_params: make_default_params(),
                brain_providers: make_default_brain_providers(),
                defaults: LlmDefaults::default(),
            },
            brain: BrainSection { thresholds: no_items() },
            proxy: ProxySection { default: None },
            hooks: None,
        }
    }
}

/// A brain without settings of its own uses those for all.
pub proof fn law_brain_falls_back(c: LlmConfigView, brain: Seq<char>)
    requires
        keyed_item::<NamedText>(c.llm.brain_models, brain) is None,
        keyed_item::<NamedText>(c.llm.brain_providers, brain) is None,
        keyed_item::<NamedParams>(c.llm.brain_params, brain) is None,
    ensures
        policy_of(c, brain) == (ResolvedModelPolicyView {
            policy_id: brain,
            provider: c.llm.default_provider,
            model: c.llm.default_model,
            max_output_tokens: c.llm.defaults.max_tokens,
            temperature: c.llm.defaults.temperature,
        }),
{
}

} // verus!
