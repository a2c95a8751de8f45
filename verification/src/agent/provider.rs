//! Provider routing: which endpoint protocol, key and base URL a model's
//! requests go to, and the engine configuration they come from.
//!
//! The host reads the environment and builds the HTTP client for the route.

use vstd::prelude::*;

use crate::credential::{spec_usable_key, usable_env_key, ProviderId};
use crate::error::EngineError;
use crate::message::opt_view;
use crate::text::{chars_of, string_of, trim, trim_chars};

verus! {

/// OpenCode Zen API base shared by all supported endpoint protocols.
pub const OPENCODE_ZEN_BASE_URL: &'static str = "https://opencode.ai/zen/v1";

/// Native Anthropic API base.
pub const ANTHROPIC_BASE_URL: &'static str = "https://api.anthropic.com/v1";

/// Default versioned base URL of the OpenCode Go API.
pub const DEFAULT_BASE_URL: &'static str = "https://opencode.ai/zen/go/v1";

/// Env-var name for overriding [`DEFAULT_BASE_URL`].
pub const ENV_BASE_URL: &'static str = "MEWCODE_ENGINE_BASE_URL";

/// Env-var name for the default model.
pub const ENV_DEFAULT_MODEL: &'static str = "MEWCODE_DEFAULT_MODEL";

/// The endpoint protocol a model is spoken to with.
#[derive(Debug, Clone, Copy, PartialEq, Eq, Structural)]
pub enum ModelKind {
    AnthropicMessages,
    OpenCodeGo,
    OpenCodeZen,
    OpenAiResponses,
    OpenAi,
    DeepSeek,
    OpenRouter,
}

/// Runtime configuration for the engine's providers.
#[derive(Debug)]
pub struct EngineConfig {
    /// OpenCode Go subscription key (empty when not set).
    pub api_key: String,
    pub opencode_zen_api_key: Option<String>,
    pub openai_api_key: Option<String>,
    /// Base URL for the native OpenAI API.
    pub openai_base_url: Option<String>,
    pub anthropic_api_key: Option<String>,
    pub deepseek_api_key: Option<String>,
    pub openrouter_api_key: Option<String>,
    /// Default model used when the client does not name one; `None` is the
    /// model catalogue's own default.
    pub default_model: Option<String>,
    /// Base URL of the OpenCode Go API.
    pub base_url: String,
}

/// The environment values the configuration is read from.
#[derive(Debug)]
pub struct EngineEnv {
    pub opencode_go_api_key: Option<String>,
    pub base_url: Option<String>,
    pub opencode_zen_api_key: Option<String>,
    pub openai_api_key: Option<String>,
    pub anthropic_api_key: Option<String>,
    pub deepseek_api_key: Option<String>,
    pub openrouter_api_key: Option<String>,
    /// The model named by [`ENV_DEFAULT_MODEL`], when it names a known model.
    pub default_model: Option<String>,
}

impl EngineConfig {
    /// The configuration for these environment values: blank keys count as
    /// unset (the OpenCode Go key then is empty), the base URL defaults to
    /// [`DEFAULT_BASE_URL`], the default model is the one the environment
    /// names (else the catalogue's default), and there is no OpenAI base URL
    /// override.
    pub fn from_env_values(env: EngineEnv) -> (r: Self)
        ensures
            r.api_key@ == match spec_usable_key(opt_view(env.opencode_go_api_key)) {
                Some(k) => k,
                None => Seq::empty(),
            },
            r.base_url@ == match env.base_url {
                Some(u) => u@,
                None => DEFAULT_BASE_URL@,
            },
            opt_view(r.opencode_zen_api_key) == spec_usable_key(opt_view(env.opencode_zen_api_key)),
            opt_view(r.openai_api_key) == spec_usable_key(opt_view(env.openai_api_key)),
            r.openai_base_url is None,
            opt_view(r.anthropic_api_key) == spec_usable_key(opt_view(env.anthropic_api_key)),
            opt_view(r.deepseek_api_key) == spec_usable_key(opt_view(env.deepseek_api_key)),
            opt_view(r.openrouter_api_key) == spec_usable_key(opt_view(env.openrouter_api_key)),
            opt_view(r.default_model) == opt_view(env.default_model),
    {
        let api_key = match usable_env_key(env.opencode_go_api_key) {
            Some(k) => k,
            None => String::new(),
        };
        let base_url = match env.base_url {
            Some(u) => u,
            None => string_of(&chars_of(DEFAULT_BASE_URL)),
        };
        EngineConfig {
            api_key,
            opencode_zen_api_key: usable_env_key(env.opencode_zen_api_key),
            openai_api_key: usable_env_key(env.openai_api_key),
            openai_base_url: None,
            anthropic_api_key: usable_env_key(env.anthropic_api_key),
            deepseek_api_key: usable_env_key(env.deepseek_api_key),
            openrouter_api_key: usable_env_key(env.openrouter_api_key),
            default_model: env.default_model,
            base_url,
        }
    }
}

/// Where a model's requests go.
#[derive(Debug)]
pub struct ProviderRoute {
    pub kind: ModelKind,
    pub api_key: String,
    pub base_url: String,
}

/// Why no route could be chosen.
#[derive(Debug)]
pub enum RouteError {
    /// The provider does not speak this endpoint protocol.
    UnsupportedProviderTransport { provider: ProviderId, kind: ModelKind },
    /// The provider's key is missing.
    Engine(EngineError),
}

/// The key and base URL configured for a native provider, or the name of the
/// variable that should have held its key.
pub open spec fn spec_native_key(provider: ProviderId, cfg: EngineConfig) -> Result<
    (Seq<char>, Seq<char>),
    Seq<char>,
> {
    let usable = |k: Option<String>| spec_usable_key(opt_view(k));
    match provider {
        ProviderId::OpenCodeGo => Ok((cfg.api_key@, cfg.base_url@)),
        ProviderId::OpenCodeZen => match usable(cfg.opencode_zen_api_key) {
            Some(k) => Ok((k, OPENCODE_ZEN_BASE_URL@)),
            None => Err("OPENCODE_ZEN_API_KEY"@),
        },
        ProviderId::OpenAi => match usable(cfg.openai_api_key) {
            Some(k) => Ok(
                (
                    k,
                    match cfg.openai_base_url {
                        Some(u) => u@,
                        None => "https://api.openai.com/v1"@,
                    },
                ),
            ),
            None => Err("OPENAI_API_KEY"@),
        },
        ProviderId::Anthropic => match usable(cfg.anthropic_api_key) {
            Some(k) => Ok((k, ANTHROPIC_BASE_URL@)),
            None => Err("ANTHROPIC_API_KEY"@),
        },
        ProviderId::DeepSeek => match usable(cfg.deepseek_api_key) {
            Some(k) => Ok((k, "https://api.deepseek.com"@)),
            None => Err("DEEPSEEK_API_KEY"@),
        },
        ProviderId::OpenRouter => match usable(cfg.openrouter_api_key) {
            Some(k) => Ok((k, "https://openrouter.ai/api/v1"@)),
            None => Err("OPENROUTER_API_KEY"@),
        },
    }
}

fn native_key(key: &Option<String>, missing: &'static str, base_url: &str) -> (r: Result<
    (String, String),
    EngineError,
>)
    ensures
        match spec_usable_key(opt_view(*key)) {
            Some(k) => r matches Ok((a, b)) && a@ == k && b@ == base_url@,
            None => r matches Err(EngineError::MissingNativeApiKey(n)) && n@ == missing@,
        },
{
    match key {
        Some(k) => {
            if trim_chars(&chars_of(k.as_str())).len() == 0 {
                Err(EngineError::MissingNativeApiKey(string_of(&chars_of(missing))))
            } else {
                Ok((k.clone(), string_of(&chars_of(base_url))))
            }
        },
        None => Err(EngineError::MissingNativeApiKey(string_of(&chars_of(missing)))),
    }
}

/// Choose where a model's requests go: `kind` is the persisted transport or
/// the model's own, `supported` whether `provider` speaks it. An unsupported
/// transport is refused first; then the provider's key must be set (the
/// OpenCode Go key must not be blank).
pub fn route_provider(provider: ProviderId, kind: ModelKind, supported: bool, cfg: &EngineConfig) -> (r:
    Result<ProviderRoute, RouteError>)
    ensures
        !supported ==> (r matches Err(RouteError::UnsupportedProviderTransport { provider: p, kind: k })
            && p == provider && k == kind),
        supported && provider == ProviderId::OpenCodeGo && trim(cfg.api_key@).len() == 0 ==> (
        r matches Err(RouteError::Engine(EngineError::MissingApiKey))),
        supported && !(provider == ProviderId::OpenCodeGo && trim(cfg.api_key@).len() == 0) ==> match spec_native_key(provider, *cfg) {
            Ok((key, url)) => r matches Ok(route) && route.kind == kind && route.api_key@ == key
                && route.base_url@ == url,
            Err(name) => r matches Err(RouteError::Engine(EngineError::MissingNativeApiKey(n)))
                && n@ == name,
        },
{
    if !supported {
        return Err(RouteError::UnsupportedProviderTransport { provider, kind });
    }
    let keyed = match provider {
        ProviderId::OpenCodeGo => {
            if trim_chars(&chars_of(cfg.api_key.as_str())).len() == 0 {
                return Err(RouteError::Engine(EngineError::MissingApiKey));
            }
            Ok((cfg.api_key.clone(), cfg.base_url.clone()))
        },
        ProviderId::OpenCodeZen => native_key(
            &cfg.opencode_zen_api_key,
            "OPENCODE_ZEN_API_KEY",
            OPENCODE_ZEN_BASE_URL,
        ),
        ProviderId::OpenAi => {
            let base = match &cfg.openai_base_url {
                Some(u) => u.as_str(),
                None => "https://api.openai.com/v1",
            };
            native_key(&cfg.openai_api_key, "OPENAI_API_KEY", base)
        },
        ProviderId::Anthropic => native_key(
            &cfg.anthropic_api_key,
            "ANTHROPIC_API_KEY",
            ANTHROPIC_BASE_URL,
        ),
        ProviderId::DeepSeek => native_key(
            &cfg.deepseek_api_key,
            "DEEPSEEK_API_KEY",
            "https://api.deepseek.com",
        ),
        ProviderId::OpenRouter => native_key(
            &cfg.openrouter_api_key,
            "OPENROUTER_API_KEY",
            "https://openrouter.ai/api/v1",
        ),
    };
    match keyed {
        Ok((api_key, base_url)) => Ok(ProviderRoute { kind, api_key, base_url }),
        Err(e) => Err(RouteError::Engine(e)),
    }
}

/// The base URL a provider's requests go to, when it has a usable key.
pub open spec fn routed_url(provider: ProviderId, cfg: EngineConfig) -> Option<Seq<char>> {
    match spec_native_key(provider, cfg) {
        Ok((_, url)) => Some(url),
        Err(_) => None,
    }
}

/// Each provider is sent to its own endpoint: with the OpenAI base URL left at
/// its default, no two of the providers with a fixed endpoint (every one but
/// the configurable OpenCode Go) share a base URL, and OpenRouter's is
/// `https://openrouter.ai/api/v1`, DeepSeek's `https://api.deepseek.com`.
/// Each route carries the key of its own provider.
pub proof fn lemma_each_provider_has_its_own_endpoint(cfg: EngineConfig, p1: ProviderId, p2: ProviderId)
    requires
        cfg.openai_base_url is None,
        p1 != p2,
        p1 != ProviderId::OpenCodeGo,
        p2 != ProviderId::OpenCodeGo,
        routed_url(p1, cfg) is Some,
        routed_url(p2, cfg) is Some,
    ensures
        routed_url(p1, cfg) != routed_url(p2, cfg),
        p1 == ProviderId::OpenRouter ==> routed_url(p1, cfg) == Some("https://openrouter.ai/api/v1"@)
            && spec_native_key(p1, cfg) == Ok::<(Seq<char>, Seq<char>), Seq<char>>(
            (opt_view(cfg.openrouter_api_key)->0, "https://openrouter.ai/api/v1"@),
        ),
        p1 == ProviderId::DeepSeek ==> routed_url(p1, cfg) == Some("https://api.deepseek.com"@)
            && spec_native_key(p1, cfg) == Ok::<(Seq<char>, Seq<char>), Seq<char>>(
            (opt_view(cfg.deepseek_api_key)->0, "https://api.deepseek.com"@),
        ),
{
    reveal_strlit("https://opencode.ai/zen/v1");
    reveal_strlit("https://api.openai.com/v1");
    reveal_strlit("https://api.anthropic.com/v1");
    reveal_strlit("https://api.deepseek.com");
    reveal_strlit("https://openrouter.ai/api/v1");
    let zen = "https://opencode.ai/zen/v1"@;
    let oai = "https://api.openai.com/v1"@;
    let ant = "https://api.anthropic.com/v1"@;
    let ds = "https://api.deepseek.com"@;
    let or = "https://openrouter.ai/api/v1"@;
    assert(zen.len() == 26 && oai.len() == 25 && ant.len() == 28 && ds.len() == 24 && or.len() == 28);
    assert(ant[8] == 'a' && or[8] == 'o');
    assert(zen != oai && zen != ant && zen != ds && zen != or);
    assert(oai != ant && oai != ds && oai != or);
    assert(ant != ds && ant != or);
    assert(ds != or);
    assert(OPENCODE_ZEN_BASE_URL@ == zen);
    assert(ANTHROPIC_BASE_URL@ == ant);
}

} // verus!
