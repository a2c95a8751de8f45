//! Stored API keys: one credential per provider, with the environment as the
//! fallback, and the decisions around validating a new key.
//!
//! The host reads and writes `<config dir>/mew/credentials.yaml`, reads the
//! environment, and makes the validation request; this module holds the
//! store and decides what each outcome means.

use vstd::prelude::*;

use crate::message::{clone_opt_string, opt_view};
use crate::text::{chars_of, extend_str, string_of, string_views, trim, trim_chars};

verus! {

/// A model provider.
#[derive(Debug, Clone, Copy, PartialEq, Eq, Structural)]
pub enum ProviderId {
    OpenCodeGo,
    OpenCodeZen,
    OpenAi,
    Anthropic,
    DeepSeek,
    OpenRouter,
}

/// A stored, validated credential.
#[derive(Debug)]
pub struct ProviderCredential {
    pub provider: ProviderId,
    pub api_key: String,
    /// When the key was last validated (RFC 3339).
    pub validated_at: Option<String>,
    pub label: Option<String>,
}

/// Connection status of one provider.
#[derive(Debug)]
pub struct ProviderStatus {
    pub provider: ProviderId,
    pub connected: bool,
    pub validated_at: Option<String>,
    pub label: Option<String>,
}

/// The value of a credential.
pub struct CredentialV {
    pub api_key: Seq<char>,
    pub validated_at: Option<Seq<char>>,
    pub label: Option<Seq<char>>,
}

/// The value of a credential.
pub open spec fn cred_view(c: ProviderCredential) -> CredentialV {
    CredentialV { api_key: c.api_key@, validated_at: opt_view(c.validated_at), label: opt_view(c.label) }
}

/// The map a list of credentials denotes: a later credential for a provider
/// replaces an earlier one.
pub open spec fn creds_map(list: Seq<ProviderCredential>) -> Map<ProviderId, CredentialV>
    decreases list.len(),
{
    if list.len() == 0 {
        Map::empty()
    } else {
        creds_map(list.drop_last()).insert(list.last().provider, cred_view(list.last()))
    }
}

/// No provider occurs twice.
pub open spec fn distinct_providers(list: Seq<ProviderCredential>) -> bool {
    forall|i: int, j: int| 0 <= i < j < list.len() ==> list[i].provider != list[j].provider
}

/// In-memory view of stored credentials.
#[derive(Debug)]
pub struct CredentialStore {
    credentials: Vec<ProviderCredential>,
}

impl View for CredentialStore {
    type V = Map<ProviderId, CredentialV>;

    closed spec fn view(&self) -> Map<ProviderId, CredentialV> {
        creds_map(self.credentials@)
    }
}

proof fn lemma_creds_map_index(list: Seq<ProviderCredential>, k: int)
    requires
        distinct_providers(list),
        0 <= k < list.len(),
    ensures
        creds_map(list).contains_key(list[k].provider),
        creds_map(list)[list[k].provider] == cred_view(list[k]),
    decreases list.len(),
{
    if k < list.len() - 1 {
        lemma_creds_map_index(list.drop_last(), k);
    }
}

proof fn lemma_creds_map_keys(list: Seq<ProviderCredential>, p: ProviderId)
    requires
        creds_map(list).contains_key(p),
    ensures
        exists|k: int| 0 <= k < list.len() && list[k].provider == p,
    decreases list.len(),
{
    if list.last().provider != p {
        lemma_creds_map_keys(list.drop_last(), p);
        let k = choose|k: int| 0 <= k < list.len() - 1 && list.drop_last()[k].provider == p;
        assert(list[k].provider == p);
    }
}

proof fn lemma_creds_map_update(list: Seq<ProviderCredential>, k: int, c: ProviderCredential)
    requires
        distinct_providers(list),
        0 <= k < list.len(),
        c.provider == list[k].provider,
    ensures
        distinct_providers(list.update(k, c)),
        creds_map(list.update(k, c)) == creds_map(list).insert(c.provider, cred_view(c)),
    decreases list.len(),
{
    let u = list.update(k, c);
    if k == list.len() - 1 {
        assert(u.drop_last() =~= list.drop_last());
        assert(!creds_map(list.drop_last()).contains_key(c.provider)) by {
            if creds_map(list.drop_last()).contains_key(c.provider) {
                lemma_creds_map_keys(list.drop_last(), c.provider);
            }
        }
        assert(creds_map(u) =~= creds_map(list).insert(c.provider, cred_view(c)));
    } else {
        lemma_creds_map_update(list.drop_last(), k, c);
        assert(u.drop_last() =~= list.drop_last().update(k, c));
        assert(creds_map(u) =~= creds_map(list).insert(c.provider, cred_view(c)));
    }
}

/// `value` as an API key: present and not blank.
pub open spec fn spec_usable_key(value: Option<Seq<char>>) -> Option<Seq<char>> {
    match value {
        Some(v) => if trim(v).len() == 0 {
            None
        } else {
            Some(v)
        },
        None => None,
    }
}

/// An API key read from the environment, kept only when it is not blank.
pub fn usable_env_key(value: Option<String>) -> (r: Option<String>)
    ensures
        opt_view(r) == spec_usable_key(opt_view(value)),
{
    match value {
        Some(v) => {
            if trim_chars(&chars_of(v.as_str())).len() == 0 {
                None
            } else {
                Some(v)
            }
        },
        None => None,
    }
}

/// The environment variable that holds a provider's API key.
pub fn env_var_name(provider: ProviderId) -> (r: &'static str)
    ensures
        r@ == spec_env_var_name(provider),
{
    match provider {
        ProviderId::OpenCodeGo => "OPENCODE_GO_API_KEY",
        ProviderId::OpenCodeZen => "OPENCODE_ZEN_API_KEY",
        ProviderId::OpenAi => "OPENAI_API_KEY",
        ProviderId::Anthropic => "ANTHROPIC_API_KEY",
        ProviderId::DeepSeek => "DEEPSEEK_API_KEY",
        ProviderId::OpenRouter => "OPENROUTER_API_KEY",
    }
}

/// The name of the environment variable for a provider's key.
pub open spec fn spec_env_var_name(provider: ProviderId) -> Seq<char> {
    match provider {
        ProviderId::OpenCodeGo => "OPENCODE_GO_API_KEY"@,
        ProviderId::OpenCodeZen => "OPENCODE_ZEN_API_KEY"@,
        ProviderId::OpenAi => "OPENAI_API_KEY"@,
        ProviderId::Anthropic => "ANTHROPIC_API_KEY"@,
        ProviderId::DeepSeek => "DEEPSEEK_API_KEY"@,
        ProviderId::OpenRouter => "OPENROUTER_API_KEY"@,
    }
}

fn copy_credential(c: &ProviderCredential) -> (r: ProviderCredential)
    ensures
        r.provider == c.provider,
        cred_view(r) == cred_view(*c),
{
    ProviderCredential {
        provider: c.provider,
        api_key: c.api_key.clone(),
        validated_at: clone_opt_string(&c.validated_at),
        label: clone_opt_string(&c.label),
    }
}

impl CredentialStore {
    /// Invariant: one credential per provider.
    pub closed spec fn wf(&self) -> bool {
        distinct_providers(self.credentials@)
    }

    /// A store with no credentials.
    pub fn new() -> (r: Self)
        ensures
            r.wf(),
            r@ == Map::<ProviderId, CredentialV>::empty(),
    {
        CredentialStore { credentials: Vec::new() }
    }

    /// The store a saved list denotes: a later entry for a provider replaces
    /// an earlier one.
    pub fn from_list(list: Vec<ProviderCredential>) -> (r: Self)
        ensures
            r.wf(),
            r@ == creds_map(list@),
    {
        let mut store = CredentialStore::new();
        let mut i: usize = 0;
        while i < list.len()
            invariant
                store.wf(),
                i <= list@.len(),
                store@ == creds_map(list@.take(i as int)),
            decreases list@.len() - i,
        {
            proof {
                assert(list@.take(i + 1).drop_last() =~= list@.take(i as int));
            }
            store.insert(copy_credential(&list[i]));
            i += 1;
        }
        proof {
            assert(list@.take(list@.len() as int) =~= list@);
        }
        store
    }

    fn position(&self, provider: ProviderId) -> (r: Option<usize>)
        requires
            self.wf(),
        ensures
            match r {
                Some(k) => k < self.credentials@.len() && self.credentials@[k as int].provider
                    == provider && self@.contains_key(provider) && self@[provider] == cred_view(
                    self.credentials@[k as int],
                ),
                None => !self@.contains_key(provider),
            },
    {
        let mut k: usize = 0;
        while k < self.credentials.len()
            invariant
                self.wf(),
                k <= self.credentials@.len(),
                forall|j: int| 0 <= j < k ==> #[trigger] self.credentials@[j].provider != provider,
            decreases self.credentials@.len() - k,
        {
            if self.credentials[k].provider == provider {
                proof {
                    lemma_creds_map_index(self.credentials@, k as int);
                }
                return Some(k);
            }
            k += 1;
        }
        proof {
            if creds_map(self.credentials@).contains_key(provider) {
                lemma_creds_map_keys(self.credentials@, provider);
            }
        }
        None
    }

    /// Record a credential, replacing the provider's earlier one.
    pub fn insert(&mut self, credential: ProviderCredential)
        requires
            old(self).wf(),
        ensures
            final(self).wf(),
            final(self)@ == old(self)@.insert(credential.provider, cred_view(credential)),
    {
        match self.position(credential.provider) {
            Some(k) => {
                let ghost before = self.credentials@;
                proof {
                    lemma_creds_map_update(before, k as int, credential);
                }
                self.credentials.set(k, credential);
                proof {
                    assert(self.credentials@ =~= before.update(k as int, credential));
                }
            },
            None => {
                let ghost before = self.credentials@;
                self.credentials.push(credential);
                proof {
                    assert(self.credentials@.drop_last() =~= before);
                    assert forall|a: int, b: int| 0 <= a < b < self.credentials@.len() implies
                        self.credentials@[a].provider != self.credentials@[b].provider by {
                        if b == before.len() {
                            assert(creds_map(before).contains_key(before[a].provider)) by {
                                lemma_creds_map_index(before, a);
                            }
                        }
                    }
                }
            },
        }
    }

    /// The key `api_key` answers with for a store value `m`.
    pub open spec fn spec_api_key(
        m: Map<ProviderId, CredentialV>,
        provider: ProviderId,
        env_value: Option<Seq<char>>,
    ) -> Option<Seq<char>> {
        if m.contains_key(provider) {
            Some(m[provider].api_key)
        } else {
            spec_usable_key(env_value)
        }
    }

    /// The API key for a provider: the stored one, else the environment's
    /// (`env_value`, the variable named by `env_var_name`) when it is not
    /// blank.
    pub fn api_key(&self, provider: ProviderId, env_value: Option<String>) -> (r: Option<String>)
        requires
            self.wf(),
        ensures
            opt_view(r) == Self::spec_api_key(self@, provider, opt_view(env_value)),
    {
        match self.position(provider) {
            Some(k) => Some(self.credentials[k].api_key.clone()),
            None => usable_env_key(env_value),
        }
    }

    /// Whether a credential exists, stored or in the environment.
    pub fn has(&self, provider: ProviderId, env_value: Option<String>) -> (r: bool)
        requires
            self.wf(),
        ensures
            r == (self@.contains_key(provider) || spec_usable_key(opt_view(env_value)) is Some),
    {
        match self.position(provider) {
            Some(_) => true,
            None => usable_env_key(env_value).is_some(),
        }
    }

    fn status_of(&self, provider: ProviderId, env_value: Option<String>) -> (r: ProviderStatus)
        requires
            self.wf(),
        ensures
            is_status(r, self@, provider, spec_usable_key(opt_view(env_value)) is Some),
    {
        match self.position(provider) {
            Some(k) => ProviderStatus {
                provider,
                connected: true,
                validated_at: clone_opt_string(&self.credentials[k].validated_at),
                label: clone_opt_string(&self.credentials[k].label),
            },
            None => ProviderStatus {
                provider,
                connected: usable_env_key(env_value).is_some(),
                validated_at: None,
                label: None,
            },
        }
    }

    /// Connection status of the providers the connect flow offers, OpenCode Go
    /// then OpenAI, given their environment values.
    pub fn status(&self, env_opencode_go: Option<String>, env_openai: Option<String>) -> (r: Vec<
        ProviderStatus,
    >)
        requires
            self.wf(),
        ensures
            r@.len() == 2,
            is_status(
                r@[0],
                self@,
                ProviderId::OpenCodeGo,
                spec_usable_key(opt_view(env_opencode_go)) is Some,
            ),
            is_status(r@[1], self@, ProviderId::OpenAi, spec_usable_key(opt_view(env_openai)) is Some),
    {
        let a = self.status_of(ProviderId::OpenCodeGo, env_opencode_go);
        let b = self.status_of(ProviderId::OpenAi, env_openai);
        vec![a, b]
    }

    /// Every stored credential, for saving.
    pub fn to_list(&self) -> (r: Vec<ProviderCredential>)
        requires
            self.wf(),
        ensures
            distinct_providers(r@),
            creds_map(r@) == self@,
    {
        let mut out: Vec<ProviderCredential> = Vec::new();
        let mut i: usize = 0;
        while i < self.credentials.len()
            invariant
                i <= self.credentials@.len(),
                out@.len() == i,
                forall|j: int| 0 <= j < i ==> (#[trigger] out@[j]).provider == self.credentials@[j].provider
                    && cred_view(out@[j]) == cred_view(self.credentials@[j]),
            decreases self.credentials@.len() - i,
        {
            out.push(copy_credential(&self.credentials[i]));
            i += 1;
        }
        proof {
            lemma_creds_map_same(out@, self.credentials@);
        }
        out
    }
}

/// A stored key is the one read back, whatever the environment holds; storing
/// a key for one provider leaves every other provider's answer unchanged.
pub proof fn lemma_store_then_read(
    m: Map<ProviderId, CredentialV>,
    c: ProviderCredential,
    other: ProviderId,
    env_value: Option<Seq<char>>,
)
    ensures
        CredentialStore::spec_api_key(m.insert(c.provider, cred_view(c)), c.provider, env_value)
            == Some(c.api_key@),
        other != c.provider ==> CredentialStore::spec_api_key(
            m.insert(c.provider, cred_view(c)),
            other,
            env_value,
        ) == CredentialStore::spec_api_key(m, other, env_value),
{
}

proof fn lemma_creds_map_same(a: Seq<ProviderCredential>, b: Seq<ProviderCredential>)
    requires
        a.len() == b.len(),
        forall|j: int| 0 <= j < a.len() ==> (#[trigger] a[j]).provider == b[j].provider && cred_view(a[j])
            == cred_view(b[j]),
    ensures
        creds_map(a) == creds_map(b),
        distinct_providers(b) ==> distinct_providers(a),
    decreases a.len(),
{
    if a.len() > 0 {
        lemma_creds_map_same(a.drop_last(), b.drop_last());
    }
}

/// `s` describes provider `p` in a store `m`: connected when stored or
/// `from_env`; validation time and label from the stored credential.
pub open spec fn is_status(
    s: ProviderStatus,
    m: Map<ProviderId, CredentialV>,
    p: ProviderId,
    from_env: bool,
) -> bool {
    &&& s.provider == p
    &&& s.connected == (m.contains_key(p) || from_env)
    &&& opt_view(s.validated_at) == if m.contains_key(p) {
        m[p].validated_at
    } else {
        None
    }
    &&& opt_view(s.label) == if m.contains_key(p) {
        m[p].label
    } else {
        None
    }
}

/// Where the credentials file lives: `<config dir>/mew/credentials.yaml`,
/// with `.` when there is no config directory.
pub open spec fn spec_credentials_path(config_dir: Option<Seq<Seq<char>>>) -> Seq<Seq<char>> {
    (match config_dir {
        Some(d) => d,
        None => seq!["."@],
    }).push("mew"@).push("credentials.yaml"@)
}

/// Path components of the credentials file under `config_dir`.
pub fn credentials_path(config_dir: Option<Vec<String>>) -> (r: Vec<String>)
    ensures
        string_views(r@) == spec_credentials_path(
            match config_dir {
                Some(d) => Some(string_views(d@)),
                None => None,
            },
        ),
{
    let mut path = match config_dir {
        Some(d) => d,
        None => vec![string_of(&chars_of("."))],
    };
    let ghost base = string_views(path@);
    path.push(string_of(&chars_of("mew")));
    path.push(string_of(&chars_of("credentials.yaml")));
    proof {
        assert(string_views(path@) =~= base.push("mew"@).push("credentials.yaml"@));
    }
    path
}

/// The endpoint that lists models for a provider, used to check a key; `None`
/// for a provider the connect flow does not offer.
pub open spec fn spec_validation_url(provider: ProviderId) -> Option<Seq<char>> {
    match provider {
        ProviderId::OpenCodeGo => Some("https://opencode.ai/zen/go/v1/models"@),
        ProviderId::OpenAi => Some("https://api.openai.com/v1/models"@),
        _ => None,
    }
}

/// The URL to request when validating a key for `provider`.
pub fn validation_url(provider: ProviderId) -> (r: Option<&'static str>)
    ensures
        match r {
            Some(u) => spec_validation_url(provider) == Some(u@),
            None => spec_validation_url(provider) is None,
        },
{
    match provider {
        ProviderId::OpenCodeGo => Some("https://opencode.ai/zen/go/v1/models"),
        ProviderId::OpenAi => Some("https://api.openai.com/v1/models"),
        _ => None,
    }
}

/// The `Authorization` header value for a key: `Bearer <key>`.
pub fn bearer_header(api_key: &str) -> (r: String)
    ensures
        r@ == "Bearer "@ + api_key@,
{
    let mut out = chars_of("Bearer ");
    extend_str(&mut out, api_key);
    string_of(&out)
}

/// What a validation response means: success with the time it was checked,
/// a rejected key (401 or 403, with the status and body), or an unexpected
/// status. `status_text` is the status as HTTP prints it.
pub open spec fn spec_validation_outcome(
    provider_name: Seq<char>,
    status: u16,
    status_text: Seq<char>,
    body: Seq<char>,
    now: Seq<char>,
) -> Result<Seq<char>, Seq<char>> {
    if status == 200 {
        Ok(now)
    } else if status == 401 || status == 403 {
        Err("invalid API key — "@ + provider_name + " returned "@ + status_text + ": "@ + body)
    } else {
        Err("unexpected response from "@ + provider_name + ": HTTP "@ + status_text)
    }
}

/// Interpret the response to a validation request.
pub fn validation_outcome(
    provider_name: &str,
    status: u16,
    status_text: &str,
    body: &str,
    now: &str,
) -> (r: Result<String, String>)
    ensures
        match r {
            Ok(s) => spec_validation_outcome(provider_name@, status, status_text@, body@, now@)
                == Ok::<Seq<char>, Seq<char>>(s@),
            Err(e) => spec_validation_outcome(provider_name@, status, status_text@, body@, now@)
                == Err::<Seq<char>, Seq<char>>(e@),
        },
{
    if status == 200 {
        return Ok(string_of(&chars_of(now)));
    }
    if status == 401 || status == 403 {
        let mut out = chars_of("invalid API key — ");
        extend_str(&mut out, provider_name);
        extend_str(&mut out, " returned ");
        extend_str(&mut out, status_text);
        extend_str(&mut out, ": ");
        extend_str(&mut out, body);
        return Err(string_of(&out));
    }
    let mut out = chars_of("unexpected response from ");
    extend_str(&mut out, provider_name);
    extend_str(&mut out, ": HTTP ");
    extend_str(&mut out, status_text);
    Err(string_of(&out))
}

/// The message for a validation request that never got a response.
pub open spec fn spec_network_error(
    provider_name: Seq<char>,
    timed_out: bool,
    unreachable: bool,
    error: Seq<char>,
) -> Seq<char> {
    if timed_out {
        "connection timed out — check your network"@
    } else if unreachable {
        "could not reach "@ + provider_name + " — check your network"@
    } else {
        "network error: "@ + error
    }
}

/// Describe a failed validation request: a timeout, an unreachable host, or
/// another network error (`error` as the HTTP client prints it).
pub fn network_error_message(provider_name: &str, timed_out: bool, unreachable: bool, error: &str) -> (r:
    String)
    ensures
        r@ == spec_network_error(provider_name@, timed_out, unreachable, error@),
{
    if timed_out {
        return string_of(&chars_of("connection timed out — check your network"));
    }
    if unreachable {
        let mut out = chars_of("could not reach ");
        extend_str(&mut out, provider_name);
        extend_str(&mut out, " — check your network");
        return string_of(&out);
    }
    let mut out = chars_of("network error: ");
    extend_str(&mut out, error);
    string_of(&out)
}

} // verus!
