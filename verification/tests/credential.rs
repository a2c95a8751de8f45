use mewcode::credential::{
    bearer_header, credentials_path, env_var_name, network_error_message, usable_env_key,
    validation_outcome, validation_url, CredentialStore, ProviderCredential, ProviderId,
};

fn s(text: &str) -> String {
    text.to_string()
}

fn cred(provider: ProviderId, key: &str, label: Option<&str>) -> ProviderCredential {
    ProviderCredential { provider, api_key: s(key), validated_at: Some(s("2024-01-01T00:00:00Z")), label: label.map(s) }
}

#[test]
fn stored_keys_win_over_the_environment() {
    let store = CredentialStore::from_list(vec![
        cred(ProviderId::OpenAi, "old", None),
        cred(ProviderId::OpenAi, "new", Some("work")),
    ]);
    assert_eq!(store.api_key(ProviderId::OpenAi, Some(s("env"))), Some(s("new")));
    assert_eq!(store.api_key(ProviderId::Anthropic, Some(s("  "))), None);
    assert_eq!(store.api_key(ProviderId::Anthropic, Some(s("env"))), Some(s("env")));
    assert!(store.has(ProviderId::OpenAi, None));
    assert!(!store.has(ProviderId::OpenCodeGo, None));
    assert_eq!(store.to_list().len(), 1);
}

#[test]
fn status_reports_the_offered_providers() {
    let mut store = CredentialStore::new();
    store.insert(cred(ProviderId::OpenAi, "k", Some("me")));
    let status = store.status(Some(s("go-key")), None);
    assert_eq!(status.len(), 2);
    assert_eq!(status[0].provider, ProviderId::OpenCodeGo);
    assert!(status[0].connected);
    assert_eq!(status[0].label, None);
    assert_eq!(status[1].provider, ProviderId::OpenAi);
    assert!(status[1].connected);
    assert_eq!(status[1].label.as_deref(), Some("me"));
    assert_eq!(status[1].validated_at.as_deref(), Some("2024-01-01T00:00:00Z"));
}

#[test]
fn paths_names_and_headers() {
    assert_eq!(credentials_path(None), vec![s("."), s("mew"), s("credentials.yaml")]);
    assert_eq!(credentials_path(Some(vec![s("/home/u/.config")])), vec![s("/home/u/.config"), s("mew"), s("credentials.yaml")]);
    assert_eq!(env_var_name(ProviderId::OpenRouter), "OPENROUTER_API_KEY");
    assert_eq!(usable_env_key(Some(s(" \t"))), None);
    assert_eq!(usable_env_key(Some(s(" k "))), Some(s(" k ")));
    assert_eq!(validation_url(ProviderId::OpenAi), Some("https://api.openai.com/v1/models"));
    assert_eq!(validation_url(ProviderId::DeepSeek), None);
    assert_eq!(bearer_header("abc"), "Bearer abc");
}

#[test]
fn validation_responses_and_failures() {
    assert_eq!(validation_outcome("OpenAI", 200, "200 OK", "", "now"), Ok(s("now")));
    assert_eq!(
        validation_outcome("OpenAI", 401, "401 Unauthorized", "nope", "now"),
        Err(s("invalid API key — OpenAI returned 401 Unauthorized: nope"))
    );
    assert_eq!(
        validation_outcome("OpenAI", 500, "500 Internal Server Error", "x", "now"),
        Err(s("unexpected response from OpenAI: HTTP 500 Internal Server Error"))
    );
    assert_eq!(network_error_message("OpenAI", true, true, "e"), "connection timed out — check your network");
    assert_eq!(network_error_message("OpenAI", false, true, "e"), "could not reach OpenAI — check your network");
    assert_eq!(network_error_message("OpenAI", false, false, "dns"), "network error: dns");
}

#[test]
fn a_stored_key_is_read_back() {
    let mut store = CredentialStore::new();
    store.insert(cred(ProviderId::DeepSeek, "first", None));
    store.insert(cred(ProviderId::DeepSeek, "second", None));
    assert_eq!(store.api_key(ProviderId::DeepSeek, Some(s("env"))), Some(s("second")));
    assert_eq!(store.api_key(ProviderId::OpenRouter, Some(s("env"))), Some(s("env")));
}
