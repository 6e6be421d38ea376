use std::collections::HashMap;

use gemma_chat::decimal::{format_i64, parse_i64};
use gemma_chat::settings::{
    read_settings, settings_entries, ChatSettings, StoredSettings, DEFAULT_MODEL,
    DEFAULT_OLLAMA_BASE_URL, DEFAULT_SYSTEM_PROMPT,
};

fn empty_store() -> StoredSettings {
    StoredSettings {
        model: None,
        ollama_base_url: None,
        system_prompt: None,
        reasoning_effort: None,
        num_ctx: None,
        num_predict: None,
        max_history_messages: None,
    }
}

fn sample() -> ChatSettings {
    ChatSettings {
        backend: "llama.cpp".to_string(),
        model: "llama3:8b".to_string(),
        ollama_base_url: "http://localhost:9999".to_string(),
        llama_cpp_base_url: "http://localhost:8080".to_string(),
        system_prompt: "be brief".to_string(),
        reasoning_effort: "high".to_string(),
        num_ctx: 4096,
        num_predict: -1,
        max_history_messages: i64::MIN,
    }
}

fn store_from(entries: &[(String, String)]) -> StoredSettings {
    let mut map: HashMap<String, String> = HashMap::new();
    for (k, v) in entries {
        map.insert(k.clone(), v.clone());
    }
    StoredSettings {
        model: map.get("model").cloned(),
        ollama_base_url: map.get("ollama_base_url").cloned(),
        system_prompt: map.get("system_prompt").cloned(),
        reasoning_effort: map.get("reasoning_effort").cloned(),
        num_ctx: map.get("num_ctx").cloned(),
        num_predict: map.get("num_predict").cloned(),
        max_history_messages: map.get("max_history_messages").cloned(),
    }
}

#[test]
fn empty_store_gives_defaults() {
    let s = read_settings(empty_store());
    assert_eq!(s.backend, "ollama");
    assert_eq!(s.model, DEFAULT_MODEL);
    assert_eq!(s.model, "gemma4-uncensored-4k:latest");
    assert_eq!(s.ollama_base_url, DEFAULT_OLLAMA_BASE_URL);
    assert_eq!(s.ollama_base_url, "http://127.0.0.1:11434");
    assert_eq!(s.llama_cpp_base_url, "");
    assert_eq!(s.system_prompt, DEFAULT_SYSTEM_PROMPT);
    assert!(s.system_prompt.starts_with("follow these style rules:\n- use lowercase only"));
    assert!(s.system_prompt.ends_with("- talk casually, like a normal person"));
    assert_eq!(s.reasoning_effort, "light");
    assert_eq!(s.num_ctx, 1024);
    assert_eq!(s.num_predict, 1000);
    assert_eq!(s.max_history_messages, 12);
}

#[test]
fn placeholder_model_reads_as_default() {
    let mut store = empty_store();
    store.model = Some("local-model".to_string());
    assert_eq!(read_settings(store).model, DEFAULT_MODEL);
    let mut store = empty_store();
    store.model = Some("mistral".to_string());
    assert_eq!(read_settings(store).model, "mistral");
}

#[test]
fn unreadable_numbers_fall_back() {
    let mut store = empty_store();
    store.num_ctx = Some("lots".to_string());
    store.num_predict = Some(" 5".to_string());
    store.max_history_messages = Some("9223372036854775808".to_string());
    let s = read_settings(store);
    assert_eq!(s.num_ctx, 1024);
    assert_eq!(s.num_predict, 1000);
    assert_eq!(s.max_history_messages, 12);
}

#[test]
fn signed_numbers_are_read() {
    let mut store = empty_store();
    store.num_ctx = Some("+2048".to_string());
    store.num_predict = Some("-7".to_string());
    store.max_history_messages = Some("-9223372036854775808".to_string());
    let s = read_settings(store);
    assert_eq!(s.num_ctx, 2048);
    assert_eq!(s.num_predict, -7);
    assert_eq!(s.max_history_messages, i64::MIN);
}

#[test]
fn entries_are_written_in_order() {
    let entries = settings_entries(&sample(), "0.7".to_string());
    let expected: Vec<(String, String)> = [
        ("backend", "llama.cpp"),
        ("model", "llama3:8b"),
        ("ollama_base_url", "http://localhost:9999"),
        ("llama_cpp_base_url", "http://localhost:8080"),
        ("system_prompt", "be brief"),
        ("reasoning_effort", "high"),
        ("temperature", "0.7"),
        ("num_ctx", "4096"),
        ("num_predict", "-1"),
        ("max_history_messages", "-9223372036854775808"),
    ]
    .iter()
    .map(|(k, v)| (k.to_string(), v.to_string()))
    .collect();
    assert_eq!(entries, expected);
}

#[test]
fn saved_settings_read_back() {
    let saved = sample();
    let back = read_settings(store_from(&settings_entries(&saved, "1.5".to_string())));
    let expected = ChatSettings {
        backend: "ollama".to_string(),
        llama_cpp_base_url: String::new(),
        ..saved
    };
    assert_eq!(back, expected);
}

#[test]
fn saved_placeholder_model_reads_as_default() {
    let mut saved = sample();
    saved.model = "local-model".to_string();
    let back = read_settings(store_from(&settings_entries(&saved, "1".to_string())));
    assert_eq!(back.model, DEFAULT_MODEL);
}

#[test]
fn parse_i64_follows_std() {
    for s in ["0", "-0", "+0", "42", "-42", "007", "9223372036854775807", "-9223372036854775808",
        "9223372036854775808", "-9223372036854775809", "", "-", "+", " 1", "1 ", "1a", "+-1", "١"] {
        assert_eq!(parse_i64(s), s.parse::<i64>().ok(), "input {:?}", s);
    }
}

#[test]
fn format_i64_follows_std() {
    for n in [0i64, 7, -7, 10, 99, 100, 1234567890, i64::MAX, i64::MIN] {
        assert_eq!(format_i64(n), n.to_string());
    }
}
