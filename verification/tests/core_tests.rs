use gemma_chat::chat::{chat_event_name, chat_num_ctx, chat_num_predict, ollama_think_value, ThinkValue};
use gemma_chat::clock::{epoch_millis_to_i64, now_ms};
use gemma_chat::schema::{missing_column_statement, table_info_query};
use gemma_chat::text::{chars_of, string_of, trim_str};

#[test]
fn think_values() {
    assert_eq!(ollama_think_value("light"), ThinkValue::Level("low".to_string()));
    assert_eq!(ollama_think_value("medium"), ThinkValue::Level("medium".to_string()));
    assert_eq!(ollama_think_value("high"), ThinkValue::Level("high".to_string()));
    assert_eq!(ollama_think_value("extra-high"), ThinkValue::Level("max".to_string()));
    assert_eq!(ollama_think_value("off"), ThinkValue::Enabled(false));
    assert_eq!(ollama_think_value("Light"), ThinkValue::Enabled(true));
    assert_eq!(ollama_think_value(""), ThinkValue::Enabled(true));
}

#[test]
fn options_are_clamped() {
    assert_eq!(chat_num_ctx(100), 512);
    assert_eq!(chat_num_ctx(2048), 2048);
    assert_eq!(chat_num_ctx(i64::MAX), 8192);
    assert_eq!(chat_num_predict(10), 64);
    assert_eq!(chat_num_predict(1000), 1000);
    assert_eq!(chat_num_predict(5000), 4096);
}

#[test]
fn event_names() {
    assert_eq!(chat_event_name("abc"), Ok("ollama-chat-abc".to_string()));
    assert_eq!(chat_event_name(" a "), Ok("ollama-chat- a ".to_string()));
    assert_eq!(chat_event_name(" \t"), Err("missing request id".to_string()));
    assert_eq!(chat_event_name(""), Err("missing request id".to_string()));
}

#[test]
fn millis_stamps() {
    assert_eq!(epoch_millis_to_i64(None), 0);
    assert_eq!(epoch_millis_to_i64(Some(1_700_000_000_000)), 1_700_000_000_000);
    assert_eq!(epoch_millis_to_i64(Some((1u128 << 64) + 5)), 5);
    assert!(now_ms() > 1_600_000_000_000);
}

#[test]
fn column_upgrade() {
    assert_eq!(table_info_query("messages"), "PRAGMA table_info(messages)");
    let cols = vec!["id".to_string(), "role".to_string()];
    assert_eq!(
        missing_column_statement(&cols, "messages", "thinking", "TEXT NOT NULL DEFAULT ''"),
        Some("ALTER TABLE messages ADD COLUMN thinking TEXT NOT NULL DEFAULT ''".to_string())
    );
    let cols = vec!["id".to_string(), "thinking".to_string()];
    assert_eq!(missing_column_statement(&cols, "messages", "thinking", "TEXT"), None);
}

#[test]
fn text_helpers() {
    assert_eq!(trim_str("\u{85} x y \u{2028}"), vec!['x', ' ', 'y']);
    assert_eq!(string_of(&chars_of("héllo")), "héllo");
    assert_eq!(trim_str("\u{200B}a"), vec!['\u{200B}', 'a']);
}
