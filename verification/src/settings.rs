//! The chat settings: which values are read back from the settings store,
//! with their defaults, and which are written to it.

use vstd::prelude::*;
use crate::decimal;
use crate::decimal::{decimal, parsed_i64};
use crate::text;
use crate::text::opt_text;

verus! {

broadcast use vstd::string::group_string_axioms;

/// The Ollama server used when none is set.
pub const DEFAULT_OLLAMA_BASE_URL: &'static str = "http://127.0.0.1:11434";

/// The only backend.
pub const DEFAULT_BACKEND: &'static str = "ollama";

/// The model used when none is set.
pub const DEFAULT_MODEL: &'static str = "gemma4-uncensored-4k:latest";

/// The model name that stands for "the default model".
pub const PLACEHOLDER_MODEL: &'static str = "local-model";

/// The system prompt used when none is set: style rules only. It does
/// not invite the model to use slurs.
pub const DEFAULT_SYSTEM_PROMPT: &'static str = "follow these style rules:\n- use lowercase only\n- do not use emojis\n- keep responses short and direct\n- avoid long explanations unless i ask for detail\n- if you need to list things, use short bullets\n- talk casually, like a normal person";

/// The reasoning effort used when none is set.
pub const DEFAULT_REASONING_EFFORT: &'static str = "light";

/// The stored text of the default context size.
pub const DEFAULT_NUM_CTX: &'static str = "1024";

/// The stored text of the default answer length.
pub const DEFAULT_NUM_PREDICT: &'static str = "1000";

/// The stored text of the default number of history messages.
pub const DEFAULT_MAX_HISTORY_MESSAGES: &'static str = "12";

/// The chat settings, but for the temperature, a float.
#[derive(Debug, Clone, PartialEq, Eq)]
pub struct ChatSettings {
    pub backend: String,
    pub model: String,
    pub ollama_base_url: String,
    pub llama_cpp_base_url: String,
    pub system_prompt: String,
    pub reasoning_effort: String,
    pub num_ctx: i64,
    pub num_predict: i64,
    pub max_history_messages: i64,
}

/// A [`ChatSettings`] as plain values.
pub struct ChatSettingsView {
    pub backend: Seq<char>,
    pub model: Seq<char>,
    pub ollama_base_url: Seq<char>,
    pub llama_cpp_base_url: Seq<char>,
    pub system_prompt: Seq<char>,
    pub reasoning_effort: Seq<char>,
    pub num_ctx: i64,
    pub num_predict: i64,
    pub max_history_messages: i64,
}

impl View for ChatSettings {
    type V = ChatSettingsView;

    open spec fn view(&self) -> ChatSettingsView {
        ChatSettingsView {
            backend: self.backend@,
            model: self.model@,
            ollama_base_url: self.ollama_base_url@,
            llama_cpp_base_url: self.llama_cpp_base_url@,
            system_prompt: self.system_prompt@,
            reasoning_effort: self.reasoning_effort@,
            num_ctx: self.num_ctx,
            num_predict: self.num_predict,
            max_history_messages: self.max_history_messages,
        }
    }
}

/// What the settings store holds under the keys that are read back, each
/// `None` where the key is missing or could not be read.
#[derive(Debug, Clone, PartialEq, Eq)]
pub struct StoredSettings {
    pub model: Option<String>,
    pub ollama_base_url: Option<String>,
    pub system_prompt: Option<String>,
    pub reasoning_effort: Option<String>,
    pub num_ctx: Option<String>,
    pub num_predict: Option<String>,
    pub max_history_messages: Option<String>,
}

/// A [`StoredSettings`] as plain values.
pub struct StoredSettingsView {
    pub model: Option<Seq<char>>,
    pub ollama_base_url: Option<Seq<char>>,
    pub system_prompt: Option<Seq<char>>,
    pub reasoning_effort: Option<Seq<char>>,
    pub num_ctx: Option<Seq<char>>,
    pub num_predict: Option<Seq<char>>,
    pub max_history_messages: Option<Seq<char>>,
}

impl View for StoredSettings {
    type V = StoredSettingsView;

    open spec fn view(&self) -> StoredSettingsView {
        StoredSettingsView {
            model: opt_text(self.model),
            ollama_base_url: opt_text(self.ollama_base_url),
            system_prompt: opt_text(self.system_prompt),
            reasoning_effort: opt_text(self.reasoning_effort),
            num_ctx: opt_text(self.num_ctx),
            num_predict: opt_text(self.num_predict),
            max_history_messages: opt_text(self.max_history_messages),
        }
    }
}

/// The stored text, or the default where there is none.
pub open spec fn or_default(stored: Option<Seq<char>>, default: Seq<char>) -> Seq<char> {
    match stored {
        Some(s) => s,
        None => default,
    }
}

/// The integer a stored text reads as, or `default` where it is none.
pub open spec fn int_or(text: Seq<char>, default: i64) -> i64 {
    match parsed_i64(text) {
        Some(n) => n,
        None => default,
    }
}

/// The model of the settings: the stored one, where the placeholder stands
/// for the default model.
pub open spec fn model_for(stored: Seq<char>) -> Seq<char> {
    if stored == PLACEHOLDER_MODEL@ {
        DEFAULT_MODEL@
    } else {
        stored
    }
}

/// The settings read from what the store holds.
pub open spec fn settings_from_store(s: StoredSettingsView) -> ChatSettingsView {
    ChatSettingsView {
        backend: DEFAULT_BACKEND@,
        model: model_for(or_default(s.model, DEFAULT_MODEL@)),
        ollama_base_url: or_default(s.ollama_base_url, DEFAULT_OLLAMA_BASE_URL@),
        llama_cpp_base_url: Seq::empty(),
        system_prompt: or_default(s.system_prompt, DEFAULT_SYSTEM_PROMPT@),
        reasoning_effort: or_default(s.reasoning_effort, DEFAULT_REASONING_EFFORT@),
        num_ctx: int_or(or_default(s.num_ctx, DEFAULT_NUM_CTX@), 1024),
        num_predict: int_or(or_default(s.num_predict, DEFAULT_NUM_PREDICT@), 1000),
        max_history_messages: int_or(
            or_default(s.max_history_messages, DEFAULT_MAX_HISTORY_MESSAGES@),
            12,
        ),
    }
}

fn stored_or(stored: Option<String>, default: &str) -> (r: String)
    ensures
        r@ == or_default(opt_text(stored), default@),
{
    match stored {
        Some(s) => s,
        None => default.to_string(),
    }
}

fn stored_int(stored: Option<String>, default_text: &str, default: i64) -> (r: i64)
    ensures
        r == int_or(or_default(opt_text(stored), default_text@), default),
{
    let t = stored_or(stored, default_text);
    match decimal::parse_i64(t.as_str()) {
        Some(n) => n,
        None => default,
    }
}

/// Reads the settings from what the store holds: the backend is always
/// Ollama and no llama.cpp server is set; each other value falls back to its
/// default where the store has none, and the numbers where their text is no
/// integer.
pub fn read_settings(stored: StoredSettings) -> (r: ChatSettings)
    ensures
        r@ == settings_from_store(stored@),
{
    let model_text = stored_or(stored.model, DEFAULT_MODEL);
    let model_chars = text::chars_of(model_text.as_str());
    let model = if text::is_text(&model_chars, PLACEHOLDER_MODEL) {
        DEFAULT_MODEL.to_string()
    } else {
        model_text
    };
    ChatSettings {
        backend: DEFAULT_BACKEND.to_string(),
        model,
        ollama_base_url: stored_or(stored.ollama_base_url, DEFAULT_OLLAMA_BASE_URL),
        llama_cpp_base_url: String::new(),
        system_prompt: stored_or(stored.system_prompt, DEFAULT_SYSTEM_PROMPT),
        reasoning_effort: stored_or(stored.reasoning_effort, DEFAULT_REASONING_EFFORT),
        num_ctx: stored_int(stored.num_ctx, DEFAULT_NUM_CTX, 1024),
        num_predict: stored_int(stored.num_predict, DEFAULT_NUM_PREDICT, 1000),
        max_history_messages: stored_int(
            stored.max_history_messages,
            DEFAULT_MAX_HISTORY_MESSAGES,
            12,
        ),
    }
}

/// The settings store key of each value.
pub const KEY_BACKEND: &'static str = "backend";
pub const KEY_MODEL: &'static str = "model";
pub const KEY_OLLAMA_BASE_URL: &'static str = "ollama_base_url";
pub const KEY_LLAMA_CPP_BASE_URL: &'static str = "llama_cpp_base_url";
pub const KEY_SYSTEM_PROMPT: &'static str = "system_prompt";
pub const KEY_REASONING_EFFORT: &'static str = "reasoning_effort";
pub const KEY_TEMPERATURE: &'static str = "temperature";
pub const KEY_NUM_CTX: &'static str = "num_ctx";
pub const KEY_NUM_PREDICT: &'static str = "num_predict";
pub const KEY_MAX_HISTORY_MESSAGES: &'static str = "max_history_messages";

/// The key and value pairs of a list, as plain values.
pub open spec fn entries_view(entries: Seq<(String, String)>) -> Seq<(Seq<char>, Seq<char>)> {
    entries.map_values(|e: (String, String)| (e.0@, e.1@))
}

/// What saving the settings writes to the store, key by key, in order: the
/// texts as they are, the temperature as the caller wrote it, and the
/// integers in decimal.
pub open spec fn saved_entries(s: ChatSettingsView, temperature: Seq<char>) -> Seq<(Seq<char>, Seq<char>)> {
    seq![
        (KEY_BACKEND@, s.backend),
        (KEY_MODEL@, s.model),
        (KEY_OLLAMA_BASE_URL@, s.ollama_base_url),
        (KEY_LLAMA_CPP_BASE_URL@, s.llama_cpp_base_url),
        (KEY_SYSTEM_PROMPT@, s.system_prompt),
        (KEY_REASONING_EFFORT@, s.reasoning_effort),
        (KEY_TEMPERATURE@, temperature),
        (KEY_NUM_CTX@, decimal(s.num_ctx as int)),
        (KEY_NUM_PREDICT@, decimal(s.num_predict as int)),
        (KEY_MAX_HISTORY_MESSAGES@, decimal(s.max_history_messages as int)),
    ]
}

fn entry(key: &str, value: String) -> (r: (String, String))
    ensures
        r.0@ == key@,
        r.1@ == value@,
{
    (key.to_string(), value)
}

/// The key and value pairs that saving the settings writes to the store, in
/// order; `temperature` is the text of the temperature.
pub fn settings_entries(settings: &ChatSettings, temperature: String) -> (r: Vec<(String, String)>)
    ensures
        entries_view(r@) == saved_entries(settings@, temperature@),
{
    let mut r: Vec<(String, String)> = Vec::new();
    r.push(entry(KEY_BACKEND, settings.backend.clone()));
    r.push(entry(KEY_MODEL, settings.model.clone()));
    r.push(entry(KEY_OLLAMA_BASE_URL, settings.ollama_base_url.clone()));
    r.push(entry(KEY_LLAMA_CPP_BASE_URL, settings.llama_cpp_base_url.clone()));
    r.push(entry(KEY_SYSTEM_PROMPT, settings.system_prompt.clone()));
    r.push(entry(KEY_REASONING_EFFORT, settings.reasoning_effort.clone()));
    r.push(entry(KEY_TEMPERATURE, temperature));
    r.push(entry(KEY_NUM_CTX, decimal::format_i64(settings.num_ctx)));
    r.push(entry(KEY_NUM_PREDICT, decimal::format_i64(settings.num_predict)));
    r.push(entry(KEY_MAX_HISTORY_MESSAGES, decimal::format_i64(settings.max_history_messages)));
    assert(entries_view(r@) =~= saved_entries(settings@, temperature@));
    r
}

/// What the store holds under `key` after `entries` were written to it, one
/// after the other, each replacing what the key held: the value of the last
/// entry with that key, or what it held before where no entry has it.
pub open spec fn value_after(entries: Seq<(Seq<char>, Seq<char>)>, before: Option<Seq<char>>, key: Seq<char>) -> Option<Seq<char>>
    decreases entries.len(),
{
    if entries.len() == 0 {
        before
    } else if entries.last().0 == key {
        Some(entries.last().1)
    } else {
        value_after(entries.drop_last(), before, key)
    }
}

/// What the store holds under the keys that are read back, after `entries`
/// were written to a store that held `before`.
pub open spec fn store_after(entries: Seq<(Seq<char>, Seq<char>)>, before: StoredSettingsView) -> StoredSettingsView {
    StoredSettingsView {
        model: value_after(entries, before.model, KEY_MODEL@),
        ollama_base_url: value_after(entries, before.ollama_base_url, KEY_OLLAMA_BASE_URL@),
        system_prompt: value_after(entries, before.system_prompt, KEY_SYSTEM_PROMPT@),
        reasoning_effort: value_after(entries, before.reasoning_effort, KEY_REASONING_EFFORT@),
        num_ctx: value_after(entries, before.num_ctx, KEY_NUM_CTX@),
        num_predict: value_after(entries, before.num_predict, KEY_NUM_PREDICT@),
        max_history_messages: value_after(
            entries,
            before.max_history_messages,
            KEY_MAX_HISTORY_MESSAGES@,
        ),
    }
}

/// The settings that are read back after `s` was saved: the same, but that
/// the backend is always Ollama, no llama.cpp server is kept, and the
/// placeholder model stands for the default model.
pub open spec fn read_back(s: ChatSettingsView) -> ChatSettingsView {
    ChatSettingsView {
        backend: DEFAULT_BACKEND@,
        model: model_for(s.model),
        llama_cpp_base_url: Seq::empty(),
        ..s
    }
}

proof fn lemma_value_after_last_write(entries: Seq<(Seq<char>, Seq<char>)>, before: Option<Seq<char>>, key: Seq<char>, i: int)
    requires
        0 <= i < entries.len(),
        entries[i].0 == key,
        forall|j: int| i < j < entries.len() ==> entries[j].0 != key,
    ensures
        value_after(entries, before, key) == Some(entries[i].1),
    decreases entries.len(),
{
    if i < entries.len() - 1 {
        lemma_value_after_last_write(entries.drop_last(), before, key, i);
    }
}

proof fn lemma_saved_keys(s: ChatSettingsView, temperature: Seq<char>)
    ensures
        forall|i: int, j: int|
            0 <= i < j < 10 ==> saved_entries(s, temperature)[i].0 != saved_entries(
                s,
                temperature,
            )[j].0,
{
    reveal_strlit("backend");
    reveal_strlit("model");
    reveal_strlit("ollama_base_url");
    reveal_strlit("llama_cpp_base_url");
    reveal_strlit("system_prompt");
    reveal_strlit("reasoning_effort");
    reveal_strlit("temperature");
    reveal_strlit("num_ctx");
    reveal_strlit("num_predict");
    reveal_strlit("max_history_messages");
    let e = saved_entries(s, temperature);
    let k = Seq::new(10, |i: int| e[i].0);
    assert(k[0] == KEY_BACKEND@ && k[1] == KEY_MODEL@ && k[2] == KEY_OLLAMA_BASE_URL@ && k[3]
        == KEY_LLAMA_CPP_BASE_URL@ && k[4] == KEY_SYSTEM_PROMPT@);
    assert(k[5] == KEY_REASONING_EFFORT@ && k[6] == KEY_TEMPERATURE@ && k[7] == KEY_NUM_CTX@
        && k[8] == KEY_NUM_PREDICT@ && k[9] == KEY_MAX_HISTORY_MESSAGES@);
    assert(KEY_BACKEND@[0] != KEY_NUM_CTX@[0]);
    assert(KEY_TEMPERATURE@[0] != KEY_NUM_PREDICT@[0]);
    assert forall|i: int, j: int| 0 <= i < j < 10 implies k[i] != k[j] by {
        if k[i] == k[j] {
            assert(k[i].len() == k[j].len());
            assert(k[i][0] == k[j][0]);
        }
    }
}

/// Saving settings and reading them back gives the saved settings, with the
/// backend set to Ollama, no llama.cpp server, and the placeholder model
/// read as the default model; the integers come back as they were saved,
/// whatever the store held before.
pub proof fn lemma_saved_settings_read_back(s: ChatSettingsView, temperature: Seq<char>, before: StoredSettingsView)
    ensures
        settings_from_store(store_after(saved_entries(s, temperature), before)) == read_back(s),
{
    let e = saved_entries(s, temperature);
    lemma_saved_keys(s, temperature);
    lemma_value_after_last_write(e, before.model, KEY_MODEL@, 1);
    lemma_value_after_last_write(e, before.ollama_base_url, KEY_OLLAMA_BASE_URL@, 2);
    lemma_value_after_last_write(e, before.system_prompt, KEY_SYSTEM_PROMPT@, 4);
    lemma_value_after_last_write(e, before.reasoning_effort, KEY_REASONING_EFFORT@, 5);
    lemma_value_after_last_write(e, before.num_ctx, KEY_NUM_CTX@, 7);
    lemma_value_after_last_write(e, before.num_predict, KEY_NUM_PREDICT@, 8);
    lemma_value_after_last_write(e, before.max_history_messages, KEY_MAX_HISTORY_MESSAGES@, 9);
    decimal::lemma_parse_decimal(s.num_ctx);
    decimal::lemma_parse_decimal(s.num_predict);
    decimal::lemma_parse_decimal(s.max_history_messages);
    let r = settings_from_store(store_after(e, before));
    assert(r == read_back(s));
}

} // verus!
