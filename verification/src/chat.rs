//! The request that starts a streamed chat: the name of its events, the
//! reasoning level sent to Ollama, and the bounds of its numeric options.

use vstd::prelude::*;
use crate::text;
use crate::text::trim;

verus! {

broadcast use vstd::string::group_string_axioms;

/// The `think` value of an Ollama chat request: a reasoning level, or
/// reasoning switched on or off.
#[derive(Debug, Clone, PartialEq, Eq)]
pub enum ThinkValue {
    Level(String),
    Enabled(bool),
}

/// A [`ThinkValue`] as plain values.
pub enum ThinkValueView {
    Level(Seq<char>),
    Enabled(bool),
}

impl View for ThinkValue {
    type V = ThinkValueView;

    open spec fn view(&self) -> ThinkValueView {
        match self {
            ThinkValue::Level(s) => ThinkValueView::Level(s@),
            ThinkValue::Enabled(b) => ThinkValueView::Enabled(*b),
        }
    }
}

/// The `think` value for a reasoning effort chosen in the settings.
pub open spec fn think_for(effort: Seq<char>) -> ThinkValueView {
    if effort == "light"@ {
        ThinkValueView::Level("low"@)
    } else if effort == "medium"@ {
        ThinkValueView::Level("medium"@)
    } else if effort == "high"@ {
        ThinkValueView::Level("high"@)
    } else if effort == "extra-high"@ {
        ThinkValueView::Level("max"@)
    } else if effort == "off"@ {
        ThinkValueView::Enabled(false)
    } else {
        ThinkValueView::Enabled(true)
    }
}

/// The `think` value sent to Ollama for a reasoning effort.
pub fn ollama_think_value(reasoning_effort: &str) -> (r: ThinkValue)
    ensures
        r@ == think_for(reasoning_effort@),
{
    let e = text::chars_of(reasoning_effort);
    if text::is_text(&e, "light") {
        ThinkValue::Level("low".to_string())
    } else if text::is_text(&e, "medium") {
        ThinkValue::Level("medium".to_string())
    } else if text::is_text(&e, "high") {
        ThinkValue::Level("high".to_string())
    } else if text::is_text(&e, "extra-high") {
        ThinkValue::Level("max".to_string())
    } else if text::is_text(&e, "off") {
        ThinkValue::Enabled(false)
    } else {
        ThinkValue::Enabled(true)
    }
}

/// `value` held within `lo..=hi`, as `Ord::clamp` does it.
pub open spec fn clamped(value: int, lo: int, hi: int) -> int {
    if value < lo {
        lo
    } else if value > hi {
        hi
    } else {
        value
    }
}

fn clamp_i64(value: i64, lo: i64, hi: i64) -> (r: i64)
    requires
        lo <= hi,
    ensures
        r == clamped(value as int, lo as int, hi as int),
{
    if value < lo {
        lo
    } else if value > hi {
        hi
    } else {
        value
    }
}

/// The context size sent to Ollama: the setting, held within 512..=8192.
pub fn chat_num_ctx(num_ctx: i64) -> (r: i64)
    ensures
        r == clamped(num_ctx as int, 512, 8192),
        512 <= r <= 8192,
{
    clamp_i64(num_ctx, 512, 8192)
}

/// The most tokens Ollama may answer with: the setting, held within 64..=4096.
pub fn chat_num_predict(num_predict: i64) -> (r: i64)
    ensures
        r == clamped(num_predict as int, 64, 4096),
        64 <= r <= 4096,
{
    clamp_i64(num_predict, 64, 4096)
}

/// The error of a chat request without an id.
pub open spec fn missing_request_id_error() -> Seq<char> {
    "missing request id"@
}

/// The name of the events of a chat request: `ollama-chat-` and its id, or
/// an error where the id is blank.
pub fn chat_event_name(request_id: &str) -> (r: Result<String, String>)
    ensures
        trim(request_id@).len() == 0 <==> r is Err,
        r matches Ok(name) ==> name@ == "ollama-chat-"@ + request_id@,
        r matches Err(e) ==> e@ == missing_request_id_error(),
{
    let trimmed = text::trim_str(request_id);
    if trimmed.len() == 0 {
        return Err("missing request id".to_string());
    }
    let mut name = "ollama-chat-".to_string();
    name.append(request_id);
    Ok(name)
}

} // verus!
