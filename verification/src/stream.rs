//! The streamed chat reply of an Ollama server: how each line of it becomes
//! the events the front end is sent, and how the bytes that arrive are cut
//! into lines.

use vstd::prelude::*;
use crate::text;
use crate::text::opt_text;
use crate::text::trim;

verus! {

broadcast use vstd::string::group_string_axioms;

/// One event sent to the front end while a reply streams in.
#[derive(Debug, Clone, PartialEq, Eq)]
pub struct StreamEvent {
    pub content: String,
    pub thinking: String,
    pub done: bool,
    pub stopped: bool,
    pub error: Option<String>,
}

/// A [`StreamEvent`] as plain values.
pub struct StreamEventView {
    pub content: Seq<char>,
    pub thinking: Seq<char>,
    pub done: bool,
    pub stopped: bool,
    pub error: Option<Seq<char>>,
}

impl View for StreamEvent {
    type V = StreamEventView;

    open spec fn view(&self) -> StreamEventView {
        StreamEventView {
            content: self.content@,
            thinking: self.thinking@,
            done: self.done,
            stopped: self.stopped,
            error: opt_text(self.error),
        }
    }
}

/// The events of a list, as plain values.
pub open spec fn events_view(events: Seq<StreamEvent>) -> Seq<StreamEventView> {
    events.map_values(|e: StreamEvent| e@)
}

/// A piece of the answer.
pub open spec fn content_event(content: Seq<char>) -> StreamEventView {
    StreamEventView { content, thinking: Seq::empty(), done: false, stopped: false, error: None }
}

/// A piece of the model's reasoning.
pub open spec fn thinking_event(thinking: Seq<char>) -> StreamEventView {
    StreamEventView { content: Seq::empty(), thinking, done: false, stopped: false, error: None }
}

/// The end of the reply.
pub open spec fn done_event() -> StreamEventView {
    StreamEventView {
        content: Seq::empty(),
        thinking: Seq::empty(),
        done: true,
        stopped: false,
        error: None,
    }
}

/// The end of a reply that the user stopped.
pub open spec fn stopped_event() -> StreamEventView {
    StreamEventView {
        content: Seq::empty(),
        thinking: Seq::empty(),
        done: true,
        stopped: true,
        error: None,
    }
}

/// The end of a reply that failed with `error`.
pub open spec fn error_event(error: Seq<char>) -> StreamEventView {
    StreamEventView {
        content: Seq::empty(),
        thinking: Seq::empty(),
        done: true,
        stopped: false,
        error: Some(error),
    }
}

fn new_event(content: String, thinking: String, done: bool, stopped: bool, error: Option<String>) -> (e: StreamEvent)
    ensures
        e.content == content,
        e.thinking == thinking,
        e.done == done,
        e.stopped == stopped,
        e.error == error,
{
    StreamEvent { content, thinking, done, stopped, error }
}

/// The event that ends a reply the user stopped.
pub fn stopped_stream_event() -> (e: StreamEvent)
    ensures
        e@ == stopped_event(),
{
    new_event(String::new(), String::new(), true, true, None)
}

/// The event that ends a reply normally.
pub fn done_stream_event() -> (e: StreamEvent)
    ensures
        e@ == done_event(),
{
    new_event(String::new(), String::new(), true, false, None)
}

/// The event that ends a reply that failed with `error`.
pub fn failure_event(error: String) -> (e: StreamEvent)
    ensures
        e@ == error_event(error@),
{
    new_event(String::new(), String::new(), true, false, Some(error))
}

/// What a line of the reply holds that decides what is sent on: the
/// `error` text, the `message.thinking` and `message.content` texts, and the
/// `done` flag, each where it is present with that JSON type.
#[derive(Debug, Clone, PartialEq, Eq)]
pub struct ChunkFields {
    pub error: Option<String>,
    pub thinking: Option<String>,
    pub content: Option<String>,
    pub done: Option<bool>,
}

/// A [`ChunkFields`] as plain values.
pub struct ChunkFieldsView {
    pub error: Option<Seq<char>>,
    pub thinking: Option<Seq<char>>,
    pub content: Option<Seq<char>>,
    pub done: Option<bool>,
}

impl View for ChunkFields {
    type V = ChunkFieldsView;

    open spec fn view(&self) -> ChunkFieldsView {
        ChunkFieldsView {
            error: opt_text(self.error),
            thinking: opt_text(self.thinking),
            content: opt_text(self.content),
            done: self.done,
        }
    }
}

/// What `serde_json` reads from a line of the reply: `Err` with the parse
/// error's message where the line is not JSON, else the fields of
/// [`ChunkFields`].
pub uninterp spec fn ollama_line_fields(line: Seq<char>) -> Result<ChunkFieldsView, Seq<char>>;

pub open spec fn fields_result_view(r: Result<ChunkFields, String>) -> Result<ChunkFieldsView, Seq<char>> {
    match r {
        Ok(f) => Ok(f@),
        Err(e) => Err(e@),
    }
}

/// Parses `line` with `serde_json::from_str` into a `serde_json::Value` and
/// reads the four fields with `Value::pointer` (which, for these keys, finds
/// what `Value::get` finds key by key) and `as_str` / `as_bool`; the result
/// is named [`ollama_line_fields`].
#[verifier::external_body]
fn decode_json_line(line: &str) -> (r: Result<ChunkFields, String>)
    ensures
        fields_result_view(r) == ollama_line_fields(line@),
{
    match serde_json::from_str::<serde_json::Value>(line) {
        Ok(v) => Ok(ChunkFields {
            error: v.pointer("/error").and_then(serde_json::Value::as_str).map(String::from),
            thinking: v.pointer("/message/thinking").and_then(serde_json::Value::as_str).map(String::from),
            content: v.pointer("/message/content").and_then(serde_json::Value::as_str).map(String::from),
            done: v.pointer("/done").and_then(serde_json::Value::as_bool),
        }),
        Err(e) => Err(e.to_string()),
    }
}

/// The events of a text field: one event when the text is not empty.
pub open spec fn text_events(text: Option<Seq<char>>, thinking: bool) -> Seq<StreamEventView> {
    match text {
        Some(t) => if t.len() > 0 {
            if thinking {
                seq![thinking_event(t)]
            } else {
                seq![content_event(t)]
            }
        } else {
            Seq::empty()
        },
        None => Seq::empty(),
    }
}

/// The events of a decoded line and whether the reply ends with it: an error
/// ends the reply with an error event; otherwise the thinking, then the
/// content, then, where `done` is `true`, the end.
pub open spec fn chunk_outcome(f: ChunkFieldsView) -> (Seq<StreamEventView>, bool) {
    match f.error {
        Some(e) => (seq![error_event(e)], true),
        None => {
            let finished = f.done == Some(true);
            let tail = if finished {
                seq![done_event()]
            } else {
                Seq::<StreamEventView>::empty()
            };
            (text_events(f.thinking, true) + text_events(f.content, false) + tail, finished)
        },
    }
}

fn text_event_into(events: &mut Vec<StreamEvent>, text: &Option<String>, thinking: bool)
    ensures
        events_view(final(events)@) == events_view(old(events)@) + text_events(opt_text(*text), thinking),
{
    if let Some(t) = text {
        if !t.as_str().is_empty() {
            let e = if thinking {
                new_event(String::new(), t.clone(), false, false, None)
            } else {
                new_event(t.clone(), String::new(), false, false, None)
            };
            events.push(e);
            assert(events_view(events@) =~= events_view(old(events)@) + text_events(opt_text(*text), thinking));
            return;
        }
    }
    assert(events_view(events@) =~= events_view(old(events)@) + text_events(opt_text(*text), thinking));
}

/// The events of a decoded line, and whether the reply ends with it.
pub fn chunk_events(fields: &ChunkFields) -> (r: (Vec<StreamEvent>, bool))
    ensures
        (events_view(r.0@), r.1) == chunk_outcome(fields@),
{
    let mut events: Vec<StreamEvent> = Vec::new();
    match &fields.error {
        Some(e) => {
            events.push(failure_event(e.clone()));
            assert(events_view(events@) =~= seq![error_event(e@)]);
            (events, true)
        },
        None => {
            text_event_into(&mut events, &fields.thinking, true);
            text_event_into(&mut events, &fields.content, false);
            let finished = match fields.done {
                Some(d) => d,
                None => false,
            };
            if finished {
                events.push(done_stream_event());
            }
            assert(events_view(events@) =~= chunk_outcome(fields@).0);
            (events, finished)
        },
    }
}

/// The prefix of a server-sent-events line.
pub open spec fn data_prefix() -> Seq<char> {
    seq!['d', 'a', 't', 'a', ':']
}

/// The line that ends an OpenAI-style stream.
pub open spec fn done_marker() -> Seq<char> {
    seq!['[', 'D', 'O', 'N', 'E', ']']
}

/// The payload of a line: after a `data:` prefix, trimmed, where there is one.
pub open spec fn line_payload(line: Seq<char>) -> Seq<char> {
    if line.len() >= 5 && line.take(5) == data_prefix() {
        trim(line.skip(5))
    } else {
        line
    }
}

/// What a line of the reply gives: its events and whether the reply ends
/// with it, or the error that stops the reply. An empty line gives nothing;
/// `[DONE]` ends the reply; any other payload is read as JSON.
pub open spec fn line_outcome(line: Seq<char>) -> Result<(Seq<StreamEventView>, bool), Seq<char>> {
    if line.len() == 0 {
        Ok((Seq::empty(), false))
    } else {
        let payload = line_payload(line);
        if payload == done_marker() {
            Ok((seq![done_event()], true))
        } else {
            match ollama_line_fields(payload) {
                Ok(f) => Ok(chunk_outcome(f)),
                Err(e) => Err(e),
            }
        }
    }
}

pub open spec fn line_result_view(r: Result<(Vec<StreamEvent>, bool), String>) -> Result<(Seq<StreamEventView>, bool), Seq<char>> {
    match r {
        Ok((events, finished)) => Ok((events_view(events@), finished)),
        Err(e) => Err(e@),
    }
}

fn starts_with_data_prefix(v: &Vec<char>) -> (r: bool)
    ensures
        r == (v@.len() >= 5 && v@.take(5) == data_prefix()),
{
    if v.len() < 5 {
        return false;
    }
    let r = v[0] == 'd' && v[1] == 'a' && v[2] == 't' && v[3] == 'a' && v[4] == ':';
    assert(r ==> v@.take(5) =~= data_prefix());
    assert(v@.take(5) == data_prefix() ==> v@.take(5)[0] == 'd' && v@.take(5)[1] == 'a' && v@.take(5)[2] == 't' && v@.take(5)[3] == 'a' && v@.take(5)[4] == ':');
    r
}

fn is_done_marker(v: &Vec<char>) -> (r: bool)
    ensures
        r == (v@ == done_marker()),
{
    if v.len() != 6 {
        return false;
    }
    let r = v[0] == '[' && v[1] == 'D' && v[2] == 'O' && v[3] == 'N' && v[4] == 'E' && v[5] == ']';
    assert(r ==> v@ =~= done_marker());
    r
}

fn process_line_chars(line: &Vec<char>) -> (r: Result<(Vec<StreamEvent>, bool), String>)
    ensures
        line_result_view(r) == line_outcome(line@),
{
    if line.len() == 0 {
        let none: Vec<StreamEvent> = Vec::new();
        assert(events_view(none@) =~= Seq::<StreamEventView>::empty());
        return Ok((none, false));
    }
    let payload = if starts_with_data_prefix(line) {
        let rest = text::sub_chars(line, 5, line.len());
        assert(rest@ =~= line@.skip(5));
        text::trim_chars(&rest)
    } else {
        line.clone()
    };
    assert(payload@ == line_payload(line@));
    if is_done_marker(&payload) {
        let mut events: Vec<StreamEvent> = Vec::new();
        events.push(done_stream_event());
        assert(events_view(events@) =~= seq![done_event()]);
        return Ok((events, true));
    }
    let payload_text = text::string_of(&payload);
    match decode_json_line(payload_text.as_str()) {
        Ok(fields) => Ok(chunk_events(&fields)),
        Err(e) => Err(e),
    }
}

/// Decodes one line of the reply: its events and whether the reply ends with
/// it, or the error that stops the reply.
pub fn process_stream_line(line: &str) -> (r: Result<(Vec<StreamEvent>, bool), String>)
    ensures
        line_result_view(r) == line_outcome(line@),
{
    let v = text::chars_of(line);
    process_line_chars(&v)
}

/// The first line of `s` and what follows its newline, where `s` holds a
/// newline.
pub open spec fn split_line(s: Seq<char>) -> Option<(Seq<char>, Seq<char>)>
    decreases s.len(),
{
    if s.len() == 0 {
        None
    } else if s[0] == '\n' {
        Some((Seq::empty(), s.drop_first()))
    } else {
        match split_line(s.drop_first()) {
            Some((line, rest)) => Some((seq![s[0]] + line, rest)),
            None => None,
        }
    }
}

/// `split_line` cuts at the first newline.
pub proof fn lemma_split_line(s: Seq<char>)
    ensures
        split_line(s) matches Some((line, rest)) ==> {
            &&& s == line + seq!['\n'] + rest
            &&& !line.contains('\n')
            &&& rest.len() < s.len()
        },
        split_line(s) is None ==> !s.contains('\n'),
    decreases s.len(),
{
    if s.len() > 0 {
        lemma_split_line(s.drop_first());
        if s[0] == '\n' {
            assert(s =~= Seq::<char>::empty() + seq!['\n'] + s.drop_first());
        } else {
            match split_line(s.drop_first()) {
                Some((line, rest)) => {
                    assert(s =~= seq![s[0]] + s.drop_first());
                    assert(s =~= (seq![s[0]] + line) + seq!['\n'] + rest);
                    assert forall|j: int| 0 <= j < (seq![s[0]] + line).len() implies (seq![s[0]]
                        + line)[j] != '\n' by {
                        if j > 0 {
                            assert((seq![s[0]] + line)[j] == line[j - 1]);
                        }
                    }
                },
                None => {
                    assert forall|j: int| 0 <= j < s.len() implies s[j] != '\n' by {
                        if j > 0 {
                            assert(s[j] == s.drop_first()[j - 1]);
                        }
                    }
                },
            }
        }
    }
}

/// The events, the outcome and the text left over when the complete lines
/// of `buf` are decoded one after the other: decoding stops after a line that
/// ends the reply (`Ok(true)`) or fails (`Err`); `Ok(false)` when every
/// complete line was decoded and the reply goes on.
pub open spec fn run_lines(buf: Seq<char>) -> (Seq<StreamEventView>, Result<bool, Seq<char>>, Seq<char>)
    decreases buf.len(),
{
    match split_line(buf) {
        None => (Seq::empty(), Ok(false), buf),
        Some((line, rest)) => {
            proof {
                lemma_split_line(buf);
            }
            match line_outcome(trim(line)) {
                Err(e) => (Seq::empty(), Err(e), rest),
                Ok((events, finished)) => if finished {
                    (events, Ok(true), rest)
                } else {
                    let (more, outcome, left) = run_lines(rest);
                    (events + more, outcome, left)
                },
            }
        },
    }
}

proof fn lemma_split_line_append(s: Seq<char>, t: Seq<char>)
    ensures
        split_line(s) matches Some((line, rest)) ==> split_line(s + t) == Some((line, rest + t)),
    decreases s.len(),
{
    if s.len() > 0 {
        assert((s + t)[0] == s[0]);
        assert((s + t).drop_first() =~= s.drop_first() + t);
        lemma_split_line_append(s.drop_first(), t);
        if s[0] == '\n' {
            assert(s.drop_first() + t =~= (s + t).drop_first());
        }
    }
}

/// Where the bytes of a reply are cut into chunks does not matter: decoding
/// `s` and then what is left of it followed by `t` gives the events, outcome
/// and left-over text of decoding `s + t` at once, as long as `s` does not
/// end or fail the reply.
pub proof fn lemma_run_lines_chunks(s: Seq<char>, t: Seq<char>)
    requires
        run_lines(s).1 == Ok::<bool, Seq<char>>(false),
    ensures
        run_lines(s + t) == (
            run_lines(s).0 + run_lines(run_lines(s).2 + t).0,
            run_lines(run_lines(s).2 + t).1,
            run_lines(run_lines(s).2 + t).2,
        ),
    decreases s.len(),
{
    lemma_split_line(s);
    lemma_split_line_append(s, t);
    match split_line(s) {
        None => {
            assert(run_lines(s).0 + run_lines(s + t).0 =~= run_lines(s + t).0);
        },
        Some((line, rest)) => {
            if let Ok((events, finished)) = line_outcome(trim(line)) {
                if !finished {
                    lemma_run_lines_chunks(rest, t);
                    assert(events + (run_lines(rest).0 + run_lines(run_lines(rest).2 + t).0)
                        =~= (events + run_lines(rest).0) + run_lines(run_lines(rest).2 + t).0);
                }
            }
        },
    }
}

/// The number of events in `s` that end the reply.
pub open spec fn count_done(s: Seq<StreamEventView>) -> nat
    decreases s.len(),
{
    if s.len() == 0 {
        0
    } else {
        count_done(s.drop_last()) + if s.last().done {
            1nat
        } else {
            0nat
        }
    }
}

pub proof fn lemma_count_done_append(a: Seq<StreamEventView>, b: Seq<StreamEventView>)
    ensures
        count_done(a + b) == count_done(a) + count_done(b),
    decreases b.len(),
{
    if b.len() > 0 {
        lemma_count_done_append(a, b.drop_last());
        assert((a + b).drop_last() =~= a + b.drop_last());
    } else {
        assert(a + b =~= a);
    }
}

/// Whether the events end the reply exactly when `finished` holds: one final
/// event, the last, when it does, and none when it does not.
pub open spec fn ends_once(events: Seq<StreamEventView>, finished: bool) -> bool {
    if finished {
        count_done(events) == 1 && events.len() > 0 && events.last().done
    } else {
        count_done(events) == 0
    }
}

proof fn lemma_count_done_single(e: StreamEventView)
    ensures
        count_done(seq![e]) == if e.done {
            1nat
        } else {
            0nat
        },
        count_done(Seq::<StreamEventView>::empty()) == 0,
{
    assert(count_done(Seq::<StreamEventView>::empty()) == 0);
    assert(seq![e].drop_last() =~= Seq::<StreamEventView>::empty());
    assert(seq![e].last() == e);
}

proof fn lemma_text_events_not_done(text: Option<Seq<char>>, thinking: bool)
    ensures
        count_done(text_events(text, thinking)) == 0,
{
    lemma_count_done_single(thinking_event(Seq::empty()));
    if let Some(t) = text {
        lemma_count_done_single(thinking_event(t));
        lemma_count_done_single(content_event(t));
    }
}

/// Every decoded line ends the reply once when it ends it, else not at all.
pub proof fn lemma_line_outcome_ends_once(line: Seq<char>)
    ensures
        line_outcome(line) matches Ok((events, finished)) ==> ends_once(events, finished),
{
    let one_done = seq![done_event()];
    lemma_count_done_single(done_event());
    if line.len() > 0 && line_payload(line) != done_marker() {
        if let Ok(f) = ollama_line_fields(line_payload(line)) {
            match f.error {
                Some(e) => {
                    lemma_count_done_single(error_event(e));
                },
                None => {
                    let a = text_events(f.thinking, true);
                    let b = text_events(f.content, false);
                    lemma_text_events_not_done(f.thinking, true);
                    lemma_text_events_not_done(f.content, false);
                    lemma_count_done_append(a, b);
                    if f.done == Some(true) {
                        lemma_count_done_append(a + b, one_done);
                    } else {
                        assert(a + b + Seq::<StreamEventView>::empty() =~= a + b);
                    }
                },
            }
        }
    }
}

/// The lines of a buffer end the reply at most once, and only with their
/// last event; a failing line hands out no final event.
pub proof fn lemma_run_lines_ends_once(buf: Seq<char>)
    ensures
        ends_once(run_lines(buf).0, run_lines(buf).1 == Ok::<bool, Seq<char>>(true)),
    decreases buf.len(),
{
    if let Some((line, rest)) = split_line(buf) {
        lemma_split_line(buf);
        lemma_line_outcome_ends_once(trim(line));
        if let Ok((events, finished)) = line_outcome(trim(line)) {
            if !finished {
                lemma_run_lines_ends_once(rest);
                lemma_count_done_append(events, run_lines(rest).0);
                let all = events + run_lines(rest).0;
                if run_lines(rest).0.len() > 0 {
                    assert(all.last() == run_lines(rest).0.last());
                }
            }
        }
    }
}

/// How a step of the stream ends.
#[derive(Debug, Clone, PartialEq, Eq)]
pub enum StepOutcome {
    /// The reply goes on.
    Continue,
    /// The reply has ended and its final event was handed out.
    Finished,
    /// A line could not be decoded; the reply fails with this message.
    Failed(String),
}

pub open spec fn outcome_view(o: StepOutcome) -> Result<bool, Seq<char>> {
    match o {
        StepOutcome::Continue => Ok(false),
        StepOutcome::Finished => Ok(true),
        StepOutcome::Failed(e) => Err(e@),
    }
}

/// The events to send, in order, and how the step ends.
#[derive(Debug, Clone, PartialEq, Eq)]
pub struct StreamStep {
    pub events: Vec<StreamEvent>,
    pub outcome: StepOutcome,
}

/// The state of a streaming reply: the text received after the last complete
/// line, whether the final event was handed out, whether a line failed,
/// whether an error was reported after the final event, and
/// every event handed out so far.
pub struct ChatStream {
    buffer: Vec<char>,
    done_sent: bool,
    failed: bool,
    late_failure: bool,
    history: Ghost<Seq<StreamEventView>>,
}

/// A [`ChatStream`] as plain values.
pub struct ChatStreamView {
    pub buffer: Seq<char>,
    pub done_sent: bool,
    pub failed: bool,
    pub late_failure: bool,
    pub history: Seq<StreamEventView>,
}

impl View for ChatStream {
    type V = ChatStreamView;

    closed spec fn view(&self) -> ChatStreamView {
        ChatStreamView {
            buffer: self.buffer@,
            done_sent: self.done_sent,
            failed: self.failed,
            late_failure: self.late_failure,
            history: self.history@,
        }
    }
}

/// The invariant of a stream: one final event has been handed out, and it
/// was the last, exactly when the stream is done, and none before. The one
/// exception is an error reported after the final event was handed out (its
/// delivery failed): then the error event is a second final event, the last.
pub open spec fn stream_wf(s: ChatStreamView) -> bool {
    if s.late_failure {
        &&& s.done_sent
        &&& count_done(s.history) == 2
        &&& s.history.len() > 0
        &&& s.history.last().done
    } else {
        ends_once(s.history, s.done_sent)
    }
}

fn find_newline(v: &Vec<char>) -> (r: Option<usize>)
    ensures
        match r {
            Some(i) => i < v@.len() && split_line(v@) == Some((v@.take(i as int), v@.skip(i + 1))),
            None => split_line(v@) is None,
        },
{
    let mut i: usize = 0;
    while i < v.len()
        invariant
            i <= v.len(),
            forall|j: int| 0 <= j < i ==> v@[j] != '\n',
        decreases v.len() - i,
    {
        if v[i] == '\n' {
            proof {
                lemma_split_line(v@);
                lemma_split_at_first_newline(v@, i as int);
            }
            return Some(i);
        }
        i += 1;
    }
    proof {
        lemma_split_line(v@);
        if split_line(v@) is Some {
            let (line, rest) = split_line(v@)->0;
            assert(v@[line.len() as int] == (line + seq!['\n'] + rest)[line.len() as int]);
        }
    }
    None
}

proof fn lemma_split_at_first_newline(s: Seq<char>, i: int)
    requires
        0 <= i < s.len(),
        s[i] == '\n',
        forall|j: int| 0 <= j < i ==> s[j] != '\n',
    ensures
        split_line(s) == Some((s.take(i), s.skip(i + 1))),
{
    lemma_split_line(s);
    let (line, rest) = split_line(s)->0;
    if line.len() < i {
        assert(s[line.len() as int] == (line + seq!['\n'] + rest)[line.len() as int]);
    } else if line.len() > i {
        assert(s[i] == (line + seq!['\n'] + rest)[i]);
        assert(line[i] == '\n');
    }
    assert(line =~= s.take(i));
    assert(rest =~= s.skip(i + 1));
}

/// What `String::from_utf8_lossy` gives for a chunk of bytes: the text it
/// encodes, with each invalid sequence replaced by U+FFFD.
pub uninterp spec fn utf8_lossy(bytes: Seq<u8>) -> Seq<char>;

/// Calls `String::from_utf8_lossy`; the result is named [`utf8_lossy`], and
/// valid UTF-8 is decoded as it is.
#[verifier::external_body]
fn decode_utf8_lossy(bytes: &[u8]) -> (r: String)
    ensures
        r@ == utf8_lossy(bytes@),
        vstd::utf8::valid_utf8(bytes@) ==> r@ == vstd::utf8::decode_utf8(bytes@),
{
    String::from_utf8_lossy(bytes).into_owned()
}

impl ChatStream {
    /// A stream before any byte of the reply has arrived.
    pub fn new() -> (s: ChatStream)
        ensures
            s@.buffer == Seq::<char>::empty(),
            !s@.done_sent,
            !s@.failed,
            !s@.late_failure,
            s@.history == Seq::<StreamEventView>::empty(),
            stream_wf(s@),
    {
        ChatStream {
            buffer: Vec::new(),
            done_sent: false,
            failed: false,
            late_failure: false,
            history: Ghost(Seq::empty()),
        }
    }

    /// Whether the final event was handed out.
    pub fn is_done(&self) -> (r: bool)
        ensures
            r == self@.done_sent,
    {
        self.done_sent
    }

    /// The user stopped the reply: the final event, marked stopped, unless the
    /// stream is already done or failed.
    pub fn cancel(&mut self) -> (events: Vec<StreamEvent>)
        requires
            stream_wf(old(self)@),
        ensures
            stream_wf(final(self)@),
            final(self)@.history == old(self)@.history + events_view(events@),
            final(self)@.buffer == old(self)@.buffer,
            final(self)@.failed == old(self)@.failed,
            old(self)@.done_sent || old(self)@.failed ==> events@.len() == 0 && final(self)@
                == old(self)@,
            !old(self)@.done_sent && !old(self)@.failed ==> events_view(events@) == seq![
                stopped_event(),
            ] && final(self)@.done_sent,
    {
        let mut events: Vec<StreamEvent> = Vec::new();
        if self.done_sent || self.failed {
            assert(old(self)@.history + events_view(events@) =~= old(self)@.history);
            return events;
        }
        events.push(stopped_stream_event());
        assert(events_view(events@) =~= seq![stopped_event()]);
        proof {
            lemma_count_done_single(stopped_event());
            lemma_count_done_append(old(self)@.history, events_view(events@));
        }
        self.done_sent = true;
        self.history = Ghost(self.history@ + events_view(events@));
        events
    }

    /// The reply's bytes ran out: the final event, unless it was handed out
    /// already or the stream failed. Text after the last newline is dropped.
    pub fn finish(&mut self) -> (events: Vec<StreamEvent>)
        requires
            stream_wf(old(self)@),
        ensures
            stream_wf(final(self)@),
            final(self)@.history == old(self)@.history + events_view(events@),
            final(self)@.buffer == old(self)@.buffer,
            final(self)@.failed == old(self)@.failed,
            old(self)@.done_sent || old(self)@.failed ==> events@.len() == 0 && final(self)@
                == old(self)@,
            !old(self)@.done_sent && !old(self)@.failed ==> events_view(events@) == seq![
                done_event(),
            ] && final(self)@.done_sent,
            !final(self)@.failed && !final(self)@.late_failure ==> ends_once(
                final(self)@.history,
                true,
            ),
    {
        let mut events: Vec<StreamEvent> = Vec::new();
        if self.done_sent || self.failed {
            assert(old(self)@.history + events_view(events@) =~= old(self)@.history);
            return events;
        }
        events.push(done_stream_event());
        assert(events_view(events@) =~= seq![done_event()]);
        proof {
            lemma_count_done_single(done_event());
            lemma_count_done_append(old(self)@.history, events_view(events@));
        }
        self.done_sent = true;
        self.history = Ghost(self.history@ + events_view(events@));
        events
    }

    /// The reply failed with `error`: the final event, carrying the error. It
    /// is handed out even where the final event was handed out already, since
    /// the caller reports an error only when that event could not be
    /// delivered; a second error is not handed out.
    pub fn fail(&mut self, error: String) -> (events: Vec<StreamEvent>)
        requires
            stream_wf(old(self)@),
        ensures
            stream_wf(final(self)@),
            final(self)@.history == old(self)@.history + events_view(events@),
            final(self)@.buffer == old(self)@.buffer,
            final(self)@.failed == old(self)@.failed,
            final(self)@.done_sent,
            old(self)@.late_failure ==> events@.len() == 0 && final(self)@ == old(self)@,
            !old(self)@.late_failure ==> events_view(events@) == seq![error_event(error@)],
            !old(self)@.done_sent ==> !final(self)@.late_failure && ends_once(
                final(self)@.history,
                true,
            ),
            old(self)@.done_sent && !old(self)@.late_failure ==> final(self)@.late_failure,
    {
        let mut events: Vec<StreamEvent> = Vec::new();
        if self.late_failure {
            assert(old(self)@.history + events_view(events@) =~= old(self)@.history);
            return events;
        }
        events.push(failure_event(error));
        assert(events_view(events@) =~= seq![error_event(error@)]);
        proof {
            lemma_count_done_single(error_event(error@));
            lemma_count_done_append(old(self)@.history, events_view(events@));
        }
        if self.done_sent {
            self.late_failure = true;
        }
        self.done_sent = true;
        self.history = Ghost(self.history@ + events_view(events@));
        events
    }

    /// Takes a chunk of the reply: adds its text to what was left of the last
    /// chunk and decodes every complete line, until one ends or fails the
    /// reply. A stream that is done or failed takes nothing more.
    pub fn receive(&mut self, bytes: &[u8]) -> (step: StreamStep)
        requires
            stream_wf(old(self)@),
        ensures
            stream_wf(final(self)@),
            final(self)@.history == old(self)@.history + events_view(step.events@),
            old(self)@.done_sent || old(self)@.failed ==> {
                &&& step.events@.len() == 0
                &&& step.outcome is Finished
                &&& final(self)@ == old(self)@
            },
            !old(self)@.done_sent && !old(self)@.failed ==> {
                let run = run_lines(old(self)@.buffer + utf8_lossy(bytes@));
                &&& events_view(step.events@) == run.0
                &&& outcome_view(step.outcome) == run.1
                &&& final(self)@.buffer == run.2
                &&& final(self)@.done_sent == (run.1 == Ok::<bool, Seq<char>>(true))
                &&& final(self)@.failed == (run.1 is Err)
            },
    {
        if self.done_sent || self.failed {
            return StreamStep { events: Vec::new(), outcome: StepOutcome::Finished };
        }
        let text = decode_utf8_lossy(bytes);
        let chars = text::chars_of(text.as_str());
        let ghost full = self.buffer@ + chars@;
        let mut i: usize = 0;
        while i < chars.len()
            invariant
                i <= chars.len(),
                self.buffer@ == old(self).buffer@ + chars@.take(i as int),
                self.done_sent == old(self).done_sent,
                self.failed == old(self).failed,
                self.late_failure == old(self).late_failure,
                self.history == old(self).history,
            decreases chars.len() - i,
        {
            self.buffer.push(chars[i]);
            i += 1;
            assert(self.buffer@ =~= old(self).buffer@ + chars@.take(i as int));
        }
        assert(chars@.take(chars.len() as int) =~= chars@);
        proof {
            lemma_run_lines_ends_once(full);
        }
        let mut events: Vec<StreamEvent> = Vec::new();
        assert(run_lines(full).0 =~= events_view(events@) + run_lines(self.buffer@).0);
        assert(count_done(events_view(events@)) == 0) by {
            assert(events_view(events@) =~= Seq::<StreamEventView>::empty());
        }
        loop
            invariant
                !self.done_sent,
                !self.failed,
                !old(self)@.done_sent,
                !old(self)@.failed,
                !self.late_failure,
                !old(self)@.late_failure,
                stream_wf(old(self)@),
                ends_once(run_lines(full).0, run_lines(full).1 == Ok::<bool, Seq<char>>(true)),
                run_lines(full).0 == events_view(events@) + run_lines(self.buffer@).0,
                run_lines(full).1 == run_lines(self.buffer@).1,
                run_lines(full).2 == run_lines(self.buffer@).2,
                count_done(events_view(events@)) == 0,
                self.history@ == old(self)@.history,
                full == old(self)@.buffer + utf8_lossy(bytes@),
            decreases self.buffer@.len(),
        {
            match find_newline(&self.buffer) {
                None => {
                    assert(events_view(events@) =~= run_lines(full).0);
                    proof {
                        lemma_count_done_append(old(self)@.history, events_view(events@));
                    }
                    self.history = Ghost(self.history@ + events_view(events@));
                    return StreamStep { events, outcome: StepOutcome::Continue };
                },
                Some(at) => {
                    proof {
                        lemma_split_line(self.buffer@);
                    }
                    assert(at < self.buffer.len());
                    let raw = text::sub_chars(&self.buffer, 0, at);
                    let rest = text::sub_chars(&self.buffer, at + 1, self.buffer.len());
                    assert(raw@ =~= self.buffer@.take(at as int));
                    assert(rest@ =~= self.buffer@.skip(at + 1));
                    let line = text::trim_chars(&raw);
                    let ghost before = self.buffer@;
                    self.buffer = rest;
                    match process_line_chars(&line) {
                        Err(e) => {
                            assert(events_view(events@) =~= run_lines(full).0) by {
                                assert(run_lines(before).0 =~= Seq::<StreamEventView>::empty());
                            }
                            proof {
                                lemma_count_done_append(old(self)@.history, events_view(events@));
                            }
                            self.failed = true;
                            self.history = Ghost(self.history@ + events_view(events@));
                            return StreamStep { events, outcome: StepOutcome::Failed(e) };
                        },
                        Ok((more, finished)) => {
                            let ghost prev = events_view(events@);
                            let ghost added = events_view(more@);
                            let mut more = more;
                            events.append(&mut more);
                            assert(events_view(events@) =~= prev + added);
                            if finished {
                                assert(events_view(events@) =~= run_lines(full).0);
                                proof {
                                    lemma_count_done_append(old(self)@.history, events_view(events@));
                                    let all = old(self)@.history + events_view(events@);
                                    assert(all.last() == events_view(events@).last());
                                }
                                self.done_sent = true;
                                self.history = Ghost(self.history@ + events_view(events@));
                                return StreamStep { events, outcome: StepOutcome::Finished };
                            }
                            assert(run_lines(full).0 =~= events_view(events@) + run_lines(self.buffer@).0);
                            proof {
                                lemma_line_outcome_ends_once(trim(raw@));
                                lemma_count_done_append(prev, added);
                            }
                        },
                    }
                },
            }
        }
    }
}

} // verus!
