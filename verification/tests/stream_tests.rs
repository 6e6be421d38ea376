use gemma_chat::stream::{
    chunk_events, failure_event, process_stream_line, ChatStream, ChunkFields, StepOutcome,
    StreamEvent,
};

fn ev(content: &str, thinking: &str, done: bool, stopped: bool, error: Option<&str>) -> StreamEvent {
    StreamEvent {
        content: content.to_string(),
        thinking: thinking.to_string(),
        done,
        stopped,
        error: error.map(|e| e.to_string()),
    }
}

fn done() -> StreamEvent {
    ev("", "", true, false, None)
}

#[test]
fn empty_line_gives_nothing() {
    assert_eq!(process_stream_line(""), Ok((vec![], false)));
}

#[test]
fn done_marker_ends_the_reply() {
    assert_eq!(process_stream_line("[DONE]"), Ok((vec![done()], true)));
    assert_eq!(process_stream_line("data: [DONE]"), Ok((vec![done()], true)));
    assert_eq!(process_stream_line("data:[DONE]  "), Ok((vec![done()], true)));
}

#[test]
fn thinking_comes_before_content() {
    let line = r#"{"message":{"role":"assistant","content":"hi","thinking":"hmm"},"done":false}"#;
    assert_eq!(
        process_stream_line(line),
        Ok((vec![ev("", "hmm", false, false, None), ev("hi", "", false, false, None)], false))
    );
}

#[test]
fn data_prefix_is_stripped() {
    let line = r#"data: {"message":{"content":"x"}}"#;
    assert_eq!(process_stream_line(line), Ok((vec![ev("x", "", false, false, None)], false)));
}

#[test]
fn empty_texts_send_nothing_and_done_ends() {
    let line = r#"{"message":{"content":"","thinking":""},"done":true}"#;
    assert_eq!(process_stream_line(line), Ok((vec![done()], true)));
}

#[test]
fn error_field_ends_with_error_event() {
    let line = r#"{"error":"model not found","message":{"content":"ignored"}}"#;
    assert_eq!(
        process_stream_line(line),
        Ok((vec![ev("", "", true, false, Some("model not found"))], true))
    );
}

#[test]
fn non_text_fields_are_ignored() {
    let line = r#"{"error":5,"message":{"content":7},"done":"yes"}"#;
    assert_eq!(process_stream_line(line), Ok((vec![], false)));
}

#[test]
fn bad_json_is_an_error() {
    let r = process_stream_line("not json");
    assert!(matches!(r, Err(ref m) if !m.is_empty()));
    assert!(process_stream_line("data:").is_err());
}

#[test]
fn chunk_events_follow_fields() {
    let fields = ChunkFields {
        error: None,
        thinking: Some("t".to_string()),
        content: Some("c".to_string()),
        done: Some(true),
    };
    assert_eq!(
        chunk_events(&fields),
        (vec![ev("", "t", false, false, None), ev("c", "", false, false, None), done()], true)
    );
}

#[test]
fn failure_event_carries_the_error() {
    assert_eq!(failure_event("boom".to_string()), ev("", "", true, false, Some("boom")));
}

#[test]
fn lines_split_across_chunks() {
    let mut s = ChatStream::new();
    let a = s.receive(b"{\"message\":{\"content\":\"a\"}}\n{\"mess");
    assert_eq!(a.events, vec![ev("a", "", false, false, None)]);
    assert_eq!(a.outcome, StepOutcome::Continue);
    let b = s.receive(b"age\":{\"content\":\"b\"},\"done\":true}\n{\"message\":{\"content\":\"late\"}}\n");
    assert_eq!(b.events, vec![ev("b", "", false, false, None), done()]);
    assert_eq!(b.outcome, StepOutcome::Finished);
    assert!(s.is_done());
    assert_eq!(s.finish(), vec![]);
    let c = s.receive(b"{\"message\":{\"content\":\"more\"}}\n");
    assert_eq!(c.events, vec![]);
}

#[test]
fn chunk_boundaries_do_not_matter() {
    let text = "{\"message\":{\"thinking\":\"x\"}}\n\n data: {\"message\":{\"content\":\"y\"}} \n{\"done\":true}\n";
    let mut whole = ChatStream::new();
    let all = whole.receive(text.as_bytes());
    for cut in 0..text.len() {
        let mut parts = ChatStream::new();
        let first = parts.receive(&text.as_bytes()[..cut]);
        let second = parts.receive(&text.as_bytes()[cut..]);
        let mut events = first.events.clone();
        events.extend(second.events.clone());
        assert_eq!(events, all.events);
        assert_eq!(second.outcome, all.outcome);
    }
}

#[test]
fn stream_without_done_gets_one_at_the_end() {
    let mut s = ChatStream::new();
    let a = s.receive(b"{\"message\":{\"content\":\"a\"}}\npartial");
    assert_eq!(a.outcome, StepOutcome::Continue);
    assert_eq!(s.finish(), vec![done()]);
    assert_eq!(s.finish(), vec![]);
}

#[test]
fn cancel_sends_stopped_once() {
    let mut s = ChatStream::new();
    assert_eq!(s.cancel(), vec![ev("", "", true, true, None)]);
    assert_eq!(s.cancel(), vec![]);
    assert_eq!(s.finish(), vec![]);
}

#[test]
fn bad_line_fails_the_stream() {
    let mut s = ChatStream::new();
    let a = s.receive(b"{\"message\":{\"content\":\"a\"}}\noops\n{\"done\":true}\n");
    assert_eq!(a.events, vec![ev("a", "", false, false, None)]);
    assert!(matches!(a.outcome, StepOutcome::Failed(_)));
    assert!(!s.is_done());
    assert_eq!(s.finish(), vec![]);
}

#[test]
fn invalid_utf8_is_replaced() {
    let mut s = ChatStream::new();
    let a = s.receive(b"{\"message\":{\"content\":\"a\xffb\"}}\n");
    assert_eq!(a.events, vec![ev("a\u{FFFD}b", "", false, false, None)]);
}

#[test]
fn one_final_event_per_run() {
    let inputs: [&[u8]; 4] = [
        b"{\"message\":{\"content\":\"a\"}}\n",
        b"{\"done\":true}\n{\"done\":true}\n",
        b"{\"error\":\"x\"}\n",
        b"no newline",
    ];
    for input in inputs {
        let mut s = ChatStream::new();
        let mut events = s.receive(input).events;
        events.extend(s.cancel());
        events.extend(s.finish());
        assert_eq!(events.iter().filter(|e| e.done).count(), 1);
        assert!(events.last().unwrap().done);
    }
}

#[test]
fn failed_run_ends_with_the_error() {
    let mut s = ChatStream::new();
    let a = s.receive(b"{\"message\":{\"content\":\"a\"}}\noops\n");
    assert!(matches!(a.outcome, StepOutcome::Failed(_)));
    let e = s.fail("bad line".to_string());
    assert_eq!(e, vec![ev("", "", true, false, Some("bad line"))]);
    assert!(s.is_done());
    assert_eq!(s.finish(), vec![]);
    assert_eq!(s.cancel(), vec![]);
}

#[test]
fn failure_before_any_byte() {
    let mut s = ChatStream::new();
    assert_eq!(s.fail("unreachable".to_string()), vec![ev("", "", true, false, Some("unreachable"))]);
    assert_eq!(s.fail("again".to_string()), vec![ev("", "", true, false, Some("again"))]);
    assert_eq!(s.fail("third".to_string()), vec![]);
}

#[test]
fn failure_after_final_event_is_still_reported() {
    let mut s = ChatStream::new();
    assert_eq!(s.finish(), vec![done()]);
    assert_eq!(s.fail("emit failed".to_string()), vec![ev("", "", true, false, Some("emit failed"))]);
}
