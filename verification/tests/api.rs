use taskhomie::api::{
    error_reply, needs_rewrite, rewrite_prompt, rewritten_text, sse_data, sse_event, ApiError, BlockDelta,
    BlockFields, BlockStart, ContentBlock, DeltaFields, SseEvent, SseFields, SseLines, StreamDecoder,
    StreamEvent, UsageReport,
    REWRITE_PROMPT_HEAD, REWRITE_PROMPT_TAIL,
};

fn start(index: usize, block_type: &str, id: Option<&str>, name: Option<&str>) -> SseEvent {
    SseEvent::ContentBlockStart {
        index,
        block: Some(BlockStart {
            block_type: block_type.to_string(),
            id: id.map(|s| s.to_string()),
            name: name.map(|s| s.to_string()),
            tool_use_id: None,
            content: None,
        }),
    }
}

fn delta(index: usize, delta_type: &str, text: Option<&str>, partial_json: Option<&str>) -> SseEvent {
    SseEvent::ContentBlockDelta {
        index,
        delta: Some(BlockDelta {
            delta_type: delta_type.to_string(),
            thinking: None,
            signature: None,
            text: text.map(|s| s.to_string()),
            partial_json: partial_json.map(|s| s.to_string()),
        }),
    }
}

#[test]
fn decoder_builds_text_and_tool_blocks() {
    let mut d = StreamDecoder::new();
    let usage = UsageReport { input_tokens: Some(12), cache_creation_input_tokens: None, cache_read_input_tokens: Some(4) };
    assert!(d.apply(SseEvent::MessageStart { usage: Some(usage) }).is_none());
    assert!(d.apply(start(0, "text", None, None)).is_none());
    match d.apply(delta(0, "text_delta", Some("Hel"), None)) {
        Some(StreamEvent::TextDelta { text }) => assert_eq!(text, "Hel"),
        other => panic!("unexpected {:?}", other),
    }
    d.apply(delta(0, "text_delta", Some("lo"), None));
    d.apply(SseEvent::ContentBlockStop { index: 0 });
    match d.apply(start(1, "tool_use", Some("tu_1"), Some("bash"))) {
        Some(StreamEvent::ToolUseStart { name }) => assert_eq!(name, "bash"),
        other => panic!("unexpected {:?}", other),
    }
    d.apply(delta(1, "input_json_delta", None, Some("{\"command\":")));
    d.apply(delta(1, "input_json_delta", None, Some("\"ls\"}")));
    d.apply(SseEvent::ContentBlockStop { index: 1 });
    d.apply(SseEvent::MessageDelta { usage: Some(Some(7)) });
    assert!(matches!(d.apply(SseEvent::MessageStop), Some(StreamEvent::MessageStop)));
    let r = d.finish();
    assert_eq!(r.usage.input_tokens, 12);
    assert_eq!(r.usage.cache_creation_input_tokens, 0);
    assert_eq!(r.usage.cache_read_input_tokens, 4);
    assert_eq!(r.usage.output_tokens, 7);
    assert_eq!(r.content.len(), 2);
    match &r.content[0] {
        ContentBlock::Text { text } => assert_eq!(text, "Hello"),
        other => panic!("unexpected {:?}", other),
    }
    match &r.content[1] {
        ContentBlock::ToolUse { id, name, input } => {
            assert_eq!(id, "tu_1");
            assert_eq!(name, "bash");
            assert_eq!(input, "{\"command\":\"ls\"}");
        },
        other => panic!("unexpected {:?}", other),
    }
}

#[test]
fn decoder_replaces_broken_tool_input_and_drops_empty_text() {
    let mut d = StreamDecoder::new();
    d.apply(start(0, "tool_use", Some("a"), Some("computer")));
    d.apply(delta(0, "input_json_delta", None, Some("{\"action\":")));
    d.apply(SseEvent::ContentBlockStop { index: 0 });
    d.apply(start(1, "text", None, None));
    d.apply(SseEvent::ContentBlockStop { index: 1 });
    let r = d.finish();
    assert_eq!(r.content.len(), 1);
    match &r.content[0] {
        ContentBlock::ToolUse { input, .. } => assert_eq!(input, "{}"),
        other => panic!("unexpected {:?}", other),
    }
}

#[test]
fn sse_lines_do_not_depend_on_chunking() {
    let mut a = SseLines::new();
    let mut got_a = a.push("data: one\r\nda");
    got_a.extend(a.push("ta: two\n"));
    got_a.extend(a.push("tail"));
    let mut b = SseLines::new();
    let got_b = b.push("data: one\r\ndata: two\ntail");
    assert_eq!(got_a, vec!["data: one", "data: two"]);
    assert_eq!(got_a, got_b);
    assert_eq!(a.buffer, b.buffer);
    assert_eq!(a.buffer.iter().collect::<String>(), "tail");
}

#[test]
fn sse_data_payload() {
    assert_eq!(sse_data("data: {\"a\":1}"), Some("{\"a\":1}".to_string()));
    assert_eq!(sse_data("event: ping"), None);
    assert_eq!(sse_data("data:"), None);
}

#[test]
fn rewrite_request_and_reply() {
    assert!(!needs_rewrite("  \n\t"));
    assert!(needs_rewrite(" um open mail "));
    let p = rewrite_prompt("um hello");
    assert_eq!(p, format!("{REWRITE_PROMPT_HEAD}um hello{REWRITE_PROMPT_TAIL}"));
    assert!(p.contains("<input>\num hello\n</input>"));
    let blocks = vec![
        (Some("thinking".to_string()), Some("x".to_string())),
        (Some("text".to_string()), None),
        (Some("text".to_string()), Some("  Hello.  ".to_string())),
        (Some("text".to_string()), Some("later".to_string())),
    ];
    assert_eq!(rewritten_text("raw", &blocks), "Hello.");
    assert_eq!(rewritten_text("raw", &vec![(None, Some("t".to_string()))]), "raw");
}

#[test]
fn refused_request_errors() {
    match error_reply("400 Bad Request", "{}", Some("bad model".to_string())) {
        ApiError::Api(m) => assert_eq!(m, "bad model"),
        other => panic!("unexpected {:?}", other),
    }
    match error_reply("500 Internal Server Error", "oops", None) {
        ApiError::Api(m) => assert_eq!(m, "HTTP 500 Internal Server Error: oops"),
        other => panic!("unexpected {:?}", other),
    }
}

#[test]
fn api_error_messages() {
    assert_eq!(ApiError::Request("timeout".to_string()).message(), "HTTP request failed: timeout");
    assert_eq!(ApiError::Api("overloaded".to_string()).message(), "API error: overloaded");
}

fn fields(event_type: Option<&str>) -> SseFields {
    SseFields {
        event_type: event_type.map(|t| t.to_string()),
        index: None,
        message_usage: None,
        usage: None,
        content_block: None,
        delta: None,
    }
}

#[test]
fn event_fields_choose_the_event() {
    let mut f = fields(Some("message_start"));
    f.message_usage = Some(UsageReport { input_tokens: Some(7), cache_creation_input_tokens: None, cache_read_input_tokens: None });
    match sse_event(f) {
        SseEvent::MessageStart { usage: Some(u) } => assert_eq!(u.input_tokens, Some(7)),
        other => panic!("unexpected {:?}", other),
    }
    // a missing index is 0 and a missing block type is empty
    let mut f = fields(Some("content_block_start"));
    f.content_block = Some(BlockFields { block_type: None, id: Some("t1".to_string()), name: None, tool_use_id: None, content: None });
    match sse_event(f) {
        SseEvent::ContentBlockStart { index: 0, block: Some(b) } => {
            assert_eq!(b.block_type, "");
            assert_eq!(b.id, Some("t1".to_string()));
        },
        other => panic!("unexpected {:?}", other),
    }
    let mut f = fields(Some("content_block_delta"));
    f.index = Some(3);
    f.delta = Some(DeltaFields { delta_type: Some("text_delta".to_string()), thinking: None, signature: None, text: Some("hi".to_string()), partial_json: None });
    match sse_event(f) {
        SseEvent::ContentBlockDelta { index: 3, delta: Some(d) } => {
            assert_eq!(d.delta_type, "text_delta");
            assert_eq!(d.text, Some("hi".to_string()));
        },
        other => panic!("unexpected {:?}", other),
    }
    let mut f = fields(Some("message_delta"));
    f.usage = Some(Some(12));
    assert!(matches!(sse_event(f), SseEvent::MessageDelta { usage: Some(Some(12)) }));
    assert!(matches!(sse_event(fields(Some("content_block_stop"))), SseEvent::ContentBlockStop { index: 0 }));
    assert!(matches!(sse_event(fields(Some("message_stop"))), SseEvent::MessageStop));
    assert!(matches!(sse_event(fields(Some("ping"))), SseEvent::Other));
    assert!(matches!(sse_event(fields(None)), SseEvent::Other));
}
