use taskhomie::agent::{
    action_error_result, bash_step, browser_output_result, browser_screenshot_result, text_result, ToolRound, has_new_snapshot, is_browser_tool, keep_going, mode_name, round_end, route_tool,
    speak_result, summarize_old_snapshots, summarize_snapshot, unknown_tool_result, user_message,
    AgentMode, BashStep, RoundEnd, SpeakOutcome, ToolRoute, MAX_ITERATIONS,
};
use taskhomie::api::{ContentBlock, Message, ToolResultContent};

fn result_text(b: &ContentBlock) -> String {
    match b {
        ContentBlock::ToolResult { content, .. } => match &content[0] {
            ToolResultContent::Text { text } => text.clone(),
            other => panic!("unexpected {:?}", other),
        },
        other => panic!("unexpected {:?}", other),
    }
}

#[test]
fn browser_tool_names() {
    assert!(is_browser_tool("take_snapshot"));
    assert!(is_browser_tool("handle_dialog"));
    assert!(!is_browser_tool("see_page"));
    assert!(!is_browser_tool("bash"));
}

#[test]
fn routing_by_mode() {
    assert_eq!(route_tool("computer", AgentMode::Browser), ToolRoute::Computer);
    assert_eq!(route_tool("bash", AgentMode::Computer), ToolRoute::Bash);
    assert_eq!(route_tool("click", AgentMode::Browser), ToolRoute::Browser);
    assert_eq!(route_tool("click", AgentMode::Computer), ToolRoute::Unknown);
    assert_eq!(route_tool("screenshot", AgentMode::Browser), ToolRoute::BrowserScreenshot);
    assert_eq!(route_tool("screenshot", AgentMode::Computer), ToolRoute::Unknown);
    assert_eq!(route_tool("speak", AgentMode::Computer), ToolRoute::Speak);
    assert_eq!(route_tool("nope", AgentMode::Browser), ToolRoute::Unknown);
    assert_eq!(mode_name(AgentMode::Browser), "browser");
    assert_eq!(mode_name(AgentMode::default()), "computer");
}

#[test]
fn snapshot_summary_keeps_interactive_lines() {
    let snap = "uid=1_0 RootWebArea \"x\"\n  uid=1_1 generic\n  uid=1_2 button \"Go\"\n  uid=1_3 StaticText \"t\"\n  uid=1_4 link";
    assert_eq!(
        summarize_snapshot(snap),
        "[snapshot summarized: 2 interactive elements from 5 total]\n  uid=1_2 button \"Go\"\n  uid=1_4 link"
    );
}

#[test]
fn only_long_snapshots_in_user_results_shrink() {
    let mut long = String::from("uid=1_0 WebArea\n");
    for i in 1..400 {
        long.push_str(&format!("  uid=1_{i} StaticText \"some filler text here\"\n"));
    }
    assert!(long.len() > 5000);
    let result = ContentBlock::ToolResult {
        tool_use_id: "t".to_string(),
        content: vec![
            ToolResultContent::Text { text: long.clone() },
            ToolResultContent::Text { text: "uid=short".to_string() },
        ],
    };
    let mut messages = vec![
        Message { role: "user".to_string(), content: vec![result.clone()] },
        Message { role: "assistant".to_string(), content: vec![result] },
    ];
    summarize_old_snapshots(&mut messages);
    match &messages[0].content[0] {
        ContentBlock::ToolResult { content, .. } => {
            match &content[0] {
                ToolResultContent::Text { text } => {
                    assert_eq!(text, "[snapshot summarized: 1 interactive elements from 400 total]\nuid=1_0 WebArea")
                },
                other => panic!("unexpected {:?}", other),
            }
            match &content[1] {
                ToolResultContent::Text { text } => assert_eq!(text, "uid=short"),
                other => panic!("unexpected {:?}", other),
            }
        },
        other => panic!("unexpected {:?}", other),
    }
    // assistant messages are left alone
    match &messages[1].content[0] {
        ContentBlock::ToolResult { content, .. } => match &content[0] {
            ToolResultContent::Text { text } => assert_eq!(text, &long),
            other => panic!("unexpected {:?}", other),
        },
        other => panic!("unexpected {:?}", other),
    }
    // a second pass changes nothing
    let before = format!("{:?}", messages);
    summarize_old_snapshots(&mut messages);
    assert_eq!(format!("{:?}", messages), before);
}

#[test]
fn new_snapshot_detection() {
    let with = vec![ContentBlock::ToolResult {
        tool_use_id: "a".to_string(),
        content: vec![ToolResultContent::Text { text: "uid=3_0 WebArea".to_string() }],
    }];
    let without = vec![ContentBlock::ToolResult {
        tool_use_id: "a".to_string(),
        content: vec![ToolResultContent::Text { text: "Clicked".to_string() }],
    }];
    assert!(has_new_snapshot(&with));
    assert!(!has_new_snapshot(&without));
}

#[test]
fn loop_limits_and_round_ends() {
    assert!(keep_going(true, 0));
    assert!(keep_going(true, MAX_ITERATIONS - 1));
    assert!(!keep_going(true, MAX_ITERATIONS));
    assert!(!keep_going(false, 0));
    assert_eq!(round_end(false, &vec![]), RoundEnd::Stopped);
    assert_eq!(round_end(true, &vec![]), RoundEnd::Completed);
    let r = vec![unknown_tool_result("id", "x")];
    assert_eq!(round_end(true, &r), RoundEnd::Continue);
}

#[test]
fn tool_results_text() {
    assert_eq!(
        result_text(&unknown_tool_result("id", "fly")),
        "Error: Unknown tool 'fly'. Use the available tools: computer, bash, speak."
    );
    assert_eq!(result_text(&speak_result("s", SpeakOutcome::Delivered)), "Speech delivered.");
    assert_eq!(
        result_text(&speak_result("s", SpeakOutcome::Failed("HTTP 500".to_string()))),
        "TTS error: HTTP 500"
    );
    assert!(matches!(bash_step("b", true, Some("ls".to_string())), BashStep::Restart));
    match bash_step("b", false, None) {
        BashStep::Invalid(block) => {
            assert_eq!(result_text(&block), "Error: the bash tool needs a command to run or restart: true.");
            match block {
                ContentBlock::ToolResult { tool_use_id, .. } => assert_eq!(tool_use_id, "b"),
                other => panic!("unexpected {:?}", other),
            }
        },
        other => panic!("unexpected {:?}", other),
    }
    assert_eq!(
        result_text(&action_error_result("c", "missing field `action`")),
        "Error: Failed to parse action: missing field `action`"
    );
    assert_eq!(
        result_text(&speak_result("s", SpeakOutcome::NoText)),
        "Error: the speak tool needs a text to say."
    );
    match bash_step("b", false, Some("ls".to_string())) {
        BashStep::Run(c) => assert_eq!(c, "ls"),
        other => panic!("unexpected {:?}", other),
    }
}

#[test]
fn first_user_message_wraps_voice_input() {
    let m = user_message("open mail", Some("IMG".to_string()), true);
    assert_eq!(m.role, "user");
    assert_eq!(m.content.len(), 2);
    match &m.content[0] {
        ContentBlock::Image { source } => {
            assert_eq!(source.source_type, "base64");
            assert_eq!(source.media_type, "image/jpeg");
            assert_eq!(source.data, "IMG");
        },
        other => panic!("unexpected {:?}", other),
    }
    match &m.content[1] {
        ContentBlock::Text { text } => assert_eq!(text, "<voice_input>open mail</voice_input>"),
        other => panic!("unexpected {:?}", other),
    }
}

#[test]
fn new_conversation_gets_random_uuid() {
    let c = taskhomie::agent::resolve_conversation(None, "m", AgentMode::Computer);
    let id: Vec<char> = c.id.chars().collect();
    assert_eq!(id.len(), 36);
    for (i, ch) in id.iter().enumerate() {
        if i == 8 || i == 13 || i == 18 || i == 23 {
            assert_eq!(*ch, '-');
        } else {
            assert!(ch.is_ascii_hexdigit() && !ch.is_ascii_uppercase());
        }
    }
    assert_eq!(id[14], '4');
    assert!(matches!(id[19], '8' | '9' | 'a' | 'b'));
    assert_eq!(c.title, "New Conversation");
    let other = taskhomie::agent::resolve_conversation(None, "m", AgentMode::Computer);
    assert_ne!(c.id, other.id);
}

fn tool_use(id: &str) -> ContentBlock {
    ContentBlock::ToolUse { id: id.to_string(), name: "bash".to_string(), input: "{}".to_string() }
}

#[test]
fn a_round_answers_each_call_in_order() {
    let reply = vec![
        ContentBlock::Text { text: "working".to_string() },
        tool_use("a"),
        tool_use("b"),
    ];
    let mut round = ToolRound::new(&reply);
    assert!(!round.is_complete());
    // a result for a later call, or a block that is no result, is refused
    assert!(!round.record(text_result("b", "out".to_string())));
    assert!(!round.record(ContentBlock::Text { text: "x".to_string() }));
    assert!(round.record(text_result("a", "first".to_string())));
    assert!(round.results_so_far().len() == 1);
    assert!(round.record(browser_output_result("b", Err("timeout".to_string()))));
    // every call is answered: nothing more is taken
    assert!(round.is_complete());
    assert!(!round.record(text_result("c", "extra".to_string())));
    let results = round.finish().unwrap();
    assert_eq!(results.len(), 2);
    assert_eq!(result_text(&results[0]), "first");
    assert_eq!(result_text(&results[1]), "Browser error: timeout");
    // an unanswered call leaves the round incomplete
    let mut open = ToolRound::new(&reply);
    assert!(open.record(text_result("a", "first".to_string())));
    assert!(open.finish().is_none());
}

#[test]
fn browser_screenshot_results() {
    match browser_screenshot_result("s", Ok("IMG".to_string())) {
        ContentBlock::ToolResult { tool_use_id, content } => {
            assert_eq!(tool_use_id, "s");
            match &content[0] {
                ToolResultContent::Image { source } => {
                    assert_eq!(source.data, "IMG");
                    assert_eq!(source.media_type, "image/jpeg");
                },
                other => panic!("unexpected {:?}", other),
            }
        },
        other => panic!("unexpected {:?}", other),
    }
    assert_eq!(result_text(&browser_screenshot_result("s", Err("no page".to_string()))), "Screenshot error: no page");
    assert_eq!(result_text(&browser_output_result("c", Ok("clicked".to_string()))), "clicked");
}
