use taskhomie::api::{ContentBlock, Message};
use taskhomie::storage::{unix_stamp, Conversation, Usage};

#[test]
fn test_usage_totals() {
    let usage = Usage {
        input_tokens: 100,
        output_tokens: 50,
        cache_creation_input_tokens: 200,
        cache_read_input_tokens: 0,
    };
    assert_eq!(usage.total_input(), 300);
    assert_eq!(usage.total(), 350);
}

#[test]
fn test_conversation_auto_title() {
    let mut conv = Conversation::new(
        "test".to_string(),
        "New Conversation".to_string(),
        "sonnet".to_string(),
        "computer".to_string(),
    );

    conv.add_message(Message {
        role: "user".to_string(),
        content: vec![ContentBlock::Text {
            text: "Hello, can you help me with something?".to_string(),
        }],
    });

    conv.auto_title();
    assert_eq!(conv.title, "Hello, can you help me with something?");
}

#[test]
fn auto_title_cuts_long_text() {
    let mut conv = Conversation::new("c1".to_string(), String::new(), "m".to_string(), "computer".to_string());
    conv.add_message(Message {
        role: "assistant".to_string(),
        content: vec![ContentBlock::Text { text: "ignored".to_string() }],
    });
    let long = format!("  {}", "a".repeat(60));
    conv.add_message(Message { role: "user".to_string(), content: vec![ContentBlock::Text { text: long }] });
    conv.auto_title();
    // the first 50 characters ("  " and 48 letters), trimmed, then "..."
    assert_eq!(conv.title, format!("{}...", "a".repeat(48)));
    // naming again changes nothing
    let before = conv.title.clone();
    conv.auto_title();
    assert_eq!(conv.title, before);
}

#[test]
fn auto_title_keeps_custom_title() {
    let mut conv = Conversation::new("c2".to_string(), "Taxes".to_string(), "m".to_string(), "browser".to_string());
    conv.add_message(Message { role: "user".to_string(), content: vec![ContentBlock::Text { text: "hi".to_string() }] });
    conv.auto_title();
    assert_eq!(conv.title, "Taxes");
}

#[test]
fn auto_title_without_user_text_keeps_default() {
    let mut conv = Conversation::new("c3".to_string(), "New Conversation".to_string(), "m".to_string(), "computer".to_string());
    conv.add_message(Message { role: "user".to_string(), content: vec![] });
    conv.auto_title();
    assert_eq!(conv.title, "New Conversation");
}

#[test]
fn usage_accumulates_per_turn() {
    let mut conv = Conversation::new("c4".to_string(), String::new(), "m".to_string(), "computer".to_string());
    let u1 = Usage { input_tokens: 10, output_tokens: 5, cache_creation_input_tokens: 2, cache_read_input_tokens: 3 };
    let u2 = Usage { input_tokens: 1, output_tokens: 1, cache_creation_input_tokens: 0, cache_read_input_tokens: 0 };
    conv.add_usage(u1, "m1");
    conv.add_usage(u2, "m2");
    assert_eq!(conv.turn_usage.len(), 2);
    assert_eq!(conv.turn_usage[0].turn_index, 0);
    assert_eq!(conv.turn_usage[1].turn_index, 1);
    assert_eq!(conv.turn_usage[1].model, "m2");
    assert_eq!(conv.total_input_tokens, 16);
    assert_eq!(conv.total_output_tokens, 6);
    let meta = conv.to_meta();
    assert_eq!(meta.id, "c4");
    assert_eq!(meta.message_count, 0);
    assert_eq!(meta.total_input_tokens, 16);
    assert_eq!(meta.total_output_tokens, 6);
}

#[test]
fn usage_default_is_zero() {
    let u = Usage::default();
    assert_eq!(u.total(), 0);
    assert_eq!(u.total_input(), 0);
}

#[test]
fn clock_readings_become_stamps() {
    assert_eq!(unix_stamp(Some(1_700_000_000)), 1_700_000_000);
    assert_eq!(unix_stamp(None), 0);
    assert_eq!(unix_stamp(Some(u64::MAX)), -1);
}
