use ethereum_forum::workshop::{
    estimate_tokens_in_message, estimate_tokens_in_text, truncate_messages_to_token_limit,
    ChatMessage, ToolCallFn,
};

fn user(text: &str) -> ChatMessage {
    ChatMessage::User { content: String::from(text), name: None }
}

fn content_of(m: &ChatMessage) -> &str {
    match m {
        ChatMessage::User { content, .. } => content.as_str(),
        ChatMessage::System { content, .. } => content.as_str(),
        _ => panic!("unexpected message kind"),
    }
}

#[test]
fn text_estimate_rounds_up() {
    // Three and a half bytes per token, rounded up.
    assert_eq!(estimate_tokens_in_text(""), 0);
    assert_eq!(estimate_tokens_in_text("abc"), 1);
    assert_eq!(estimate_tokens_in_text("abcd"), 2);
    assert_eq!(estimate_tokens_in_text("1234567"), 2);
    assert_eq!(estimate_tokens_in_text("12345678"), 3);
}

#[test]
fn message_estimate_counts_all_parts() {
    // 4 overhead + ceil(7/3.5) = 6.
    assert_eq!(estimate_tokens_in_message(&user("1234567")), 6);
    // A named author costs one more.
    let named = ChatMessage::User {
        content: String::from("1234567"),
        name: Some(String::from("x")),
    };
    assert_eq!(estimate_tokens_in_message(&named), 7);
    // An unmodelled message kind gets a flat conservative estimate.
    assert_eq!(estimate_tokens_in_message(&ChatMessage::Other), 54);
    // Tool calls count their name, arguments and structure.
    let assistant = ChatMessage::Assistant {
        content: None,
        name: None,
        tool_calls: Some(vec![ToolCallFn {
            name: String::from("abc"),
            arguments: String::from("abcd"),
        }]),
    };
    assert_eq!(estimate_tokens_in_message(&assistant), 4 + 1 + 2 + 4);
}

#[test]
fn truncation_keeps_everything_under_the_limit_with_system() {
    let messages = vec![
        ChatMessage::System { content: String::from("be nice"), name: None },
        user("one"),
        user("two"),
        user("three"),
    ];
    let kept = truncate_messages_to_token_limit(messages, 0);
    assert_eq!(kept.len(), 4);
    assert!(matches!(kept[0], ChatMessage::System { .. }));
    assert_eq!(content_of(&kept[1]), "one");
    assert_eq!(content_of(&kept[2]), "two");
    assert_eq!(content_of(&kept[3]), "three");
}

#[test]
fn truncation_without_system_leads_with_newest() {
    // Without a system prompt the newest kept message ends up in front,
    // the rest in their original order behind it.
    let messages = vec![user("one"), user("two"), user("three")];
    let kept = truncate_messages_to_token_limit(messages, 0);
    assert_eq!(kept.len(), 3);
    assert_eq!(content_of(&kept[0]), "three");
    assert_eq!(content_of(&kept[1]), "one");
    assert_eq!(content_of(&kept[2]), "two");
}

#[test]
fn truncation_drops_the_oversized_but_keeps_the_recent() {
    // A single message estimated far over the budget is dropped; older but
    // smaller messages still make it.
    let huge = "a".repeat(700_000); // about 200k tokens, over the limit
    let messages = vec![
        ChatMessage::System { content: String::from("be nice"), name: None },
        user("early"),
        user(&huge),
        user("late"),
    ];
    let kept = truncate_messages_to_token_limit(messages, 0);
    assert_eq!(kept.len(), 3);
    assert!(matches!(kept[0], ChatMessage::System { .. }));
    assert_eq!(content_of(&kept[1]), "early");
    assert_eq!(content_of(&kept[2]), "late");
}

#[test]
fn tool_definitions_charge_the_budget() {
    // 1799 tools cost 179_900 tokens, leaving 100: a 90-token message
    // fits, a further one does not.
    let text_90_tokens = "a".repeat(301); // ceil(301/3.5) = 86, +4 overhead = 90
    let messages = vec![user(&text_90_tokens), user(&text_90_tokens)];
    let kept = truncate_messages_to_token_limit(messages, 1799);
    assert_eq!(kept.len(), 1);
    assert_eq!(content_of(&kept[0]), &text_90_tokens);
}
