use memeshare::domain::{AppState, MessageContent, MessageContentType, SendMessageRequest};

fn text_content(text: &str) -> MessageContent {
    MessageContent {
        content_type: MessageContentType::Text,
        text: Some(text.to_string()),
        meme_id: None,
        media_url: None,
    }
}

fn send(state: &mut AppState, from: &str, to: &str, text: &str, timestamp: &str) -> i32 {
    let m = state.send_message(
        &SendMessageRequest {
            sender_id: from.to_string(),
            receiver_id: to.to_string(),
            content: text_content(text),
        },
        timestamp,
    );
    m.id
}

#[test]
fn send_message_stores_an_unread_message() {
    let mut state = AppState::new();
    let id = send(&mut state, "A", "B", "hello", "2024-01-01T10:00:00+00:00");
    assert_eq!(id, 1);
    assert_eq!(state.messages.len(), 1);
    let m = &state.messages[0];
    assert_eq!(m.sender_id, "A");
    assert_eq!(m.receiver_id, "B");
    assert!(!m.is_read);
    assert_eq!(m.content.content_type, MessageContentType::Text);
    assert_eq!(m.content.text.as_deref(), Some("hello"));
}

#[test]
fn get_messages_picks_both_directions_only() {
    let mut state = AppState::new();
    send(&mut state, "A", "B", "one", "t1");
    send(&mut state, "B", "A", "two", "t2");
    send(&mut state, "A", "C", "three", "t3");
    let convo = state.get_messages("A", "B");
    assert_eq!(convo.len(), 2);
    assert_eq!(convo[0].content.text.as_deref(), Some("one"));
    assert_eq!(convo[1].content.text.as_deref(), Some("two"));
    assert!(state.get_messages("B", "C").is_empty());
}

#[test]
fn one_conversation_per_partner_with_unread_tally() {
    let mut state = AppState::new();
    // two messages, first A to B, then B to A a bit later
    send(&mut state, "A", "B", "ping", "2024-01-01T10:00:00+00:00");
    let reply = send(&mut state, "B", "A", "pong", "2024-01-01T11:00:00+00:00");
    let convs = state.get_conversations("A");
    assert_eq!(convs.len(), 1);
    let c = &convs[0];
    assert_eq!(c.other_user_id, "B");
    assert_eq!(c.id, "A_B");
    // only the message addressed to A counts as unread for A
    assert_eq!(c.unread_count, 1);
    let last = c.last_message.as_ref().unwrap();
    assert_eq!(last.id, reply);
    assert_eq!(c.updated_at, "2024-01-01T11:00:00+00:00");
    // seen from B, the unread message is the one A sent
    let convs_b = state.get_conversations("B");
    assert_eq!(convs_b.len(), 1);
    assert_eq!(convs_b[0].other_user_id, "A");
    assert_eq!(convs_b[0].unread_count, 1);
}

#[test]
fn conversations_are_sorted_by_recency() {
    let mut state = AppState::new();
    send(&mut state, "A", "B", "early", "2024-01-01T08:00:00+00:00");
    send(&mut state, "C", "A", "late", "2024-01-02T08:00:00+00:00");
    send(&mut state, "A", "D", "middle", "2024-01-01T20:00:00+00:00");
    let convs = state.get_conversations("A");
    assert_eq!(convs.len(), 3);
    assert_eq!(convs[0].other_user_id, "C");
    assert_eq!(convs[1].other_user_id, "D");
    assert_eq!(convs[2].other_user_id, "B");
    // somebody with no traffic has no conversations
    assert!(state.get_conversations("Z").is_empty());
}

#[test]
fn mark_read_flips_only_one_direction() {
    let mut state = AppState::new();
    // three unread from C to D, one from D to C
    send(&mut state, "C", "D", "one", "t1");
    send(&mut state, "C", "D", "two", "t2");
    send(&mut state, "C", "D", "three", "t3");
    send(&mut state, "D", "C", "back", "t4");
    let marked = state.mark_messages_read("D", "C");
    assert_eq!(marked, 3);
    assert!(state.messages[0].is_read);
    assert!(state.messages[1].is_read);
    assert!(state.messages[2].is_read);
    // the D-to-C message stays unread
    assert!(!state.messages[3].is_read);
    // a second pass finds nothing left to flip
    assert_eq!(state.mark_messages_read("D", "C"), 0);
    // and D's conversation with C now reports no unread messages
    let convs = state.get_conversations("D");
    assert_eq!(convs.len(), 1);
    assert_eq!(convs[0].unread_count, 0);
}
