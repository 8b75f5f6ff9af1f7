use opie::session::{Message, Role, Session, DEFAULT_MAX_CONTEXT};
use opie::storage::SessionStorage;

#[test]
fn new_session_is_empty() {
    let s = Session::new();
    assert!(s.messages.is_empty());
    assert!(s.is_empty());
    assert_eq!(s.len(), 0);
    assert_eq!(s.max_context, 6000);
    assert_eq!(DEFAULT_MAX_CONTEXT, 6000);
}

#[test]
fn empty_session_prompt_only_invites_the_assistant() {
    assert_eq!(Session::new().to_prompt(), "Assistant: ");
}

#[test]
fn prompt_renders_messages_in_order() {
    let mut s = Session::new();
    s.add_system_message("be brief");
    s.add_user_message("hi");
    s.add_assistant_message("hello");
    assert_eq!(
        s.to_prompt(),
        "System: be brief\n\nUser: hi\n\nAssistant: hello\n\nAssistant: "
    );
    assert_eq!(s.messages[0].role, Role::System);
    assert_eq!(s.messages[1].role, Role::User);
    assert_eq!(s.messages[2].role, Role::Assistant);
    assert_eq!(s.messages[2].content, "hello");
}

#[test]
fn prompt_history_is_stable_as_conversation_grows() {
    let mut s = Session::new();
    s.add_user_message("first");
    let before = s.to_prompt();
    s.add_assistant_message("second");
    let after = s.to_prompt();
    let history = before.strip_suffix("Assistant: ").unwrap();
    assert!(after.starts_with(history));
    assert_eq!(after, format!("{}Assistant: second\n\nAssistant: ", history));
}

#[test]
fn adding_within_budget_only_appends() {
    let mut s = Session::new();
    for i in 0..10 {
        s.add_user_message(&format!("message {}", i));
    }
    assert_eq!(s.len(), 10);
    assert_eq!(s.messages[0].content, "message 0");
}

#[test]
fn over_budget_drops_oldest_but_keeps_system_prompt_and_newest() {
    let mut s = Session::new();
    s.max_context = 10; // 10 tokens = 40 characters
    s.add_system_message("sys");
    s.add_user_message("aaaaaaaaaaaaaaaaaaaa"); // 20 chars
    s.add_assistant_message("bbbbbbbbbbbbbbbbbbbb"); // 20 chars: 43 chars, 10 tokens
    assert_eq!(s.len(), 3);
    s.add_user_message("cccccccccccccccccccc"); // 63 chars: over, drop oldest after system
    assert_eq!(s.len(), 3);
    assert_eq!(s.messages[0].content, "sys");
    assert_eq!(s.messages[1].content, "bbbbbbbbbbbbbbbbbbbb");
    assert_eq!(s.messages[2].content, "cccccccccccccccccccc");
}

#[test]
fn over_budget_keeps_at_least_newest_message() {
    let mut s = Session::new();
    s.max_context = 1;
    s.add_user_message("a long message that exceeds the tiny budget");
    s.add_user_message("another long message that exceeds the budget");
    assert_eq!(s.len(), 1);
    assert_eq!(s.messages[0].content, "another long message that exceeds the budget");
}

#[test]
fn over_budget_without_system_head_drops_from_start() {
    let mut s = Session::new();
    s.max_context = 2; // 11 characters or fewer
    s.add_user_message("12345");
    s.add_assistant_message("67890");
    assert_eq!(s.len(), 2);
    s.add_user_message("abcde");
    assert_eq!(s.len(), 2);
    assert_eq!(s.messages[0].content, "67890");
    assert_eq!(s.messages[1].content, "abcde");
}

#[test]
fn from_messages_and_copy_keep_messages() {
    let msgs = vec![
        Message::new(Role::User, "q"),
        Message::new(Role::Assistant, "a"),
    ];
    let s = Session::from_messages(msgs);
    let copy = s.messages_copy();
    assert_eq!(copy.len(), 2);
    assert_eq!(copy[0].content, "q");
    assert_eq!(copy[1].role, Role::Assistant);
    let d = s.messages[0].duplicate();
    assert_eq!(d.content, "q");
    assert_eq!(d.role, Role::User);
}

#[test]
fn snapshot_then_restore_gives_same_messages() {
    let storage = SessionStorage::new("/home/someone");
    let mut s = Session::new();
    s.add_user_message("hello");
    s.add_assistant_message("world");
    let saved = storage.snapshot(&s, "2024-05-01T12:30:00+02:00".to_string());
    assert_eq!(saved.version, 1);
    assert_eq!(saved.created_at, "2024-05-01T12:30:00+02:00");
    assert_eq!(saved.updated_at, "2024-05-01T12:30:00+02:00");
    let restored = saved.into_session();
    assert_eq!(restored.to_prompt(), s.to_prompt());
    assert_eq!(restored.len(), 2);
}

#[test]
fn prompt_of_loaded_conversation_over_budget_is_trimmed() {
    let messages = vec![
        Message::new(Role::System, "sys"),
        Message::new(Role::User, "aaaaaaaaaaaaaaaaaaaa"),
        Message::new(Role::Assistant, "bbbbbbbbbbbbbbbbbbbb"),
        Message::new(Role::User, "cccccccccccccccccccc"),
    ];
    let mut s = Session::from_messages(messages);
    s.max_context = 10; // 63 characters of text are 15 tokens, over the budget
    assert_eq!(
        s.to_prompt(),
        "System: sys\n\nAssistant: bbbbbbbbbbbbbbbbbbbb\n\nUser: cccccccccccccccccccc\n\nAssistant: "
    );
    // The conversation itself is left as it was.
    assert_eq!(s.len(), 4);
}

#[test]
fn prompt_keeps_newest_message_even_alone_over_budget() {
    let messages = vec![
        Message::new(Role::User, "old"),
        Message::new(Role::User, "a very long newest message, far over the budget"),
    ];
    let mut s = Session::from_messages(messages);
    s.max_context = 2;
    assert_eq!(
        s.to_prompt(),
        "User: a very long newest message, far over the budget\n\nAssistant: "
    );
}
