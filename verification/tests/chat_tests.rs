use opie::chat::{classify_input, confirms, session_listing, ChatInput};

#[test]
fn blank_lines_are_skipped() {
    assert!(matches!(classify_input("\n"), ChatInput::Skip));
    assert!(matches!(classify_input("   "), ChatInput::Skip));
}

#[test]
fn quit_and_exit() {
    assert!(matches!(classify_input("quit\n"), ChatInput::Quit));
    assert!(matches!(classify_input("  exit "), ChatInput::Quit));
    assert!(matches!(classify_input("Quit"), ChatInput::Message { .. }));
}

#[test]
fn save_command() {
    match classify_input("/save   my work \n") {
        ChatInput::Save { name } => assert_eq!(name, "my work"),
        _ => panic!("expected save"),
    }
    assert!(matches!(classify_input("/save \t "), ChatInput::Message { .. }));
    assert!(matches!(classify_input("/save x"), ChatInput::Save { .. }));
}

#[test]
fn save_without_name_is_a_message_once_trimmed() {
    // The line is trimmed before the prefix "/save " is looked for.
    match classify_input("/save   ") {
        ChatInput::Message { text } => assert_eq!(text, "/save"),
        _ => panic!("expected a message"),
    }
}

#[test]
fn ordinary_messages_are_trimmed() {
    match classify_input("  What is in src?  \n") {
        ChatInput::Message { text } => assert_eq!(text, "What is in src?"),
        _ => panic!("expected a message"),
    }
}

#[test]
fn confirmation_answers() {
    assert!(confirms("y\n"));
    assert!(confirms(" Y "));
    assert!(!confirms("yes"));
    assert!(!confirms("n"));
    assert!(!confirms(""));
}

#[test]
fn listing_of_sessions() {
    assert_eq!(session_listing(&Vec::new()), "No saved sessions found.\n");
    let names = vec!["alpha".to_string(), "beta".to_string()];
    assert_eq!(
        session_listing(&names),
        "Saved sessions:\n  - alpha\n  - beta\n\nLoad with: opie chat --load <name>\n"
    );
}
