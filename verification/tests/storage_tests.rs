use opie::session::{Role, Session};
use opie::storage::SessionStorage;

#[test]
fn storage_lives_under_home() {
    let s = SessionStorage::new("/home/ann");
    assert_eq!(s.sessions_dir(), "/home/ann/.opie/sessions");
    let t = SessionStorage::new("/home/ann/");
    assert_eq!(t.sessions_dir(), "/home/ann/.opie/sessions");
    let e = SessionStorage::new("");
    assert_eq!(e.sessions_dir(), ".opie/sessions");
}

#[test]
fn sanitize_replaces_special_characters() {
    assert_eq!(SessionStorage::sanitize_filename("my project"), "my_project");
    assert_eq!(SessionStorage::sanitize_filename("a/b\\c.d"), "a_b_c_d");
    assert_eq!(SessionStorage::sanitize_filename("ok-name_1"), "ok-name_1");
    assert_eq!(SessionStorage::sanitize_filename("café"), "café");
    assert_eq!(SessionStorage::sanitize_filename(""), "");
}

#[test]
fn sanitize_is_idempotent() {
    for name in ["my project", "../etc/passwd", "x!y?z", "ünï cødé"] {
        let once = SessionStorage::sanitize_filename(name);
        assert_eq!(SessionStorage::sanitize_filename(&once), once);
        assert_eq!(once.chars().count(), name.chars().count());
    }
}

#[test]
fn session_path_uses_sanitized_name() {
    let s = SessionStorage::new("/home/ann");
    assert_eq!(s.session_path("my project"), "/home/ann/.opie/sessions/my_project.json");
    assert_eq!(s.session_path("my project"), s.session_path("my_project"));
    assert_eq!(s.session_path("../x"), "/home/ann/.opie/sessions/___x.json");
}

#[test]
fn missing_session_does_not_exist() {
    let s = SessionStorage::new("/nonexistent-home-for-opie-tests");
    assert!(!s.session_exists("nothing"));
}

#[test]
fn session_name_of_reads_json_stems() {
    assert_eq!(SessionStorage::session_name_of("work.json"), Some("work".to_string()));
    assert_eq!(SessionStorage::session_name_of("a.b.json"), Some("a.b".to_string()));
    assert_eq!(SessionStorage::session_name_of(".json"), None);
    assert_eq!(SessionStorage::session_name_of("notes.txt"), None);
    assert_eq!(SessionStorage::session_name_of("json"), None);
    assert_eq!(SessionStorage::session_name_of("x.JSON"), None);
    assert_eq!(SessionStorage::session_name_of("x."), None);
}

#[test]
fn session_names_are_filtered_and_sorted() {
    let files: Vec<String> = ["zeta.json", "readme.md", "alpha.json", "Beta.json", ".json", "alpha.json.bak", "émile.json", "b.json"]
        .iter()
        .map(|s| s.to_string())
        .collect();
    let names = SessionStorage::session_names(&files);
    let mut expected: Vec<String> = ["zeta", "alpha", "Beta", "émile", "b"].iter().map(|s| s.to_string()).collect();
    expected.sort();
    assert_eq!(names, expected);
    assert_eq!(names, vec!["Beta", "alpha", "b", "zeta", "émile"]);
}

#[test]
fn session_names_of_nothing() {
    assert!(SessionStorage::session_names(&Vec::new()).is_empty());
    let dup: Vec<String> = vec!["a.json".into(), "a.json".into()];
    assert_eq!(SessionStorage::session_names(&dup), vec!["a", "a"]);
}

#[test]
fn snapshot_then_restore_gives_back_the_conversation() {
    let mut session = Session::new();
    session.add_system_message("rules");
    session.add_user_message("hello");
    session.add_assistant_message("hi there");
    let storage = SessionStorage::new("/home/ann");
    let saved = storage.snapshot(&session, "1969-12-31T23:59:59-05:00".to_string());
    assert_eq!(saved.version, 1);
    assert_eq!(saved.created_at, "1969-12-31T23:59:59-05:00");
    assert_eq!(saved.created_at, saved.updated_at);
    let restored = saved.into_session();
    assert_eq!(restored.messages.len(), 3);
    let roles: Vec<Role> = restored.messages.iter().map(|m| m.role).collect();
    assert_eq!(roles, vec![Role::System, Role::User, Role::Assistant]);
    let texts: Vec<&str> = restored.messages.iter().map(|m| m.content.as_str()).collect();
    assert_eq!(texts, vec!["rules", "hello", "hi there"]);
    assert_eq!(restored.to_prompt(), session.to_prompt());
}
