use opie::config::{default_api_mode, default_history_dir, default_server_url, history_dir_in, Config};
use opie::paths::{home_or_dot, join};

#[test]
fn defaults() {
    assert_eq!(default_server_url(), "http://localhost:8080");
    assert_eq!(default_api_mode(), "never");
    assert_eq!(history_dir_in(Some("/home/ann")), "/home/ann/.opie/history");
    assert_eq!(history_dir_in(None), "./.opie/history");
    assert!(default_history_dir().ends_with("/.opie/history"));
}

fn home_text() -> Option<String> {
    dirs::home_dir().map(|p| p.to_string_lossy().into_owned())
}

#[test]
fn paths_follow_the_home_directory() {
    let home = home_text();
    assert_eq!(default_history_dir(), history_dir_in(home.as_deref()));
    assert_eq!(Config::config_path(), Config::config_path_in(home.as_deref()));
    if home.is_some() {
        assert!(!Config::config_path().starts_with("./"));
    }
}

#[test]
fn default_config_fields() {
    let c = Config::default_config();
    assert_eq!(c.server_url, "http://localhost:8080");
    assert!(c.anthropic_api_key.is_none());
    assert_eq!(c.api_mode, "never");
    assert_eq!(c.history_dir, history_dir_in(home_text().as_deref()));
}

#[test]
fn config_path_under_home() {
    assert_eq!(Config::config_path_in(Some("/home/bo")), "/home/bo/.opie/config.toml");
    assert_eq!(Config::config_path_in(Some("/home/bo/")), "/home/bo/.opie/config.toml");
    assert_eq!(Config::config_path_in(None), "./.opie/config.toml");
}

#[test]
fn joining_paths_like_path_join() {
    for (base, seg) in [("/a", "b"), ("/a/", "b"), ("", "b"), ("a", "/abs"), (".", ".opie")] {
        let expected = std::path::Path::new(base).join(seg);
        assert_eq!(join(base, seg), expected.to_str().unwrap());
    }
    assert_eq!(home_or_dot(None), ".");
    assert_eq!(home_or_dot(Some("/h")), "/h");
}
