use opie::inference::{LocalInference, MAX_TOKENS, MODEL};

#[test]
fn default_server_address() {
    let l = LocalInference::new(None);
    assert_eq!(l.base_url(), "http://localhost:8080");
    assert_eq!(l.completions_url(), "http://localhost:8080/v1/completions");
    assert_eq!(l.health_url(), "http://localhost:8080/health");
    assert_eq!(l.name(), "local");
}

#[test]
fn given_server_address() {
    let l = LocalInference::new(Some("http://127.0.0.1:8080".to_string()));
    assert_eq!(l.base_url(), "http://127.0.0.1:8080");
    assert_eq!(l.completions_url(), "http://127.0.0.1:8080/v1/completions");
    let _client = l.client();
}

#[test]
fn completion_text_is_first_choice_trimmed() {
    let choices = vec!["  Hello there.\n".to_string(), "other".to_string()];
    assert_eq!(LocalInference::completion_text(&choices), "Hello there.");
}

#[test]
fn request_settings() {
    assert_eq!(MODEL, "qwen2.5-3b");
    assert_eq!(MAX_TOKENS, 512);
}
