use opie::agent::{brace_span, braces_inverted, tool_call_payload, Agent, AgentStep, MAX_ITERATIONS};
use opie::session::{Role, Session};
use opie::tools::{ToolCall, ToolRegistry, ToolResult};

fn call(name: &str) -> ToolCall {
    ToolCall { name: name.to_string(), parameters: serde_json::from_str("{\"path\": \"x\"}").unwrap() }
}

#[test]
fn max_iterations_is_ten() {
    assert_eq!(MAX_ITERATIONS, 10);
}

#[test]
fn start_adds_system_prompt_to_new_conversation() {
    let agent = Agent::new();
    let mut s = Session::new();
    let step = agent.start(&mut s, "hello");
    assert_eq!(s.len(), 2);
    assert_eq!(s.messages[0].role, Role::System);
    assert_eq!(s.messages[0].content, ToolRegistry::new().system_prompt());
    assert_eq!(s.messages[1].content, "hello");
    match step {
        AgentStep::Generate { prompt, iteration } => {
            assert_eq!(iteration, 0);
            assert_eq!(prompt, s.to_prompt());
        }
        _ => panic!("expected a request"),
    }
}

#[test]
fn start_on_existing_conversation_only_adds_user_message() {
    let agent = Agent::new();
    let mut s = Session::new();
    s.add_user_message("earlier");
    agent.start(&mut s, "again");
    assert_eq!(s.len(), 2);
    assert_eq!(s.messages[1].role, Role::User);
    assert_eq!(s.messages[1].content, "again");
}

#[test]
fn answer_without_tool_call_ends_turn() {
    let agent = Agent::new();
    let mut s = Session::new();
    agent.start(&mut s, "hi");
    match agent.on_response(&mut s, 0, "Hello!".to_string(), None) {
        AgentStep::Done { response } => assert_eq!(response, "Hello!"),
        _ => panic!("expected done"),
    }
    assert_eq!(s.messages.last().unwrap().role, Role::Assistant);
    assert_eq!(s.messages.last().unwrap().content, "Hello!");
}

#[test]
fn known_tool_is_run() {
    let agent = Agent::new();
    let mut s = Session::new();
    agent.start(&mut s, "read x");
    let before = s.len();
    match agent.on_response(&mut s, 3, "TOOL_CALL: ...".to_string(), Some(call("search_files"))) {
        AgentStep::RunTool { tool, call, response, iteration } => {
            assert_eq!(tool, 3);
            assert_eq!(call.name, "search_files");
            assert_eq!(response, "TOOL_CALL: ...");
            assert_eq!(iteration, 3);
        }
        _ => panic!("expected a tool run"),
    }
    assert_eq!(s.len(), before);
}

#[test]
fn unknown_tool_is_reported_and_turn_goes_on() {
    let agent = Agent::new();
    let mut s = Session::new();
    agent.start(&mut s, "do it");
    match agent.on_response(&mut s, 0, "TOOL_CALL: {}".to_string(), Some(call("fly"))) {
        AgentStep::Generate { prompt, iteration } => {
            assert_eq!(iteration, 1);
            assert_eq!(prompt, s.to_prompt());
        }
        _ => panic!("expected another request"),
    }
    let n = s.len();
    assert_eq!(s.messages[n - 2].content, "TOOL_CALL: {}");
    assert_eq!(s.messages[n - 1].role, Role::System);
    assert_eq!(s.messages[n - 1].content, "Tool error: Tool 'fly' not found");
}

#[test]
fn tool_results_are_reported() {
    let agent = Agent::new();
    let mut s = Session::new();
    agent.start(&mut s, "x");
    agent.on_tool_result(&mut s, 0, "TOOL_CALL: a", &ToolResult::succeeded("42 lines".to_string()));
    assert_eq!(s.messages.last().unwrap().content, "Tool result: 42 lines");
    agent.on_tool_result(&mut s, 1, "TOOL_CALL: b", &ToolResult::failed("nope".to_string()));
    assert_eq!(s.messages.last().unwrap().content, "Tool error: nope");
    let no_error = ToolResult { success: false, output: String::new(), error: None };
    agent.on_tool_result(&mut s, 2, "TOOL_CALL: c", &no_error);
    assert_eq!(s.messages.last().unwrap().content, "Tool error: ");
}

#[test]
fn turn_is_exhausted_after_ten_requests() {
    let agent = Agent::new();
    let mut s = Session::new();
    agent.start(&mut s, "loop");
    let r = ToolResult::succeeded(String::new());
    match agent.on_tool_result(&mut s, 8, "TOOL_CALL: a", &r) {
        AgentStep::Generate { iteration, .. } => assert_eq!(iteration, 9),
        _ => panic!("expected the last request"),
    }
    assert!(matches!(agent.on_tool_result(&mut s, 9, "TOOL_CALL: a", &r), AgentStep::Exhausted));
    assert!(matches!(
        agent.on_response(&mut s, 9, "TOOL_CALL: x".to_string(), Some(call("fly"))),
        AgentStep::Exhausted
    ));
}

#[test]
fn payload_after_marker() {
    assert_eq!(
        tool_call_payload("  TOOL_CALL:  {\"name\": \"read_file\"}  \n").as_deref(),
        Some("{\"name\": \"read_file\"}")
    );
    assert_eq!(
        tool_call_payload("Let me look.\nTOOL_CALL: {\"a\": 1} done").as_deref(),
        Some("{\"a\": 1} done")
    );
    assert_eq!(tool_call_payload("no call here"), None);
    assert_eq!(tool_call_payload("TOOL_CALL:").as_deref(), Some(""));
}

#[test]
fn brace_span_from_first_open_to_last_close() {
    assert_eq!(brace_span("{\"a\": {\"b\": 1}} trailing").as_deref(), Some("{\"a\": {\"b\": 1}}"));
    assert_eq!(brace_span("no braces"), None);
    assert_eq!(brace_span("only { open"), None);
    assert_eq!(brace_span("}{").as_deref(), Some(""));
    assert!(!braces_inverted("}{"));
    assert!(braces_inverted("} x {"));
    assert!(!braces_inverted("{ }"));
    assert!(!braces_inverted("none"));
}

#[test]
fn agent_with_custom_tools() {
    let mut r = ToolRegistry::new();
    r.register(opie::tools::ToolInfo::new("extra", "an extra tool"));
    let agent = Agent::with_tools(r);
    assert_eq!(agent.tools().position("extra"), Some(5));
}
