use opie::tools::patch::PatchTool;
use opie::tools::read_file::{self, ReadFileTool};
use opie::tools::search_files::{self, SearchFilesTool};
use opie::tools::terminal::{self, CommandOutcome, TerminalTool};
use opie::tools::write_file::WriteFileTool;
use opie::tools::{resolve_path, ParamDefault, ParamKind, ParamSpec, ToolInfo, ToolRegistry, ToolResult, SYSTEM_PROMPT_HEAD, SYSTEM_PROMPT_TAIL};

fn names(r: &ToolRegistry) -> Vec<String> {
    r.all().iter().map(|t| t.name.clone()).collect()
}

#[test]
fn registry_holds_builtin_tools_in_order() {
    let r = ToolRegistry::new();
    assert_eq!(names(&r), vec!["read_file", "write_file", "terminal", "search_files", "patch"]);
    assert_eq!(r.position("terminal"), Some(2));
    assert_eq!(r.position("nope"), None);
    assert_eq!(r.get("patch").unwrap().description, PatchTool.description());
    assert!(r.get("missing").is_none());
}

#[test]
fn registered_tool_is_found_first_one_wins() {
    let mut r = ToolRegistry::new();
    r.register(ToolInfo::new("custom", "does things"));
    assert_eq!(r.position("custom"), Some(5));
    r.register(ToolInfo::new("custom", "shadowed"));
    assert_eq!(r.get("custom").unwrap().description, "does things");
    r.register(ToolInfo::new("read_file", "later"));
    assert_eq!(r.position("read_file"), Some(0));
}

#[test]
fn system_prompt_lists_every_tool() {
    let r = ToolRegistry::new();
    let p = r.system_prompt();
    assert!(p.starts_with("You are Opie, a local AI coding assistant. You help with programming tasks by reading files, searching code, making edits, and running commands."));
    assert!(p.contains("AVAILABLE TOOLS:\n\n- read_file: Read a text file with line numbers and pagination\n- write_file: "));
    assert!(p.contains("- patch: Make targeted edits to a file by replacing old_string with new_string. More precise than rewriting the whole file.\n\nGUIDANCE:"));
    let mut expected = String::from(SYSTEM_PROMPT_HEAD);
    for t in r.all() {
        expected.push_str(&format!("- {}: {}\n", t.name, t.description));
    }
    expected.push_str(SYSTEM_PROMPT_TAIL);
    assert_eq!(p, expected);
    assert!(p.ends_with("Only output TOOL_CALL when you need to perform an action."));
}

#[test]
fn tool_names_and_descriptions() {
    assert_eq!(ReadFileTool.name(), "read_file");
    assert_eq!(WriteFileTool.name(), "write_file");
    assert_eq!(TerminalTool.name(), "terminal");
    assert_eq!(SearchFilesTool.name(), "search_files");
    assert_eq!(PatchTool.name(), "patch");
    assert_eq!(TerminalTool.description(), "Execute a shell command and return the output");
    assert_eq!(WriteFileTool.info().description, WriteFileTool.description());
}

#[test]
fn parameter_defaults() {
    assert_eq!(read_file::default_offset(), 1);
    assert_eq!(read_file::default_limit(), 500);
    assert_eq!(search_files::default_path(), ".");
    assert_eq!(search_files::default_limit(), 20);
    assert_eq!(terminal::default_timeout(), 30);
}

#[test]
fn results() {
    let ok = ToolResult::succeeded("out".to_string());
    assert!(ok.success && ok.output == "out" && ok.error.is_none());
    let bad = ToolResult::failed("boom".to_string());
    assert!(!bad.success && bad.output.is_empty() && bad.error.as_deref() == Some("boom"));
    let nf = ToolResult::file_not_found("src/x.rs");
    assert_eq!(nf.error.as_deref(), Some("File not found: src/x.rs"));
}

#[test]
fn paths_without_home_tilde_are_unchanged() {
    assert_eq!(resolve_path("src/main.rs"), "src/main.rs");
    assert_eq!(resolve_path("~other/x"), "~other/x");
    assert_eq!(resolve_path("a/~/b"), "a/~/b");
    let expanded = resolve_path("~/notes.txt");
    assert!(expanded.ends_with("/notes.txt"));
    if let Some(home) = dirs::home_dir() {
        if let Some(home) = home.to_str() {
            assert_eq!(expanded, format!("{}/notes.txt", home));
            assert_eq!(resolve_path("~"), home);
        }
    }
}

#[test]
fn read_file_numbers_a_window_of_lines() {
    let t = ReadFileTool;
    let content = "alpha\nbeta\r\ngamma\ndelta\n";
    let r = t.render(content, 2, 2);
    assert!(r.success);
    assert_eq!(r.output, "     2|beta\n     3|gamma\n\nTotal lines: 4");
    let all = t.render(content, 1, 500);
    assert_eq!(all.output, "     1|alpha\n     2|beta\n     3|gamma\n     4|delta\n\nTotal lines: 4");
    let zero = t.render(content, 0, 1);
    assert_eq!(zero.output, "     1|alpha\n\nTotal lines: 4");
    let end = t.render(content, 5, 10);
    assert_eq!(end.output, "\nTotal lines: 4");
    let empty = t.render("", 1, 500);
    assert_eq!(empty.output, "\nTotal lines: 0");
}

#[test]
fn read_file_window_checks() {
    let t = ReadFileTool;
    assert!(t.window_fits("a\nb\n", 3, 10));
    assert!(!t.window_fits("a\nb\n", 4, 10));
    assert!(t.window_fits("a\nb\n", 1, usize::MAX));
    assert!(!t.window_fits("a\nb\n", 2, usize::MAX));
    assert!(t.window_fits("", 0, usize::MAX));
}

#[test]
fn write_file_report() {
    let r = WriteFileTool.written("out/test.txt");
    assert!(r.success);
    assert_eq!(r.output, "File written: out/test.txt");
}

#[test]
fn patch_string_not_found() {
    let o = PatchTool.apply("hello", "bye", "x", false, "f.txt");
    assert!(!o.result.success);
    assert_eq!(o.result.error.as_deref(), Some("String not found in file"));
    assert!(o.new_content.is_none());
}

#[test]
fn patch_ambiguous_without_replace_all() {
    let o = PatchTool.apply("a a a", "a", "b", false, "f.txt");
    assert_eq!(
        o.result.error.as_deref(),
        Some("String appears 3 times. Use replace_all=true or make the string more specific.")
    );
    assert!(o.new_content.is_none());
}

#[test]
fn patch_single_occurrence() {
    let o = PatchTool.apply("debug: false\nport: 1", "debug: false", "debug: true", false, "config.yaml");
    assert!(o.result.success);
    assert_eq!(o.result.output, "Replaced 1 occurrence in config.yaml");
    assert_eq!(o.new_content.as_deref(), Some("debug: true\nport: 1"));
}

#[test]
fn patch_replace_all() {
    let o = PatchTool.apply("a a a", "a", "bb", true, "f.txt");
    assert_eq!(o.result.output, "Replaced 3 occurrence(s) in f.txt");
    assert_eq!(o.new_content.as_deref(), Some("bb bb bb"));
    let once = PatchTool.apply("xyz", "y", "", true, "g");
    assert_eq!(once.result.output, "Replaced 1 occurrence(s) in g");
    assert_eq!(once.new_content.as_deref(), Some("xz"));
}

#[test]
fn patch_empty_pattern_matches_every_boundary() {
    let o = PatchTool.apply("ab", "", "-", false, "f");
    assert_eq!(
        o.result.error.as_deref(),
        Some("String appears 3 times. Use replace_all=true or make the string more specific.")
    );
    let all = PatchTool.apply("ab", "", "-", true, "f");
    assert_eq!(all.new_content.as_deref(), Some("-a-b-"));
    let single = PatchTool.apply("", "", "x", false, "f");
    assert_eq!(single.new_content.as_deref(), Some("x"));
}

#[test]
fn grep_arguments() {
    let t = SearchFilesTool;
    assert_eq!(t.grep_args("TODO", ".", None), vec!["-rn", "-I", "--color=never", "TODO", "."]);
    assert_eq!(
        t.grep_args("fn main", "src", Some("*.rs")),
        vec!["-rn", "-I", "--color=never", "--include", "*.rs", "fn main", "src"]
    );
}

#[test]
fn search_report() {
    let t = SearchFilesTool;
    assert_eq!(t.render(false, "", 20).output, "No matches found.");
    assert_eq!(t.render(true, "", 20).output, "No matches found.");
    assert_eq!(t.render(true, "a.rs:1:x\n", 0).output, "No matches found.");
    let r = t.render(true, "a.rs:1:TODO one\nb.rs:7:TODO two\nc.rs:9:TODO three\n", 2);
    assert!(r.success);
    assert_eq!(r.output, "Found 2 matches:\n\na.rs:1:TODO one\nb.rs:7:TODO two\n");
    let failed_with_output = t.render(false, "grep: warning\n", 20);
    assert_eq!(failed_with_output.output, "Found 1 matches:\n\ngrep: warning\n");
}

#[test]
fn terminal_reports() {
    let t = TerminalTool;
    let ok = t.render(CommandOutcome::Finished {
        success: true,
        code: Some(0),
        stdout: "out\n".to_string(),
        stderr: String::new(),
    });
    assert!(ok.success && ok.output == "out" && ok.error.is_none());
    let both = t.render(CommandOutcome::Finished {
        success: false,
        code: Some(2),
        stdout: "partial\n".to_string(),
        stderr: "bad\n".to_string(),
    });
    assert!(!both.success);
    assert_eq!(both.output, "partial\n\nSTDERR:\nbad");
    assert_eq!(both.error.as_deref(), Some("Command exited with code: 2"));
    let err_only = t.render(CommandOutcome::Finished {
        success: false,
        code: None,
        stdout: String::new(),
        stderr: " killed ".to_string(),
    });
    assert_eq!(err_only.output, "killed");
    assert_eq!(err_only.error.as_deref(), Some("Command exited with code: -1"));
    let neg = t.render(CommandOutcome::Finished { success: false, code: Some(-3), stdout: String::new(), stderr: String::new() });
    assert_eq!(neg.error.as_deref(), Some("Command exited with code: -3"));
    assert_eq!(
        t.render(CommandOutcome::SpawnFailed { detail: "no sh".to_string() }).error.as_deref(),
        Some("Failed to execute command: no sh")
    );
    assert_eq!(
        t.render(CommandOutcome::Panicked { detail: "boom".to_string() }).error.as_deref(),
        Some("Task panicked: boom")
    );
    let to = t.render(CommandOutcome::TimedOut);
    assert!(!to.success && to.output.is_empty());
    assert_eq!(to.error.as_deref(), Some("Command timed out"));
}

fn summary(ps: &[ParamSpec]) -> Vec<(String, ParamKind, bool, String)> {
    ps.iter()
        .map(|p| {
            let d = match p.default {
                ParamDefault::Absent => "-".to_string(),
                ParamDefault::Integer(n) => n.to_string(),
                ParamDefault::Boolean(b) => b.to_string(),
                ParamDefault::Text(t) => format!("{:?}", t),
            };
            (p.name.to_string(), p.kind, p.required, d)
        })
        .collect()
}

#[test]
fn parameter_specs_of_every_tool() {
    let s = |n: &str, k: ParamKind, r: bool, d: &str| (n.to_string(), k, r, d.to_string());
    assert_eq!(
        summary(&ReadFileTool.parameter_specs()),
        vec![
            s("path", ParamKind::Text, true, "-"),
            s("offset", ParamKind::Integer, false, "1"),
            s("limit", ParamKind::Integer, false, "500"),
        ]
    );
    assert_eq!(
        summary(&WriteFileTool.parameter_specs()),
        vec![s("path", ParamKind::Text, true, "-"), s("content", ParamKind::Text, true, "-")]
    );
    assert_eq!(
        summary(&TerminalTool.parameter_specs()),
        vec![s("command", ParamKind::Text, true, "-"), s("timeout", ParamKind::Integer, false, "30")]
    );
    assert_eq!(
        summary(&SearchFilesTool.parameter_specs()),
        vec![
            s("pattern", ParamKind::Text, true, "-"),
            s("path", ParamKind::Text, false, "\".\""),
            s("file_glob", ParamKind::Text, false, "-"),
            s("limit", ParamKind::Integer, false, "20"),
        ]
    );
    assert_eq!(
        summary(&PatchTool.parameter_specs()),
        vec![
            s("path", ParamKind::Text, true, "-"),
            s("old_string", ParamKind::Text, true, "-"),
            s("new_string", ParamKind::Text, true, "-"),
            s("replace_all", ParamKind::Boolean, false, "false"),
        ]
    );
    assert_eq!(
        ReadFileTool.parameter_specs()[1].description,
        "Line number to start from (1-indexed, default: 1)"
    );
    assert_eq!(
        SearchFilesTool.parameter_specs()[2].description,
        "File pattern to filter (e.g., '*.rs', '*.py')"
    );
}
