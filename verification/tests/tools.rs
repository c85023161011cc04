use darb::json::JsonValue;
use darb::tools::search::rg_event_in;
use darb::config::{PermissionDecision, PermissionsConfig};
use darb::errors::DarbError;
use darb::permissions::{PermissionManager, ToolRequest};
use darb::tools::editor::apply_edit;
use darb::tools::filesystem::{resolve_within, DirEntry};
use darb::tools::registry::{
    edit_result, error_result, list_result, search_result, shell_result, tool_kind,
    unknown_tool_result, Dispatch, ToolKind, ToolRegistry,
};
use darb::tools::search::{
    check_query, is_skipped_dir, parse_rg_json, scan_file, SearchMatch, SearchOutput,
};
use darb::tools::shell::{cap_stream, check_command, finished_output, ShellOutput, MAX_OUTPUT_CHARS};

#[test]
fn relative_targets_resolve_under_the_root() {
    assert_eq!(resolve_within("/proj", "src/main.rs").unwrap(), "/proj/src/main.rs");
    assert_eq!(resolve_within("/proj", "./a/../b.txt").unwrap(), "/proj/b.txt");
    assert_eq!(resolve_within("/proj/", "a//b").unwrap(), "/proj/a/b");
    assert_eq!(resolve_within("/proj", "").unwrap(), "/proj");
}

#[test]
fn absolute_and_escaping_targets_are_refused() {
    let err = resolve_within("/proj", "/etc/passwd").unwrap_err();
    assert_eq!(
        err,
        DarbError::Tool("refused '/etc/passwd': path must be relative to the project root".to_string())
    );
    let err = resolve_within("/proj", "a/../../x").unwrap_err();
    assert_eq!(
        err,
        DarbError::Tool("refused 'a/../../x': path escapes the project root".to_string())
    );
}

#[test]
fn unique_match_is_replaced() {
    let out = apply_edit("fn main() {\n    todo!()\n}\n", "todo!()", "println!(\"hi\")", "code.rs").unwrap();
    assert_eq!(out, "fn main() {\n    println!(\"hi\")\n}\n");
    let whole = apply_edit("ab\ncd\n", "ab\ncd\n", "Xab\ncd\n", "f").unwrap();
    assert_eq!(whole, "Xab\ncd\n");
}

#[test]
fn edits_need_exactly_one_match() {
    let err = apply_edit("x x", "x", "y", "f.txt").unwrap_err();
    assert_eq!(
        err.message(),
        "tool error: could not edit 'f.txt': 'old' text matches 2 times; include more context to disambiguate"
    );
    let err = apply_edit("abc", "zzz", "y", "f.txt").unwrap_err();
    assert!(err.message().contains("'old' text not found"));
    let err = apply_edit("abc", "", "y", "f.txt").unwrap_err();
    assert!(err.message().contains("non-empty 'old' text"));
    assert_eq!(apply_edit("aaa", "aa", "b", "f").unwrap(), "ba");
}

#[test]
fn blank_commands_are_refused() {
    assert!(check_command("  \n").is_err());
    assert!(check_command("ls").is_ok());
}

#[test]
fn long_streams_are_capped_and_marked() {
    let (text, cut) = cap_stream(b"hello");
    assert_eq!((text.as_str(), cut), ("hello", false));
    let big = vec![b'a'; MAX_OUTPUT_CHARS + 10];
    let (text, cut) = cap_stream(&big);
    assert!(cut);
    assert!(text.ends_with("\n…[truncated]"));
    let out = finished_output(None, b"o", &big);
    assert_eq!(out.exit_code, -1);
    assert!(out.truncated);
    assert!(!out.succeeded());
}

#[test]
fn shell_results_carry_status_and_trimmed_errors() {
    let failed = shell_result(&ShellOutput {
        exit_code: 2,
        stdout: "partial".to_string(),
        stderr: "  bad thing \n".to_string(),
        truncated: false,
    });
    assert!(!failed.success);
    assert_eq!(failed.error.as_deref(), Some("exit 2: bad thing"));
    assert_eq!(failed.metadata.get("exit_code").map(String::as_str), Some("2"));
    assert_eq!(failed.metadata.get("truncated").map(String::as_str), Some("false"));
    let ok = shell_result(&ShellOutput {
        exit_code: 0,
        stdout: "hi\n".to_string(),
        stderr: String::new(),
        truncated: true,
    });
    assert!(ok.success);
    assert_eq!(ok.output, "hi\n");
    assert!(ok.error.is_none());
    let negative = shell_result(&ShellOutput {
        exit_code: -1,
        stdout: String::new(),
        stderr: String::new(),
        truncated: false,
    });
    assert_eq!(negative.metadata.get("exit_code").map(String::as_str), Some("-1"));
}

#[test]
fn listing_and_search_results_are_formatted() {
    let listed = list_result(&[
        DirEntry { name: "src".to_string(), is_dir: true },
        DirEntry { name: "a.txt".to_string(), is_dir: false },
    ]);
    assert_eq!(listed.output, "src/\na.txt");
    assert_eq!(listed.metadata.get("entry_count").map(String::as_str), Some("2"));
    let found = search_result(&SearchOutput {
        matches: vec![SearchMatch { file: "a.txt".to_string(), line: 3, text: "hit".to_string() }],
        truncated: true,
    });
    assert_eq!(found.output, "a.txt:3:hit");
    assert_eq!(found.metadata.get("match_count").map(String::as_str), Some("1"));
    assert_eq!(found.metadata.get("truncated").map(String::as_str), Some("true"));
    let edited = edit_result("a.txt", 12);
    assert_eq!(edited.output, "edited 'a.txt' (12 bytes)");
    assert_eq!(edited.metadata.get("bytes_written").map(String::as_str), Some("12"));
    let unknown = unknown_tool_result("fly");
    assert_eq!(unknown.error.as_deref(), Some("tool 'fly' is not implemented yet"));
    let failed = error_result(&DarbError::Tool("boom".to_string()));
    assert_eq!(failed.error.as_deref(), Some("tool error: boom"));
}

#[test]
fn tool_names_select_tools() {
    assert_eq!(tool_kind("read_file"), ToolKind::ReadFile);
    assert_eq!(tool_kind("run_command"), ToolKind::Shell);
    assert_eq!(tool_kind("run_shell"), ToolKind::Shell);
    assert_eq!(tool_kind("delete_file"), ToolKind::Unknown);
}

#[test]
fn dispatch_gates_every_request() {
    let mut registry = ToolRegistry::new(PermissionManager::new(PermissionsConfig::default()), "/proj");
    assert_eq!(registry.root(), "/proj");
    match registry.dispatch(&ToolRequest::new("read_file", "a.txt")) {
        Dispatch::Run(kind) => assert_eq!(kind, ToolKind::ReadFile),
        Dispatch::Refused(_) => panic!("reads are allowed by default"),
    }
    match registry.dispatch(&ToolRequest::new("edit_file", "a.txt")) {
        Dispatch::Refused(result) => {
            assert_eq!(result.metadata.get("permission").map(String::as_str), Some("ask"));
        }
        Dispatch::Run(_) => panic!("edits ask by default"),
    }
    registry.grant_once("edit_file", "a.txt");
    assert!(matches!(
        registry.dispatch(&ToolRequest::new("edit_file", "a.txt")),
        Dispatch::Run(ToolKind::EditFile)
    ));
    match registry.dispatch(&ToolRequest::new("teleport", "x")) {
        Dispatch::Refused(result) => {
            assert_eq!(result.metadata.get("permission").map(String::as_str), Some("denied"));
        }
        Dispatch::Run(_) => panic!("unknown tools fail closed"),
    }
    let deny_edits = PermissionsConfig { edit: PermissionDecision::Deny, ..PermissionsConfig::default() };
    let mut strict = ToolRegistry::new(PermissionManager::new(deny_edits), "/proj");
    assert!(matches!(
        strict.dispatch(&ToolRequest::new("edit_file", "a.txt")),
        Dispatch::Refused(_)
    ));
}

#[test]
fn edit_arguments_are_required() {
    let err = ToolRegistry::edit_args(&ToolRequest::new("edit_file", "a.txt")).unwrap_err();
    assert_eq!(err, DarbError::Tool("edit_file needs 'old' and 'new' arguments".to_string()));
    let request = ToolRequest::new("edit_file", "a.txt").with_arg("old", "x").with_arg("new", "y");
    assert_eq!(
        ToolRegistry::edit_args(&request).unwrap(),
        ("x".to_string(), "y".to_string())
    );
}

#[test]
fn file_scan_numbers_matching_lines() {
    assert!(check_query("").is_err());
    assert!(is_skipped_dir("node_modules"));
    assert!(!is_skipped_dir("src"));
    let found = scan_file("a.txt", "hello darb  \nsecond\ndarb again\n", "darb", 100);
    assert_eq!(found.len(), 2);
    assert_eq!((found[0].line, found[0].text.as_str()), (1, "hello darb"));
    assert_eq!(found[1].line, 3);
    assert_eq!(scan_file("a.txt", "darb\ndarb\n", "darb", 1).len(), 1);
}

#[test]
fn ripgrep_report_is_read() {
    let report = concat_lines(&[
        r#"{"type":"begin","data":{"path":{"text":"/proj/a.txt"}}}"#,
        r#"{"type":"match","data":{"path":{"text":"/proj/src/a.txt"},"lines":{"text":"hello darb\n"},"line_number":7}}"#,
        "not json",
    ]);
    let out = parse_rg_json("/proj", report.as_bytes());
    assert_eq!(out.matches.len(), 1);
    assert_eq!(out.matches[0].file, "src/a.txt");
    assert_eq!(out.matches[0].line, 7);
    assert_eq!(out.matches[0].text, "hello darb");
    assert!(!out.truncated);
}

fn concat_lines(lines: &[&str]) -> String {
    lines.join("\n")
}

#[test]
fn refused_requests_are_answered_in_full() {
    let mut registry = ToolRegistry::new(PermissionManager::new(PermissionsConfig::default()), "/proj");
    match registry.dispatch(&ToolRequest::new("edit_file", "a.txt")) {
        Dispatch::Refused(result) => {
            assert!(!result.success);
            assert_eq!(result.output, "");
            assert_eq!(result.error.as_deref(), Some("permission required: 'edit_file' on 'a.txt'"));
            assert_eq!(result.metadata.get("ask_reason").map(String::as_str), Some("PolicyRequiresConfirmation"));
            assert_eq!(result.metadata.get("tool").map(String::as_str), Some("edit_file"));
            assert_eq!(result.metadata.get("target").map(String::as_str), Some("a.txt"));
            assert_eq!(result.duration_ms, 0);
        }
        Dispatch::Run(_) => panic!("edits ask by default"),
    }
    match registry.dispatch(&ToolRequest::new("shell", "sudo ls")) {
        Dispatch::Refused(result) => {
            assert!(!result.success);
            assert_eq!(result.error.as_deref(), Some("denied: 'shell' on 'sudo ls' (SudoBlocked)"));
            assert_eq!(result.metadata.get("permission").map(String::as_str), Some("denied"));
            assert_eq!(result.metadata.get("deny_reason").map(String::as_str), Some("SudoBlocked"));
            assert_eq!(result.metadata.get("target").map(String::as_str), Some("sudo ls"));
            assert_eq!(result.duration_ms, 0);
        }
        Dispatch::Run(_) => panic!("sudo is blocked"),
    }
}

fn match_line(n: usize) -> String {
    format!(
        r#"{{"type":"match","data":{{"path":{{"text":"/proj/a.txt"}},"lines":{{"text":"hit\n"}},"line_number":{n}}}}}"#
    )
}

#[test]
fn ripgrep_report_is_truncated_only_past_the_cap() {
    let exact: Vec<String> = (1..=100).map(match_line).collect();
    let out = parse_rg_json("/proj", exact.join("\n").as_bytes());
    assert_eq!(out.matches.len(), 100);
    assert!(!out.truncated);
    let over: Vec<String> = (1..=101).map(match_line).collect();
    let out = parse_rg_json("/proj", over.join("\n").as_bytes());
    assert_eq!(out.matches.len(), 100);
    assert_eq!(out.matches[99].line, 100);
    assert!(out.truncated);
}

#[test]
fn a_decoded_ripgrep_event_is_read() {
    let obj = |fields: Vec<(&str, JsonValue)>| {
        JsonValue::Object(fields.into_iter().map(|(k, v)| (k.to_string(), v)).collect())
    };
    let event = obj(vec![
        ("type", JsonValue::Str("match".to_string())),
        (
            "data",
            obj(vec![
                ("path", obj(vec![("text", JsonValue::Str("/proj/a.rs".to_string()))])),
                ("lines", obj(vec![("text", JsonValue::Str("fn main()\n".to_string()))])),
                ("line_number", JsonValue::Number("12".to_string())),
            ]),
        ),
    ]);
    assert_eq!(rg_event_in(&event), Some(("/proj/a.rs".to_string(), 12, "fn main()\n".to_string())));
    let begin = obj(vec![("type", JsonValue::Str("begin".to_string()))]);
    assert_eq!(rg_event_in(&begin), None);
}

#[test]
fn a_table_keeps_one_entry_per_key() {
    let mut m = darb::textmap::TextMap::new();
    m.insert("a".to_string(), "1".to_string());
    m.insert("b".to_string(), "2".to_string());
    m.insert("a".to_string(), "3".to_string());
    assert_eq!(m.len(), 2);
    assert_eq!(m.get("a").map(String::as_str), Some("3"));
}

fn json_obj(fields: Vec<(&str, JsonValue)>) -> JsonValue {
    JsonValue::Object(fields.into_iter().map(|(k, v)| (k.to_string(), v)).collect())
}

#[test]
fn decoded_provider_documents_are_read() {
    let message = json_obj(vec![("content", JsonValue::Str("hi".to_string()))]);
    let doc = json_obj(vec![
        ("choices", JsonValue::Array(vec![json_obj(vec![("message", message)])])),
        (
            "usage",
            json_obj(vec![
                ("prompt_tokens", JsonValue::Number("3".to_string())),
                ("completion_tokens", JsonValue::Number("4".to_string())),
            ]),
        ),
    ]);
    let resp = darb::providers::completion_of(&doc).expect("an answer");
    assert_eq!(resp.text, "hi");
    assert_eq!((resp.usage.prompt_tokens, resp.usage.completion_tokens), (3, 4));
    let empty = json_obj(vec![("choices", JsonValue::Array(vec![]))]);
    assert!(darb::providers::completion_of(&empty).is_err());

    let delta = json_obj(vec![(
        "choices",
        JsonValue::Array(vec![json_obj(vec![("delta", json_obj(vec![("content", JsonValue::Str("a".to_string()))]))])]),
    )]);
    assert_eq!(darb::providers::stream_event_of(&delta), Some(darb::providers::StreamEvent::Delta("a".to_string())));
    let idle = json_obj(vec![("choices", JsonValue::Array(vec![json_obj(vec![])]))]);
    assert_eq!(darb::providers::stream_event_of(&idle), None);
}

#[test]
fn executing_a_call_dispatches_its_request() {
    let registry = ToolRegistry::new(PermissionManager::new(PermissionsConfig::default()), "/proj");
    let mut executor = darb::agent::executor::Executor::new(registry);
    let read = darb::agent::tool_calling::ToolCallSpec {
        tool: "read_file".to_string(),
        target: "a.txt".to_string(),
        arguments: darb::textmap::TextMap::new(),
    };
    assert!(matches!(executor.execute(read), Dispatch::Run(ToolKind::ReadFile)));
    let edit = darb::agent::tool_calling::ToolCallSpec {
        tool: "edit_file".to_string(),
        target: "a.txt".to_string(),
        arguments: darb::textmap::TextMap::new(),
    };
    match executor.execute(edit) {
        Dispatch::Refused(result) => {
            assert_eq!(result.error.as_deref(), Some("permission required: 'edit_file' on 'a.txt'"));
        }
        Dispatch::Run(_) => panic!("edits ask by default"),
    }
}
