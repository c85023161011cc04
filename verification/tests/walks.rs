use darb::agent::run_loop::{files_budget, BuiltContext};
use darb::context::indexer::{Indexer, Listed, MAX_FILES};
use darb::context::project_map::{ProjectFile, ProjectMap};
use darb::context::selector::SelectedFile;
use darb::errors::DarbError;
use darb::providers::{key_variables, provider_setup_problem, take_lines};
use darb::tools::editor::check_old_text;
use darb::tools::filesystem::{check_size, sort_entries, DirEntry, MAX_READ_BYTES};
use darb::tools::git::{diff_args, git_failure, status_args};
use darb::tools::search::{forward_slashes, scannable, TextSearch, MAX_MATCHES, MAX_SCAN_BYTES};
use darb::tui::app::{App, TaskItem, TaskState};

fn entry(path: &str, is_dir: bool, bytes: u64) -> Listed {
    let name = path.rsplit('/').next().unwrap_or(path).to_string();
    Listed { path: path.to_string(), name, is_dir, bytes }
}

#[test]
fn scan_walks_in_name_order_and_skips_excluded_entries() {
    let indexer = Indexer::new("/proj");
    let mut walk = indexer.start();
    assert_eq!(walk.next_dir(), Some(("/proj".to_string(), 0)));
    walk.visit(
        0,
        &vec![
            entry("/proj/src", true, 0),
            entry("/proj/target", true, 0),
            entry("/proj/README.md", false, 10),
            entry("/proj/.env", false, 5),
            entry("/proj/big.bin", false, 10 * 1024 * 1024),
            entry("/proj/Cargo.toml", false, 20),
        ],
    );
    assert_eq!(walk.next_dir(), Some(("/proj/src".to_string(), 1)));
    walk.visit(1, &vec![entry("/proj/src/main.rs", false, 30)]);
    assert_eq!(walk.next_dir(), None);
    let map = walk.finish();
    let paths: Vec<&str> = map.files.iter().map(|f| f.path.as_str()).collect();
    assert_eq!(paths, vec!["Cargo.toml", "README.md", "src/main.rs"]);
    assert_eq!(map.files[2].language, "rust");
    assert!(!map.truncated);
}

#[test]
fn scan_stops_at_the_depth_and_file_caps() {
    let mut indexer = Indexer::new("/p");
    indexer.max_depth = 0;
    let mut walk = indexer.start();
    assert!(walk.next_dir().is_some());
    walk.visit(0, &vec![entry("/p/deep", true, 0), entry("/p/a.rs", false, 1)]);
    assert_eq!(walk.next_dir(), Some(("/p/deep".to_string(), 1)));
    walk.visit(1, &vec![entry("/p/deep/b.rs", false, 1)]);
    assert!(walk.truncated);
    assert_eq!(walk.next_dir(), None);
    let map = walk.finish();
    assert!(map.truncated);
    assert_eq!(map.files.len(), 1);

    let mut small = Indexer::new("/p");
    small.max_files = 1;
    let mut walk = small.start();
    walk.next_dir();
    walk.visit(0, &vec![entry("/p/b.rs", false, 1), entry("/p/a.rs", false, 1)]);
    let map = walk.finish();
    assert!(map.truncated);
    assert_eq!(map.files.len(), 1);
    assert_eq!(map.files[0].path, "a.rs");
    assert_eq!(MAX_FILES, 2000);
}

#[test]
fn text_search_queues_dirs_and_offers_named_files() {
    let mut walk = TextSearch::new("/p", "needle");
    assert_eq!(walk.next_dir(), Some("/p".to_string()));
    let files = walk.visit(&vec![
        entry("/p/z.txt", false, 0),
        entry("/p/node_modules", true, 0),
        entry("/p/lib", true, 0),
        entry("/p/a.txt", false, 0),
    ]);
    assert_eq!(files, vec!["/p/a.txt".to_string(), "/p/z.txt".to_string()]);
    walk.file_text("/p/a.txt", "one\nneedle here  \nthree needle\n");
    assert_eq!(walk.matches.len(), 2);
    assert_eq!(walk.matches[0].file, "a.txt");
    assert_eq!(walk.matches[0].line, 2);
    assert_eq!(walk.matches[0].text, "needle here");
    assert_eq!(walk.next_dir(), Some("/p/lib".to_string()));
    assert_eq!(walk.next_dir(), None);
    let out = walk.finish();
    assert!(!out.truncated);
}

#[test]
fn text_search_is_cut_at_the_match_cap() {
    let mut walk = TextSearch::new("/p", "x");
    let content = "x\n".repeat(MAX_MATCHES + 5);
    walk.file_text("/p/many.txt", &content);
    assert_eq!(walk.matches.len(), MAX_MATCHES);
    assert!(walk.truncated);
    walk.file_text("/p/more.txt", "x\n");
    assert_eq!(walk.matches.len(), MAX_MATCHES);
    assert_eq!(walk.next_dir(), None);
    assert!(scannable(MAX_SCAN_BYTES));
    assert!(!scannable(MAX_SCAN_BYTES + 1));
}

#[test]
fn listings_put_directories_first_then_names_case_insensitively() {
    let sorted = sort_entries(vec![
        DirEntry { name: "b.rs".to_string(), is_dir: false },
        DirEntry { name: "Zeta".to_string(), is_dir: true },
        DirEntry { name: "A.rs".to_string(), is_dir: false },
        DirEntry { name: "alpha".to_string(), is_dir: true },
    ]);
    let names: Vec<&str> = sorted.iter().map(|e| e.name.as_str()).collect();
    assert_eq!(names, vec!["alpha", "Zeta", "A.rs", "b.rs"]);
}

#[test]
fn size_checks_refuse_directories_and_large_files() {
    assert!(check_size("read", "a.txt", false, 10).is_ok());
    assert_eq!(
        check_size("read", "src", true, 0),
        Err(DarbError::Tool("could not read 'src': is a directory".to_string()))
    );
    assert_eq!(
        check_size("edit", "big", false, MAX_READ_BYTES + 1),
        Err(DarbError::Tool(
            "could not edit 'big': 524289 bytes exceeds the 524288-byte limit".to_string()
        ))
    );
    assert!(check_old_text("x").is_ok());
    assert!(matches!(check_old_text(""), Err(DarbError::Tool(_))));
}

#[test]
fn git_arguments_and_failures() {
    assert_eq!(status_args(), vec!["status", "--porcelain=v1", "--branch"]);
    assert_eq!(diff_args(""), vec!["diff"]);
    assert_eq!(diff_args("a.rs"), vec!["diff", "--", "a.rs"]);
    let e = git_failure(&status_args(), b"  fatal: not a git repository\n");
    assert_eq!(
        e,
        DarbError::Git(
            "git status --porcelain=v1 --branch failed: fatal: not a git repository".to_string()
        )
    );
    assert_eq!(forward_slashes("a\\b/c"), "a/b/c");
}

#[test]
fn stream_buffers_split_on_complete_lines() {
    let (lines, rest) = take_lines("data: a\ndata: b\ndata: par");
    assert_eq!(lines, vec!["data: a".to_string(), "data: b".to_string()]);
    assert_eq!(rest, "data: par");
    let (lines, rest) = take_lines("no newline");
    assert!(lines.is_empty());
    assert_eq!(rest, "no newline");
}

#[test]
fn provider_setup_needs_a_model_and_an_adapter() {
    assert_eq!(provider_setup_problem("openai", "gpt-4o-mini"), None);
    assert_eq!(provider_setup_problem("openai", " ... "), Some("no model configured".to_string()));
    assert_eq!(provider_setup_problem("openai", "  "), Some("no model configured".to_string()));
    assert_eq!(
        provider_setup_problem("mistral", "m"),
        Some("provider 'mistral' is not implemented yet".to_string())
    );
    assert_eq!(key_variables("openai"), vec!["DARB_OPENAI_API_KEY", "OPENAI_API_KEY"]);
    assert!(key_variables("local").is_empty());
}

#[test]
fn context_parts_follow_the_budget_shares() {
    let map = ProjectMap {
        root: "/p".to_string(),
        files: vec![ProjectFile { path: "a.rs".to_string(), language: "rust".to_string(), bytes: 3 }],
        truncated: true,
    };
    let selected = vec![SelectedFile { path: "a.rs".to_string(), content: "fn a() {}".to_string(), tokens: 3 }];
    let built = BuiltContext::assemble(&map, 1000, &selected);
    assert_eq!(built.map, "a.rs\n\n(note: map is partial — walk caps hit)");
    assert_eq!(built.files, "--- a.rs (3 tokens) ---\nfn a() {}\n");
    assert_eq!(built.history_chars, 1200);
    assert_eq!(files_budget(1000), 600);
    let none = BuiltContext::none();
    assert!(none.map.is_empty() && none.files.is_empty());
    assert_eq!(none.history_chars, usize::MAX);
}

#[test]
fn status_bar_counts_steps_by_state() {
    let mut app = App::new();
    for state in [TaskState::Done, TaskState::Pending, TaskState::Done, TaskState::Failed] {
        app.tasks.push(TaskItem {
            tool: "t".to_string(),
            target: "x".to_string(),
            state,
            expanded: false,
        });
    }
    assert_eq!(app.task_counts(), (2, 1, 1));
}

#[test]
fn text_search_is_truncated_only_by_a_further_match() {
    let mut walk = TextSearch::new("/p", "x");
    let content = "x\n".repeat(MAX_MATCHES);
    walk.file_text("/p/full.txt", &content);
    assert_eq!(walk.matches.len(), MAX_MATCHES);
    assert!(!walk.truncated);
    walk.file_text("/p/none.txt", "y\n");
    assert!(!walk.truncated);
    walk.file_text("/p/one.txt", "y\nx\n");
    assert_eq!(walk.matches.len(), MAX_MATCHES);
    assert!(walk.truncated);
}

#[test]
fn scan_is_truncated_only_when_a_file_is_left_out() {
    let mut indexer = Indexer::new("/p");
    indexer.max_depth = 0;
    let mut walk = indexer.start();
    walk.next_dir();
    walk.visit(0, &vec![entry("/p/empty", true, 0), entry("/p/a.rs", false, 1)]);
    assert_eq!(walk.next_dir(), Some(("/p/empty".to_string(), 1)));
    walk.visit(1, &vec![entry("/p/empty/.env", false, 1)]);
    assert_eq!(walk.next_dir(), None);
    assert!(!walk.finish().truncated);

    let mut exact = Indexer::new("/p");
    exact.max_files = 2;
    let mut walk = exact.start();
    walk.next_dir();
    walk.visit(0, &vec![entry("/p/b.rs", false, 1), entry("/p/a.rs", false, 1)]);
    assert_eq!(walk.next_dir(), None);
    let map = walk.finish();
    assert_eq!(map.files.len(), 2);
    assert!(!map.truncated);

    let mut three = Indexer::new("/p");
    three.max_files = 3;
    let mut walk = three.start();
    walk.next_dir();
    let ten: Vec<Listed> = (0..10).map(|i| entry(&format!("/p/f{i}.rs"), false, 1)).collect();
    walk.visit(0, &ten);
    let map = walk.finish();
    assert_eq!(map.files.len(), 3);
    assert!(map.truncated);
}

#[test]
fn sse_done_and_noise_are_ignored() {
    assert!(darb::providers::parse_sse_line("data: [DONE]").is_none());
    assert!(darb::providers::parse_sse_line(": comment").is_none());
    assert!(darb::providers::parse_sse_line("").is_none());
}

#[test]
fn empty_key_is_rejected() {
    assert!(darb::providers::check_api_key("  ").is_err());
    assert!(darb::providers::check_api_key("sk-test").is_ok());
}
