use darb::context::compression::truncate_middle;
use darb::context::indexer::detect_language;
use darb::context::project_map::{ProjectFile, ProjectMap};
use darb::context::relevance::score;
use darb::context::selector::{Selection, MAX_FILE_TOKENS};
use darb::context::tokenizer::estimate;

#[test]
fn short_text_passes_through() {
    assert_eq!(truncate_middle("abc", 100), "abc");
}

#[test]
fn long_text_keeps_head_and_tail() {
    let text = (0..100).map(|n| format!("line{n:03}\n")).collect::<String>();
    let cut = truncate_middle(&text, 100);
    assert!(cut.starts_with("line000"));
    assert!(cut.trim_end().ends_with("line099"));
    assert!(cut.contains("[truncated]"));
    assert!(cut.chars().count() <= 100);
}

#[test]
fn detects_languages() {
    assert_eq!(detect_language("a.rs"), "rust");
    assert_eq!(detect_language("a.TS"), "typescript");
    assert_eq!(detect_language("Makefile"), "text");
}

#[test]
fn a_name_without_a_dot_has_no_extension() {
    assert_eq!(detect_language("rs"), "text");
    assert_eq!(detect_language("go"), "text");
    assert_eq!(detect_language("archive.tar.GZ"), "text");
    assert_eq!(detect_language("build.sh"), "shell");
    assert_eq!(detect_language(".md"), "markdown");
}

fn files() -> Vec<ProjectFile> {
    ["auth/login.ts", "auth/session.ts", "payments/cart.ts"]
        .iter()
        .map(|path| ProjectFile {
            path: path.to_string(),
            language: "typescript".to_string(),
            bytes: 10,
        })
        .collect()
}

#[test]
fn explicit_mention_wins() {
    let files = files();
    let ranked = score("fix auth/session.ts validation", &files);
    assert_eq!(ranked[0].file.path, "auth/session.ts");
    assert!(ranked[0].score >= 100);
}

#[test]
fn word_overlap_beats_unrelated() {
    let files = files();
    let ranked = score("fix the login flow", &files);
    assert_eq!(ranked[0].file.path, "auth/login.ts");
    assert_eq!(ranked.last().expect("files").file.path, "payments/cart.ts");
}

#[test]
fn empty_costs_nothing() {
    assert_eq!(estimate(""), 0);
}

#[test]
fn scales_with_length() {
    let short = estimate("hi");
    let long = estimate(&"hello world ".repeat(100));
    assert!(long > short * 10, "{short} vs {long}");
    assert_eq!(estimate("abcd"), 1);
    assert_eq!(estimate("abcde"), 2);
}

#[test]
fn selection_takes_files_until_the_budget_is_spent() {
    let mut selection = Selection::new(3);
    assert!(selection.wants_more());
    assert!(selection.offer("a.rs", "abcdefgh"));
    assert_eq!(selection.spent, 2);
    assert!(!selection.offer("b.rs", "abcdefgh"));
    assert_eq!(selection.files.len(), 1);
    assert_eq!(selection.files[0].path, "a.rs");
    assert!(selection.offer("c.rs", "x"));
    assert!(!selection.wants_more());
}

#[test]
fn oversized_files_are_cut_before_counting() {
    let mut selection = Selection::new(100_000);
    let big = "y".repeat((MAX_FILE_TOKENS as usize) * 8);
    assert!(selection.offer("big.txt", &big));
    assert!(selection.files[0].content.contains("[truncated]"));
    assert!(selection.files[0].tokens <= MAX_FILE_TOKENS);
    assert!(selection.files[0].content.chars().count() <= (MAX_FILE_TOKENS as usize) * 4);
}

#[test]
fn zero_budget_takes_nothing() {
    let mut selection = Selection::new(0);
    assert!(!selection.wants_more());
    assert!(!selection.offer("login.rs", "fn login() {}\n"));
    assert!(selection.files.is_empty());
}

fn sample_map() -> ProjectMap {
    ProjectMap {
        root: "/proj".to_string(),
        files: vec![
            ProjectFile {
                path: "src/auth/login.ts".to_string(),
                language: "typescript".to_string(),
                bytes: 100,
            },
            ProjectFile {
                path: "src/auth/session.ts".to_string(),
                language: "typescript".to_string(),
                bytes: 200,
            },
            ProjectFile {
                path: "README.md".to_string(),
                language: "markdown".to_string(),
                bytes: 50,
            },
        ],
        truncated: false,
    }
}

#[test]
fn renders_tree() {
    let text = sample_map().render();
    assert!(text.contains("src/\n"), "{text}");
    assert!(text.contains("  auth/\n"), "{text}");
    assert!(text.contains("    login.ts\n"), "{text}");
    assert!(text.contains("README.md\n"), "{text}");
}

#[test]
fn render_puts_directories_first_and_sorts_names() {
    let text = sample_map().render();
    assert_eq!(text, "src/\n  auth/\n    login.ts\n    session.ts\nREADME.md\n");
    assert_eq!(sample_map().file_count(), 3);
}

#[test]
fn render_of_empty_map_is_empty() {
    let map = ProjectMap::default();
    assert_eq!(map.render(), "");
}

#[test]
fn a_budget_below_the_marker_keeps_the_head_within_it() {
    let cut = truncate_middle("abcdefghijklmnopqrstuvwxyz0123456789", 5);
    assert_eq!(cut, "abcde");
    assert_eq!(truncate_middle("abcdefghijklmnopqrstuvwxyz0123456789", 0), "");
}
