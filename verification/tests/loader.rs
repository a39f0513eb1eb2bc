use rag_loader::agent::{list_agents, AgentDefinition};
use rag_loader::dispatch::{
    load, load_plain, load_with_pandoc, load_with_pdftotext, run_external_tool, CommandOutput,
    LoadAction, ToolAvailability,
};
use rag_loader::error::LoaderError;
use rag_loader::filter::{extension_of, is_valid_extension};
use rag_loader::glob::parse_glob;
use rag_loader::walk::{list_files, FsEntry};

#[test]
fn test_parse_glob() {
    assert_eq!(parse_glob("dir").unwrap(), ("dir".into(), vec![]));
    assert_eq!(
        parse_glob("dir/file.md").unwrap(),
        ("dir/file.md".into(), vec![])
    );
    assert_eq!(
        parse_glob("dir/**/*.md").unwrap(),
        ("dir".into(), vec!["md".into()])
    );
    assert_eq!(
        parse_glob("dir/**/*.{md,txt}").unwrap(),
        ("dir".into(), vec!["md".into(), "txt".into()])
    );
    assert_eq!(
        parse_glob("C:\\dir\\**\\*.{md,txt}").unwrap(),
        ("C:\\dir".into(), vec!["md".into(), "txt".into()])
    );
}

#[test]
fn parse_glob_without_marker_returns_input_unchanged() {
    assert_eq!(parse_glob("").unwrap(), ("".into(), vec![]));
    assert_eq!(parse_glob("a/b/c.txt").unwrap(), ("a/b/c.txt".into(), vec![]));
    assert_eq!(parse_glob("**/*.md").unwrap(), ("**/*.md".into(), vec![]));
}

#[test]
fn parse_glob_handles_multibyte_base() {
    assert_eq!(
        parse_glob("d\u{e9}j\u{e0}/**/*.md").unwrap(),
        ("d\u{e9}j\u{e0}".into(), vec!["md".into()])
    );
}

#[test]
fn parse_glob_unclosed_brace_falls_back_to_literal() {
    assert_eq!(
        parse_glob("dir/**/*.{md,txt").unwrap(),
        ("dir".into(), vec!["{md,txt".into()])
    );
}

#[test]
fn parse_glob_brace_without_opening_is_invalid() {
    let err = parse_glob("dir/**/*.md}").unwrap_err();
    match &err {
        LoaderError::InvalidPattern { path } => assert_eq!(path, "dir/**/*.md}"),
        other => panic!("unexpected error: {other:?}"),
    }
    assert_eq!(err.describe(), "Invalid path 'dir/**/*.md}'");
}

#[test]
fn parse_glob_empty_braces_yield_one_empty_extension() {
    assert_eq!(
        parse_glob("dir/**/*.{}").unwrap(),
        ("dir".into(), vec!["".into()])
    );
}

#[test]
fn extension_of_finds_final_component_extension() {
    assert_eq!(extension_of("a/b.md"), Some("md".into()));
    assert_eq!(extension_of("a.b.c"), Some("c".into()));
    assert_eq!(extension_of("trailing."), Some("".into()));
    assert_eq!(extension_of("noext"), None);
    assert_eq!(extension_of("a/.gitignore"), None);
    assert_eq!(extension_of("dir.x/plain"), None);
    assert_eq!(extension_of("C:\\dir\\note.txt"), Some("txt".into()));
}

#[test]
fn filter_rejects_missing_extension_only_when_filter_nonempty() {
    let filter: Vec<String> = vec!["md".into()];
    let empty: Vec<String> = vec![];
    assert!(!is_valid_extension(Some(&filter), "root/file"));
    assert!(is_valid_extension(Some(&empty), "root/file"));
    assert!(is_valid_extension(None, "root/file"));
}

#[test]
fn filter_matches_case_sensitively() {
    let filter: Vec<String> = vec!["md".into(), "txt".into()];
    assert!(is_valid_extension(Some(&filter), "root/a.md"));
    assert!(is_valid_extension(Some(&filter), "root/b.txt"));
    assert!(!is_valid_extension(Some(&filter), "root/c.MD"));
    assert!(!is_valid_extension(Some(&filter), "root/d.rs"));
}

fn sample_tree() -> FsEntry {
    FsEntry::Dir {
        path: "root".into(),
        entries: vec![
            FsEntry::File { path: "root/a.md".into() },
            FsEntry::File { path: "root/b.txt".into() },
            FsEntry::Dir {
                path: "root/sub".into(),
                entries: vec![FsEntry::File { path: "root/sub/c.md".into() }],
            },
        ],
    }
}

#[test]
fn walk_filters_and_orders_depth_first() {
    let filter: Vec<String> = vec!["md".into()];
    let mut files: Vec<String> = Vec::new();
    list_files(&mut files, &sample_tree(), Some(&filter)).unwrap();
    assert_eq!(files, vec!["root/a.md".to_string(), "root/sub/c.md".to_string()]);
}

#[test]
fn walk_without_filter_keeps_everything() {
    let mut files: Vec<String> = Vec::new();
    list_files(&mut files, &sample_tree(), None).unwrap();
    assert_eq!(
        files,
        vec![
            "root/a.md".to_string(),
            "root/b.txt".to_string(),
            "root/sub/c.md".to_string()
        ]
    );
}

#[test]
fn walk_single_file_root() {
    let filter: Vec<String> = vec!["md".into()];
    let mut files: Vec<String> = Vec::new();
    list_files(&mut files, &FsEntry::File { path: "note.md".into() }, Some(&filter)).unwrap();
    assert_eq!(files, vec!["note.md".to_string()]);

    let mut other: Vec<String> = Vec::new();
    list_files(&mut other, &FsEntry::File { path: "note.txt".into() }, Some(&filter)).unwrap();
    assert!(other.is_empty());
}

#[test]
fn walk_missing_root_fails_not_found() {
    let mut files: Vec<String> = vec!["kept".into()];
    let err = list_files(&mut files, &FsEntry::Missing { path: "gone".into() }, None).unwrap_err();
    match &err {
        LoaderError::NotFound { path } => assert_eq!(path, "gone"),
        other => panic!("unexpected error: {other:?}"),
    }
    assert_eq!(err.describe(), "Not found: gone");
    assert_eq!(files, vec!["kept".to_string()]);
}

#[test]
fn walk_special_root_fails_not_a_directory() {
    let mut files: Vec<String> = Vec::new();
    let err =
        list_files(&mut files, &FsEntry::Other { path: "dev/sock".into() }, None).unwrap_err();
    match &err {
        LoaderError::NotADirectory { path } => assert_eq!(path, "dev/sock"),
        other => panic!("unexpected error: {other:?}"),
    }
    assert_eq!(err.describe(), "Not a directory: dev/sock");
    assert!(files.is_empty());
}

#[test]
fn walk_twice_over_unchanged_tree_is_idempotent() {
    let filter: Vec<String> = vec!["md".into()];
    let tree = sample_tree();
    let mut first: Vec<String> = Vec::new();
    let mut second: Vec<String> = Vec::new();
    list_files(&mut first, &tree, Some(&filter)).unwrap();
    list_files(&mut second, &tree, Some(&filter)).unwrap();
    assert_eq!(first, second);
}

#[test]
fn load_plain_round_trips_content() {
    let docs = load_plain("line one\nline two\n".to_string());
    assert_eq!(docs.len(), 1);
    assert_eq!(docs[0].page_content, "line one\nline two\n");
    assert!(docs[0].metadata.is_none());

    let empty = load_plain(String::new());
    assert_eq!(empty.len(), 1);
    assert_eq!(empty[0].page_content, "");
}

#[test]
fn load_dispatches_unknown_extensions_to_plain_reading() {
    let tools = ToolAvailability { pandoc: false, pdftotext: false };
    assert!(matches!(load("a.txt", "txt", &tools), Ok(LoadAction::ReadPlain)));
    assert!(matches!(load("a.rs", "rs", &tools), Ok(LoadAction::ReadPlain)));
    assert!(matches!(load("a", "", &tools), Ok(LoadAction::ReadPlain)));
}

#[test]
fn load_pdf_without_pdftotext_fails_before_any_spawn() {
    let tools = ToolAvailability { pandoc: true, pdftotext: false };
    let err = load("doc.pdf", "pdf", &tools).unwrap_err();
    match &err {
        LoaderError::MissingDependency { tool, install_hint } => {
            assert_eq!(tool, "pdftotext");
            assert_eq!(
                install_hint,
                "Need to install pdftotext (part of the poppler package) to load the file."
            );
        }
        other => panic!("unexpected error: {other:?}"),
    }
}

#[test]
fn load_pdf_with_pdftotext_yields_exact_command() {
    let tools = ToolAvailability { pandoc: false, pdftotext: true };
    match load("doc.pdf", "pdf", &tools).unwrap() {
        LoadAction::RunTool(cmd) => {
            assert_eq!(cmd.program, "pdftotext");
            assert_eq!(cmd.args, vec!["doc.pdf".to_string(), "-".to_string()]);
        }
        other => panic!("unexpected action: {other:?}"),
    }
}

#[test]
fn load_docx_and_epub_use_pandoc() {
    let tools = ToolAvailability { pandoc: true, pdftotext: false };
    for (path, ext) in [("m.docx", "docx"), ("b.epub", "epub")] {
        match load(path, ext, &tools).unwrap() {
            LoadAction::RunTool(cmd) => {
                assert_eq!(cmd.program, "pandoc");
                assert_eq!(
                    cmd.args,
                    vec!["--to".to_string(), "plain".to_string(), path.to_string()]
                );
            }
            other => panic!("unexpected action: {other:?}"),
        }
    }
}

#[test]
fn load_docx_without_pandoc_reports_missing_dependency() {
    let tools = ToolAvailability { pandoc: false, pdftotext: true };
    let err = load("m.docx", "docx", &tools).unwrap_err();
    match &err {
        LoaderError::MissingDependency { tool, install_hint } => {
            assert_eq!(tool, "pandoc");
            assert_eq!(install_hint, "Need to install pandoc to load the file.");
        }
        other => panic!("unexpected error: {other:?}"),
    }
}

#[test]
fn pandoc_and_pdftotext_steps_match_the_dispatcher() {
    let cmd = load_with_pandoc("x.epub", true).unwrap();
    assert_eq!(cmd.program, "pandoc");
    assert!(load_with_pandoc("x.epub", false).is_err());
    let cmd = load_with_pdftotext("x.pdf", true).unwrap();
    assert_eq!(cmd.program, "pdftotext");
    assert!(load_with_pdftotext("x.pdf", false).is_err());
}

#[test]
fn run_external_tool_returns_stdout_on_success() {
    let out = CommandOutput {
        success: true,
        stdout: "extracted text".into(),
        stderr: "ignored".into(),
    };
    assert_eq!(run_external_tool("pandoc", out).unwrap(), "extracted text");
}

#[test]
fn run_external_tool_prefers_stderr_on_failure() {
    let out = CommandOutput {
        success: false,
        stdout: "partial".into(),
        stderr: "boom".into(),
    };
    match run_external_tool("pandoc", out).unwrap_err() {
        LoaderError::ToolExecutionFailed { message } => assert_eq!(message, "boom"),
        other => panic!("unexpected error: {other:?}"),
    }
}

#[test]
fn run_external_tool_names_tool_when_stderr_empty() {
    let out = CommandOutput {
        success: false,
        stdout: String::new(),
        stderr: String::new(),
    };
    match run_external_tool("pdftotext", out).unwrap_err() {
        LoaderError::ToolExecutionFailed { message } => {
            assert_eq!(message, "`pdftotext` exited with non-zero.")
        }
        other => panic!("unexpected error: {other:?}"),
    }
}

#[test]
fn banner_without_starters() {
    let d = AgentDefinition {
        name: "coder".into(),
        description: "Writes code.".into(),
        version: "1.0".into(),
        instructions: "be terse".into(),
        conversation_starters: vec![],
    };
    assert_eq!(d.banner(), "# coder 1.0\nWrites code.");
}

#[test]
fn banner_with_starters() {
    let d = AgentDefinition {
        name: "coder".into(),
        description: "Writes code.".into(),
        version: "2".into(),
        instructions: String::new(),
        conversation_starters: vec!["Fix a bug".into(), "Review this".into()],
    };
    assert_eq!(
        d.banner(),
        "# coder 2\nWrites code.\n\n## Conversation Starters\n- Fix a bug\n- Review this"
    );
}

#[test]
fn list_agents_trims_and_drops_empty_lines() {
    let agents = list_agents("alpha\n  beta \n\n\t\ngamma");
    assert_eq!(
        agents,
        vec!["alpha".to_string(), "beta".to_string(), "gamma".to_string()]
    );
    assert!(list_agents("").is_empty());
    assert!(list_agents("\n \n").is_empty());
}

#[test]
fn error_messages_are_descriptive() {
    let e = LoaderError::IoError { message: "read failed".into() };
    assert_eq!(e.describe(), "read failed");
    let e = LoaderError::MissingDependency {
        tool: "pandoc".into(),
        install_hint: "Need to install pandoc to load the file.".into(),
    };
    assert_eq!(e.describe(), "Need to install pandoc to load the file.");
}
