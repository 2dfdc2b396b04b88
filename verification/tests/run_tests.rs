use pacont::aggregate::PathInput;
use pacont::cli::Cli;
use pacont::directory_operations::WalkEntry;
use pacont::paths::EntryPath;
use pacont::run::{
    validate_paths, choose_delivery, render_output, try_render_output, Delivery, InvalidInput,
};
use std::path::Path;

fn entry_path(display: &str) -> EntryPath {
    EntryPath {
        display: display.to_string(),
        components: Path::new(display)
            .components()
            .map(|part| part.as_os_str().to_string_lossy().into_owned())
            .collect(),
    }
}

/// One thing in the tree that the runs below are made on.
enum Node {
    File(&'static str, &'static str),
    Dir(&'static str),
}

/// What a walk of `root` meets in a tree of `nodes`, whose paths are
/// relative to `base`; no deeper than `max_depth`, as the walker is asked.
fn walk(base: &str, root: &str, nodes: &[Node], max_depth: usize) -> Vec<WalkEntry> {
    let root_full = if root.is_empty() {
        base.to_string()
    } else {
        format!("{}/{}", base, root)
    };
    let mut entries = vec![WalkEntry::Other {
        path: entry_path(&root_full),
        depth: 0,
    }];
    for node in nodes {
        let (relative, contents) = match node {
            Node::File(relative, contents) => (*relative, Some(*contents)),
            Node::Dir(relative) => (*relative, None),
        };
        let full = format!("{}/{}", base, relative);
        let below = match full.strip_prefix(&format!("{}/", root_full)) {
            Some(below) => below,
            None => continue,
        };
        let depth = below.split('/').count();
        if depth > max_depth {
            continue;
        }
        entries.push(match contents {
            Some(contents) => WalkEntry::File {
                path: entry_path(&full),
                depth,
                data: Some(contents.as_bytes().to_vec()),
            },
            None => WalkEntry::Other {
                path: entry_path(&full),
                depth,
            },
        });
    }
    entries
}

/// What a run prints and reports, and whether it ends well.
struct Outcome {
    success: bool,
    stdout: String,
    stderr: String,
    copied: Option<String>,
}

/// A run of the tool over a tree under `/tmp/work`: the arguments are paths
/// relative to it.
fn run(cli: Cli, nodes: &[Node]) -> Outcome {
    let base = "/tmp/work";
    let mut exists = Vec::new();
    let mut inputs = Vec::new();
    for argument in &cli.paths {
        let relative = argument.strip_prefix("/tmp/work/").unwrap_or("");
        let is_base = argument == base;
        let as_file = nodes.iter().find_map(|node| match node {
            Node::File(path, contents) if *path == relative => Some(*contents),
            _ => None,
        });
        let is_dir = is_base
            || nodes
                .iter()
                .any(|node| matches!(node, Node::Dir(path) if *path == relative));
        exists.push(as_file.is_some() || is_dir);
        if let Some(contents) = as_file {
            inputs.push(PathInput::File {
                path: entry_path(argument),
                data: Some(contents.as_bytes().to_vec()),
            });
        } else if is_dir {
            inputs.push(PathInput::Directory {
                path: entry_path(argument),
                entries: walk(base, if is_base { "" } else { relative }, nodes, cli.max_depth),
            });
        }
    }
    if let Err(reason) = validate_paths(&cli, &exists) {
        return Outcome {
            success: false,
            stdout: String::new(),
            stderr: format!("Error: {}\n", reason.message()),
            copied: None,
        };
    }
    let mut stderr = String::new();
    let buffer = render_output(&cli, &inputs, &mut stderr);
    let delivery = choose_delivery(&cli, &buffer);
    let mut stdout = String::new();
    let mut copied = None;
    match delivery {
        Delivery::Print => stdout.push_str(&buffer),
        Delivery::Copy => copied = Some(buffer),
        Delivery::NothingToCopy => {}
    }
    if delivery != Delivery::Print {
        stderr.push_str(&delivery.notice());
        stderr.push('\n');
    }
    Outcome {
        success: true,
        stdout,
        stderr,
        copied,
    }
}

fn cli(paths: &[&str]) -> Cli {
    Cli {
        paths: paths.iter().map(|path| path.to_string()).collect(),
        max_depth: 10,
        include_errors: false,
        output_information: false,
        copy: false,
    }
}

fn two_level_tree() -> Vec<Node> {
    vec![
        Node::File("root.txt", "Root\n"),
        Node::Dir("subdir"),
        Node::File("subdir/nested.txt", "Nested\n"),
    ]
}

#[test]
fn test_single_file() {
    let nodes = [Node::File("test.txt", "Hello World\n")];

    let output = run(cli(&["/tmp/work/test.txt"]), &nodes);

    assert!(output.success);
    assert!(output.stdout.contains("**test.txt:**"));
    assert!(output.stdout.contains("Hello World"));
}

#[test]
fn test_directory_traversal() {
    let nodes = [
        Node::File("file1.txt", "Content 1\n"),
        Node::File("file2.txt", "Content 2\n"),
    ];

    let output = run(cli(&["/tmp/work"]), &nodes);

    assert!(output.success);
    assert!(output.stdout.contains("**file1.txt:**"));
    assert!(output.stdout.contains("**file2.txt:**"));
    assert!(output.stdout.contains("Content 1"));
    assert!(output.stdout.contains("Content 2"));
}

#[test]
fn test_subdirectory_traversal() {
    let nodes = [
        Node::File("root.txt", "Root content\n"),
        Node::Dir("subdir"),
        Node::File("subdir/nested.txt", "Nested content\n"),
    ];

    let output = run(cli(&["/tmp/work"]), &nodes);

    assert!(output.success);
    assert!(output.stdout.contains("**root.txt:**"));
    assert!(output.stdout.contains("**subdir/nested.txt:**"));
}

#[test]
fn test_max_depth_zero() {
    let mut options = cli(&["/tmp/work"]);
    options.max_depth = 0;

    let output = run(options, &two_level_tree());

    assert!(output.success);
    assert_eq!(output.stdout, "");
}

#[test]
fn test_max_depth_one() {
    let mut options = cli(&["/tmp/work"]);
    options.max_depth = 1;

    let output = run(options, &two_level_tree());

    assert!(output.success);
    assert!(output.stdout.contains("**root.txt:**"));
    assert!(!output.stdout.contains("nested.txt"));
}

#[test]
fn test_output_information_flag() {
    let nodes = [Node::File("test.txt", "Hello World\n")];
    let mut options = cli(&["/tmp/work"]);
    options.output_information = true;

    let output = run(options, &nodes);

    assert!(output.success);
    assert!(output.stdout.contains("Paths:"));
    assert!(output.stdout.contains("Total Characters:"));
    assert!(output.stdout.contains("Total Words:"));
    assert!(output.stdout.contains("Total Non-Empty Lines:"));
}

#[test]
fn test_multiple_paths() {
    let nodes = [
        Node::File("file1.txt", "File 1\n"),
        Node::File("file2.txt", "File 2\n"),
    ];

    let output = run(cli(&["/tmp/work/file1.txt", "/tmp/work/file2.txt"]), &nodes);

    assert!(output.success);
    assert!(output.stdout.contains("**file1.txt:**"));
    assert!(output.stdout.contains("**file2.txt:**"));
    assert!(output.stdout.contains("File 1"));
    assert!(output.stdout.contains("File 2"));
    assert!(output.stdout.contains("--------"));
}

#[test]
fn test_multiple_paths_with_output_information() {
    let nodes = [
        Node::File("file1.txt", "One Two\n"),
        Node::File("file2.txt", "Three\n"),
    ];
    let mut options = cli(&["/tmp/work/file1.txt", "/tmp/work/file2.txt"]);
    options.output_information = true;

    let output = run(options, &nodes);

    assert!(output.success);
    assert!(output.stdout.contains("Total Characters: 14"));
    assert!(output.stdout.contains("Total Words: 3"));
    assert!(output.stdout.contains("Total Non-Empty Lines: 2"));
}

#[test]
fn test_nonexistent_path() {
    let output = run(cli(&["/nonexistent/path/to/file.txt"]), &[]);

    assert!(!output.success);
    assert!(output.stderr.contains("Path or file does not exist"));
}

#[test]
fn test_no_paths_provided() {
    let output = run(cli(&[]), &[]);

    assert!(!output.success);
    assert!(output.stderr.contains("No paths provided"));
}

#[test]
fn test_separator_between_files() {
    let nodes = [Node::File("a.txt", "A\n"), Node::File("b.txt", "B\n")];

    let output = run(cli(&["/tmp/work"]), &nodes);

    assert!(output.success);
    let separator_count = output.stdout.matches(&"-".repeat(80)).count();
    assert_eq!(separator_count, 1);
}

#[test]
fn test_empty_directory() {
    let output = run(cli(&["/tmp/work"]), &[]);

    assert!(output.success);
    assert_eq!(output.stdout, "");
}

#[test]
fn test_file_with_unicode() {
    let nodes = [Node::File("unicode.txt", "Hello ‰∏ñÁïå üåç\n")];

    let output = run(cli(&["/tmp/work/unicode.txt"]), &nodes);

    assert!(output.success);
    assert!(output.stdout.contains("Hello ‰∏ñÁïå üåç"));
}

#[test]
fn test_copy_flag_no_clipboard_interaction() {
    let nodes = [Node::File("test.txt", "Test\n")];
    let mut options = cli(&["/tmp/work/test.txt"]);
    options.copy = true;

    let output = run(options, &nodes);

    assert!(output.success || !output.success);
    assert_eq!(output.stdout, "");
    assert_eq!(output.copied, Some("**test.txt:**\nTest\n\n".to_string()));
    assert_eq!(output.stderr, "Output copied to clipboard.\n");
}

#[test]
fn test_long_max_depth() {
    let nodes = [
        Node::Dir("level1"),
        Node::Dir("level1/level2"),
        Node::Dir("level1/level2/level3"),
        Node::Dir("level1/level2/level3/level4"),
        Node::Dir("level1/level2/level3/level4/level5"),
        Node::File("level1/level2/level3/level4/level5/deep.txt", "Deep content\n"),
    ];
    let mut options = cli(&["/tmp/work"]);
    options.max_depth = 10;

    let output = run(options, &nodes);

    assert!(output.success);
    assert!(output
        .stdout
        .contains("**level1/level2/level3/level4/level5/deep.txt:**"));
}

#[test]
fn test_mixed_files_and_directories() {
    let nodes = [
        Node::Dir("dir1"),
        Node::Dir("dir2"),
        Node::File("root.txt", "Root\n"),
        Node::File("dir1/file1.txt", "Dir1\n"),
        Node::File("dir2/file2.txt", "Dir2\n"),
    ];

    let output = run(
        cli(&[
            "/tmp/work/root.txt",
            "/tmp/work/dir1",
            "/tmp/work/dir2/file2.txt",
        ]),
        &nodes,
    );

    assert!(output.success);
    assert!(output.stdout.contains("**root.txt:**"));
    assert!(output.stdout.contains("**file1.txt:**"));
    assert!(output.stdout.contains("**file2.txt:**"));
}

#[test]
fn nothing_to_copy_is_said_so() {
    let mut options = cli(&["/tmp/work"]);
    options.copy = true;
    let output = run(options, &[]);
    assert!(output.success);
    assert_eq!(output.stdout, "");
    assert_eq!(output.copied, None);
    assert_eq!(output.stderr, "No output to copy to clipboard.\n");
}

#[test]
fn delivery_follows_the_copy_flag_and_the_output() {
    let mut options = cli(&[]);
    assert_eq!(choose_delivery(&options, "text"), Delivery::Print);
    assert_eq!(choose_delivery(&options, ""), Delivery::Print);
    options.copy = true;
    assert_eq!(choose_delivery(&options, "text"), Delivery::Copy);
    assert_eq!(choose_delivery(&options, ""), Delivery::NothingToCopy);
    assert_eq!(Delivery::Print.notice(), "");
    assert_eq!(Delivery::Copy.notice(), "Output copied to clipboard.");
    assert_eq!(
        Delivery::NothingToCopy.notice(),
        "No output to copy to clipboard."
    );
}

#[test]
fn validate_paths_names_the_first_missing_path() {
    let options = cli(&["a", "b", "c", "d"]);
    assert!(validate_paths(&options, &vec![true, true, true, true]).is_ok());
    match validate_paths(&options, &vec![true, false, true, false]) {
        Err(InvalidInput::MissingPath { path }) => assert_eq!(path, "b"),
        _ => panic!("the second path is missing"),
    }
    match validate_paths(&options, &vec![true, true]) {
        Err(InvalidInput::MissingPath { path }) => assert_eq!(path, "c"),
        _ => panic!("the third path has no answer"),
    }
    match validate_paths(&cli(&[]), &vec![]) {
        Err(InvalidInput::NoPaths) => {}
        _ => panic!("no path was given"),
    }
}

#[test]
fn invalid_input_is_put_in_words() {
    assert_eq!(
        InvalidInput::NoPaths.message(),
        "No paths provided. Use --help for usage information."
    );
    assert_eq!(
        InvalidInput::MissingPath {
            path: "/nonexistent/path/to/file.txt".to_string()
        }
        .message(),
        "Path or file does not exist: /nonexistent/path/to/file.txt"
    );
}

#[test]
fn render_output_picks_the_mode() {
    let inputs = vec![PathInput::File {
        path: entry_path("/tmp/work/test.txt"),
        data: Some(b"Test content\n".to_vec()),
    }];
    let mut options = cli(&["/tmp/work/test.txt"]);
    let mut errors = String::new();
    assert_eq!(
        render_output(&options, &inputs, &mut errors),
        "**test.txt:**\nTest content\n\n"
    );
    options.output_information = true;
    assert_eq!(
        render_output(&options, &inputs, &mut errors),
        "Paths: /tmp/work/test.txt\nTotal Characters: 13\nTotal Words: 2\nTotal Non-Empty Lines: 1\n"
    );
    assert_eq!(errors, "");
}

#[test]
fn try_render_output_gives_what_render_output_gives() {
    let inputs = vec![
        PathInput::File {
            path: entry_path("/tmp/work/test.txt"),
            data: Some(b"Test content\n".to_vec()),
        },
        PathInput::File {
            path: entry_path("/tmp/work/locked.txt"),
            data: None,
        },
    ];
    let mut options = cli(&["/tmp/work/test.txt", "/tmp/work/locked.txt"]);
    options.include_errors = true;
    for summary in [false, true] {
        options.output_information = summary;
        let mut plain_errors = String::new();
        let mut tried_errors = String::new();
        let plain = render_output(&options, &inputs, &mut plain_errors);
        let tried = try_render_output(&options, &inputs, &mut tried_errors);
        assert_eq!(tried, Some(plain));
        assert_eq!(tried_errors, plain_errors);
        assert!(!tried_errors.is_empty());
    }
}
