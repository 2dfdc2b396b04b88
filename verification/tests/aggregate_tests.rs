use pacont::aggregate::{
    aggregate, output_content, output_information, path_chars, process_path, render_summary,
    total_chars, AggregateResult, PathInput,
};
use pacont::cli::Cli;
use pacont::directory_operations::WalkEntry;
use pacont::error::TraversalError;
use pacont::paths::EntryPath;
use std::path::Path;

fn entry_path(display: &str) -> EntryPath {
    EntryPath {
        display: display.to_string(),
        components: Path::new(display)
            .components()
            .map(|part| part.as_os_str().to_string_lossy().into_owned())
            .collect(),
    }
}

fn cli(max_depth: usize, include_errors: bool, output_information: bool) -> Cli {
    Cli {
        paths: vec![],
        max_depth,
        include_errors,
        output_information,
        copy: false,
    }
}

fn file_input(path: &str, contents: &str) -> PathInput {
    PathInput::File {
        path: entry_path(path),
        data: Some(contents.as_bytes().to_vec()),
    }
}

fn unreadable_input(path: &str) -> PathInput {
    PathInput::File {
        path: entry_path(path),
        data: None,
    }
}

/// A directory with the given files right in it, each as name and contents.
fn flat_directory(path: &str, files: &[(&str, &str)]) -> PathInput {
    let mut entries = vec![WalkEntry::Other {
        path: entry_path(path),
        depth: 0,
    }];
    for (name, contents) in files {
        entries.push(WalkEntry::File {
            path: entry_path(&format!("{}/{}", path, name)),
            depth: 1,
            data: Some(contents.as_bytes().to_vec()),
        });
    }
    PathInput::Directory {
        path: entry_path(path),
        entries,
    }
}

fn separator_line() -> String {
    format!("{}\n", "-".repeat(80))
}

fn count_separator_lines(body: &str) -> usize {
    body.lines().filter(|line| *line == "-".repeat(80)).count()
}

#[test]
fn test_process_path_file() {
    let input = file_input("/tmp/work/test.txt", "Hello World\n");
    let mut errors = String::new();

    let found = process_path(&cli(10, false, false), &input, &mut errors).unwrap();

    assert!(found.text.contains("**test.txt:**"));
    assert!(found.text.contains("Hello World"));
    assert_eq!(found.chars, 12);
    assert_eq!(found.words, 2);
    assert_eq!(found.non_empty_lines, 1);
}

#[test]
fn test_process_path_directory() {
    let input = flat_directory("/tmp/work", &[("file.txt", "Content\n")]);
    let mut errors = String::new();

    let found = process_path(&cli(10, false, false), &input, &mut errors).unwrap();

    assert!(found.text.contains("**file.txt:**"));
    assert_eq!(found.chars, 8);
    assert_eq!(found.words, 1);
    assert_eq!(found.non_empty_lines, 1);
}

#[test]
fn process_path_gives_nothing_for_other_kinds() {
    let input = PathInput::Other {
        path: entry_path("/dev/null"),
    };
    let mut errors = String::new();
    let found = process_path(&cli(10, false, false), &input, &mut errors).unwrap();
    assert_eq!(found.text, "");
    assert_eq!((found.chars, found.words, found.non_empty_lines), (0, 0, 0));
    assert_eq!(errors, "");

    let found = process_path(&cli(10, true, false), &input, &mut errors).unwrap();
    assert_eq!(found.text, "");
    assert_eq!(
        errors,
        "ERROR: Path '/dev/null' is neither a file nor a directory\n"
    );
}

#[test]
fn process_path_fails_for_a_file_that_cannot_be_read() {
    let mut errors = String::new();
    let result = process_path(
        &cli(10, true, false),
        &unreadable_input("/tmp/work/locked.txt"),
        &mut errors,
    );
    assert_eq!(result.unwrap_err(), TraversalError::NotReadable);
    assert_eq!(errors, "");

    let input = PathInput::File {
        path: entry_path("/tmp/work/blob.bin"),
        data: Some(vec![0x80]),
    };
    let result = process_path(&cli(10, true, false), &input, &mut errors);
    assert_eq!(result.unwrap_err(), TraversalError::NotUtf8OrDecodable);
}

#[test]
fn test_output_information_single_file() {
    let inputs = vec![file_input("/tmp/work/test.txt", "Hello\nWorld\n")];
    let mut errors = String::new();

    let info = output_information(&cli(10, false, true), &inputs, &mut errors);

    assert!(info.contains("Paths:"));
    assert!(info.contains("test.txt"));
    assert!(info.contains("Total Characters: 12"));
    assert!(info.contains("Total Words: 2"));
    assert!(info.contains("Total Non-Empty Lines: 2"));
}

#[test]
fn test_output_information_multiple_paths() {
    let inputs = vec![
        file_input("/tmp/work/file1.txt", "One\n"),
        file_input("/tmp/work/file2.txt", "Two Three\n"),
    ];
    let mut errors = String::new();

    let info = output_information(&cli(10, false, true), &inputs, &mut errors);

    assert!(info.contains("Total Characters: 14"));
    assert!(info.contains("Total Words: 3"));
    assert!(info.contains("Total Non-Empty Lines: 2"));
}

#[test]
fn test_output_information_directory() {
    let inputs = vec![flat_directory(
        "/tmp/work",
        &[("file1.txt", "A B\n"), ("file2.txt", "C D E\n")],
    )];
    let mut errors = String::new();

    let info = output_information(&cli(10, false, true), &inputs, &mut errors);

    assert!(info.contains("Total Characters: 10"));
    assert!(info.contains("Total Words: 5"));
    assert!(info.contains("Total Non-Empty Lines: 2"));
}

#[test]
fn test_output_information_empty_lines() {
    let inputs = vec![file_input("/tmp/work/test.txt", "Line1\n\n\nLine2\n")];
    let mut errors = String::new();

    let info = output_information(&cli(10, false, true), &inputs, &mut errors);

    assert!(info.contains("Total Non-Empty Lines: 2"));
}

#[test]
fn summary_of_a_single_file_is_exact() {
    let inputs = vec![file_input("/tmp/work/test.txt", "Test content\n")];
    let mut errors = String::new();
    let info = output_information(&cli(10, false, true), &inputs, &mut errors);
    assert_eq!(
        info,
        "Paths: /tmp/work/test.txt\nTotal Characters: 13\nTotal Words: 2\nTotal Non-Empty Lines: 1\n"
    );
    assert_eq!(errors, "");
}

#[test]
fn summary_lists_the_paths_in_the_order_given() {
    let inputs = vec![
        file_input("b.txt", "b\n"),
        flat_directory("some/dir", &[("x.txt", "x y\n")]),
        PathInput::Other {
            path: entry_path("/dev/null"),
        },
        file_input("a.txt", "a\n"),
    ];
    let mut errors = String::new();
    let info = output_information(&cli(10, false, true), &inputs, &mut errors);
    assert_eq!(
        info,
        "Paths: b.txt some/dir /dev/null a.txt\nTotal Characters: 8\nTotal Words: 4\nTotal Non-Empty Lines: 3\n"
    );
}

#[test]
fn summary_of_no_inputs_has_zero_totals() {
    let mut errors = String::new();
    let info = output_information(&cli(10, false, true), &vec![], &mut errors);
    assert_eq!(
        info,
        "Paths: \nTotal Characters: 0\nTotal Words: 0\nTotal Non-Empty Lines: 0\n"
    );
}

#[test]
fn summary_leaves_out_a_path_that_failed() {
    let inputs = vec![
        file_input("a.txt", "a\n"),
        unreadable_input("locked.txt"),
        file_input("b.txt", "b\n"),
    ];
    let mut errors = String::new();
    let info = output_information(&cli(10, true, true), &inputs, &mut errors);
    assert_eq!(
        info,
        "Paths: a.txt b.txt\nTotal Characters: 4\nTotal Words: 2\nTotal Non-Empty Lines: 2\n"
    );
    assert_eq!(
        errors,
        "ERROR gathering info for path locked.txt: Failed to read file locked.txt\n"
    );
}

#[test]
fn render_summary_writes_the_four_lines() {
    let result = AggregateResult {
        body: String::from("ignored"),
        total_chars: 1200,
        total_words: 340,
        total_non_empty_lines: 56,
        processed_paths: vec!["one".to_string(), "two".to_string()],
    };
    assert_eq!(
        render_summary(&result),
        "Paths: one two\nTotal Characters: 1200\nTotal Words: 340\nTotal Non-Empty Lines: 56\n"
    );
}

#[test]
fn body_joins_the_inputs_with_one_separator_each() {
    let inputs = vec![
        file_input("/tmp/work/file1.txt", "File 1\n"),
        file_input("/tmp/work/file2.txt", "File 2\n"),
    ];
    let mut errors = String::new();
    let body = output_content(&cli(10, false, false), &inputs, &mut errors);
    assert_eq!(
        body,
        format!(
            "**file1.txt:**\nFile 1\n\n{}**file2.txt:**\nFile 2\n\n",
            separator_line()
        )
    );
}

#[test]
fn body_keeps_the_order_of_the_inputs() {
    let inputs = vec![
        file_input("/tmp/work/z.txt", "Z\n"),
        flat_directory("/tmp/work/dir", &[("m.txt", "M\n"), ("a.txt", "A\n")]),
        file_input("/tmp/work/b.txt", "B\n"),
    ];
    let mut errors = String::new();
    let body = output_content(&cli(10, false, false), &inputs, &mut errors);
    let sep = separator_line();
    assert_eq!(
        body,
        format!(
            "**z.txt:**\nZ\n\n{sep}**m.txt:**\nM\n\n{sep}**a.txt:**\nA\n\n{sep}**b.txt:**\nB\n\n"
        )
    );
}

#[test]
fn separators_number_one_less_than_the_files() {
    let mut inputs: Vec<PathInput> = Vec::new();
    let mut files: usize = 0;
    let mut round: usize = 0;
    while round < 4 {
        let mut errors = String::new();
        let body = output_content(&cli(10, false, false), &inputs, &mut errors);
        assert_eq!(count_separator_lines(&body), files.saturating_sub(1));
        let brief = output_content(&cli(10, false, true), &inputs, &mut errors);
        assert_eq!(count_separator_lines(&brief), 0);
        assert_eq!(brief, "");
        inputs.push(file_input(&format!("f{}.txt", round), "text\n"));
        inputs.push(flat_directory(
            &format!("d{}", round),
            &[("a.txt", "a\n"), ("b.txt", "b\n")],
        ));
        inputs.push(flat_directory(&format!("e{}", round), &[]));
        files += 3;
        round += 1;
    }
}

#[test]
fn empty_contributions_draw_no_separator() {
    let inputs = vec![
        flat_directory("/tmp/empty1", &[]),
        file_input("/tmp/work/a.txt", "A\n"),
        PathInput::Other {
            path: entry_path("/dev/null"),
        },
        unreadable_input("/tmp/work/locked.txt"),
        flat_directory("/tmp/empty2", &[]),
        file_input("/tmp/work/b.txt", "B\n"),
        flat_directory("/tmp/empty3", &[]),
    ];
    let mut errors = String::new();
    let body = output_content(&cli(10, false, false), &inputs, &mut errors);
    assert_eq!(
        body,
        format!("**a.txt:**\nA\n\n{}**b.txt:**\nB\n\n", separator_line())
    );
    assert_eq!(errors, "");
}

#[test]
fn failed_input_is_reported_and_the_run_goes_on() {
    let inputs = vec![
        unreadable_input("/tmp/work/locked.txt"),
        file_input("/tmp/work/open.txt", "Readable\n"),
    ];
    let mut errors = String::new();
    let body = output_content(&cli(10, true, false), &inputs, &mut errors);
    assert_eq!(body, "**open.txt:**\nReadable\n\n");
    assert_eq!(
        errors,
        "ERROR processing path /tmp/work/locked.txt: Failed to read file /tmp/work/locked.txt\n"
    );
}

#[test]
fn reports_follow_the_order_of_the_inputs() {
    let inputs = vec![
        PathInput::Other {
            path: entry_path("/dev/null"),
        },
        PathInput::Directory {
            path: entry_path("/tmp/d"),
            entries: vec![
                WalkEntry::Failed {
                    message: "denied".to_string(),
                },
                WalkEntry::File {
                    path: entry_path("/tmp/d/x"),
                    depth: 1,
                    data: None,
                },
            ],
        },
        unreadable_input("gone.txt"),
    ];
    let mut errors = String::from("# ");
    let result = aggregate(&cli(10, true, false), &inputs, false, &mut errors);
    assert_eq!(result.body, "");
    assert_eq!(result.processed_paths, vec!["/dev/null", "/tmp/d"]);
    assert_eq!(
        errors,
        "# ERROR: Path '/dev/null' is neither a file nor a directory\n\
         ERROR: Failed to read entry in /tmp/d: denied\n\
         **/tmp/d/x:**\nERROR: Failed to process file: Failed to read file /tmp/d/x\n\
         ERROR processing path gone.txt: Failed to read file gone.txt\n"
    );
}

#[test]
fn totals_are_the_same_in_both_modes() {
    let inputs = vec![
        file_input("/tmp/work/a.txt", "alpha beta\n"),
        flat_directory(
            "/tmp/work/dir",
            &[("b.txt", "gamma\n\ndelta epsilon\n"), ("c.txt", "")],
        ),
        unreadable_input("/tmp/work/locked.txt"),
        PathInput::Other {
            path: entry_path("/dev/null"),
        },
    ];
    let mut errors = String::new();
    let full = aggregate(&cli(10, false, false), &inputs, false, &mut errors);
    let brief = aggregate(&cli(10, false, true), &inputs, true, &mut errors);
    assert_eq!(full.total_chars, 32);
    assert_eq!(full.total_words, 5);
    assert_eq!(full.total_non_empty_lines, 3);
    assert_eq!(brief.total_chars, full.total_chars);
    assert_eq!(brief.total_words, full.total_words);
    assert_eq!(brief.total_non_empty_lines, full.total_non_empty_lines);
    assert_eq!(brief.processed_paths, full.processed_paths);
    assert_eq!(brief.body, "");
    assert!(!full.body.is_empty());
}

#[test]
fn running_twice_gives_the_same_bytes() {
    let inputs = vec![
        file_input("/tmp/work/a.txt", "alpha beta\n"),
        flat_directory("/tmp/work/dir", &[("b.txt", "gamma\n"), ("c.txt", "")]),
        unreadable_input("/tmp/work/locked.txt"),
    ];
    for summary in [false, true] {
        let mut first_errors = String::new();
        let mut second_errors = String::new();
        let first = aggregate(&cli(10, true, summary), &inputs, summary, &mut first_errors);
        let second = aggregate(
            &cli(10, true, summary),
            &inputs.clone(),
            summary,
            &mut second_errors,
        );
        assert_eq!(first.body, second.body);
        assert_eq!(render_summary(&first), render_summary(&second));
        assert_eq!(first_errors, second_errors);
    }
}

#[test]
fn total_chars_is_the_total_of_the_run() {
    let inputs = vec![
        file_input("/tmp/work/a.txt", "alpha beta\n"),
        flat_directory(
            "/tmp/work/dir",
            &[("b.txt", "gamma\n\ndelta epsilon\n"), ("c.txt", "世界")],
        ),
        unreadable_input("/tmp/work/locked.txt"),
        PathInput::Other {
            path: entry_path("/dev/null"),
        },
    ];
    for summary in [false, true] {
        let options = cli(10, false, summary);
        let mut errors = String::new();
        let result = aggregate(&options, &inputs, summary, &mut errors);
        assert_eq!(result.total_chars, 34);
        assert_eq!(total_chars(&options, &inputs), Some(34));
    }
    assert_eq!(total_chars(&cli(0, false, false), &inputs), Some(11));
    assert_eq!(total_chars(&cli(10, false, false), &vec![]), Some(0));
}

#[test]
fn path_chars_counts_one_input() {
    let options = cli(10, false, false);
    assert_eq!(path_chars(&options, &file_input("a.txt", "héllo\n")), Some(6));
    assert_eq!(path_chars(&options, &unreadable_input("a.txt")), Some(0));
    assert_eq!(
        path_chars(
            &options,
            &flat_directory("d", &[("x", "12345"), ("y", "678")])
        ),
        Some(8)
    );
    assert_eq!(
        path_chars(
            &options,
            &PathInput::Other {
                path: entry_path("/dev/null")
            }
        ),
        Some(0)
    );
}
