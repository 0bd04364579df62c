use git_image_review::{
    classify_code, get_changed_files_impl, is_image_file, launched, parse_status,
    parse_status_line,
    status_args, ChangeStatus, ChangedFile, CommandOutput, Invocation,
};

fn record(path: &str, filename: &str, status: &str) -> ChangedFile {
    ChangedFile {
        path: path.to_string(),
        filename: filename.to_string(),
        status: status.to_string(),
    }
}

fn finished(success: bool, stdout: &[u8], stderr: &[u8]) -> Invocation {
    Invocation::Completed(CommandOutput {
        success,
        stdout: stdout.to_vec(),
        stderr: stderr.to_vec(),
    })
}

#[test]
fn test_is_image_file_recognizes_common_formats() {
    assert!(is_image_file("photo.png"));
    assert!(is_image_file("photo.PNG"));
    assert!(is_image_file("photo.jpg"));
    assert!(is_image_file("photo.jpeg"));
    assert!(is_image_file("icon.svg"));
    assert!(is_image_file("animation.gif"));
    assert!(is_image_file("modern.webp"));
}

#[test]
fn test_is_image_file_rejects_non_images() {
    assert!(!is_image_file("code.rs"));
    assert!(!is_image_file("style.css"));
    assert!(!is_image_file("script.js"));
    assert!(!is_image_file("README.md"));
    assert!(!is_image_file("data.json"));
}

#[test]
fn image_check_knows_every_extension_of_the_list() {
    assert!(is_image_file("a.bmp"));
    assert!(is_image_file("a.ico"));
    assert!(is_image_file("dir/sub/a.Jpeg"));
    assert!(is_image_file(".png"));
}

#[test]
fn image_check_takes_capitals_and_small_letters_alike() {
    assert!(is_image_file("IMG.PNG"));
    assert!(is_image_file("img.png"));
    assert!(is_image_file("Img.PnG"));
    assert_eq!(is_image_file("NOTES.TXT"), is_image_file("notes.txt"));
}

#[test]
fn image_check_needs_the_dot_and_the_end_of_the_path() {
    assert!(!is_image_file("png"));
    assert!(!is_image_file("apng"));
    assert!(!is_image_file("a.png.txt"));
    assert!(!is_image_file("a.png "));
    assert!(!is_image_file("a.pn"));
    assert!(!is_image_file(""));
    assert!(!is_image_file("a.\u{212A}"));
    assert!(!is_image_file("a.\u{130}co"));
}

#[test]
fn code_table_gives_the_documented_status() {
    let table: [(&str, Option<ChangeStatus>); 14] = [
        ("M", Some(ChangeStatus::Modified)),
        (" M", Some(ChangeStatus::Modified)),
        ("MM", Some(ChangeStatus::Modified)),
        ("A", Some(ChangeStatus::Added)),
        (" A", Some(ChangeStatus::Added)),
        ("AM", Some(ChangeStatus::Added)),
        ("D", Some(ChangeStatus::Deleted)),
        (" D", Some(ChangeStatus::Deleted)),
        ("??", Some(ChangeStatus::Added)),
        ("R", Some(ChangeStatus::Modified)),
        (" R", Some(ChangeStatus::Modified)),
        ("", None),
        ("U", None),
        ("!!", None),
    ];
    for (code, expected) in table {
        let chars: Vec<char> = code.chars().collect();
        assert_eq!(classify_code(&chars), expected, "code {:?}", code);
    }
}

#[test]
fn status_words_are_the_three_of_the_data_model() {
    assert_eq!(ChangeStatus::Modified.label(), "modified");
    assert_eq!(ChangeStatus::Added.label(), "added");
    assert_eq!(ChangeStatus::Deleted.label(), "deleted");
}

#[test]
fn every_code_of_a_line_maps_as_the_table_says() {
    let cases = [
        ("M  a.png", "modified"),
        (" M a.png", "modified"),
        ("MM a.png", "modified"),
        ("A  a.png", "added"),
        (" A a.png", "added"),
        ("AM a.png", "added"),
        ("D  a.png", "deleted"),
        (" D a.png", "deleted"),
        ("?? a.png", "added"),
        ("R  a.png", "modified"),
        (" R a.png", "modified"),
    ];
    for (line, status) in cases {
        assert_eq!(
            parse_status_line(line),
            Some(record("a.png", "a.png", status)),
            "line {:?}",
            line
        );
    }
}

#[test]
fn lines_with_other_codes_give_no_record() {
    for line in ["UU a.png", "!! a.png", "C  a.png", "DD a.png", "   a.png", "T  a.png", "RM a.png"] {
        assert_eq!(parse_status_line(line), None, "line {:?}", line);
    }
}

#[test]
fn short_lines_give_no_record() {
    assert_eq!(parse_status_line(""), None);
    assert_eq!(parse_status_line("M"), None);
    assert_eq!(parse_status_line(" M"), None);
    assert_eq!(parse_status_line("M  "), None);
}

#[test]
fn line_length_is_counted_in_characters() {
    assert_eq!(parse_status_line("\u{e9}\u{e9}"), None);
    assert_eq!(
        parse_status_line(" M\u{e9}x.png"),
        Some(record("x.png", "x.png", "modified"))
    );
}

#[test]
fn path_is_trimmed_and_file_name_is_its_last_segment() {
    assert_eq!(
        parse_status_line(" M   assets/icons/logo.SVG \t"),
        Some(record("assets/icons/logo.SVG", "logo.SVG", "modified"))
    );
    assert_eq!(
        parse_status_line("?? top.gif"),
        Some(record("top.gif", "top.gif", "added"))
    );
}

#[test]
fn renamed_file_is_reported_as_modified_with_the_whole_text_as_path() {
    assert_eq!(
        parse_status_line("R  old/a.png -> new/b.png"),
        Some(record("old/a.png -> new/b.png", "b.png", "modified"))
    );
}

#[test]
fn clean_working_copy_gives_no_records() {
    assert_eq!(parse_status(""), Vec::<ChangedFile>::new());
    let result = get_changed_files_impl("/repo", finished(true, b"", b""));
    assert!(result.is_ok(), "Expected Ok result, got {:?}", result);
    assert!(result.unwrap().is_empty(), "Expected empty list for clean repo");
}

#[test]
fn modified_tracked_image_gives_one_record() {
    let result = get_changed_files_impl("/repo", finished(true, b" M test.png\n", b""));
    assert!(result.is_ok(), "Expected Ok result, got {:?}", result);
    let files = result.unwrap();
    assert_eq!(files.len(), 1, "Expected 1 changed file");
    assert_eq!(files[0].path, "test.png");
    assert_eq!(files[0].filename, "test.png");
    assert_eq!(files[0].status, "modified");
}

#[test]
fn untracked_image_gives_one_added_record() {
    let result = get_changed_files_impl("/repo", finished(true, b"?? new.jpg\n", b""));
    let files = result.unwrap();
    assert_eq!(files.len(), 1, "Expected 1 new file");
    assert_eq!(files[0].path, "new.jpg");
    assert_eq!(files[0].status, "added");
}

#[test]
fn changed_file_that_is_no_image_gives_no_record() {
    let result = get_changed_files_impl("/repo", finished(true, b"?? code.rs\n", b""));
    let files = result.unwrap();
    assert!(files.is_empty(), "Expected no files (code.rs should be ignored)");
}

#[test]
fn records_come_in_the_order_of_the_lines() {
    let text = " M b.png\n?? notes.txt\nXY c.png\nD  a/b/c.ico\r\n\nA  z.webp";
    assert_eq!(
        parse_status(text),
        vec![
            record("b.png", "b.png", "modified"),
            record("a/b/c.ico", "c.ico", "deleted"),
            record("z.webp", "z.webp", "added"),
        ]
    );
}

#[test]
fn carriage_return_ends_a_line_only_before_a_line_feed() {
    assert_eq!(
        parse_status("?? a.png\r\n?? b.png\r"),
        vec![record("a.png", "a.png", "added"), record("b.png", "b.png", "added")]
    );
    assert_eq!(parse_status("?? a.png\rM  b.png\n"), vec![record("a.png\rM  b.png", "a.png\rM  b.png", "added")]);
}

#[test]
fn missing_repository_is_a_failure() {
    assert_eq!(
        get_changed_files_impl("/no/such/repo", Invocation::PathMissing),
        Err("Repository path does not exist: /no/such/repo".to_string())
    );
}

#[test]
fn tool_that_cannot_start_is_a_failure() {
    assert_eq!(
        get_changed_files_impl(
            "/repo",
            Invocation::SpawnFailed("No such file or directory (os error 2)".to_string())
        ),
        Err("Failed to run git status: No such file or directory (os error 2)".to_string())
    );
}

#[test]
fn unsuccessful_status_run_is_a_failure_with_the_tools_words() {
    assert_eq!(
        get_changed_files_impl(
            "/repo",
            finished(false, b" M test.png\n", b"fatal: not a git repository\n")
        ),
        Err("git status failed: fatal: not a git repository\n".to_string())
    );
}

#[test]
fn malformed_bytes_in_the_output_become_replacement_characters() {
    assert_eq!(
        get_changed_files_impl("/repo", finished(false, b"", b"bad \xff byte")),
        Err("git status failed: bad \u{fffd} byte".to_string())
    );
    assert_eq!(
        get_changed_files_impl("/repo", finished(true, b"?? a\xffb.png\n", b"")),
        Ok(vec![record("a\u{fffd}b.png", "a\u{fffd}b.png", "added")])
    );
}

#[test]
fn status_query_is_asked_in_porcelain_form() {
    assert_eq!(status_args(), vec!["status".to_string(), "--porcelain".to_string()]);
}

#[test]
fn run_that_finished_hands_its_output_on() {
    let output = CommandOutput { success: false, stdout: vec![1, 2], stderr: vec![3] };
    assert_eq!(
        launched("/repo", "status", Invocation::Completed(output.clone())),
        Ok(output)
    );
    assert_eq!(
        launched("/repo", "log", Invocation::SpawnFailed("denied".to_string())),
        Err("Failed to run git log: denied".to_string())
    );
    assert_eq!(
        launched("/repo", "show", Invocation::PathMissing),
        Err("Repository path does not exist: /repo".to_string())
    );
}
