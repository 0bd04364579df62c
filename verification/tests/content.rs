use base64::engine::general_purpose::STANDARD;
use base64::Engine;
use git_image_review::{
    encode_content, fits_encoding, get_file_at_commit_impl, get_file_at_head_impl,
    head_show_args, show_args, CommandOutput, Invocation,
};

fn finished(success: bool, stdout: &[u8], stderr: &[u8]) -> Invocation {
    Invocation::Completed(CommandOutput {
        success,
        stdout: stdout.to_vec(),
        stderr: stderr.to_vec(),
    })
}

#[test]
fn encoding_follows_the_standard_alphabet_with_padding() {
    assert_eq!(encode_content(b""), "");
    assert_eq!(encode_content(b"f"), "Zg==");
    assert_eq!(encode_content(b"fo"), "Zm8=");
    assert_eq!(encode_content(b"foo"), "Zm9v");
    assert_eq!(encode_content(b"foob"), "Zm9vYg==");
    assert_eq!(encode_content(b"fooba"), "Zm9vYmE=");
    assert_eq!(encode_content(b"foobar"), "Zm9vYmFy");
    assert_eq!(encode_content(&[0xfb, 0xff]), "+/8=");
    assert_eq!(encode_content(&[0xff, 0xff, 0xff]), "////");
    assert_eq!(encode_content(&[0x00, 0x00, 0x00]), "AAAA");
}

#[test]
fn encoded_length_is_four_characters_for_each_three_bytes_begun() {
    for n in 0..100usize {
        let bytes = vec![0xa5u8; n];
        assert_eq!(encode_content(&bytes).len(), 4 * ((n + 2) / 3));
    }
}

#[test]
fn decoding_gives_the_bytes_back() {
    let mut bytes: Vec<u8> = Vec::new();
    for n in 0..600u32 {
        let text = encode_content(&bytes);
        let decoded = STANDARD.decode(&text).expect("Failed to decode base64");
        assert_eq!(decoded, bytes, "Decoded bytes should equal the content");
        bytes.push((n * 37 % 256) as u8);
    }
}

#[test]
fn every_length_a_buffer_can_have_fits() {
    assert!(fits_encoding(0));
    assert!(fits_encoding(1));
    assert!(fits_encoding(isize::MAX as usize));
    assert!(fits_encoding(usize::MAX / 4 * 3));
    assert!(!fits_encoding(usize::MAX / 4 * 3 + 1));
    assert!(!fits_encoding(usize::MAX));
}

#[test]
fn content_at_head_is_encoded() {
    let content = b"test image content";
    let result = get_file_at_head_impl("/repo", finished(true, content, b""));

    assert!(result.is_ok(), "Expected Ok result, got {:?}", result);
    let base64_content = result.unwrap();
    assert_eq!(base64_content, "dGVzdCBpbWFnZSBjb250ZW50");
    let decoded = STANDARD.decode(&base64_content).expect("Failed to decode base64");
    assert_eq!(decoded, content, "Decoded bytes should equal the content");
}

#[test]
fn content_at_commit_is_encoded() {
    let initial_content = b"initial image content";
    let result = get_file_at_commit_impl("/repo", "8a5cbc4", finished(true, initial_content, b""));

    assert!(result.is_ok(), "Expected Ok result, got {:?}", result);
    let decoded = STANDARD.decode(result.unwrap()).expect("Failed to decode base64");
    assert_eq!(decoded, initial_content, "Content at first commit should match initial content");
}

#[test]
fn binary_content_survives() {
    let content: Vec<u8> = (0..=255u8).collect();
    let text = get_file_at_head_impl("/repo", finished(true, &content, b"")).unwrap();
    assert_eq!(STANDARD.decode(text).unwrap(), content);
}

#[test]
fn file_never_committed_is_not_at_head() {
    let stderr = b"fatal: path 'new.png' exists on disk, but not in 'HEAD'\n";
    let result = get_file_at_head_impl("/repo", finished(false, b"", stderr));

    assert!(result.is_err(), "Expected error for file not in HEAD");
    assert_eq!(
        result,
        Err("File does not exist at HEAD: fatal: path 'new.png' exists on disk, but not in 'HEAD'\n"
            .to_string())
    );
}

#[test]
fn file_missing_at_commit_names_the_commit() {
    let result = get_file_at_commit_impl(
        "/repo",
        "8a5cbc4",
        finished(false, b"", b"fatal: path 'x.png' does not exist in '8a5cbc4'\n"),
    );

    assert_eq!(
        result,
        Err("File does not exist at commit 8a5cbc4: fatal: path 'x.png' does not exist in '8a5cbc4'\n"
            .to_string())
    );
}

#[test]
fn content_of_missing_repository_is_a_failure() {
    assert_eq!(
        get_file_at_head_impl("/gone", Invocation::PathMissing),
        Err("Repository path does not exist: /gone".to_string())
    );
    assert_eq!(
        get_file_at_commit_impl("/gone", "abc", Invocation::PathMissing),
        Err("Repository path does not exist: /gone".to_string())
    );
}

#[test]
fn content_when_tool_cannot_start_is_a_failure() {
    assert_eq!(
        get_file_at_head_impl("/repo", Invocation::SpawnFailed("not found".to_string())),
        Err("Failed to run git show: not found".to_string())
    );
    assert_eq!(
        get_file_at_commit_impl("/repo", "abc", Invocation::SpawnFailed("not found".to_string())),
        Err("Failed to run git show: not found".to_string())
    );
}

#[test]
fn content_query_addresses_a_path_at_a_revision() {
    assert_eq!(
        head_show_args("img/a.png"),
        vec!["show".to_string(), "HEAD:img/a.png".to_string()]
    );
    assert_eq!(
        show_args("8a5cbc4", "img/a.png"),
        vec!["show".to_string(), "8a5cbc4:img/a.png".to_string()]
    );
}
