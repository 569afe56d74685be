use filescan::indexer::FileMetadata;
use filescan::preview::{decode_preview, highlight_literal, FilePreview};
use filescan::searcher::ContentSearcher;
use filescan::text::{contains, eq_ignore_ascii_case};

#[test]
fn test_file_metadata() {
    let metadata = FileMetadata {
        path: "/tmp/test.txt".to_string(),
        name: "test.txt".to_string(),
        extension: Some("txt".to_string()),
        size: 13,
        modified_time: 0,
    };
    assert_eq!(metadata.name, "test.txt");
    assert_eq!(metadata.extension, Some("txt".to_string()));
    assert_eq!(metadata.size, 13);
    assert_eq!("Hello, world!".len(), 13);
}

#[test]
fn test_file_preview() {
    let preview = decode_preview(b"Hello, world! This is a test file.").unwrap();
    assert!(preview.contains("Hello, world!"));
    assert_eq!(preview, "Hello, world! This is a test file.");
}

#[test]
fn preview_rejects_invalid_utf8() {
    assert_eq!(decode_preview(&[0x66, 0xff, 0x66]).unwrap_err(), "Failed to read file content");
    assert_eq!(decode_preview("héllo".as_bytes()).unwrap(), "héllo");
}

#[test]
fn test_content_highlighting() {
    let previewer = FilePreview::new();
    let content = "Hello, world! This is a test.";
    let highlighted = previewer.highlight_content(content, "test");
    assert!(highlighted.contains("<mark>test</mark>"));
    assert_eq!(highlighted, "Hello, world! This is a <mark>test</mark>.");
}

#[test]
fn highlighting_matches_str_replace() {
    for (content, query) in [
        ("aaa", "aa"),
        ("ab", ""),
        ("", ""),
        ("", "x"),
        ("Test test TEST", "test"),
        ("xyx", "x"),
        ("ünï ünï", "nï"),
    ] {
        let expected = content.replace(query, &format!("<mark>{}</mark>", query));
        assert_eq!(highlight_literal(content, query), expected);
    }
}

#[test]
fn test_content_search() {
    let searcher = ContentSearcher::new();
    let bytes = b"Hello, world! This is a test file.";
    assert!(searcher.file_matches(bytes, "test"));
    assert!(!searcher.file_matches(bytes, "nonexistent"));
    assert!(!searcher.file_matches(&[0xff, 0xfe], ""));
    assert!(searcher.content_matches("abc", ""));
}

#[test]
fn text_helpers() {
    assert!(contains("hello", "ell"));
    assert!(!contains("hello", "Ell"));
    assert!(!contains("he", "hello"));
    assert!(contains("", ""));
    assert!(eq_ignore_ascii_case("Cache", "cACHE"));
    assert!(!eq_ignore_ascii_case("Cache", "Caches"));
    assert!(!eq_ignore_ascii_case("É", "é"));
}
