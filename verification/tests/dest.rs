use zrglng::dest::{dest_from_segments, dest_from_url, names_a_file};
use zrglng::error::ErrorKind;

fn names(segments: &[&str]) -> Option<Vec<String>> {
    Some(segments.iter().map(|s| s.to_string()).collect())
}

#[test]
fn last_segment_names_the_file() {
    assert_eq!(dest_from_segments(&names(&["file.bin"])), "file.bin");
    assert_eq!(dest_from_segments(&names(&["a", "b", "c.tar.gz"])), "c.tar.gz");
}

#[test]
fn empty_last_segment_gives_the_default() {
    assert_eq!(dest_from_segments(&names(&[""])), "index.html");
    assert_eq!(dest_from_segments(&names(&["dir", ""])), "index.html");
}

#[test]
fn no_segments_give_the_default() {
    assert_eq!(dest_from_segments(&None), "index.html");
    assert_eq!(dest_from_segments(&names(&[])), "index.html");
}

#[test]
fn url_is_named_after_its_last_path_segment() {
    assert_eq!(dest_from_url("http://example.test/file.bin").unwrap(), "file.bin");
    assert_eq!(dest_from_url("https://example.com/a/b/c.iso?x=1#top").unwrap(), "c.iso");
    assert_eq!(dest_from_url("https://example.com/foo/bar").unwrap(), "bar");
}

#[test]
fn url_without_a_file_gets_the_default_name() {
    assert_eq!(dest_from_url("https://example.com").unwrap(), "index.html");
    assert_eq!(dest_from_url("https://example.com/").unwrap(), "index.html");
    assert_eq!(dest_from_url("https://example.com/dir/").unwrap(), "index.html");
}

#[test]
fn url_that_cannot_be_a_base_gets_the_default_name() {
    assert_eq!(dest_from_url("data:text/plain,HelloWorld").unwrap(), "index.html");
    assert_eq!(dest_from_url("mailto:someone@example.com").unwrap(), "index.html");
}

#[test]
fn segment_stays_percent_encoded() {
    assert_eq!(dest_from_url("https://example.com/a%20b.txt").unwrap(), "a%20b.txt");
    assert_eq!(dest_from_url("https://example.com/a b.txt").unwrap(), "a%20b.txt");
}

#[test]
fn text_that_is_no_url_is_refused() {
    for text in ["", "file.bin", "/just/a/path", "http://", "http://[::1"] {
        let err = dest_from_url(text).unwrap_err();
        assert_eq!(err.kind, ErrorKind::InvalidUrl, "input {:?}", text);
        assert_eq!(err.detail.message(), "invalid URL");
        let cause = err.detail.source().unwrap();
        assert!(!cause.message().is_empty());
        assert!(cause.source().is_none());
    }
}

#[test]
fn refusal_says_what_the_parser_said() {
    let err = dest_from_url("file.bin").unwrap_err();
    assert_eq!(err.detail.source().unwrap().message(), "relative URL without a base");
}

#[test]
fn bare_names_are_file_names() {
    for name in ["file.bin", "a", ".hidden", "..a", "a..", "...", ". ", "index.html", "a b", "\u{e9}t\u{e9}"] {
        assert!(names_a_file(name), "{:?}", name);
    }
}

#[test]
fn empty_text_is_no_file_name() {
    assert!(!names_a_file(""));
}

#[test]
fn directory_names_are_no_file_names() {
    assert!(!names_a_file("."));
    assert!(!names_a_file(".."));
}

#[test]
fn text_with_a_separator_is_no_file_name() {
    for name in ["out/file.bin", "/", "/file.bin", "file.bin/", "a/b/c", "./a", "../a", "\u{e9}/x"] {
        assert!(!names_a_file(name), "{:?}", name);
    }
}

#[test]
fn names_taken_from_urls_are_file_names() {
    for url in ["http://example.test/file.bin", "https://example.com", "https://example.com/a/b/"] {
        assert!(names_a_file(dest_from_url(url).unwrap().as_str()));
    }
}
