use zrglng::error::ErrorKind;
use zrglng::probe::{file_info, is_bytes_token, status_is_success, FileInfo};

#[test]
fn success_is_the_two_hundreds() {
    assert!(!status_is_success(0));
    assert!(!status_is_success(199));
    assert!(status_is_success(200));
    assert!(status_is_success(206));
    assert!(status_is_success(299));
    assert!(!status_is_success(300));
    assert!(!status_is_success(404));
    assert!(!status_is_success(u16::MAX));
}

#[test]
fn only_the_exact_token_counts() {
    assert!(is_bytes_token(b"bytes"));
    assert!(!is_bytes_token(b"Bytes"));
    assert!(!is_bytes_token(b"BYTES"));
    assert!(!is_bytes_token(b"bytes "));
    assert!(!is_bytes_token(b" bytes"));
    assert!(!is_bytes_token(b"byte"));
    assert!(!is_bytes_token(b"none"));
    assert!(!is_bytes_token(b""));
    assert!(!is_bytes_token(b"bytes, none"));
}

#[test]
fn reads_length_and_range_support() {
    let info = file_info(200, Some(b"1000"), Some(b"bytes")).unwrap();
    assert_eq!(info, FileInfo { content_length: 1000, supports_range: true });
}

#[test]
fn absent_capability_means_no_ranges() {
    let info = file_info(200, Some(b"1000"), None).unwrap();
    assert_eq!(info, FileInfo { content_length: 1000, supports_range: false });
}

#[test]
fn other_capability_means_no_ranges() {
    for value in [&b"none"[..], b"Bytes", b"bytes;q=1", b"", b"items"] {
        let info = file_info(200, Some(b"5"), Some(value)).unwrap();
        assert_eq!(info, FileInfo { content_length: 5, supports_range: false });
    }
}

#[test]
fn absent_length_means_zero() {
    let info = file_info(204, None, Some(b"bytes")).unwrap();
    assert_eq!(info, FileInfo { content_length: 0, supports_range: true });
}

#[test]
fn bad_status_is_an_upstream_error() {
    for status in [100u16, 199, 301, 404, 416, 500] {
        let err = file_info(status, Some(b"1000"), Some(b"bytes")).unwrap_err();
        assert_eq!(err.kind, ErrorKind::UpstreamStatus);
        assert_eq!(err.detail.message(), "invalid status code");
        assert!(err.detail.source().is_none());
    }
}

#[test]
fn bad_status_comes_before_a_bad_length() {
    let err = file_info(500, Some(b"many"), None).unwrap_err();
    assert_eq!(err.kind, ErrorKind::UpstreamStatus);
}

#[test]
fn unreadable_length_is_a_header_error() {
    for value in [&b"many"[..], b"", b"-1", b"1 000", b"18446744073709551616", &[0xff, 0x31]] {
        let err = file_info(200, Some(value), Some(b"bytes")).unwrap_err();
        assert_eq!(err.kind, ErrorKind::MissingOrInvalidHeader);
        assert_eq!(err.detail.message(), "invalid content-length header");
        assert!(err.detail.source().is_none());
    }
}
