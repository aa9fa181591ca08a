use zrglng::dest::names_a_file;
use zrglng::error::{ErrMsg, ErrorKind, TransferError};
use zrglng::fetch::{
    full_get, Fetch, FetchAction, FetchEvent, FetchPhase, PartResult, PartialGetter,
};
use zrglng::plan::RangeQuery;

fn messages(err: &TransferError) -> Vec<String> {
    let mut all = vec![err.detail.message()];
    let mut next = err.detail.source();
    while let Some(cause) = next {
        all.push(cause.message());
        next = cause.source();
    }
    all
}

fn part_fetch(idx: u64, start: u64, end: u64) -> Fetch {
    PartialGetter::new(RangeQuery { idx, start, end }, "http://example.test/file.bin", "file.bin")
        .get()
}

fn failure(action: FetchAction) -> TransferError {
    match action {
        FetchAction::Fail(err) => err,
        other => panic!("expected a failure, got {:?}", other),
    }
}

#[test]
fn temporary_file_is_hidden_and_named_by_index() {
    let getter = PartialGetter::new(
        RangeQuery { idx: 3, start: 750, end: 1000 },
        "http://example.test/file.bin",
        "file.bin",
    );
    assert_eq!(getter.dest, ".file.bin.part-3");
    assert_eq!(getter.url, "http://example.test/file.bin");
    assert_eq!(getter.range, RangeQuery { idx: 3, start: 750, end: 1000 });
}

#[test]
fn temporary_files_of_different_parts_differ() {
    let a = PartialGetter::new(RangeQuery { idx: 1, start: 0, end: 1 }, "u", "out");
    let b = PartialGetter::new(RangeQuery { idx: 11, start: 0, end: 1 }, "u", "out");
    assert_eq!(a.dest, ".out.part-1");
    assert_eq!(b.dest, ".out.part-11");
}

#[test]
fn range_header_names_first_and_last_byte() {
    let getter = PartialGetter::new(RangeQuery { idx: 0, start: 0, end: 250 }, "u", "d");
    assert_eq!(getter.range_header(), "bytes=0-249");
    let getter = PartialGetter::new(RangeQuery { idx: 2, start: 6, end: 10 }, "u", "d");
    assert_eq!(getter.range_header(), "bytes=6-9");
    let getter = PartialGetter::new(RangeQuery { idx: 0, start: 0, end: 1 }, "u", "d");
    assert_eq!(getter.range_header(), "bytes=0-0");
    let getter = PartialGetter::new(RangeQuery { idx: 9, start: 5, end: u64::MAX }, "u", "d");
    assert_eq!(getter.range_header(), "bytes=5-18446744073709551614");
}

#[test]
fn part_fetch_starts_with_its_request() {
    let fetch = part_fetch(2, 500, 750);
    assert_eq!(fetch.phase(), FetchPhase::Requesting);
    assert_eq!(fetch.url(), "http://example.test/file.bin");
    assert_eq!(fetch.range_header(), Some("bytes=500-749".to_string()));
    assert_eq!(fetch.sink(), ".file.bin.part-2");
    assert_eq!(fetch.received(), 0);
}

#[test]
fn whole_fetch_has_no_range_and_writes_to_the_destination() {
    let fetch = full_get("http://example.test/file.bin", "file.bin");
    assert_eq!(fetch.phase(), FetchPhase::Requesting);
    assert_eq!(fetch.range_header(), None);
    assert_eq!(fetch.sink(), "file.bin");
}

#[test]
fn part_fetch_runs_to_its_result() {
    let mut fetch = part_fetch(1, 250, 500);
    let action = fetch.step(FetchEvent::Responded { status: 206 });
    assert!(matches!(action, FetchAction::CreateSink));
    assert_eq!(fetch.phase(), FetchPhase::Opening);
    assert!(matches!(fetch.step(FetchEvent::Opened), FetchAction::ReadChunk));
    assert_eq!(fetch.phase(), FetchPhase::Reading);
    assert!(matches!(fetch.step(FetchEvent::Chunk { len: 100 }), FetchAction::WriteChunk));
    assert_eq!(fetch.phase(), FetchPhase::Writing);
    assert_eq!(fetch.received(), 100);
    assert!(matches!(fetch.step(FetchEvent::Written), FetchAction::ReadChunk));
    assert!(matches!(fetch.step(FetchEvent::Chunk { len: 150 }), FetchAction::WriteChunk));
    assert_eq!(fetch.received(), 250);
    assert!(matches!(fetch.step(FetchEvent::Written), FetchAction::ReadChunk));
    match fetch.step(FetchEvent::Ended) {
        FetchAction::Finish(result) => {
            assert_eq!(result, PartResult { idx: 1, location: ".file.bin.part-1".to_string() })
        }
        other => panic!("expected the result, got {:?}", other),
    }
    assert_eq!(fetch.phase(), FetchPhase::Done);
}

#[test]
fn whole_fetch_hands_in_the_destination() {
    let mut fetch = full_get("http://example.test/", "index.html");
    assert!(matches!(
        fetch.step(FetchEvent::Responded { status: 200 }),
        FetchAction::CreateSink
    ));
    assert!(matches!(fetch.step(FetchEvent::Opened), FetchAction::ReadChunk));
    match fetch.step(FetchEvent::Ended) {
        FetchAction::Finish(result) => {
            assert_eq!(result, PartResult { idx: 0, location: "index.html".to_string() })
        }
        other => panic!("expected the result, got {:?}", other),
    }
}

#[test]
fn bad_status_fails_a_part_before_any_file() {
    for status in [199u16, 300, 404, 416, 500] {
        let mut fetch = part_fetch(3, 750, 1000);
        let err = failure(fetch.step(FetchEvent::Responded { status }));
        assert_eq!(err.kind, ErrorKind::UpstreamStatus);
        assert_eq!(
            messages(&err),
            vec![
                "failed partial get #3 for range: 750..1000".to_string(),
                format!("invalid status code: {}", status)
            ]
        );
        assert_eq!(fetch.phase(), FetchPhase::Failed);
        assert!(matches!(fetch.step(FetchEvent::Opened), FetchAction::Ignore));
        assert_eq!(fetch.phase(), FetchPhase::Failed);
    }
}

#[test]
fn bad_status_fails_a_whole_fetch() {
    let mut fetch = full_get("http://example.test/", "index.html");
    let err = failure(fetch.step(FetchEvent::Responded { status: 503 }));
    assert_eq!(err.kind, ErrorKind::UpstreamStatus);
    assert_eq!(messages(&err), vec!["failed full get", "invalid status code: 503"]);
}

#[test]
fn failed_request_is_a_transport_error() {
    let mut fetch = part_fetch(0, 0, 250);
    let err = failure(fetch.step(FetchEvent::Broke(ErrMsg::new("connection refused"))));
    assert_eq!(err.kind, ErrorKind::Transport);
    assert_eq!(
        messages(&err),
        vec!["failed partial get #0 for range: 0..250", "connection refused"]
    );
    let mut fetch = full_get("u", "d");
    let err = failure(fetch.step(FetchEvent::Broke(ErrMsg::new("connection refused"))));
    assert_eq!(err.kind, ErrorKind::Transport);
    assert_eq!(messages(&err), vec!["failed full get", "connection refused"]);
}

#[test]
fn failed_creation_is_an_io_error() {
    let mut fetch = part_fetch(0, 0, 250);
    fetch.step(FetchEvent::Responded { status: 206 });
    let err = failure(fetch.step(FetchEvent::Broke(ErrMsg::new("permission denied"))));
    assert_eq!(err.kind, ErrorKind::Io);
    assert_eq!(
        messages(&err),
        vec!["failed to create tmp file at .file.bin.part-0", "permission denied"]
    );
}

#[test]
fn failed_read_is_a_transport_error_at_the_bytes_received() {
    let mut fetch = part_fetch(0, 0, 250);
    fetch.step(FetchEvent::Responded { status: 206 });
    fetch.step(FetchEvent::Opened);
    fetch.step(FetchEvent::Chunk { len: 64 });
    fetch.step(FetchEvent::Written);
    let cause = ErrMsg::with_source("body error", Box::new(ErrMsg::new("reset by peer")));
    let err = failure(fetch.step(FetchEvent::Broke(cause)));
    assert_eq!(err.kind, ErrorKind::Transport);
    assert_eq!(
        messages(&err),
        vec!["failed to read from body at byte 64", "body error", "reset by peer"]
    );
}

#[test]
fn failed_write_is_an_io_error_at_the_bytes_received() {
    let mut fetch = part_fetch(0, 0, 250);
    fetch.step(FetchEvent::Responded { status: 206 });
    fetch.step(FetchEvent::Opened);
    fetch.step(FetchEvent::Chunk { len: 64 });
    fetch.step(FetchEvent::Written);
    fetch.step(FetchEvent::Chunk { len: 36 });
    let err = failure(fetch.step(FetchEvent::Broke(ErrMsg::new("no space left"))));
    assert_eq!(err.kind, ErrorKind::Io);
    assert_eq!(messages(&err), vec!["failed to write to file at byte 100", "no space left"]);
    assert_eq!(fetch.phase(), FetchPhase::Failed);
}

#[test]
fn body_of_any_length_is_stored() {
    for lengths in [vec![], vec![1u64], vec![250], vec![200, 51], vec![1000, 1000, 1000]] {
        let mut fetch = part_fetch(1, 250, 500);
        assert!(matches!(
            fetch.step(FetchEvent::Responded { status: 200 }),
            FetchAction::CreateSink
        ));
        assert!(matches!(fetch.step(FetchEvent::Opened), FetchAction::ReadChunk));
        let mut total = 0;
        for len in lengths {
            assert!(matches!(fetch.step(FetchEvent::Chunk { len }), FetchAction::WriteChunk));
            assert!(matches!(fetch.step(FetchEvent::Written), FetchAction::ReadChunk));
            total += len;
            assert_eq!(fetch.received(), total);
        }
        match fetch.step(FetchEvent::Ended) {
            FetchAction::Finish(result) => {
                assert_eq!(result, PartResult { idx: 1, location: ".file.bin.part-1".to_string() })
            }
            other => panic!("expected the result, got {:?}", other),
        }
        assert_eq!(fetch.phase(), FetchPhase::Done);
    }
}

#[test]
fn whole_fetch_stores_a_body_of_any_length() {
    for lengths in [vec![], vec![7u64], vec![4096, 4096, 17]] {
        let mut fetch = full_get("http://example.test/", "index.html");
        assert!(matches!(
            fetch.step(FetchEvent::Responded { status: 200 }),
            FetchAction::CreateSink
        ));
        assert!(matches!(fetch.step(FetchEvent::Opened), FetchAction::ReadChunk));
        for len in lengths {
            assert!(matches!(fetch.step(FetchEvent::Chunk { len }), FetchAction::WriteChunk));
            assert!(matches!(fetch.step(FetchEvent::Written), FetchAction::ReadChunk));
        }
        assert!(matches!(fetch.step(FetchEvent::Ended), FetchAction::Finish(_)));
    }
}

#[test]
fn byte_count_stops_at_the_largest_number() {
    let mut fetch = part_fetch(0, 0, 250);
    fetch.step(FetchEvent::Responded { status: 206 });
    fetch.step(FetchEvent::Opened);
    assert!(matches!(
        fetch.step(FetchEvent::Chunk { len: u64::MAX - 1 }),
        FetchAction::WriteChunk
    ));
    fetch.step(FetchEvent::Written);
    assert_eq!(fetch.received(), u64::MAX - 1);
    assert!(matches!(fetch.step(FetchEvent::Chunk { len: 5 }), FetchAction::WriteChunk));
    assert_eq!(fetch.received(), u64::MAX);
    fetch.step(FetchEvent::Written);
    assert!(matches!(fetch.step(FetchEvent::Chunk { len: 1 }), FetchAction::WriteChunk));
    assert_eq!(fetch.received(), u64::MAX);
    fetch.step(FetchEvent::Written);
    assert!(matches!(fetch.step(FetchEvent::Ended), FetchAction::Finish(_)));
}

#[test]
fn temporary_file_name_is_a_bare_file_name() {
    for dest in ["file.bin", "a", ".hidden", "...", "with space", "b\\c"] {
        assert!(names_a_file(dest));
        for idx in [0u64, 7, u64::MAX] {
            let getter = PartialGetter::new(RangeQuery { idx, start: 0, end: 1 }, "u", dest);
            assert!(names_a_file(getter.dest.as_str()), "{:?}", getter.dest);
        }
    }
}

#[test]
fn events_out_of_turn_are_ignored() {
    let mut fetch = part_fetch(0, 0, 250);
    assert!(matches!(fetch.step(FetchEvent::Opened), FetchAction::Ignore));
    assert!(matches!(fetch.step(FetchEvent::Chunk { len: 1 }), FetchAction::Ignore));
    assert!(matches!(fetch.step(FetchEvent::Written), FetchAction::Ignore));
    assert!(matches!(fetch.step(FetchEvent::Ended), FetchAction::Ignore));
    assert_eq!(fetch.phase(), FetchPhase::Requesting);
    assert_eq!(fetch.received(), 0);
    fetch.step(FetchEvent::Responded { status: 200 });
    assert!(matches!(
        fetch.step(FetchEvent::Responded { status: 200 }),
        FetchAction::Ignore
    ));
    assert!(matches!(fetch.step(FetchEvent::Ended), FetchAction::Ignore));
    assert_eq!(fetch.phase(), FetchPhase::Opening);
    fetch.step(FetchEvent::Opened);
    assert!(matches!(fetch.step(FetchEvent::Written), FetchAction::Ignore));
    assert_eq!(fetch.phase(), FetchPhase::Reading);
    fetch.step(FetchEvent::Chunk { len: 3 });
    assert!(matches!(fetch.step(FetchEvent::Chunk { len: 3 }), FetchAction::Ignore));
    assert!(matches!(fetch.step(FetchEvent::Ended), FetchAction::Ignore));
    assert_eq!(fetch.received(), 3);
}

#[test]
fn finished_fetch_ignores_everything() {
    let mut fetch = full_get("u", "d");
    fetch.step(FetchEvent::Responded { status: 200 });
    fetch.step(FetchEvent::Opened);
    fetch.step(FetchEvent::Ended);
    assert_eq!(fetch.phase(), FetchPhase::Done);
    assert!(matches!(fetch.step(FetchEvent::Broke(ErrMsg::new("late"))), FetchAction::Ignore));
    assert!(matches!(fetch.step(FetchEvent::Ended), FetchAction::Ignore));
    assert_eq!(fetch.phase(), FetchPhase::Done);
}
