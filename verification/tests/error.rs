use zrglng::error::{ErrMsg, ErrorKind, TransferError};

fn chain(err: &ErrMsg) -> Vec<String> {
    let mut messages = vec![err.message()];
    let mut next = err.source();
    while let Some(cause) = next {
        messages.push(cause.message());
        next = cause.source();
    }
    messages
}

#[test]
fn new_error_has_a_message_and_no_cause() {
    let err = ErrMsg::new("disk full");
    assert_eq!(err.message(), "disk full");
    assert!(err.source().is_none());
}

#[test]
fn error_with_source_keeps_its_cause() {
    let err = ErrMsg::with_source("could not write", Box::new(ErrMsg::new("disk full")));
    assert_eq!(err.message(), "could not write");
    assert_eq!(err.source().unwrap().message(), "disk full");
    assert!(err.source().unwrap().source().is_none());
}

#[test]
fn chain_runs_from_attempt_to_first_cause() {
    let first = ErrMsg::new("connection reset");
    let second = ErrMsg::with_source("failed to read from body at byte 10", Box::new(first));
    let third = ErrMsg::with_source("one of the parts failed to download", Box::new(second));
    assert_eq!(
        chain(&third),
        vec![
            "one of the parts failed to download",
            "failed to read from body at byte 10",
            "connection reset"
        ]
    );
}

#[test]
fn empty_message_is_kept() {
    let err = ErrMsg::new("");
    assert_eq!(err.message(), "");
    assert_eq!(chain(&err).len(), 1);
}

#[test]
fn transfer_error_carries_kind_and_message() {
    let err = TransferError::new(ErrorKind::InvalidPlan, "cannot split");
    assert_eq!(err.kind, ErrorKind::InvalidPlan);
    assert_eq!(chain(&err.detail), vec!["cannot split"]);
}

#[test]
fn transfer_error_keeps_what_caused_it() {
    let err = TransferError::caused_by(ErrorKind::Io, "failed to create", ErrMsg::new("denied"));
    assert_eq!(err.kind, ErrorKind::Io);
    assert_eq!(chain(&err.detail), vec!["failed to create", "denied"]);
}

#[test]
fn context_goes_in_front_and_keeps_the_kind() {
    let err = TransferError::caused_by(ErrorKind::Transport, "send failed", ErrMsg::new("reset"))
        .context("failed to do HEAD request");
    assert_eq!(err.kind, ErrorKind::Transport);
    assert_eq!(chain(&err.detail), vec!["failed to do HEAD request", "send failed", "reset"]);
}
