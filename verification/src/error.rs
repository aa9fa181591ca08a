//! Errors of a transfer: a closed set of kinds, each with a chain of
//! human-readable messages that runs from the failed attempt down to its
//! first cause.

use vstd::prelude::*;

verus! {

/// What went wrong, by category.
#[derive(Clone, Copy, Debug, PartialEq, Eq, Structural)]
pub enum ErrorKind {
    /// The server answered with a status outside the success class.
    UpstreamStatus,
    /// A length or capability indicator of the response could not be used.
    MissingOrInvalidHeader,
    /// A local file could not be created, written, read or deleted.
    Io,
    /// The connection to the server failed.
    Transport,
    /// The requested split cannot be carried out.
    InvalidPlan,
    /// The address of the resource is not a URL.
    InvalidUrl,
}

/// A message, and optionally the error that caused it.
#[derive(Debug)]
pub struct ErrMsg {
    msg: String,
    source: Option<Box<ErrMsg>>,
}

impl View for ErrMsg {
    type V = Seq<Seq<char>>;

    /// The messages of the chain: this error's own first, then its
    /// cause's, down to the first cause.
    closed spec fn view(&self) -> Seq<Seq<char>> {
        self.chain()
    }
}

impl ErrMsg {
    spec fn chain(&self) -> Seq<Seq<char>>
        decreases self,
    {
        match self.source {
            None => seq![self.msg@],
            Some(cause) => seq![self.msg@] + cause.chain(),
        }
    }

    /// An error with the message `msg` and no cause.
    pub fn new(msg: &str) -> (err: Self)
        ensures
            err@ == seq![msg@],
    {
        ErrMsg { msg: msg.to_owned(), source: None }
    }

    /// An error with the message `msg` that `source` caused.
    pub fn with_source(msg: &str, source: Box<ErrMsg>) -> (err: Self)
        ensures
            err@ == seq![msg@] + source@,
    {
        ErrMsg { msg: msg.to_owned(), source: Some(source) }
    }

    /// A chain holds at least its own message.
    pub proof fn lemma_chain_nonempty(&self)
        ensures
            self@.len() >= 1,
    {
    }

    /// This error's own message, without those of its causes.
    pub fn message(&self) -> (text: String)
        ensures
            self@.len() >= 1,
            text@ == self@[0],
    {
        self.msg.clone()
    }

    /// The error that caused this one, if any.
    pub fn source(&self) -> (cause: Option<&ErrMsg>)
        ensures
            self@.len() >= 1,
            cause is None <==> self@.len() == 1,
            cause matches Some(c) ==> self@ == seq![self@[0]] + c@,
    {
        match &self.source {
            None => None,
            Some(cause) => {
                proof {
                    cause.lemma_chain_nonempty();
                }
                Some(&**cause)
            },
        }
    }
}

/// A failed transfer: its category and what was being attempted.
#[derive(Debug)]
pub struct TransferError {
    pub kind: ErrorKind,
    pub detail: ErrMsg,
}

impl TransferError {
    /// A failure of the category `kind` with the message `msg` and no
    /// cause.
    pub fn new(kind: ErrorKind, msg: &str) -> (err: Self)
        ensures
            err.kind == kind,
            err.detail@ == seq![msg@],
    {
        TransferError { kind, detail: ErrMsg::new(msg) }
    }

    /// A failure of the category `kind` with the message `msg`, which
    /// `cause` brought about.
    pub fn caused_by(kind: ErrorKind, msg: &str, cause: ErrMsg) -> (err: Self)
        ensures
            err.kind == kind,
            err.detail@ == seq![msg@] + cause@,
    {
        TransferError { kind, detail: ErrMsg::with_source(msg, Box::new(cause)) }
    }

    /// The same failure, with `msg` put before its messages to say what
    /// was being attempted.
    pub fn context(self, msg: &str) -> (err: Self)
        ensures
            err.kind == self.kind,
            err.detail@ == seq![msg@] + self.detail@,
    {
        TransferError { kind: self.kind, detail: ErrMsg::with_source(msg, Box::new(self.detail)) }
    }
}

} // verus!
