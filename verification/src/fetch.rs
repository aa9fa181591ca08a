//! Fetching: one part of the resource into a temporary file, or the whole
//! resource into the destination.
//!
//! A fetch is run from outside: the caller sends the request, creates the
//! file and moves the chunks, and reports each step to the [`Fetch`], which
//! says what to do next.

use crate::decimal::{decimal, lemma_decimal_shape, lemma_decimal_tells_apart, push_decimal};
use crate::dest::is_file_name;
use crate::error::{ErrMsg, ErrorKind, TransferError};
use crate::plan::RangeQuery;
use crate::probe::{is_success, status_is_success};
use vstd::prelude::*;

verus! {

/// The bytes retrieved for one part: which part, and the file that holds
/// them.
#[derive(Debug, PartialEq, Eq)]
pub struct PartResult {
    pub idx: u64,
    pub location: String,
}

/// The name of the temporary file of part `idx` of a download to the file
/// named `dest`: hidden by a leading dot, and told apart by the index.
pub open spec fn part_file_name(dest: Seq<char>, idx: u64) -> Seq<char> {
    "."@ + dest + ".part-"@ + decimal(idx as nat)
}

/// The range selector of a request for the bytes `[start, end)`: the first
/// and the last byte wanted, both counted in.
pub open spec fn range_selector(start: u64, end: u64) -> Seq<char>
    recommends
        end > 0,
{
    "bytes="@ + decimal(start as nat) + "-"@ + decimal((end - 1) as nat)
}

/// What a request is called in the messages of its failure.
pub open spec fn request_label(part: Option<RangeQuery>) -> Seq<char> {
    match part {
        Some(range) => "failed partial get #"@ + decimal(range.idx as nat) + " for range: "@
            + decimal(range.start as nat) + ".."@ + decimal(range.end as nat),
        None => "failed full get"@,
    }
}

/// The message for a status outside the success class.
pub open spec fn status_message(status: u16) -> Seq<char> {
    "invalid status code: "@ + decimal(status as nat)
}

/// The message for a file that could not be created.
pub open spec fn sink_message(sink: Seq<char>) -> Seq<char> {
    "failed to create tmp file at "@ + sink
}

/// The message for a body that broke off after `at` bytes.
pub open spec fn read_message(at: u64) -> Seq<char> {
    "failed to read from body at byte "@ + decimal(at as nat)
}

/// The message for a write that failed with `at` bytes received.
pub open spec fn write_message(at: u64) -> Seq<char> {
    "failed to write to file at byte "@ + decimal(at as nat)
}

/// The state in which a fetch starts: the request for `part`, or for the
/// whole resource where there is none, is on its way to `url`, and the
/// bytes will go to the file `sink`.
pub open spec fn started(part: Option<RangeQuery>, url: Seq<char>, sink: Seq<char>) -> FetchView {
    FetchView {
        part,
        url,
        range_header: match part {
            Some(range) => Some(range_selector(range.start, range.end)),
            None => None,
        },
        sink,
        phase: FetchPhase::Requesting,
        received: 0,
    }
}

/// The fetch of one part, not yet started.
#[derive(Debug)]
pub struct PartialGetter {
    /// The bytes to fetch.
    pub range: RangeQuery,
    /// Where the resource is.
    pub url: String,
    /// The name of the temporary file that will hold the bytes.
    pub dest: String,
}

impl PartialGetter {
    /// The fetch of `range` from `url`, for a download to the file named
    /// `dest`, which must be a bare file name. The bytes will go to a
    /// temporary file beside it.
    pub fn new(range: RangeQuery, url: &str, dest: &str) -> (getter: Self)
        requires
            is_file_name(dest@),
        ensures
            getter.range == range,
            getter.url@ == url@,
            getter.dest@ == part_file_name(dest@, range.idx),
            is_file_name(getter.dest@),
    {
        proof {
            lemma_part_file_is_beside(dest@, range.idx);
        }
        let mut name = ".".to_owned();
        name.append(dest);
        name.append(".part-");
        push_decimal(&mut name, range.idx);
        PartialGetter { range, url: url.to_owned(), dest: name }
    }

    /// The value of the range header of the request.
    pub fn range_header(&self) -> (header: String)
        requires
            self.range.end > 0,
        ensures
            header@ == range_selector(self.range.start, self.range.end),
    {
        let mut header = "bytes=".to_owned();
        push_decimal(&mut header, self.range.start);
        header.append("-");
        push_decimal(&mut header, self.range.end - 1);
        header
    }

    /// Starts the fetch: the request is to be sent next.
    pub fn get(self) -> (fetch: Fetch)
        requires
            self.range.end > 0,
        ensures
            fetch@ == started(Some(self.range), self.url@, self.dest@),
    {
        let header = self.range_header();
        Fetch {
            part: Some(self.range),
            url: self.url,
            range_header: Some(header),
            sink: self.dest,
            phase: FetchPhase::Requesting,
            received: 0,
        }
    }
}

/// Starts the fetch of the whole resource at `url` straight into the file
/// named `dest`, which must be a bare file name: the request is to be sent
/// next.
pub fn full_get(url: &str, dest: &str) -> (fetch: Fetch)
    requires
        is_file_name(dest@),
    ensures
        fetch@ == started(None, url@, dest@),
{
    Fetch {
        part: None,
        url: url.to_owned(),
        range_header: None,
        sink: dest.to_owned(),
        phase: FetchPhase::Requesting,
        received: 0,
    }
}

/// How far a fetch has come.
#[derive(Debug, Clone, Copy, PartialEq, Eq, Structural)]
pub enum FetchPhase {
    /// The request is on its way.
    Requesting,
    /// The status was accepted; the file is being created.
    Opening,
    /// The next chunk of the body is being read.
    Reading,
    /// The chunk last read is being written to the file.
    Writing,
    /// The body ended and all of it is in the file.
    Done,
    /// The fetch failed.
    Failed,
}

/// What happened outside since the fetch last said what to do.
#[derive(Debug)]
pub enum FetchEvent {
    /// The server answered with this status.
    Responded { status: u16 },
    /// The file was created.
    Opened,
    /// A chunk of `len` bytes was read from the body.
    Chunk { len: u64 },
    /// The chunk was written to the file.
    Written,
    /// The body has ended.
    Ended,
    /// What was being done failed, for this reason.
    Broke(ErrMsg),
}

/// What is to be done next for a fetch.
#[derive(Debug)]
pub enum FetchAction {
    /// Create the file, or empty it where it exists.
    CreateSink,
    /// Read the next chunk of the body.
    ReadChunk,
    /// Write the chunk last read to the end of the file.
    WriteChunk,
    /// Nothing more: the bytes are in the file.
    Finish(PartResult),
    /// Nothing more: the fetch failed.
    Fail(TransferError),
    /// Nothing: the fetch was not waiting for this.
    Ignore,
}

/// A fetch as contracts see it.
pub struct FetchView {
    /// The range wanted; none for the whole resource.
    pub part: Option<RangeQuery>,
    /// Where the resource is.
    pub url: Seq<char>,
    /// The value of the request's range header, if it has one.
    pub range_header: Option<Seq<char>>,
    /// The name of the file that receives the bytes.
    pub sink: Seq<char>,
    /// How far the fetch has come.
    pub phase: FetchPhase,
    /// The number of bytes read from the body so far; it stops at the
    /// largest number that it can hold.
    pub received: u64,
}

/// An action as contracts see it.
pub enum FetchActionView {
    CreateSink,
    ReadChunk,
    WriteChunk,
    Finish { idx: u64, location: Seq<char> },
    Fail { kind: ErrorKind, detail: Seq<Seq<char>> },
    Ignore,
}

impl View for FetchAction {
    type V = FetchActionView;

    open spec fn view(&self) -> FetchActionView {
        match self {
            FetchAction::CreateSink => FetchActionView::CreateSink,
            FetchAction::ReadChunk => FetchActionView::ReadChunk,
            FetchAction::WriteChunk => FetchActionView::WriteChunk,
            FetchAction::Finish(result) => FetchActionView::Finish {
                idx: result.idx,
                location: result.location@,
            },
            FetchAction::Fail(err) => FetchActionView::Fail { kind: err.kind, detail: err.detail@ },
            FetchAction::Ignore => FetchActionView::Ignore,
        }
    }
}

/// The index under which a fetch hands in its bytes: that of its part, or
/// zero for the whole resource.
pub open spec fn result_index(part: Option<RangeQuery>) -> u64 {
    match part {
        Some(range) => range.idx,
        None => 0,
    }
}

/// What a fetch in the state `pre` answers to `event`.
///
/// A status outside the success class fails the fetch before any file is
/// touched. On a success status the file is created and the body is moved
/// into it chunk by chunk, each written before the next is read, whatever
/// its length, until it ends. A failure reported from outside fails the
/// fetch with a message that says what was being done, before the
/// messages of the cause: a failed request or read is a `Transport`
/// error, a failed creation or write an `Io` error.
pub open spec fn fetch_action(pre: FetchView, event: FetchEvent) -> FetchActionView {
    match (pre.phase, event) {
        (FetchPhase::Requesting, FetchEvent::Responded { status }) => {
            if !is_success(status) {
                FetchActionView::Fail {
                    kind: ErrorKind::UpstreamStatus,
                    detail: seq![request_label(pre.part), status_message(status)],
                }
            } else {
                FetchActionView::CreateSink
            }
        },
        (FetchPhase::Requesting, FetchEvent::Broke(cause)) => FetchActionView::Fail {
            kind: ErrorKind::Transport,
            detail: seq![request_label(pre.part)] + cause@,
        },
        (FetchPhase::Opening, FetchEvent::Opened) => FetchActionView::ReadChunk,
        (FetchPhase::Opening, FetchEvent::Broke(cause)) => FetchActionView::Fail {
            kind: ErrorKind::Io,
            detail: seq![sink_message(pre.sink)] + cause@,
        },
        (FetchPhase::Reading, FetchEvent::Chunk { len }) => FetchActionView::WriteChunk,
        (FetchPhase::Reading, FetchEvent::Ended) => FetchActionView::Finish {
            idx: result_index(pre.part),
            location: pre.sink,
        },
        (FetchPhase::Reading, FetchEvent::Broke(cause)) => FetchActionView::Fail {
            kind: ErrorKind::Transport,
            detail: seq![read_message(pre.received)] + cause@,
        },
        (FetchPhase::Writing, FetchEvent::Written) => FetchActionView::ReadChunk,
        (FetchPhase::Writing, FetchEvent::Broke(cause)) => FetchActionView::Fail {
            kind: ErrorKind::Io,
            detail: seq![write_message(pre.received)] + cause@,
        },
        _ => FetchActionView::Ignore,
    }
}

/// The sum of `received` and `len`, or the largest number where that does
/// not fit.
pub open spec fn count_bytes(received: u64, len: u64) -> u64 {
    if received + len <= u64::MAX {
        (received + len) as u64
    } else {
        u64::MAX
    }
}

/// The state of a fetch after it answered `event` in the state `pre`: the
/// phase follows the action, and a chunk that was read is counted.
pub open spec fn fetch_next(pre: FetchView, event: FetchEvent) -> FetchView {
    let action = fetch_action(pre, event);
    FetchView {
        phase: match action {
            FetchActionView::CreateSink => FetchPhase::Opening,
            FetchActionView::ReadChunk => FetchPhase::Reading,
            FetchActionView::WriteChunk => FetchPhase::Writing,
            FetchActionView::Finish { .. } => FetchPhase::Done,
            FetchActionView::Fail { .. } => FetchPhase::Failed,
            FetchActionView::Ignore => pre.phase,
        },
        received: match (action, event) {
            (FetchActionView::WriteChunk, FetchEvent::Chunk { len }) => count_bytes(
                pre.received,
                len,
            ),
            _ => pre.received,
        },
        ..pre
    }
}

/// A fetch under way.
#[derive(Debug)]
pub struct Fetch {
    part: Option<RangeQuery>,
    url: String,
    range_header: Option<String>,
    sink: String,
    phase: FetchPhase,
    received: u64,
}

impl View for Fetch {
    type V = FetchView;

    closed spec fn view(&self) -> FetchView {
        FetchView {
            part: self.part,
            url: self.url@,
            range_header: match self.range_header {
                Some(header) => Some(header@),
                None => None,
            },
            sink: self.sink@,
            phase: self.phase,
            received: self.received,
        }
    }
}

impl Fetch {
    /// How far the fetch has come.
    pub fn phase(&self) -> (phase: FetchPhase)
        ensures
            phase == self@.phase,
    {
        self.phase
    }

    /// The number of bytes read from the body so far.
    pub fn received(&self) -> (received: u64)
        ensures
            received == self@.received,
    {
        self.received
    }

    /// The address to send the request to.
    pub fn url(&self) -> (url: String)
        ensures
            url@ == self@.url,
    {
        self.url.clone()
    }

    /// The value of the range header to send with the request, if any.
    pub fn range_header(&self) -> (header: Option<String>)
        ensures
            match header {
                Some(text) => self@.range_header == Some(text@),
                None => self@.range_header is None,
            },
    {
        match &self.range_header {
            Some(header) => Some(header.clone()),
            None => None,
        }
    }

    /// The name of the file that receives the bytes.
    pub fn sink(&self) -> (sink: String)
        ensures
            sink@ == self@.sink,
    {
        self.sink.clone()
    }

    fn label(&self) -> (text: String)
        ensures
            text@ == request_label(self@.part),
    {
        match self.part {
            Some(range) => {
                let mut text = "failed partial get #".to_owned();
                push_decimal(&mut text, range.idx);
                text.append(" for range: ");
                push_decimal(&mut text, range.start);
                text.append("..");
                push_decimal(&mut text, range.end);
                text
            },
            None => "failed full get".to_owned(),
        }
    }

    fn fail(&mut self, err: TransferError) -> (action: FetchAction)
        ensures
            final(self)@ == (FetchView { phase: FetchPhase::Failed, ..old(self)@ }),
            action@ == (FetchActionView::Fail { kind: err.kind, detail: err.detail@ }),
    {
        self.phase = FetchPhase::Failed;
        FetchAction::Fail(err)
    }

    /// Takes in what happened and says what to do next.
    pub fn step(&mut self, event: FetchEvent) -> (action: FetchAction)
        ensures
            action@ == fetch_action(old(self)@, event),
            final(self)@ == fetch_next(old(self)@, event),
    {
        match self.phase {
            FetchPhase::Requesting => match event {
                FetchEvent::Responded { status } => {
                    if !status_is_success(status) {
                        let mut text = "invalid status code: ".to_owned();
                        push_decimal(&mut text, status as u64);
                        let label = self.label();
                        let err = TransferError::new(ErrorKind::UpstreamStatus, text.as_str())
                            .context(label.as_str());
                        assert(err.detail@ =~= seq![
                            request_label(self@.part),
                            status_message(status),
                        ]);
                        self.fail(err)
                    } else {
                        self.phase = FetchPhase::Opening;
                        FetchAction::CreateSink
                    }
                },
                FetchEvent::Broke(cause) => {
                    let label = self.label();
                    let err = TransferError::caused_by(ErrorKind::Transport, label.as_str(), cause);
                    self.fail(err)
                },
                _ => FetchAction::Ignore,
            },
            FetchPhase::Opening => match event {
                FetchEvent::Opened => {
                    self.phase = FetchPhase::Reading;
                    FetchAction::ReadChunk
                },
                FetchEvent::Broke(cause) => {
                    let mut text = "failed to create tmp file at ".to_owned();
                    text.append(self.sink.as_str());
                    let err = TransferError::caused_by(ErrorKind::Io, text.as_str(), cause);
                    self.fail(err)
                },
                _ => FetchAction::Ignore,
            },
            FetchPhase::Reading => match event {
                FetchEvent::Chunk { len } => {
                    self.received = if len <= u64::MAX - self.received {
                        self.received + len
                    } else {
                        u64::MAX
                    };
                    self.phase = FetchPhase::Writing;
                    FetchAction::WriteChunk
                },
                FetchEvent::Ended => {
                    self.phase = FetchPhase::Done;
                    let idx = match self.part {
                        Some(range) => range.idx,
                        None => 0,
                    };
                    FetchAction::Finish(PartResult { idx, location: self.sink.clone() })
                },
                FetchEvent::Broke(cause) => {
                    let mut text = "failed to read from body at byte ".to_owned();
                    push_decimal(&mut text, self.received);
                    let err = TransferError::caused_by(ErrorKind::Transport, text.as_str(), cause);
                    self.fail(err)
                },
                _ => FetchAction::Ignore,
            },
            FetchPhase::Writing => match event {
                FetchEvent::Written => {
                    self.phase = FetchPhase::Reading;
                    FetchAction::ReadChunk
                },
                FetchEvent::Broke(cause) => {
                    let mut text = "failed to write to file at byte ".to_owned();
                    push_decimal(&mut text, self.received);
                    let err = TransferError::caused_by(ErrorKind::Io, text.as_str(), cause);
                    self.fail(err)
                },
                _ => FetchAction::Ignore,
            },
            FetchPhase::Done => FetchAction::Ignore,
            FetchPhase::Failed => FetchAction::Ignore,
        }
    }
}

/// The temporary file of a part lies beside the destination: where the
/// destination is named by a bare file name, so is the temporary file.
pub proof fn lemma_part_file_is_beside(dest: Seq<char>, idx: u64)
    requires
        is_file_name(dest),
    ensures
        is_file_name(part_file_name(dest, idx)),
{
    reveal_strlit(".");
    reveal_strlit(".part-");
    lemma_decimal_shape(idx as nat);
    let name = part_file_name(dest, idx);
    let digits = decimal(idx as nat);
    assert(name.len() == 1 + dest.len() + 6 + digits.len());
    assert forall|i: int| 0 <= i < name.len() implies #[trigger] name[i] != '/' by {
        if i < 1 {
            assert(name[i] == '.');
        } else if i < 1 + dest.len() {
            assert(name[i] == dest[i - 1]);
        } else if i < 1 + dest.len() + 6 {
            assert(name[i] == ".part-"@[i - 1 - dest.len()]);
        } else {
            assert(name[i] == digits[i - 7 - dest.len()]);
        }
    }
}

/// The temporary files of different parts of a download have different
/// names, and none has the name of the destination.
pub proof fn lemma_part_files_differ(dest: Seq<char>, a: u64, b: u64)
    ensures
        a != b ==> part_file_name(dest, a) != part_file_name(dest, b),
        part_file_name(dest, a) != dest,
{
    let lead = "."@ + dest + ".part-"@;
    let first = part_file_name(dest, a);
    let second = part_file_name(dest, b);
    assert(first.subrange(lead.len() as int, first.len() as int) =~= decimal(a as nat));
    assert(second.subrange(lead.len() as int, second.len() as int) =~= decimal(b as nat));
    if a != b {
        lemma_decimal_tells_apart(a as nat, b as nat);
    }
    reveal_strlit(".");
    assert(first.len() > dest.len());
}

/// A status outside the success class fails a fetch with an
/// `UpstreamStatus` error, and no file is created for it.
pub proof fn lemma_bad_status_fails_fetch(pre: FetchView, status: u16)
    requires
        pre.phase == FetchPhase::Requesting,
        !is_success(status),
    ensures
        fetch_action(pre, FetchEvent::Responded { status }) matches FetchActionView::Fail {
            kind,
            ..
        } && kind == ErrorKind::UpstreamStatus,
        fetch_next(pre, FetchEvent::Responded { status }).phase == FetchPhase::Failed,
{
}

/// A fetch that is done or has failed stays as it is and ignores every
/// event.
pub proof fn lemma_fetch_ends(pre: FetchView, event: FetchEvent)
    requires
        pre.phase == FetchPhase::Done || pre.phase == FetchPhase::Failed,
    ensures
        fetch_action(pre, event) is Ignore,
        fetch_next(pre, event) == pre,
{
}

} // verus!
