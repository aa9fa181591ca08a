//! The coordinator: from the answer to the metadata request to the
//! finished destination.
//!
//! The coordinator does nothing outside by itself. It is told what
//! happened and says what to do next: send the metadata request, run the
//! fetches, run the assembly.

use crate::assemble::{complete, in_order, Assembler, AssemblerView, AssemblyPhase};
use crate::dest::is_file_name;
use crate::error::{ErrMsg, ErrorKind, TransferError};
use crate::fetch::{fetch_action, full_get, lemma_bad_status_fails_fetch, part_file_name, started,
    Fetch, FetchActionView, FetchEvent, FetchPhase, FetchView, PartResult, PartialGetter};
use crate::plan::{all_nonempty, get_ranges, plan, RangeQuery};
use crate::probe::{advertises_ranges, file_info, is_success, probed, FileInfo};
use vstd::prelude::*;

verus! {

/// How far a transfer has come.
#[derive(Debug, Clone, Copy, PartialEq, Eq, Structural)]
pub enum Phase {
    /// The metadata request is on its way.
    Probing,
    /// The resource is known; how to fetch it is to be decided.
    Planning,
    /// The fetches are running.
    Fetching,
    /// The parts are being put together.
    Assembling,
    /// The destination is complete.
    Done,
    /// The transfer failed.
    Failed,
}

/// How a resource is fetched.
#[derive(Debug, Clone, Copy, PartialEq, Eq, Structural)]
pub enum Strategy {
    /// In one request for the whole resource, straight into the
    /// destination.
    Whole,
    /// In this many range requests, at least two, each into a file of its
    /// own.
    Split { parts: u64 },
}

/// How to fetch a resource when `requested` parts are asked for, or the
/// message of the error where that cannot be done.
///
/// Without range support the resource is fetched whole, whatever was
/// asked. Zero parts cannot be fetched. One part is the whole resource. A
/// resource of no bytes cannot be split. No part is empty: there are never
/// more parts than bytes, and where that leaves one part, the resource is
/// fetched whole.
pub open spec fn strategy(info: FileInfo, requested: u64) -> Result<Strategy, Seq<char>> {
    if !info.supports_range {
        Ok(Strategy::Whole)
    } else if requested == 0 {
        Err("cannot split into zero parts"@)
    } else if requested == 1 {
        Ok(Strategy::Whole)
    } else if info.content_length == 0 {
        Err("file size is 0, we cannot split it"@)
    } else if info.content_length == 1 {
        Ok(Strategy::Whole)
    } else if requested <= info.content_length {
        Ok(Strategy::Split { parts: requested })
    } else {
        Ok(Strategy::Split { parts: info.content_length })
    }
}

/// Decides how to fetch a resource when `requested` parts are asked for.
pub fn plan_transfer(info: FileInfo, requested: u64) -> (decision: Result<Strategy, TransferError>)
    ensures
        match decision {
            Ok(chosen) => strategy(info, requested) == Ok::<Strategy, Seq<char>>(chosen),
            Err(err) => strategy(info, requested) matches Err(msg) && err.kind
                == ErrorKind::InvalidPlan && err.detail@ == seq![msg],
        },
{
    if !info.supports_range {
        Ok(Strategy::Whole)
    } else if requested == 0 {
        Err(TransferError::new(ErrorKind::InvalidPlan, "cannot split into zero parts"))
    } else if requested == 1 {
        Ok(Strategy::Whole)
    } else if info.content_length == 0 {
        Err(TransferError::new(ErrorKind::InvalidPlan, "file size is 0, we cannot split it"))
    } else if info.content_length == 1 {
        Ok(Strategy::Whole)
    } else if requested <= info.content_length {
        Ok(Strategy::Split { parts: requested })
    } else {
        Ok(Strategy::Split { parts: info.content_length })
    }
}

/// What happened outside since the coordinator last said what to do.
#[derive(Debug)]
pub enum Event {
    /// The metadata request was answered with this status and these values
    /// of the length and the capability indicator, each absent or as the
    /// bytes received.
    Probed { status: u16, content_length: Option<Vec<u8>>, accept_ranges: Option<Vec<u8>> },
    /// The metadata request got no answer, for this reason.
    ProbeBroke(ErrMsg),
    /// Nothing: the coordinator had asked to be called again.
    Resumed,
    /// A fetch is done, with this result.
    Fetched(PartResult),
    /// A fetch was lost before it could say how it ended, for this reason.
    FetchLost(ErrMsg),
    /// The assembly is done.
    Assembled,
    /// A fetch or the assembly failed with this error.
    Broke(TransferError),
}

/// What is to be done next for a transfer.
#[derive(Debug)]
pub enum Action {
    /// Call again, with `Resumed`.
    Continue,
    /// Run this fetch of the whole resource.
    FetchWhole(Fetch),
    /// Run these fetches, one for each part, side by side.
    FetchParts(Vec<Fetch>),
    /// Wait for the next fetch to end.
    Wait,
    /// Run this assembly.
    Assemble(Assembler),
    /// Nothing more: the destination is complete.
    Finish,
    /// Nothing more: the transfer failed. Fetches that still run may be
    /// stopped; what they report is ignored.
    Fail(TransferError),
    /// Nothing: the coordinator was not waiting for this.
    Ignore,
}

/// An action as contracts see it.
pub enum ActionView {
    Continue,
    FetchWhole { fetch: FetchView },
    FetchParts { fetches: Seq<FetchView> },
    Wait,
    Assemble { assembler: AssemblerView },
    Finish,
    Fail { kind: ErrorKind, detail: Seq<Seq<char>> },
    Ignore,
}

impl View for Action {
    type V = ActionView;

    open spec fn view(&self) -> ActionView {
        match self {
            Action::Continue => ActionView::Continue,
            Action::FetchWhole(fetch) => ActionView::FetchWhole { fetch: fetch@ },
            Action::FetchParts(fetches) => ActionView::FetchParts {
                fetches: Seq::new(fetches@.len(), |i: int| fetches@[i]@),
            },
            Action::Wait => ActionView::Wait,
            Action::Assemble(assembler) => ActionView::Assemble { assembler: assembler@ },
            Action::Finish => ActionView::Finish,
            Action::Fail(err) => ActionView::Fail { kind: err.kind, detail: err.detail@ },
            Action::Ignore => ActionView::Ignore,
        }
    }
}

/// A coordinator as contracts see it.
pub struct CoordinatorView {
    /// Where the resource is.
    pub url: Seq<char>,
    /// The name of the destination.
    pub dest: Seq<char>,
    /// The number of parts asked for.
    pub parts: u64,
    /// How far the transfer has come.
    pub phase: Phase,
    /// What the metadata request told, once it is answered.
    pub info: Option<FileInfo>,
    /// How the resource is fetched, once that is decided.
    pub strategy: Option<Strategy>,
    /// The results of the fetches that are done, in the order in which
    /// they came, until they are handed to the assembly.
    pub arrived: Seq<PartResult>,
}

/// Whether part `idx` is among `arrived`.
pub open spec fn has_arrived(arrived: Seq<PartResult>, idx: u64) -> bool {
    exists|i: int| 0 <= i < arrived.len() && (#[trigger] arrived[i]).idx == idx
}

/// Whether `arrived` holds parts of a plan of `parts` parts, none twice
/// and not yet all.
pub open spec fn partial(arrived: Seq<PartResult>, parts: u64) -> bool {
    &&& arrived.len() < parts
    &&& forall|i: int| 0 <= i < arrived.len() ==> (#[trigger] arrived[i]).idx < parts
    &&& forall|i: int, j: int|
        0 <= i < j < arrived.len() ==> (#[trigger] arrived[i]).idx != (#[trigger] arrived[j]).idx
}

impl CoordinatorView {
    /// What holds of a coordinator at all times: the destination is named
    /// by a bare file name, what is known fits the phase, what was decided
    /// follows from what the metadata request told, and results are held
    /// only while parts are fetched.
    pub open spec fn wf(self) -> bool {
        &&& is_file_name(self.dest)
        &&& self.phase == Phase::Probing ==> self.info is None
        &&& self.phase == Phase::Planning ==> self.info is Some && self.strategy is None
        &&& self.phase == Phase::Fetching || self.phase == Phase::Assembling || self.phase
            == Phase::Done ==> self.strategy is Some
        &&& self.phase == Phase::Assembling ==> self.strategy is Some && self.strategy
            != Some(Strategy::Whole)
        &&& self.strategy matches Some(chosen) ==> self.info matches Some(info) && strategy(
            info,
            self.parts,
        ) == Ok::<Strategy, Seq<char>>(chosen)
        &&& self.phase == Phase::Fetching ==> (self.strategy matches Some(
            Strategy::Split { parts },
        ) ==> partial(self.arrived, parts))
        &&& self.phase != Phase::Fetching || self.strategy == Some(Strategy::Whole)
            ==> self.arrived.len() == 0
    }
}

/// What a header value that may be absent holds.
pub open spec fn value_view(value: Option<Vec<u8>>) -> Option<Seq<u8>> {
    match value {
        Some(bytes) => Some(bytes@),
        None => None,
    }
}

/// The fetches of the parts `ranges` of the resource at `url`, for a
/// download to the file named `dest`.
pub open spec fn part_fetches(url: Seq<char>, dest: Seq<char>, ranges: Seq<RangeQuery>) -> Seq<
    FetchView,
> {
    Seq::new(
        ranges.len(),
        |i: int| started(Some(ranges[i]), url, part_file_name(dest, ranges[i].idx)),
    )
}

/// What a coordinator in the state `pre` answers to `event`.
///
/// An answer to the metadata request that cannot be used, or none, fails
/// the transfer. So does a plan that cannot be made. Parts are fetched
/// only where the server serves ranges and at least two parts can be
/// made; otherwise the resource is fetched whole and not assembled. The
/// first fetch that fails or is lost fails the transfer. The assembly
/// starts when
/// every part has arrived, and gets the parts in the order of their
/// indices. What the coordinator is not waiting for, it ignores: a part
/// that is not of the plan or that has arrived before, and everything
/// once the transfer is done or has failed.
pub open spec fn coordinator_action(pre: CoordinatorView, event: Event) -> ActionView
    recommends
        pre.wf(),
{
    match (pre.phase, event) {
        (Phase::Probing, Event::Probed { status, content_length, accept_ranges }) => match probed(
            status,
            value_view(content_length),
            value_view(accept_ranges),
        ) {
            Ok(info) => ActionView::Continue,
            Err((kind, msg)) => ActionView::Fail {
                kind,
                detail: seq!["failed to do HEAD request"@, msg],
            },
        },
        (Phase::Probing, Event::ProbeBroke(cause)) => ActionView::Fail {
            kind: ErrorKind::Transport,
            detail: seq!["failed to do HEAD request"@] + cause@,
        },
        (Phase::Planning, Event::Resumed) => match strategy(pre.info->0, pre.parts) {
            Ok(Strategy::Whole) => ActionView::FetchWhole {
                fetch: started(None, pre.url, pre.dest),
            },
            Ok(Strategy::Split { parts }) => ActionView::FetchParts {
                fetches: part_fetches(pre.url, pre.dest, plan(pre.info->0.content_length, parts)),
            },
            Err(msg) => ActionView::Fail { kind: ErrorKind::InvalidPlan, detail: seq![msg] },
        },
        (Phase::Fetching, Event::Fetched(part)) => match pre.strategy {
            Some(Strategy::Split { parts }) => if part.idx < parts && !has_arrived(
                pre.arrived,
                part.idx,
            ) {
                if pre.arrived.len() + 1 == parts {
                    ActionView::Assemble {
                        assembler: AssemblerView {
                            dest: pre.dest,
                            parts: in_order(pre.arrived.push(part)),
                            copied: 0,
                            phase: AssemblyPhase::Creating,
                        },
                    }
                } else {
                    ActionView::Wait
                }
            } else {
                ActionView::Ignore
            },
            Some(Strategy::Whole) => ActionView::Finish,
            None => ActionView::Ignore,
        },
        (Phase::Fetching, Event::Broke(err)) => match pre.strategy {
            Some(Strategy::Split { parts }) => ActionView::Fail {
                kind: err.kind,
                detail: seq!["one of the parts failed to download"@] + err.detail@,
            },
            Some(Strategy::Whole) => ActionView::Fail { kind: err.kind, detail: err.detail@ },
            None => ActionView::Ignore,
        },
        (Phase::Fetching, Event::FetchLost(cause)) => ActionView::Fail {
            kind: ErrorKind::Transport,
            detail: seq!["a fetch did not run to its end"@] + cause@,
        },
        (Phase::Assembling, Event::Assembled) => ActionView::Finish,
        (Phase::Assembling, Event::Broke(err)) => ActionView::Fail {
            kind: err.kind,
            detail: err.detail@,
        },
        _ => ActionView::Ignore,
    }
}

/// The state of a coordinator after it answered `event` in the state
/// `pre`: the phase follows the action; what the metadata request told
/// and what was decided are kept; a part that was waited for is kept
/// until all are there.
pub open spec fn coordinator_next(pre: CoordinatorView, event: Event) -> CoordinatorView
    recommends
        pre.wf(),
{
    let action = coordinator_action(pre, event);
    CoordinatorView {
        phase: match action {
            ActionView::Continue => Phase::Planning,
            ActionView::FetchWhole { .. } => Phase::Fetching,
            ActionView::FetchParts { .. } => Phase::Fetching,
            ActionView::Wait => Phase::Fetching,
            ActionView::Assemble { .. } => Phase::Assembling,
            ActionView::Finish => Phase::Done,
            ActionView::Fail { .. } => Phase::Failed,
            ActionView::Ignore => pre.phase,
        },
        info: match (pre.phase, event) {
            (Phase::Probing, Event::Probed { status, content_length, accept_ranges }) => match probed(
                status,
                value_view(content_length),
                value_view(accept_ranges),
            ) {
                Ok(info) => Some(info),
                Err(_) => None,
            },
            _ => pre.info,
        },
        strategy: match (pre.phase, event) {
            (Phase::Planning, Event::Resumed) => match strategy(pre.info->0, pre.parts) {
                Ok(chosen) => Some(chosen),
                Err(_) => None,
            },
            _ => pre.strategy,
        },
        arrived: match (action, event) {
            (ActionView::Wait, Event::Fetched(part)) => pre.arrived.push(part),
            (ActionView::Ignore, _) => pre.arrived,
            _ => Seq::empty(),
        },
        ..pre
    }
}

/// What the coordinator knows beside the results: the phase, what the
/// metadata request told, and what was decided.
#[derive(Debug, Clone, Copy)]
struct Stage {
    phase: Phase,
    info: Option<FileInfo>,
    strategy: Option<Strategy>,
}

/// A transfer under way.
#[derive(Debug)]
pub struct Coordinator {
    url: String,
    dest: String,
    parts: u64,
    stage: Stage,
    arrived: Vec<PartResult>,
}

impl View for Coordinator {
    type V = CoordinatorView;

    closed spec fn view(&self) -> CoordinatorView {
        CoordinatorView {
            url: self.url@,
            dest: self.dest@,
            parts: self.parts,
            phase: self.stage.phase,
            info: self.stage.info,
            strategy: self.stage.strategy,
            arrived: self.arrived@,
        }
    }
}

impl Coordinator {
    #[verifier::type_invariant]
    spec fn inv(self) -> bool {
        self@.wf()
    }

    /// The transfer of the resource at `url` to the file named `dest`,
    /// which must be a bare file name, in `parts` parts where that can be
    /// done. The metadata request is to be sent next.
    pub fn new(url: &str, dest: &str, parts: u64) -> (coordinator: Self)
        requires
            is_file_name(dest@),
        ensures
            coordinator@.wf(),
            coordinator@ == (CoordinatorView {
                url: url@,
                dest: dest@,
                parts,
                phase: Phase::Probing,
                info: None,
                strategy: None,
                arrived: Seq::empty(),
            }),
    {
        Coordinator {
            url: url.to_owned(),
            dest: dest.to_owned(),
            parts,
            stage: Stage { phase: Phase::Probing, info: None, strategy: None },
            arrived: Vec::new(),
        }
    }

    /// How far the transfer has come.
    pub fn phase(&self) -> (phase: Phase)
        ensures
            phase == self@.phase,
    {
        self.stage.phase
    }

    /// What the metadata request told, once it is answered.
    pub fn info(&self) -> (info: Option<FileInfo>)
        ensures
            info == self@.info,
    {
        self.stage.info
    }

    /// How the resource is fetched, once that is decided.
    pub fn strategy(&self) -> (chosen: Option<Strategy>)
        ensures
            chosen == self@.strategy,
    {
        self.stage.strategy
    }

    fn fail(&mut self, err: TransferError) -> (action: Action)
        ensures
            final(self)@ == (CoordinatorView {
                phase: Phase::Failed,
                arrived: Seq::empty(),
                ..old(self)@
            }),
            action@ == (ActionView::Fail { kind: err.kind, detail: err.detail@ }),
    {
        proof {
            use_type_invariant(&*self);
        }
        let mut dropped: Vec<PartResult> = Vec::new();
        std::mem::swap(&mut self.arrived, &mut dropped);
        self.stage = Stage {
            phase: Phase::Failed,
            info: self.stage.info,
            strategy: self.stage.strategy,
        };
        Action::Fail(err)
    }

    fn seen(&self, idx: u64) -> (yes: bool)
        ensures
            yes == has_arrived(self@.arrived, idx),
    {
        let mut i: usize = 0;
        while i < self.arrived.len()
            invariant
                i <= self.arrived@.len(),
                forall|k: int| 0 <= k < i ==> (#[trigger] self.arrived@[k]).idx != idx,
            decreases self.arrived.len() - i,
        {
            if self.arrived[i].idx == idx {
                return true;
            }
            i = i + 1;
        }
        false
    }

    fn start_parts(&self, info: FileInfo, parts: u64) -> (fetches: Vec<Fetch>)
        requires
            1 <= parts <= info.content_length,
        ensures
            Seq::new(fetches@.len(), |i: int| fetches@[i]@) == part_fetches(
                self@.url,
                self@.dest,
                plan(info.content_length, parts),
            ),
    {
        proof {
            use_type_invariant(self);
        }
        let ranges = get_ranges(info.content_length, parts);
        let mut fetches: Vec<Fetch> = Vec::new();
        let mut i: usize = 0;
        while i < ranges.len()
            invariant
                i <= ranges@.len(),
                is_file_name(self@.dest),
                all_nonempty(ranges@),
                fetches@.len() == i,
                forall|k: int|
                    0 <= k < i ==> (#[trigger] fetches@[k])@ == started(
                        Some(ranges@[k]),
                        self@.url,
                        part_file_name(self@.dest, ranges@[k].idx),
                    ),
            decreases ranges.len() - i,
        {
            let range = ranges[i];
            let getter = PartialGetter::new(range, self.url.as_str(), self.dest.as_str());
            fetches.push(getter.get());
            i = i + 1;
        }
        fetches
    }

    /// Takes in what happened and says what to do next.
    pub fn step(&mut self, event: Event) -> (action: Action)
        ensures
            old(self)@.wf(),
            final(self)@.wf(),
            action@ == coordinator_action(old(self)@, event),
            final(self)@ == coordinator_next(old(self)@, event),
    {
        proof {
            use_type_invariant(&*self);
            if self@.phase != Phase::Fetching || self@.strategy == Some(Strategy::Whole) {
                assert(self@.arrived =~= Seq::empty());
            }
        }
        let stage = self.stage;
        match stage.phase {
            Phase::Probing => match event {
                Event::Probed { status, content_length, accept_ranges } => {
                    let length = match &content_length {
                        Some(bytes) => Some(bytes.as_slice()),
                        None => None,
                    };
                    let ranges = match &accept_ranges {
                        Some(bytes) => Some(bytes.as_slice()),
                        None => None,
                    };
                    match file_info(status, length, ranges) {
                        Ok(info) => {
                            self.stage = Stage {
                                phase: Phase::Planning,
                                info: Some(info),
                                strategy: None,
                            };
                            Action::Continue
                        },
                        Err(err) => {
                            let ghost msg = err.detail@[0];
                            let err = err.context("failed to do HEAD request");
                            assert(err.detail@ =~= seq!["failed to do HEAD request"@, msg]);
                            self.fail(err)
                        },
                    }
                },
                Event::ProbeBroke(cause) => {
                    let err = TransferError::caused_by(
                        ErrorKind::Transport,
                        "failed to do HEAD request",
                        cause,
                    );
                    self.fail(err)
                },
                _ => Action::Ignore,
            },
            Phase::Planning => match event {
                Event::Resumed => {
                    let info = stage.info.unwrap();
                    match plan_transfer(info, self.parts) {
                        Ok(Strategy::Whole) => {
                            self.stage = Stage {
                                phase: Phase::Fetching,
                                info: stage.info,
                                strategy: Some(Strategy::Whole),
                            };
                            Action::FetchWhole(full_get(self.url.as_str(), self.dest.as_str()))
                        },
                        Ok(Strategy::Split { parts }) => {
                            let fetches = self.start_parts(info, parts);
                            self.stage = Stage {
                                phase: Phase::Fetching,
                                info: stage.info,
                                strategy: Some(Strategy::Split { parts }),
                            };
                            Action::FetchParts(fetches)
                        },
                        Err(err) => self.fail(err),
                    }
                },
                _ => Action::Ignore,
            },
            Phase::Fetching => match event {
                Event::Fetched(part) => match stage.strategy {
                    Some(Strategy::Split { parts }) => {
                        if part.idx < parts && !self.seen(part.idx) {
                            let last = self.arrived.len() as u64 + 1 == parts;
                            let mut all: Vec<PartResult> = Vec::new();
                            std::mem::swap(&mut self.arrived, &mut all);
                            all.push(part);
                            if last {
                                let assembler = Assembler::new(self.dest.as_str(), all);
                                self.stage = Stage {
                                    phase: Phase::Assembling,
                                    info: stage.info,
                                    strategy: stage.strategy,
                                };
                                Action::Assemble(assembler)
                            } else {
                                std::mem::swap(&mut self.arrived, &mut all);
                                Action::Wait
                            }
                        } else {
                            Action::Ignore
                        }
                    },
                    Some(Strategy::Whole) => {
                        self.stage = Stage {
                            phase: Phase::Done,
                            info: stage.info,
                            strategy: stage.strategy,
                        };
                        Action::Finish
                    },
                    None => Action::Ignore,
                },
                Event::Broke(err) => match stage.strategy {
                    Some(Strategy::Split { parts }) => {
                        let err = err.context("one of the parts failed to download");
                        self.fail(err)
                    },
                    Some(Strategy::Whole) => self.fail(err),
                    None => Action::Ignore,
                },
                Event::FetchLost(cause) => {
                    let err = TransferError::caused_by(
                        ErrorKind::Transport,
                        "a fetch did not run to its end",
                        cause,
                    );
                    self.fail(err)
                },
                _ => Action::Ignore,
            },
            Phase::Assembling => match event {
                Event::Assembled => {
                    self.stage = Stage {
                        phase: Phase::Done,
                        info: stage.info,
                        strategy: stage.strategy,
                    };
                    Action::Finish
                },
                Event::Broke(err) => self.fail(err),
                _ => Action::Ignore,
            },
            Phase::Done => Action::Ignore,
            Phase::Failed => Action::Ignore,
        }
    }
}

/// The state of a coordinator that started in the state `start` and has
/// taken in the first `count` of `events`.
pub open spec fn state_after(start: CoordinatorView, events: Seq<Event>, count: nat)
    -> CoordinatorView
    decreases count,
{
    if count == 0 {
        start
    } else {
        coordinator_next(state_after(start, events, (count - 1) as nat), events[count - 1])
    }
}

/// What a coordinator that started in the state `start` answered to the
/// event at the place `at` of `events`.
pub open spec fn answer(start: CoordinatorView, events: Seq<Event>, at: int) -> ActionView {
    coordinator_action(state_after(start, events, at as nat), events[at])
}

/// How many requests for the whole resource the answers to the first
/// `count` of `events` asked for.
pub open spec fn whole_requests(start: CoordinatorView, events: Seq<Event>, count: nat) -> nat
    decreases count,
{
    if count == 0 {
        0
    } else {
        whole_requests(start, events, (count - 1) as nat) + if answer(start, events, count - 1)
            is FetchWhole {
            1nat
        } else {
            0nat
        }
    }
}

/// How many range requests the answers to the first `count` of `events`
/// asked for.
pub open spec fn range_requests(start: CoordinatorView, events: Seq<Event>, count: nat) -> nat
    decreases count,
{
    if count == 0 {
        0
    } else {
        range_requests(start, events, (count - 1) as nat) + match answer(start, events, count - 1) {
            ActionView::FetchParts { fetches } => fetches.len(),
            _ => 0nat,
        }
    }
}

/// The place of a phase in the course of a transfer.
pub open spec fn phase_rank(phase: Phase) -> int {
    match phase {
        Phase::Probing => 0,
        Phase::Planning => 1,
        Phase::Fetching => 2,
        Phase::Assembling => 3,
        Phase::Done => 4,
        Phase::Failed => 4,
    }
}

/// A step keeps a coordinator well formed and never takes it back to an
/// earlier phase; once the transfer is done or has failed, nothing
/// changes and every event is ignored.
pub proof fn lemma_step(pre: CoordinatorView, event: Event)
    requires
        pre.wf(),
    ensures
        coordinator_next(pre, event).wf(),
        phase_rank(coordinator_next(pre, event).phase) >= phase_rank(pre.phase),
        pre.phase == Phase::Done || pre.phase == Phase::Failed ==> coordinator_next(pre, event)
            == pre && coordinator_action(pre, event) is Ignore,
{
    if let Event::Fetched(part) = event {
        if coordinator_action(pre, event) is Wait {
            let grown = pre.arrived.push(part);
            assert forall|i: int, j: int| 0 <= i < j < grown.len() implies (#[trigger] grown[i]).idx
                != (#[trigger] grown[j]).idx by {
                if j == pre.arrived.len() {
                    assert(pre.arrived[i].idx != part.idx);
                }
            }
        }
    }
}

/// Every state of a run that starts well formed is well formed.
pub proof fn lemma_run_wf(start: CoordinatorView, events: Seq<Event>, count: nat)
    requires
        start.wf(),
    ensures
        state_after(start, events, count).wf(),
    decreases count,
{
    if count > 0 {
        lemma_run_wf(start, events, (count - 1) as nat);
        lemma_step(state_after(start, events, (count - 1) as nat), events[count - 1]);
    }
}

/// A run never comes back to an earlier phase.
pub proof fn lemma_run_advances(
    start: CoordinatorView,
    events: Seq<Event>,
    earlier: nat,
    later: nat,
)
    requires
        start.wf(),
        earlier <= later,
    ensures
        phase_rank(state_after(start, events, earlier).phase) <= phase_rank(
            state_after(start, events, later).phase,
        ),
    decreases later - earlier,
{
    if earlier < later {
        lemma_run_advances(start, events, earlier, (later - 1) as nat);
        lemma_run_wf(start, events, (later - 1) as nat);
        lemma_step(state_after(start, events, (later - 1) as nat), events[later - 1]);
    }
}

/// Whether no metadata answer among `events` says that ranges are served:
/// the capability indicator is absent, or is not exactly the token
/// `bytes`.
pub open spec fn no_range_support(events: Seq<Event>) -> bool {
    forall|i: int|
        0 <= i < events.len() ==> ((#[trigger] events[i]) matches Event::Probed {
            accept_ranges,
            ..
        } ==> !advertises_ranges(value_view(accept_ranges)))
}

/// Where the server does not say that it serves ranges, no range request
/// is ever made and nothing is assembled, and once the way to fetch is
/// decided, exactly one request for the whole resource has been made and
/// no other follows.
pub proof fn lemma_without_range_support(start: CoordinatorView, events: Seq<Event>, count: nat)
    requires
        start.wf(),
        start.phase == Phase::Probing,
        no_range_support(events),
        count <= events.len(),
    ensures
        range_requests(start, events, count) == 0,
        whole_requests(start, events, count) == if state_after(start, events, count).strategy
            is Some {
            1nat
        } else {
            0nat
        },
        state_after(start, events, count).strategy is Some ==> state_after(
            start,
            events,
            count,
        ).strategy == Some(Strategy::Whole),
        state_after(start, events, count).info matches Some(info) ==> !info.supports_range,
        state_after(start, events, count).phase == Phase::Fetching || state_after(
            start,
            events,
            count,
        ).phase == Phase::Done ==> whole_requests(start, events, count) == 1,
        state_after(start, events, count).phase != Phase::Assembling,
        forall|at: int| 0 <= at < count ==> !(#[trigger] answer(start, events, at) is FetchParts),
    decreases count,
{
    lemma_run_wf(start, events, count);
    if count > 0 {
        let before = (count - 1) as nat;
        lemma_without_range_support(start, events, before);
        lemma_run_wf(start, events, before);
        let pre = state_after(start, events, before);
        let event = events[count - 1];
        lemma_step(pre, event);
        assert(answer(start, events, count - 1) == coordinator_action(pre, event));
    }
}

/// Where a fetch fails or is lost while the parts are fetched, the
/// transfer fails, with an error of the same kind where the fetch gave
/// one, every later event is ignored, and no assembly is ever started: the
/// destination is not touched.
pub proof fn lemma_failed_fetch_fails_transfer(
    start: CoordinatorView,
    events: Seq<Event>,
    at: int,
    count: nat,
)
    requires
        start.wf(),
        0 <= at < count <= events.len(),
        state_after(start, events, at as nat).phase == Phase::Fetching,
        events[at] is Broke || events[at] is FetchLost,
    ensures
        answer(start, events, at) matches ActionView::Fail { kind, .. } && (events[at] matches Event::Broke(
            err,
        ) ==> kind == err.kind),
        state_after(start, events, count).phase == Phase::Failed,
        forall|k: int| at < k < count ==> #[trigger] answer(start, events, k) is Ignore,
        forall|k: int| 0 <= k < count ==> !(#[trigger] answer(start, events, k) is Assemble),
    decreases count,
{
    let pre = state_after(start, events, at as nat);
    lemma_run_wf(start, events, at as nat);
    lemma_step(pre, events[at]);
    if count > at + 1 {
        let before = (count - 1) as nat;
        lemma_failed_fetch_fails_transfer(start, events, at, before);
        lemma_run_wf(start, events, before);
        lemma_step(state_after(start, events, before), events[count - 1]);
        assert(answer(start, events, count - 1) is Ignore);
    } else {
        assert forall|k: int| 0 <= k < count implies !(#[trigger] answer(start, events, k)
            is Assemble) by {
            if k < at {
                lemma_run_wf(start, events, k as nat);
                lemma_step(state_after(start, events, k as nat), events[k]);
                lemma_run_advances(start, events, (k + 1) as nat, at as nat);
            }
        }
    }
}

/// Where the request of a fetch is answered with a status outside the
/// success class while the parts are fetched, and the coordinator is told
/// of that fetch's failure, the transfer fails with an `UpstreamStatus`
/// error and no assembly is ever started: the destination is not touched.
pub proof fn lemma_bad_status_fails_transfer(
    fetch: FetchView,
    status: u16,
    start: CoordinatorView,
    events: Seq<Event>,
    at: int,
    count: nat,
)
    requires
        fetch.phase == FetchPhase::Requesting,
        !is_success(status),
        start.wf(),
        0 <= at < count <= events.len(),
        state_after(start, events, at as nat).phase == Phase::Fetching,
        events[at] matches Event::Broke(err) && fetch_action(
            fetch,
            FetchEvent::Responded { status },
        ) == (FetchActionView::Fail { kind: err.kind, detail: err.detail@ }),
    ensures
        answer(start, events, at) matches ActionView::Fail { kind, .. } && kind
            == ErrorKind::UpstreamStatus,
        state_after(start, events, count).phase == Phase::Failed,
        forall|k: int| 0 <= k < count ==> !(#[trigger] answer(start, events, k) is Assemble),
{
    lemma_bad_status_fails_fetch(fetch, status);
    lemma_failed_fetch_fails_transfer(start, events, at, count);
}

} // verus!
