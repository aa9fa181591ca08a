//! The assembler: putting the parts together in the order of their
//! indices, whatever the order in which they arrived.

use crate::decimal::{decimal, push_decimal};
use crate::dest::is_file_name;
use crate::error::{ErrMsg, ErrorKind, TransferError};
use crate::fetch::PartResult;
use crate::plan::{lemma_plan_tiles, lemma_tiles_add_up, lemma_tiles_partition, plan, tiles,
    total_size, RangeQuery};
use vstd::prelude::*;

verus! {

/// Whether the indices of `parts` never fall from one part to the next.
pub open spec fn ascending(parts: Seq<PartResult>) -> bool {
    forall|i: int, j: int|
        0 <= i < j < parts.len() ==> (#[trigger] parts[i]).idx <= (#[trigger] parts[j]).idx
}

/// Whether `parts` holds each of the indices `0..count` once and nothing
/// else.
pub open spec fn complete(parts: Seq<PartResult>, count: nat) -> bool {
    &&& parts.len() == count
    &&& forall|i: int| 0 <= i < parts.len() ==> (#[trigger] parts[i]).idx < count
    &&& forall|i: int, j: int|
        0 <= i < j < parts.len() ==> (#[trigger] parts[i]).idx != (#[trigger] parts[j]).idx
}

/// Whether each part of `parts` stands at the place that its index names.
pub open spec fn in_place(parts: Seq<PartResult>) -> bool {
    forall|i: int| 0 <= i < parts.len() ==> (#[trigger] parts[i]).idx == i
}

/// Puts `parts` in the order of their indices.
pub fn assembly_order(parts: Vec<PartResult>) -> (ordered: Vec<PartResult>)
    ensures
        ascending(ordered@),
        ordered@.to_multiset() == parts@.to_multiset(),
{
    broadcast use {vstd::seq_lib::group_to_multiset_ensures, vstd::multiset::group_multiset_axioms};

    let mut rest = parts;
    let mut ordered: Vec<PartResult> = Vec::new();
    while rest.len() > 0
        invariant
            ascending(ordered@),
            ordered@.to_multiset().add(rest@.to_multiset()) == parts@.to_multiset(),
        decreases rest.len(),
    {
        let ghost before = rest@;
        let ghost sorted = ordered@;
        let part = rest.pop().unwrap();
        assert(before =~= rest@.push(part));
        let mut at: usize = 0;
        while at < ordered.len() && ordered[at].idx < part.idx
            invariant
                at <= ordered.len(),
                ascending(ordered@),
                forall|k: int| 0 <= k < at ==> (#[trigger] ordered@[k]).idx < part.idx,
            decreases ordered.len() - at,
        {
            at = at + 1;
        }
        ordered.insert(at, part);
        assert forall|i: int, j: int| 0 <= i < j < ordered@.len() implies (
        #[trigger] ordered@[i]).idx <= (#[trigger] ordered@[j]).idx by {
            let from_i = if i < at { i } else { i - 1 };
            let from_j = if j < at { j } else { j - 1 };
            if i != at && j != at {
                assert(sorted[from_i].idx <= sorted[from_j].idx);
            } else if i == at {
                assert(part.idx <= sorted[from_j].idx);
            } else {
                assert(sorted[from_i].idx < part.idx);
            }
        }
        proof {
            vstd::seq_lib::to_multiset_insert(sorted, at as int, part);
            vstd::seq_lib::to_multiset_build(rest@, part);
        }
    }
    ordered
}

/// The place in `parts` of the part with the index `idx`.
pub open spec fn place_of(parts: Seq<PartResult>, idx: int) -> int {
    choose|k: int| 0 <= k < parts.len() && (#[trigger] parts[k]).idx == idx
}

/// The parts of a complete set in the order of their indices: at each
/// place the part whose index names it.
pub open spec fn in_order(parts: Seq<PartResult>) -> Seq<PartResult> {
    Seq::new(parts.len(), |idx: int| parts[place_of(parts, idx)])
}

/// The bytes of `resource` that `range` asks for.
pub open spec fn fetched(resource: Seq<u8>, range: RangeQuery) -> Seq<u8> {
    resource.subrange(range.start as int, range.end as int)
}

/// What the destination holds once the files of `parts` were copied to its
/// end one after the other, where `files` tells what each file holds.
pub open spec fn assembled(parts: Seq<PartResult>, files: Map<Seq<char>, Seq<u8>>) -> Seq<u8>
    decreases parts.len(),
{
    if parts.len() == 0 {
        Seq::empty()
    } else {
        assembled(parts.drop_last(), files) + files[parts.last().location@]
    }
}

/// Where indices rise from each part to the next, the index at place `k`
/// is at least `k`.
proof fn lemma_rising_from_below(parts: Seq<PartResult>, k: int)
    requires
        forall|i: int, j: int|
            0 <= i < j < parts.len() ==> (#[trigger] parts[i]).idx < (#[trigger] parts[j]).idx,
        0 <= k < parts.len(),
    ensures
        parts[k].idx >= k,
    decreases k,
{
    if k > 0 {
        lemma_rising_from_below(parts, k - 1);
    }
}

/// Where indices rise from each part to the next and stay under the
/// number of parts, the index at place `k` is at most `k`.
proof fn lemma_rising_from_above(parts: Seq<PartResult>, k: int)
    requires
        forall|i: int, j: int|
            0 <= i < j < parts.len() ==> (#[trigger] parts[i]).idx < (#[trigger] parts[j]).idx,
        forall|i: int| 0 <= i < parts.len() ==> (#[trigger] parts[i]).idx < parts.len(),
        0 <= k < parts.len(),
    ensures
        parts[k].idx <= k,
    decreases parts.len() - k,
{
    if k + 1 < parts.len() {
        lemma_rising_from_above(parts, k + 1);
    }
}

/// Every part of a reordering came from the parts that were reordered.
proof fn lemma_reordered_from(arrived: Seq<PartResult>, ordered: Seq<PartResult>, k: int) -> (from:
    int)
    requires
        ordered.to_multiset() == arrived.to_multiset(),
        0 <= k < ordered.len(),
    ensures
        0 <= from < arrived.len(),
        arrived[from] == ordered[k],
{
    broadcast use vstd::seq_lib::group_to_multiset_ensures;

    assert(ordered.to_multiset().count(ordered[k]) > 0);
    choose|from: int| 0 <= from < arrived.len() && arrived[from] == ordered[k]
}

/// Once every part of a plan has arrived, whatever the order, the
/// assembly order holds part `i` at place `i`.
pub proof fn lemma_complete_order_is_in_place(arrived: Seq<PartResult>, ordered: Seq<PartResult>)
    requires
        complete(arrived, arrived.len()),
        ascending(ordered),
        ordered.to_multiset() == arrived.to_multiset(),
    ensures
        ordered.len() == arrived.len(),
        in_place(ordered),
{
    vstd::seq_lib::to_multiset_len(ordered);
    vstd::seq_lib::to_multiset_len(arrived);
    arrived.lemma_multiset_has_no_duplicates();
    ordered.lemma_multiset_has_no_duplicates_conv();
    assert forall|i: int, j: int| 0 <= i < j < ordered.len() implies (#[trigger] ordered[i]).idx < (
    #[trigger] ordered[j]).idx by {
        let a = lemma_reordered_from(arrived, ordered, i);
        let b = lemma_reordered_from(arrived, ordered, j);
        assert(ordered[i] != ordered[j]);
        assert(a != b);
    }
    assert forall|i: int| 0 <= i < ordered.len() implies (#[trigger] ordered[i]).idx
        < ordered.len() by {
        let a = lemma_reordered_from(arrived, ordered, i);
        assert(arrived[a].idx < arrived.len());
    }
    assert forall|i: int| 0 <= i < ordered.len() implies (#[trigger] ordered[i]).idx == i by {
        lemma_rising_from_below(ordered, i);
        lemma_rising_from_above(ordered, i);
    }
}

/// In a complete set of parts, the assembly order is the order of the
/// indices.
pub proof fn lemma_assembly_order_is_in_order(arrived: Seq<PartResult>, ordered: Seq<PartResult>)
    requires
        complete(arrived, arrived.len()),
        ascending(ordered),
        ordered.to_multiset() == arrived.to_multiset(),
    ensures
        ordered == in_order(arrived),
{
    lemma_complete_order_is_in_place(arrived, ordered);
    assert forall|idx: int| 0 <= idx < ordered.len() implies ordered[idx] == in_order(
        arrived,
    )[idx] by {
        let from = lemma_reordered_from(arrived, ordered, idx);
        assert(arrived[from].idx == idx);
        assert(place_of(arrived, idx) == from);
    }
}

/// Copying the first `count` files of a tiling, each holding the bytes of
/// its range, gives the resource up to the end of the last range copied.
proof fn lemma_assembled_prefix(
    resource: Seq<u8>,
    ranges: Seq<RangeQuery>,
    ordered: Seq<PartResult>,
    files: Map<Seq<char>, Seq<u8>>,
    count: int,
)
    requires
        resource.len() <= u64::MAX,
        tiles(ranges, resource.len() as u64),
        ordered.len() == ranges.len(),
        forall|k: int|
            0 <= k < ordered.len() ==> files[(#[trigger] ordered[k]).location@] == fetched(
                resource,
                ranges[k],
            ),
        0 <= count <= ordered.len(),
    ensures
        assembled(ordered.take(count), files) == resource.subrange(
            0,
            if count == 0 {
                0
            } else {
                ranges[count - 1].end as int
            },
        ),
    decreases count,
{
    lemma_tiles_partition(ranges, resource.len() as u64);
    if count > 0 {
        lemma_assembled_prefix(resource, ranges, ordered, files, count - 1);
        let last = ranges[count - 1];
        assert(ordered.take(count).drop_last() =~= ordered.take(count - 1));
        assert(resource.subrange(0, last.start as int) + fetched(resource, last)
            =~= resource.subrange(0, last.end as int));
    }
}

/// Where ranges cut the resource into consecutive pieces and the file of
/// part `k` holds the bytes of range `k`, copying the files in that order
/// gives back the resource.
pub proof fn lemma_tiling_round_trip(
    resource: Seq<u8>,
    ranges: Seq<RangeQuery>,
    ordered: Seq<PartResult>,
    files: Map<Seq<char>, Seq<u8>>,
)
    requires
        resource.len() <= u64::MAX,
        tiles(ranges, resource.len() as u64),
        ordered.len() == ranges.len(),
        forall|k: int|
            0 <= k < ordered.len() ==> files[(#[trigger] ordered[k]).location@] == fetched(
                resource,
                ranges[k],
            ),
    ensures
        assembled(ordered, files) == resource,
{
    lemma_assembled_prefix(resource, ranges, ordered, files, ordered.len() as int);
    assert(ordered.take(ordered.len() as int) =~= ordered);
}

/// Round trip: when each range of the planner's plan for a resource has
/// been fetched into a file of its own, the files arriving in any order,
/// then copying them in assembly order gives a destination that is
/// byte for byte the resource, as one full transfer would have given.
pub proof fn lemma_round_trip(
    resource: Seq<u8>,
    parts: u64,
    arrived: Seq<PartResult>,
    ordered: Seq<PartResult>,
    files: Map<Seq<char>, Seq<u8>>,
)
    requires
        resource.len() <= u64::MAX,
        parts >= 1,
        complete(arrived, parts as nat),
        forall|i: int|
            0 <= i < arrived.len() ==> files[(#[trigger] arrived[i]).location@] == fetched(
                resource,
                plan(resource.len() as u64, parts)[arrived[i].idx as int],
            ),
        ascending(ordered),
        ordered.to_multiset() == arrived.to_multiset(),
    ensures
        assembled(ordered, files) == resource,
{
    let ranges = plan(resource.len() as u64, parts);
    lemma_plan_tiles(resource.len() as u64, parts);
    lemma_complete_order_is_in_place(arrived, ordered);
    assert forall|k: int| 0 <= k < ordered.len() implies files[(#[trigger] ordered[k]).location@]
        == fetched(resource, ranges[k]) by {
        let from = lemma_reordered_from(arrived, ordered, k);
        assert(arrived[from].idx == k);
    }
    lemma_tiling_round_trip(resource, ranges, ordered, files);
}

/// Copying the first `count` files, each as long as its range, gives as
/// many bytes as the first `count` ranges ask for.
proof fn lemma_assembled_prefix_size(
    ranges: Seq<RangeQuery>,
    ordered: Seq<PartResult>,
    files: Map<Seq<char>, Seq<u8>>,
    count: int,
)
    requires
        ordered.len() == ranges.len(),
        forall|k: int|
            0 <= k < ordered.len() ==> files[(#[trigger] ordered[k]).location@].len()
                == ranges[k].size(),
        0 <= count <= ordered.len(),
    ensures
        assembled(ordered.take(count), files).len() == total_size(ranges.take(count)),
    decreases count,
{
    if count > 0 {
        lemma_assembled_prefix_size(ranges, ordered, files, count - 1);
        assert(ordered.take(count).drop_last() =~= ordered.take(count - 1));
        assert(ranges.take(count).drop_last() =~= ranges.take(count - 1));
    }
}

/// When every part of the planner's plan has arrived, whatever the order,
/// in a file that holds as many bytes as its range asks for, the
/// assembled destination has the length of the resource.
pub proof fn lemma_assembled_size(
    content_length: u64,
    parts: u64,
    arrived: Seq<PartResult>,
    ordered: Seq<PartResult>,
    files: Map<Seq<char>, Seq<u8>>,
)
    requires
        parts >= 1,
        complete(arrived, parts as nat),
        forall|i: int|
            0 <= i < arrived.len() ==> files[(#[trigger] arrived[i]).location@].len() == plan(
                content_length,
                parts,
            )[arrived[i].idx as int].size(),
        ascending(ordered),
        ordered.to_multiset() == arrived.to_multiset(),
    ensures
        assembled(ordered, files).len() == content_length,
{
    let ranges = plan(content_length, parts);
    lemma_plan_tiles(content_length, parts);
    lemma_tiles_add_up(ranges, content_length);
    lemma_complete_order_is_in_place(arrived, ordered);
    assert forall|k: int| 0 <= k < ordered.len() implies files[(
    #[trigger] ordered[k]).location@].len() == ranges[k].size() by {
        let from = lemma_reordered_from(arrived, ordered, k);
        assert(arrived[from].idx == k);
    }
    lemma_assembled_prefix_size(ranges, ordered, files, ordered.len() as int);
    assert(ordered.take(ordered.len() as int) =~= ordered);
    assert(ranges.take(ranges.len() as int) =~= ranges);
}

/// How far an assembly has come.
#[derive(Debug, Clone, Copy, PartialEq, Eq, Structural)]
pub enum AssemblyPhase {
    /// The destination is being created, or emptied where it exists.
    Creating,
    /// The file of the next part is being copied to the end of the
    /// destination.
    Copying,
    /// The file of the part last copied is being deleted.
    Removing,
    /// Every part is in the destination and every file is deleted.
    Done,
    /// The assembly failed.
    Failed,
}

/// What happened outside since the assembler last said what to do.
#[derive(Debug)]
pub enum AssemblyEvent {
    /// What was to be done is done.
    Completed,
    /// What was to be done failed, for this reason.
    Broke(ErrMsg),
}

/// What is to be done next for an assembly.
#[derive(Debug)]
pub enum AssemblyAction {
    /// Copy this file to the end of the destination.
    Copy { from: String },
    /// Delete this file.
    Remove { path: String },
    /// Nothing more: the destination is complete.
    Finish,
    /// Nothing more: the assembly failed.
    Fail(TransferError),
    /// Nothing: the assembler was not waiting for this.
    Ignore,
}

/// An action as contracts see it.
pub enum AssemblyActionView {
    Copy { from: Seq<char> },
    Remove { path: Seq<char> },
    Finish,
    Fail { kind: ErrorKind, detail: Seq<Seq<char>> },
    Ignore,
}

impl View for AssemblyAction {
    type V = AssemblyActionView;

    open spec fn view(&self) -> AssemblyActionView {
        match self {
            AssemblyAction::Copy { from } => AssemblyActionView::Copy { from: from@ },
            AssemblyAction::Remove { path } => AssemblyActionView::Remove { path: path@ },
            AssemblyAction::Finish => AssemblyActionView::Finish,
            AssemblyAction::Fail(err) => AssemblyActionView::Fail {
                kind: err.kind,
                detail: err.detail@,
            },
            AssemblyAction::Ignore => AssemblyActionView::Ignore,
        }
    }
}

/// An assembler as contracts see it.
pub struct AssemblerView {
    /// The name of the destination.
    pub dest: Seq<char>,
    /// The parts, in the order in which they are copied.
    pub parts: Seq<PartResult>,
    /// How many of the parts are in the destination, from the first on.
    pub copied: nat,
    /// How far the assembly has come.
    pub phase: AssemblyPhase,
}

impl AssemblerView {
    /// What holds of an assembler at all times: the destination is named
    /// by a bare file name, the parts are in assembly order, and the count
    /// of copied parts fits the phase.
    pub open spec fn wf(self) -> bool {
        &&& is_file_name(self.dest)
        &&& ascending(self.parts)
        &&& self.copied <= self.parts.len()
        &&& self.phase == AssemblyPhase::Creating ==> self.copied == 0
        &&& self.phase == AssemblyPhase::Copying ==> self.copied < self.parts.len()
        &&& self.phase == AssemblyPhase::Removing ==> self.copied >= 1
        &&& self.phase == AssemblyPhase::Done ==> self.copied == self.parts.len()
    }
}

/// The message for a destination that could not be created.
pub open spec fn create_message(dest: Seq<char>) -> Seq<char> {
    "failed to create destination file at "@ + dest
}

/// The message for a part that could not be copied.
pub open spec fn copy_message(part: PartResult) -> Seq<char> {
    "failed to copy part #"@ + decimal(part.idx as nat) + " from "@ + part.location@
}

/// The message for the file of a copied part that could not be deleted.
pub open spec fn remove_message(part: PartResult) -> Seq<char> {
    "failed to remove file of copied part #"@ + decimal(part.idx as nat) + " at "@
        + part.location@
}

/// What an assembler in the state `pre` answers to `event`.
///
/// The parts are copied one at a time in their order, and the file of a
/// part is deleted as soon as its bytes are copied. Any failure reported
/// from outside fails the assembly with an `Io` error whose first message
/// says what was being done.
pub open spec fn assembly_action(pre: AssemblerView, event: AssemblyEvent) -> AssemblyActionView
    recommends
        pre.wf(),
{
    match (pre.phase, event) {
        (AssemblyPhase::Creating, AssemblyEvent::Completed) => if pre.parts.len() == 0 {
            AssemblyActionView::Finish
        } else {
            AssemblyActionView::Copy { from: pre.parts[0].location@ }
        },
        (AssemblyPhase::Creating, AssemblyEvent::Broke(cause)) => AssemblyActionView::Fail {
            kind: ErrorKind::Io,
            detail: seq![create_message(pre.dest)] + cause@,
        },
        (AssemblyPhase::Copying, AssemblyEvent::Completed) => AssemblyActionView::Remove {
            path: pre.parts[pre.copied as int].location@,
        },
        (AssemblyPhase::Copying, AssemblyEvent::Broke(cause)) => AssemblyActionView::Fail {
            kind: ErrorKind::Io,
            detail: seq![copy_message(pre.parts[pre.copied as int])] + cause@,
        },
        (AssemblyPhase::Removing, AssemblyEvent::Completed) => if pre.copied < pre.parts.len() {
            AssemblyActionView::Copy { from: pre.parts[pre.copied as int].location@ }
        } else {
            AssemblyActionView::Finish
        },
        (AssemblyPhase::Removing, AssemblyEvent::Broke(cause)) => AssemblyActionView::Fail {
            kind: ErrorKind::Io,
            detail: seq![remove_message(pre.parts[pre.copied - 1])] + cause@,
        },
        _ => AssemblyActionView::Ignore,
    }
}

/// The state of an assembler after it answered `event` in the state
/// `pre`: the phase follows the action, and a part whose copy is done is
/// counted.
pub open spec fn assembly_next(pre: AssemblerView, event: AssemblyEvent) -> AssemblerView
    recommends
        pre.wf(),
{
    AssemblerView {
        phase: match assembly_action(pre, event) {
            AssemblyActionView::Copy { .. } => AssemblyPhase::Copying,
            AssemblyActionView::Remove { .. } => AssemblyPhase::Removing,
            AssemblyActionView::Finish => AssemblyPhase::Done,
            AssemblyActionView::Fail { .. } => AssemblyPhase::Failed,
            AssemblyActionView::Ignore => pre.phase,
        },
        copied: match (pre.phase, event) {
            (AssemblyPhase::Copying, AssemblyEvent::Completed) => pre.copied + 1,
            _ => pre.copied,
        },
        ..pre
    }
}

/// Where an assembly stands: the phase, and the number of parts copied.
#[derive(Debug, Clone, Copy)]
struct Progress {
    phase: AssemblyPhase,
    copied: usize,
}

/// An assembly under way.
#[derive(Debug)]
pub struct Assembler {
    dest: String,
    parts: Vec<PartResult>,
    at: Progress,
}

impl View for Assembler {
    type V = AssemblerView;

    closed spec fn view(&self) -> AssemblerView {
        AssemblerView {
            dest: self.dest@,
            parts: self.parts@,
            copied: self.at.copied as nat,
            phase: self.at.phase,
        }
    }
}

impl Assembler {
    #[verifier::type_invariant]
    spec fn inv(self) -> bool {
        self@.wf()
    }

    /// An assembler of `parts` into the file named `dest`, which must be
    /// a bare file name. The parts may come in any order: they are put in
    /// the order of their indices. The destination is to be created next.
    pub fn new(dest: &str, parts: Vec<PartResult>) -> (assembler: Self)
        requires
            is_file_name(dest@),
        ensures
            assembler@.wf(),
            assembler@.dest == dest@,
            assembler@.parts.to_multiset() == parts@.to_multiset(),
            complete(parts@, parts@.len()) ==> assembler@.parts == in_order(parts@),
            assembler@.copied == 0,
            assembler@.phase == AssemblyPhase::Creating,
    {
        let ordered = assembly_order(parts);
        proof {
            if complete(parts@, parts@.len()) {
                lemma_assembly_order_is_in_order(parts@, ordered@);
            }
        }
        Assembler {
            dest: dest.to_owned(),
            parts: ordered,
            at: Progress { phase: AssemblyPhase::Creating, copied: 0 },
        }
    }

    /// How far the assembly has come.
    pub fn phase(&self) -> (phase: AssemblyPhase)
        ensures
            phase == self@.phase,
    {
        self.at.phase
    }

    /// How many of the parts are in the destination, from the first on.
    pub fn copied(&self) -> (copied: usize)
        ensures
            copied == self@.copied,
    {
        self.at.copied
    }

    /// The name of the destination.
    pub fn dest(&self) -> (dest: String)
        ensures
            dest@ == self@.dest,
    {
        self.dest.clone()
    }

    fn fail(&mut self, err: TransferError) -> (action: AssemblyAction)
        ensures
            final(self)@ == (AssemblerView { phase: AssemblyPhase::Failed, ..old(self)@ }),
            action@ == (AssemblyActionView::Fail { kind: err.kind, detail: err.detail@ }),
    {
        proof {
            use_type_invariant(&*self);
        }
        self.at = Progress { phase: AssemblyPhase::Failed, copied: self.at.copied };
        AssemblyAction::Fail(err)
    }

    fn copy_next(&mut self) -> (action: AssemblyAction)
        requires
            old(self)@.phase == AssemblyPhase::Creating || old(self)@.phase
                == AssemblyPhase::Removing,
        ensures
            final(self)@ == (AssemblerView {
                phase: if old(self)@.copied < old(self)@.parts.len() {
                    AssemblyPhase::Copying
                } else {
                    AssemblyPhase::Done
                },
                ..old(self)@
            }),
            action@ == if old(self)@.copied < old(self)@.parts.len() {
                AssemblyActionView::Copy {
                    from: old(self)@.parts[old(self)@.copied as int].location@,
                }
            } else {
                AssemblyActionView::Finish
            },
    {
        proof {
            use_type_invariant(&*self);
        }
        let copied = self.at.copied;
        if copied < self.parts.len() {
            self.at = Progress { phase: AssemblyPhase::Copying, copied };
            AssemblyAction::Copy { from: self.parts[copied].location.clone() }
        } else {
            self.at = Progress { phase: AssemblyPhase::Done, copied };
            AssemblyAction::Finish
        }
    }

    /// Takes in what happened and says what to do next.
    pub fn step(&mut self, event: AssemblyEvent) -> (action: AssemblyAction)
        ensures
            old(self)@.wf(),
            final(self)@.wf(),
            action@ == assembly_action(old(self)@, event),
            final(self)@ == assembly_next(old(self)@, event),
    {
        proof {
            use_type_invariant(&*self);
        }
        let copied = self.at.copied;
        let count = self.parts.len();
        match self.at.phase {
            AssemblyPhase::Creating => match event {
                AssemblyEvent::Completed => self.copy_next(),
                AssemblyEvent::Broke(cause) => {
                    let mut text = "failed to create destination file at ".to_owned();
                    text.append(self.dest.as_str());
                    let err = TransferError::caused_by(ErrorKind::Io, text.as_str(), cause);
                    self.fail(err)
                },
            },
            AssemblyPhase::Copying => match event {
                AssemblyEvent::Completed => {
                    let path = self.parts[copied].location.clone();
                    self.at = Progress { phase: AssemblyPhase::Removing, copied: copied + 1 };
                    AssemblyAction::Remove { path }
                },
                AssemblyEvent::Broke(cause) => {
                    let part = &self.parts[copied];
                    let mut text = "failed to copy part #".to_owned();
                    push_decimal(&mut text, part.idx);
                    text.append(" from ");
                    text.append(part.location.as_str());
                    let err = TransferError::caused_by(ErrorKind::Io, text.as_str(), cause);
                    self.fail(err)
                },
            },
            AssemblyPhase::Removing => match event {
                AssemblyEvent::Completed => self.copy_next(),
                AssemblyEvent::Broke(cause) => {
                    let part = &self.parts[copied - 1];
                    let mut text = "failed to remove file of copied part #".to_owned();
                    push_decimal(&mut text, part.idx);
                    text.append(" at ");
                    text.append(part.location.as_str());
                    let err = TransferError::caused_by(ErrorKind::Io, text.as_str(), cause);
                    self.fail(err)
                },
            },
            AssemblyPhase::Done => AssemblyAction::Ignore,
            AssemblyPhase::Failed => AssemblyAction::Ignore,
        }
    }
}

} // verus!
