//! The range planner: cutting a length into consecutive byte ranges.

use vstd::prelude::*;

verus! {

/// One part of a plan: the bytes `[start, end)` of the resource, and the
/// part's place in the plan.
#[derive(Debug, Clone, Copy, PartialEq, Eq, Structural)]
pub struct RangeQuery {
    pub idx: u64,
    pub start: u64,
    pub end: u64,
}

impl RangeQuery {
    /// Whether the part holds the byte at `offset`.
    pub open spec fn holds(&self, offset: int) -> bool {
        self.start <= offset < self.end
    }

    /// The number of bytes of the part.
    pub open spec fn size(&self) -> int {
        self.end - self.start
    }
}

/// The length of every part but the last.
pub open spec fn part_len(content_length: u64, parts: u64) -> int {
    content_length as int / parts as int
}

/// Where part `idx` starts.
pub open spec fn part_start(content_length: u64, parts: u64, idx: int) -> int {
    idx * part_len(content_length, parts)
}

/// Where part `idx` ends: the last part takes what the division left over.
pub open spec fn part_end(content_length: u64, parts: u64, idx: int) -> int {
    if idx + 1 < parts {
        (idx + 1) * part_len(content_length, parts)
    } else {
        content_length as int
    }
}

/// Part `idx` of the plan for `content_length` bytes in `parts` parts.
pub open spec fn planned(content_length: u64, parts: u64, idx: int) -> RangeQuery {
    RangeQuery {
        idx: idx as u64,
        start: part_start(content_length, parts, idx) as u64,
        end: part_end(content_length, parts, idx) as u64,
    }
}

/// The plan for `content_length` bytes in `parts` parts.
pub open spec fn plan(content_length: u64, parts: u64) -> Seq<RangeQuery> {
    Seq::new(parts as nat, |idx: int| planned(content_length, parts, idx))
}

/// Whether `ranges` cut `[0, total)` into consecutive pieces, each at the
/// place that its index names.
pub open spec fn tiles(ranges: Seq<RangeQuery>, total: u64) -> bool {
    &&& ranges.len() >= 1
    &&& ranges.first().start == 0
    &&& ranges.last().end == total
    &&& forall|i: int|
        0 <= i < ranges.len() ==> (#[trigger] ranges[i]).idx == i && ranges[i].start
            <= ranges[i].end
    &&& forall|i: int|
        0 <= i < ranges.len() - 1 ==> (#[trigger] ranges[i]).end == ranges[i
            + 1].start
}

/// Whether some range of `ranges` holds the byte at `offset`.
pub open spec fn covers(ranges: Seq<RangeQuery>, offset: int) -> bool {
    exists|i: int| 0 <= i < ranges.len() && (#[trigger] ranges[i]).holds(offset)
}

/// Whether no range of `ranges` is empty.
pub open spec fn all_nonempty(ranges: Seq<RangeQuery>) -> bool {
    forall|i: int| 0 <= i < ranges.len() ==> (#[trigger] ranges[i]).start < ranges[i].end
}

/// The bounds of a planned part lie in the resource, in order.
pub proof fn lemma_part_bounds(content_length: u64, parts: u64, idx: int)
    requires
        parts >= 1,
        0 <= idx < parts,
    ensures
        0 <= part_start(content_length, parts, idx) <= part_end(content_length, parts, idx)
            <= content_length,
        part_end(content_length, parts, idx) - part_start(content_length, parts, idx) >= part_len(
            content_length,
            parts,
        ),
        part_len(content_length, parts) >= 0,
{
    let len = content_length as int;
    let count = parts as int;
    let each = len / count;
    assert(0 <= each && count * each <= len) by (nonlinear_arith)
        requires
            len >= 0,
            count >= 1,
            each == len / count,
    ;
    assert(0 <= idx * each <= (idx + 1) * each <= count * each && (idx + 1) * each - idx * each
        == each) by (nonlinear_arith)
        requires
            0 <= idx < count,
            0 <= each,
    ;
}

/// Cuts `content_length` bytes into `parts` consecutive ranges of equal
/// length, but for the last, which also takes the remainder.
pub fn get_ranges(content_length: u64, parts: u64) -> (ranges: Vec<RangeQuery>)
    requires
        parts >= 1,
    ensures
        ranges@ == plan(content_length, parts),
        tiles(ranges@, content_length),
        parts <= content_length ==> all_nonempty(ranges@),
{
    let each = content_length / parts;
    let mut ranges: Vec<RangeQuery> = Vec::new();
    let mut idx: u64 = 0;
    while idx < parts
        invariant
            parts >= 1,
            idx <= parts,
            each == part_len(content_length, parts),
            ranges@.len() == idx,
            forall|i: int| 0 <= i < idx ==> ranges@[i] == planned(content_length, parts, i),
        decreases parts - idx,
    {
        proof {
            lemma_part_bounds(content_length, parts, idx as int);
        }
        let start = idx * each;
        let end = if idx + 1 < parts {
            (idx + 1) * each
        } else {
            content_length
        };
        ranges.push(RangeQuery { idx, start, end });
        idx = idx + 1;
    }
    proof {
        lemma_plan_tiles(content_length, parts);
    }
    ranges
}

/// The planner's ranges are contiguous, ordered by index and cover the
/// resource from its first byte to its last; where there are no more parts
/// than bytes, none of them is empty.
pub proof fn lemma_plan_tiles(content_length: u64, parts: u64)
    requires
        parts >= 1,
    ensures
        tiles(plan(content_length, parts), content_length),
        parts <= content_length ==> all_nonempty(plan(content_length, parts)),
{
    let ranges = plan(content_length, parts);
    assert forall|i: int| 0 <= i < ranges.len() implies (#[trigger] ranges[i]).idx == i
        && ranges[i].start <= ranges[i].end && (parts <= content_length
        ==> ranges[i].start < ranges[i].end) by {
        lemma_part_bounds(content_length, parts, i);
        if parts <= content_length {
            let len = content_length as int;
            let count = parts as int;
            assert(len / count >= 1) by (nonlinear_arith)
                requires
                    1 <= count <= len,
            ;
        }
    }
    assert forall|i: int| 0 <= i < ranges.len() - 1 implies (#[trigger] ranges[i]).end
        == ranges[i + 1].start by {
        lemma_part_bounds(content_length, parts, i);
        lemma_part_bounds(content_length, parts, i + 1);
    }
    lemma_part_bounds(content_length, parts, 0);
    lemma_part_bounds(content_length, parts, parts - 1);
    assert(part_start(content_length, parts, 0) == 0) by (nonlinear_arith)
        requires
            part_start(content_length, parts, 0) == 0 * part_len(content_length, parts),
    ;
}

/// In a tiling, a later range starts no earlier than an earlier one ends.
proof fn lemma_tiles_ascend(ranges: Seq<RangeQuery>, total: u64, i: int, j: int)
    requires
        tiles(ranges, total),
        0 <= i < j < ranges.len(),
    ensures
        ranges[i].end <= ranges[j].start,
    decreases j - i,
{
    if i + 1 < j {
        lemma_tiles_ascend(ranges, total, i, j - 1);
    }
}

/// In a tiling, a byte at or after the start of range `from` and before
/// the end of the resource lies in that range or in a later one.
proof fn lemma_tiles_reach(ranges: Seq<RangeQuery>, total: u64, offset: int, from: int) -> (at: int)
    requires
        tiles(ranges, total),
        0 <= from < ranges.len(),
        ranges[from].start <= offset < total,
    ensures
        from <= at < ranges.len(),
        ranges[at].holds(offset),
    decreases ranges.len() - from,
{
    if offset < ranges[from].end {
        from
    } else {
        lemma_tiles_reach(ranges, total, offset, from + 1)
    }
}

/// A tiling of `[0, total)` is a partition of it: the ranges do not
/// overlap, none reaches past the end, and each byte of the resource lies
/// in one range and no other.
pub proof fn lemma_tiles_partition(ranges: Seq<RangeQuery>, total: u64)
    requires
        tiles(ranges, total),
    ensures
        forall|i: int, j: int|
            0 <= i < j < ranges.len() ==> (#[trigger] ranges[i]).end <= (#[trigger] ranges[j]).start,
        forall|i: int| 0 <= i < ranges.len() ==> (#[trigger] ranges[i]).end <= total,
        forall|offset: int| 0 <= offset < total ==> #[trigger] covers(ranges, offset),
        forall|i: int, j: int, offset: int|
            0 <= i < ranges.len() && 0 <= j < ranges.len() && #[trigger] ranges[i].holds(offset)
                && #[trigger] ranges[j].holds(offset) ==> i == j,
{
    assert forall|i: int, j: int| 0 <= i < j < ranges.len() implies (#[trigger] ranges[i]).end <= (
    #[trigger] ranges[j]).start by {
        lemma_tiles_ascend(ranges, total, i, j);
    }
    assert forall|i: int| 0 <= i < ranges.len() implies (#[trigger] ranges[i]).end <= total by {
        if i + 1 < ranges.len() {
            lemma_tiles_ascend(ranges, total, i, ranges.len() - 1);
        }
    }
    assert forall|offset: int| 0 <= offset < total implies #[trigger] covers(ranges, offset) by {
        let at = lemma_tiles_reach(ranges, total, offset, 0);
        assert(ranges[at].holds(offset));
    }
    assert forall|i: int, j: int, offset: int|
        0 <= i < ranges.len() && 0 <= j < ranges.len() && #[trigger] ranges[i].holds(offset)
            && #[trigger] ranges[j].holds(offset) implies i == j by {
        if i < j {
            lemma_tiles_ascend(ranges, total, i, j);
        } else if j < i {
            lemma_tiles_ascend(ranges, total, j, i);
        }
    }
}

/// For a resource of at least one byte and no more parts than bytes, the
/// planner's ranges are contiguous, do not overlap, stand in index order,
/// are not empty, and their union is exactly `[0, content_length)`.
pub proof fn lemma_plan_partitions(content_length: u64, parts: u64)
    requires
        content_length >= 1,
        1 <= parts <= content_length,
    ensures
        tiles(plan(content_length, parts), content_length),
        all_nonempty(plan(content_length, parts)),
        forall|i: int, j: int|
            0 <= i < j < parts ==> (#[trigger] plan(content_length, parts)[i]).end <= (
            #[trigger] plan(content_length, parts)[j]).start,
        forall|offset: int|
            0 <= offset < content_length <==> #[trigger] covers(
                plan(content_length, parts),
                offset,
            ),
        forall|i: int, j: int, offset: int|
            0 <= i < parts && 0 <= j < parts && #[trigger] plan(content_length, parts)[i].holds(
                offset,
            ) && #[trigger] plan(content_length, parts)[j].holds(offset) ==> i == j,
{
    let ranges = plan(content_length, parts);
    lemma_plan_tiles(content_length, parts);
    lemma_tiles_partition(ranges, content_length);
    assert forall|offset: int| #[trigger] covers(ranges, offset) implies 0 <= offset
        < content_length by {
        let i = choose|i: int| 0 <= i < ranges.len() && (#[trigger] ranges[i]).holds(offset);
        assert(ranges[i].end <= content_length);
    }
}

/// With one part the plan is one range, which covers the whole resource.
pub proof fn lemma_single_part_is_whole(content_length: u64)
    ensures
        plan(content_length, 1) == seq![RangeQuery { idx: 0, start: 0, end: content_length }],
{
    lemma_part_bounds(content_length, 1, 0);
    assert(part_start(content_length, 1, 0) == 0) by (nonlinear_arith)
        requires
            part_start(content_length, 1, 0) == 0 * part_len(content_length, 1),
    ;
}

/// Planning is repeatable: two plans made for the same length and the same
/// number of parts are the same sequence of ranges.
pub proof fn lemma_planning_is_repeatable(
    content_length: u64,
    parts: u64,
    first: Vec<RangeQuery>,
    second: Vec<RangeQuery>,
)
    requires
        parts >= 1,
        first@ == plan(content_length, parts),
        second@ == plan(content_length, parts),
    ensures
        first@ == second@,
        first@.len() == parts,
        forall|i: int| 0 <= i < parts ==> first@[i] == #[trigger] second@[i],
{
}

/// The number of bytes that `ranges` ask for, all together.
pub open spec fn total_size(ranges: Seq<RangeQuery>) -> int
    decreases ranges.len(),
{
    if ranges.len() == 0 {
        0
    } else {
        total_size(ranges.drop_last()) + ranges.last().size()
    }
}

/// The first `count` ranges of a tiling ask for as many bytes as lie
/// before the end of the last of them.
proof fn lemma_tiles_add_up_to(ranges: Seq<RangeQuery>, total: u64, count: int)
    requires
        tiles(ranges, total),
        1 <= count <= ranges.len(),
    ensures
        total_size(ranges.take(count)) == ranges[count - 1].end,
    decreases count,
{
    assert(ranges.take(count).drop_last() =~= ranges.take(count - 1));
    if count == 1 {
        assert(total_size(ranges.take(0)) == 0);
    } else {
        lemma_tiles_add_up_to(ranges, total, count - 1);
    }
}

/// The ranges of a tiling ask for as many bytes as the resource has.
pub proof fn lemma_tiles_add_up(ranges: Seq<RangeQuery>, total: u64)
    requires
        tiles(ranges, total),
    ensures
        total_size(ranges) == total,
{
    lemma_tiles_add_up_to(ranges, total, ranges.len() as int);
    assert(ranges.take(ranges.len() as int) =~= ranges);
}

} // verus!
