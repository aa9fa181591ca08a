use std::collections::HashMap;
use zrglng::assemble::{assembly_order, Assembler, AssemblyAction, AssemblyEvent, AssemblyPhase};
use zrglng::error::{ErrMsg, ErrorKind, TransferError};
use zrglng::fetch::PartResult;
use zrglng::plan::get_ranges;

fn part(idx: u64) -> PartResult {
    PartResult { idx, location: format!(".out.part-{}", idx) }
}

fn messages(err: &TransferError) -> Vec<String> {
    let mut all = vec![err.detail.message()];
    let mut next = err.detail.source();
    while let Some(cause) = next {
        all.push(cause.message());
        next = cause.source();
    }
    all
}

fn failure(action: AssemblyAction) -> TransferError {
    match action {
        AssemblyAction::Fail(err) => err,
        other => panic!("expected a failure, got {:?}", other),
    }
}

#[test]
fn order_follows_the_indices() {
    let ordered = assembly_order(vec![part(2), part(0), part(3), part(1)]);
    assert_eq!(ordered, vec![part(0), part(1), part(2), part(3)]);
}

#[test]
fn order_keeps_what_is_in_order() {
    let ordered = assembly_order(vec![part(0), part(1), part(2)]);
    assert_eq!(ordered, vec![part(0), part(1), part(2)]);
}

#[test]
fn order_of_nothing_and_of_one() {
    assert_eq!(assembly_order(vec![]), vec![]);
    assert_eq!(assembly_order(vec![part(5)]), vec![part(5)]);
}

#[test]
fn order_turns_a_reversed_arrival() {
    let arrived: Vec<PartResult> = (0..50).rev().map(part).collect();
    let expected: Vec<PartResult> = (0..50).map(part).collect();
    assert_eq!(assembly_order(arrived), expected);
}

#[test]
fn order_keeps_every_part() {
    let arrived = vec![part(7), part(3), part(7), part(0), part(3)];
    let ordered = assembly_order(arrived);
    let indices: Vec<u64> = ordered.iter().map(|p| p.idx).collect();
    assert_eq!(indices, vec![0, 3, 3, 7, 7]);
}

#[test]
fn parts_in_any_arrival_order_give_back_the_resource() {
    let resource: Vec<u8> = (0..1003u32).map(|i| (i * 7 % 251) as u8).collect();
    for parts in [1u64, 2, 3, 4, 7, 10, 1003] {
        let ranges = get_ranges(resource.len() as u64, parts);
        let mut files: HashMap<String, Vec<u8>> = HashMap::new();
        let mut arrived: Vec<PartResult> = Vec::new();
        for range in ranges.iter() {
            let result = part(range.idx);
            files.insert(
                result.location.clone(),
                resource[range.start as usize..range.end as usize].to_vec(),
            );
            arrived.push(result);
        }
        arrived.reverse();
        let middle = arrived.len() / 2;
        arrived.rotate_left(middle);
        let mut destination: Vec<u8> = Vec::new();
        for result in assembly_order(arrived) {
            destination.extend_from_slice(&files[&result.location]);
        }
        assert_eq!(destination, resource, "{} parts", parts);
    }
}

#[test]
fn assembler_copies_in_order_and_removes_after_each_copy() {
    let mut assembler = Assembler::new("out", vec![part(1), part(2), part(0)]);
    assert_eq!(assembler.phase(), AssemblyPhase::Creating);
    assert_eq!(assembler.dest(), "out");
    assert_eq!(assembler.copied(), 0);
    let mut log: Vec<String> = Vec::new();
    let mut action = assembler.step(AssemblyEvent::Completed);
    loop {
        match action {
            AssemblyAction::Copy { from } => log.push(format!("copy {}", from)),
            AssemblyAction::Remove { path } => log.push(format!("remove {}", path)),
            AssemblyAction::Finish => break,
            other => panic!("unexpected {:?}", other),
        }
        action = assembler.step(AssemblyEvent::Completed);
    }
    assert_eq!(
        log,
        vec![
            "copy .out.part-0",
            "remove .out.part-0",
            "copy .out.part-1",
            "remove .out.part-1",
            "copy .out.part-2",
            "remove .out.part-2"
        ]
    );
    assert_eq!(assembler.phase(), AssemblyPhase::Done);
    assert_eq!(assembler.copied(), 3);
    assert!(matches!(assembler.step(AssemblyEvent::Completed), AssemblyAction::Ignore));
}

#[test]
fn assembler_counts_the_copied_parts() {
    let mut assembler = Assembler::new("out", vec![part(0), part(1)]);
    assembler.step(AssemblyEvent::Completed);
    assert_eq!(assembler.phase(), AssemblyPhase::Copying);
    assert_eq!(assembler.copied(), 0);
    assembler.step(AssemblyEvent::Completed);
    assert_eq!(assembler.phase(), AssemblyPhase::Removing);
    assert_eq!(assembler.copied(), 1);
    assembler.step(AssemblyEvent::Completed);
    assert_eq!(assembler.phase(), AssemblyPhase::Copying);
    assert_eq!(assembler.copied(), 1);
    assembler.step(AssemblyEvent::Completed);
    assert_eq!(assembler.copied(), 2);
}

#[test]
fn assembler_of_nothing_finishes_after_creating() {
    let mut assembler = Assembler::new("out", vec![]);
    assert!(matches!(assembler.step(AssemblyEvent::Completed), AssemblyAction::Finish));
    assert_eq!(assembler.phase(), AssemblyPhase::Done);
}

#[test]
fn failed_creation_fails_the_assembly() {
    let mut assembler = Assembler::new("out", vec![part(0)]);
    let err = failure(assembler.step(AssemblyEvent::Broke(ErrMsg::new("read-only"))));
    assert_eq!(err.kind, ErrorKind::Io);
    assert_eq!(messages(&err), vec!["failed to create destination file at out", "read-only"]);
    assert_eq!(assembler.phase(), AssemblyPhase::Failed);
    assert_eq!(assembler.copied(), 0);
}

#[test]
fn failed_copy_fails_the_assembly() {
    let mut assembler = Assembler::new("out", vec![part(1), part(0)]);
    assembler.step(AssemblyEvent::Completed);
    assembler.step(AssemblyEvent::Completed);
    assembler.step(AssemblyEvent::Completed);
    let err = failure(assembler.step(AssemblyEvent::Broke(ErrMsg::new("disk full"))));
    assert_eq!(err.kind, ErrorKind::Io);
    assert_eq!(messages(&err), vec!["failed to copy part #1 from .out.part-1", "disk full"]);
    assert_eq!(assembler.phase(), AssemblyPhase::Failed);
    assert_eq!(assembler.copied(), 1);
    assert!(matches!(assembler.step(AssemblyEvent::Completed), AssemblyAction::Ignore));
}

#[test]
fn failed_removal_is_reported_with_the_part_counted_as_copied() {
    let mut assembler = Assembler::new("out", vec![part(0), part(1)]);
    assembler.step(AssemblyEvent::Completed);
    assembler.step(AssemblyEvent::Completed);
    let err = failure(assembler.step(AssemblyEvent::Broke(ErrMsg::new("busy"))));
    assert_eq!(err.kind, ErrorKind::Io);
    assert_eq!(
        messages(&err),
        vec!["failed to remove file of copied part #0 at .out.part-0", "busy"]
    );
    assert_eq!(assembler.phase(), AssemblyPhase::Failed);
    assert_eq!(assembler.copied(), 1);
}
