use dandelion_unikraft::records::{Archive, ArchiveInit, RecordPoint, Recorder, TimestampTable};

fn micros(cycles: u64) -> u64 {
    ((cycles as f64) / 2304.009) as u64
}

/// The text of an execution with nothing recorded but the points given.
fn text(id: &str, points: &[(usize, u64)]) -> String {
    let names = [
        "PrepareEnvQueue",
        "ParsingQueue",
        "ParsingStart",
        "ParsingEnd",
        "ParsingDequeue",
        "LoadStart",
        "TransferStart",
        "GetEngineQueue",
        "ExecutionQueue",
        "EngineStart",
        "BufferAllocationComplete",
        "UserCodeMappingComplete",
        "UserStackMappingComplete",
        "InterruptSetupComplete",
        "EngineSetupEnd",
        "EngineExecEnd",
        "EngineEnd",
        "FutureReturn",
    ];
    let mut out = format!("function_id: {}\n", id);
    for (i, name) in names.iter().enumerate() {
        let cycles = points.iter().find(|p| p.0 == i).map(|p| p.1).unwrap_or(0);
        out += &format!("  {}: {} cycles ({} μs)\n", name, cycles, micros(cycles));
    }
    out
}

#[test]
fn recorded_points_are_shown() {
    let mut table = TimestampTable::new();
    let mut recorder = Recorder::new(&mut table, String::from("f"), 1000);
    recorder.record(&mut table, RecordPoint::PrepareEnvQueue, 1000);
    recorder.record(&mut table, RecordPoint::EngineStart, 24041);
    recorder.record(&mut table, RecordPoint::FutureReturn, 10_000_000_000_000_001_000);
    // Earlier than the start counts as zero.
    recorder.record(&mut table, RecordPoint::EngineEnd, 999);
    let shown = recorder.fmt(&table, &micros);
    assert_eq!(shown, text("f", &[(9, 23041), (17, 10_000_000_000_000_000_000)]));
    assert!(shown.contains("  EngineStart: 23041 cycles (10 μs)\n"));
    assert!(shown.contains("  EngineEnd: 0 cycles (0 μs)\n"));
}

#[test]
fn later_records_of_a_point_replace_earlier_ones() {
    let mut table = TimestampTable::new();
    let mut recorder = Recorder::new(&mut table, String::from("f"), 0);
    recorder.record(&mut table, RecordPoint::LoadStart, 7);
    recorder.record(&mut table, RecordPoint::LoadStart, 9);
    assert_eq!(recorder.fmt(&table, &micros), text("f", &[(5, 9)]));
}

#[test]
fn numbers_of_the_points() {
    assert_eq!(RecordPoint::PrepareEnvQueue.index(), 0);
    assert_eq!(RecordPoint::EngineSetupEnd.index(), 14);
    assert_eq!(RecordPoint::FutureReturn.index(), 17);
}

#[test]
fn sub_recorders_share_the_time_points() {
    let mut table = TimestampTable::new();
    let mut recorder = Recorder::new(&mut table, String::from("f"), 10);
    let mut sub = recorder.get_sub_recorder(&mut table);
    sub.record(&mut table, RecordPoint::ParsingStart, 15);
    recorder.record(&mut table, RecordPoint::ParsingEnd, 20);
    let expected = text("f", &[(2, 5), (3, 10)]);
    assert_eq!(recorder.fmt(&table, &micros), expected);
    assert_eq!(sub.fmt(&table, &micros), expected);
    sub.release(&mut table);
    assert_eq!(recorder.fmt(&table, &micros), expected);
    let mut archive = Archive::init();
    archive.insert_recorder(&mut table, recorder);
    assert_eq!(archive.get_summary(&micros), expected + "\n\n");
}

#[test]
fn children_count_from_their_parent() {
    let mut table = TimestampTable::new();
    let parent = Recorder::new(&mut table, String::from("p"), 100);
    let mut child = Recorder::new_from_parent(&mut table, String::from("c"), &parent);
    child.record(&mut table, RecordPoint::ParsingQueue, 150);
    assert_eq!(child.fmt(&table, &micros), text("c", &[(1, 50)]));
}

#[test]
fn children_are_shown_below_their_parent() {
    let mut table = TimestampTable::new();
    let mut parent = Recorder::new(&mut table, String::from("p"), 0);
    let mut first = Recorder::new_from_parent(&mut table, String::from("a"), &parent);
    let second = Recorder::new_from_parent(&mut table, String::from("b"), &parent);
    let grandchild = Recorder::new_from_parent(&mut table, String::from("g"), &parent);
    first.add_children(&mut table, vec![grandchild]);
    parent.add_children(&mut table, vec![first, second]);

    let indent = |s: &str| -> String { s.lines().map(|l| format!("    {}\n", l)).collect() };
    let g = text("g", &[]);
    let a = format!("{}  children: {{\n{}  }}", text("a", &[]), indent(&g));
    let b = text("b", &[]);
    let p = format!("{}  children: {{\n{}{}  }}", text("p", &[]), indent(&a), indent(&b));
    assert_eq!(parent.fmt(&table, &micros), p);

    let mut archive = Archive::init();
    archive.insert_recorder(&mut table, parent);
    let summary = format!("{}\n-{}\n--{}\n-{}\n\n", p, a, g, b);
    assert_eq!(archive.get_summary(&micros), summary);
}

#[test]
fn lines_of_an_identifier_are_indented() {
    let mut table = TimestampTable::new();
    let mut parent = Recorder::new(&mut table, String::from("p"), 0);
    let child = Recorder::new(&mut table, String::from("x\r\n\ny\r"), 0);
    let shown = child.fmt(&table, &micros);
    let expected: String = shown.lines().map(|l| format!("    {}\n", l)).collect();
    parent.add_children(&mut table, vec![child]);
    let all = parent.fmt(&table, &micros);
    assert!(all.contains(&expected));
    assert!(all.contains("    function_id: x\n    \n    y\n    "));
}

#[test]
fn summary_of_several_executions_and_reset() {
    let mut table = TimestampTable::new();
    let mut archive = Archive::init();
    assert_eq!(archive.get_summary(&micros), "");
    let first = Recorder::new(&mut table, String::from("1"), 0);
    let second = Recorder::new(&mut table, String::from("2"), 0);
    archive.insert_recorder(&mut table, first);
    let one = archive.get_summary(&micros);
    assert_eq!(one, text("1", &[]) + "\n\n");
    archive.insert_recorder(&mut table, second);
    assert_eq!(archive.get_summary(&micros), one + &text("2", &[]) + "\n\n");
    archive.reset();
    assert_eq!(archive.get_summary(&micros), "");
    assert_eq!(ArchiveInit { timestamp_count: 4 }.timestamp_count, 4);
}

#[test]
fn owners_are_counted() {
    let mut table = TimestampTable::new();
    let recorder = Recorder::new(&mut table, String::from("f"), 0);
    assert_eq!(recorder.owner_count(&table), 1);
    let sub = recorder.get_sub_recorder(&mut table);
    assert_eq!(recorder.owner_count(&table), 2);
    assert_eq!(sub.owner_count(&table), 2);
    recorder.release(&mut table);
    assert_eq!(sub.owner_count(&table), 1);
}

#[test]
fn new_recorders_leave_the_others_alone() {
    let mut table = TimestampTable::new();
    let first = Recorder::new(&mut table, String::from("1"), 0);
    let mut second = Recorder::new(&mut table, String::from("2"), 0);
    second.record(&mut table, RecordPoint::EngineStart, 3);
    first.release(&mut table);
    let mut third = Recorder::new(&mut table, String::from("3"), 0);
    third.record(&mut table, RecordPoint::EngineStart, 4);
    assert_eq!(second.fmt(&table, &micros), text("2", &[(9, 3)]));
    assert_eq!(third.fmt(&table, &micros), text("3", &[(9, 4)]));
    assert_eq!(second.owner_count(&table), 1);
}
