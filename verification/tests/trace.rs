use lt_ai_coach_exporter::trace::{mark_trace, ExportTrace, PERFORMANCE_FILE};

#[test]
fn trace_lists_stages_and_the_total() {
    let mut trace = ExportTrace::new(1_000);
    trace.mark("first", 6_999);
    trace.mark("second", 7_000);
    trace.mark("third", 2_007_000);
    assert_eq!(
        trace.finish(2_009_999),
        "stage\tduration_us\nfirst\t5\nsecond\t0\nthird\t2000\nexport_total\t2008\n"
    );
}

#[test]
fn trace_without_stages_has_the_total_alone() {
    assert_eq!(ExportTrace::new(5).finish(5), "stage\tduration_us\nexport_total\t0\n");
}

#[test]
fn time_does_not_run_backwards() {
    let mut trace = ExportTrace::new(9_000);
    trace.mark("early", 2_000);
    trace.mark("late", 4_000);
    assert_eq!(
        trace.finish(1_000),
        "stage\tduration_us\nearly\t0\nlate\t2\nexport_total\t0\n"
    );
}

#[test]
fn marks_need_a_running_trace() {
    let mut none = None;
    mark_trace(&mut none, "stage", 1);
    assert!(none.is_none());

    let mut some = Some(ExportTrace::new(0));
    mark_trace(&mut some, "stage", 3_000);
    assert_eq!(
        some.unwrap().finish(4_000),
        "stage\tduration_us\nstage\t3\nexport_total\t4\n"
    );
    assert_eq!(PERFORMANCE_FILE, "performance_export.tsv");
}

#[test]
fn stages_fit_in_the_total() {
    let readings = [1_500u128, 2_499, 3_498, 9_000, 9_001];
    let mut trace = ExportTrace::new(readings[0]);
    for reading in &readings[1..] {
        trace.mark("s", *reading);
    }
    let contents = trace.finish(9_400);
    let durations: Vec<u64> = contents
        .lines()
        .skip(1)
        .map(|line| line.split('\t').nth(1).unwrap().parse().unwrap())
        .collect();
    assert_eq!(durations, vec![0, 0, 5, 0, 7]);
    assert!(durations[..4].iter().sum::<u64>() <= durations[4]);
}
