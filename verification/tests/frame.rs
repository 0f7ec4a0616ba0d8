use lt_ai_coach_exporter::frame::{FrameStep, Request};

fn steps(in_game: bool, portraits: bool, export: bool) -> Vec<FrameStep> {
    let mut all = Vec::new();
    let mut step = FrameStep::first(in_game);
    while step != FrameStep::Done {
        all.push(step);
        let seen = match step {
            FrameStep::Look(Request::Portraits) => portraits,
            _ => export,
        };
        step = step.next(seen);
    }
    all
}

#[test]
fn nothing_happens_outside_a_game() {
    assert_eq!(steps(false, true, true), vec![]);
}

#[test]
fn portraits_come_before_an_export() {
    let portraits = vec![
        FrameStep::Look(Request::Portraits),
        FrameStep::Run(Request::Portraits),
        FrameStep::Clear(Request::Portraits),
    ];
    assert_eq!(steps(true, true, true), portraits);
    assert_eq!(steps(true, true, false), portraits);
}

#[test]
fn an_export_is_run_and_its_request_removed() {
    assert_eq!(
        steps(true, false, true),
        vec![
            FrameStep::Look(Request::Portraits),
            FrameStep::Look(Request::Export),
            FrameStep::Run(Request::Export),
            FrameStep::Clear(Request::Export),
        ]
    );
}

#[test]
fn without_a_request_nothing_is_exported() {
    assert_eq!(
        steps(true, false, false),
        vec![FrameStep::Look(Request::Portraits), FrameStep::Look(Request::Export)]
    );
    assert_eq!(FrameStep::Done.next(true), FrameStep::Done);
}

#[test]
fn requests_have_their_files() {
    assert_eq!(Request::Export.file(), "request.txt");
    assert_eq!(Request::Portraits.file(), "portrait_request.txt");
}
