use rs_script::answer::{answer_is_yes, wants_retry};
use rs_script::edit_loop::{EditLoop, LoopAction, LoopError, LoopEvent, Phase, RetryReason};

#[test]
fn failing_build_and_no_retry_ends_without_artifact() {
    let mut l = EditLoop::new(true, true, false);
    let mut builds = 0;
    let mut action = l.step(LoopEvent::Start);
    let outcome = loop {
        action = match action {
            LoopAction::Build { .. } => {
                builds += 1;
                l.step(LoopEvent::BuildFinished { success: false, code: Some(101) })
            }
            LoopAction::AskRetry(reason) => {
                assert_eq!(reason, RetryReason::BuildFailed(Some(101)));
                l.step(LoopEvent::RetryAnswer("n\n".to_string()))
            }
            LoopAction::OpenEditor => l.step(LoopEvent::EditorClosed),
            LoopAction::ReadArtifact => l.step(LoopEvent::ArtifactMissing),
            LoopAction::Finish(artifact) => break Ok(artifact),
            LoopAction::Fail(e) => break Err(e),
        };
    };
    assert!(matches!(outcome, Ok(None)));
    assert_eq!(builds, 1);
    assert_eq!(l.current_phase(), Phase::Done);
}

#[test]
fn edit_build_and_read_gives_artifact() {
    let mut l = EditLoop::new(false, true, true);
    assert!(matches!(l.step(LoopEvent::Start), LoopAction::OpenEditor));
    assert!(matches!(
        l.step(LoopEvent::EditorClosed),
        LoopAction::Build { release: false }
    ));
    assert!(matches!(
        l.step(LoopEvent::BuildFinished { success: true, code: Some(0) }),
        LoopAction::ReadArtifact
    ));
    match l.step(LoopEvent::ArtifactRead(vec![1, 2])) {
        LoopAction::Finish(Some(b)) => assert_eq!(b, vec![1, 2]),
        _ => panic!("expected the artifact"),
    }
}

#[test]
fn missing_artifact_asks_and_yes_reopens_editor() {
    let mut l = EditLoop::new(true, true, false);
    assert!(matches!(l.step(LoopEvent::Start), LoopAction::Build { release: true }));
    l.step(LoopEvent::BuildFinished { success: true, code: Some(0) });
    assert!(matches!(
        l.step(LoopEvent::ArtifactMissing),
        LoopAction::AskRetry(RetryReason::ArtifactMissing)
    ));
    assert!(matches!(
        l.step(LoopEvent::RetryAnswer(" Y \n".to_string())),
        LoopAction::OpenEditor
    ));
    assert_eq!(l.current_phase(), Phase::Editing);
}

#[test]
fn no_artifact_wanted_stops_after_edit() {
    let mut l = EditLoop::new(false, false, false);
    assert!(matches!(l.step(LoopEvent::Start), LoopAction::OpenEditor));
    assert!(matches!(l.step(LoopEvent::EditorClosed), LoopAction::Finish(None)));
}

#[test]
fn editor_failure_is_fatal() {
    let mut l = EditLoop::new(false, true, false);
    l.step(LoopEvent::Start);
    assert!(matches!(
        l.step(LoopEvent::EditorFailed),
        LoopAction::Fail(LoopError::EditorFailed)
    ));
}

#[test]
fn event_out_of_order_is_refused() {
    let mut l = EditLoop::new(false, true, false);
    assert!(matches!(
        l.step(LoopEvent::ArtifactMissing),
        LoopAction::Fail(LoopError::OutOfOrder)
    ));
}

#[test]
fn build_args_and_artifact_path_follow_profile() {
    let debug = EditLoop::new(false, true, true);
    assert_eq!(debug.build_args(), vec!["build"]);
    assert_eq!(debug.artifact_path("proj", ""), vec!["target", "debug", "proj"]);
    let release = EditLoop::new(false, true, false);
    assert_eq!(release.build_args(), vec!["build", "--release"]);
    assert_eq!(
        release.artifact_path("proj", ".exe"),
        vec!["target", "release", "proj.exe"]
    );
}

#[test]
fn retry_answers() {
    assert!(wants_retry("y"));
    assert!(wants_retry("Y\n"));
    assert!(wants_retry("  y\t"));
    assert!(!wants_retry("yes"));
    assert!(!wants_retry(""));
    assert!(!wants_retry("n"));
    assert!(answer_is_yes("y"));
    assert!(!answer_is_yes("Y"));
}
