//! The build orchestrator's decisions: edit, build, read the artifact, and on failure ask
//! whether to go round again.
//!
//! The caller performs each action that [`EditLoop::step`] returns and hands back what came
//! of it as the next event.
use crate::answer::{ascii_lower, trimmed, wants_retry};
use vstd::prelude::*;
use vstd::string::StringExecFns;

verus! {

/// Where the orchestrator stands.
#[derive(Clone, Copy, Debug, PartialEq, Eq, Structural)]
pub enum Phase {
    /// Nothing has happened yet.
    Starting,
    /// The editor is open on the workspace.
    Editing,
    /// The build tool is running.
    Building,
    /// The built artifact is being read.
    Reading,
    /// The operator is being asked whether to retry.
    Asking,
    /// The loop is over.
    Done,
}

/// Why the operator is asked whether to retry.
#[derive(Clone, Copy, Debug, PartialEq, Eq, Structural)]
pub enum RetryReason {
    /// The build tool exited unsuccessfully, with this code when it had one.
    BuildFailed(Option<i32>),
    /// The build succeeded but no artifact stands at the expected path.
    ArtifactMissing,
}

/// Why the loop stopped without an outcome.
#[derive(Clone, Copy, Debug, PartialEq, Eq, Structural)]
pub enum LoopError {
    /// The editor could not be run: there is nothing to recover.
    EditorFailed,
    /// An event arrived that does not answer the last action.
    OutOfOrder,
}

/// What the caller is to do next.
pub enum LoopAction {
    /// Run the editor on the workspace and wait for it to close.
    OpenEditor,
    /// Run the build tool, with the release profile or not.
    Build { release: bool },
    /// Read the artifact at [`EditLoop::artifact_path`].
    ReadArtifact,
    /// Report the reason and ask the operator whether to retry.
    AskRetry(RetryReason),
    /// Stop, with the built artifact if there is one.
    Finish(Option<Vec<u8>>),
    /// Stop with an error.
    Fail(LoopError),
}

/// What came of the last action.
pub enum LoopEvent {
    /// Begin the loop.
    Start,
    /// The editor closed.
    EditorClosed,
    /// The editor could not be run.
    EditorFailed,
    /// The build tool exited.
    BuildFinished { success: bool, code: Option<i32> },
    /// The artifact was read.
    ArtifactRead(Vec<u8>),
    /// No artifact stands at the expected path.
    ArtifactMissing,
    /// The operator answered the retry prompt.
    RetryAnswer(String),
}

/// Where the loop goes once editing is over: build, or stop at once when no artifact is
/// wanted.
pub open spec fn after_edit(compile_binary: bool, use_debug_mode: bool) -> (Phase, LoopAction) {
    if compile_binary {
        (Phase::Building, LoopAction::Build { release: !use_debug_mode })
    } else {
        (Phase::Done, LoopAction::Finish(None))
    }
}

/// The orchestrator's transition: from a phase and an event to the next phase and action.
pub open spec fn transition(
    phase: Phase,
    skip_first_edit: bool,
    compile_binary: bool,
    use_debug_mode: bool,
    event: LoopEvent,
) -> (Phase, LoopAction) {
    match (phase, event) {
        (Phase::Starting, LoopEvent::Start) => if skip_first_edit {
            after_edit(compile_binary, use_debug_mode)
        } else {
            (Phase::Editing, LoopAction::OpenEditor)
        },
        (Phase::Editing, LoopEvent::EditorClosed) => after_edit(compile_binary, use_debug_mode),
        (Phase::Editing, LoopEvent::EditorFailed) => (
            Phase::Done,
            LoopAction::Fail(LoopError::EditorFailed),
        ),
        (Phase::Building, LoopEvent::BuildFinished { success, code }) => if success {
            (Phase::Reading, LoopAction::ReadArtifact)
        } else {
            (Phase::Asking, LoopAction::AskRetry(RetryReason::BuildFailed(code)))
        },
        (Phase::Reading, LoopEvent::ArtifactRead(bytes)) => (
            Phase::Done,
            LoopAction::Finish(Some(bytes)),
        ),
        (Phase::Reading, LoopEvent::ArtifactMissing) => (
            Phase::Asking,
            LoopAction::AskRetry(RetryReason::ArtifactMissing),
        ),
        (Phase::Asking, LoopEvent::RetryAnswer(answer)) => if trimmed(ascii_lower(answer@)) == seq![
            'y',
        ] {
            (Phase::Editing, LoopAction::OpenEditor)
        } else {
            (Phase::Done, LoopAction::Finish(None))
        },
        _ => (Phase::Done, LoopAction::Fail(LoopError::OutOfOrder)),
    }
}

/// A loop that builds first, sees the build fail, and is told not to retry ends with no
/// artifact, having asked for exactly one build.
pub proof fn law_failed_build_declined_retry_ends(
    use_debug_mode: bool,
    code: Option<i32>,
    answer: String,
)
    requires
        trimmed(ascii_lower(answer@)) != seq!['y'],
    ensures
        ({
            let (started, first) = transition(Phase::Starting, true, true, use_debug_mode, LoopEvent::Start);
            let (built, second) = transition(
                started,
                true,
                true,
                use_debug_mode,
                LoopEvent::BuildFinished { success: false, code },
            );
            let (answered, third) = transition(
                built,
                true,
                true,
                use_debug_mode,
                LoopEvent::RetryAnswer(answer),
            );
            &&& first == LoopAction::Build { release: !use_debug_mode }
            &&& second == LoopAction::AskRetry(RetryReason::BuildFailed(code))
            &&& third == LoopAction::Finish(None)
            &&& answered == Phase::Done
        }),
{
}

/// Without `compile_binary`, the edit is never followed by a build.
pub proof fn law_no_build_without_compile(
    phase: Phase,
    skip_first_edit: bool,
    use_debug_mode: bool,
    event: LoopEvent,
)
    ensures
        !(transition(phase, skip_first_edit, false, use_debug_mode, event).1 is Build),
{
}

/// One session of the edit, build and retry loop.
pub struct EditLoop {
    phase: Phase,
    skip_first_edit: bool,
    compile_binary: bool,
    use_debug_mode: bool,
}

impl EditLoop {
    pub closed spec fn phase(&self) -> Phase {
        self.phase
    }

    pub closed spec fn skip_first_edit(&self) -> bool {
        self.skip_first_edit
    }

    pub closed spec fn compile_binary(&self) -> bool {
        self.compile_binary
    }

    pub closed spec fn use_debug_mode(&self) -> bool {
        self.use_debug_mode
    }

    /// A loop that has not started. With `skip_first_edit` it builds before any edit; without
    /// `compile_binary` it stops after the edit with no artifact.
    pub fn new(skip_first_edit: bool, compile_binary: bool, use_debug_mode: bool) -> (r: Self)
        ensures
            r.phase() == Phase::Starting,
            r.skip_first_edit() == skip_first_edit,
            r.compile_binary() == compile_binary,
            r.use_debug_mode() == use_debug_mode,
    {
        EditLoop { phase: Phase::Starting, skip_first_edit, compile_binary, use_debug_mode }
    }

    /// The current phase.
    pub fn current_phase(&self) -> (r: Phase)
        ensures
            r == self.phase(),
    {
        self.phase
    }

    fn after_edit(&mut self) -> (r: LoopAction)
        ensures
            (final(self).phase(), r) == after_edit(old(self).compile_binary(), old(self).use_debug_mode()),
            final(self).skip_first_edit() == old(self).skip_first_edit(),
            final(self).compile_binary() == old(self).compile_binary(),
            final(self).use_debug_mode() == old(self).use_debug_mode(),
    {
        if self.compile_binary {
            self.phase = Phase::Building;
            LoopAction::Build { release: !self.use_debug_mode }
        } else {
            self.phase = Phase::Done;
            LoopAction::Finish(None)
        }
    }

    /// Takes what came of the last action and decides the next one.
    pub fn step(&mut self, event: LoopEvent) -> (r: LoopAction)
        ensures
            (final(self).phase(), r) == transition(
                old(self).phase(),
                old(self).skip_first_edit(),
                old(self).compile_binary(),
                old(self).use_debug_mode(),
                event,
            ),
            final(self).skip_first_edit() == old(self).skip_first_edit(),
            final(self).compile_binary() == old(self).compile_binary(),
            final(self).use_debug_mode() == old(self).use_debug_mode(),
    {
        match (self.phase, event) {
            (Phase::Starting, LoopEvent::Start) => {
                if self.skip_first_edit {
                    self.after_edit()
                } else {
                    self.phase = Phase::Editing;
                    LoopAction::OpenEditor
                }
            },
            (Phase::Editing, LoopEvent::EditorClosed) => self.after_edit(),
            (Phase::Editing, LoopEvent::EditorFailed) => {
                self.phase = Phase::Done;
                LoopAction::Fail(LoopError::EditorFailed)
            },
            (Phase::Building, LoopEvent::BuildFinished { success, code }) => {
                if success {
                    self.phase = Phase::Reading;
                    LoopAction::ReadArtifact
                } else {
                    self.phase = Phase::Asking;
                    LoopAction::AskRetry(RetryReason::BuildFailed(code))
                }
            },
            (Phase::Reading, LoopEvent::ArtifactRead(bytes)) => {
                self.phase = Phase::Done;
                LoopAction::Finish(Some(bytes))
            },
            (Phase::Reading, LoopEvent::ArtifactMissing) => {
                self.phase = Phase::Asking;
                LoopAction::AskRetry(RetryReason::ArtifactMissing)
            },
            (Phase::Asking, LoopEvent::RetryAnswer(answer)) => {
                if wants_retry(answer.as_str()) {
                    self.phase = Phase::Editing;
                    LoopAction::OpenEditor
                } else {
                    self.phase = Phase::Done;
                    LoopAction::Finish(None)
                }
            },
            _ => {
                self.phase = Phase::Done;
                LoopAction::Fail(LoopError::OutOfOrder)
            },
        }
    }

    /// The build tool's arguments for this loop's profile.
    pub fn build_args(&self) -> (r: Vec<String>)
        ensures
            r@.len() == (if self.use_debug_mode() { 1int } else { 2int }),
            r@[0]@ == seq!['b', 'u', 'i', 'l', 'd'],
            !self.use_debug_mode() ==> r@[1]@ == seq!['-', '-', 'r', 'e', 'l', 'e', 'a', 's', 'e'],
    {
        proof {
            reveal_strlit("build");
            reveal_strlit("--release");
        }
        let mut args: Vec<String> = Vec::new();
        args.push(String::from_str("build"));
        if !self.use_debug_mode {
            args.push(String::from_str("--release"));
        }
        proof {
            assert(args@[0]@ =~= seq!['b', 'u', 'i', 'l', 'd']);
            if !self.use_debug_mode {
                assert(args@[1]@ =~= seq!['-', '-', 'r', 'e', 'l', 'e', 'a', 's', 'e']);
            }
        }
        args
    }

    /// Where the build leaves the artifact, relative to the workspace: the build output
    /// directory, the profile's directory, and the project name with the platform's
    /// executable suffix.
    pub fn artifact_path(&self, project_name: &str, exe_suffix: &str) -> (r: Vec<String>)
        ensures
            r@.len() == 3,
            r@[0]@ == seq!['t', 'a', 'r', 'g', 'e', 't'],
            r@[1]@ == (if self.use_debug_mode() {
                seq!['d', 'e', 'b', 'u', 'g']
            } else {
                seq!['r', 'e', 'l', 'e', 'a', 's', 'e']
            }),
            r@[2]@ == project_name@ + exe_suffix@,
    {
        proof {
            reveal_strlit("target");
            reveal_strlit("debug");
            reveal_strlit("release");
        }
        let mut path: Vec<String> = Vec::new();
        path.push(String::from_str("target"));
        if self.use_debug_mode {
            path.push(String::from_str("debug"));
        } else {
            path.push(String::from_str("release"));
        }
        let mut file = String::from_str(project_name);
        file.append(exe_suffix);
        path.push(file);
        proof {
            assert(path@[0]@ =~= seq!['t', 'a', 'r', 'g', 'e', 't']);
            if self.use_debug_mode {
                assert(path@[1]@ =~= seq!['d', 'e', 'b', 'u', 'g']);
            } else {
                assert(path@[1]@ =~= seq!['r', 'e', 'l', 'e', 'a', 's', 'e']);
            }
        }
        path
    }
}

} // verus!
