//! `init`: prepares a project to use the tool. The tool's own repository is
//! added to the project as a submodule, then a line that imports it is
//! added to the project's build script.
//!
//! Running the version-control tool and writing the file are not done here.
//! [`Init::execute`] is one step of the command: it takes what has happened
//! and says what to do next.
use crate::error::{Error, ErrorView};
use crate::parse::{clone_text, text_view};
use vstd::prelude::*;

verus! {

/// The repository of the tool itself.
pub const GIT_URL: &'static str = "https://github.com/Aandreba/zag";

/// The version-control tool.
pub const VCS_TOOL: &'static str = "git";

/// The build script of a project, relative to its directory.
pub const BUILD_FILE: &'static str = "build.zig";

/// The line that imports the submodule into the build script.
pub const IMPORT_LINE: &'static str = "const zag = @import(\"zag/main.zig\");\n";

/// What `init` was asked to do.
#[derive(Debug)]
pub struct Init {
    /// The directory of the project; where none is given, the current one.
    pub path: Option<String>,
}

/// How far the command has come.
#[derive(Debug, PartialEq, Eq)]
pub enum Stage {
    /// Nothing has been done yet.
    Idle,
    /// The version-control tool was asked to add the submodule.
    AddingSubmodule,
    /// The build script was to be patched.
    PatchingBuildScript,
    /// Both steps are done.
    Done,
    /// The command has failed, and nothing more is done.
    Failed(Error),
}

/// A [`Stage`] with its error as a view.
pub enum StageView {
    Idle,
    AddingSubmodule,
    PatchingBuildScript,
    Done,
    Failed(ErrorView),
}

impl View for Stage {
    type V = StageView;

    open spec fn view(&self) -> StageView {
        match self {
            Stage::Idle => StageView::Idle,
            Stage::AddingSubmodule => StageView::AddingSubmodule,
            Stage::PatchingBuildScript => StageView::PatchingBuildScript,
            Stage::Done => StageView::Done,
            Stage::Failed(e) => StageView::Failed(e@),
        }
    }
}

/// What has happened since the last step.
#[derive(Debug, Clone, Copy, PartialEq, Eq)]
pub enum Event {
    /// The command was started.
    Started,
    /// The version-control tool has ended, with `code`, or without one where
    /// a signal ended it.
    SubmoduleExited { code: Option<i32> },
    /// The line was added to the build script.
    BuildScriptPatched,
    /// The last action could not be carried out: the tool could not be run,
    /// or the build script is missing or cannot be written.
    IoFailed,
}

/// What to do next.
#[derive(Debug, PartialEq, Eq)]
pub enum Action {
    /// Run `program` with `arguments` in `directory` (the current one where
    /// none is given), throw away what it prints, and report how it ended.
    AddSubmodule { directory: Option<String>, program: String, arguments: Vec<String> },
    /// Add `line` at the end of `file` in `directory` (the current one where
    /// none is given).
    PatchBuildScript { directory: Option<String>, file: String, line: String },
    /// Nothing: the command has ended, or the event was not one that the
    /// stage waits for.
    Stop,
}

/// An [`Action`] with its texts as sequences of characters.
pub enum ActionView {
    AddSubmodule { directory: Option<Seq<char>>, program: Seq<char>, arguments: Seq<Seq<char>> },
    PatchBuildScript { directory: Option<Seq<char>>, file: Seq<char>, line: Seq<char> },
    Stop,
}

impl View for Action {
    type V = ActionView;

    open spec fn view(&self) -> ActionView {
        match self {
            Action::AddSubmodule { directory, program, arguments } => ActionView::AddSubmodule {
                directory: text_view(*directory),
                program: program@,
                arguments: Seq::new(arguments@.len(), |i: int| arguments@[i]@),
            },
            Action::PatchBuildScript { directory, file, line } => ActionView::PatchBuildScript {
                directory: text_view(*directory),
                file: file@,
                line: line@,
            },
            Action::Stop => ActionView::Stop,
        }
    }
}

/// The call of the version-control tool that adds the submodule.
pub open spec fn add_submodule(directory: Option<Seq<char>>) -> ActionView {
    ActionView::AddSubmodule {
        directory,
        program: VCS_TOOL@,
        arguments: seq!["submodule"@, "add"@, GIT_URL@],
    }
}

/// The patch of the build script.
pub open spec fn patch_build_script(directory: Option<Seq<char>>) -> ActionView {
    ActionView::PatchBuildScript { directory, file: BUILD_FILE@, line: IMPORT_LINE@ }
}

/// One step of the command in the project at `directory`: the stage that
/// follows `stage` on `event`, and what to do next.
///
/// The submodule is added first. The build script is patched only after the
/// tool has ended with 0; any other end is `SubprocessFailed`. A step that
/// could not be carried out is `IoError`. `Done` and `Failed` are final,
/// and an event that a stage does not wait for changes nothing.
pub open spec fn step(directory: Option<Seq<char>>, stage: StageView, event: Event) -> (
    StageView,
    ActionView,
) {
    match (stage, event) {
        (StageView::Idle, Event::Started) => (
            StageView::AddingSubmodule,
            add_submodule(directory),
        ),
        (StageView::AddingSubmodule, Event::SubmoduleExited { code }) => if code == Some(0i32) {
            (StageView::PatchingBuildScript, patch_build_script(directory))
        } else {
            (StageView::Failed(ErrorView::SubprocessFailed { code }), ActionView::Stop)
        },
        (StageView::AddingSubmodule, Event::IoFailed) => (
            StageView::Failed(ErrorView::IoError { path: VCS_TOOL@ }),
            ActionView::Stop,
        ),
        (StageView::PatchingBuildScript, Event::BuildScriptPatched) => (
            StageView::Done,
            ActionView::Stop,
        ),
        (StageView::PatchingBuildScript, Event::IoFailed) => (
            StageView::Failed(ErrorView::IoError { path: BUILD_FILE@ }),
            ActionView::Stop,
        ),
        _ => (stage, ActionView::Stop),
    }
}

/// The stage after a run of events, and the actions that were asked for on
/// the way, one for each event.
pub open spec fn run(directory: Option<Seq<char>>, stage: StageView, events: Seq<Event>) -> (
    StageView,
    Seq<ActionView>,
)
    decreases events.len(),
{
    if events.len() == 0 {
        (stage, Seq::empty())
    } else {
        let (before, actions) = run(directory, stage, events.drop_last());
        let (after, action) = step(directory, before, events.last());
        (after, actions.push(action))
    }
}

/// From a failed command nothing follows: whatever happens, the stage stays
/// and no action is asked for.
pub proof fn lemma_failed_is_final(
    directory: Option<Seq<char>>,
    error: ErrorView,
    events: Seq<Event>,
)
    ensures
        run(directory, StageView::Failed(error), events).0 == StageView::Failed(error),
        run(directory, StageView::Failed(error), events).1.len() == events.len(),
        forall|i: int|
            0 <= i < events.len() ==> run(directory, StageView::Failed(error), events).1[i]
                == ActionView::Stop,
    decreases events.len(),
{
    if events.len() > 0 {
        lemma_failed_is_final(directory, error, events.drop_last());
    }
}

/// A run that goes on after another is the run over both lists of events.
pub proof fn lemma_run_append(
    directory: Option<Seq<char>>,
    stage: StageView,
    first: Seq<Event>,
    second: Seq<Event>,
)
    ensures
        run(directory, stage, first + second).0 == run(
            directory,
            run(directory, stage, first).0,
            second,
        ).0,
        run(directory, stage, first + second).1 == run(directory, stage, first).1 + run(
            directory,
            run(directory, stage, first).0,
            second,
        ).1,
    decreases second.len(),
{
    if second.len() == 0 {
        assert(first + second =~= first);
        assert(run(directory, stage, first).1 + Seq::empty() =~= run(directory, stage, first).1);
    } else {
        lemma_run_append(directory, stage, first, second.drop_last());
        assert((first + second).drop_last() =~= first + second.drop_last());
        let middle = run(directory, stage, first).0;
        assert(run(directory, stage, first + second).1 =~= run(directory, stage, first).1 + run(
            directory,
            middle,
            second,
        ).1);
    }
}

/// Where the version-control tool does not end with 0, the command fails
/// with `SubprocessFailed`, and the build script is never written: whatever
/// happens afterwards, no action asks for the patch.
pub proof fn lemma_failed_submodule_never_patches(
    directory: Option<Seq<char>>,
    code: Option<i32>,
    later: Seq<Event>,
)
    requires
        code != Some(0i32),
    ensures
        ({
            let events = seq![Event::Started, Event::SubmoduleExited { code }] + later;
            let (stage, actions) = run(directory, StageView::Idle, events);
            &&& stage == StageView::Failed(ErrorView::SubprocessFailed { code })
            &&& actions.len() == events.len()
            &&& forall|i: int| 0 <= i < actions.len() ==> !(actions[i] is PatchBuildScript)
        }),
{
    let start = seq![Event::Started, Event::SubmoduleExited { code }];
    let failed = ErrorView::SubprocessFailed { code };
    assert(run(directory, StageView::Idle, start).0 == StageView::Failed(failed)
        && run(directory, StageView::Idle, start).1 == seq![
        add_submodule(directory),
        ActionView::Stop,
    ]) by {
        reveal_with_fuel(run, 3);
        assert(start.drop_last() =~= seq![Event::Started]);
        assert(start.drop_last().drop_last() =~= Seq::<Event>::empty());
        let one = run(directory, StageView::Idle, start.drop_last());
        assert(one.1 =~= seq![add_submodule(directory)]);
        assert(run(directory, StageView::Idle, start).1 =~= seq![
            add_submodule(directory),
            ActionView::Stop,
        ]);
    }
    lemma_run_append(directory, StageView::Idle, start, later);
    lemma_failed_is_final(directory, failed, later);
}

impl Init {
    /// One step of the command: given the stage it is in and what has
    /// happened, the stage that follows and what to do next. The caller
    /// starts with `Stage::Idle` and `Event::Started`, carries out each
    /// action and comes back with its event, until the action is `Stop`.
    ///
    /// The build script is asked for only when the version-control tool has
    /// ended with 0; where it has ended otherwise the command has failed
    /// with `SubprocessFailed`.
    pub fn execute(&self, stage: Stage, event: Event) -> (next: (Stage, Action))
        ensures
            (next.0@, next.1@) == step(text_view(self.path), stage@, event),
            next.1@ is PatchBuildScript <==> stage@ is AddingSubmodule && event
                == (Event::SubmoduleExited { code: Some(0i32) }),
            stage@ is AddingSubmodule && event is SubmoduleExited && event->code != Some(0i32)
                ==> next.0@ == StageView::Failed(ErrorView::SubprocessFailed { code: event->code })
                && next.1@ is Stop,
    {
        match (stage, event) {
            (Stage::Idle, Event::Started) => {
                let mut arguments: Vec<String> = Vec::new();
                arguments.push("submodule".to_owned());
                arguments.push("add".to_owned());
                arguments.push(GIT_URL.to_owned());
                let action = Action::AddSubmodule {
                    directory: clone_text(&self.path),
                    program: VCS_TOOL.to_owned(),
                    arguments,
                };
                assert(action@ =~= add_submodule(text_view(self.path))) by {
                    assert(action@->AddSubmodule_arguments =~= seq!["submodule"@, "add"@, GIT_URL@]);
                }
                (Stage::AddingSubmodule, action)
            },
            (Stage::AddingSubmodule, Event::SubmoduleExited { code }) => {
                let ended_well = match code {
                    Some(c) => c == 0,
                    None => false,
                };
                if ended_well {
                    (
                        Stage::PatchingBuildScript,
                        Action::PatchBuildScript {
                            directory: clone_text(&self.path),
                            file: BUILD_FILE.to_owned(),
                            line: IMPORT_LINE.to_owned(),
                        },
                    )
                } else {
                    (Stage::Failed(Error::SubprocessFailed { code }), Action::Stop)
                }
            },
            (Stage::AddingSubmodule, Event::IoFailed) => (
                Stage::Failed(Error::IoError { path: VCS_TOOL.to_owned() }),
                Action::Stop,
            ),
            (Stage::PatchingBuildScript, Event::BuildScriptPatched) => (Stage::Done, Action::Stop),
            (Stage::PatchingBuildScript, Event::IoFailed) => (
                Stage::Failed(Error::IoError { path: BUILD_FILE.to_owned() }),
                Action::Stop,
            ),
            (stage, _) => (stage, Action::Stop),
        }
    }
}

} // verus!
