//! The course of one install or update.
//!
//! A run goes through its stages in a fixed order. Each stage has one piece
//! of outside work pending, which the caller performs; its outcome takes the
//! run to the next stage. Any failure aborts the run: no step is tried
//! again, and the state file is written only after the archive was put in
//! place in full.

use vstd::prelude::*;

use crate::config::{
    with_installed, with_source, with_version, CliConfig, ComponentRecord, RecordedVersion,
    SourceKind, VersionMark,
};
use crate::fetch::{needs_update, update_due};

verus! {

/// The two commands that change an installation.
#[derive(Clone, Copy, Debug, PartialEq, Eq, Structural)]
pub enum Command {
    Install,
    Update,
}

/// How far a run has come.
#[derive(Clone, Copy, Debug, PartialEq, Eq, Structural)]
pub enum Stage {
    Idle,
    DependenciesChecked,
    SourceInfoFetched,
    VersionCompared,
    Downloaded,
    Extracted,
    ConfigPersisted,
    Done,
    Aborted,
}

/// The outside work that a stage waits for.
#[derive(Clone, Copy, Debug, PartialEq, Eq, Structural)]
pub enum Action {
    /// Make sure that the system packages are installed.
    CheckDependencies,
    /// Ask upstream for the latest version on the channel.
    FetchLatest(SourceKind),
    /// Download the archive of the latest version.
    Download(SourceKind),
    /// Put the content of the archive in place of the target.
    Extract,
    /// Record the outcome in the state file.
    Persist,
    /// Tell the user that the run succeeded.
    Report,
}

/// The outcome of a piece of outside work.
#[derive(Debug)]
pub enum Outcome {
    /// The work was done. Asking upstream yields the latest version.
    Succeeded(Option<String>),
    /// The work could not be done.
    Failed,
}

/// The mathematical value of an `Outcome`.
pub enum Event {
    Succeeded(Option<Seq<char>>),
    Failed,
}

impl View for Outcome {
    type V = Event;

    open spec fn view(&self) -> Event {
        match self {
            Outcome::Succeeded(Some(v)) => Event::Succeeded(Some(v@)),
            Outcome::Succeeded(None) => Event::Succeeded(None),
            Outcome::Failed => Event::Failed,
        }
    }
}

/// One install or update of a component.
#[derive(Debug)]
pub struct Pipeline {
    command: Command,
    source: SourceKind,
    stage: Stage,
    /// The version that was recorded when the run began, with its channel.
    recorded: Option<RecordedVersion>,
    /// The latest version, once upstream has told it.
    latest: Option<String>,
}

/// The mathematical value of a `Pipeline`.
pub struct Run {
    pub command: Command,
    pub source: SourceKind,
    pub stage: Stage,
    pub recorded: Option<VersionMark>,
    pub latest: Option<Seq<char>>,
}

impl View for Pipeline {
    type V = Run;

    closed spec fn view(&self) -> Run {
        Run {
            command: self.command,
            source: self.source,
            stage: self.stage,
            recorded: match self.recorded {
                Some(mark) => Some(mark@),
                None => None,
            },
            latest: match self.latest {
                Some(v) => Some(v@),
                None => None,
            },
        }
    }
}

/// The run of `command` on the channel `source` before anything was done.
pub open spec fn started(
    command: Command,
    source: SourceKind,
    recorded: Option<VersionMark>,
) -> Run {
    Run { command, source, stage: Stage::Idle, recorded, latest: None }
}

/// The outside work that `run` waits for; `None` once the run is over.
pub open spec fn pending(run: Run) -> Option<Action> {
    match run.stage {
        Stage::Idle => match run.command {
            Command::Install => Some(Action::CheckDependencies),
            Command::Update => Some(Action::FetchLatest(run.source)),
        },
        Stage::DependenciesChecked => Some(Action::FetchLatest(run.source)),
        Stage::SourceInfoFetched => Some(Action::Download(run.source)),
        Stage::VersionCompared => Some(Action::Download(run.source)),
        Stage::Downloaded => Some(Action::Extract),
        Stage::Extracted => Some(Action::Persist),
        Stage::ConfigPersisted => Some(Action::Report),
        Stage::Done => None,
        Stage::Aborted => None,
    }
}

/// The stage that follows `stage` when its work was done, apart from the
/// stages at which a version comes in.
pub open spec fn stage_after(stage: Stage) -> Stage {
    match stage {
        Stage::Idle => Stage::DependenciesChecked,
        Stage::DependenciesChecked => Stage::SourceInfoFetched,
        Stage::SourceInfoFetched => Stage::Downloaded,
        Stage::VersionCompared => Stage::Downloaded,
        Stage::Downloaded => Stage::Extracted,
        Stage::Extracted => Stage::ConfigPersisted,
        Stage::ConfigPersisted => Stage::Done,
        Stage::Done => Stage::Done,
        Stage::Aborted => Stage::Aborted,
    }
}

/// The run after the work that it waited for came to `event`. A run that is
/// over stays as it is. A failure aborts the run, and so does an answer of
/// upstream without a version. An update whose latest version is the
/// recorded one, recorded for the same channel, is done at once; any other
/// run moves on by one stage.
pub open spec fn advanced(run: Run, event: Event) -> Run {
    match pending(run) {
        None => run,
        Some(action) => match event {
            Event::Failed => Run { stage: Stage::Aborted, ..run },
            Event::Succeeded(payload) => match action {
                Action::FetchLatest(_) => match payload {
                    None => Run { stage: Stage::Aborted, ..run },
                    Some(version) => match run.command {
                        Command::Install => Run {
                            stage: Stage::SourceInfoFetched,
                            latest: Some(version),
                            ..run
                        },
                        Command::Update => Run {
                            stage: if update_due(run.recorded, run.source, version) {
                                Stage::VersionCompared
                            } else {
                                Stage::Done
                            },
                            latest: Some(version),
                            ..run
                        },
                    },
                },
                _ => Run { stage: stage_after(run.stage), ..run },
            },
        },
    }
}

/// Whether the latest version is known at every stage that comes after
/// upstream has told it.
pub open spec fn consistent(run: Run) -> bool {
    (run.stage == Stage::SourceInfoFetched || run.stage == Stage::VersionCompared || run.stage
        == Stage::Downloaded || run.stage == Stage::Extracted || run.stage
        == Stage::ConfigPersisted) ==> run.latest is Some
}

/// A run knows the latest version from the moment upstream has told it.
pub proof fn lemma_runs_are_consistent(
    command: Command,
    source: SourceKind,
    recorded: Option<VersionMark>,
    run: Run,
    event: Event,
)
    ensures
        consistent(started(command, source, recorded)),
        consistent(run) ==> consistent(advanced(run, event)),
{
}

/// How many steps of a run lie behind a stage.
pub open spec fn progress(stage: Stage) -> nat {
    match stage {
        Stage::Idle => 0,
        Stage::DependenciesChecked => 1,
        Stage::SourceInfoFetched => 2,
        Stage::VersionCompared => 2,
        Stage::Downloaded => 3,
        Stage::Extracted => 4,
        Stage::ConfigPersisted => 5,
        Stage::Done => 6,
        Stage::Aborted => 6,
    }
}

/// Whether a run is over.
pub open spec fn is_over(run: Run) -> bool {
    run.stage == Stage::Done || run.stage == Stage::Aborted
}

/// The exit status of a run that is over: 0 where it is done, else 1.
pub open spec fn exit_code(run: Run) -> int {
    if run.stage == Stage::Done {
        0
    } else {
        1
    }
}

/// Any failure aborts the run at once, whatever the stage, and an aborted
/// run stays aborted.
pub proof fn lemma_failure_aborts(run: Run, event: Event)
    ensures
        pending(run) is Some ==> advanced(run, Event::Failed).stage == Stage::Aborted,
        run.stage == Stage::Aborted ==> advanced(run, event).stage == Stage::Aborted,
        run.stage == Stage::Done ==> advanced(run, event).stage == Stage::Done,
        advanced(run, event).stage == Stage::Aborted ==> exit_code(advanced(run, event)) == 1,
{
}

/// No step is tried again: a run that is not over moves strictly forward
/// with every outcome.
pub proof fn lemma_no_retry(run: Run, event: Event)
    requires
        !is_over(run),
    ensures
        progress(advanced(run, event).stage) > progress(run.stage),
{
}

/// The state file is written only after the archive was put in place: the
/// run waits for it at the stage `Extracted` alone, and that stage is
/// reached only from `Downloaded`, by a success.
pub proof fn lemma_persist_only_after_extraction(run: Run, event: Event)
    ensures
        pending(run) == Some(Action::Persist) <==> run.stage == Stage::Extracted,
        advanced(run, event).stage == Stage::Extracted && run.stage != Stage::Extracted
            ==> run.stage == Stage::Downloaded && event is Succeeded,
        advanced(run, event).stage == Stage::Downloaded && run.stage != Stage::Downloaded ==> (
        run.stage == Stage::SourceInfoFetched || run.stage == Stage::VersionCompared)
            && event is Succeeded,
{
}

/// An update that finds the version again that is recorded for its own
/// channel is done at once, with nothing left to download. An update that
/// finds another version, or a version recorded for another channel, even
/// one with the same text, or no recorded version, goes on to the download.
pub proof fn lemma_update_compares_versions(
    source: SourceKind,
    recorded: Option<VersionMark>,
    latest: Seq<char>,
)
    ensures
        ({
            let run = advanced(
                started(Command::Update, source, recorded),
                Event::Succeeded(Some(latest)),
            );
            let same = recorded == Some(VersionMark { source, version: latest });
            &&& same ==> run.stage == Stage::Done && pending(run) is None && exit_code(run) == 0
            &&& !same ==> run.stage == Stage::VersionCompared && pending(run) == Some(
                Action::Download(source),
            )
        }),
{
}

/// An install downloads only after the dependencies were checked and
/// upstream has told the latest version.
pub proof fn lemma_install_checks_dependencies_first(
    source: SourceKind,
    recorded: Option<VersionMark>,
    latest: Seq<char>,
)
    ensures
        ({
            let begun = started(Command::Install, source, recorded);
            let checked = advanced(begun, Event::Succeeded(None));
            let told = advanced(checked, Event::Succeeded(Some(latest)));
            &&& pending(begun) == Some(Action::CheckDependencies)
            &&& advanced(begun, Event::Failed).stage == Stage::Aborted
            &&& pending(checked) == Some(Action::FetchLatest(source))
            &&& pending(told) == Some(Action::Download(source))
            &&& told.latest == Some(latest)
        }),
{
}

/// What a finished run records about `component`: the channel and the
/// latest version, and after an install also that the component is
/// installed.
pub open spec fn recorded(
    m: Map<Seq<char>, ComponentRecord>,
    component: Seq<char>,
    command: Command,
    source: SourceKind,
    version: Seq<char>,
) -> Map<Seq<char>, ComponentRecord> {
    let with_channel = with_source(m, component, source);
    match command {
        Command::Install => with_version(
            with_installed(with_channel, component, true),
            component,
            version,
        ),
        Command::Update => with_version(with_channel, component, version),
    }
}

/// After an install is recorded, the component reads back as installed,
/// from the channel and at the version that were installed.
pub proof fn lemma_install_is_recorded(
    m: Map<Seq<char>, ComponentRecord>,
    component: Seq<char>,
    source: SourceKind,
    version: Seq<char>,
)
    ensures
        recorded(m, component, Command::Install, source, version)[component] == (ComponentRecord {
            source,
            installed: true,
            version: Some(version),
        }),
        recorded(m, component, Command::Install, source, version).dom() == m.dom().insert(
            component,
        ),
{
    assert(recorded(m, component, Command::Install, source, version).dom() =~= m.dom().insert(
        component,
    ));
}

/// Why a command was refused before it did anything.
#[derive(Clone, Copy, Debug, PartialEq, Eq, Structural)]
pub enum Refusal {
    /// The command works on an installed shell, and none is installed.
    NotInstalled,
}

/// The exit status of a command that was refused because the shell is not
/// installed.
pub open spec fn refusal_exit_code() -> int {
    1
}

/// Lets a command through that works on an installed shell: it is refused unless
/// the shell counts as installed.
pub fn require_installed(installed: bool) -> (r: Result<(), Refusal>)
    ensures
        r is Ok <==> installed,
        r is Err ==> r == Err::<(), Refusal>(Refusal::NotInstalled),
{
    if installed {
        Ok(())
    } else {
        Err(Refusal::NotInstalled)
    }
}

/// The exit status of a command that was refused because the shell is not
/// installed.
pub fn refusal_exit_status() -> (r: i32)
    ensures
        r == refusal_exit_code(),
{
    1
}

impl Pipeline {
    #[verifier::type_invariant]
    spec fn well_formed(self) -> bool {
        consistent(self@)
    }

    /// A run of `command` on the channel `source`, for a component whose
    /// recorded version, with the channel it was recorded for, is `recorded`.
    pub fn start(command: Command, source: SourceKind, recorded: Option<RecordedVersion>) -> (r:
        Self)
        ensures
            r@ == started(
                command,
                source,
                match recorded {
                    Some(mark) => Some(mark@),
                    None => None,
                },
            ),
    {
        Pipeline { command, source, stage: Stage::Idle, recorded, latest: None }
    }

    /// A run of `command`, unless the command is refused: an update works
    /// on an installed shell only. `installed` says whether the shell counts
    /// as installed, `recorded` is the version that is recorded for it, with
    /// the channel it was recorded for.
    pub fn begin(
        command: Command,
        source: SourceKind,
        installed: bool,
        recorded: Option<RecordedVersion>,
    ) -> (r: Result<Self, Refusal>)
        ensures
            r is Ok <==> command == Command::Install || installed,
            r is Ok ==> r->Ok_0@ == started(
                command,
                source,
                match recorded {
                    Some(mark) => Some(mark@),
                    None => None,
                },
            ),
            r is Err ==> r->Err_0 == Refusal::NotInstalled,
    {
        if command == Command::Update && !installed {
            Err(Refusal::NotInstalled)
        } else {
            Ok(Pipeline::start(command, source, recorded))
        }
    }

    /// The command that the run carries out.
    pub fn command(&self) -> (r: Command)
        ensures
            r == self@.command,
    {
        self.command
    }

    /// The channel that the run works on.
    pub fn source(&self) -> (r: SourceKind)
        ensures
            r == self@.source,
    {
        self.source
    }

    /// How far the run has come.
    pub fn stage(&self) -> (r: Stage)
        ensures
            r == self@.stage,
    {
        self.stage
    }

    /// The latest version, once upstream has told it.
    pub fn latest(&self) -> (r: Option<&str>)
        ensures
            r is Some <==> self@.latest is Some,
            r is Some ==> r->0@ == self@.latest->0,
    {
        match &self.latest {
            Some(v) => Some(v.as_str()),
            None => None,
        }
    }

    /// The outside work that the run waits for; `None` once the run is over.
    pub fn next_action(&self) -> (r: Option<Action>)
        ensures
            r == pending(self@),
    {
        match self.stage {
            Stage::Idle => match self.command {
                Command::Install => Some(Action::CheckDependencies),
                Command::Update => Some(Action::FetchLatest(self.source)),
            },
            Stage::DependenciesChecked => Some(Action::FetchLatest(self.source)),
            Stage::SourceInfoFetched | Stage::VersionCompared => Some(
                Action::Download(self.source),
            ),
            Stage::Downloaded => Some(Action::Extract),
            Stage::Extracted => Some(Action::Persist),
            Stage::ConfigPersisted => Some(Action::Report),
            Stage::Done | Stage::Aborted => None,
        }
    }

    /// Takes in the outcome of the work that the run waited for.
    pub fn advance(&mut self, outcome: Outcome)
        ensures
            final(self)@ == advanced(old(self)@, outcome@),
    {
        proof {
            use_type_invariant(&*self);
        }
        let action = match self.next_action() {
            Some(action) => action,
            None => {
                return ;
            },
        };
        let payload = match outcome {
            Outcome::Failed => {
                self.stage = Stage::Aborted;
                return ;
            },
            Outcome::Succeeded(payload) => payload,
        };
        match action {
            Action::FetchLatest(_) => match payload {
                None => {
                    self.stage = Stage::Aborted;
                },
                Some(version) => {
                    let due = match &self.recorded {
                        Some(mark) => needs_update(Some(mark), self.source, version.as_str()),
                        None => needs_update(None, self.source, version.as_str()),
                    };
                    self.latest = Some(version);
                    self.stage = match self.command {
                        Command::Install => Stage::SourceInfoFetched,
                        Command::Update => if due {
                            Stage::VersionCompared
                        } else {
                            Stage::Done
                        },
                    };
                },
            },
            Action::CheckDependencies => {
                self.stage = Stage::DependenciesChecked;
            },
            Action::Download(_) => {
                self.stage = Stage::Downloaded;
            },
            Action::Extract => {
                self.stage = Stage::Extracted;
            },
            Action::Persist => {
                self.stage = Stage::ConfigPersisted;
            },
            Action::Report => {
                self.stage = Stage::Done;
            },
        }
    }

    /// Whether the run is over.
    pub fn is_finished(&self) -> (r: bool)
        ensures
            r == is_over(self@),
    {
        self.stage == Stage::Done || self.stage == Stage::Aborted
    }

    /// The exit status of the run once it is over: 0 where it is done, else 1.
    pub fn exit_status(&self) -> (r: i32)
        ensures
            r == exit_code(self@),
    {
        if self.stage == Stage::Done {
            0
        } else {
            1
        }
    }

    /// Records in `cfg` what the run comes to for `component`. This is the
    /// work that the action `Persist` stands for, short of writing the file,
    /// and it is done while the run waits for that action.
    pub fn record(&self, component: &str, cfg: &mut CliConfig)
        requires
            pending(self@) == Some(Action::Persist),
        ensures
            self@.latest is Some,
            final(cfg)@ == recorded(
                old(cfg)@,
                component@,
                self@.command,
                self@.source,
                self@.latest->0,
            ),
    {
        proof {
            use_type_invariant(self);
        }
        cfg.set_component_source(component, self.source);
        if self.command == Command::Install {
            cfg.set_installed(component, true);
        }
        match &self.latest {
            Some(version) => cfg.set_component_version(component, version.clone()),
            None => {},
        }
    }
}

} // verus!
