//! The course of a run: the search for a template, the preparation, the process and
//! the cleaning up.
//!
//! A run is a state machine. It says what is to be done next, and goes on with what
//! came of it.

use vstd::prelude::*;
use vstd::string::StringExecFns;

use crate::environment;
use crate::paths;
use crate::plan;
use crate::plan::{PlanModel, RunPlan, Step, StepModel, Temp, TempModel};
use crate::templates;
use crate::templates::{Ask, AskModel, Reply, Search, SearchModel};
use crate::text;
use crate::topology::{GraphModel, TopologyTemplate};

verus! {

// ----------------------------------------------------------------------- types

/// What a run goes by.
pub struct Setup {
    /// The identifier of the example.
    pub id: String,
    /// The directory of its scenario.
    pub base_dir: String,
    pub filename: String,
    /// Edited code with the identifier of the run, where the code was edited.
    pub edited: Option<(String, String)>,
    pub timeout_secs: Option<u64>,
    pub api_url: String,
    /// What the environment of the process gets besides the address of the API and
    /// the template.
    pub settings: Vec<(String, String)>,
    pub topology: TopologyTemplate,
}

/// How a run ended.
pub enum RunOutcome {
    /// No template could be found.
    NoTemplate,
    /// Nothing runs files with that extension.
    Unsupported(String),
    /// The temporary directory could not be made.
    NoTempDir { dir: String, error: String },
    /// The edited code could not be written.
    NotWritten { file: String, error: String },
    /// The process could not be started.
    NotSpawned { error: String, elapsed_ms: u64 },
    /// The process took too long.
    TimedOut { secs: u64, elapsed_ms: u64 },
    /// The process ended by itself.
    Exited { exit_code: i32, success: bool, stdout: String, stderr: String, elapsed_ms: u64 },
}

/// How far the work on a plan has come.
pub enum Stage {
    /// So many steps are done; when all are, the process is to be run.
    Prepared(usize),
    /// What is temporary is to be removed.
    Clean(RunOutcome),
}

/// Where a run stands.
pub enum RunState {
    Choosing(Search),
    Working { plan: RunPlan, env: Vec<(String, String)>, stage: Stage },
    Over(RunOutcome),
}

/// A run.
pub struct Run {
    pub setup: Setup,
    pub state: RunState,
}

/// What is to be done next.
pub enum Action<'a> {
    /// Ask whether the template service knows this template.
    Validate(String),
    /// Ask for the templates.
    ListTemplates,
    /// Ask for the rows of the store catalog.
    ListCatalog,
    /// See to the Python requirements in this directory.
    EnsureRequirements(&'a str),
    CreateDir(&'a str),
    WriteFile { path: &'a str, code: &'a str },
    /// Copy a file, where it is there.
    CopyIfPresent { from: &'a str, to: &'a str },
    /// Run the process of the plan in that environment.
    Spawn { plan: &'a RunPlan, env: &'a Vec<(String, String)> },
    /// Remove a directory with all that is in it.
    RemoveDir(&'a str),
    RemoveFile(&'a str),
    /// Nothing: this is how the run ended.
    Finish(&'a RunOutcome),
}

/// What came of an action.
pub enum Event {
    /// The reply to a question.
    Answer(Reply),
    /// It was done.
    Done,
    /// It failed, for this reason.
    Failed(String),
    /// The process ended. There is no code where a signal ended it.
    Exited { code: Option<i32>, success: bool, stdout: Vec<u8>, stderr: Vec<u8>, elapsed_ms: u64 },
    /// The process could not be started.
    NotSpawned { error: String, elapsed_ms: u64 },
    /// The process took too long.
    TimedOut { elapsed_ms: u64 },
}

/// What a [`Setup`] holds.
pub struct SetupModel {
    pub id: Seq<char>,
    pub base_dir: Seq<char>,
    pub filename: Seq<char>,
    pub edited: Option<(Seq<char>, Seq<char>)>,
    pub timeout_secs: Option<u64>,
    pub api_url: Seq<char>,
    pub settings: Seq<(Seq<char>, Seq<char>)>,
    pub topology: GraphModel,
}

/// What a [`RunOutcome`] holds.
pub enum OutcomeModel {
    NoTemplate,
    Unsupported(Seq<char>),
    NoTempDir { dir: Seq<char>, error: Seq<char> },
    NotWritten { file: Seq<char>, error: Seq<char> },
    NotSpawned { error: Seq<char>, elapsed_ms: u64 },
    TimedOut { secs: u64, elapsed_ms: u64 },
    Exited {
        exit_code: i32,
        success: bool,
        stdout: Seq<char>,
        stderr: Seq<char>,
        elapsed_ms: u64,
    },
}

/// What a [`Stage`] holds.
pub enum StageModel {
    Prepared(int),
    Clean(OutcomeModel),
}

/// What a [`RunState`] holds.
pub enum StateModel {
    Choosing(SearchModel),
    Working { plan: PlanModel, env: Seq<(Seq<char>, Seq<char>)>, stage: StageModel },
    Over(OutcomeModel),
}

/// What an [`Action`] holds.
pub enum ActionModel {
    Validate(Seq<char>),
    ListTemplates,
    ListCatalog,
    EnsureRequirements(Seq<char>),
    CreateDir(Seq<char>),
    WriteFile { path: Seq<char>, code: Seq<char> },
    CopyIfPresent { from: Seq<char>, to: Seq<char> },
    Spawn { plan: PlanModel, env: Seq<(Seq<char>, Seq<char>)> },
    RemoveDir(Seq<char>),
    RemoveFile(Seq<char>),
    Finish(OutcomeModel),
}

/// What an [`Event`] holds.
pub enum EventModel {
    Answer(templates::ReplyModel),
    Done,
    Failed(Seq<char>),
    Exited {
        code: Option<i32>,
        success: bool,
        stdout: Seq<u8>,
        stderr: Seq<u8>,
        elapsed_ms: u64,
    },
    NotSpawned { error: Seq<char>, elapsed_ms: u64 },
    TimedOut { elapsed_ms: u64 },
}

impl Setup {
    pub open spec fn model(self) -> SetupModel {
        SetupModel {
            id: self.id@,
            base_dir: self.base_dir@,
            filename: self.filename@,
            edited: plan::edited_model(self.edited),
            timeout_secs: self.timeout_secs,
            api_url: self.api_url@,
            settings: text::pairs(self.settings@),
            topology: self.topology.model(),
        }
    }
}

impl RunOutcome {
    pub open spec fn model(self) -> OutcomeModel {
        match self {
            RunOutcome::NoTemplate => OutcomeModel::NoTemplate,
            RunOutcome::Unsupported(extension) => OutcomeModel::Unsupported(extension@),
            RunOutcome::NoTempDir { dir, error } => OutcomeModel::NoTempDir {
                dir: dir@,
                error: error@,
            },
            RunOutcome::NotWritten { file, error } => OutcomeModel::NotWritten {
                file: file@,
                error: error@,
            },
            RunOutcome::NotSpawned { error, elapsed_ms } => OutcomeModel::NotSpawned {
                error: error@,
                elapsed_ms,
            },
            RunOutcome::TimedOut { secs, elapsed_ms } => OutcomeModel::TimedOut {
                secs,
                elapsed_ms,
            },
            RunOutcome::Exited { exit_code, success, stdout, stderr, elapsed_ms } =>
                OutcomeModel::Exited {
                exit_code,
                success,
                stdout: stdout@,
                stderr: stderr@,
                elapsed_ms,
            },
        }
    }
}

impl Stage {
    pub open spec fn model(self) -> StageModel {
        match self {
            Stage::Prepared(done) => StageModel::Prepared(done as int),
            Stage::Clean(outcome) => StageModel::Clean(outcome.model()),
        }
    }
}

impl RunState {
    pub open spec fn model(self) -> StateModel {
        match self {
            RunState::Choosing(search) => StateModel::Choosing(search.model()),
            RunState::Working { plan, env, stage } => StateModel::Working {
                plan: plan.model(),
                env: text::pairs(env@),
                stage: stage.model(),
            },
            RunState::Over(outcome) => StateModel::Over(outcome.model()),
        }
    }
}

impl<'a> Action<'a> {
    pub open spec fn model(self) -> ActionModel {
        match self {
            Action::Validate(id) => ActionModel::Validate(id@),
            Action::ListTemplates => ActionModel::ListTemplates,
            Action::ListCatalog => ActionModel::ListCatalog,
            Action::EnsureRequirements(dir) => ActionModel::EnsureRequirements(dir@),
            Action::CreateDir(dir) => ActionModel::CreateDir(dir@),
            Action::WriteFile { path, code } => ActionModel::WriteFile {
                path: path@,
                code: code@,
            },
            Action::CopyIfPresent { from, to } => ActionModel::CopyIfPresent {
                from: from@,
                to: to@,
            },
            Action::Spawn { plan, env } => ActionModel::Spawn {
                plan: plan.model(),
                env: text::pairs(env@),
            },
            Action::RemoveDir(dir) => ActionModel::RemoveDir(dir@),
            Action::RemoveFile(file) => ActionModel::RemoveFile(file@),
            Action::Finish(outcome) => ActionModel::Finish(outcome.model()),
        }
    }
}

impl Event {
    pub open spec fn model(self) -> EventModel {
        match self {
            Event::Answer(reply) => EventModel::Answer(reply.model()),
            Event::Done => EventModel::Done,
            Event::Failed(error) => EventModel::Failed(error@),
            Event::Exited { code, success, stdout, stderr, elapsed_ms } => EventModel::Exited {
                code,
                success,
                stdout: stdout@,
                stderr: stderr@,
                elapsed_ms,
            },
            Event::NotSpawned { error, elapsed_ms } => EventModel::NotSpawned {
                error: error@,
                elapsed_ms,
            },
            Event::TimedOut { elapsed_ms } => EventModel::TimedOut { elapsed_ms },
        }
    }
}

// -------------------------------------------------------------------- the work

/// The state of a run whose process is done with: what is temporary is removed
/// first.
pub open spec fn closing(
    plan: PlanModel,
    env: Seq<(Seq<char>, Seq<char>)>,
    outcome: OutcomeModel,
) -> StateModel {
    if plan.temp is Some {
        StateModel::Working { plan, env, stage: StageModel::Clean(outcome) }
    } else {
        StateModel::Over(outcome)
    }
}

/// The work on a plan after what came of its step of that number. That requirements
/// are installed or files copied is not needed to go on. Where edited code cannot be
/// written, the directory that was made for it is removed.
pub open spec fn stepped(
    plan: PlanModel,
    env: Seq<(Seq<char>, Seq<char>)>,
    i: int,
    event: EventModel,
) -> StateModel {
    let next = StateModel::Working { plan, env, stage: StageModel::Prepared(i + 1) };
    match (plan.steps[i], event) {
        (StepModel::Install(_), _) => next,
        (StepModel::CopyIfPresent { .. }, _) => next,
        (_, EventModel::Done) => next,
        (StepModel::CreateDir(dir), EventModel::Failed(error)) => StateModel::Over(
            OutcomeModel::NoTempDir { dir, error },
        ),
        (StepModel::WriteFile { path, .. }, EventModel::Failed(error)) => {
            let outcome = OutcomeModel::NotWritten { file: path, error };
            match plan.temp {
                Some(TempModel::Dir(_)) => closing(plan, env, outcome),
                _ => StateModel::Over(outcome),
            }
        },
        _ => StateModel::Working { plan, env, stage: StageModel::Prepared(i) },
    }
}

/// How a process ended.
pub open spec fn process_outcome(plan: PlanModel, event: EventModel) -> Option<OutcomeModel> {
    match event {
        EventModel::Exited { code, success, stdout, stderr, elapsed_ms } => Some(
            OutcomeModel::Exited {
                exit_code: match code {
                    Some(code) => code,
                    None => (-1int) as i32,
                },
                success,
                stdout: text::lossy(stdout),
                stderr: text::lossy(stderr),
                elapsed_ms,
            },
        ),
        EventModel::NotSpawned { error, elapsed_ms } => Some(
            OutcomeModel::NotSpawned { error, elapsed_ms },
        ),
        EventModel::TimedOut { elapsed_ms } => Some(
            OutcomeModel::TimedOut { secs: plan.timeout_secs, elapsed_ms },
        ),
        _ => None,
    }
}

/// The work on a plan after an event. One that does not fit the stage changes
/// nothing.
pub open spec fn worked(
    plan: PlanModel,
    env: Seq<(Seq<char>, Seq<char>)>,
    stage: StageModel,
    event: EventModel,
) -> StateModel {
    match stage {
        StageModel::Prepared(done) => if done < plan.steps.len() {
            stepped(plan, env, done, event)
        } else {
            match process_outcome(plan, event) {
                Some(outcome) => closing(plan, env, outcome),
                None => StateModel::Working { plan, env, stage },
            }
        },
        StageModel::Clean(outcome) => StateModel::Over(outcome),
    }
}

/// What a stage asks for.
pub open spec fn stage_action(
    plan: PlanModel,
    env: Seq<(Seq<char>, Seq<char>)>,
    stage: StageModel,
) -> ActionModel {
    match stage {
        StageModel::Prepared(done) => if done < plan.steps.len() {
            match plan.steps[done] {
                StepModel::Install(dir) => ActionModel::EnsureRequirements(dir),
                StepModel::CreateDir(dir) => ActionModel::CreateDir(dir),
                StepModel::WriteFile { path, code } => ActionModel::WriteFile { path, code },
                StepModel::CopyIfPresent { from, to } => ActionModel::CopyIfPresent { from, to },
            }
        } else {
            ActionModel::Spawn { plan, env }
        },
        StageModel::Clean(outcome) => match plan.temp {
            Some(TempModel::Dir(dir)) => ActionModel::RemoveDir(dir),
            Some(TempModel::File(file)) => ActionModel::RemoveFile(file),
            None => ActionModel::Finish(outcome),
        },
    }
}

// --------------------------------------------------------------------- the run

/// The environment of the process: the address of the API, the template, and the
/// other settings.
pub open spec fn environment(setup: SetupModel, template: Seq<char>) -> Seq<
    (Seq<char>, Seq<char>),
> {
    seq![("CUBE_API_URL"@, setup.api_url), ("CUBE_TEMPLATE_ID"@, template)] + setup.settings
}

/// A run that has found its template.
pub open spec fn begun(setup: SetupModel, template: Seq<char>) -> StateModel {
    match plan::plan_of(setup.base_dir, setup.filename, setup.edited, setup.timeout_secs) {
        Ok(plan) => StateModel::Working {
            plan,
            env: environment(setup, template),
            stage: StageModel::Prepared(0),
        },
        Err(extension) => StateModel::Over(OutcomeModel::Unsupported(extension)),
    }
}

/// A run at a point of its search. Where the search is over, the run goes on.
pub open spec fn searching(setup: SetupModel, search: SearchModel) -> StateModel {
    match templates::asks(search) {
        AskModel::Done(Some(template)) => begun(setup, template),
        AskModel::Done(None) => StateModel::Over(OutcomeModel::NoTemplate),
        _ => StateModel::Choosing(search),
    }
}

/// A run after an event. One that does not fit changes nothing.
pub open spec fn after(setup: SetupModel, state: StateModel, event: EventModel) -> StateModel {
    match state {
        StateModel::Choosing(search) => match event {
            EventModel::Answer(reply) => searching(setup, templates::after(search, reply)),
            _ => state,
        },
        StateModel::Working { plan, env, stage } => worked(plan, env, stage, event),
        StateModel::Over(_) => state,
    }
}

/// What a run asks for. A search that is over asks for nothing more, so that a run
/// in its search has a question.
pub open spec fn action_of(state: StateModel) -> ActionModel {
    match state {
        StateModel::Choosing(search) => match templates::asks(search) {
            AskModel::Validate(id) => ActionModel::Validate(id),
            AskModel::ListTemplates => ActionModel::ListTemplates,
            AskModel::ListCatalog => ActionModel::ListCatalog,
            AskModel::Done(_) => ActionModel::Finish(OutcomeModel::NoTemplate),
        },
        StateModel::Working { plan, env, stage } => stage_action(plan, env, stage),
        StateModel::Over(outcome) => ActionModel::Finish(outcome),
    }
}

fn close(plan: RunPlan, env: Vec<(String, String)>, outcome: RunOutcome) -> (r: RunState)
    ensures
        r.model() == closing(plan.model(), text::pairs(env@), outcome.model()),
{
    if plan.temp.is_some() {
        RunState::Working { plan, env, stage: Stage::Clean(outcome) }
    } else {
        RunState::Over(outcome)
    }
}

fn step_on(plan: RunPlan, env: Vec<(String, String)>, i: usize, event: Event) -> (r: RunState)
    requires
        i < plan.steps.len(),
    ensures
        r.model() == stepped(plan.model(), text::pairs(env@), i as int, event.model()),
{
    assert(plan.model().steps[i as int] == plan.steps@[i as int].model());
    match (&plan.steps[i], event) {
        (Step::Install(_), _) => RunState::Working { plan, env, stage: Stage::Prepared(i + 1) },
        (Step::CopyIfPresent { .. }, _) => {
            RunState::Working { plan, env, stage: Stage::Prepared(i + 1) }
        },
        (_, Event::Done) => RunState::Working { plan, env, stage: Stage::Prepared(i + 1) },
        (Step::CreateDir(dir), Event::Failed(error)) => {
            RunState::Over(RunOutcome::NoTempDir { dir: dir.clone(), error })
        },
        (Step::WriteFile { path, .. }, Event::Failed(error)) => {
            let outcome = RunOutcome::NotWritten { file: path.clone(), error };
            let in_dir = match &plan.temp {
                Some(Temp::Dir(_)) => true,
                _ => false,
            };
            if in_dir {
                close(plan, env, outcome)
            } else {
                RunState::Over(outcome)
            }
        },
        _ => RunState::Working { plan, env, stage: Stage::Prepared(i) },
    }
}

fn outcome_of_process(timeout_secs: u64, event: Event) -> (r: Option<RunOutcome>)
    ensures
        forall|plan: PlanModel|
            plan.timeout_secs == timeout_secs ==> (match r {
                Some(outcome) => Some(outcome.model()),
                None => None,
            }) == #[trigger] process_outcome(plan, event.model()),
{
    match event {
        Event::Exited { code, success, stdout, stderr, elapsed_ms } => {
            let exit_code: i32 = match code {
                Some(code) => code,
                None => -1,
            };
            Some(
                RunOutcome::Exited {
                    exit_code,
                    success,
                    stdout: text::lossy_text(stdout.as_slice()),
                    stderr: text::lossy_text(stderr.as_slice()),
                    elapsed_ms,
                },
            )
        },
        Event::NotSpawned { error, elapsed_ms } => Some(
            RunOutcome::NotSpawned { error, elapsed_ms },
        ),
        Event::TimedOut { elapsed_ms } => Some(
            RunOutcome::TimedOut { secs: timeout_secs, elapsed_ms },
        ),
        _ => None,
    }
}

fn work_on(plan: RunPlan, env: Vec<(String, String)>, stage: Stage, event: Event) -> (r: RunState)
    ensures
        r.model() == worked(plan.model(), text::pairs(env@), stage.model(), event.model()),
{
    match stage {
        Stage::Prepared(done) => if done < plan.steps.len() {
            step_on(plan, env, done, event)
        } else {
            match outcome_of_process(plan.timeout_secs, event) {
                Some(outcome) => close(plan, env, outcome),
                None => RunState::Working { plan, env, stage: Stage::Prepared(done) },
            }
        },
        Stage::Clean(outcome) => RunState::Over(outcome),
    }
}

fn begin(setup: &Setup, template: String) -> (r: RunState)
    ensures
        r.model() == begun(setup.model(), template@),
{
    let edited = match &setup.edited {
        Some((code, run_id)) => Some((code.clone(), run_id.clone())),
        None => None,
    };
    let planned = plan::plan_run(
        setup.base_dir.as_str(),
        setup.filename.as_str(),
        edited,
        setup.timeout_secs,
    );
    match planned {
        Ok(plan) => {
            let mut env: Vec<(String, String)> = Vec::new();
            env.push((String::from_str("CUBE_API_URL"), setup.api_url.clone()));
            env.push((String::from_str("CUBE_TEMPLATE_ID"), template));
            let ghost first = env@;
            let mut i: usize = 0;
            while i < setup.settings.len()
                invariant
                    i <= setup.settings@.len(),
                    text::pairs(env@) =~= text::pairs(first) + text::pairs(setup.settings@).take(
                        i as int,
                    ),
                decreases setup.settings.len() - i,
            {
                let ghost earlier = env@;
                env.push((setup.settings[i].0.clone(), setup.settings[i].1.clone()));
                assert(text::pairs(env@) =~= text::pairs(earlier).push(
                    text::pairs(setup.settings@)[i as int],
                ));
                i += 1;
            }
            assert(text::pairs(setup.settings@).take(i as int) =~= text::pairs(setup.settings@));
            assert(text::pairs(env@) =~= environment(setup.model(), template@));
            RunState::Working { plan, env, stage: Stage::Prepared(0) }
        },
        Err(extension) => RunState::Over(RunOutcome::Unsupported(extension)),
    }
}

fn search_on(setup: &Setup, search: Search) -> (r: RunState)
    ensures
        r.model() == searching(setup.model(), search.model()),
{
    match search.ask() {
        Ask::Done(Some(template)) => begin(setup, template),
        Ask::Done(None) => RunState::Over(RunOutcome::NoTemplate),
        _ => RunState::Choosing(search),
    }
}

impl Run {
    /// A run that starts with a search.
    pub fn start(setup: Setup, search: Search) -> (r: Run)
        ensures
            r.setup == setup,
            r.state.model() == searching(setup.model(), search.model()),
    {
        let state = search_on(&setup, search);
        Run { setup, state }
    }

    /// The run after an event. One that does not fit changes nothing.
    pub fn after(self, event: Event) -> (r: Run)
        ensures
            r.setup == self.setup,
            r.state.model() == after(self.setup.model(), self.state.model(), event.model()),
    {
        let setup = self.setup;
        let state = match self.state {
            RunState::Choosing(search) => match event {
                Event::Answer(reply) => search_on(&setup, search.after(reply)),
                _ => RunState::Choosing(search),
            },
            RunState::Working { plan, env, stage } => work_on(plan, env, stage, event),
            RunState::Over(outcome) => RunState::Over(outcome),
        };
        Run { setup, state }
    }

    /// What is to be done next.
    pub fn action<'a>(&'a self) -> (r: Action<'a>)
        ensures
            r.model() == action_of(self.state.model()),
    {
        match &self.state {
            RunState::Choosing(search) => match search.ask() {
                Ask::Validate(id) => Action::Validate(id),
                Ask::ListTemplates => Action::ListTemplates,
                Ask::ListCatalog => Action::ListCatalog,
                Ask::Done(_) => Action::Finish(&RunOutcome::NoTemplate),
            },
            RunState::Working { plan, env, stage } => match stage {
                Stage::Prepared(done) => if *done < plan.steps.len() {
                    assert(plan.model().steps[*done as int] == plan.steps@[*done as int].model());
                    match &plan.steps[*done] {
                        Step::Install(dir) => Action::EnsureRequirements(dir.as_str()),
                        Step::CreateDir(dir) => Action::CreateDir(dir.as_str()),
                        Step::WriteFile { path, code } => Action::WriteFile {
                            path: path.as_str(),
                            code: code.as_str(),
                        },
                        Step::CopyIfPresent { from, to } => Action::CopyIfPresent {
                            from: from.as_str(),
                            to: to.as_str(),
                        },
                    }
                } else {
                    Action::Spawn { plan, env }
                },
                Stage::Clean(outcome) => match &plan.temp {
                    Some(Temp::Dir(dir)) => Action::RemoveDir(dir.as_str()),
                    Some(Temp::File(file)) => Action::RemoveFile(file.as_str()),
                    None => Action::Finish(outcome),
                },
            },
            RunState::Over(outcome) => Action::Finish(outcome),
        }
    }
}

// ------------------------------------------------------------------------ laws

/// The path that a step makes for the time of the run. What lies in a directory that
/// was made for the run goes with it.
pub open spec fn made_by(step: StepModel, temp: Option<TempModel>) -> Option<Seq<char>> {
    match step {
        StepModel::CreateDir(dir) => Some(dir),
        StepModel::WriteFile { path, .. } => match temp {
            Some(TempModel::Dir(_)) => None,
            _ => Some(path),
        },
        _ => None,
    }
}

/// The path that is removed after a run.
pub open spec fn temp_path(temp: Option<TempModel>) -> Option<Seq<char>> {
    match temp {
        Some(TempModel::Dir(dir)) => Some(dir),
        Some(TempModel::File(file)) => Some(file),
        None => None,
    }
}

/// Whether a plan makes nothing but what it removes, and that once.
pub open spec fn is_tidy(plan: PlanModel) -> bool {
    &&& forall|k: int|
        0 <= k < plan.steps.len() && made_by(#[trigger] plan.steps[k], plan.temp) is Some
            ==> made_by(plan.steps[k], plan.temp) == temp_path(plan.temp)
    &&& forall|j: int, k: int|
        0 <= j < k < plan.steps.len() && made_by(#[trigger] plan.steps[j], plan.temp) is Some
            ==> made_by(#[trigger] plan.steps[k], plan.temp) is None
}

/// The temporary paths that are there after an action and what came of it. An action
/// that failed counts as one that made nothing.
pub open spec fn disk_after(
    disk: Set<Seq<char>>,
    temp: Option<TempModel>,
    action: ActionModel,
    event: EventModel,
) -> Set<Seq<char>> {
    match action {
        ActionModel::CreateDir(dir) => if event is Done {
            disk.insert(dir)
        } else {
            disk
        },
        ActionModel::WriteFile { path, .. } => match temp {
            Some(TempModel::Dir(_)) => disk,
            _ => if event is Done {
                disk.insert(path)
            } else {
                disk
            },
        },
        ActionModel::RemoveDir(dir) => disk.remove(dir),
        ActionModel::RemoveFile(file) => disk.remove(file),
        _ => disk,
    }
}

/// The plan of a run that has one.
pub open spec fn temp_of(state: StateModel) -> Option<TempModel> {
    match state {
        StateModel::Working { plan, .. } => plan.temp,
        _ => None,
    }
}

/// A run and the temporary paths that are there, after some events.
pub open spec fn history(
    setup: SetupModel,
    state: StateModel,
    disk: Set<Seq<char>>,
    events: Seq<EventModel>,
) -> (StateModel, Set<Seq<char>>)
    decreases events.len(),
{
    if events.len() == 0 {
        (state, disk)
    } else {
        let (before, there) = history(setup, state, disk, events.drop_last());
        (
            after(setup, before, events.last()),
            disk_after(there, temp_of(before), action_of(before), events.last()),
        )
    }
}

/// Whether the temporary paths that are there are those that the run will remove.
pub open spec fn in_order(state: StateModel, disk: Set<Seq<char>>) -> bool {
    match state {
        StateModel::Working { plan, stage, .. } => {
            &&& is_tidy(plan)
            &&& forall|path: Seq<char>| #[trigger]
                disk.contains(path) ==> temp_path(plan.temp) == Some(path)
            &&& stage matches StageModel::Prepared(done) ==> {
                &&& 0 <= done <= plan.steps.len()
                &&& forall|k: int|
                    done <= k < plan.steps.len() && made_by(
                        #[trigger] plan.steps[k],
                        plan.temp,
                    ) is Some ==> disk =~= Set::<Seq<char>>::empty()
            }
        },
        _ => disk =~= Set::<Seq<char>>::empty(),
    }
}

/// The plan of an example makes nothing but what it removes.
pub proof fn lemma_plans_are_tidy(
    base: Seq<char>,
    filename: Seq<char>,
    edited: Option<(Seq<char>, Seq<char>)>,
    timeout_secs: Option<u64>,
)
    ensures
        plan::plan_of(base, filename, edited, timeout_secs) matches Ok(plan) ==> is_tidy(plan),
{
    if let Ok(plan) = plan::plan_of(base, filename, edited, timeout_secs) {
        let script = paths::joined(base, filename);
        let extension = text::lowered(paths::extension(script));
        let first = plan::install_steps(plan.program, base);
        assert(first.len() <= 1);
        if let Some((code, run_id)) = edited {
            let edit = plan::edit_of(base, filename, extension, code, run_id);
            assert(plan.steps =~= first + edit.steps);
            assert forall|k: int| 0 <= k < plan.steps.len() implies #[trigger] plan.steps[k] == if k
                < first.len() {
                first[k]
            } else {
                edit.steps[k - first.len()]
            } by {}
            assert(edit.steps.len() <= 4);
        } else {
            assert(plan.steps =~= first);
        }
    }
}

proof fn lemma_event_keeps_order(
    setup: SetupModel,
    state: StateModel,
    disk: Set<Seq<char>>,
    event: EventModel,
)
    requires
        in_order(state, disk),
    ensures
        in_order(
            after(setup, state, event),
            disk_after(disk, temp_of(state), action_of(state), event),
        ),
{
    match state {
        StateModel::Choosing(search) => {
            lemma_plans_are_tidy(
                setup.base_dir,
                setup.filename,
                setup.edited,
                setup.timeout_secs,
            );
        },
        StateModel::Working { plan, env, stage } => {
            let next = disk_after(disk, temp_of(state), action_of(state), event);
            match stage {
                StageModel::Prepared(done) => {
                    if done < plan.steps.len() {
                        let step = plan.steps[done];
                        assert(made_by(step, plan.temp) is Some ==> made_by(step, plan.temp)
                            == temp_path(plan.temp));
                    }
                },
                StageModel::Clean(_) => {},
            }
        },
        StateModel::Over(_) => {},
    }
}

/// Whatever happens, a run that has ended has asked for the removal of all that it
/// made for itself.
pub proof fn lemma_nothing_is_left(
    setup: SetupModel,
    search: SearchModel,
    events: Seq<EventModel>,
)
    ensures
        ({
            let (state, disk) = history(
                setup,
                searching(setup, search),
                Set::empty(),
                events,
            );
            &&& in_order(state, disk)
            &&& state is Over ==> disk == Set::<Seq<char>>::empty()
        }),
    decreases events.len(),
{
    let start = searching(setup, search);
    if events.len() == 0 {
        lemma_plans_are_tidy(setup.base_dir, setup.filename, setup.edited, setup.timeout_secs);
    } else {
        lemma_nothing_is_left(setup, search, events.drop_last());
        let (before, there) = history(setup, start, Set::empty(), events.drop_last());
        lemma_event_keeps_order(setup, before, there, events.last());
    }
}

/// A run after so many answers to what its search wants.
pub open spec fn after_answers(
    setup: SetupModel,
    state: StateModel,
    world: templates::World,
    n: nat,
) -> StateModel
    decreases n,
{
    if n == 0 {
        state
    } else {
        let next = match state {
            StateModel::Choosing(search) => after(
                setup,
                state,
                EventModel::Answer(templates::reply_in(world, templates::asks(search))),
            ),
            _ => state,
        };
        after_answers(setup, next, world, (n - 1) as nat)
    }
}

/// A run whose search has come to that outcome.
pub open spec fn chosen(setup: SetupModel, template: Option<Seq<char>>) -> StateModel {
    match template {
        Some(template) => begun(setup, template),
        None => StateModel::Over(OutcomeModel::NoTemplate),
    }
}

/// A run goes on with the template that its search comes upon, or ends where it
/// comes upon none.
pub proof fn lemma_run_takes_the_template(
    setup: SetupModel,
    search: SearchModel,
    world: templates::World,
)
    ensures
        exists|n: nat| #[trigger]
            after_answers(setup, searching(setup, search), world, n) == chosen(
                setup,
                templates::outcome(search, world),
            ),
    decreases templates::weight(search.tasks), templates::id_count(search.tasks),
{
    let end = chosen(setup, templates::outcome(search, world));
    if templates::asks(search) is Done {
        templates::lemma_over_is_outcome(search, world);
        assert(after_answers(setup, searching(setup, search), world, 0) == end);
    } else {
        let reply = templates::reply_in(world, templates::asks(search));
        let next = templates::after(search, reply);
        templates::lemma_reply_goes_on(search, world);
        lemma_run_takes_the_template(setup, next, world);
        templates::lemma_reply_keeps_outcome(search, world);
        let n = choose|n: nat| #[trigger]
            after_answers(setup, searching(setup, next), world, n) == chosen(
                setup,
                templates::outcome(next, world),
            );
        assert(after(setup, searching(setup, search), EventModel::Answer(reply)) == searching(
            setup,
            next,
        ));
        assert(after_answers(setup, searching(setup, search), world, n + 1) == end);
    }
}

/// Whether an event is one that an action can have.
pub open spec fn fits(action: ActionModel, event: EventModel) -> bool {
    match action {
        ActionModel::Validate(_) => event matches EventModel::Answer(
            templates::ReplyModel::Valid(_),
        ),
        ActionModel::ListTemplates => event matches EventModel::Answer(
            templates::ReplyModel::Templates(_),
        ),
        ActionModel::ListCatalog => event matches EventModel::Answer(
            templates::ReplyModel::Catalog(_),
        ),
        ActionModel::Spawn { .. } => event is Exited || event is NotSpawned || event is TimedOut,
        ActionModel::Finish(_) => false,
        _ => event is Done || event is Failed,
    }
}

/// How many actions the work on a plan has before it at most.
pub open spec fn work_left(plan: PlanModel, stage: StageModel) -> int {
    match stage {
        StageModel::Prepared(done) => plan.steps.len() - done + 2,
        StageModel::Clean(_) => 1,
    }
}

/// The work on a plan comes to an end: whatever comes of an action brings it nearer.
pub proof fn lemma_work_goes_on(
    plan: PlanModel,
    env: Seq<(Seq<char>, Seq<char>)>,
    stage: StageModel,
    event: EventModel,
)
    requires
        stage matches StageModel::Prepared(done) ==> 0 <= done <= plan.steps.len(),
        fits(stage_action(plan, env, stage), event),
    ensures
        match worked(plan, env, stage, event) {
            StateModel::Working { plan: same, stage: next, .. } => same == plan && 0 < work_left(
                plan,
                next,
            ) < work_left(plan, stage),
            StateModel::Over(_) => true,
            StateModel::Choosing(_) => false,
        },
{
}

/// The process of an example that is built as a package runs in the directory with
/// its file: the one that was made for edited code, or that of the scenario.
pub proof fn lemma_package_runs_in_its_directory(
    base: Seq<char>,
    filename: Seq<char>,
    edited: Option<(Seq<char>, Seq<char>)>,
    timeout_secs: Option<u64>,
)
    requires
        base.len() > 0,
        base.last() != '/',
        paths::is_plain_name(filename),
        edited matches Some((_, run_id)) ==> plan::is_run_id(run_id),
    ensures
        plan::plan_of(base, filename, edited, timeout_secs) matches Ok(plan) ==> (plan.program
            == "go"@ ==> match plan.temp {
            Some(TempModel::Dir(dir)) => plan.work_dir == dir,
            Some(TempModel::File(_)) => false,
            None => plan.work_dir == base,
        }),
{
    if let Ok(plan) = plan::plan_of(base, filename, edited, timeout_secs) {
        let script = paths::joined(base, filename);
        let extension = text::lowered(paths::extension(script));
        reveal_strlit("go");
        reveal_strlit("python3");
        reveal_strlit("bash");
        reveal_strlit("node");
        assert("go"@.len() == 2 && "python3"@.len() == 7 && "bash"@.len() == 4 && "node"@.len() == 4);
        paths::lemma_joined_lies_in_base(base, filename);
        if let Some((code, run_id)) = edited {
            plan::lemma_plain_temp_name(run_id, extension);
            let name = plan::temp_name(run_id);
            let dir = paths::joined(base, name);
            assert(dir.last() == name.last());
            assert(name[0] != '/');
            paths::lemma_joined_lies_in_base(dir, filename);
        }
    }
}

/// How a run ends, once that is settled: nothing but the cleaning up is left.
pub open spec fn settled_on(state: StateModel) -> Option<OutcomeModel> {
    match state {
        StateModel::Over(outcome) => Some(outcome),
        StateModel::Working { stage: StageModel::Clean(outcome), .. } => Some(outcome),
        _ => None,
    }
}

/// How a run ends does not change any more once it is settled, whatever happens.
pub proof fn lemma_outcome_stays(setup: SetupModel, state: StateModel, event: EventModel)
    ensures
        settled_on(state) matches Some(outcome) ==> settled_on(after(setup, state, event)) == Some(
            outcome,
        ),
{
}

/// The text that is shown of some bytes: the characters that they encode, where they
/// are UTF-8.
pub open spec fn shown(bytes: Seq<u8>) -> Seq<char> {
    if vstd::utf8::valid_utf8(bytes) {
        vstd::utf8::decode_utf8(bytes)
    } else {
        text::utf8_lossy(bytes)
    }
}

/// What a process did is how its run ends: a process that ended by itself with all
/// that it wrote to either stream, its exit code (-1 where a signal ended it), whether
/// it succeeded and its time; one that could not be started with the reason; one that
/// took too long with the time that it was given.
pub proof fn lemma_process_settles_the_run(
    setup: SetupModel,
    plan: PlanModel,
    env: Seq<(Seq<char>, Seq<char>)>,
    event: EventModel,
)
    ensures
        ({
            let stage = StageModel::Prepared(plan.steps.len() as int);
            let end = settled_on(after(setup, StateModel::Working { plan, env, stage }, event));
            &&& event matches EventModel::Exited { code, success, stdout, stderr, elapsed_ms } ==> {
                &&& end matches Some(
                    OutcomeModel::Exited {
                        exit_code: shown_code,
                        success: shown_success,
                        stdout: shown_stdout,
                        stderr: shown_stderr,
                        elapsed_ms: shown_ms,
                    },
                )
                &&& shown_stdout == shown(stdout)
                &&& shown_stderr == shown(stderr)
                &&& shown_code == (match code {
                    Some(code) => code as int,
                    None => -1,
                })
                &&& shown_success == success
                &&& shown_ms == elapsed_ms
            }
            &&& event matches EventModel::NotSpawned { error, elapsed_ms } ==> end == Some(
                OutcomeModel::NotSpawned { error, elapsed_ms },
            )
            &&& event matches EventModel::TimedOut { elapsed_ms } ==> end == Some(
                OutcomeModel::TimedOut { secs: plan.timeout_secs, elapsed_ms },
            )
        }),
{
}

/// The step that an action carries out.
pub open spec fn step_of(action: ActionModel) -> Option<StepModel> {
    match action {
        ActionModel::EnsureRequirements(dir) => Some(StepModel::Install(dir)),
        ActionModel::CreateDir(dir) => Some(StepModel::CreateDir(dir)),
        ActionModel::WriteFile { path, code } => Some(StepModel::WriteFile { path, code }),
        ActionModel::CopyIfPresent { from, to } => Some(StepModel::CopyIfPresent { from, to }),
        _ => None,
    }
}

/// The steps of a plan are asked for one by one, in order, and the process after the
/// last of them and not before. A step that is done leads to the next; that
/// requirements are installed or files copied is not waited for.
pub proof fn lemma_steps_come_in_order(
    setup: SetupModel,
    plan: PlanModel,
    env: Seq<(Seq<char>, Seq<char>)>,
    i: int,
    error: Seq<char>,
)
    requires
        0 <= i <= plan.steps.len(),
    ensures
        ({
            let state = StateModel::Working { plan, env, stage: StageModel::Prepared(i) };
            let next = StateModel::Working { plan, env, stage: StageModel::Prepared(i + 1) };
            &&& i < plan.steps.len() ==> {
                &&& step_of(action_of(state)) == Some(plan.steps[i])
                &&& after(setup, state, EventModel::Done) == next
                &&& plan.steps[i] is Install || plan.steps[i] is CopyIfPresent ==> after(
                    setup,
                    state,
                    EventModel::Failed(error),
                ) == next
            }
            &&& i == plan.steps.len() ==> action_of(state) == (ActionModel::Spawn { plan, env })
        }),
{
}

/// A directory that cannot be made, or code that cannot be written, ends the run
/// before its process, with the path and the reason.
pub proof fn lemma_failed_step_settles_the_run(
    setup: SetupModel,
    plan: PlanModel,
    env: Seq<(Seq<char>, Seq<char>)>,
    i: int,
    error: Seq<char>,
)
    requires
        0 <= i < plan.steps.len(),
    ensures
        ({
            let state = StateModel::Working { plan, env, stage: StageModel::Prepared(i) };
            let end = settled_on(after(setup, state, EventModel::Failed(error)));
            &&& plan.steps[i] matches StepModel::CreateDir(dir) ==> end == Some(
                OutcomeModel::NoTempDir { dir, error },
            )
            &&& plan.steps[i] matches StepModel::WriteFile { path, .. } ==> end == Some(
                OutcomeModel::NotWritten { file: path, error },
            )
        }),
{
}

/// A process sees the template that was found, the address of the API, and every
/// setting; a setting counts over the other two.
pub proof fn lemma_process_sees_its_settings(
    setup: SetupModel,
    template: Seq<char>,
    name: Seq<char>,
)
    ensures
        ({
            let seen = environment::value_of(environment(setup, template), name);
            &&& environment::value_of(setup.settings, name) is Some ==> seen
                == environment::value_of(setup.settings, name)
            &&& environment::value_of(setup.settings, name) is None ==> {
                &&& name == "CUBE_TEMPLATE_ID"@ ==> seen == Some(template)
                &&& name == "CUBE_API_URL"@ ==> seen == Some(setup.api_url)
                &&& name != "CUBE_TEMPLATE_ID"@ && name != "CUBE_API_URL"@ ==> seen is None
            }
        }),
{
    reveal_strlit("CUBE_TEMPLATE_ID");
    reveal_strlit("CUBE_API_URL");
    assert("CUBE_TEMPLATE_ID"@.len() == 16 && "CUBE_API_URL"@.len() == 12);
    let a = seq![("CUBE_API_URL"@, setup.api_url)];
    let b = seq![("CUBE_TEMPLATE_ID"@, template)];
    assert(environment(setup, template) =~= (a + b) + setup.settings);
    environment::lemma_later_value_counts(a + b, setup.settings, name);
    environment::lemma_later_value_counts(a, b, name);
    environment::lemma_value_of_one("CUBE_API_URL"@, setup.api_url, name);
    environment::lemma_value_of_one("CUBE_TEMPLATE_ID"@, template, name);
}

/// A run that has found its template works on the plan of its own file, from the first
/// step on, with that template in the environment; or it ends with the extension that
/// nothing runs.
pub proof fn lemma_run_works_on_its_plan(setup: SetupModel, template: Seq<char>)
    ensures
        match plan::plan_of(setup.base_dir, setup.filename, setup.edited, setup.timeout_secs) {
            Ok(plan) => chosen(setup, Some(template)) == (StateModel::Working {
                plan,
                env: environment(setup, template),
                stage: StageModel::Prepared(0),
            }),
            Err(extension) => settled_on(chosen(setup, Some(template))) == Some(
                OutcomeModel::Unsupported(extension),
            ),
        },
        settled_on(chosen(setup, None)) == Some(OutcomeModel::NoTemplate),
{
}

/// What a run is told of its process is how it ends, and what it asks for is the next
/// step of its plan.
pub proof fn lemma_run_goes_by_its_process(run: Run, event: Event, next: Run)
    requires
        call_ensures(Run::after, (run, event), next),
    ensures
        next.setup.model() == run.setup.model(),
        settled_on(run.state.model()) is Some ==> settled_on(next.state.model()) == settled_on(
            run.state.model(),
        ),
        run.state.model() matches StateModel::Working { plan, stage, .. } ==> (stage
            == StageModel::Prepared(plan.steps.len() as int) ==> {
            &&& event matches Event::Exited { code, success, stdout, stderr, elapsed_ms } ==> {
                &&& settled_on(next.state.model()) matches Some(
                    OutcomeModel::Exited {
                        exit_code: shown_code,
                        success: shown_success,
                        stdout: shown_stdout,
                        stderr: shown_stderr,
                        elapsed_ms: shown_ms,
                    },
                )
                &&& shown_stdout == shown(stdout@)
                &&& shown_stderr == shown(stderr@)
                &&& shown_code == (match code {
                    Some(code) => code as int,
                    None => -1,
                })
                &&& shown_success == success
                &&& shown_ms == elapsed_ms
            }
            &&& event matches Event::NotSpawned { error, elapsed_ms } ==> settled_on(
                next.state.model(),
            ) == Some(OutcomeModel::NotSpawned { error: error@, elapsed_ms })
            &&& event matches Event::TimedOut { elapsed_ms } ==> settled_on(next.state.model())
                == Some(OutcomeModel::TimedOut { secs: plan.timeout_secs, elapsed_ms })
        }),
{
}

/// What a run asks for is its question, the next step of its plan, its process, or the
/// removal of what is temporary; and where it is over, nothing.
pub proof fn lemma_run_asks_for_what_is_next<'a>(run: &'a Run, action: Action<'a>)
    requires
        call_ensures(Run::action, (run,), action),
    ensures
        match run.state.model() {
            StateModel::Choosing(search) => match templates::asks(search) {
                AskModel::Validate(id) => action.model() == ActionModel::Validate(id),
                AskModel::ListTemplates => action.model() is ListTemplates,
                AskModel::ListCatalog => action.model() is ListCatalog,
                AskModel::Done(_) => action.model() is Finish,
            },
            StateModel::Working { plan, env, stage: StageModel::Prepared(done) } => if done
                < plan.steps.len() {
                step_of(action.model()) == Some(plan.steps[done])
            } else {
                action.model() == (ActionModel::Spawn { plan, env })
            },
            StateModel::Working { plan, stage: StageModel::Clean(outcome), .. } => match plan.temp {
                Some(TempModel::Dir(dir)) => action.model() == ActionModel::RemoveDir(dir),
                Some(TempModel::File(file)) => action.model() == ActionModel::RemoveFile(file),
                None => action.model() == ActionModel::Finish(outcome),
            },
            StateModel::Over(outcome) => action.model() == ActionModel::Finish(outcome),
        },
{
}

} // verus!
