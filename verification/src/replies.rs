//! What a request to run an example is answered with.

use vstd::prelude::*;
use vstd::string::StringExecFns;

use crate::error::{AppError, ErrorModel};
use crate::examples::{RunExampleResponse, StepLog};
use crate::plan::PlanModel;
use crate::run;
use crate::run::{
    EventModel, OutcomeModel, RunOutcome, Setup, SetupModel, StageModel, StateModel,
};
use crate::templates;
use crate::text;
use crate::topology;
use crate::topology::GraphModel;

verus! {

/// An answer of the public endpoint.
pub struct RunReply {
    pub status: u16,
    pub response: RunExampleResponse,
}

/// What a [`StepLog`] holds.
pub struct LogModel {
    pub name: Seq<char>,
    pub plane: Seq<char>,
    pub status: Seq<char>,
    pub duration_ms: u64,
    pub message: Seq<char>,
}

impl StepLog {
    pub open spec fn model(self) -> LogModel {
        LogModel {
            name: self.name@,
            plane: self.plane@,
            status: self.status@,
            duration_ms: self.duration_ms,
            message: self.message@,
        }
    }
}

/// What a row of steps holds.
pub open spec fn log_model(steps: Seq<StepLog>) -> Seq<LogModel> {
    steps.map_values(|step: StepLog| step.model())
}

/// What a [`RunExampleResponse`] holds.
pub struct ResponseModel {
    pub stdout: Seq<char>,
    pub stderr: Seq<char>,
    pub exit_code: i32,
    pub success: bool,
    pub elapsed_ms: u64,
    pub steps: Seq<LogModel>,
    pub topology: GraphModel,
    pub ran_edited: bool,
}

impl RunExampleResponse {
    pub open spec fn model(self) -> ResponseModel {
        ResponseModel {
            stdout: self.stdout@,
            stderr: self.stderr@,
            exit_code: self.exit_code,
            success: self.success,
            elapsed_ms: self.elapsed_ms,
            steps: log_model(self.steps@),
            topology: self.topology.model(),
            ran_edited: self.ran_edited,
        }
    }
}

// -------------------------------------------------------------------- messages

/// What is said of an identifier that means no example.
pub open spec fn not_found(id: Seq<char>) -> Seq<char> {
    "Example '"@ + id + "' not found"@
}

/// What is said of an identifier that means no example.
pub fn not_found_message(id: &str) -> (r: String)
    ensures
        r@ == not_found(id@),
{
    text::concat3("Example '", id, "' not found")
}

/// Why a run failed; nothing where its process ended by itself.
pub open spec fn failure(id: Seq<char>, outcome: OutcomeModel) -> Option<Seq<char>> {
    match outcome {
        OutcomeModel::NoTemplate => Some(templates::no_template()),
        OutcomeModel::Unsupported(extension) => Some(
            "Unsupported file extension '."@ + extension + "' for example '"@ + id + "'"@,
        ),
        OutcomeModel::NoTempDir { dir, error } => Some(
            "Failed to create temp dir "@ + dir + ": "@ + error,
        ),
        OutcomeModel::NotWritten { file, error } => Some(
            "Failed to write edited code to "@ + file + ": "@ + error,
        ),
        OutcomeModel::NotSpawned { error, .. } => Some("Failed to spawn process: "@ + error),
        OutcomeModel::TimedOut { secs, .. } => Some(
            "Example timed out after "@ + text::decimal(secs as nat) + " seconds"@,
        ),
        OutcomeModel::Exited { .. } => None,
    }
}

/// Why a run failed; nothing where its process ended by itself.
pub fn failure_message(id: &str, outcome: &RunOutcome) -> (r: Option<String>)
    ensures
        text::opt_text(r) == failure(id@, outcome.model()),
{
    match outcome {
        RunOutcome::NoTemplate => Some(templates::no_template_message()),
        RunOutcome::Unsupported(extension) => {
            let mut out = text::concat3(
                "Unsupported file extension '.",
                extension.as_str(),
                "' for example '",
            );
            out.append(id);
            out.append("'");
            Some(out)
        },
        RunOutcome::NoTempDir { dir, error } => {
            let mut out = text::concat3("Failed to create temp dir ", dir.as_str(), ": ");
            out.append(error.as_str());
            Some(out)
        },
        RunOutcome::NotWritten { file, error } => {
            let mut out = text::concat3("Failed to write edited code to ", file.as_str(), ": ");
            out.append(error.as_str());
            Some(out)
        },
        RunOutcome::NotSpawned { error, .. } => Some(
            text::concat2("Failed to spawn process: ", error.as_str()),
        ),
        RunOutcome::TimedOut { secs, .. } => Some(
            text::concat3(
                "Example timed out after ",
                text::show_decimal(*secs).as_str(),
                " seconds",
            ),
        ),
        RunOutcome::Exited { .. } => None,
    }
}

// ---------------------------------------------------------------- the step log

/// A step of the log.
pub open spec fn log_entry(
    name: Seq<char>,
    plane: Seq<char>,
    status: Seq<char>,
    duration_ms: u64,
    message: Seq<char>,
) -> LogModel {
    LogModel { name, plane, status, duration_ms, message }
}

/// The log of a run that came to its process. The request was understood and a
/// template was found before; the process went well or not; and the run was closed.
/// All the time went into the process.
pub open spec fn step_log(status: Seq<char>, elapsed_ms: u64, message: Seq<char>) -> Seq<LogModel> {
    seq![
        log_entry("parse"@, "control"@, "ok"@, 0, "Request parsed"@),
        log_entry("control-plane"@, "control"@, "ok"@, 0, "Template resolved"@),
        log_entry("data-plane"@, "data"@, status, elapsed_ms, message),
        log_entry("cleanup"@, "control"@, "ok"@, 0, "Run closed"@),
    ]
}

/// The log of a run. One that did not come to its process has none.
pub open spec fn run_log(outcome: OutcomeModel) -> Seq<LogModel> {
    match outcome {
        OutcomeModel::Exited { success, elapsed_ms, .. } => if success {
            step_log("ok"@, elapsed_ms, "Process succeeded"@)
        } else {
            step_log("err"@, elapsed_ms, "Process failed"@)
        },
        OutcomeModel::NotSpawned { elapsed_ms, .. } => step_log(
            "err"@,
            elapsed_ms,
            "Process not started"@,
        ),
        OutcomeModel::TimedOut { elapsed_ms, .. } => step_log(
            "err"@,
            elapsed_ms,
            "Process timed out"@,
        ),
        _ => seq![],
    }
}

fn new_entry(name: &str, plane: &str, status: &str, duration_ms: u64, message: &str) -> (r: StepLog)
    ensures
        r.model() == log_entry(name@, plane@, status@, duration_ms, message@),
{
    StepLog {
        name: String::from_str(name),
        plane: String::from_str(plane),
        status: String::from_str(status),
        duration_ms,
        message: String::from_str(message),
    }
}

fn build_step_log(status: &str, elapsed_ms: u64, message: &str) -> (r: Vec<StepLog>)
    ensures
        log_model(r@) == step_log(status@, elapsed_ms, message@),
{
    let r = vec![
        new_entry("parse", "control", "ok", 0, "Request parsed"),
        new_entry("control-plane", "control", "ok", 0, "Template resolved"),
        new_entry("data-plane", "data", status, elapsed_ms, message),
        new_entry("cleanup", "control", "ok", 0, "Run closed"),
    ];
    assert(log_model(r@) =~= step_log(status@, elapsed_ms, message@));
    r
}

fn no_steps() -> (r: Vec<StepLog>)
    ensures
        log_model(r@) == Seq::<LogModel>::empty(),
{
    let r: Vec<StepLog> = Vec::new();
    assert(log_model(r@) =~= seq![]);
    r
}

fn build_run_log(outcome: &RunOutcome) -> (r: Vec<StepLog>)
    ensures
        log_model(r@) == run_log(outcome.model()),
{
    match outcome {
        RunOutcome::Exited { success, elapsed_ms, .. } => if *success {
            build_step_log("ok", *elapsed_ms, "Process succeeded")
        } else {
            build_step_log("err", *elapsed_ms, "Process failed")
        },
        RunOutcome::NotSpawned { elapsed_ms, .. } => {
            build_step_log("err", *elapsed_ms, "Process not started")
        },
        RunOutcome::TimedOut { elapsed_ms, .. } => {
            build_step_log("err", *elapsed_ms, "Process timed out")
        },
        _ => no_steps(),
    }
}

// ------------------------------------------------------------------- responses

/// The response to a request that failed.
pub open spec fn failed(
    stderr: Seq<char>,
    exit_code: i32,
    elapsed_ms: u64,
    steps: Seq<LogModel>,
    graph: GraphModel,
    ran_edited: bool,
) -> ResponseModel {
    ResponseModel {
        stdout: seq![],
        stderr,
        exit_code,
        success: false,
        elapsed_ms,
        steps,
        topology: topology::with_status(graph, false),
        ran_edited,
    }
}

/// The response of the public endpoint to an identifier that means no example: the
/// graph is the basic one.
pub open spec fn not_found_response(id: Seq<char>) -> ResponseModel {
    failed(
        not_found(id),
        1,
        0,
        seq![],
        topology::topology("code-sandbox-quickstart"@),
        false,
    )
}

/// The exit code that is shown of a run whose process did not end by itself: -1
/// where it was to be run, else 1.
pub open spec fn failure_code(outcome: OutcomeModel) -> i32 {
    if outcome is NotSpawned || outcome is TimedOut {
        (-1int) as i32
    } else {
        1
    }
}

/// The time that the process took, in milliseconds; 0 where none was to be run.
pub open spec fn elapsed(outcome: OutcomeModel) -> u64 {
    match outcome {
        OutcomeModel::NotSpawned { elapsed_ms, .. } => elapsed_ms,
        OutcomeModel::TimedOut { elapsed_ms, .. } => elapsed_ms,
        OutcomeModel::Exited { elapsed_ms, .. } => elapsed_ms,
        _ => 0,
    }
}

/// The response of the public endpoint to a request whose run has ended.
pub open spec fn response(setup: SetupModel, outcome: OutcomeModel) -> ResponseModel {
    let edited = setup.edited is Some;
    match outcome {
        OutcomeModel::Exited { exit_code, success, stdout, stderr, elapsed_ms } => ResponseModel {
            stdout,
            stderr,
            exit_code,
            success,
            elapsed_ms,
            steps: run_log(outcome),
            topology: topology::with_status(setup.topology, success),
            ran_edited: edited,
        },
        _ => failed(
            match failure(setup.id, outcome) {
                Some(message) => message,
                None => seq![],
            },
            failure_code(outcome),
            elapsed(outcome),
            run_log(outcome),
            setup.topology,
            edited,
        ),
    }
}

/// The status of the answer of the public endpoint.
pub open spec fn status(outcome: OutcomeModel) -> u16 {
    match outcome {
        OutcomeModel::NoTemplate => 400,
        OutcomeModel::Unsupported(_) => 400,
        OutcomeModel::NoTempDir { .. } => 500,
        OutcomeModel::NotWritten { .. } => 500,
        OutcomeModel::NotSpawned { .. } => 500,
        OutcomeModel::TimedOut { .. } => 504,
        OutcomeModel::Exited { .. } => 200,
    }
}

/// The answer of the public endpoint to an identifier that means no example.
pub fn answer_not_found(id: &str) -> (r: RunReply)
    ensures
        r.status == 404,
        r.response.model() == not_found_response(id@),
{
    let stdout = String::new();
    assert(stdout@ =~= seq![]);
    let response = RunExampleResponse {
        stdout,
        stderr: not_found_message(id),
        exit_code: 1,
        success: false,
        elapsed_ms: 0,
        steps: no_steps(),
        topology: topology::topology_with_status(
            topology::topology_for("code-sandbox-quickstart"),
            false,
        ),
        ran_edited: false,
    };
    RunReply { status: 404, response }
}

fn answer_failed(
    stderr: String,
    exit_code: i32,
    elapsed_ms: u64,
    steps: Vec<StepLog>,
    setup: &Setup,
) -> (r: RunExampleResponse)
    ensures
        r.model() == failed(
            stderr@,
            exit_code,
            elapsed_ms,
            log_model(steps@),
            setup.model().topology,
            setup.model().edited is Some,
        ),
{
    let stdout = String::new();
    assert(stdout@ =~= seq![]);
    RunExampleResponse {
        stdout,
        stderr,
        exit_code,
        success: false,
        elapsed_ms,
        steps,
        topology: topology::topology_with_status(topology::copy_template(&setup.topology), false),
        ran_edited: setup.edited.is_some(),
    }
}

fn build_response(setup: &Setup, outcome: &RunOutcome) -> (r: RunExampleResponse)
    ensures
        r.model() == response(setup.model(), outcome.model()),
{
    let message = match failure_message(setup.id.as_str(), outcome) {
        Some(message) => message,
        None => String::new(),
    };
    let steps = build_run_log(outcome);
    match outcome {
        RunOutcome::Exited { exit_code, success, stdout, stderr, elapsed_ms } => {
            RunExampleResponse {
                stdout: stdout.clone(),
                stderr: stderr.clone(),
                exit_code: *exit_code,
                success: *success,
                elapsed_ms: *elapsed_ms,
                steps,
                topology: topology::topology_with_status(
                    topology::copy_template(&setup.topology),
                    *success,
                ),
                ran_edited: setup.edited.is_some(),
            }
        },
        RunOutcome::NotSpawned { elapsed_ms, .. } => {
            answer_failed(message, -1, *elapsed_ms, steps, setup)
        },
        RunOutcome::TimedOut { elapsed_ms, .. } => {
            answer_failed(message, -1, *elapsed_ms, steps, setup)
        },
        _ => answer_failed(message, 1, 0, steps, setup),
    }
}

fn status_of(outcome: &RunOutcome) -> (r: u16)
    ensures
        r == status(outcome.model()),
{
    match outcome {
        RunOutcome::NoTemplate => 400,
        RunOutcome::Unsupported(_) => 400,
        RunOutcome::NoTempDir { .. } => 500,
        RunOutcome::NotWritten { .. } => 500,
        RunOutcome::NotSpawned { .. } => 500,
        RunOutcome::TimedOut { .. } => 504,
        RunOutcome::Exited { .. } => 200,
    }
}

/// The answer of the public endpoint to a request whose run has ended.
pub fn answer_run(setup: &Setup, outcome: &RunOutcome) -> (r: RunReply)
    ensures
        r.status == status(outcome.model()),
        r.response.model() == response(setup.model(), outcome.model()),
{
    RunReply { status: status_of(outcome), response: build_response(setup, outcome) }
}

/// The error of the example service for a run whose process did not end by itself.
pub open spec fn service_error(id: Seq<char>, outcome: OutcomeModel) -> Option<ErrorModel> {
    match failure(id, outcome) {
        Some(message) => if outcome is NoTemplate || outcome is Unsupported {
            Some(ErrorModel::BadRequest(message))
        } else {
            Some(ErrorModel::Internal(message))
        },
        None => None,
    }
}

/// The response of the example service to a request whose process ended by itself:
/// that of the public endpoint, without the log, which is the endpoint's to make.
pub open spec fn service_response(setup: SetupModel, outcome: OutcomeModel) -> ResponseModel {
    ResponseModel { steps: seq![], ..response(setup, outcome) }
}

/// What the example service makes of a run that has ended.
pub fn service_result(setup: &Setup, outcome: &RunOutcome) -> (r: Result<
    RunExampleResponse,
    AppError,
>)
    ensures
        match r {
            Ok(answer) => {
                &&& service_error(setup.model().id, outcome.model()) is None
                &&& answer.model() == service_response(setup.model(), outcome.model())
            },
            Err(error) => service_error(setup.model().id, outcome.model()) == Some(error.model()),
        },
{
    match failure_message(setup.id.as_str(), outcome) {
        Some(message) => match outcome {
            RunOutcome::NoTemplate => Err(AppError::BadRequest(message)),
            RunOutcome::Unsupported(_) => Err(AppError::BadRequest(message)),
            _ => Err(AppError::Internal(message)),
        },
        None => {
            let mut answer = build_response(setup, outcome);
            answer.steps = no_steps();
            Ok(answer)
        },
    }
}

// ------------------------------------------------------------------------ laws

/// The graph of a response shows whether the run succeeded, and nothing but a
/// process that ended by itself succeeds.
pub proof fn lemma_graph_shows_success(setup: SetupModel, outcome: OutcomeModel)
    ensures
        response(setup, outcome).topology == topology::with_status(
            setup.topology,
            response(setup, outcome).success,
        ),
        response(setup, outcome).success ==> outcome is Exited,
        response(setup, outcome).ran_edited == setup.edited is Some,
{
}

/// The two ways to run an example agree: the service gives an error where the
/// public endpoint answers with another status than 200, with the message that the
/// endpoint shows; else the two responses differ in nothing but the log.
pub proof fn lemma_service_agrees_with_endpoint(setup: SetupModel, outcome: OutcomeModel)
    ensures
        service_response(setup, outcome) == (ResponseModel {
            steps: seq![],
            ..response(setup, outcome)
        }),
        service_error(setup.id, outcome) is Some <==> status(outcome) != 200,
        service_error(setup.id, outcome) matches Some(error) ==> (match error {
            ErrorModel::NotFound(message) => message,
            ErrorModel::BadRequest(message) => message,
            ErrorModel::Internal(message) => message,
        }) == response(setup, outcome).stderr,
        service_error(setup.id, outcome) matches Some(error) ==> (error is BadRequest <==> status(
            outcome,
        ) == 400),
{
}

/// The four words for the status of a step.
pub open spec fn is_step_status(status: Seq<char>) -> bool {
    status == "ok"@ || status == "warn"@ || status == "err"@ || status == "skipped"@
}

/// Whether a run came to its process.
pub open spec fn came_to_process(outcome: OutcomeModel) -> bool {
    outcome is Exited || outcome is NotSpawned || outcome is TimedOut
}

/// The log of a run that came to its process has the steps parse, control-plane,
/// data-plane and cleanup, in that order, each on one of the two planes and with one
/// of the four statuses. A step has failed exactly where the run has, and the steps
/// take the time of the run. Any other answer has no log.
pub proof fn lemma_log_follows_the_run(setup: SetupModel, outcome: OutcomeModel)
    ensures
        ({
            let answer = response(setup, outcome);
            let steps = answer.steps;
            &&& came_to_process(outcome) ==> {
                &&& steps.len() == 4
                &&& steps[0].name == "parse"@
                &&& steps[1].name == "control-plane"@
                &&& steps[2].name == "data-plane"@
                &&& steps[3].name == "cleanup"@
                &&& (exists|k: int| 0 <= k < 4 && (#[trigger] steps[k]).status == "err"@) <==>
                    !answer.success
                &&& steps[0].duration_ms + steps[1].duration_ms + steps[2].duration_ms
                    + steps[3].duration_ms == answer.elapsed_ms
            }
            &&& !came_to_process(outcome) ==> steps.len() == 0
            &&& forall|k: int|
                0 <= k < steps.len() ==> topology::is_plane((#[trigger] steps[k]).plane)
                    && is_step_status(steps[k].status)
        }),
{
    reveal_strlit("ok");
    reveal_strlit("err");
    assert("ok"@.len() == 2 && "err"@.len() == 3);
    let steps = response(setup, outcome).steps;
    if came_to_process(outcome) {
        assert(steps[2].status == "err"@ <==> !response(setup, outcome).success);
    }
}

/// A response shows what the process did: all that it wrote to either stream, whether
/// or not it succeeded, its exit code and its time. The answer has the status 200.
pub proof fn lemma_response_shows_what_the_process_did(
    setup: SetupModel,
    plan: PlanModel,
    env: Seq<(Seq<char>, Seq<char>)>,
    code: Option<i32>,
    success: bool,
    stdout: Seq<u8>,
    stderr: Seq<u8>,
    elapsed_ms: u64,
)
    ensures
        ({
            let stage = StageModel::Prepared(plan.steps.len() as int);
            let event = EventModel::Exited { code, success, stdout, stderr, elapsed_ms };
            let end = run::settled_on(
                run::after(setup, StateModel::Working { plan, env, stage }, event),
            );
            &&& end matches Some(outcome)
            &&& status(outcome) == 200
            &&& response(setup, outcome).stdout == run::shown(stdout)
            &&& response(setup, outcome).stderr == run::shown(stderr)
            &&& response(setup, outcome).exit_code == (match code {
                Some(code) => code as int,
                None => -1,
            })
            &&& response(setup, outcome).success == success
            &&& response(setup, outcome).elapsed_ms == elapsed_ms
            &&& service_error(setup.id, outcome) is None
            &&& service_response(setup, outcome).stdout == run::shown(stdout)
            &&& service_response(setup, outcome).stderr == run::shown(stderr)
        }),
{
    let event = EventModel::Exited { code, success, stdout, stderr, elapsed_ms };
    run::lemma_process_settles_the_run(setup, plan, env, event);
}

/// A run whose process did not end by itself is answered with the reason, no output,
/// an exit code that is not 0, and a status that is not 200.
pub proof fn lemma_failed_run_is_answered_with_the_reason(
    setup: SetupModel,
    outcome: OutcomeModel,
)
    requires
        !(outcome is Exited),
    ensures
        ({
            let answer = response(setup, outcome);
            &&& !answer.success
            &&& answer.stdout.len() == 0
            &&& outcome matches OutcomeModel::NoTemplate ==> {
                &&& status(outcome) == 400
                &&& answer.exit_code == 1
                &&& answer.stderr
                    == "No template ID configured. Set CUBE_TEMPLATE_ID, configure a default template, or create a template first."@
            }
            &&& outcome matches OutcomeModel::Unsupported(extension) ==> {
                &&& status(outcome) == 400
                &&& answer.exit_code == 1
                &&& answer.stderr == "Unsupported file extension '."@ + extension
                    + "' for example '"@ + setup.id + "'"@
            }
            &&& outcome matches OutcomeModel::NoTempDir { dir, error } ==> {
                &&& status(outcome) == 500
                &&& answer.exit_code == 1
                &&& answer.stderr == "Failed to create temp dir "@ + dir + ": "@ + error
            }
            &&& outcome matches OutcomeModel::NotWritten { file, error } ==> {
                &&& status(outcome) == 500
                &&& answer.exit_code == 1
                &&& answer.stderr == "Failed to write edited code to "@ + file + ": "@ + error
            }
            &&& outcome matches OutcomeModel::NotSpawned { error, elapsed_ms } ==> {
                &&& status(outcome) == 500
                &&& answer.exit_code == -1
                &&& answer.elapsed_ms == elapsed_ms
                &&& answer.stderr == "Failed to spawn process: "@ + error
            }
            &&& outcome matches OutcomeModel::TimedOut { secs, elapsed_ms } ==> {
                &&& status(outcome) == 504
                &&& answer.exit_code == -1
                &&& answer.elapsed_ms == elapsed_ms
                &&& answer.stderr == "Example timed out after "@ + text::decimal(secs as nat)
                    + " seconds"@
            }
        }),
{
}

/// An identifier that means no example is answered with itself, and as a failure.
pub proof fn lemma_unknown_example_is_named(id: Seq<char>)
    ensures
        not_found_response(id).stderr == "Example '"@ + id + "' not found"@,
        not_found_response(id).exit_code == 1,
        !not_found_response(id).success,
        not_found_response(id).stdout.len() == 0,
{
}

/// The answer to a run shows what came of its process, with the graph of its scenario
/// marked by whether that succeeded.
pub proof fn lemma_answer_shows_the_outcome(setup: &Setup, outcome: &RunOutcome, answer: RunReply)
    requires
        call_ensures(answer_run, (setup, outcome), answer),
    ensures
        outcome matches RunOutcome::Exited { exit_code, success, stdout, stderr, elapsed_ms } ==> {
            &&& answer.status == 200
            &&& answer.response.stdout@ == stdout@
            &&& answer.response.stderr@ == stderr@
            &&& answer.response.exit_code == exit_code
            &&& answer.response.success == success
            &&& answer.response.elapsed_ms == elapsed_ms
        },
        !(outcome is Exited) ==> answer.status != 200 && !answer.response.success
            && answer.response.stdout@.len() == 0 && answer.response.exit_code != 0,
        answer.response.topology.model() == topology::with_status(
            setup.topology.model(),
            answer.response.success,
        ),
        answer.response.ran_edited <==> setup.edited is Some,
{
    lemma_graph_shows_success(setup.model(), outcome.model());
    lemma_failed_or_exited(setup.model(), outcome.model());
}

proof fn lemma_failed_or_exited(setup: SetupModel, outcome: OutcomeModel)
    ensures
        !(outcome is Exited) ==> status(outcome) != 200 && !response(setup, outcome).success
            && response(setup, outcome).stdout.len() == 0 && response(setup, outcome).exit_code
            != 0,
{
    if !(outcome is Exited) {
        lemma_failed_run_is_answered_with_the_reason(setup, outcome);
    }
}

/// The example service gives back what came of a process that ended by itself, and else
/// an error with the reason: of the request where no template was found or nothing runs
/// the file, else of the server.
pub proof fn lemma_service_gives_the_outcome(
    setup: &Setup,
    outcome: &RunOutcome,
    given: Result<RunExampleResponse, AppError>,
)
    requires
        call_ensures(service_result, (setup, outcome), given),
    ensures
        given is Ok <==> outcome is Exited,
        outcome matches RunOutcome::Exited { exit_code, success, stdout, stderr, elapsed_ms } ==> {
            &&& given matches Ok(answer)
            &&& answer.stdout@ == stdout@
            &&& answer.stderr@ == stderr@
            &&& answer.exit_code == exit_code
            &&& answer.success == success
            &&& answer.elapsed_ms == elapsed_ms
            &&& answer.topology.model() == topology::with_status(setup.topology.model(), *success)
        },
        given matches Err(error) ==> (if outcome is NoTemplate || outcome is Unsupported {
            error.model() == ErrorModel::BadRequest(
                response(setup.model(), outcome.model()).stderr,
            )
        } else {
            error.model() == ErrorModel::Internal(response(setup.model(), outcome.model()).stderr)
        }),
{
}

/// An identifier that means no example is answered with the status 404 and the basic
/// graph, marked as failed.
pub proof fn lemma_unknown_example_is_not_found(id: &str, answer: RunReply)
    requires
        call_ensures(answer_not_found, (id,), answer),
    ensures
        answer.status == 404,
        answer.response.stderr@ == "Example '"@ + id@ + "' not found"@,
        !answer.response.success,
        answer.response.topology.model() == topology::with_status(
            topology::topology("code-sandbox-quickstart"@),
            false,
        ),
        !answer.response.ran_edited,
        answer.response.steps@.len() == 0,
        answer.response.elapsed_ms == 0,
{
    assert(log_model(answer.response.steps@).len() == 0);
}

} // verus!
