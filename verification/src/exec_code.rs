//! Running a snippet of Python or Bash inside a sandbox.
//!
//! Python goes to the Jupyter kernel of the sandbox, which keeps its variables
//! from call to call; where the kernel does not answer, a one-shot `envd` process
//! takes its place. Bash always goes to `envd`.

use vstd::prelude::*;
use vstd::string::StringExecFns;

use crate::envd;
use crate::envd::CommandOutput;
use crate::error::{AppError, ErrorModel};
use crate::json;
use crate::json::{Json, JsonModel, Node};
use crate::jupyter;
use crate::jupyter::{JupyterModel, JupyterOutput};
use crate::text;

verus! {

pub const ENVD_PORT: u16 = 49983;

pub const JUPYTER_PORT: u16 = 49999;

// ----------------------------------------------------------------------- types

/// The body of `POST /sandboxes/{sandboxID}/exec-code`.
pub struct ExecCodeRequest {
    pub language: String,
    pub code: String,
    pub timeout_secs: Option<u32>,
}

/// The answer to it.
pub struct ExecCodeResponse {
    pub stdout: String,
    pub stderr: String,
    pub exit_code: i32,
    pub success: bool,
    pub elapsed_ms: u64,
    pub results: Option<Vec<Json>>,
}

/// Where a sandbox is reached: through the proxy, by its identifier and domain.
pub struct Sandbox {
    pub id: String,
    pub domain: String,
    /// The base URL of the proxy, where one is configured.
    pub proxy_url: Option<String>,
}

/// A `POST` request to a sandbox.
pub struct HttpCall {
    pub url: String,
    pub host: String,
    pub content_type: String,
    pub authorization: String,
    pub body: Vec<u8>,
}

/// What came of a request: it could not be sent, or it was answered with a
/// status, and the body was read or not.
pub enum HttpReply {
    SendFailed(String),
    Answered { status: u16, status_text: String, body: Result<Vec<u8>, String> },
}

/// The first request for a snippet.
pub enum ExecPlan {
    Jupyter(HttpCall),
    Envd(HttpCall),
}

/// What answers a request for a snippet.
#[derive(Clone, Copy)]
pub enum Backend {
    Jupyter,
    Envd,
}

/// What follows an answer.
pub enum ExecNext {
    /// The snippet has run, with this output.
    Done(JupyterOutput),
    /// The snippet could not be run.
    Failed(AppError),
    /// The kernel failed, so that `envd` is asked in its place.
    Fallback { failure: AppError, call: HttpCall },
}

// ---------------------------------------------------------------------- models

/// What a [`Sandbox`] holds.
pub struct SandboxModel {
    pub id: Seq<char>,
    pub domain: Seq<char>,
    pub proxy_url: Option<Seq<char>>,
}

/// What an [`HttpCall`] holds.
pub struct CallModel {
    pub url: Seq<char>,
    pub host: Seq<char>,
    pub content_type: Seq<char>,
    pub authorization: Seq<char>,
    pub body: Seq<u8>,
}

/// What an [`ExecPlan`] holds.
pub enum PlanModel {
    Jupyter(CallModel),
    Envd(CallModel),
}

/// What an [`HttpReply`] holds.
pub enum ReplyModel {
    SendFailed(Seq<char>),
    Answered { status: u16, status_text: Seq<char>, body: Result<Seq<u8>, Seq<char>> },
}

/// What an [`ExecNext`] holds.
pub enum NextModel {
    Done(JupyterModel),
    Failed(ErrorModel),
    Fallback { failure: ErrorModel, call: CallModel },
}

impl ExecNext {
    pub open spec fn model(self) -> NextModel {
        match self {
            ExecNext::Done(output) => NextModel::Done(output.model()),
            ExecNext::Failed(error) => NextModel::Failed(error.model()),
            ExecNext::Fallback { failure, call } => NextModel::Fallback {
                failure: failure.model(),
                call: call.model(),
            },
        }
    }
}

impl Sandbox {
    pub open spec fn model(self) -> SandboxModel {
        SandboxModel {
            id: self.id@,
            domain: self.domain@,
            proxy_url: text::opt_text(self.proxy_url),
        }
    }
}

impl HttpCall {
    pub open spec fn model(self) -> CallModel {
        CallModel {
            url: self.url@,
            host: self.host@,
            content_type: self.content_type@,
            authorization: self.authorization@,
            body: self.body@,
        }
    }
}

impl ExecPlan {
    pub open spec fn model(self) -> PlanModel {
        match self {
            ExecPlan::Jupyter(call) => PlanModel::Jupyter(call.model()),
            ExecPlan::Envd(call) => PlanModel::Envd(call.model()),
        }
    }
}

impl HttpReply {
    pub open spec fn model(self) -> ReplyModel {
        match self {
            HttpReply::SendFailed(error) => ReplyModel::SendFailed(error@),
            HttpReply::Answered { status, status_text, body } => ReplyModel::Answered {
                status,
                status_text: status_text@,
                body: match body {
                    Ok(body) => Ok(body@),
                    Err(error) => Err(error@),
                },
            },
        }
    }
}

// -------------------------------------------------------------------- requests

/// The base URL of the proxy, without the slashes at its end.
pub open spec fn proxy_base(sandbox: SandboxModel) -> Seq<char> {
    text::trim_end_char(
        match sandbox.proxy_url {
            Some(url) => url,
            None => "http://127.0.0.1"@,
        },
        '/',
    )
}

/// The name under which the proxy knows a port of a sandbox.
pub open spec fn sandbox_host(port: u16, sandbox: SandboxModel) -> Seq<char> {
    text::decimal(port as nat) + "-"@ + sandbox.id + "."@ + sandbox.domain
}

/// The process that runs a snippet once: the interpreter with `-c` and the code,
/// in `/root`, without input.
pub open spec fn process_request(cmd: Seq<char>, code: Seq<char>) -> JsonModel {
    JsonModel::Object(
        map![
            "process"@ => JsonModel::Object(map![
                "cmd"@ => JsonModel::Text(cmd),
                "args"@ => JsonModel::List(seq![JsonModel::Text("-c"@), JsonModel::Text(code)]),
                "envs"@ => JsonModel::Object(Map::empty()),
                "cwd"@ => JsonModel::Text("/root"@),
            ]),
            "stdin"@ => JsonModel::Bool(false),
        ],
    )
}

/// The payload that has the kernel run a snippet.
pub open spec fn kernel_request(code: Seq<char>) -> JsonModel {
    JsonModel::Object(
        map!["code"@ => JsonModel::Text(code), "language"@ => JsonModel::Text("python"@)],
    )
}

/// The request that hands `envd` the JSON of a process.
pub open spec fn to_envd(payload: Seq<u8>, sandbox: SandboxModel) -> CallModel {
    CallModel {
        url: proxy_base(sandbox) + "/process.Process/Start"@,
        host: sandbox_host(ENVD_PORT, sandbox),
        content_type: "application/connect+json"@,
        authorization: "Basic cm9vdDo="@,
        body: envd::envelope(payload),
    }
}

/// The request that hands the kernel its JSON.
pub open spec fn to_kernel(payload: Seq<u8>, sandbox: SandboxModel) -> CallModel {
    CallModel {
        url: proxy_base(sandbox) + "/execute"@,
        host: sandbox_host(JUPYTER_PORT, sandbox),
        content_type: "application/json"@,
        authorization: "Basic cm9vdDo="@,
        body: payload,
    }
}

/// The request that has `envd` run a snippet.
pub open spec fn envd_request(cmd: Seq<char>, code: Seq<char>, sandbox: SandboxModel) -> Result<
    CallModel,
    ErrorModel,
> {
    match json::written(process_request(cmd, code)) {
        Ok(payload) => Ok(to_envd(payload, sandbox)),
        Err(error) => Err(ErrorModel::Internal(error)),
    }
}

/// The request that has the kernel run a snippet.
pub open spec fn jupyter_request(code: Seq<char>, sandbox: SandboxModel) -> Result<
    CallModel,
    Seq<char>,
> {
    match json::written(kernel_request(code)) {
        Ok(payload) => Ok(to_kernel(payload, sandbox)),
        Err(error) => Err(error),
    }
}

/// The first request for a snippet.
pub open spec fn exec_plan(language: Seq<char>, code: Seq<char>, sandbox: SandboxModel) -> Result<
    PlanModel,
    ErrorModel,
> {
    if language == "python"@ {
        match jupyter_request(code, sandbox) {
            Ok(call) => Ok(PlanModel::Jupyter(call)),
            Err(_) => match envd_request("python3"@, code, sandbox) {
                Ok(call) => Ok(PlanModel::Envd(call)),
                Err(error) => Err(error),
            },
        }
    } else if language == "bash"@ {
        match envd_request("bash"@, code, sandbox) {
            Ok(call) => Ok(PlanModel::Envd(call)),
            Err(error) => Err(error),
        }
    } else {
        Err(ErrorModel::BadRequest("unsupported language: "@ + language))
    }
}

fn text_value(s: &str) -> (r: serde_json::Value)
    ensures
        json::value_model(r) == JsonModel::Text(s@),
{
    json::build_value(Node::Text(String::from_str(s)))
}

/// The process that runs a snippet once, as JSON.
fn build_process_request(cmd: &str, code: &str) -> (r: serde_json::Value)
    ensures
        json::value_model(r) == process_request(cmd@, code@),
{
    let mut args: Vec<serde_json::Value> = Vec::new();
    args.push(text_value("-c"));
    args.push(text_value(code));
    let ghost given_args = args@;
    let args = json::build_value(Node::List(args));
    let envs = json::build_value(Node::Object(Vec::new()));
    let mut process: Vec<(String, serde_json::Value)> = Vec::new();
    process.push((String::from_str("cmd"), text_value(cmd)));
    process.push((String::from_str("args"), args));
    process.push((String::from_str("envs"), envs));
    process.push((String::from_str("cwd"), text_value("/root")));
    let ghost members = process@;
    proof {
        reveal_strlit("cmd");
        reveal_strlit("args");
        reveal_strlit("envs");
        reveal_strlit("cwd");
        assert("cmd"@[1] == 'm' && "cwd"@[1] == 'w');
        assert("args"@[0] == 'a' && "envs"@[0] == 'e');
        assert("cmd"@.len() == 3 && "cwd"@.len() == 3);
        assert("args"@.len() == 4 && "envs"@.len() == 4);
        assert(json::distinct_names(members));
    }
    let process = json::build_value(Node::Object(process));
    let stdin = json::build_value(Node::Bool(false));
    let mut request: Vec<(String, serde_json::Value)> = Vec::new();
    request.push((String::from_str("process"), process));
    request.push((String::from_str("stdin"), stdin));
    proof {
        reveal_strlit("process");
        reveal_strlit("stdin");
        assert("process"@.len() == 7 && "stdin"@.len() == 5);
        assert(json::distinct_names(request@));
        reveal_with_fuel(json::entries_model, 5);
        assert(given_args.map_values(|v: serde_json::Value| json::value_model(v)) =~= seq![
            JsonModel::Text("-c"@),
            JsonModel::Text(code@),
        ]);
        assert(json::value_model(envs) == JsonModel::Object(Map::empty()));
        let inner = map![
            "cmd"@ => JsonModel::Text(cmd@),
            "args"@ => JsonModel::List(seq![JsonModel::Text("-c"@), JsonModel::Text(code@)]),
            "envs"@ => JsonModel::Object(Map::empty()),
            "cwd"@ => JsonModel::Text("/root"@),
        ];
        assert(json::entries_model(members) =~= inner);
        assert(json::entries_model(request@) =~= map![
            "process"@ => JsonModel::Object(inner),
            "stdin"@ => JsonModel::Bool(false),
        ]);
    }
    json::build_value(Node::Object(request))
}

/// The payload that has the kernel run a snippet, as JSON.
fn build_kernel_request(code: &str) -> (r: serde_json::Value)
    ensures
        json::value_model(r) == kernel_request(code@),
{
    let mut request: Vec<(String, serde_json::Value)> = Vec::new();
    request.push((String::from_str("code"), text_value(code)));
    request.push((String::from_str("language"), text_value("python")));
    proof {
        reveal_strlit("code");
        reveal_strlit("language");
        assert("code"@.len() == 4 && "language"@.len() == 8);
        assert(json::distinct_names(request@));
        reveal_with_fuel(json::entries_model, 3);
        assert(json::entries_model(request@) =~= map![
            "code"@ => JsonModel::Text(code@),
            "language"@ => JsonModel::Text("python"@),
        ]);
    }
    json::build_value(Node::Object(request))
}

fn base_url(sandbox: &Sandbox) -> (r: &str)
    ensures
        r@ == proxy_base(sandbox.model()),
{
    match &sandbox.proxy_url {
        Some(url) => text::trim_end_matches(url.as_str(), '/'),
        None => text::trim_end_matches("http://127.0.0.1", '/'),
    }
}

fn host_name(port: u16, sandbox: &Sandbox) -> (r: String)
    ensures
        r@ == sandbox_host(port, sandbox.model()),
{
    let mut out = text::show_decimal(port as u64);
    out.append("-");
    out.append(sandbox.id.as_str());
    out.append(".");
    out.append(sandbox.domain.as_str());
    out
}

/// The domain of a sandbox: its own, or the configured one where it has none.
pub fn resolve_domain(own: Option<String>, configured: &str) -> (r: String)
    ensures
        r@ == (match own {
            Some(domain) => domain@,
            None => configured@,
        }),
{
    match own {
        Some(domain) => domain,
        None => String::from_str(configured),
    }
}

/// The request that hands `envd` the JSON of a process.
pub fn call_envd(payload: Vec<u8>, sandbox: &Sandbox) -> (r: HttpCall)
    ensures
        r.model() == to_envd(payload@, sandbox.model()),
{
    HttpCall {
        url: text::concat2(base_url(sandbox), "/process.Process/Start"),
        host: host_name(ENVD_PORT, sandbox),
        content_type: String::from_str("application/connect+json"),
        authorization: String::from_str("Basic cm9vdDo="),
        body: envd::connect_envelope(payload.as_slice()),
    }
}

/// The request that hands the kernel its JSON.
pub fn call_kernel(payload: Vec<u8>, sandbox: &Sandbox) -> (r: HttpCall)
    ensures
        r.model() == to_kernel(payload@, sandbox.model()),
{
    HttpCall {
        url: text::concat2(base_url(sandbox), "/execute"),
        host: host_name(JUPYTER_PORT, sandbox),
        content_type: String::from_str("application/json"),
        authorization: String::from_str("Basic cm9vdDo="),
        body: payload,
    }
}

/// The request that has `envd` run a snippet.
pub fn envd_call(cmd: &str, code: &str, sandbox: &Sandbox) -> (r: Result<HttpCall, AppError>)
    ensures
        match r {
            Ok(call) => envd_request(cmd@, code@, sandbox.model()) == Ok::<CallModel, ErrorModel>(
                call.model(),
            ),
            Err(error) => envd_request(cmd@, code@, sandbox.model()) == Err::<
                CallModel,
                ErrorModel,
            >(error.model()),
        },
{
    match json::value_to_vec(&build_process_request(cmd, code)) {
        Ok(payload) => Ok(call_envd(payload, sandbox)),
        Err(error) => Err(AppError::Internal(error)),
    }
}

/// The request that has the kernel run a snippet, or the message of the failure
/// to write it.
pub fn jupyter_call(code: &str, sandbox: &Sandbox) -> (r: Result<HttpCall, String>)
    ensures
        match r {
            Ok(call) => jupyter_request(code@, sandbox.model()) == Ok::<CallModel, Seq<char>>(
                call.model(),
            ),
            Err(error) => jupyter_request(code@, sandbox.model()) == Err::<CallModel, Seq<char>>(
                error@,
            ),
        },
{
    match json::value_to_vec(&build_kernel_request(code)) {
        Ok(payload) => Ok(call_kernel(payload, sandbox)),
        Err(error) => Err(error),
    }
}

/// The first request for a snippet: to the kernel for Python, to `envd` for Bash.
/// Any other language is refused.
pub fn exec_code(request: &ExecCodeRequest, sandbox: &Sandbox) -> (r: Result<ExecPlan, AppError>)
    ensures
        match r {
            Ok(plan) => exec_plan(request.language@, request.code@, sandbox.model()) == Ok::<
                PlanModel,
                ErrorModel,
            >(plan.model()),
            Err(error) => exec_plan(request.language@, request.code@, sandbox.model()) == Err::<
                PlanModel,
                ErrorModel,
            >(error.model()),
        },
{
    let code = request.code.as_str();
    if text::same(request.language.as_str(), "python") {
        match jupyter_call(code, sandbox) {
            Ok(call) => Ok(ExecPlan::Jupyter(call)),
            Err(_) => match envd_call("python3", code, sandbox) {
                Ok(call) => Ok(ExecPlan::Envd(call)),
                Err(error) => Err(error),
            },
        }
    } else if text::same(request.language.as_str(), "bash") {
        match envd_call("bash", code, sandbox) {
            Ok(call) => Ok(ExecPlan::Envd(call)),
            Err(error) => Err(error),
        }
    } else {
        Err(
            AppError::BadRequest(
                text::concat2("unsupported language: ", request.language.as_str()),
            ),
        )
    }
}

// --------------------------------------------------------------------- replies

/// The body of an answer with a success status, or the message of the failure:
/// `failed` before the reason that a request could not be sent, `refused` before
/// any other status, `unread` before the reason that the body could not be read.
pub open spec fn reply_body(
    reply: ReplyModel,
    failed: Seq<char>,
    refused: Seq<char>,
    unread: Seq<char>,
) -> Result<Seq<u8>, Seq<char>> {
    match reply {
        ReplyModel::SendFailed(error) => Err(failed + error),
        ReplyModel::Answered { status, status_text, body } => if 200 <= status < 300 {
            match body {
                Ok(body) => Ok(body),
                Err(error) => Err(unread + error),
            }
        } else {
            Err(refused + status_text)
        },
    }
}

/// What the answer of the kernel says of a snippet.
pub open spec fn jupyter_outcome(reply: ReplyModel) -> Result<JupyterModel, Seq<char>> {
    match reply_body(
        reply,
        "jupyter execute request failed: "@,
        "jupyter execute request returned HTTP "@,
        "failed reading jupyter execute response: "@,
    ) {
        Ok(body) => jupyter::answer_outcome(body),
        Err(message) => Err(message),
    }
}

/// What the answer of `envd` says of a snippet, which has no results.
pub open spec fn envd_outcome(reply: ReplyModel) -> Result<JupyterModel, Seq<char>> {
    match reply_body(
        reply,
        "envd command request failed: "@,
        "envd command request returned HTTP "@,
        "failed reading envd command stream: "@,
    ) {
        Ok(body) => match envd::stream_outcome(body) {
            Ok(out) => Ok(
                JupyterModel {
                    exit_code: out.exit_code,
                    stdout: out.stdout,
                    stderr: out.stderr,
                    results: None,
                },
            ),
            Err(message) => Err(message),
        },
        Err(message) => Err(message),
    }
}

fn success_body(reply: HttpReply, failed: &str, refused: &str, unread: &str) -> (r: Result<
    Vec<u8>,
    AppError,
>)
    ensures
        match r {
            Ok(body) => reply_body(reply.model(), failed@, refused@, unread@) == Ok::<
                Seq<u8>,
                Seq<char>,
            >(body@),
            Err(error) => reply_body(reply.model(), failed@, refused@, unread@) matches Err(message)
                && error.model() == ErrorModel::Internal(message),
        },
{
    match reply {
        HttpReply::SendFailed(error) => Err(
            AppError::Internal(text::concat2(failed, error.as_str())),
        ),
        HttpReply::Answered { status, status_text, body } => if 200 <= status && status < 300 {
            match body {
                Ok(body) => Ok(body),
                Err(error) => Err(AppError::Internal(text::concat2(unread, error.as_str()))),
            }
        } else {
            Err(AppError::Internal(text::concat2(refused, status_text.as_str())))
        },
    }
}

/// Reads the answer of the kernel.
pub fn jupyter_reply(reply: HttpReply) -> (r: Result<JupyterOutput, AppError>)
    ensures
        match r {
            Ok(out) => jupyter_outcome(reply.model()) == Ok::<JupyterModel, Seq<char>>(out.model()),
            Err(error) => jupyter_outcome(reply.model()) matches Err(message) && error.model()
                == ErrorModel::Internal(message),
        },
{
    match success_body(
        reply,
        "jupyter execute request failed: ",
        "jupyter execute request returned HTTP ",
        "failed reading jupyter execute response: ",
    ) {
        Ok(body) => jupyter::parse_jupyter_ndjson(body.as_slice()),
        Err(error) => Err(error),
    }
}

/// Reads the answer of `envd`.
pub fn envd_reply(reply: HttpReply) -> (r: Result<JupyterOutput, AppError>)
    ensures
        match r {
            Ok(out) => envd_outcome(reply.model()) == Ok::<JupyterModel, Seq<char>>(out.model()),
            Err(error) => envd_outcome(reply.model()) matches Err(message) && error.model()
                == ErrorModel::Internal(message),
        },
{
    match success_body(
        reply,
        "envd command request failed: ",
        "envd command request returned HTTP ",
        "failed reading envd command stream: ",
    ) {
        Ok(body) => match envd::parse_connect_stream(body.as_slice()) {
            Ok(out) => {
                let CommandOutput { exit_code, stdout, stderr } = out;
                Ok(JupyterOutput { exit_code, stdout, stderr, results: None })
            },
            Err(error) => Err(error),
        },
        Err(error) => Err(error),
    }
}

/// What follows an answer. Whatever goes wrong with the kernel, `envd` is asked to
/// run the snippet with `python3`.
pub open spec fn next_of(
    backend: Backend,
    code: Seq<char>,
    sandbox: SandboxModel,
    reply: ReplyModel,
) -> NextModel {
    match backend {
        Backend::Jupyter => match jupyter_outcome(reply) {
            Ok(output) => NextModel::Done(output),
            Err(message) => match envd_request("python3"@, code, sandbox) {
                Ok(call) => NextModel::Fallback { failure: ErrorModel::Internal(message), call },
                Err(error) => NextModel::Failed(error),
            },
        },
        Backend::Envd => match envd_outcome(reply) {
            Ok(output) => NextModel::Done(output),
            Err(message) => NextModel::Failed(ErrorModel::Internal(message)),
        },
    }
}

/// What follows an answer.
pub fn after_reply(
    backend: Backend,
    request: &ExecCodeRequest,
    sandbox: &Sandbox,
    reply: HttpReply,
) -> (r: ExecNext)
    ensures
        r.model() == next_of(backend, request.code@, sandbox.model(), reply.model()),
{
    match backend {
        Backend::Jupyter => match jupyter_reply(reply) {
            Ok(output) => ExecNext::Done(output),
            Err(failure) => match envd_call("python3", request.code.as_str(), sandbox) {
                Ok(call) => ExecNext::Fallback { failure, call },
                Err(error) => ExecNext::Failed(error),
            },
        },
        Backend::Envd => match envd_reply(reply) {
            Ok(output) => ExecNext::Done(output),
            Err(error) => ExecNext::Failed(error),
        },
    }
}

// -------------------------------------------------------------------- response

/// The time that a snippet may take: what was asked for, or 30 seconds, but at
/// least one second and at most 300.
pub open spec fn allowed_secs(asked: Option<u32>) -> u32 {
    let secs = match asked {
        Some(secs) => secs,
        None => 30,
    };
    if secs < 1 {
        1
    } else if secs > 300 {
        300
    } else {
        secs
    }
}

/// The exit code that is reported: a snippet that succeeded too late has failed.
pub open spec fn reported_code(exit_code: i32, elapsed_ms: u64, asked: Option<u32>) -> i32 {
    if exit_code == 0 && elapsed_ms > allowed_secs(asked) * 1000 {
        (-1int) as i32
    } else {
        exit_code
    }
}

/// The answer to a request whose snippet has run.
pub fn finish_exec(output: JupyterOutput, elapsed_ms: u64, asked: Option<u32>) -> (r:
    ExecCodeResponse)
    ensures
        r.stdout == output.stdout,
        r.stderr == output.stderr,
        r.exit_code == reported_code(output.exit_code, elapsed_ms, asked),
        r.success == (r.exit_code == 0),
        r.elapsed_ms == elapsed_ms,
        r.results == output.results,
{
    let secs: u32 = match asked {
        Some(secs) => if secs < 1 {
            1
        } else if secs > 300 {
            300
        } else {
            secs
        },
        None => 30,
    };
    if elapsed_ms > (secs as u64) * 1000 && output.exit_code == 0 {
        ExecCodeResponse {
            stdout: output.stdout,
            stderr: output.stderr,
            exit_code: -1,
            success: false,
            elapsed_ms,
            results: output.results,
        }
    } else {
        ExecCodeResponse {
            stdout: output.stdout,
            stderr: output.stderr,
            exit_code: output.exit_code,
            success: output.exit_code == 0,
            elapsed_ms,
            results: output.results,
        }
    }
}

// ------------------------------------------------------------------------ laws

/// Bash never goes to the kernel, and only Python and Bash go anywhere.
pub proof fn lemma_only_python_reaches_the_kernel(
    language: Seq<char>,
    code: Seq<char>,
    sandbox: SandboxModel,
)
    ensures
        exec_plan(language, code, sandbox) matches Ok(PlanModel::Jupyter(_)) ==> language
            == "python"@,
        exec_plan(language, code, sandbox) is Ok ==> language == "python"@ || language == "bash"@,
        language != "python"@ && language != "bash"@ <==> exec_plan(language, code, sandbox)
            matches Err(ErrorModel::BadRequest(_)),
{
}

/// What comes of a snippet, given what the kernel would answer and what `envd`
/// would: the steps from the first request on.
pub open spec fn exec_result(
    language: Seq<char>,
    code: Seq<char>,
    sandbox: SandboxModel,
    kernel: ReplyModel,
    daemon: ReplyModel,
) -> Result<JupyterModel, ErrorModel> {
    match exec_plan(language, code, sandbox) {
        Ok(plan) => {
            let first = match plan {
                PlanModel::Jupyter(_) => next_of(Backend::Jupyter, code, sandbox, kernel),
                PlanModel::Envd(_) => next_of(Backend::Envd, code, sandbox, daemon),
            };
            let last = match first {
                NextModel::Fallback { .. } => next_of(Backend::Envd, code, sandbox, daemon),
                _ => first,
            };
            match last {
                NextModel::Done(output) => Ok(output),
                NextModel::Failed(error) => Err(error),
                NextModel::Fallback { failure, .. } => Err(failure),
            }
        },
        Err(error) => Err(error),
    }
}

/// Python runs in the kernel where that answers, and with `envd` where it does not,
/// whatever the reason; Bash runs with `envd`. This holds where the requests can be
/// written as JSON.
pub proof fn lemma_python_falls_back_to_envd(
    code: Seq<char>,
    sandbox: SandboxModel,
    kernel: ReplyModel,
    daemon: ReplyModel,
)
    ensures
        json::written(kernel_request(code)) is Ok && json::written(
            process_request("python3"@, code),
        ) is Ok ==> exec_result("python"@, code, sandbox, kernel, daemon) == (match jupyter_outcome(
            kernel,
        ) {
            Ok(output) => Ok(output),
            Err(_) => match envd_outcome(daemon) {
                Ok(output) => Ok(output),
                Err(message) => Err(ErrorModel::Internal(message)),
            },
        }),
        json::written(process_request("bash"@, code)) is Ok ==> exec_result(
            "bash"@,
            code,
            sandbox,
            kernel,
            daemon,
        ) == (match envd_outcome(daemon) {
            Ok(output) => Ok(output),
            Err(message) => Err(ErrorModel::Internal(message)),
        }),
{
    reveal_strlit("python");
    reveal_strlit("bash");
    assert("python"@.len() != "bash"@.len());
}

/// A snippet is reported as a success exactly where it ended with the exit code 0
/// in the time allowed; a failure keeps its exit code, however late.
pub proof fn lemma_success_is_timely(exit_code: i32, elapsed_ms: u64, asked: Option<u32>)
    ensures
        reported_code(exit_code, elapsed_ms, asked) == 0 <==> exit_code == 0 && elapsed_ms
            <= allowed_secs(asked) * 1000,
        exit_code != 0 ==> reported_code(exit_code, elapsed_ms, asked) == exit_code,
        1 <= allowed_secs(asked) <= 300,
{
}

/// The payload of a request to `envd` reaches it whole: its body is one envelope,
/// around the JSON of the process, where that is below four gigabytes.
pub proof fn lemma_envd_request_is_one_frame(
    cmd: Seq<char>,
    code: Seq<char>,
    sandbox: SandboxModel,
    payload: Seq<u8>,
)
    requires
        payload.len() <= u32::MAX,
    ensures
        json::written(process_request(cmd, code)) == Ok::<Seq<u8>, Seq<char>>(payload) ==> (
        envd_request(cmd, code, sandbox) matches Ok(call) && envd::framing(call.body)
            == (envd::Framing {
            frames: seq![envd::Frame { flags: 0, payload }],
            truncated: false,
        })),
{
    envd::lemma_envelope_round_trip(payload, seq![]);
    assert(envd::envelope(payload) + seq![] =~= envd::envelope(payload));
    assert(seq![envd::Frame { flags: 0, payload }] + envd::framing(seq![]).frames =~= seq![
        envd::Frame { flags: 0, payload },
    ]);
}

/// The kernel is given the code as it is, as Python.
pub proof fn lemma_kernel_is_given_the_code(code: Seq<char>)
    ensures
        kernel_request(code).member_text("code"@) == Some(code),
        kernel_request(code).member_text("language"@) == Some("python"@),
{
    reveal_strlit("code");
    reveal_strlit("language");
    assert("code"@.len() == 4 && "language"@.len() == 8);
}

/// `envd` is given the code as it is: the interpreter runs it by `-c`, in `/root`,
/// without input.
pub proof fn lemma_envd_is_given_the_code(cmd: Seq<char>, code: Seq<char>)
    ensures
        ({
            let request = process_request(cmd, code);
            &&& request.member("stdin"@) == Some(JsonModel::Bool(false))
            &&& request.member("process"@) matches Some(process)
            &&& process.member_text("cmd"@) == Some(cmd)
            &&& process.member_text("cwd"@) == Some("/root"@)
            &&& process.member("args"@) matches Some(JsonModel::List(args))
            &&& args == seq![JsonModel::Text("-c"@), JsonModel::Text(code)]
        }),
{
    reveal_strlit("cmd");
    reveal_strlit("args");
    reveal_strlit("envs");
    reveal_strlit("cwd");
    reveal_strlit("process");
    reveal_strlit("stdin");
    assert("cmd"@.len() == 3 && "cwd"@.len() == 3 && "cmd"@[1] == 'm' && "cwd"@[1] == 'w');
    assert("args"@.len() == 4 && "envs"@.len() == 4 && "args"@[0] == 'a' && "envs"@[0] == 'e');
    assert("process"@.len() == 7 && "stdin"@.len() == 5);
}

/// Python goes to the kernel and Bash to `envd`, each with its code, where the request
/// can be written as JSON.
pub proof fn lemma_snippet_goes_to_its_backend(code: Seq<char>, sandbox: SandboxModel)
    ensures
        json::written(kernel_request(code)) matches Ok(payload) ==> exec_plan(
            "python"@,
            code,
            sandbox,
        ) == Ok::<PlanModel, ErrorModel>(PlanModel::Jupyter(to_kernel(payload, sandbox))),
        json::written(process_request("bash"@, code)) matches Ok(payload) ==> exec_plan(
            "bash"@,
            code,
            sandbox,
        ) == Ok::<PlanModel, ErrorModel>(PlanModel::Envd(to_envd(payload, sandbox))),
{
    reveal_strlit("python");
    reveal_strlit("bash");
    assert("python"@.len() != "bash"@.len());
}

proof fn lemma_ports()
    ensures
        text::decimal(ENVD_PORT as nat) == "49983"@,
        text::decimal(JUPYTER_PORT as nat) == "49999"@,
{
    reveal_with_fuel(text::decimal, 6);
    reveal_strlit("49983");
    reveal_strlit("49999");
    assert(text::decimal(ENVD_PORT as nat) =~= "49983"@);
    assert(text::decimal(JUPYTER_PORT as nat) =~= "49999"@);
}

/// A request reaches the sandbox that it is for: it goes to the proxy, of whose address
/// the slashes at the end are no part, under the name with the port, the identifier and
/// the domain of the sandbox.
pub proof fn lemma_request_reaches_its_sandbox(
    payload: Seq<u8>,
    sandbox: SandboxModel,
    proxy: Seq<char>,
    slashes: Seq<char>,
)
    requires
        proxy.len() > 0,
        proxy.last() != '/',
        text::is_all(slashes, '/'),
    ensures
        to_envd(payload, sandbox).host == "49983-"@ + sandbox.id + "."@ + sandbox.domain,
        to_kernel(payload, sandbox).host == "49999-"@ + sandbox.id + "."@ + sandbox.domain,
        sandbox.proxy_url == Some(proxy + slashes) ==> {
            &&& to_envd(payload, sandbox).url == proxy + "/process.Process/Start"@
            &&& to_kernel(payload, sandbox).url == proxy + "/execute"@
        },
        sandbox.proxy_url is None ==> {
            &&& to_envd(payload, sandbox).url == "http://127.0.0.1"@ + "/process.Process/Start"@
            &&& to_kernel(payload, sandbox).url == "http://127.0.0.1"@ + "/execute"@
        },
        to_kernel(payload, sandbox).body == payload,
        to_envd(payload, sandbox).body == envd::envelope(payload),
{
    lemma_ports();
    reveal_strlit("-");
    reveal_strlit("49983");
    reveal_strlit("49999");
    reveal_strlit("49983-");
    reveal_strlit("49999-");
    assert("49983"@ + "-"@ =~= "49983-"@);
    assert("49999"@ + "-"@ =~= "49999-"@);
    text::lemma_copies_are_trimmed(proxy, slashes, '/');
    let local = "http://127.0.0.1"@;
    reveal_strlit("http://127.0.0.1");
    assert(local.last() == '1');
    text::lemma_copies_are_trimmed(local, seq![], '/');
    assert(local + seq![] =~= local);
}

/// Only the body of an answer with a status from 200 to 299 is read. Anything else is a
/// failure that says what went wrong.
pub proof fn lemma_only_success_is_read(reply: ReplyModel)
    ensures
        match reply {
            ReplyModel::SendFailed(error) => {
                &&& jupyter_outcome(reply) == Err::<JupyterModel, Seq<char>>(
                    "jupyter execute request failed: "@ + error,
                )
                &&& envd_outcome(reply) == Err::<JupyterModel, Seq<char>>(
                    "envd command request failed: "@ + error,
                )
            },
            ReplyModel::Answered { status, status_text, body } => {
                &&& status < 200 || status > 299 ==> {
                    &&& jupyter_outcome(reply) == Err::<JupyterModel, Seq<char>>(
                        "jupyter execute request returned HTTP "@ + status_text,
                    )
                    &&& envd_outcome(reply) == Err::<JupyterModel, Seq<char>>(
                        "envd command request returned HTTP "@ + status_text,
                    )
                }
                &&& 200 <= status <= 299 ==> match body {
                    Ok(bytes) => {
                        &&& jupyter_outcome(reply) == jupyter::answer_outcome(bytes)
                        &&& match envd::stream_outcome(bytes) {
                            Ok(out) => envd_outcome(reply) matches Ok(shown) && shown.stdout
                                == out.stdout && shown.stderr == out.stderr && shown.exit_code
                                == out.exit_code && shown.results is None,
                            Err(error) => envd_outcome(reply) == Err::<JupyterModel, Seq<char>>(
                                error,
                            ),
                        }
                    },
                    Err(error) => {
                        &&& jupyter_outcome(reply) == Err::<JupyterModel, Seq<char>>(
                            "failed reading jupyter execute response: "@ + error,
                        )
                        &&& envd_outcome(reply) == Err::<JupyterModel, Seq<char>>(
                            "failed reading envd command stream: "@ + error,
                        )
                    },
                }
            },
        },
{
}

/// A snippet is given the time that was asked for, as far as it lies between one second
/// and 300; else the nearer of the two. Where none was asked for, it is 30 seconds. One
/// that succeeds later is reported with -1.
pub proof fn lemma_time_asked_for_is_given(asked: u32, exit_code: i32, elapsed_ms: u64)
    ensures
        1 <= asked <= 300 ==> allowed_secs(Some(asked)) == asked,
        asked < 1 ==> allowed_secs(Some(asked)) == 1,
        asked > 300 ==> allowed_secs(Some(asked)) == 300,
        allowed_secs(None) == 30,
        1 <= asked <= 300 && exit_code == 0 && elapsed_ms > asked * 1000 ==> reported_code(
            exit_code,
            elapsed_ms,
            Some(asked),
        ) == -1,
        1 <= asked <= 300 && elapsed_ms <= asked * 1000 ==> reported_code(
            exit_code,
            elapsed_ms,
            Some(asked),
        ) == exit_code,
{
}

/// A request goes out with the right to run as `root`, as JSON for the kernel and as an
/// enveloped stream of JSON for `envd`.
pub proof fn lemma_request_is_authorized(payload: Seq<u8>, sandbox: SandboxModel)
    ensures
        to_envd(payload, sandbox).authorization == "Basic cm9vdDo="@,
        to_kernel(payload, sandbox).authorization == "Basic cm9vdDo="@,
        to_envd(payload, sandbox).content_type == "application/connect+json"@,
        to_kernel(payload, sandbox).content_type == "application/json"@,
{
}

/// The answer to a request shows all that the snippet left behind, however it ended. It
/// is a success exactly where the snippet ended with the exit code 0 in its time.
pub proof fn lemma_answer_shows_what_the_snippet_left(
    output: JupyterOutput,
    elapsed_ms: u64,
    asked: Option<u32>,
    answer: ExecCodeResponse,
)
    requires
        call_ensures(finish_exec, (output, elapsed_ms, asked), answer),
    ensures
        answer.stdout@ == output.stdout@,
        answer.stderr@ == output.stderr@,
        jupyter::results_model(answer.results) == jupyter::results_model(output.results),
        answer.elapsed_ms == elapsed_ms,
        answer.success <==> answer.exit_code == 0,
        answer.success <==> output.exit_code == 0 && elapsed_ms <= allowed_secs(asked) * 1000,
        output.exit_code != 0 ==> answer.exit_code == output.exit_code,
        output.exit_code == 0 && !answer.success ==> answer.exit_code == -1,
{
}

/// An answer of `envd` is final. An answer of the kernel is final where it can be read;
/// else `envd` is asked to run the same code with `python3`.
pub proof fn lemma_what_follows_an_answer(
    backend: Backend,
    request: &ExecCodeRequest,
    sandbox: &Sandbox,
    reply: HttpReply,
    next: ExecNext,
)
    requires
        call_ensures(after_reply, (backend, request, sandbox, reply), next),
    ensures
        match backend {
            Backend::Envd => match envd_outcome(reply.model()) {
                Ok(output) => next matches ExecNext::Done(shown) && shown.model() == output,
                Err(message) => next matches ExecNext::Failed(error) && error.model()
                    == ErrorModel::Internal(message),
            },
            Backend::Jupyter => match jupyter_outcome(reply.model()) {
                Ok(output) => next matches ExecNext::Done(shown) && shown.model() == output,
                Err(message) => match json::written(process_request("python3"@, request.code@)) {
                    Ok(payload) => {
                        &&& next matches ExecNext::Fallback { failure, call }
                        &&& failure.model() == ErrorModel::Internal(message)
                        &&& call.body@ == envd::envelope(payload)
                        &&& call.model() == to_envd(payload, sandbox.model())
                    },
                    Err(error) => next matches ExecNext::Failed(failure) && failure.model()
                        == ErrorModel::Internal(error),
                },
            },
        },
{
}

/// The first request for a snippet carries its code to the backend of its language; a
/// snippet in another language is refused by its name.
pub proof fn lemma_first_request_carries_the_snippet(
    request: &ExecCodeRequest,
    sandbox: &Sandbox,
    plan: Result<ExecPlan, AppError>,
)
    requires
        call_ensures(exec_code, (request, sandbox), plan),
    ensures
        request.language@ == "python"@ ==> (json::written(kernel_request(request.code@)) matches Ok(
            payload,
        ) ==> (plan matches Ok(ExecPlan::Jupyter(call)) && call.body@ == payload && call.model()
            == to_kernel(payload, sandbox.model()))),
        request.language@ == "bash"@ ==> (json::written(
            process_request("bash"@, request.code@),
        ) matches Ok(payload) ==> (plan matches Ok(ExecPlan::Envd(call)) && call.body@
            == envd::envelope(payload) && call.model() == to_envd(payload, sandbox.model()))),
        request.language@ != "python"@ && request.language@ != "bash"@ ==> (plan matches Err(
            error,
        ) && error.model() == ErrorModel::BadRequest(
            "unsupported language: "@ + request.language@,
        )),
{
    lemma_snippet_goes_to_its_backend(request.code@, sandbox.model());
}

/// A sandbox with a domain of its own is reached under that; any other under the one
/// that is configured.
pub proof fn lemma_own_domain_counts(own: Option<String>, configured: &str, domain: String)
    requires
        call_ensures(resolve_domain, (own, configured), domain),
    ensures
        own matches Some(name) ==> domain@ == name@,
        own is None ==> domain@ == configured@,
{
}

} // verus!
