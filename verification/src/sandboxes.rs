//! The sandbox endpoints: which call of the sandbox service a request becomes, and
//! the status of the answer where the call succeeds.

use vstd::prelude::*;

use crate::text;

verus! {

/// A call of the sandbox service.
pub enum SandboxCall {
    List { metadata: Option<String>, state: Option<String>, limit: i32 },
    Get { id: String },
    /// The body of the request goes along as it is.
    Create,
    Kill { id: String },
    Pause { id: String },
    Resume { id: String, timeout: i32 },
    Connect { id: String, timeout: i32 },
    Logs { id: String, start: Option<i64>, limit: i32 },
    LogsV2 { id: String, cursor: Option<i64>, limit: i32 },
    SetTimeout { id: String, timeout: i32 },
    Refresh { id: String, duration: i32 },
}

/// What a [`SandboxCall`] holds.
pub enum SandboxCallModel {
    List { metadata: Option<Seq<char>>, state: Option<Seq<char>>, limit: i32 },
    Get { id: Seq<char> },
    Create,
    Kill { id: Seq<char> },
    Pause { id: Seq<char> },
    Resume { id: Seq<char>, timeout: i32 },
    Connect { id: Seq<char>, timeout: i32 },
    Logs { id: Seq<char>, start: Option<i64>, limit: i32 },
    LogsV2 { id: Seq<char>, cursor: Option<i64>, limit: i32 },
    SetTimeout { id: Seq<char>, timeout: i32 },
    Refresh { id: Seq<char>, duration: i32 },
}

impl SandboxCall {
    pub open spec fn model(self) -> SandboxCallModel {
        match self {
            SandboxCall::List { metadata, state, limit } => SandboxCallModel::List {
                metadata: text::opt_text(metadata),
                state: text::opt_text(state),
                limit,
            },
            SandboxCall::Get { id } => SandboxCallModel::Get { id: id@ },
            SandboxCall::Create => SandboxCallModel::Create,
            SandboxCall::Kill { id } => SandboxCallModel::Kill { id: id@ },
            SandboxCall::Pause { id } => SandboxCallModel::Pause { id: id@ },
            SandboxCall::Resume { id, timeout } => SandboxCallModel::Resume { id: id@, timeout },
            SandboxCall::Connect { id, timeout } => SandboxCallModel::Connect { id: id@, timeout },
            SandboxCall::Logs { id, start, limit } => SandboxCallModel::Logs {
                id: id@,
                start,
                limit,
            },
            SandboxCall::LogsV2 { id, cursor, limit } => SandboxCallModel::LogsV2 {
                id: id@,
                cursor,
                limit,
            },
            SandboxCall::SetTimeout { id, timeout } => SandboxCallModel::SetTimeout {
                id: id@,
                timeout,
            },
            SandboxCall::Refresh { id, duration } => SandboxCallModel::Refresh {
                id: id@,
                duration,
            },
        }
    }

    /// The status of the answer where the call succeeds: 201 for a sandbox that was
    /// made or brought back, 204 where there is nothing to show, else 200.
    pub fn success_status(&self) -> (r: u16)
        ensures
            r == (match self.model() {
                SandboxCallModel::Create => 201u16,
                SandboxCallModel::Resume { .. } => 201,
                SandboxCallModel::Kill { .. } => 204,
                SandboxCallModel::Pause { .. } => 204,
                SandboxCallModel::SetTimeout { .. } => 204,
                SandboxCallModel::Refresh { .. } => 204,
                _ => 200,
            }),
    {
        match self {
            SandboxCall::Create => 201,
            SandboxCall::Resume { .. } => 201,
            SandboxCall::Kill { .. } => 204,
            SandboxCall::Pause { .. } => 204,
            SandboxCall::SetTimeout { .. } => 204,
            SandboxCall::Refresh { .. } => 204,
            _ => 200,
        }
    }
}

/// The first version of the list: whatever the state, up to 200 sandboxes.
pub fn list_sandboxes(metadata: Option<String>) -> (r: SandboxCall)
    ensures
        r.model() == (SandboxCallModel::List {
            metadata: text::opt_text(metadata),
            state: None,
            limit: 200,
        }),
{
    SandboxCall::List { metadata, state: None, limit: 200 }
}

/// The second version of the list: of that state, up to that number.
pub fn list_sandboxes_v2(metadata: Option<String>, state: Option<String>, limit: i32) -> (r:
    SandboxCall)
    ensures
        r.model() == (SandboxCallModel::List {
            metadata: text::opt_text(metadata),
            state: text::opt_text(state),
            limit,
        }),
{
    SandboxCall::List { metadata, state, limit }
}

/// The details of a sandbox.
pub fn get_sandbox(sandbox_id: String) -> (r: SandboxCall)
    ensures
        r.model() == (SandboxCallModel::Get { id: sandbox_id@ }),
{
    SandboxCall::Get { id: sandbox_id }
}

/// A new sandbox.
pub fn create_sandbox() -> (r: SandboxCall)
    ensures
        r.model() == SandboxCallModel::Create,
{
    SandboxCall::Create
}

/// The end of a sandbox.
pub fn kill_sandbox(sandbox_id: String) -> (r: SandboxCall)
    ensures
        r.model() == (SandboxCallModel::Kill { id: sandbox_id@ }),
{
    SandboxCall::Kill { id: sandbox_id }
}

/// A pause of a sandbox.
pub fn pause_sandbox(sandbox_id: String) -> (r: SandboxCall)
    ensures
        r.model() == (SandboxCallModel::Pause { id: sandbox_id@ }),
{
    SandboxCall::Pause { id: sandbox_id }
}

/// The return of a paused sandbox.
pub fn resume_sandbox(sandbox_id: String, timeout: i32) -> (r: SandboxCall)
    ensures
        r.model() == (SandboxCallModel::Resume { id: sandbox_id@, timeout }),
{
    SandboxCall::Resume { id: sandbox_id, timeout }
}

/// A connection to a sandbox.
pub fn connect_sandbox(sandbox_id: String, timeout: i32) -> (r: SandboxCall)
    ensures
        r.model() == (SandboxCallModel::Connect { id: sandbox_id@, timeout }),
{
    SandboxCall::Connect { id: sandbox_id, timeout }
}

/// The logs of a sandbox, from a start on.
pub fn get_sandbox_logs(sandbox_id: String, start: Option<i64>, limit: i32) -> (r: SandboxCall)
    ensures
        r.model() == (SandboxCallModel::Logs { id: sandbox_id@, start, limit }),
{
    SandboxCall::Logs { id: sandbox_id, start, limit }
}

/// The structured logs of a sandbox, from a cursor on.
pub fn get_sandbox_logs_v2(sandbox_id: String, cursor: Option<i64>, limit: i32) -> (r: SandboxCall)
    ensures
        r.model() == (SandboxCallModel::LogsV2 { id: sandbox_id@, cursor, limit }),
{
    SandboxCall::LogsV2 { id: sandbox_id, cursor, limit }
}

/// A new timeout for a sandbox.
pub fn set_sandbox_timeout(sandbox_id: String, timeout: i32) -> (r: SandboxCall)
    ensures
        r.model() == (SandboxCallModel::SetTimeout { id: sandbox_id@, timeout }),
{
    SandboxCall::SetTimeout { id: sandbox_id, timeout }
}

/// A refresh without a duration is one of no seconds.
pub fn refresh_sandbox(sandbox_id: String, duration: Option<i32>) -> (r: SandboxCall)
    ensures
        r.model() == (SandboxCallModel::Refresh {
            id: sandbox_id@,
            duration: match duration {
                Some(duration) => duration,
                None => 0,
            },
        }),
{
    let duration: i32 = match duration {
        Some(duration) => duration,
        None => 0,
    };
    SandboxCall::Refresh { id: sandbox_id, duration }
}

// ------------------------------------------------------------------------ laws

/// The sandbox that a call is about, where it is about one.
pub open spec fn subject(call: SandboxCallModel) -> Option<Seq<char>> {
    match call {
        SandboxCallModel::List { .. } => None,
        SandboxCallModel::Create => None,
        SandboxCallModel::Get { id } => Some(id),
        SandboxCallModel::Kill { id } => Some(id),
        SandboxCallModel::Pause { id } => Some(id),
        SandboxCallModel::Resume { id, .. } => Some(id),
        SandboxCallModel::Connect { id, .. } => Some(id),
        SandboxCallModel::Logs { id, .. } => Some(id),
        SandboxCallModel::LogsV2 { id, .. } => Some(id),
        SandboxCallModel::SetTimeout { id, .. } => Some(id),
        SandboxCallModel::Refresh { id, .. } => Some(id),
    }
}

/// A request for a sandbox becomes a call about that sandbox, of the kind that was
/// asked for.
pub proof fn lemma_call_is_about_the_sandbox_asked_for(
    id: String,
    number: i32,
    from: Option<i64>,
    duration: Option<i32>,
    call: SandboxCall,
)
    ensures
        call_ensures(get_sandbox, (id,), call) ==> subject(call.model()) == Some(id@)
            && call.model() is Get,
        call_ensures(kill_sandbox, (id,), call) ==> subject(call.model()) == Some(id@)
            && call.model() is Kill,
        call_ensures(pause_sandbox, (id,), call) ==> subject(call.model()) == Some(id@)
            && call.model() is Pause,
        call_ensures(resume_sandbox, (id, number), call) ==> subject(call.model()) == Some(id@)
            && call.model() is Resume,
        call_ensures(connect_sandbox, (id, number), call) ==> subject(call.model()) == Some(id@)
            && call.model() is Connect,
        call_ensures(get_sandbox_logs, (id, from, number), call) ==> subject(call.model()) == Some(
            id@,
        ) && call.model() is Logs,
        call_ensures(get_sandbox_logs_v2, (id, from, number), call) ==> subject(call.model())
            == Some(id@) && call.model() is LogsV2,
        call_ensures(set_sandbox_timeout, (id, number), call) ==> subject(call.model()) == Some(id@)
            && call.model() is SetTimeout,
        call_ensures(refresh_sandbox, (id, duration), call) ==> subject(call.model()) == Some(id@)
            && call.model() is Refresh,
{
}

/// A call carries the numbers of the request as they are.
pub proof fn lemma_call_carries_the_numbers_asked_for(
    id: String,
    number: i32,
    from: Option<i64>,
    duration: Option<i32>,
    call: SandboxCall,
)
    ensures
        call_ensures(resume_sandbox, (id, number), call) ==> (call.model() matches
            SandboxCallModel::Resume { timeout, .. } && timeout == number),
        call_ensures(connect_sandbox, (id, number), call) ==> (call.model() matches
            SandboxCallModel::Connect { timeout, .. } && timeout == number),
        call_ensures(get_sandbox_logs, (id, from, number), call) ==> (call.model() matches
            SandboxCallModel::Logs { start, limit, .. } && start == from && limit == number),
        call_ensures(get_sandbox_logs_v2, (id, from, number), call) ==> (call.model() matches
            SandboxCallModel::LogsV2 { cursor, limit, .. } && cursor == from && limit == number),
        call_ensures(set_sandbox_timeout, (id, number), call) ==> (call.model() matches
            SandboxCallModel::SetTimeout { timeout, .. } && timeout == number),
        call_ensures(refresh_sandbox, (id, duration), call) ==> (call.model() matches
            SandboxCallModel::Refresh { duration: secs, .. } && secs == (match duration {
            Some(duration) => duration as int,
            None => 0,
        })),
{
}

/// The first version of the list is the second for any state and up to 200 sandboxes.
pub proof fn lemma_lists_agree(
    metadata: Option<String>,
    state: Option<String>,
    limit: i32,
    first: SandboxCall,
    second: SandboxCall,
)
    requires
        call_ensures(list_sandboxes, (metadata,), first),
        call_ensures(list_sandboxes_v2, (metadata, state, limit), second),
    ensures
        state is None && limit == 200 ==> first.model() == second.model(),
        second.model() matches SandboxCallModel::List { metadata: m, state: s, limit: n } && m
            == text::opt_text(metadata) && s == text::opt_text(state) && n == limit,
{
}

/// A call that makes a sandbox or brings one back is answered with 201; one with
/// nothing to show with 204; one that shows something with 200.
pub proof fn lemma_status_fits_the_call(call: &SandboxCall, status: u16)
    requires
        call_ensures(SandboxCall::success_status, (call,), status),
    ensures
        status == 201 <==> call.model() is Create || call.model() is Resume,
        status == 204 <==> call.model() is Kill || call.model() is Pause || call.model()
            is SetTimeout || call.model() is Refresh,
        status == 200 <==> call.model() is List || call.model() is Get || call.model() is Connect
            || call.model() is Logs || call.model() is LogsV2,
{
}

} // verus!
