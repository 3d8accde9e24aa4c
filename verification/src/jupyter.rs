//! The answers of the Jupyter kernel inside a sandbox.
//!
//! The `/execute` endpoint answers with one JSON object per line, each with a
//! `type`:
//! - `stdout`: `{ "type": "stdout", "text": "..." }`
//! - `stderr`: `{ "type": "stderr", "text": "..." }`
//! - `result`: `{ "type": "result", "text": "...", ... }`
//! - `error`: `{ "type": "error", "name": "...", "value": "...", "traceback": [...] }`

use vstd::prelude::*;
use vstd::string::StringExecFns;

use crate::error::{AppError, ErrorModel};
use crate::json;
use crate::json::{Json, JsonModel};
use crate::text;

verus! {

/// What a snippet left behind.
pub struct JupyterOutput {
    pub exit_code: i32,
    pub stdout: String,
    pub stderr: String,
    /// The `result` events, where there was one.
    pub results: Option<Vec<Json>>,
}

/// What a [`JupyterOutput`] holds.
pub struct JupyterModel {
    pub exit_code: i32,
    pub stdout: Seq<char>,
    pub stderr: Seq<char>,
    pub results: Option<Seq<JsonModel>>,
}

/// What a row of results stands for.
pub open spec fn results_model(results: Option<Vec<Json>>) -> Option<Seq<JsonModel>> {
    match results {
        Some(results) => Some(json::list_model(results@)),
        None => None,
    }
}

impl JupyterOutput {
    pub open spec fn model(self) -> JupyterModel {
        JupyterModel {
            exit_code: self.exit_code,
            stdout: self.stdout@,
            stderr: self.stderr@,
            results: results_model(self.results),
        }
    }
}

/// No output yet, and the exit code 0.
pub open spec fn no_output() -> JupyterModel {
    JupyterModel { exit_code: 0, stdout: seq![], stderr: seq![], results: None }
}

/// `s`, ended by a newline.
pub open spec fn with_newline(s: Seq<char>) -> Seq<char> {
    if s.len() > 0 && s.last() == '\n' {
        s
    } else {
        s.push('\n')
    }
}

/// The strings of a list.
pub open spec fn strings_of(items: Seq<JsonModel>) -> Seq<Seq<char>> {
    items.filter_map(|item: JsonModel| item.text())
}

/// The traceback of an error event: the strings of its list, one per line.
pub open spec fn traceback(event: JsonModel) -> Seq<char> {
    match event.member("traceback"@) {
        Some(JsonModel::List(items)) => text::joined(strings_of(items), "\n"@),
        _ => seq![],
    }
}

/// The value of an optional text, or the given one.
pub open spec fn or_else(s: Option<Seq<char>>, default: Seq<char>) -> Seq<char> {
    match s {
        Some(s) => s,
        None => default,
    }
}

/// How an error event is written to the error stream.
pub open spec fn error_report(event: JsonModel) -> Seq<char> {
    let headline = or_else(event.member_text("name"@), "Error"@) + ": "@ + or_else(
        event.member_text("value"@),
        seq![],
    );
    if traceback(event).len() == 0 {
        headline
    } else {
        headline + "\n"@ + traceback(event)
    }
}

/// What a snippet's output becomes by one event.
pub open spec fn after_event(out: JupyterModel, event: JsonModel) -> JupyterModel {
    let kind = or_else(event.member_text("type"@), seq![]);
    if kind == "stdout"@ {
        match event.member_text("text"@) {
            Some(text) => JupyterModel { stdout: out.stdout + with_newline(text), ..out },
            None => out,
        }
    } else if kind == "stderr"@ {
        match event.member_text("text"@) {
            Some(text) => JupyterModel { stderr: out.stderr + with_newline(text), ..out },
            None => out,
        }
    } else if kind == "result"@ {
        JupyterModel {
            results: match out.results {
                Some(results) => Some(results.push(event)),
                None => Some(seq![event]),
            },
            ..out
        }
    } else if kind == "error"@ {
        JupyterModel {
            exit_code: 1,
            stderr: if out.stderr.len() == 0 {
                error_report(event)
            } else {
                out.stderr + "\n"@ + error_report(event)
            },
            ..out
        }
    } else {
        out
    }
}

/// What a snippet's output becomes by a row of lines, up to the first that is no
/// JSON. Blank lines say nothing.
pub open spec fn after_lines(out: JupyterModel, lines: Seq<Seq<char>>) -> Result<
    JupyterModel,
    Seq<char>,
>
    decreases lines.len(),
{
    if lines.len() == 0 {
        Ok(out)
    } else if text::is_blank(lines[0]) {
        after_lines(out, lines.drop_first())
    } else {
        match json::read_str(lines[0]) {
            Ok(event) => after_lines(after_event(out, event), lines.drop_first()),
            Err(error) => Err("invalid jupyter ndjson line: "@ + error),
        }
    }
}

/// What an answer says of a snippet: its output, or the message of the failure.
pub open spec fn answer_outcome(bytes: Seq<u8>) -> Result<JupyterModel, Seq<char>> {
    if vstd::utf8::valid_utf8(bytes) {
        after_lines(no_output(), text::lines_of(vstd::utf8::decode_utf8(bytes)))
    } else {
        Err("jupyter response is not UTF-8: "@ + text::utf8_error(bytes))
    }
}

/// Appends `text`, ended by a newline.
fn append_line(out: &mut String, text: &str)
    ensures
        final(out)@ == old(out)@ + with_newline(text@),
{
    out.append(text);
    let chars = text::chars_of(text);
    if chars.len() == 0 || chars[chars.len() - 1] != '\n' {
        out.push('\n');
    }
    assert(out@ =~= old(out)@ + with_newline(text@));
}

/// The strings of a list, one per line.
fn join_strings(items: &Vec<Json>) -> (r: String)
    ensures
        r@ == text::joined(strings_of(json::list_model(items@)), "\n"@),
{
    let mut out = String::new();
    let mut any = false;
    let ghost model = json::list_model(items@);
    let ghost pick = |item: JsonModel| item.text();
    let mut i: usize = 0;
    assert(model.take(0) =~= seq![]);
    while i < items.len()
        invariant
            i <= items@.len() == model.len(),
            model == json::list_model(items@),
            pick == (|item: JsonModel| item.text()),
            out@ == text::joined(model.take(i as int).filter_map(pick), "\n"@),
            any == (model.take(i as int).filter_map(pick).len() > 0),
        decreases items.len() - i,
    {
        assert(model.take(i + 1).drop_last() =~= model.take(i as int));
        assert(model.take(i + 1).last() == items@[i as int].model());
        let ghost before = model.take(i as int).filter_map(pick);
        if let Some(s) = items[i].as_str() {
            if any {
                out.append("\n");
            }
            out.append(s);
            any = true;
            assert(model.take(i + 1).filter_map(pick) == before.push(s@));
            assert(before.push(s@).drop_last() =~= before);
            assert(before.len() == 0 ==> text::joined(before, "\n"@) =~= seq![]);
            assert(out@ =~= text::joined(before.push(s@), "\n"@));
        }
        i += 1;
    }
    assert(model.take(i as int) =~= model);
    out
}

/// Adds an event to the output of a snippet.
pub fn apply_event(out: &mut JupyterOutput, event: Json)
    ensures
        final(out).model() == after_event(old(out).model(), event.model()),
{
    let ghost before = out.model();
    let ghost model = event.model();
    let kind = match event.get_str("type") {
        Some(kind) => kind,
        None => "",
    };
    proof {
        reveal_strlit("");
        assert(""@ =~= seq![]);
    }
    if text::same(kind, "stdout") {
        if let Some(text) = event.get_str("text") {
            append_line(&mut out.stdout, text);
        }
    } else if text::same(kind, "stderr") {
        if let Some(text) = event.get_str("text") {
            append_line(&mut out.stderr, text);
        }
    } else if text::same(kind, "result") {
        let mut results = match out.results.take() {
            Some(results) => results,
            None => Vec::new(),
        };
        let ghost given = results@;
        results.push(event);
        assert(json::list_model(results@) =~= json::list_model(given).push(model));
        out.results = Some(results);
        assert(out.model().results =~= after_event(before, model).results);
    } else if text::same(kind, "error") {
        out.exit_code = 1;
        let name = match event.get_str("name") {
            Some(name) => name,
            None => "Error",
        };
        let value = match event.get_str("value") {
            Some(value) => value,
            None => "",
        };
        let traceback = match event.get("traceback") {
            Some(Json::List(items)) => join_strings(items),
            _ => String::new(),
        };
        if !out.stderr.as_str().is_empty() {
            out.stderr.append("\n");
        }
        let report = text::concat3(name, ": ", value);
        out.stderr.append(report.as_str());
        if !traceback.as_str().is_empty() {
            out.stderr.append("\n");
            out.stderr.append(traceback.as_str());
        }
        assert(out.model().stderr =~= after_event(before, model).stderr);
    }
}

/// Reads the answer of the kernel: one JSON event per line.
pub fn parse_jupyter_ndjson(bytes: &[u8]) -> (r: Result<JupyterOutput, AppError>)
    ensures
        match r {
            Ok(out) => answer_outcome(bytes@) == Ok::<JupyterModel, Seq<char>>(out.model()),
            Err(error) => answer_outcome(bytes@) matches Err(message) && error.model()
                == ErrorModel::Internal(message),
        },
{
    let text = match text::utf8_text(bytes) {
        Ok(text) => text,
        Err(error) => {
            return Err(
                AppError::Internal(text::concat2("jupyter response is not UTF-8: ", error.as_str())),
            );
        },
    };
    let mut out = JupyterOutput {
        exit_code: 0,
        stdout: String::new(),
        stderr: String::new(),
        results: None,
    };
    let lines = text::lines(text);
    let ghost all = text::texts(lines@);
    let mut i: usize = 0;
    assert(all.skip(0) =~= all);
    assert(out.model() == no_output());
    while i < lines.len()
        invariant
            i <= lines@.len() == all.len(),
            all == text::texts(lines@),
            answer_outcome(bytes@) == after_lines(out.model(), all.skip(i as int)),
        decreases lines.len() - i,
    {
        let line = lines[i].as_str();
        assert(all.skip(i as int)[0] == line@);
        assert(all.skip(i as int).drop_first() =~= all.skip(i + 1));
        i += 1;
        if !text::blank(line) {
            match json::value_from_str(line) {
                Ok(value) => apply_event(&mut out, json::to_json(value)),
                Err(error) => {
                    return Err(
                        AppError::Internal(
                            text::concat2("invalid jupyter ndjson line: ", error.as_str()),
                        ),
                    );
                },
            }
        }
    }
    Ok(out)
}

// ------------------------------------------------------------------------ laws

/// Whether an event is of that type.
pub open spec fn is_kind(event: JsonModel, kind: Seq<char>) -> bool {
    event.member_text("type"@) == Some(kind)
}

/// The events that a row of lines writes, without the lines that are blank or no
/// JSON.
pub open spec fn events_of(lines: Seq<Seq<char>>) -> Seq<JsonModel>
    decreases lines.len(),
{
    if lines.len() == 0 {
        seq![]
    } else {
        let rest = events_of(lines.drop_first());
        if text::is_blank(lines[0]) {
            rest
        } else {
            match json::read_str(lines[0]) {
                Ok(event) => seq![event] + rest,
                Err(_) => rest,
            }
        }
    }
}

/// What a snippet's output becomes by a row of events.
pub open spec fn after_events(out: JupyterModel, events: Seq<JsonModel>) -> JupyterModel
    decreases events.len(),
{
    if events.len() == 0 {
        out
    } else {
        after_events(after_event(out, events[0]), events.drop_first())
    }
}

/// An answer that can be read at all is the effect of its events, in order.
pub proof fn lemma_answer_is_its_events(out: JupyterModel, lines: Seq<Seq<char>>)
    ensures
        after_lines(out, lines) matches Ok(end) ==> end == after_events(out, events_of(lines)),
    decreases lines.len(),
{
    if lines.len() > 0 {
        let rest = lines.drop_first();
        if text::is_blank(lines[0]) {
            lemma_answer_is_its_events(out, rest);
        } else if let Ok(event) = json::read_str(lines[0]) {
            lemma_answer_is_its_events(after_event(out, event), rest);
            assert((seq![event] + events_of(rest)).drop_first() =~= events_of(rest));
        }
    }
}

proof fn lemma_kinds_differ()
    ensures
        "stdout"@ != "stderr"@,
        "stdout"@ != "result"@,
        "stdout"@ != "error"@,
        "stderr"@ != "result"@,
        "stderr"@ != "error"@,
        "result"@ != "error"@,
        "stdout"@ != Seq::<char>::empty(),
        "stderr"@ != Seq::<char>::empty(),
        "result"@ != Seq::<char>::empty(),
        "error"@ != Seq::<char>::empty(),
{
    reveal_strlit("stdout");
    reveal_strlit("stderr");
    reveal_strlit("result");
    reveal_strlit("error");
    assert("stdout"@.len() == 6 && "stderr"@.len() == 6);
    assert("result"@.len() == 6 && "error"@.len() == 5);
    assert("stdout"@[3] != "stderr"@[3]);
    assert("stdout"@[0] != "result"@[0]);
    assert("stderr"@[0] != "result"@[0]);
}

/// The exit code of a snippet is 1 where an error event was seen and else stays
/// what it was, which is 0 at the start.
pub proof fn lemma_exit_code_reports_errors(out: JupyterModel, events: Seq<JsonModel>)
    ensures
        after_events(out, events).exit_code == (if exists|i: int|
            0 <= i < events.len() && is_kind(#[trigger] events[i], "error"@) {
            1
        } else {
            out.exit_code
        }),
    decreases events.len(),
{
    if events.len() > 0 {
        lemma_kinds_differ();
        let rest = events.drop_first();
        lemma_exit_code_reports_errors(after_event(out, events[0]), rest);
        if exists|i: int| 0 <= i < rest.len() && is_kind(#[trigger] rest[i], "error"@) {
            let i = choose|i: int| 0 <= i < rest.len() && is_kind(#[trigger] rest[i], "error"@);
            assert(events[i + 1] == rest[i]);
        } else {
            assert forall|i: int| 1 <= i < events.len() implies !is_kind(
                #[trigger] events[i],
                "error"@,
            ) by {
                assert(rest[i - 1] == events[i]);
            }
        }
    }
}

/// The results of a snippet are its result events, in order; there are none
/// where there was no such event.
pub proof fn lemma_results_are_result_events(events: Seq<JsonModel>)
    ensures
        ({
            let found = events.filter(|event: JsonModel| is_kind(event, "result"@));
            after_events(no_output(), events).results == (if found.len() == 0 {
                None
            } else {
                Some(found)
            })
        }),
{
    lemma_results_grow(no_output(), events);
}

proof fn lemma_results_grow(out: JupyterModel, events: Seq<JsonModel>)
    ensures
        ({
            let added = events.filter(|event: JsonModel| is_kind(event, "result"@));
            after_events(out, events).results == (match out.results {
                Some(results) => Some(results + added),
                None => if added.len() == 0 {
                    None
                } else {
                    Some(added)
                },
            })
        }),
    decreases events.len(),
{
    let pick = |event: JsonModel| is_kind(event, "result"@);
    reveal_with_fuel(Seq::filter, 2);
    if events.len() == 0 {
        if let Some(results) = out.results {
            assert(results + events.filter(pick) =~= results);
        }
    } else {
        lemma_kinds_differ();
        let first = events[0];
        let rest = events.drop_first();
        lemma_results_grow(after_event(out, first), rest);
        assert(seq![first] + rest =~= events);
        Seq::filter_distributes_over_add(seq![first], rest, pick);
        assert(seq![first].drop_last() =~= seq![]);
        let head = seq![first].filter(pick);
        if pick(first) {
            assert(head =~= seq![first]);
            if let Some(results) = out.results {
                assert(results.push(first) + rest.filter(pick) =~= results + events.filter(pick));
            }
        } else {
            assert(head =~= seq![]);
            assert(head + rest.filter(pick) =~= rest.filter(pick));
        }
    }
}

/// The text that an event of that type writes, ended by a newline; nothing where the
/// event is of another type or has no text.
pub open spec fn line_of(event: JsonModel, kind: Seq<char>) -> Seq<char> {
    if !is_kind(event, kind) {
        seq![]
    } else {
        match event.member_text("text"@) {
            Some(text) => if text.len() > 0 && text[text.len() - 1] == '\n' {
                text
            } else {
                text + seq!['\n']
            },
            None => seq![],
        }
    }
}

/// Nothing that a snippet printed is lost: its output is the lines of its stdout
/// events, in order, whatever other events stand between or after them.
pub proof fn lemma_stdout_is_all_that_was_printed(out: JupyterModel, events: Seq<JsonModel>)
    ensures
        after_events(out, events).stdout == out.stdout + events.flat_map(
            |event: JsonModel| line_of(event, "stdout"@),
        ),
    decreases events.len(),
{
    let f = |event: JsonModel| line_of(event, "stdout"@);
    if events.len() == 0 {
        assert(out.stdout + events.flat_map(f) =~= out.stdout);
    } else {
        lemma_kinds_differ();
        let rest = events.drop_first();
        let next = after_event(out, events[0]);
        lemma_stdout_is_all_that_was_printed(next, rest);
        assert(events.map_values(f).drop_first() =~= rest.map_values(f));
        assert(next.stdout =~= out.stdout + f(events[0]));
        assert(out.stdout + f(events[0]) + rest.flat_map(f) =~= out.stdout + (f(events[0])
            + rest.flat_map(f)));
    }
}

/// Without an error event, the error stream is the lines of the stderr events, in
/// order.
pub proof fn lemma_stderr_is_all_that_was_written(out: JupyterModel, events: Seq<JsonModel>)
    requires
        forall|i: int| 0 <= i < events.len() ==> !is_kind(#[trigger] events[i], "error"@),
    ensures
        after_events(out, events).stderr == out.stderr + events.flat_map(
            |event: JsonModel| line_of(event, "stderr"@),
        ),
    decreases events.len(),
{
    let f = |event: JsonModel| line_of(event, "stderr"@);
    if events.len() == 0 {
        assert(out.stderr + events.flat_map(f) =~= out.stderr);
    } else {
        lemma_kinds_differ();
        let rest = events.drop_first();
        let next = after_event(out, events[0]);
        assert forall|i: int| 0 <= i < rest.len() implies !is_kind(#[trigger] rest[i], "error"@) by {
            assert(rest[i] == events[i + 1]);
        }
        assert(!is_kind(events[0], "error"@));
        lemma_stderr_is_all_that_was_written(next, rest);
        assert(events.map_values(f).drop_first() =~= rest.map_values(f));
        assert(next.stderr =~= out.stderr + f(events[0]));
        assert(out.stderr + f(events[0]) + rest.flat_map(f) =~= out.stderr + (f(events[0])
            + rest.flat_map(f)));
    }
}

/// An event touches nothing but what it is about: only a stdout event the output,
/// only a stderr or an error event the error stream, only a result event the results,
/// only an error event the exit code.
pub proof fn lemma_event_touches_its_own(out: JupyterModel, event: JsonModel)
    ensures
        ({
            let next = after_event(out, event);
            &&& !is_kind(event, "stdout"@) ==> next.stdout == out.stdout
            &&& !is_kind(event, "stderr"@) && !is_kind(event, "error"@) ==> next.stderr
                == out.stderr
            &&& !is_kind(event, "result"@) ==> next.results == out.results
            &&& !is_kind(event, "error"@) ==> next.exit_code == out.exit_code
        }),
{
    lemma_kinds_differ();
}

/// Both streams only ever grow.
pub proof fn lemma_streams_grow(out: JupyterModel, events: Seq<JsonModel>)
    ensures
        out.stdout.is_prefix_of(after_events(out, events).stdout),
        out.stderr.is_prefix_of(after_events(out, events).stderr),
    decreases events.len(),
{
    if events.len() > 0 {
        let next = after_event(out, events[0]);
        let end = after_events(out, events);
        lemma_streams_grow(next, events.drop_first());
        assert(next.stdout.take(out.stdout.len() as int) =~= out.stdout);
        assert(next.stderr.take(out.stderr.len() as int) =~= out.stderr);
        assert(end.stdout.take(out.stdout.len() as int) =~= out.stdout);
        assert(end.stderr.take(out.stderr.len() as int) =~= out.stderr);
    }
}

/// The lines with which an error event is reported: its name and its value, then the
/// strings of its traceback.
pub open spec fn report_lines(event: JsonModel) -> Seq<Seq<char>> {
    let name = match event.member_text("name"@) {
        Some(name) => name,
        None => "Error"@,
    };
    let value = match event.member_text("value"@) {
        Some(value) => value,
        None => seq![],
    };
    let trace = match event.member("traceback"@) {
        Some(JsonModel::List(items)) => items.filter_map(|item: JsonModel| item.text()),
        _ => seq![],
    };
    seq![name + ": "@ + value] + trace
}

/// An error is reported in full: behind what the error stream held, on a line of its
/// own, stand its name, its value and its traceback, one per line. A traceback of
/// nothing but an empty string counts as none.
pub proof fn lemma_error_is_reported_in_full(out: JupyterModel, event: JsonModel)
    requires
        is_kind(event, "error"@),
        report_lines(event).len() == 2 ==> report_lines(event)[1].len() > 0,
    ensures
        after_event(out, event).exit_code == 1,
        after_event(out, event).stderr == text::joined(
            (if out.stderr.len() == 0 {
                seq![]
            } else {
                seq![out.stderr]
            }) + report_lines(event),
            "\n"@,
        ),
{
    lemma_kinds_differ();
    reveal_strlit("\n");
    let lines = report_lines(event);
    let trace = lines.drop_first();
    assert(lines =~= seq![lines[0]] + trace);
    let whole = traceback(event);
    match event.member("traceback"@) {
        Some(JsonModel::List(items)) => {
            assert(trace =~= strings_of(items));
        },
        _ => {
            assert(trace =~= seq![]);
        },
    }
    assert(whole =~= text::joined(trace, "\n"@));
    if trace.len() > 1 {
        assert(whole.len() > 0);
    }
    text::lemma_joined_falls_apart(seq![lines[0]], trace, "\n"@);
    assert(text::joined(seq![lines[0]], "\n"@) =~= lines[0]);
    if trace.len() == 0 {
        assert(lines =~= seq![lines[0]]);
    }
    assert(error_report(event) =~= text::joined(lines, "\n"@));
    if out.stderr.len() == 0 {
        assert(seq![] + lines =~= lines);
    } else {
        text::lemma_joined_falls_apart(seq![out.stderr], lines, "\n"@);
        assert(text::joined(seq![out.stderr], "\n"@) =~= out.stderr);
    }
}

/// Whether a line is blank or JSON.
pub open spec fn is_readable(line: Seq<char>) -> bool {
    text::is_blank(line) || json::read_str(line) is Ok
}

/// An answer whose lines are all blank or JSON is read.
pub proof fn lemma_readable_answer_is_read(out: JupyterModel, lines: Seq<Seq<char>>)
    requires
        forall|k: int| 0 <= k < lines.len() ==> is_readable(#[trigger] lines[k]),
    ensures
        after_lines(out, lines) is Ok,
    decreases lines.len(),
{
    if lines.len() > 0 {
        let rest = lines.drop_first();
        assert forall|k: int| 0 <= k < rest.len() implies is_readable(#[trigger] rest[k]) by {
            assert(rest[k] == lines[k + 1]);
        }
        assert(is_readable(lines[0]));
        if text::is_blank(lines[0]) {
            lemma_readable_answer_is_read(out, rest);
        } else {
            lemma_readable_answer_is_read(after_event(out, json::read_str(lines[0])->Ok_0), rest);
        }
    }
}

/// An answer with a line that is neither blank nor JSON is refused, with the message
/// for the first such line.
pub proof fn lemma_answer_is_refused_for_its_first_bad_line(
    out: JupyterModel,
    lines: Seq<Seq<char>>,
    k: int,
)
    requires
        0 <= k < lines.len(),
        !is_readable(lines[k]),
        forall|j: int| 0 <= j < k ==> is_readable(#[trigger] lines[j]),
    ensures
        after_lines(out, lines) == Err::<JupyterModel, Seq<char>>(
            "invalid jupyter ndjson line: "@ + json::read_str(lines[k])->Err_0,
        ),
    decreases lines.len(),
{
    if k > 0 {
        let rest = lines.drop_first();
        assert forall|j: int| 0 <= j < k - 1 implies is_readable(#[trigger] rest[j]) by {
            assert(rest[j] == lines[j + 1]);
        }
        assert(rest[k - 1] == lines[k]);
        assert(is_readable(lines[0]));
        if text::is_blank(lines[0]) {
            lemma_answer_is_refused_for_its_first_bad_line(out, rest, k - 1);
        } else {
            let next = after_event(out, json::read_str(lines[0])->Ok_0);
            lemma_answer_is_refused_for_its_first_bad_line(next, rest, k - 1);
        }
    }
}

/// What an answer in UTF-8 printed is what its stdout lines say, one after the other;
/// an answer in anything else is refused.
pub proof fn lemma_answer_shows_what_was_printed(bytes: Seq<u8>)
    ensures
        !vstd::utf8::valid_utf8(bytes) ==> answer_outcome(bytes) is Err,
        answer_outcome(bytes) matches Ok(end) ==> {
            let events = events_of(text::lines_of(vstd::utf8::decode_utf8(bytes)));
            &&& end.stdout == events.flat_map(|event: JsonModel| line_of(event, "stdout"@))
            &&& end.exit_code == (if exists|i: int|
                0 <= i < events.len() && is_kind(#[trigger] events[i], "error"@) {
                1i32
            } else {
                0
            })
        },
{
    if let Ok(end) = answer_outcome(bytes) {
        let lines = text::lines_of(vstd::utf8::decode_utf8(bytes));
        let events = events_of(lines);
        let f = |event: JsonModel| line_of(event, "stdout"@);
        lemma_answer_is_its_events(no_output(), lines);
        lemma_stdout_is_all_that_was_printed(no_output(), events);
        lemma_exit_code_reports_errors(no_output(), events);
        assert(seq![] + events.flat_map(f) =~= events.flat_map(f));
    }
}

/// An answer that is read gives all that its events say, and one that is not the reason.
pub proof fn lemma_read_answer_is_shown(bytes: &[u8], read: Result<JupyterOutput, AppError>)
    requires
        call_ensures(parse_jupyter_ndjson, (bytes,), read),
    ensures
        read matches Ok(out) ==> {
            let events = events_of(text::lines_of(vstd::utf8::decode_utf8(bytes@)));
            let found = events.filter(|event: JsonModel| is_kind(event, "result"@));
            &&& out.model() == after_events(no_output(), events)
            &&& out.stdout@ == events.flat_map(|event: JsonModel| line_of(event, "stdout"@))
            &&& results_model(out.results) == (if found.len() == 0 {
                None
            } else {
                Some(found)
            })
        },
        read is Ok <==> answer_outcome(bytes@) is Ok,
        read matches Err(error) ==> (answer_outcome(bytes@) matches Err(message) && error.model()
            == ErrorModel::Internal(message)),
{
    lemma_answer_shows_what_was_printed(bytes@);
    let lines = text::lines_of(vstd::utf8::decode_utf8(bytes@));
    lemma_answer_is_its_events(no_output(), lines);
    lemma_results_are_result_events(events_of(lines));
}

} // verus!
