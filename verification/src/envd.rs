//! The process protocol of `envd`, the daemon inside a sandbox.
//!
//! A message is an envelope: a flag byte, the length of the payload as four
//! bytes, the most significant first, and the payload. The answer to a command
//! is a stream of such envelopes, each with a JSON event.

use base64::Engine;
use vstd::prelude::*;
use vstd::string::StringExecFns;

use crate::error::{AppError, ErrorModel};
use crate::json;
use crate::json::{Json, JsonModel};
use crate::text;

verus! {

// ------------------------------------------------------------------- envelopes

/// An envelope of a stream.
pub struct Frame {
    pub flags: u8,
    pub payload: Seq<u8>,
}

/// The envelopes of a stream, up to the first one that the stream cuts short.
pub struct Framing {
    pub frames: Seq<Frame>,
    pub truncated: bool,
}

/// The number that four bytes write, the most significant first.
pub open spec fn big_endian(b: Seq<u8>) -> nat {
    (b[0] as nat) * 0x100_0000 + (b[1] as nat) * 0x1_0000 + (b[2] as nat) * 0x100 + (b[3] as nat)
}

/// The four bytes that write a number, the most significant first.
pub open spec fn big_endian_bytes(n: u32) -> Seq<u8> {
    seq![
        (n / 0x100_0000) as u8,
        (n / 0x1_0000 % 0x100) as u8,
        (n / 0x100 % 0x100) as u8,
        (n % 0x100) as u8,
    ]
}

/// The envelope around a payload.
pub open spec fn envelope(payload: Seq<u8>) -> Seq<u8> {
    seq![0u8] + big_endian_bytes(payload.len() as u32) + payload
}

/// Cuts a stream into envelopes. Fewer than five bytes at its end are ignored.
pub open spec fn framing(bytes: Seq<u8>) -> Framing
    decreases bytes.len(),
{
    if bytes.len() < 5 {
        Framing { frames: seq![], truncated: false }
    } else {
        let n = big_endian(bytes.subrange(1, 5));
        if bytes.len() < 5 + n {
            Framing { frames: seq![], truncated: true }
        } else {
            let rest = framing(bytes.skip(5 + n as int));
            let frame = Frame { flags: bytes[0], payload: bytes.subrange(5, 5 + n as int) };
            Framing { frames: seq![frame] + rest.frames, truncated: rest.truncated }
        }
    }
}

/// The envelope around `payload`: the flag byte 0, the length, the payload. Of
/// the length of a payload of four gigabytes or more, the low 32 bits.
pub fn connect_envelope(payload: &[u8]) -> (r: Vec<u8>)
    ensures
        r@ == envelope(payload@),
{
    let n: u32 = #[verifier::truncate]
    (payload.len() as u32);
    let mut out: Vec<u8> = Vec::new();
    out.push(0);
    out.push((n / 0x100_0000) as u8);
    out.push((n / 0x1_0000 % 0x100) as u8);
    out.push((n / 0x100 % 0x100) as u8);
    out.push((n % 0x100) as u8);
    out.extend_from_slice(payload);
    assert(out@ =~= envelope(payload@));
    out
}

/// Reading an envelope gives back its payload: at the front of any stream it
/// stands for one frame with that payload and no flags, and the rest of the
/// stream is read as it would be alone.
pub proof fn lemma_envelope_round_trip(payload: Seq<u8>, rest: Seq<u8>)
    requires
        payload.len() <= u32::MAX,
    ensures
        framing(envelope(payload) + rest).frames == seq![Frame { flags: 0, payload }] + framing(
            rest,
        ).frames,
        framing(envelope(payload) + rest).truncated == framing(rest).truncated,
{
    let n = payload.len() as u32;
    let bytes = envelope(payload) + rest;
    assert(bytes.subrange(1, 5) =~= big_endian_bytes(n));
    assert(big_endian(big_endian_bytes(n)) == n) by {
        assert(n == (n / 0x100_0000) * 0x100_0000 + (n / 0x1_0000 % 0x100) * 0x1_0000 + (n / 0x100
            % 0x100) * 0x100 + n % 0x100);
    }
    assert(bytes.subrange(5, 5 + n as int) =~= payload);
    assert(bytes.skip(5 + n as int) =~= rest);
}

/// A row of envelopes, one after the other.
pub open spec fn stream(payloads: Seq<Seq<u8>>) -> Seq<u8>
    decreases payloads.len(),
{
    if payloads.len() == 0 {
        seq![]
    } else {
        envelope(payloads[0]) + stream(payloads.drop_first())
    }
}

/// Reading a stream of envelopes gives back their payloads, in order.
pub proof fn lemma_stream_round_trip(payloads: Seq<Seq<u8>>)
    requires
        forall|i: int| 0 <= i < payloads.len() ==> (#[trigger] payloads[i]).len() <= u32::MAX,
    ensures
        framing(stream(payloads)).frames == payloads.map_values(
            |payload: Seq<u8>| Frame { flags: 0, payload },
        ),
        !framing(stream(payloads)).truncated,
    decreases payloads.len(),
{
    let wrap = |payload: Seq<u8>| Frame { flags: 0, payload };
    if payloads.len() == 0 {
        assert(payloads.map_values(wrap) =~= seq![]);
    } else {
        let rest = payloads.drop_first();
        assert forall|i: int| 0 <= i < rest.len() implies (#[trigger] rest[i]).len()
            <= u32::MAX by {
            assert(rest[i] == payloads[i + 1]);
        }
        lemma_stream_round_trip(rest);
        lemma_envelope_round_trip(payloads[0], stream(rest));
        assert(seq![Frame { flags: 0, payload: payloads[0] }] + rest.map_values(wrap)
            =~= payloads.map_values(wrap));
    }
}

// ---------------------------------------------------------------------- output

/// What a command left behind.
pub struct CommandOutput {
    pub exit_code: i32,
    pub stdout: String,
    pub stderr: String,
}

/// What a [`CommandOutput`] holds.
pub struct CommandModel {
    pub exit_code: i32,
    pub stdout: Seq<char>,
    pub stderr: Seq<char>,
}

impl CommandOutput {
    pub open spec fn model(self) -> CommandModel {
        CommandModel { exit_code: self.exit_code, stdout: self.stdout@, stderr: self.stderr@ }
    }
}

/// No output yet, and the exit code 0.
pub open spec fn no_output() -> CommandModel {
    CommandModel { exit_code: 0, stdout: seq![], stderr: seq![] }
}

/// The bytes that a text is the standard base64 of, where it is one: what the
/// `decode` of `base64::engine::general_purpose::STANDARD` returns.
pub uninterp spec fn base64_decoded(text: Seq<char>) -> Option<Seq<u8>>;

/// `decode` of `base64::engine::general_purpose::STANDARD`: the decoded bytes, or
/// nothing where it returns an error.
#[verifier::external_body]
fn base64_decode(text: &str) -> (r: Option<Vec<u8>>)
    ensures
        match r {
            Some(bytes) => base64_decoded(text@) == Some(bytes@),
            None => base64_decoded(text@) is None,
        },
{
    match base64::engine::general_purpose::STANDARD.decode(text) {
        Ok(bytes) => Some(bytes),
        Err(_) => None,
    }
}

/// The text of some bytes; nothing where there are none.
pub open spec fn lossy_or_empty(bytes: Option<Seq<u8>>) -> Seq<char> {
    match bytes {
        Some(bytes) => text::lossy(bytes),
        None => seq![],
    }
}

/// The text of decoded bytes: as `String::from_utf8_lossy` reads them, which for
/// UTF-8 is what they encode, and empty where the decoding failed.
pub fn decoded_text(bytes: Option<Vec<u8>>) -> (r: String)
    ensures
        r@ == (match bytes {
            Some(bytes) => lossy_or_empty(Some(bytes@)),
            None => lossy_or_empty(None),
        }),
{
    match bytes {
        Some(bytes) => text::lossy_text(bytes.as_slice()),
        None => String::new(),
    }
}

/// The text that `s` is the base64 of; empty where it is none.
pub fn decode_b64_lossy(s: &str) -> (r: String)
    ensures
        r@ == lossy_or_empty(base64_decoded(s@)),
{
    decoded_text(base64_decode(s))
}

/// The number in a status of the form `exit status N`.
pub open spec fn exit_status(status: Seq<char>) -> Option<i64> {
    let prefix = "exit status "@;
    if prefix.is_prefix_of(status) {
        text::i64_of(text::trimmed(status.skip(prefix.len() as int)))
    } else {
        None
    }
}

/// The number in a status of the form `exit status N`, where there is a status.
pub fn parse_exit_status(status: Option<&str>) -> (r: Option<i64>)
    ensures
        r == (match status {
            Some(status) => exit_status(status@),
            None => None,
        }),
{
    match status {
        Some(status) => {
            let prefix = "exit status ";
            match text::strip_prefix(status, prefix) {
                Some(rest) => text::parse_i64(text::trim(rest)),
                None => None,
            }
        },
        None => None,
    }
}

/// The exit code of an `end` event: `exitCode` where it is an integer, else the
/// number in `status`, else 0; of a number that an `i32` cannot hold, the low 32
/// bits.
pub open spec fn end_code(end: JsonModel) -> i32 {
    let code = match end.member("exitCode"@) {
        Some(JsonModel::Int(code)) => code,
        _ => match end.member_text("status"@) {
            Some(status) => match exit_status(status) {
                Some(code) => code,
                None => 0,
            },
            None => 0,
        },
    };
    code as i32
}

/// What a command's output becomes by an event.
pub open spec fn after_event(out: CommandModel, event: JsonModel) -> CommandModel {
    let data = event.member("data"@);
    CommandModel {
        stdout: out.stdout + decoded_member(data, "stdout"@),
        stderr: out.stderr + decoded_member(data, "stderr"@),
        exit_code: match event.member("end"@) {
            Some(end) => end_code(end),
            None => out.exit_code,
        },
    }
}

/// The text whose base64 is the member of that name; empty where there is none.
pub open spec fn decoded_member(data: Option<JsonModel>, name: Seq<char>) -> Seq<char> {
    match data {
        Some(data) => match data.member_text(name) {
            Some(encoded) => lossy_or_empty(base64_decoded(encoded)),
            None => seq![],
        },
        None => seq![],
    }
}

/// What a command's output becomes by the JSON of one frame, or the message of
/// the failure that it reports, with the JSON as it is shown. Bit 1 of the flags
/// marks the end of the stream.
pub open spec fn after_message(
    out: CommandModel,
    flags: u8,
    message: JsonModel,
    shown: Seq<char>,
) -> Result<CommandModel, Seq<char>> {
    if flags & 2 != 0 {
        match message.member("error"@) {
            Some(_) => Err("envd command error: "@ + shown),
            None => Ok(out),
        }
    } else {
        match message.member("event"@) {
            Some(event) => Ok(after_event(out, event)),
            None => Ok(out),
        }
    }
}

/// What a command's output becomes by one frame.
pub open spec fn after_frame(out: CommandModel, frame: Frame) -> Result<CommandModel, Seq<char>> {
    match json::read_slice(frame.payload) {
        Ok(message) => after_message(out, frame.flags, message, json::shown(message)),
        Err(error) => Err("invalid envd JSON event: "@ + error),
    }
}

/// What a command's output becomes by a row of frames, up to the first failure.
pub open spec fn after_frames(out: CommandModel, frames: Seq<Frame>) -> Result<
    CommandModel,
    Seq<char>,
>
    decreases frames.len(),
{
    if frames.len() == 0 {
        Ok(out)
    } else {
        match after_frame(out, frames[0]) {
            Ok(next) => after_frames(next, frames.drop_first()),
            Err(error) => Err(error),
        }
    }
}

/// What a stream says of a command: its output, or the message of the first
/// failure.
pub open spec fn stream_outcome(bytes: Seq<u8>) -> Result<CommandModel, Seq<char>> {
    let framing = framing(bytes);
    match after_frames(no_output(), framing.frames) {
        Ok(out) => if framing.truncated {
            Err("truncated envd command stream"@)
        } else {
            Ok(out)
        },
        Err(error) => Err(error),
    }
}

/// Adds an event to the output of a command.
pub fn apply_event(out: &mut CommandOutput, event: &Json)
    ensures
        final(out).model() == after_event(old(out).model(), event.model()),
{
    if let Some(data) = event.get("data") {
        if let Some(stdout) = data.get_str("stdout") {
            out.stdout.append(decode_b64_lossy(stdout).as_str());
        }
        if let Some(stderr) = data.get_str("stderr") {
            out.stderr.append(decode_b64_lossy(stderr).as_str());
        }
    }
    if let Some(end) = event.get("end") {
        out.exit_code = exit_code_of(end);
    }
    assert(out.stdout@ =~= after_event(old(out).model(), event.model()).stdout);
    assert(out.stderr@ =~= after_event(old(out).model(), event.model()).stderr);
}

/// The exit code of an `end` event.
pub fn exit_code_of(end: &Json) -> (r: i32)
    ensures
        r == end_code(end.model()),
{
    let code: i64 = match end.get("exitCode") {
        Some(Json::Int(code)) => *code,
        _ => match parse_exit_status(end.get_str("status")) {
            Some(code) => code,
            None => 0,
        },
    };
    #[verifier::truncate]
    (code as i32)
}

/// Adds the JSON of one frame to the output of a command, or returns the failure
/// that it reports.
pub fn apply_message(out: &mut CommandOutput, flags: u8, message: &Json, shown: &str) -> (r: Result<
    (),
    AppError,
>)
    ensures
        match r {
            Ok(_) => after_message(old(out).model(), flags, message.model(), shown@) == Ok::<
                CommandModel,
                Seq<char>,
            >(final(out).model()),
            Err(error) => {
                &&& after_message(old(out).model(), flags, message.model(), shown@) matches Err(
                    reason,
                ) && error.model() == ErrorModel::Internal(reason)
                &&& *final(out) == *old(out)
            },
        },
{
    if flags & 2 != 0 {
        if message.get("error").is_some() {
            return Err(AppError::Internal(text::concat2("envd command error: ", shown)));
        }
    } else {
        if let Some(event) = message.get("event") {
            apply_event(out, event);
        }
    }
    Ok(())
}

/// Reads the answer to a command: a stream of envelopes, each with a JSON event.
pub fn parse_connect_stream(bytes: &[u8]) -> (r: Result<CommandOutput, AppError>)
    ensures
        match r {
            Ok(out) => stream_outcome(bytes@) == Ok::<CommandModel, Seq<char>>(out.model()),
            Err(error) => stream_outcome(bytes@) matches Err(message) && error.model()
                == ErrorModel::Internal(message),
        },
{
    let mut out = CommandOutput { exit_code: 0, stdout: String::new(), stderr: String::new() };
    let mut i: usize = 0;
    assert(bytes@.skip(0) =~= bytes@);
    assert(out.model() == no_output());
    while bytes.len() - i >= 5
        invariant
            i <= bytes@.len(),
            stream_outcome(bytes@) == (match after_frames(
                out.model(),
                framing(bytes@.skip(i as int)).frames,
            ) {
                Ok(out) => if framing(bytes@.skip(i as int)).truncated {
                    Err("truncated envd command stream"@)
                } else {
                    Ok(out)
                },
                Err(error) => Err(error),
            }),
        decreases bytes.len() - i,
    {
        let ghost rest = bytes@.skip(i as int);
        let flags: u8 = bytes[i];
        let n: u32 = 0x100_0000 * (bytes[i + 1] as u32) + 0x1_0000 * (bytes[i + 2] as u32) + 0x100
            * (bytes[i + 3] as u32) + (bytes[i + 4] as u32);
        assert(n == big_endian(rest.subrange(1, 5)));
        i += 5;
        if (n as usize) > bytes.len() - i {
            return Err(AppError::Internal(String::from_str("truncated envd command stream")));
        }
        let payload = vstd::slice::slice_subrange(bytes, i, i + n as usize);
        i += n as usize;
        let ghost frame = Frame { flags, payload: payload@ };
        assert(payload@ =~= rest.subrange(5, 5 + n as int));
        assert(rest.skip(5 + n as int) =~= bytes@.skip(i as int));
        assert(framing(rest).frames.drop_first() =~= framing(bytes@.skip(i as int)).frames);
        assert(framing(rest).frames[0] == frame);
        let value = match json::value_from_slice(payload) {
            Ok(value) => value,
            Err(error) => {
                return Err(
                    AppError::Internal(text::concat2("invalid envd JSON event: ", error.as_str())),
                );
            },
        };
        let shown = json::value_to_string(&value);
        match apply_message(&mut out, flags, &json::to_json(value), shown.as_str()) {
            Ok(_) => {},
            Err(error) => {
                return Err(error);
            },
        }
    }
    Ok(out)
}

// ------------------------------------------------------------------------ laws

/// A stream is read in order: what its first part says is the start for the rest,
/// and a failure in it is the failure of the whole.
pub proof fn lemma_frames_are_read_in_order(out: CommandModel, first: Seq<Frame>, rest: Seq<Frame>)
    ensures
        after_frames(out, first + rest) == (match after_frames(out, first) {
            Ok(next) => after_frames(next, rest),
            Err(error) => Err(error),
        }),
    decreases first.len(),
{
    if first.len() == 0 {
        assert(first + rest =~= rest);
    } else {
        assert((first + rest).drop_first() =~= first.drop_first() + rest);
        if let Ok(next) = after_frame(out, first[0]) {
            lemma_frames_are_read_in_order(next, first.drop_first(), rest);
        }
    }
}

proof fn lemma_big_endian_round_trip(n: u32)
    ensures
        big_endian(big_endian_bytes(n)) == n,
{
    assert(n == (n / 0x100_0000) * 0x100_0000 + (n / 0x1_0000 % 0x100) * 0x1_0000 + (n / 0x100
        % 0x100) * 0x100 + n % 0x100);
}

proof fn lemma_front_frame(bytes: Seq<u8>, flags: u8, payload: Seq<u8>, rest: Seq<u8>)
    requires
        payload.len() <= u32::MAX,
        bytes == seq![flags] + big_endian_bytes(payload.len() as u32) + payload + rest,
    ensures
        framing(bytes).frames == seq![Frame { flags, payload }] + framing(rest).frames,
        framing(bytes).truncated == framing(rest).truncated,
{
    let n = payload.len() as u32;
    lemma_big_endian_round_trip(n);
    assert(bytes.subrange(1, 5) =~= big_endian_bytes(n));
    assert(bytes.subrange(5, 5 + n as int) =~= payload);
    assert(bytes.skip(5 + n as int) =~= rest);
}

/// An envelope with whatever flags, at the front of any stream, stands for one frame
/// with these flags and its payload.
pub proof fn lemma_flags_are_read(flags: u8, payload: Seq<u8>, rest: Seq<u8>)
    requires
        payload.len() <= u32::MAX,
    ensures
        framing(seq![flags] + envelope(payload).drop_first() + rest).frames == seq![
            Frame { flags, payload },
        ] + framing(rest).frames,
        framing(seq![flags] + envelope(payload).drop_first() + rest).truncated == framing(
            rest,
        ).truncated,
{
    let bytes = seq![flags] + envelope(payload).drop_first() + rest;
    assert(bytes =~= seq![flags] + big_endian_bytes(payload.len() as u32) + payload + rest);
    lemma_front_frame(bytes, flags, payload, rest);
}

/// A stream that ends inside the payload of an envelope is cut short; one that ends
/// inside the five bytes before it is not.
pub proof fn lemma_cut_stream_is_noticed(payload: Seq<u8>, k: int)
    requires
        payload.len() <= u32::MAX,
        0 <= k < 5 + payload.len(),
    ensures
        framing(envelope(payload).take(k)).frames == Seq::<Frame>::empty(),
        framing(envelope(payload).take(k)).truncated <==> k >= 5,
{
    let n = payload.len() as u32;
    let bytes = envelope(payload).take(k);
    if k >= 5 {
        assert(bytes.subrange(1, 5) =~= big_endian_bytes(n));
        lemma_big_endian_round_trip(n);
    }
}

/// The event that a frame carries, unless it marks the end of the stream.
pub open spec fn event_of(frame: Frame) -> Option<JsonModel> {
    if frame.flags & 2 != 0 {
        None
    } else {
        match json::read_slice(frame.payload) {
            Ok(message) => message.member("event"@),
            Err(_) => None,
        }
    }
}

/// The text that a frame adds to a stream of the command: what the base64 in its data
/// says, and nothing where there is none.
pub open spec fn chunk(frame: Frame, name: Seq<char>) -> Seq<char> {
    match event_of(frame) {
        Some(event) => match event.member("data"@) {
            Some(data) => match data.member_text(name) {
                Some(encoded) => match base64_decoded(encoded) {
                    Some(bytes) => text::lossy(bytes),
                    None => seq![],
                },
                None => seq![],
            },
            None => seq![],
        },
        None => seq![],
    }
}

/// Nothing that a command wrote is lost: each of its two streams is made of the chunks
/// of that name of all frames, in order.
pub proof fn lemma_streams_are_all_that_was_written(out: CommandModel, frames: Seq<Frame>)
    ensures
        after_frames(out, frames) matches Ok(end) ==> {
            &&& end.stdout == out.stdout + frames.flat_map(|frame: Frame| chunk(frame, "stdout"@))
            &&& end.stderr == out.stderr + frames.flat_map(|frame: Frame| chunk(frame, "stderr"@))
        },
    decreases frames.len(),
{
    let f = |frame: Frame| chunk(frame, "stdout"@);
    let g = |frame: Frame| chunk(frame, "stderr"@);
    if frames.len() == 0 {
        assert(out.stdout + frames.flat_map(f) =~= out.stdout);
        assert(out.stderr + frames.flat_map(g) =~= out.stderr);
    } else if let Ok(next) = after_frame(out, frames[0]) {
        let rest = frames.drop_first();
        lemma_streams_are_all_that_was_written(next, rest);
        assert(frames.map_values(f).drop_first() =~= rest.map_values(f));
        assert(frames.map_values(g).drop_first() =~= rest.map_values(g));
        assert(next.stdout =~= out.stdout + f(frames[0]));
        assert(next.stderr =~= out.stderr + g(frames[0]));
        assert(out.stdout + f(frames[0]) + rest.flat_map(f) =~= out.stdout + (f(frames[0])
            + rest.flat_map(f)));
        assert(out.stderr + g(frames[0]) + rest.flat_map(g) =~= out.stderr + (g(frames[0])
            + rest.flat_map(g)));
    }
}

/// What an event adds to a stream stands behind what the stream held, and an event
/// without an end keeps the exit code.
pub proof fn lemma_event_only_adds(out: CommandModel, event: JsonModel)
    ensures
        out.stdout.is_prefix_of(after_event(out, event).stdout),
        out.stderr.is_prefix_of(after_event(out, event).stderr),
        event.member("data"@) is None ==> after_event(out, event).stdout == out.stdout
            && after_event(out, event).stderr == out.stderr,
        event.member("end"@) is None ==> after_event(out, event).exit_code == out.exit_code,
        event.member("end"@) is Some ==> after_event(out, event).exit_code == after_event(
            no_output(),
            event,
        ).exit_code,
{
    let next = after_event(out, event);
    assert(next.stdout.take(out.stdout.len() as int) =~= out.stdout);
    assert(next.stderr.take(out.stderr.len() as int) =~= out.stderr);
    if event.member("data"@) is None {
        assert(next.stdout =~= out.stdout);
        assert(next.stderr =~= out.stderr);
    }
}

/// Whether a frame carries the end of the command.
pub open spec fn ends_command(frame: Frame) -> bool {
    event_of(frame) matches Some(event) && event.member("end"@) is Some
}

/// The exit code is that of the last end of the command among the frames, and what it
/// was where there is none.
pub proof fn lemma_last_end_gives_the_exit_code(out: CommandModel, frames: Seq<Frame>)
    ensures
        after_frames(out, frames) matches Ok(end) ==> {
            &&& (forall|k: int| 0 <= k < frames.len() ==> !ends_command(#[trigger] frames[k]))
                ==> end.exit_code == out.exit_code
            &&& forall|k: int|
                0 <= k < frames.len() && ends_command(#[trigger] frames[k]) && (forall|j: int|
                    k < j < frames.len() ==> !ends_command(#[trigger] frames[j]))
                    ==> end.exit_code == end_code(event_of(frames[k])->0.member("end"@)->0)
        },
    decreases frames.len(),
{
    if frames.len() > 0 {
        let front = frames.drop_last();
        let last = seq![frames.last()];
        assert(front + last =~= frames);
        lemma_frames_are_read_in_order(out, front, last);
        lemma_last_end_gives_the_exit_code(out, front);
        if let Ok(before) = after_frames(out, front) {
            assert(last.drop_first() =~= seq![]);
            if let Ok(end) = after_frame(before, frames.last()) {
                assert(after_frames(end, seq![]) == Ok::<CommandModel, Seq<char>>(end));
                assert forall|k: int| 0 <= k < front.len() implies #[trigger] frames[k]
                    == front[k] by {}
                if !ends_command(frames.last()) {
                    assert(end.exit_code == before.exit_code);
                }
            }
        }
    }
}

/// The exit code of an end is its `exitCode`, or else the number in its status, as far
/// as an `i32` can hold it, and 0 where it has neither.
pub proof fn lemma_end_tells_the_exit_code(end: JsonModel)
    ensures
        end.member("exitCode"@) matches Some(JsonModel::Int(code)) ==> (i32::MIN <= code
            <= i32::MAX ==> end_code(end) == code),
        !(end.member("exitCode"@) matches Some(JsonModel::Int(_))) ==> {
            &&& forall|n: nat|
                n <= i32::MAX && end.member_text("status"@) == Some(
                    "exit status "@ + #[trigger] text::decimal(n),
                ) ==> end_code(end) == n
            &&& forall|n: nat|
                n <= i32::MAX && end.member_text("status"@) == Some(
                    "exit status "@ + (seq!['-'] + #[trigger] text::decimal(n)),
                ) ==> end_code(end) == -(n as int)
            &&& end.member_text("status"@) is None ==> end_code(end) == 0
            &&& end.member_text("status"@) matches Some(status) ==> (
            !("exit status "@).is_prefix_of(status) ==> end_code(end) == 0)
        },
{
    let prefix = "exit status "@;
    assert forall|n: nat|
        n <= i32::MAX && !(end.member("exitCode"@) matches Some(JsonModel::Int(_)))
            && end.member_text("status"@) == Some(
            "exit status "@ + #[trigger] text::decimal(n),
        ) implies end_code(end) == n by {
        let status = prefix + text::decimal(n);
        assert(status.take(prefix.len() as int) =~= prefix);
        assert(status.skip(prefix.len() as int) =~= text::decimal(n));
        text::lemma_decimal_round_trip(n);
        text::lemma_nothing_to_trim(text::decimal(n));
    }
    assert forall|n: nat|
        n <= i32::MAX && !(end.member("exitCode"@) matches Some(JsonModel::Int(_)))
            && end.member_text("status"@) == Some(
            "exit status "@ + (seq!['-'] + #[trigger] text::decimal(n)),
        ) implies end_code(end) == -(n as int) by {
        let number = seq!['-'] + text::decimal(n);
        let status = prefix + number;
        assert(status.take(prefix.len() as int) =~= prefix);
        assert(status.skip(prefix.len() as int) =~= number);
        text::lemma_decimal_round_trip(n);
        assert(number.last() == text::decimal(n).last());
        text::lemma_nothing_to_trim(number);
    }
}

/// Whether a frame can be read: it is JSON, and not the report of a failure at the end
/// of the stream.
pub open spec fn is_readable(frame: Frame) -> bool {
    json::read_slice(frame.payload) matches Ok(message) && !(frame.flags & 2 != 0
        && message.member("error"@) is Some)
}

/// A row of frames that can all be read is read.
pub proof fn lemma_readable_frames_are_read(out: CommandModel, frames: Seq<Frame>)
    requires
        forall|k: int| 0 <= k < frames.len() ==> is_readable(#[trigger] frames[k]),
    ensures
        after_frames(out, frames) is Ok,
    decreases frames.len(),
{
    if frames.len() > 0 {
        let rest = frames.drop_first();
        assert forall|k: int| 0 <= k < rest.len() implies is_readable(#[trigger] rest[k]) by {
            assert(rest[k] == frames[k + 1]);
        }
        assert(is_readable(frames[0]));
        lemma_readable_frames_are_read(after_frame(out, frames[0])->Ok_0, rest);
    }
}

/// A row of frames fails with the message for the first that cannot be read: the
/// failure that it reports, with all that it says, or that it is no JSON.
pub proof fn lemma_first_bad_frame_is_the_failure(out: CommandModel, frames: Seq<Frame>, k: int)
    requires
        0 <= k < frames.len(),
        !is_readable(frames[k]),
        forall|j: int| 0 <= j < k ==> is_readable(#[trigger] frames[j]),
    ensures
        after_frames(out, frames) == Err::<CommandModel, Seq<char>>(
            match json::read_slice(frames[k].payload) {
                Ok(message) => "envd command error: "@ + json::shown(message),
                Err(error) => "invalid envd JSON event: "@ + error,
            },
        ),
    decreases frames.len(),
{
    if k > 0 {
        let rest = frames.drop_first();
        assert forall|j: int| 0 <= j < k - 1 implies is_readable(#[trigger] rest[j]) by {
            assert(rest[j] == frames[j + 1]);
        }
        assert(rest[k - 1] == frames[k]);
        assert(is_readable(frames[0]));
        lemma_first_bad_frame_is_the_failure(after_frame(out, frames[0])->Ok_0, rest, k - 1);
    }
}

/// A stream gives what its frames say of a command that starts with nothing written
/// and the exit code 0; it fails where a frame fails or where it is cut short.
pub proof fn lemma_stream_gives_what_its_frames_say(bytes: Seq<u8>)
    ensures
        stream_outcome(bytes) is Ok <==> after_frames(no_output(), framing(bytes).frames) is Ok
            && !framing(bytes).truncated,
        stream_outcome(bytes) matches Ok(end) ==> {
            let frames = framing(bytes).frames;
            &&& end.stdout == frames.flat_map(|frame: Frame| chunk(frame, "stdout"@))
            &&& end.stderr == frames.flat_map(|frame: Frame| chunk(frame, "stderr"@))
            &&& (forall|k: int| 0 <= k < frames.len() ==> !ends_command(#[trigger] frames[k]))
                ==> end.exit_code == 0
        },
{
    let frames = framing(bytes).frames;
    lemma_streams_are_all_that_was_written(no_output(), frames);
    lemma_last_end_gives_the_exit_code(no_output(), frames);
    let f = |frame: Frame| chunk(frame, "stdout"@);
    let g = |frame: Frame| chunk(frame, "stderr"@);
    assert(seq![] + frames.flat_map(f) =~= frames.flat_map(f));
    assert(seq![] + frames.flat_map(g) =~= frames.flat_map(g));
}

/// Of a number that an `i32` cannot hold, the exit code has the low 32 bits.
pub proof fn lemma_exit_code_is_cut_to_its_low_bits(end: JsonModel, code: i64)
    requires
        end.member("exitCode"@) == Some(JsonModel::Int(code)),
    ensures
        (code - end_code(end)) % 0x1_0000_0000 == 0,
{
    assert((code - (code as i32)) % 0x1_0000_0000 == 0) by (bit_vector);
}

/// A stream that is read gives all that its frames say, and one that is not the reason.
pub proof fn lemma_read_stream_is_shown(bytes: &[u8], read: Result<CommandOutput, AppError>)
    requires
        call_ensures(parse_connect_stream, (bytes,), read),
    ensures
        read matches Ok(out) ==> {
            let frames = framing(bytes@).frames;
            &&& after_frames(no_output(), frames) == Ok::<CommandModel, Seq<char>>(out.model())
            &&& out.stdout@ == frames.flat_map(|frame: Frame| chunk(frame, "stdout"@))
            &&& out.stderr@ == frames.flat_map(|frame: Frame| chunk(frame, "stderr"@))
        },
        read is Ok <==> stream_outcome(bytes@) is Ok,
        read matches Err(error) ==> (stream_outcome(bytes@) matches Err(message) && error.model()
            == ErrorModel::Internal(message)),
{
    lemma_stream_gives_what_its_frames_say(bytes@);
}

/// The number in a status is read whatever whitespace is around it, and with its sign;
/// a status of another form has none.
pub proof fn lemma_exit_status_is_read(a: Seq<char>, n: nat, b: Seq<char>, other: Seq<char>)
    requires
        text::is_blank(a),
        text::is_blank(b),
        n <= i64::MAX,
    ensures
        exit_status("exit status "@ + (a + text::decimal(n) + b)) == Some(n as i64),
        exit_status("exit status "@ + (a + (seq!['-'] + text::decimal(n)) + b)) == Some(
            (-(n as int)) as i64,
        ),
        !("exit status "@).is_prefix_of(other) ==> exit_status(other) is None,
{
    let prefix = "exit status "@;
    let plain = text::decimal(n);
    let signed = seq!['-'] + plain;
    text::lemma_decimal_round_trip(n);
    assert((prefix + (a + plain + b)).skip(prefix.len() as int) =~= a + plain + b);
    assert((prefix + (a + plain + b)).take(prefix.len() as int) =~= prefix);
    assert((prefix + (a + signed + b)).skip(prefix.len() as int) =~= a + signed + b);
    assert((prefix + (a + signed + b)).take(prefix.len() as int) =~= prefix);
    assert(signed.last() == plain.last());
    text::lemma_whitespace_goes(a, plain, b);
    text::lemma_whitespace_goes(a, signed, b);
}

} // verus!
