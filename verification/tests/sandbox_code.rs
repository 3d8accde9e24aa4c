use base64::Engine;
use cube_api::envd::{
    apply_message, connect_envelope, decode_b64_lossy, decoded_text, exit_code_of,
    parse_connect_stream, parse_exit_status, CommandOutput,
};
use cube_api::error::AppError;
use cube_api::exec_code::{
    after_reply, call_envd, call_kernel, envd_reply, exec_code, finish_exec, jupyter_reply,
    resolve_domain, Backend, ExecCodeRequest, ExecNext, ExecPlan, HttpReply, Sandbox,
};
use cube_api::json::{to_json, Json};
use cube_api::jupyter::{parse_jupyter_ndjson, JupyterOutput};

fn b64(text: &str) -> String {
    base64::engine::general_purpose::STANDARD.encode(text)
}

fn frame(flags: u8, payload: &str) -> Vec<u8> {
    let mut out = connect_envelope(payload.as_bytes());
    out[0] = flags;
    out
}

fn sandbox(proxy_url: Option<&str>) -> Sandbox {
    Sandbox {
        id: "sbx1".to_string(),
        domain: "cube.app".to_string(),
        proxy_url: proxy_url.map(|s| s.to_string()),
    }
}

fn request(language: &str, code: &str) -> ExecCodeRequest {
    ExecCodeRequest {
        language: language.to_string(),
        code: code.to_string(),
        timeout_secs: None,
    }
}

fn answered(status: u16, text: &str, body: &[u8]) -> HttpReply {
    HttpReply::Answered {
        status,
        status_text: text.to_string(),
        body: Ok(body.to_vec()),
    }
}

fn internal<T>(result: Result<T, AppError>) -> String {
    match result {
        Err(AppError::Internal(message)) => message,
        _ => panic!("an internal error was expected"),
    }
}

fn member<'a>(json: &'a Json, name: &str) -> &'a Json {
    json.get(name).unwrap()
}

#[test]
fn an_envelope_has_a_flag_and_a_length() {
    assert_eq!(connect_envelope(b"abc"), vec![0, 0, 0, 0, 3, b'a', b'b', b'c']);
    let long = vec![7u8; 0x1_02_03];
    let envelope = connect_envelope(&long);
    assert_eq!(&envelope[..5], &[0, 0, 1, 2, 3]);
    assert_eq!(&envelope[5..], &long[..]);
}

#[test]
fn a_stream_gives_back_its_events() {
    let mut stream = frame(0, &format!("{{\"event\":{{\"data\":{{\"stdout\":\"{}\"}}}}}}", b64("one ")));
    stream.extend(frame(
        0,
        &format!(
            "{{\"event\":{{\"data\":{{\"stdout\":\"{}\",\"stderr\":\"{}\"}}}}}}",
            b64("two"),
            b64("oops")
        ),
    ));
    stream.extend(frame(0, "{\"other\":1}"));
    stream.extend(frame(0, "{\"event\":{\"end\":{\"exitCode\":3}}}"));
    stream.extend(frame(2, "{}"));
    stream.extend([0, 0, 0]);
    let out = parse_connect_stream(&stream).ok().unwrap();
    assert_eq!(out.stdout, "one two");
    assert_eq!(out.stderr, "oops");
    assert_eq!(out.exit_code, 3);
}

#[test]
fn a_stream_that_is_cut_short_is_refused() {
    let mut stream = connect_envelope(b"{}");
    stream.pop();
    assert_eq!(internal(parse_connect_stream(&stream)), "truncated envd command stream");
    let out = parse_connect_stream(&[]).ok().unwrap();
    assert_eq!((out.exit_code, out.stdout.as_str(), out.stderr.as_str()), (0, "", ""));
}

#[test]
fn a_frame_that_is_no_json_is_refused() {
    let message = internal(parse_connect_stream(&connect_envelope(b"{")));
    let reason = serde_json::from_slice::<serde_json::Value>(b"{").unwrap_err().to_string();
    assert_eq!(message, format!("invalid envd JSON event: {}", reason));
}

#[test]
fn an_error_at_the_end_of_a_stream_is_shown() {
    let message = internal(parse_connect_stream(&frame(2, "{ \"error\" : {\"code\": \"x\"} }")));
    assert_eq!(message, "envd command error: {\"error\":{\"code\":\"x\"}}");
    // Without the flag the same message says nothing.
    assert!(parse_connect_stream(&frame(0, "{\"error\":1}")).is_ok());
    // The flag counts among others.
    assert!(parse_connect_stream(&frame(3, "{\"error\":null}")).is_err());
}

#[test]
fn a_message_is_taken_by_its_flags() {
    let mut out = CommandOutput {
        exit_code: 0,
        stdout: "a".to_string(),
        stderr: String::new(),
    };
    let event = to_json(
        serde_json::from_str("{\"event\":{\"data\":{\"stdout\":\"Yg==\"}}}").unwrap(),
    );
    assert!(apply_message(&mut out, 0, &event, "").is_ok());
    assert_eq!(out.stdout, "ab");
    assert!(apply_message(&mut out, 2, &event, "").is_ok());
    assert_eq!(out.stdout, "ab");
    let error = Json::Object(vec![("error".to_string(), Json::Null)]);
    assert_eq!(
        internal(apply_message(&mut out, 2, &error, "shown")),
        "envd command error: shown"
    );
    assert_eq!(out.stdout, "ab");
}

#[test]
fn base64_is_decoded_with_replacements() {
    assert_eq!(decode_b64_lossy(&b64("héllo")), "héllo");
    assert_eq!(decode_b64_lossy("/w=="), "\u{fffd}");
    assert_eq!(decode_b64_lossy("not base64!"), "");
    assert_eq!(decode_b64_lossy("YQ"), "");
    assert_eq!(decoded_text(Some(vec![b'o', b'k'])), "ok");
    assert_eq!(decoded_text(None), "");
}

#[test]
fn exit_states_are_read() {
    assert_eq!(parse_exit_status(Some("exit status 7")), Some(7));
    assert_eq!(parse_exit_status(Some("exit status  -1 ")), Some(-1));
    assert_eq!(parse_exit_status(Some("signal: killed")), None);
    assert_eq!(parse_exit_status(Some("exit status x")), None);
    assert_eq!(parse_exit_status(None), None);
}

#[test]
fn the_exit_code_comes_before_the_status() {
    let end = |text: &str| exit_code_of(&to_json(serde_json::from_str(text).unwrap()));
    assert_eq!(end("{\"exitCode\":2,\"status\":\"exit status 9\"}"), 2);
    assert_eq!(end("{\"exitCode\":2.5,\"status\":\"exit status 9\"}"), 9);
    assert_eq!(end("{\"exitCode\":18446744073709551615,\"status\":\"exit status 9\"}"), 9);
    assert_eq!(end("{\"status\":\"killed\"}"), 0);
    assert_eq!(end("{}"), 0);
    assert_eq!(end("{\"exitCode\":4294967297}"), 1);
    assert_eq!(end("{\"exitCode\":-1}"), -1);
}

#[test]
fn values_become_json() {
    let value: serde_json::Value =
        serde_json::from_str("{\"a\":[null,true,-3,1.5,\"x\"],\"b\":{\"c\":\"d\"},\"a2\":1,\"a2\":2}").unwrap();
    let json = to_json(value);
    match member(&json, "a") {
        Json::List(items) => {
            assert_eq!(items.len(), 5);
            assert!(matches!(items[0], Json::Null));
            assert!(matches!(items[1], Json::Bool(true)));
            assert!(matches!(items[2], Json::Int(-3)));
            assert!(matches!(&items[3], Json::Number(n) if n.as_f64() == Some(1.5)));
            assert_eq!(items[4].as_str(), Some("x"));
        }
        _ => panic!("a list was expected"),
    }
    assert_eq!(member(&json, "b").get_str("c"), Some("d"));
    assert!(matches!(member(&json, "a2"), Json::Int(2)));
    assert!(json.get("missing").is_none());
    assert!(json.get_str("a").is_none());
}

#[test]
fn the_kernel_answers_line_by_line() {
    let answer = concat_lines(&[
        "{\"type\":\"stdout\",\"text\":\"hello\"}",
        "",
        "{\"type\":\"stdout\",\"text\":\"there\\n\"}",
        "{\"type\":\"stderr\",\"text\":\"warn\"}",
        "{\"type\":\"result\",\"text\":\"1\"}",
        "{\"type\":\"result\",\"text\":\"2\"}",
        "{\"type\":\"end\"}",
        "7",
    ]);
    let out = parse_jupyter_ndjson(answer.as_bytes()).ok().unwrap();
    assert_eq!(out.stdout, "hello\nthere\n");
    assert_eq!(out.stderr, "warn\n");
    assert_eq!(out.exit_code, 0);
    let results = out.results.unwrap();
    assert_eq!(results.len(), 2);
    assert_eq!(results[0].get_str("text"), Some("1"));
    assert_eq!(results[1].get_str("text"), Some("2"));
}

fn concat_lines(lines: &[&str]) -> String {
    lines.join("\r\n")
}

#[test]
fn an_error_of_the_kernel_is_reported() {
    let answer = "{\"type\":\"error\",\"name\":\"ValueError\",\"value\":\"bad\",\"traceback\":[\"a\",1,\"b\"]}\n{\"type\":\"error\"}";
    let out = parse_jupyter_ndjson(answer.as_bytes()).ok().unwrap();
    assert_eq!(out.exit_code, 1);
    assert_eq!(out.stderr, "ValueError: bad\na\nb\nError: ");
    assert!(out.results.is_none());
}

#[test]
fn an_answer_that_cannot_be_read_is_refused() {
    let message = internal(parse_jupyter_ndjson(&[0xff]));
    let reason = std::str::from_utf8(&[0xff]).unwrap_err().to_string();
    assert_eq!(message, format!("jupyter response is not UTF-8: {}", reason));
    let message = internal(parse_jupyter_ndjson(b"nonsense"));
    let reason = serde_json::from_str::<serde_json::Value>("nonsense").unwrap_err().to_string();
    assert_eq!(message, format!("invalid jupyter ndjson line: {}", reason));
}

#[test]
fn python_is_sent_to_the_kernel() {
    let sandbox = sandbox(Some("http://proxy:8080//"));
    match exec_code(&request("python", "print(1)"), &sandbox) {
        Ok(ExecPlan::Jupyter(call)) => {
            assert_eq!(call.url, "http://proxy:8080/execute");
            assert_eq!(call.host, "49999-sbx1.cube.app");
            assert_eq!(call.content_type, "application/json");
            assert_eq!(call.authorization, "Basic cm9vdDo=");
            assert_eq!(call.body, b"{\"code\":\"print(1)\",\"language\":\"python\"}".to_vec());
        }
        _ => panic!("the kernel was expected"),
    }
}

#[test]
fn bash_is_sent_to_envd() {
    match exec_code(&request("bash", "ls \"x\""), &sandbox(None)) {
        Ok(ExecPlan::Envd(call)) => {
            assert_eq!(call.url, "http://127.0.0.1/process.Process/Start");
            assert_eq!(call.host, "49983-sbx1.cube.app");
            assert_eq!(call.content_type, "application/connect+json");
            let payload = b"{\"process\":{\"args\":[\"-c\",\"ls \\\"x\\\"\"],\"cmd\":\"bash\",\"cwd\":\"/root\",\"envs\":{}},\"stdin\":false}";
            assert_eq!(call.body, connect_envelope(payload));
        }
        _ => panic!("envd was expected"),
    }
}

#[test]
fn payloads_are_addressed_as_they_are() {
    let call = call_envd(b"xy".to_vec(), &sandbox(Some("http://p/")));
    assert_eq!(call.url, "http://p/process.Process/Start");
    assert_eq!(call.body, vec![0, 0, 0, 0, 2, b'x', b'y']);
    let call = call_kernel(b"xy".to_vec(), &sandbox(Some("http://p/")));
    assert_eq!(call.url, "http://p/execute");
    assert_eq!(call.body, b"xy".to_vec());
}

#[test]
fn other_languages_are_refused() {
    for language in ["ruby", "Python", ""] {
        match exec_code(&request(language, "1"), &sandbox(None)) {
            Err(AppError::BadRequest(message)) => {
                assert_eq!(message, format!("unsupported language: {}", language))
            }
            _ => panic!("a refusal was expected"),
        }
    }
}

#[test]
fn a_failed_kernel_is_replaced_by_envd() {
    let request = request("python", "print(1)");
    for (reply, reason) in [
        (
            HttpReply::SendFailed("refused".to_string()),
            "jupyter execute request failed: refused",
        ),
        (
            answered(502, "502 Bad Gateway", b""),
            "jupyter execute request returned HTTP 502 Bad Gateway",
        ),
        (
            HttpReply::Answered {
                status: 200,
                status_text: "200 OK".to_string(),
                body: Err("cut off".to_string()),
            },
            "failed reading jupyter execute response: cut off",
        ),
    ] {
        match after_reply(Backend::Jupyter, &request, &sandbox(None), reply) {
            ExecNext::Fallback { failure, call } => {
                assert_eq!(failure.message(), reason);
                assert_eq!(call.url, "http://127.0.0.1/process.Process/Start");
                let body = String::from_utf8(call.body[5..].to_vec()).unwrap();
                assert!(body.contains("\"cmd\":\"python3\""));
                assert!(body.contains("[\"-c\",\"print(1)\"]"));
            }
            _ => panic!("a fallback was expected"),
        }
    }
}

#[test]
fn a_kernel_that_answers_is_the_end_of_it() {
    let reply = answered(299, "", b"{\"type\":\"stdout\",\"text\":\"1\"}");
    match after_reply(Backend::Jupyter, &request("python", ""), &sandbox(None), reply) {
        ExecNext::Done(out) => assert_eq!(out.stdout, "1\n"),
        _ => panic!("an output was expected"),
    }
}

#[test]
fn a_failed_envd_is_an_error() {
    let request = request("bash", "x");
    match after_reply(Backend::Envd, &request, &sandbox(None), answered(404, "404 Not Found", b"")) {
        ExecNext::Failed(error) => {
            assert_eq!(error.message(), "envd command request returned HTTP 404 Not Found")
        }
        _ => panic!("a failure was expected"),
    }
    assert_eq!(
        internal(envd_reply(HttpReply::SendFailed("x".to_string()))),
        "envd command request failed: x"
    );
    assert_eq!(
        internal(envd_reply(HttpReply::Answered {
            status: 200,
            status_text: String::new(),
            body: Err("y".to_string()),
        })),
        "failed reading envd command stream: y"
    );
}

#[test]
fn envd_gives_no_results() {
    let stream = frame(0, "{\"event\":{\"end\":{\"status\":\"exit status 4\"}}}");
    let out = envd_reply(answered(200, "200 OK", &stream)).ok().unwrap();
    assert_eq!(out.exit_code, 4);
    assert!(out.results.is_none());
    assert!(jupyter_reply(answered(300, "300 Multiple Choices", b"")).is_err());
}

fn output(exit_code: i32) -> JupyterOutput {
    JupyterOutput {
        exit_code,
        stdout: "o".to_string(),
        stderr: "e".to_string(),
        results: None,
    }
}

#[test]
fn a_late_success_is_a_failure() {
    let late = finish_exec(output(0), 30001, None);
    assert_eq!((late.exit_code, late.success, late.elapsed_ms), (-1, false, 30001));
    let timely = finish_exec(output(0), 30000, None);
    assert_eq!((timely.exit_code, timely.success), (0, true));
    let failed = finish_exec(output(5), 30001, None);
    assert_eq!((failed.exit_code, failed.success), (5, false));
    assert_eq!(failed.stdout, "o");
    assert_eq!(failed.stderr, "e");
}

#[test]
fn the_time_allowed_is_between_one_second_and_five_minutes() {
    assert!(finish_exec(output(0), 1000, Some(0)).success);
    assert!(!finish_exec(output(0), 1001, Some(0)).success);
    assert!(finish_exec(output(0), 300_000, Some(u32::MAX)).success);
    assert!(!finish_exec(output(0), 300_001, Some(u32::MAX)).success);
    assert!(finish_exec(output(0), 45_000, Some(45)).success);
}

#[test]
fn a_sandbox_has_its_own_domain_or_the_configured_one() {
    assert_eq!(resolve_domain(Some("own".to_string()), "default"), "own");
    assert_eq!(resolve_domain(None, "default"), "default");
}

#[test]
fn the_first_failure_of_a_stream_is_the_one_reported() {
    let mut stream = frame(0, "{\"event\":{\"end\":{\"exitCode\":1}}}");
    stream.extend(frame(2, "{\"error\":1}"));
    stream.extend(frame(0, "nonsense"));
    assert_eq!(internal(parse_connect_stream(&stream)), "envd command error: {\"error\":1}");
}

#[test]
fn the_last_end_of_a_stream_counts() {
    let mut stream = frame(0, "{\"event\":{\"end\":{\"exitCode\":1}}}");
    stream.extend(frame(0, "{\"event\":{\"end\":{}}}"));
    assert_eq!(parse_connect_stream(&stream).ok().unwrap().exit_code, 0);
}
