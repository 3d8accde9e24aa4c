use std::hash::{Hash, Hasher};

use cube_api::endpoint::{run_example, run_example_as, Config};
use cube_api::environment::Host;
use cube_api::error::AppError;
use cube_api::examples::RunExampleRequest;
use cube_api::json::Json;
use cube_api::plan::{interpreter_for, plan_run, RunPlan, Step, Temp};
use cube_api::examples::RunExampleResponse;
use cube_api::replies::{answer_run, failure_message, service_result};
use cube_api::requirements::{
    after_install, check_stamp, ensure_requirements, fingerprint, hash_mark, install_args,
    requirements_file, stamp_file, Install, Mark, Requirements,
};
use cube_api::run::{Action, Event, Run, RunOutcome};
use cube_api::service::ExampleService;
use cube_api::sources::{get_example_source, source_reply, source_result};
use cube_api::templates::Reply;

fn host() -> Host {
    Host {
        template_id: None,
        ssl_cert_file: None,
        has_api_key: false,
        has_e2b_key: false,
        examples_dir: Some("/ex".to_string()),
        manifest_dir: "/repo/CubeAPI".to_string(),
    }
}

fn config() -> Config {
    Config {
        cube_api_url: None,
        default_template_id: Some("tpl".to_string()),
        cube_proxy_node_ip: None,
        cube_proxy_port_http: None,
        sandbox_domain: "cube.app".to_string(),
    }
}

fn service() -> ExampleService {
    ExampleService::new(
        Some("http://api".to_string()),
        Some("tpl".to_string()),
        Some("10.0.0.1".to_string()),
        Some(8443),
        "cube.app".to_string(),
        "http://proxy".to_string(),
        "auth".to_string(),
        Some("key".to_string()),
    )
}

fn request(id: &str, code: Option<&str>) -> RunExampleRequest {
    RunExampleRequest {
        id: id.to_string(),
        template_id: Some("mine".to_string()),
        language: None,
        code: code.map(|s| s.to_string()),
        api_url: None,
        proxy_node_ip: None,
    }
}

fn yes() -> Event {
    Event::Answer(Reply::Valid(true))
}

fn exited(code: Option<i32>, success: bool) -> Event {
    Event::Exited {
        code,
        success,
        stdout: b"out".to_vec(),
        stderr: b"err\xff".to_vec(),
        elapsed_ms: 12,
    }
}

fn started(id: &str, code: Option<&str>) -> Run {
    run_example_as(request(id, code), &config(), &host(), "RID".to_string()).ok().unwrap()
}

fn environment(run: &Run) -> Vec<(String, String)> {
    match run.action() {
        Action::Spawn { env, .. } => env.iter().cloned().collect(),
        _ => panic!("the process was expected"),
    }
}

fn pairs(list: &[(&str, &str)]) -> Vec<(String, String)> {
    list.iter().map(|(a, b)| (a.to_string(), b.to_string())).collect()
}

fn answer(run: &Run) -> RunExampleResponse {
    answer_run(&run.setup, outcome(run)).response
}

fn status(run: &Run) -> u16 {
    answer_run(&run.setup, outcome(run)).status
}

fn outcome(run: &Run) -> &RunOutcome {
    match run.action() {
        Action::Finish(outcome) => outcome,
        _ => panic!("the end was expected"),
    }
}

// ---------------------------------------------------------------------- plans

#[test]
fn interpreters_follow_the_extension() {
    for (extension, program) in [
        ("py", "python3"),
        ("go", "go"),
        ("sh", "bash"),
        ("bash", "bash"),
        ("js", "node"),
        ("mjs", "node"),
    ] {
        assert_eq!(interpreter_for(extension), Some(program));
    }
    for extension in ["", "md", "PY", "python"] {
        assert_eq!(interpreter_for(extension), None);
    }
}

#[test]
fn an_unedited_file_runs_where_it_is() {
    let plan = plan_run("/ex/s", "a.PY", None, None).ok().unwrap();
    assert_eq!(plan.program, "python3");
    assert_eq!(plan.args, vec!["/ex/s/a.PY"]);
    assert_eq!(plan.work_dir, "/ex/s");
    assert_eq!(plan.timeout_secs, 120);
    assert!(plan.temp.is_none());
    assert_eq!(plan.steps.len(), 1);
    assert!(matches!(&plan.steps[0], Step::Install(dir) if dir == "/ex/s"));
}

#[test]
fn edited_code_goes_next_to_the_file() {
    let edited = Some(("print(1)".to_string(), "RID".to_string()));
    let plan = plan_run("/ex/s", "a.js", edited, Some(5)).ok().unwrap();
    assert_eq!(plan.program, "node");
    assert_eq!(plan.args, vec!["/ex/s/.tmp_run_RID.js"]);
    assert_eq!(plan.timeout_secs, 5);
    assert_eq!(plan.steps.len(), 1);
    assert!(matches!(
        &plan.steps[0],
        Step::WriteFile { path, code } if path == "/ex/s/.tmp_run_RID.js" && code == "print(1)"
    ));
    assert!(matches!(&plan.temp, Some(Temp::File(path)) if path == "/ex/s/.tmp_run_RID.js"));
}

fn go_plan(edited: bool) -> RunPlan {
    let edited = if edited {
        Some(("package main".to_string(), "RID".to_string()))
    } else {
        None
    };
    plan_run("/ex/b", "main.go", edited, None).ok().unwrap()
}

#[test]
fn edited_go_code_gets_a_directory() {
    let plan = go_plan(true);
    assert_eq!(plan.program, "go");
    assert_eq!(plan.args, vec!["run", "."]);
    assert_eq!(plan.work_dir, "/ex/b/.tmp_run_RID");
    assert_eq!(plan.steps.len(), 4);
    assert!(matches!(&plan.steps[0], Step::CreateDir(dir) if dir == "/ex/b/.tmp_run_RID"));
    assert!(matches!(
        &plan.steps[1],
        Step::WriteFile { path, .. } if path == "/ex/b/.tmp_run_RID/main.go"
    ));
    assert!(matches!(
        &plan.steps[2],
        Step::CopyIfPresent { from, to } if from == "/ex/b/go.mod" && to == "/ex/b/.tmp_run_RID/go.mod"
    ));
    assert!(matches!(
        &plan.steps[3],
        Step::CopyIfPresent { from, to } if from == "/ex/b/go.sum" && to == "/ex/b/.tmp_run_RID/go.sum"
    ));
    assert!(matches!(&plan.temp, Some(Temp::Dir(dir)) if dir == "/ex/b/.tmp_run_RID"));
    assert_eq!(go_plan(false).work_dir, "/ex/b");
}

#[test]
fn other_files_are_not_run() {
    assert_eq!(plan_run("/ex", "README.MD", None, None).err().unwrap(), "md");
    assert_eq!(plan_run("/ex", "Makefile", None, None).err().unwrap(), "");
    assert_eq!(plan_run("/ex", "a.PÄ", None, None).err().unwrap(), "pä");
}

// --------------------------------------------------------------- requirements

#[test]
fn requirements_are_installed_until_they_are_stamped() {
    let found = || Requirements::Text("requests\n".to_string());
    for by in [Mark::Hash, Mark::Content] {
        let mark = match ensure_requirements(found(), None, by) {
            Install::Needed(mark) => mark,
            Install::Settled(_) => panic!("an installation was expected"),
        };
        assert_eq!(after_install(mark.clone(), false), None);
        let stamp = after_install(mark, true);
        assert!(matches!(
            ensure_requirements(found(), stamp.clone(), by),
            Install::Settled(true)
        ));
        assert!(matches!(
            ensure_requirements(Requirements::Text("flask\n".to_string()), stamp, by),
            Install::Needed(_)
        ));
    }
}

#[test]
fn absent_requirements_are_seen_to_and_unreadable_ones_are_not() {
    assert!(matches!(
        ensure_requirements(Requirements::Absent, None, Mark::Hash),
        Install::Settled(true)
    ));
    assert!(matches!(
        ensure_requirements(Requirements::Unreadable, None, Mark::Hash),
        Install::Settled(false)
    ));
}

#[test]
fn marks_are_hashes_or_the_text_itself() {
    let mut hasher = std::collections::hash_map::DefaultHasher::new();
    "requests\n".to_string().hash(&mut hasher);
    let expected = format!("{:016x}", hasher.finish());
    assert_eq!(fingerprint("requests\n", Mark::Hash), expected);
    assert_eq!(fingerprint("requests\n", Mark::Content), "requests\n");
    assert_eq!(hash_mark(0xab), "00000000000000ab");
    assert!(matches!(
        check_stamp("a".to_string(), Some("a ".to_string())),
        Install::Needed(mark) if mark == "a"
    ));
}

#[test]
fn requirements_have_their_files() {
    assert_eq!(requirements_file("/ex/s"), "/ex/s/requirements.txt");
    assert_eq!(stamp_file("/ex/s"), "/ex/s/.requirements_installed");
    assert_eq!(
        install_args("/ex/s"),
        vec!["install", "--quiet", "-r", "/ex/s/requirements.txt"]
    );
}

// ----------------------------------------------------------------------- runs

#[test]
fn a_run_asks_for_one_thing_after_another() {
    let run = started("code-sandbox-quickstart:create", Some("print(2)"));
    assert!(matches!(run.action(), Action::Validate(id) if id == "mine"));
    let run = run.after(yes());
    assert!(matches!(
        run.action(),
        Action::EnsureRequirements("/ex/code-sandbox-quickstart")
    ));
    let run = run.after(Event::Failed("no pip".to_string()));
    match run.action() {
        Action::WriteFile { path, code } => {
            assert_eq!(path, "/ex/code-sandbox-quickstart/.tmp_run_RID.py");
            assert_eq!(code, "print(2)");
        }
        _ => panic!("a write was expected"),
    }
    let run = run.after(Event::Done);
    match run.action() {
        Action::Spawn { plan, .. } => {
            assert_eq!(plan.program, "python3");
            assert_eq!(plan.args, vec!["/ex/code-sandbox-quickstart/.tmp_run_RID.py"]);
        }
        _ => panic!("the process was expected"),
    }
    let run = run.after(exited(Some(0), true));
    assert!(matches!(
        run.action(),
        Action::RemoveFile("/ex/code-sandbox-quickstart/.tmp_run_RID.py")
    ));
    let run = run.after(Event::Failed("gone".to_string()));
    assert_eq!(status(&run), 200);
    let answer = answer(&run);
    assert_eq!(answer.stdout, "out");
    assert_eq!(answer.stderr, "err\u{fffd}");
    assert_eq!((answer.exit_code, answer.success, answer.elapsed_ms), (0, true, 12));
    assert!(answer.ran_edited);
    assert_log(&answer, "ok", "Process succeeded");
    assert!(answer.topology.nodes.iter().any(|n| n.description.starts_with("[ok] ")));
}

fn assert_log(answer: &RunExampleResponse, end: &str, said: &str) {
    let log: Vec<(&str, &str, &str, u64, &str)> = answer
        .steps
        .iter()
        .map(|s| {
            (
                s.name.as_str(),
                s.plane.as_str(),
                s.status.as_str(),
                s.duration_ms,
                s.message.as_str(),
            )
        })
        .collect();
    assert_eq!(
        log,
        vec![
            ("parse", "control", "ok", 0, "Request parsed"),
            ("control-plane", "control", "ok", 0, "Template resolved"),
            ("data-plane", "data", end, answer.elapsed_ms, said),
            ("cleanup", "control", "ok", 0, "Run closed"),
        ]
    );
}

#[test]
fn a_process_that_a_signal_ended_has_no_code() {
    let run = started("cube-bench:main", None).after(yes()).after(exited(None, false));
    let answer = answer(&run);
    assert_log(&answer, "err", "Process failed");
    assert_eq!((answer.exit_code, answer.success), (-1, false));
    assert!(!answer.ran_edited);
    assert!(answer.topology.nodes.iter().any(|n| n.description.starts_with("[err] ")));
}

#[test]
fn a_directory_that_cannot_be_made_ends_the_run() {
    let run = started("cube-bench:main", Some("x")).after(yes());
    assert!(matches!(run.action(), Action::CreateDir("/ex/cube-bench/.tmp_run_RID")));
    let run = run.after(Event::Failed("full".to_string()));
    let expected = "Failed to create temp dir /ex/cube-bench/.tmp_run_RID: full";
    assert_eq!(failure_message("id", outcome(&run)).unwrap(), expected);
    assert_eq!(status(&run), 500);
    let answer = answer(&run);
    assert_eq!((answer.exit_code, answer.elapsed_ms, answer.ran_edited), (1, 0, true));
    assert!(answer.steps.is_empty());
    assert_eq!(answer.stderr, expected);
    assert_eq!(answer.stdout, "");
}

#[test]
fn code_that_cannot_be_written_leaves_no_directory() {
    let run = started("cube-bench:main", Some("x")).after(yes()).after(Event::Done);
    let run = run.after(Event::Failed("full".to_string()));
    assert!(matches!(run.action(), Action::RemoveDir("/ex/cube-bench/.tmp_run_RID")));
    let run = run.after(Event::Done);
    assert_eq!(
        failure_message("id", outcome(&run)).unwrap(),
        "Failed to write edited code to /ex/cube-bench/.tmp_run_RID/main.go: full"
    );
}

#[test]
fn a_file_that_cannot_be_written_ends_the_run() {
    let run = started("host-mount:create_with_mount", Some("x")).after(yes()).after(Event::Done);
    let run = run.after(Event::Failed("full".to_string()));
    assert_eq!(status(&run), 500);
    assert_eq!(
        answer(&run).stderr,
        "Failed to write edited code to /ex/host-mount/.tmp_run_RID.py: full"
    );
}

#[test]
fn go_files_are_copied_whatever_comes_of_it() {
    let run = started("cube-bench:main", Some("x")).after(yes()).after(Event::Done);
    let run = run.after(Event::Done);
    assert!(matches!(
        run.action(),
        Action::CopyIfPresent { from: "/ex/cube-bench/go.mod", to: "/ex/cube-bench/.tmp_run_RID/go.mod" }
    ));
    let run = run.after(Event::Failed("x".to_string()));
    assert!(matches!(
        run.action(),
        Action::CopyIfPresent { from: "/ex/cube-bench/go.sum", .. }
    ));
    let run = run.after(Event::Done);
    let run = run.after(Event::NotSpawned { error: "no go".to_string(), elapsed_ms: 3 });
    assert!(matches!(run.action(), Action::RemoveDir("/ex/cube-bench/.tmp_run_RID")));
    let run = run.after(Event::Done);
    let answer = answer(&run);
    assert_eq!(answer.stderr, "Failed to spawn process: no go");
    assert_log(&answer, "err", "Process not started");
    assert_eq!((answer.exit_code, answer.elapsed_ms), (-1, 3));
    assert_eq!(status(&run), 500);
}

#[test]
fn a_process_that_takes_too_long_is_reported() {
    let run = started("browser-sandbox:browser", None).after(yes()).after(Event::Done);
    let run = run.after(Event::TimedOut { elapsed_ms: 600_001 });
    assert_eq!(status(&run), 504);
    let answer = answer(&run);
    assert_eq!(answer.stderr, "Example timed out after 600 seconds");
    assert_log(&answer, "err", "Process timed out");
    assert_eq!((answer.exit_code, answer.elapsed_ms), (-1, 600_001));
}

#[test]
fn an_event_that_does_not_fit_changes_nothing() {
    let run = started("cube-bench:main", None);
    let run = run.after(Event::Done);
    assert!(matches!(run.action(), Action::Validate(_)));
    let run = run.after(yes()).after(yes());
    assert!(matches!(run.action(), Action::Spawn { .. }));
    let run = run.after(exited(Some(3), false)).after(exited(Some(4), false));
    assert!(matches!(outcome(&run), RunOutcome::Exited { exit_code: 3, .. }));
}

#[test]
fn without_a_template_nothing_is_run() {
    let no = || Event::Answer(Reply::Valid(false));
    let run = started("cube-bench:main", None).after(no());
    assert!(matches!(run.action(), Action::ListTemplates));
    let run = run.after(Event::Answer(Reply::Templates(None))).after(no());
    let unready = vec![cube_api::templates::TemplateInfo {
        template_id: "broken".to_string(),
        status: "failed".to_string(),
        image_info: None,
    }];
    let run = run.after(Event::Answer(Reply::Templates(Some(unready))));
    assert_eq!(status(&run), 400);
    assert_eq!(answer(&run).exit_code, 1);
    assert!(answer(&run).steps.is_empty());
    let expected = "No template ID configured. Set CUBE_TEMPLATE_ID, configure a default template, or create a template first.";
    assert_eq!(answer(&run).stderr, expected);
    match service_result(&run.setup, outcome(&run)) {
        Err(AppError::BadRequest(message)) => assert_eq!(message, expected),
        _ => panic!("a refusal was expected"),
    }
}

#[test]
fn an_extension_that_nothing_runs_is_refused() {
    let outcome = RunOutcome::Unsupported("md".to_string());
    let run = started("cube-bench:main", None);
    let reply = answer_run(&run.setup, &outcome);
    assert_eq!(reply.status, 400);
    assert!(reply.response.steps.is_empty());
    assert_eq!(
        failure_message("a:b", &outcome).unwrap(),
        "Unsupported file extension '.md' for example 'a:b'"
    );
}

#[test]
fn an_unknown_example_is_not_found() {
    let reply = run_example(request("no:such", Some("x")), &config(), &host()).err().unwrap();
    assert_eq!(reply.status, 404);
    let answer = reply.response;
    assert!(answer.steps.is_empty());
    assert_eq!(answer.stderr, "Example 'no:such' not found");
    assert_eq!((answer.exit_code, answer.success, answer.ran_edited), (1, false, false));
    assert!(!answer.topology.nodes.is_empty());
    match service().run(request("no:such", None), &host(), true) {
        Err(AppError::NotFound(message)) => assert_eq!(message, "Example 'no:such' not found"),
        _ => panic!("an error was expected"),
    }
}

#[test]
fn edited_runs_have_random_identifiers() {
    let id_of = |run: Run| run.setup.edited.unwrap().1;
    let id = id_of(run_example(request("cube-bench:main", Some("x")), &config(), &host()).ok().unwrap());
    assert_eq!(id.len(), 36);
    for (i, c) in id.chars().enumerate() {
        match i {
            8 | 13 | 18 | 23 => assert_eq!(c, '-'),
            14 => assert_eq!(c, '4'),
            19 => assert!("89ab".contains(c)),
            _ => assert!("0123456789abcdef".contains(c)),
        }
    }
    let other = id_of(service().run(request("cube-bench:main", Some("x")), &host(), true).ok().unwrap());
    assert_ne!(id, other);
    let run = run_example(request("cube-bench:main", None), &config(), &host()).ok().unwrap();
    assert!(run.setup.edited.is_none());
}

// --------------------------------------------------------------- environments

#[test]
fn the_endpoint_sets_the_environment() {
    let run = started("cube-bench:main", None).after(yes());
    assert_eq!(
        environment(&run),
        pairs(&[
            ("CUBE_API_URL", "http://127.0.0.1:3000"),
            ("CUBE_TEMPLATE_ID", "mine"),
            ("SSL_CERT_FILE", "/root/.local/share/mkcert/rootCA.pem"),
            ("CUBE_API_KEY", "cube_0000000000000000000000000000000000000000"),
            ("CUBE_SANDBOX_DOMAIN", "cube.app"),
        ])
    );
}

#[test]
fn the_sidecar_gets_more() {
    let mut config = config();
    config.cube_api_url = Some("http://api".to_string());
    config.cube_proxy_node_ip = Some("10.1.1.1".to_string());
    config.cube_proxy_port_http = Some(8443);
    let mut host = host();
    host.has_api_key = true;
    host.ssl_cert_file = Some("/ca.pem".to_string());
    let run = run_example_as(
        request("e2b-dev-sidecar:demo", None),
        &config,
        &host,
        String::new(),
    );
    let run = run.ok().unwrap().after(yes()).after(Event::Done);
    assert_eq!(
        environment(&run),
        pairs(&[
            ("CUBE_API_URL", "http://api"),
            ("CUBE_TEMPLATE_ID", "mine"),
            ("SSL_CERT_FILE", "/ca.pem"),
            ("CUBE_PROXY_NODE_IP", "10.1.1.1"),
            ("CUBE_PROXY_PORT_HTTP", "8443"),
            ("CUBE_SANDBOX_DOMAIN", "cube.app"),
            ("E2B_API_URL", "http://api"),
            ("E2B_API_KEY", "e2b_0000000000000000000000000000000000000000"),
            ("CUBE_REMOTE_PROXY_BASE", "https://10.1.1.1:8443"),
            ("CUBE_REMOTE_PROXY_VERIFY_SSL", "false"),
            ("CUBE_REMOTE_SANDBOX_DOMAIN", "cube.app"),
        ])
    );
}

#[test]
fn the_usual_port_is_left_out() {
    let mut config = config();
    config.cube_proxy_port_http = Some(443);
    let mut host = host();
    host.has_e2b_key = true;
    let run = run_example_as(
        request("e2b-dev-sidecar:demo", None),
        &config,
        &host,
        String::new(),
    );
    let env = environment(&run.ok().unwrap().after(yes()).after(Event::Done));
    assert!(env.contains(&("CUBE_REMOTE_PROXY_BASE".to_string(), "https://127.0.0.1".to_string())));
    assert!(env.contains(&("CUBE_PROXY_PORT_HTTP".to_string(), "443".to_string())));
    assert!(!env.iter().any(|(name, _)| name == "E2B_API_KEY"));
}

#[test]
fn the_service_sets_the_environment() {
    let mut asked = request("cube-bench:main", None);
    asked.api_url = Some("http://mine".to_string());
    asked.proxy_node_ip = Some("10.9.9.9".to_string());
    let run = service().run_as(asked, &host(), true, String::new()).ok().unwrap();
    assert_eq!(
        environment(&run.after(yes())),
        pairs(&[
            ("CUBE_API_URL", "http://mine"),
            ("CUBE_TEMPLATE_ID", "mine"),
            ("SSL_CERT_FILE", "/root/.local/share/mkcert/rootCA.pem"),
            ("AGENTHUB_SANDBOX_PROXY_URL", "http://proxy"),
            ("CUBE_API_ENVD_AUTH", "auth"),
            ("CUBE_API_KEY", "key"),
            ("CUBE_PROXY_NODE_IP", "10.9.9.9"),
            ("CUBE_PROXY_PORT_HTTP", "8443"),
            ("CUBE_SANDBOX_DOMAIN", "cube.app"),
        ])
    );
    let mut blank = request("cube-bench:main", None);
    blank.api_url = Some("  ".to_string());
    let mut host = host();
    host.has_api_key = true;
    let run = service().run_as(blank, &host, true, String::new()).ok().unwrap();
    let env = environment(&run.after(yes()));
    assert_eq!(env[0], ("CUBE_API_URL".to_string(), "http://api".to_string()));
    assert!(!env.iter().any(|(name, _)| name == "CUBE_API_KEY"));
    assert!(env.contains(&("CUBE_PROXY_NODE_IP".to_string(), "10.0.0.1".to_string())));
}

#[test]
fn the_language_of_a_request_is_not_heard() {
    let mut asked = request("cube-bench:main", None);
    asked.language = Some("python".to_string());
    let run = run_example_as(asked, &config(), &host(), String::new()).ok().unwrap();
    match run.after(yes()).action() {
        Action::Spawn { plan, .. } => assert_eq!(plan.program, "go"),
        _ => panic!("the process was expected"),
    }
}

// -------------------------------------------------------------------- service

#[test]
fn the_service_reports_failures_as_errors() {
    let run = service().run_as(request("cube-bench:main", None), &host(), false, String::new());
    let run = run.ok().unwrap().after(yes());
    let run = run.after(Event::TimedOut { elapsed_ms: 1 });
    match service_result(&run.setup, outcome(&run)) {
        Err(AppError::Internal(message)) => {
            assert_eq!(message, "Example timed out after 120 seconds")
        }
        _ => panic!("an error was expected"),
    }
    let run = service().run_as(request("cube-bench:main", None), &host(), false, String::new());
    let run = run.ok().unwrap().after(yes()).after(exited(Some(2), false));
    let answer = service_result(&run.setup, outcome(&run)).ok().unwrap();
    assert_eq!((answer.exit_code, answer.success), (2, false));
    assert!(answer.steps.is_empty());
}

#[test]
fn the_service_lists_and_resolves() {
    let service = service();
    assert_eq!(service.list_visible().len(), 26);
    let (meta, scenario, file) = service.resolve_visible("cube-bench:main").unwrap();
    assert_eq!(meta.language, "go");
    assert_eq!(scenario.id, "cube-bench");
    assert_eq!(file.filename, "main.go");
    assert!(service.resolve_visible("cube-bench:other").is_none());
    let search = service.resolve_template_id(None, &scenario, &host(), true);
    assert!(matches!(search.ask(), cube_api::templates::Ask::Validate(id) if id == "tpl"));
}

// -------------------------------------------------------------------- sources

fn text_of(json: &Json, name: &str) -> String {
    json.get_str(name).unwrap().to_string()
}

#[test]
fn a_source_is_read_and_shown() {
    let source = get_example_source("cube-bench", "main", &host()).ok().unwrap();
    assert_eq!(source.path, "/ex/cube-bench/main.go");
    let reply = source_reply(source, Ok("package main".to_string()));
    assert_eq!(reply.status, 200);
    assert_eq!(text_of(&reply.body, "id"), "cube-bench:main");
    assert_eq!(text_of(&reply.body, "filename"), "main.go");
    assert_eq!(text_of(&reply.body, "scenario"), "cube-bench");
    assert_eq!(text_of(&reply.body, "language"), "go");
    assert_eq!(text_of(&reply.body, "source"), "package main");
}

#[test]
fn a_source_that_cannot_be_read_is_reported() {
    let source = get_example_source("cube-bench", "main", &host()).ok().unwrap();
    let reply = source_reply(source, Err("denied".to_string()));
    assert_eq!(reply.status, 500);
    assert_eq!(
        text_of(&reply.body, "error"),
        "Failed to read '/ex/cube-bench/main.go': denied"
    );
    let source = service().get_source("cube-bench", "main", &host()).ok().unwrap();
    match source_result(source, Err("denied".to_string())) {
        Err(AppError::Internal(message)) => {
            assert_eq!(message, "Failed to read '/ex/cube-bench/main.go': denied")
        }
        _ => panic!("an error was expected"),
    }
    let source = service().get_source("cube-bench", "main", &host()).ok().unwrap();
    let body = source_result(source, Ok("x".to_string())).ok().unwrap();
    assert_eq!(text_of(&body, "source"), "x");
}

#[test]
fn a_source_that_is_not_offered_is_not_found() {
    let reply = get_example_source("openclaw-integration", "main", &host()).err().unwrap();
    assert_eq!(reply.status, 404);
    assert_eq!(text_of(&reply.body, "error"), "Example 'openclaw-integration:main' not found");
    match service().get_source("a", "b", &host()) {
        Err(AppError::NotFound(message)) => assert_eq!(message, "Example 'a:b' not found"),
        _ => panic!("an error was expected"),
    }
}

// ----------------------------------------------------------------------- laws

fn temporary(path: &str) -> bool {
    path.contains(".tmp_run_RID") && !path.contains(".tmp_run_RID/")
}

#[test]
fn whatever_happens_nothing_is_left() {
    for id in ["cube-bench:main", "host-mount:create_with_mount"] {
        for pattern in 0u32..256 {
            let mut disk: Vec<String> = Vec::new();
            let mut run = started(id, Some("code")).after(yes());
            let mut step = 0;
            loop {
                let works = pattern >> step & 1 == 0;
                step += 1;
                let event = match run.action() {
                    Action::Finish(_) => break,
                    Action::CreateDir(path) | Action::WriteFile { path, .. } if works => {
                        if temporary(path) {
                            disk.push(path.to_string());
                        }
                        Event::Done
                    }
                    Action::RemoveDir(path) | Action::RemoveFile(path) => {
                        assert!(disk.contains(&path.to_string()));
                        disk.retain(|there| there != path);
                        Event::Done
                    }
                    Action::Spawn { .. } if works => exited(Some(0), true),
                    Action::Spawn { .. } => Event::TimedOut { elapsed_ms: 1 },
                    _ if works => Event::Done,
                    _ => Event::Failed("no".to_string()),
                };
                run = run.after(event);
                assert!(step < 20);
            }
            assert!(disk.is_empty());
        }
    }
}

#[test]
fn every_offered_example_can_be_run() {
    for meta in service().list_visible() {
        let plan = plan_run("/ex", &meta.filename, None, None).ok().unwrap();
        let expected = if meta.language == "go" { "go" } else { "python3" };
        assert_eq!(plan.program, expected);
        let edited = Some(("x".to_string(), "RID".to_string()));
        let plan = plan_run("/ex", &meta.filename, edited, None).ok().unwrap();
        let script = format!("/ex/{}", meta.filename);
        for step in &plan.steps {
            match step {
                Step::Install(_) => {}
                Step::CreateDir(path) => assert_ne!(path, &script),
                Step::WriteFile { path, .. } => assert_ne!(path, &script),
                Step::CopyIfPresent { to, .. } => assert_ne!(to, &script),
            }
        }
    }
}

#[test]
fn a_run_takes_the_template_that_is_found() {
    let run = started("cube-bench:main", None).after(Event::Answer(Reply::Valid(false)));
    let image = cube_api::store::fallback_catalog()[0].image_cn.clone();
    let listed = vec![cube_api::templates::TemplateInfo {
        template_id: "found".to_string(),
        status: "ready".to_string(),
        image_info: Some(image),
    }];
    let run = run.after(Event::Answer(Reply::Templates(Some(listed))));
    assert_eq!(environment(&run)[1], ("CUBE_TEMPLATE_ID".to_string(), "found".to_string()));
}
