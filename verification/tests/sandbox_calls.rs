use cube_api::sandboxes::{
    connect_sandbox, create_sandbox, get_sandbox, get_sandbox_logs, get_sandbox_logs_v2,
    kill_sandbox, list_sandboxes, list_sandboxes_v2, pause_sandbox, refresh_sandbox,
    resume_sandbox, set_sandbox_timeout, SandboxCall,
};

fn id() -> String {
    "sbx1".to_string()
}

#[test]
fn the_first_list_shows_up_to_two_hundred_of_any_state() {
    match list_sandboxes(Some("k=v".to_string())) {
        SandboxCall::List { metadata, state, limit } => {
            assert_eq!(metadata.as_deref(), Some("k=v"));
            assert_eq!(state, None);
            assert_eq!(limit, 200);
        }
        _ => panic!("a list was expected"),
    }
}

#[test]
fn the_second_list_shows_what_is_asked_for() {
    match list_sandboxes_v2(None, Some("running".to_string()), 7) {
        SandboxCall::List { metadata, state, limit } => {
            assert_eq!(metadata, None);
            assert_eq!(state.as_deref(), Some("running"));
            assert_eq!(limit, 7);
        }
        _ => panic!("a list was expected"),
    }
}

#[test]
fn calls_carry_their_sandbox() {
    assert!(matches!(get_sandbox(id()), SandboxCall::Get { id } if id == "sbx1"));
    assert!(matches!(kill_sandbox(id()), SandboxCall::Kill { id } if id == "sbx1"));
    assert!(matches!(pause_sandbox(id()), SandboxCall::Pause { id } if id == "sbx1"));
    assert!(matches!(
        resume_sandbox(id(), 9),
        SandboxCall::Resume { id, timeout: 9 } if id == "sbx1"
    ));
    assert!(matches!(
        connect_sandbox(id(), 9),
        SandboxCall::Connect { id, timeout: 9 } if id == "sbx1"
    ));
    assert!(matches!(
        get_sandbox_logs(id(), Some(3), 4),
        SandboxCall::Logs { id, start: Some(3), limit: 4 } if id == "sbx1"
    ));
    assert!(matches!(
        get_sandbox_logs_v2(id(), None, 4),
        SandboxCall::LogsV2 { id, cursor: None, limit: 4 } if id == "sbx1"
    ));
    assert!(matches!(
        set_sandbox_timeout(id(), 60),
        SandboxCall::SetTimeout { id, timeout: 60 } if id == "sbx1"
    ));
}

#[test]
fn a_refresh_without_a_duration_has_none() {
    assert!(matches!(refresh_sandbox(id(), None), SandboxCall::Refresh { duration: 0, .. }));
    assert!(matches!(refresh_sandbox(id(), Some(5)), SandboxCall::Refresh { duration: 5, .. }));
}

#[test]
fn calls_have_their_status() {
    assert_eq!(create_sandbox().success_status(), 201);
    assert_eq!(resume_sandbox(id(), 9).success_status(), 201);
    assert_eq!(kill_sandbox(id()).success_status(), 204);
    assert_eq!(pause_sandbox(id()).success_status(), 204);
    assert_eq!(set_sandbox_timeout(id(), 1).success_status(), 204);
    assert_eq!(refresh_sandbox(id(), None).success_status(), 204);
    assert_eq!(get_sandbox(id()).success_status(), 200);
    assert_eq!(connect_sandbox(id(), 1).success_status(), 200);
    assert_eq!(list_sandboxes(None).success_status(), 200);
    assert_eq!(get_sandbox_logs(id(), None, 1).success_status(), 200);
    assert_eq!(get_sandbox_logs_v2(id(), None, 1).success_status(), 200);
}
