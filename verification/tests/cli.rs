use billow::cli::{
    next_workload_id, parse_command, parse_workload_command, parse_workload_kind, print_workload,
    reject_extra_args, Command, WorkloadCommand, WorkloadResponse,
};
use billow::workload::{ActualState, DesiredState, WorkloadKind};

fn strings(v: &[&str]) -> Vec<String> {
    v.iter().map(|s| s.to_string()).collect()
}

fn response(actual_state: ActualState) -> WorkloadResponse {
    WorkloadResponse {
        workload_id: String::from("workload-1"),
        kind: Some(WorkloadKind::Service),
        image: String::from("nginx"),
        desired_state: Some(DesiredState::Running),
        actual_state: Some(actual_state),
        runtime_task_id: String::from("task-1"),
        container_ip: String::from("10.1.1.2"),
        exit_code: Some(0),
        error: String::new(),
        created_at_unix_secs: 10,
        updated_at_unix_secs: 20,
    }
}

#[test]
fn prints_stable_workload_fields() {
    let output = print_workload(&response(ActualState::Running));

    assert!(output.contains("workload_id=workload-1\n"));
    assert!(output.contains("kind=service\n"));
    assert!(output.contains("desired_state=running\n"));
    assert!(output.contains("actual_state=running\n"));
    assert!(output.contains("container_ip=10.1.1.2\n"));
}

#[test]
fn prints_every_field_in_order() {
    let mut w = response(ActualState::Failed);
    w.exit_code = None;
    w.kind = None;
    w.error = "boom".to_string();
    w.created_at_unix_secs = -5;
    assert_eq!(
        print_workload(&w),
        "workload_id=workload-1\nkind=unspecified\nimage=nginx\ndesired_state=running\nactual_state=failed\nruntime_task_id=task-1\ncontainer_ip=10.1.1.2\nexit_code=\nerror=boom\ncreated_at_unix_secs=-5\nupdated_at_unix_secs=20\n"
    );
    let w = response(ActualState::Stopped);
    assert!(print_workload(&w).contains("\nexit_code=0\n"));
}

#[test]
fn parses_workload_submit() {
    let command = parse_workload_command(&strings(&["submit", "once", "hello-world"])).unwrap();

    match command {
        WorkloadCommand::Submit { kind, image } => {
            assert_eq!(kind, WorkloadKind::Once);
            assert_eq!(image, "hello-world");
        }
        _ => panic!("expected submit command"),
    }
}

#[test]
fn parses_id_commands() {
    match parse_workload_command(&strings(&["logs", "w-1"])) {
        Ok(WorkloadCommand::Logs { workload_id }) => assert_eq!(workload_id, "w-1"),
        _ => panic!("expected logs"),
    }
    match parse_command(&strings(&["workload", "delete", "w-2"])) {
        Ok(Command::Workload(WorkloadCommand::Delete { workload_id })) => {
            assert_eq!(workload_id, "w-2")
        }
        _ => panic!("expected delete"),
    }
    match parse_command(&strings(&["echo", "hi there"])) {
        Ok(Command::Echo { message }) => assert_eq!(message, "hi there"),
        _ => panic!("expected echo"),
    }
}

#[test]
fn reports_usage_errors() {
    let err = |r: Result<Command, String>| r.err().unwrap();
    assert_eq!(err(parse_command(&strings(&[]))), "expected a subcommand: echo or workload");
    assert_eq!(err(parse_command(&strings(&["fly"]))), "unknown subcommand 'fly'");
    assert_eq!(
        err(parse_command(&strings(&["echo"]))),
        "expected a message, e.g. billow-cli echo \"my text\""
    );
    assert_eq!(
        err(parse_command(&strings(&["echo", "a", "b"]))),
        "unexpected argument 'b'"
    );
    assert_eq!(
        err(parse_command(&strings(&["workload"]))),
        "expected a workload subcommand: submit, get, logs, start, stop, or delete"
    );
    assert_eq!(
        err(parse_command(&strings(&["workload", "pause", "x"]))),
        "unknown workload subcommand 'pause'"
    );
    assert_eq!(
        err(parse_command(&strings(&["workload", "get"]))),
        "expected a workload id, e.g. billow-cli workload get <id>"
    );
    assert_eq!(
        err(parse_command(&strings(&["workload", "stop", "a", "b"]))),
        "unexpected argument 'b'"
    );
    assert_eq!(
        err(parse_command(&strings(&["workload", "submit", "batch", "img"]))),
        "unknown workload kind 'batch', expected once or service"
    );
    assert_eq!(
        err(parse_command(&strings(&["workload", "submit"]))),
        "expected a workload kind: once or service"
    );
    assert_eq!(
        err(parse_command(&strings(&["workload", "submit", "service"]))),
        "expected an image, e.g. billow-cli workload submit once hello-world"
    );
}

#[test]
fn small_parsers() {
    assert_eq!(parse_workload_kind(Some("service")), Ok(WorkloadKind::Service));
    assert!(parse_workload_kind(None).is_err());
    assert_eq!(
        next_workload_id(&strings(&["start", "w"]), "start"),
        Ok("w".to_string())
    );
    assert!(reject_extra_args(&strings(&["a", "b"]), 2).is_ok());
    assert_eq!(
        reject_extra_args(&strings(&["a", "b"]), 1),
        Err("unexpected argument 'b'".to_string())
    );
}
