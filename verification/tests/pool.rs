use billow::pool::{next_vm_name, CleanupWait, Pool, Reserve, Take, WaitReady};
use billow::pool_protocol::{
    dispatch_command, frame_response, parse_pool_args, parse_response, pool_usage,
    printed_reply, socket_path, stop_message, PoolCli, PoolCommand,
};
use billow::text::sorted_unique;

fn launched_pool() -> (Pool, String) {
    let mut pool = Pool::new();
    let name = match pool.reserve_launch_slot(100, 7) {
        Reserve::Launch(name) => name,
        _ => panic!("expected a launch slot"),
    };
    pool.finish_launch(&name, true);
    (pool, name)
}

#[test]
fn vm_names_carry_timestamp_pid_and_launch_number() {
    assert_eq!(next_vm_name(1700000000, 42, 3), "billow-pool-1700000000-42-3");
}

#[test]
fn pool_launches_one_vm_at_a_time() {
    let mut pool = Pool::new();
    assert_eq!(
        pool.status(),
        "ready=0 taken=0 deleting=0 launching=0 shutdown=false"
    );
    let first = match pool.reserve_launch_slot(100, 7) {
        Reserve::Launch(name) => name,
        _ => panic!("expected a launch slot"),
    };
    assert_eq!(first, "billow-pool-100-7-1");
    assert!(matches!(pool.reserve_launch_slot(100, 7), Reserve::Wait));
    assert_eq!(
        pool.status(),
        "ready=0 taken=0 deleting=0 launching=1 shutdown=false"
    );
    pool.finish_launch(&first, true);
    assert_eq!(
        pool.status(),
        "ready=1 taken=0 deleting=0 launching=0 shutdown=false"
    );
    assert!(matches!(pool.reserve_launch_slot(100, 7), Reserve::Wait));
}

#[test]
fn failed_launch_frees_the_slot() {
    let mut pool = Pool::new();
    let first = match pool.reserve_launch_slot(5, 1) {
        Reserve::Launch(name) => name,
        _ => panic!("expected a launch slot"),
    };
    pool.finish_launch(&first, false);
    assert_eq!(
        pool.status(),
        "ready=0 taken=0 deleting=0 launching=0 shutdown=false"
    );
    match pool.reserve_launch_slot(6, 1) {
        Reserve::Launch(name) => assert_eq!(name, "billow-pool-6-1-2"),
        _ => panic!("expected a second launch slot"),
    }
}

#[test]
fn stale_launch_report_is_ignored() {
    let mut pool = Pool::new();
    let _ = pool.reserve_launch_slot(5, 1);
    pool.finish_launch("billow-pool-other", true);
    assert_eq!(
        pool.status(),
        "ready=0 taken=0 deleting=0 launching=1 shutdown=false"
    );
}

#[test]
fn take_drop_and_delete_move_a_vm_through_the_pool() {
    let (mut pool, name) = launched_pool();
    match pool.take() {
        Take::Taken(taken) => assert_eq!(taken, name),
        _ => panic!("expected a ready VM"),
    }
    assert!(matches!(pool.take(), Take::Wait));
    assert_eq!(
        pool.status(),
        "ready=0 taken=1 deleting=0 launching=0 shutdown=false"
    );
    assert_eq!(
        pool.drop_vm("billow-pool-unknown"),
        Err("billow-pool-unknown is not taken by vm-pool".to_string())
    );
    assert!(pool.drop_vm(&name).is_ok());
    assert_eq!(
        pool.status(),
        "ready=0 taken=0 deleting=1 launching=0 shutdown=false"
    );
    assert_eq!(pool.wait_for_cleanup(false), CleanupWait::Wait);
    assert_eq!(pool.wait_for_cleanup(true), CleanupWait::TimedOut);
    pool.finish_delete(&name);
    assert_eq!(pool.wait_for_cleanup(false), CleanupWait::Settled);
    assert_eq!(
        pool.drop_vm(&name),
        Err(format!("{name} is not taken by vm-pool"))
    );
}

#[test]
fn shutdown_refuses_requests() {
    let (mut pool, _) = launched_pool();
    pool.request_shutdown();
    assert!(pool.is_shutdown());
    assert!(matches!(pool.take(), Take::ShuttingDown));
    assert!(matches!(pool.reserve_launch_slot(1, 1), Reserve::ShuttingDown));
    match pool.wait_ready(false) {
        WaitReady::Done(Err(e)) => assert_eq!(e, "vm-pool is shutting down"),
        _ => panic!("expected refusal"),
    }
}

#[test]
fn wait_ready_reports_ready_timeout_or_waits() {
    let mut pool = Pool::new();
    assert!(matches!(pool.wait_ready(false), WaitReady::Wait));
    match pool.wait_ready(true) {
        WaitReady::Done(Err(e)) => assert_eq!(e, "timed out waiting for a ready VM"),
        _ => panic!("expected a timeout"),
    }
    let name = match pool.reserve_launch_slot(1, 1) {
        Reserve::Launch(name) => name,
        _ => panic!("expected a launch slot"),
    };
    pool.finish_launch(&name, true);
    assert!(matches!(pool.wait_ready(true), WaitReady::Done(Ok(()))));
}

#[test]
fn stop_gives_up_every_known_vm() {
    let (mut pool, name) = launched_pool();
    let _ = pool.take();
    let next = match pool.reserve_launch_slot(200, 7) {
        Reserve::Launch(next) => next,
        _ => panic!("expected a launch slot"),
    };
    let vms = pool.begin_stop();
    assert_eq!(vms, vec![name.clone()]);
    assert!(pool.is_shutdown());
    assert_eq!(pool.wait_for_cleanup(false), CleanupWait::Wait);
    let stragglers = pool.drain_known_vms();
    assert_eq!(stragglers, vec![next]);
    assert_eq!(pool.wait_for_cleanup(false), CleanupWait::Settled);
    assert_eq!(stop_message((vms.len() + stragglers.len()) as u64), "stopped 2");
}

#[test]
fn sorted_unique_sorts_and_dedups() {
    let v = vec![
        "b".to_string(),
        "a".to_string(),
        "ab".to_string(),
        "b".to_string(),
        "".to_string(),
    ];
    assert_eq!(
        sorted_unique(v),
        vec!["".to_string(), "a".to_string(), "ab".to_string(), "b".to_string()]
    );
}

#[test]
fn dispatches_request_lines() {
    assert!(matches!(dispatch_command("take"), Ok(PoolCommand::Take)));
    assert!(matches!(dispatch_command("  stop  "), Ok(PoolCommand::Stop)));
    assert!(matches!(dispatch_command("status"), Ok(PoolCommand::Status)));
    assert!(matches!(dispatch_command("ping"), Ok(PoolCommand::Ping)));
    match dispatch_command("drop billow-pool-1-2-3 extra") {
        Ok(PoolCommand::Drop(vm)) => assert_eq!(vm, "billow-pool-1-2-3"),
        _ => panic!("expected drop"),
    }
    assert!(matches!(dispatch_command("wait-ready 30"), Ok(PoolCommand::WaitReady(30))));
    assert!(matches!(dispatch_command("wait-ready soon"), Ok(PoolCommand::WaitReady(600))));
    assert!(matches!(dispatch_command("wait-ready"), Ok(PoolCommand::WaitReady(600))));
    assert_eq!(
        dispatch_command("drop").err(),
        Some("usage: drop <vm>".to_string())
    );
    assert_eq!(dispatch_command("   ").err(), Some("empty command".to_string()));
    assert_eq!(
        dispatch_command("launch x").err(),
        Some("unknown command 'launch'".to_string())
    );
}

#[test]
fn replies_are_framed_and_read_back() {
    assert_eq!(frame_response(&Ok(String::new())), "OK\n");
    assert_eq!(frame_response(&Ok("vm-1".to_string())), "OK vm-1\n");
    assert_eq!(frame_response(&Err("boom".to_string())), "ERR boom\n");
    assert_eq!(parse_response("OK\n"), Ok(String::new()));
    assert_eq!(parse_response("OK vm-1\n\n"), Ok("vm-1".to_string()));
    assert_eq!(parse_response("ERR boom\n"), Err("boom".to_string()));
    assert_eq!(
        parse_response("HELLO\n"),
        Err("invalid response from vm-pool daemon: \"HELLO\"".to_string())
    );
    for outcome in [Ok("ready=1 taken=0".to_string()), Ok(String::new()), Err("no".to_string())] {
        assert_eq!(parse_response(&frame_response(&outcome)), outcome);
    }
}

#[test]
fn command_line_maps_to_requests() {
    let args = |v: &[&str]| v.iter().map(|s| s.to_string()).collect::<Vec<String>>();
    assert!(matches!(parse_pool_args(&args(&[])), Ok(PoolCli::Help)));
    assert!(matches!(parse_pool_args(&args(&["--help"])), Ok(PoolCli::Help)));
    assert!(matches!(parse_pool_args(&args(&["serve"])), Ok(PoolCli::Serve)));
    match parse_pool_args(&args(&["start", "/tmp/log"])) {
        Ok(PoolCli::Start { log_path, pid_path }) => {
            assert_eq!(log_path, Some("/tmp/log".to_string()));
            assert_eq!(pid_path, None);
        }
        _ => panic!("expected start"),
    }
    match parse_pool_args(&args(&["drop", "vm-9"])) {
        Ok(PoolCli::Send(line)) => assert_eq!(line, "drop vm-9"),
        _ => panic!("expected drop"),
    }
    match parse_pool_args(&args(&["wait-ready", "x"])) {
        Ok(PoolCli::Send(line)) => assert_eq!(line, "wait-ready 600"),
        _ => panic!("expected wait-ready"),
    }
    match parse_pool_args(&args(&["take"])) {
        Ok(PoolCli::Send(line)) => assert_eq!(line, "take"),
        _ => panic!("expected take"),
    }
    assert_eq!(
        parse_pool_args(&args(&["drop"])).err(),
        Some("usage: vm-pool drop <vm>".to_string())
    );
    assert_eq!(
        parse_pool_args(&args(&["fly"])).err(),
        Some("unknown command 'fly'".to_string())
    );
}

#[test]
fn socket_path_defaults_to_temp_dir() {
    assert_eq!(socket_path(Some("/run/pool.sock"), "/tmp"), "/run/pool.sock");
    assert_eq!(socket_path(Some(""), "/tmp"), "/tmp/billow-vm-pool.sock");
    assert_eq!(socket_path(None, "/tmp/"), "/tmp/billow-vm-pool.sock");
}

#[test]
fn no_command_prints_usage() {
    let args: Vec<String> = Vec::new();
    assert!(matches!(parse_pool_args(&args), Ok(PoolCli::Help)));
    assert_eq!(
        format!("{}\n", pool_usage()),
        "usage: vm-pool <start <log> [pid-file]|serve|take|drop <vm>|stop|status|wait-ready [seconds]|ping>\nset BILLOW_VM_POOL_SOCKET to override the Unix socket path\n"
    );
}

#[test]
fn client_prints_the_replies_that_carry_information() {
    assert_eq!(printed_reply("take", "billow-pool-1"), Some("billow-pool-1".to_string()));
    assert_eq!(printed_reply("status", "ready=1"), Some("ready=1".to_string()));
    assert_eq!(printed_reply("stop", "gave up"), Some("gave up".to_string()));
    assert_eq!(printed_reply("stop", ""), None);
    assert_eq!(printed_reply("drop billow-pool-1", ""), None);
    assert_eq!(printed_reply("wait-ready 600", ""), None);
    assert_eq!(printed_reply("ping", "pong"), None);
}

#[test]
fn shutdown_is_final() {
    let (mut pool, name) = launched_pool();
    pool.request_shutdown();
    pool.request_shutdown();
    assert!(pool.is_shutdown());
    pool.finish_launch(&name, true);
    assert!(pool.is_shutdown());
    assert!(matches!(pool.take(), Take::ShuttingDown));
    assert!(matches!(pool.reserve_launch_slot(1, 1), Reserve::ShuttingDown));
    assert!(matches!(pool.wait_ready(false), WaitReady::Done(Err(_))));
    assert!(pool.has_ids_left());
}
