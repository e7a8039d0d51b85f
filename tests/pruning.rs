use snapshot_rotator::app_config::VmConfig;
use snapshot_rotator::bash_shell::{CommandResult, ShellRequest};
use snapshot_rotator::errors::{CustomError, CustomErrorKind};
use snapshot_rotator::snapshot_helper::{clear_cache, ClearCache, ClearCacheAction, ClearCachePhase};

const LISTING: &str = " Name   Creation Time   State\n------------------------------\n web.2019-01-03.300   x running\n web.2019-01-01.100   x running\n web.2019-01-02.200   x running\n";

fn policy(min: i32) -> VmConfig {
    VmConfig { vm_name: "web".to_string(), min_snapshot_count: min }
}

fn ok(command: &str, stdout: &str) -> Result<CommandResult, CustomError> {
    Ok(CommandResult::from_exit(command, Some(0), stdout.to_string(), String::new()))
}

fn failed(command: &str) -> Result<CommandResult, CustomError> {
    Ok(CommandResult::from_exit(command, Some(1), String::new(), "boom\n".to_string()))
}

/// Drives a run: `listing` answers the listing commands, `delete_exit` the
/// deletions. Returns the commands run, the lines logged and the outcome.
fn drive(run: &mut ClearCache, first: ClearCacheAction, listing: &str, delete_exit: &dyn Fn(&str) -> i32) -> (Vec<ShellRequest>, Vec<String>, Result<(), CustomError>) {
    let mut commands = Vec::new();
    let mut logs = Vec::new();
    let mut action = first;
    loop {
        action = match action {
            ClearCacheAction::RunCommand(q) => {
                commands.push(q.clone());
                let result = if q.command.starts_with("virsh snapshot-delete") {
                    let code = delete_exit(&q.command);
                    Ok(CommandResult::from_exit(&q.command, Some(code), String::new(), String::new()))
                } else {
                    ok(&q.command, listing)
                };
                run.on_command(result)
            }
            ClearCacheAction::Log(line) => {
                logs.push(line);
                run.on_logged(Ok(()))
            }
            ClearCacheAction::Finish(outcome) => return (commands, logs, outcome),
        };
    }
}

#[test]
fn scenario_prunes_two_oldest_of_three() {
    let (mut run, first) = clear_cache(&policy(1));
    let (commands, logs, outcome) = drive(&mut run, first, LISTING, &|_: &str| 0);
    assert!(outcome.is_ok());
    let texts: Vec<(String, bool)> = commands.iter().map(|q| (q.command.clone(), q.log_output)).collect();
    assert_eq!(
        texts,
        vec![
            ("virsh snapshot-list --domain web --internal".to_string(), false),
            ("virsh snapshot-delete --domain web --snapshotname web.2019-01-01.100".to_string(), true),
            ("virsh snapshot-delete --domain web --snapshotname web.2019-01-02.200".to_string(), true),
            ("virsh snapshot-list --domain web --internal".to_string(), false),
        ]
    );
    assert_eq!(
        logs,
        vec![
            "Deleting snapshot `web.2019-01-01.100` ...".to_string(),
            "Deleting snapshot `web.2019-01-02.200` ...".to_string(),
        ]
    );
    assert_eq!(run.phase, ClearCachePhase::Finished);
}

#[test]
fn scenario_within_policy_prunes_nothing() {
    let listing = " Name\n----\n web.a.100 x\n web.b.200 x\n";
    let (mut run, first) = clear_cache(&policy(5));
    let (commands, logs, outcome) = drive(&mut run, first, listing, &|_: &str| 0);
    assert!(outcome.is_ok());
    assert_eq!(commands.len(), 2);
    assert!(commands.iter().all(|q| q.command == "virsh snapshot-list --domain web --internal" && !q.log_output));
    assert!(logs.is_empty());
    assert!(run.to_delete.is_empty());
}

#[test]
fn scenario_failed_delete_aborts_the_rest() {
    let (mut run, first) = clear_cache(&policy(0));
    let (commands, logs, outcome) = drive(&mut run, first, LISTING, &|c: &str| if c.ends_with("web.2019-01-02.200") { 3 } else { 0 });
    assert_eq!(commands.len(), 4);
    assert_eq!(commands[1].command, "virsh snapshot-delete --domain web --snapshotname web.2019-01-01.100");
    assert_eq!(commands[2].command, "virsh snapshot-delete --domain web --snapshotname web.2019-01-02.200");
    assert_eq!(commands[3].command, "virsh snapshot-list --domain web --internal");
    assert!(!commands[3].log_output);
    assert_eq!(logs.len(), 2);
    let e = outcome.unwrap_err();
    assert_eq!(
        e.kind,
        CustomErrorKind::ErrorMessage(
            "A command exited with a non 0 exit code or with a signal. 'virsh snapshot-delete --domain web --snapshotname web.2019-01-02.200'".to_string()
        )
    );
}

#[test]
fn prune_twice_deletes_nothing_the_second_time() {
    let (mut run, first) = clear_cache(&policy(1));
    let (_, _, outcome) = drive(&mut run, first, LISTING, &|_: &str| 0);
    assert!(outcome.is_ok());
    let after = " Name\n----\n web.2019-01-03.300   x running\n";
    let (mut second, first) = clear_cache(&policy(1));
    let (commands, logs, outcome) = drive(&mut second, first, after, &|_: &str| 0);
    assert!(outcome.is_ok());
    assert_eq!(commands.len(), 2);
    assert!(logs.is_empty());
}

#[test]
fn failed_listing_ends_the_run() {
    let (mut run, _) = clear_cache(&policy(1));
    match run.on_command(failed("virsh snapshot-list --domain web --internal")) {
        ClearCacheAction::Finish(Err(e)) => assert_eq!(
            e.kind.to_string(),
            "A command exited with a non 0 exit code or with a signal. 'virsh snapshot-list --domain web --internal'"
        ),
        _ => panic!("the run goes on"),
    }
    assert_eq!(run.phase, ClearCachePhase::Finished);
}

#[test]
fn failed_spawn_and_failed_log_end_the_run() {
    let (mut run, _) = clear_cache(&policy(1));
    match run.on_command(Err(CustomError::from_message("spawn"))) {
        ClearCacheAction::Finish(Err(e)) => assert_eq!(e.kind, CustomErrorKind::ErrorMessage("spawn".to_string())),
        _ => panic!("the run goes on"),
    }
    let (mut run, _) = clear_cache(&policy(0));
    assert!(matches!(run.on_command(ok("l", LISTING)), ClearCacheAction::Log(_)));
    assert!(run.is_awaiting_log());
    match run.on_logged(Err(CustomError::from_kind(CustomErrorKind::PoisonedError("lock".to_string())))) {
        ClearCacheAction::RunCommand(q) => {
            assert_eq!(q.command, "virsh snapshot-list --domain web --internal");
            assert!(!q.log_output);
        }
        _ => panic!("no final listing"),
    }
    assert_eq!(run.phase, ClearCachePhase::Probing);
    match run.on_command(ok("l", LISTING)) {
        ClearCacheAction::Finish(Err(e)) => assert_eq!(e.kind, CustomErrorKind::PoisonedError("lock".to_string())),
        _ => panic!("the run does not end with the kept failure"),
    }
}

#[test]
fn aborted_run_keeps_its_failure_over_the_final_listing() {
    let (mut run, _) = clear_cache(&policy(0));
    assert!(matches!(run.on_command(ok("l", LISTING)), ClearCacheAction::Log(_)));
    assert!(matches!(run.on_logged(Ok(())), ClearCacheAction::RunCommand(_)));
    match run.on_command(Err(CustomError::from_message("spawn"))) {
        ClearCacheAction::RunCommand(q) => assert_eq!(q.command, "virsh snapshot-list --domain web --internal"),
        _ => panic!("no final listing"),
    }
    match run.on_command(failed("virsh snapshot-list --domain web --internal")) {
        ClearCacheAction::Finish(Err(e)) => assert_eq!(e.kind, CustomErrorKind::ErrorMessage("spawn".to_string())),
        _ => panic!("the run does not end with the kept failure"),
    }
    assert_eq!(run.phase, ClearCachePhase::Finished);
}

#[test]
fn failed_final_listing_fails_the_run() {
    let (mut run, _) = clear_cache(&policy(9));
    assert!(matches!(run.on_command(ok("l", LISTING)), ClearCacheAction::RunCommand(_)));
    assert_eq!(run.phase, ClearCachePhase::Probing);
    assert!(run.is_awaiting_command());
    assert!(matches!(run.on_command(failed("l")), ClearCacheAction::Finish(Err(_))));
}
