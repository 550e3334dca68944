//! The service managers.

use obsidian_mcp::upgrade::commands::{
    activation_deadline, command_text, sort_targets, ACTIVATION_TIMEOUT,
};
use obsidian_mcp::upgrade::health::HealthObservation;
use obsidian_mcp::upgrade::launchd::{
    is_agent_file, lsof_command, parse_launchctl_list, plist_command, plist_value, process_matches,
    running_agents, AgentRestart, AgentScan,
};
use obsidian_mcp::upgrade::systemd::{
    allowed_environment, list_command, main_pid, parse_unit_names, running_units, show_command,
    AllowedEnvironment, UnitRestart, UnitScan,
};
use obsidian_mcp::upgrade::{launchd, systemd};
use obsidian_mcp::upgrade::{CommandOutput, ServiceOwner, ServiceTarget, UpgradeError};

fn done(stdout: &str) -> Result<CommandOutput, UpgradeError> {
    Ok(CommandOutput {
        success: true,
        code: Some(0),
        stdout: stdout.as_bytes().to_vec(),
        stderr: Vec::new(),
    })
}

fn failed(stderr: &str) -> Result<CommandOutput, UpgradeError> {
    Ok(CommandOutput {
        success: false,
        code: Some(1),
        stdout: Vec::new(),
        stderr: stderr.as_bytes().to_vec(),
    })
}

fn target(owner: ServiceOwner, id: &str) -> ServiceTarget {
    ServiceTarget {
        owner,
        id: id.into(),
        definition_path: Some("/tmp/io.obsidian.mcp.plist".into()),
        executable: "/tmp/obsidian-mcp".into(),
        host: "127.0.0.1".into(),
        port: 4567,
        previous_pid: Some(321),
        observed_version: Some("2.4.0".into()),
    }
}

#[test]
fn launchctl_parser_keeps_only_running_jobs() {
    let raw = "PID\tStatus\tLabel\n123\t0\tio.example.running\n-\t0\tio.example.stopped\n";
    assert_eq!(parse_launchctl_list(raw), vec![("io.example.running".to_string(), 123)]);
}

#[test]
fn running_agents_report_a_failed_listing() {
    assert_eq!(
        running_agents(&done("PID\tStatus\tLabel\n7\t0\ta\n").unwrap()),
        Ok(vec![("a".into(), 7)])
    );
    let error = running_agents(&failed(" broken \n").unwrap()).unwrap_err();
    assert!(error.message().contains("launchctl list"));
    assert!(error.message().contains("broken"));
}

/// The value that a definition holds under a key.
fn definition(key: &str) -> Option<String> {
    match key {
        ":Label" => Some("io.obsidian.mcp".into()),
        ":ProgramArguments:0" => Some("/tmp/obsidian-mcp".into()),
        ":ProgramArguments:1" => Some("--http".into()),
        ":ProgramArguments:2" => Some("--port".into()),
        ":ProgramArguments:3" => Some("4567".into()),
        _ => None,
    }
}

#[test]
fn discovery_reads_only_allowlisted_environment_keys() {
    let jobs = parse_launchctl_list("PID\tStatus\tLabel\n321\t0\tio.obsidian.mcp\n");
    let mut queries: Vec<String> = Vec::new();
    let mut scan = AgentScan::start();
    for _ in 0..100 {
        if let Some(key) = scan.key() {
            let command = plist_command("/agents/io.obsidian.mcp.plist", &key);
            queries.push(command_text(&command));
            let value = definition(&key);
            scan = scan.value_read(value, &jobs);
            continue;
        }
        scan = match scan {
            AgentScan::Resolve(_, _) => scan.resolved(Some("/tmp/obsidian-mcp".into()), "/tmp/obsidian-mcp"),
            AgentScan::Inspect(_, _) => scan.inspected(Ok(true)),
            AgentScan::Probe { .. } => {
                scan.probed(Some("2.4.0".into()), "/agents/io.obsidian.mcp.plist", "/tmp/obsidian-mcp")
            }
            other => {
                scan = other;
                break;
            }
        };
    }
    match scan {
        AgentScan::Found(found) => {
            assert_eq!(found.port, 4567);
            assert_eq!(found.previous_pid, Some(321));
            assert_eq!(found.definition_path.as_deref(), Some("/agents/io.obsidian.mcp.plist"));
        }
        other => panic!("unexpected {other:?}"),
    }
    assert!(queries.iter().any(|query| query.contains(":EnvironmentVariables:OBSIDIAN_HTTP_PORT")));
    assert!(!queries.iter().any(|query| query.contains("Print :EnvironmentVariables ")));
}

#[test]
fn agents_that_do_not_run_are_skipped() {
    let scan = AgentScan::start().value_read(Some("io.obsidian.mcp".into()), &Vec::new());
    assert!(matches!(scan, AgentScan::Skipped));
    assert!(matches!(AgentScan::start().value_read(None, &Vec::new()), AgentScan::Skipped));
    assert!(is_agent_file("/agents/a.plist"));
    assert!(!is_agent_file("/agents/a.txt"));
    assert_eq!(plist_value(&done(" value \n")), Some("value".into()));
    assert_eq!(plist_value(&failed("no entry")), None);
}

fn observed(version: &str) -> Result<HealthObservation, UpgradeError> {
    Ok(HealthObservation { version: version.into() })
}

#[test]
fn restart_with_another_version_fails() {
    let unit = target(ServiceOwner::SystemdUser, "obsidian.service");
    let agent = target(ServiceOwner::Launchd, "io.obsidian.mcp");
    let late = activation_deadline(0);
    let complaint = format!(
        "timed out waiting for http://127.0.0.1:{}/health: \
         health reported version '0.0.1', expected '2.5.0'",
        unit.port
    );
    let waiting = || UnitRestart::AwaitVersion {
        host: "127.0.0.1".into(),
        port: unit.port,
        expected: "2.5.0".into(),
        deadline: late,
        again: false,
    };
    assert!(matches!(
        waiting().health_probed(observed("0.0.1"), late - 1),
        UnitRestart::AwaitVersion { again: true, .. }
    ));
    let restart = waiting().health_probed(observed("0.0.1"), late);
    let result = systemd::restart_result(&unit, restart, Some("0.0.1".into())).unwrap();
    assert!(!result.success);
    assert_eq!(result.observed_version.as_deref(), Some("0.0.1"));
    assert!(result.diagnostic.contains(&complaint), "{}", result.diagnostic);
    let restart = AgentRestart::AwaitVersion {
        expected: "2.5.0".into(),
        deadline: late,
        again: true,
    };
    let restart = restart.health_probed(&agent, observed("0.0.1"), late);
    let result = launchd::restart_result(&agent, restart, None).unwrap();
    assert!(!result.success);
    assert!(result.diagnostic.contains("version '0.0.1', expected '2.5.0'"));
}

#[test]
fn restart_uses_bootout_then_bootstrap_and_verifies_version() {
    let target = target(ServiceOwner::Launchd, "io.obsidian.mcp");
    let mut commands: Vec<String> = Vec::new();
    let mut restart = AgentRestart::start(&target);
    let mut listings = 0;
    while let Some(command) = restart.command(&target) {
        let text = command_text(&command);
        let output = if text == "id -u" {
            done("501\n")
        } else if text.starts_with("lsof ") {
            done("p654\nftxt\nn/tmp/obsidian-mcp\n")
        } else if text == "launchctl list" {
            listings += 1;
            let pid = if listings == 1 { 321 } else { 654 };
            done(&format!("PID\tStatus\tLabel\n{pid}\t0\tio.obsidian.mcp\n"))
        } else {
            done("")
        };
        commands.push(text);
        restart = restart.command_ended(&target, "2.5.0", output, &vec![None], 0);
    }
    assert!(!restart.pauses());
    let restart = restart.health_probed(&target, observed("2.4.0"), 0);
    assert!(matches!(restart, AgentRestart::AwaitVersion { .. }) && restart.pauses());
    let restart = restart.health_probed(&target, observed("2.5.0"), 200);
    let result = launchd::restart_result(&target, restart, None).expect("the restart ended");
    assert!(result.success, "{}", result.diagnostic);
    assert_eq!(result.observed_version.as_deref(), Some("2.5.0"));
    let bootout = commands
        .iter()
        .position(|command| command.contains("bootout gui/501/io.obsidian.mcp"))
        .expect("bootout should run");
    let bootstrap = commands
        .iter()
        .position(|command| command.contains("bootstrap gui/501 /tmp/io.obsidian.mcp.plist"))
        .expect("bootstrap should run");
    assert!(bootout < bootstrap);
    assert_eq!(
        commands.iter().filter(|command| command.starts_with("lsof ")).count(),
        2,
        "live executable identity must be checked before and after restart"
    );
    assert!(!commands.iter().any(|command| command.contains("kickstart")));
}

#[test]
fn agent_with_another_program_is_not_stopped() {
    let target = target(ServiceOwner::Launchd, "io.obsidian.mcp");
    let restart = AgentRestart::start(&target)
        .command_ended(&target, "2.5.0", done("501\n"), &Vec::new(), 0)
        .command_ended(
            &target,
            "2.5.0",
            done("PID\tStatus\tLabel\n321\t0\tio.obsidian.mcp\n"),
            &Vec::new(),
            0,
        )
        .command_ended(&target, "2.5.0", done("p321\nftxt\nn/tmp/other\n"), &vec![None], 0);
    assert!(matches!(restart, AgentRestart::Failed(_)));
    assert!(restart.command(&target).is_none());
    let result = launchd::restart_result(&target, restart, Some("2.4.0".into())).unwrap();
    assert!(!result.success);
}

#[test]
fn process_of_an_agent_is_looked_up_with_lsof() {
    assert!(command_text(&lsof_command(12)).starts_with("lsof "));
    assert!(command_text(&lsof_command(12)).contains("12"));
    let listed = process_matches(done("p1\nftxt\nn/tmp/obsidian-mcp (deleted)\n"), &vec![None], "/tmp/obsidian-mcp");
    assert_eq!(listed, Ok(true));
    assert!(process_matches(Err(UpgradeError::Io("x".into())), &Vec::new(), "/a").is_err());
    assert_eq!(
        launchd::unavailable(&target(ServiceOwner::Launchd, "a")).diagnostic,
        "launchd activation is only available on macOS"
    );
}

#[test]
fn unit_parser_ignores_footer_and_non_services() {
    let raw = "obsidian.service loaded active running Obsidian MCP\n\
               user.slice loaded active active User Slice\n\
               1 loaded units listed.\n";
    assert_eq!(parse_unit_names(raw), vec!["obsidian.service"]);
}

#[test]
fn units_are_listed_by_the_user_manager() {
    assert!(command_text(&list_command()).starts_with("systemctl --user list-units"));
    assert!(command_text(&show_command("a.service")).contains("--property=MainPID"));
    assert_eq!(running_units(done("a.service loaded\n")), Ok(vec!["a.service".into()]));
    assert_eq!(running_units(failed("no bus")), Ok(Vec::new()));
    assert_eq!(main_pid(&done(" 321\n").unwrap()), Some(321));
    assert_eq!(main_pid(&done("0\n").unwrap()), None);
    assert_eq!(main_pid(&failed("").unwrap()), None);
}

#[test]
fn only_three_variables_are_taken_from_an_environment() {
    let environment = allowed_environment(
        b"OBSIDIAN_TRANSPORT=http\0SECRET=x\0OBSIDIAN_HTTP_HOST=0.0.0.0\0OBSIDIAN_HTTP_PORT=4567\0",
    );
    assert_eq!(environment.transport.as_deref(), Some("http"));
    assert_eq!(environment.host.as_deref(), Some("0.0.0.0"));
    assert_eq!(environment.port.as_deref(), Some("4567"));
}

fn no_environment() -> AllowedEnvironment {
    AllowedEnvironment { transport: None, host: None, port: None }
}

#[test]
fn units_of_the_executable_are_discovered() {
    let scan = UnitScan::start()
        .pid_shown(done("321\n"))
        .executable_resolved(Some("/tmp/obsidian-mcp".into()), "/tmp/obsidian-mcp")
        .arguments_read(Ok(vec!["--http".into()]))
        .environment_read(Ok(AllowedEnvironment { port: Some("4567".into()), ..no_environment() }))
        .probed(None, "obsidian.service", "/tmp/obsidian-mcp");
    match scan {
        UnitScan::Found(found) => {
            assert_eq!(found.owner, ServiceOwner::SystemdUser);
            assert_eq!(found.id, "obsidian.service");
            assert_eq!(found.port, 4567);
            assert_eq!(found.observed_version, None);
        }
        other => panic!("unexpected {other:?}"),
    }
    let other = UnitScan::start()
        .pid_shown(done("321\n"))
        .executable_resolved(Some("/bin/other".into()), "/tmp/obsidian-mcp");
    assert!(matches!(other, UnitScan::Skipped));
    assert!(matches!(UnitScan::start().pid_shown(done("0\n")), UnitScan::Skipped));
}

#[test]
fn restart_uses_user_restart_without_daemon_reload() {
    let target = target(ServiceOwner::SystemdUser, "obsidian.service");
    let mut commands: Vec<String> = Vec::new();
    let mut restart = UnitRestart::start();
    let mut shown = 0;
    loop {
        if let Some(command) = restart.command(&target) {
            let text = command_text(&command);
            let stdout = if text.contains("--property=MainPID") {
                shown += 1;
                if shown == 1 { "321\n" } else { "654\n" }
            } else {
                ""
            };
            commands.push(text);
            restart = restart.command_ended(&target, done(stdout), 0);
            continue;
        }
        restart = match restart {
            UnitRestart::InspectBefore { .. } | UnitRestart::InspectAfter { .. } => {
                restart.inspected(&target, Ok(Some("/tmp/obsidian-mcp".into())))
            }
            UnitRestart::Arguments { .. } => {
                restart.arguments_read(Ok(vec!["--http".into(), "--port".into(), "4567".into()]))
            }
            UnitRestart::Environment { .. } => {
                restart.environment_read(&target, "2.5.0", Ok(no_environment()), 0)
            }
            UnitRestart::AwaitVersion { again: false, .. } => {
                restart.health_probed(observed("2.4.0"), 0)
            }
            UnitRestart::AwaitVersion { .. } => restart.health_probed(observed("2.5.0"), 200),
            other => {
                restart = other;
                break;
            }
        };
    }
    assert_eq!(restart, UnitRestart::Finished("2.5.0".into()));
    let result = systemd::restart_result(&target, restart, None).unwrap();
    assert!(result.success);
    assert!(commands.iter().any(|command| command == "systemctl --user restart obsidian.service"));
    assert!(
        commands
            .iter()
            .any(|command| command == "systemctl --user is-active --quiet obsidian.service")
    );
    assert!(!commands.iter().any(|command| command.contains("daemon-reload")));
}

#[test]
fn unit_with_another_program_is_not_restarted() {
    let target = target(ServiceOwner::SystemdUser, "obsidian.service");
    let restart = UnitRestart::start()
        .command_ended(&target, done("321\n"), 0)
        .inspected(&target, Ok(Some("/bin/other".into())));
    assert!(matches!(restart, UnitRestart::Failed(_)));
    assert_eq!(
        systemd::unavailable(&target).diagnostic,
        "systemd user-service activation is only available on Linux"
    );
}

#[test]
fn services_are_sorted_by_their_identifier() {
    let sorted = sort_targets(vec![
        target(ServiceOwner::Launchd, "b"),
        target(ServiceOwner::SystemdUser, "a"),
        target(ServiceOwner::Launchd, "a"),
    ]);
    let ids: Vec<&str> = sorted.iter().map(|target| target.id.as_str()).collect();
    assert_eq!(ids, vec!["a", "a", "b"]);
    assert_eq!(sorted[0].owner, ServiceOwner::SystemdUser);
    assert_eq!(activation_deadline(5), 5 + ACTIVATION_TIMEOUT);
    assert_eq!(activation_deadline(u64::MAX), u64::MAX);
}
