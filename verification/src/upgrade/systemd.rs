//! User services of systemd that serve HTTP with the installed binary: finding
//! and restarting them.

use crate::number::{decimal, number_of, parse_number, to_decimal};
use crate::path::components;
use crate::text::{
    cat3, cat5, ends_with, lines, lossy_text, text_of, opt_text, split_lines, split_words, texts,
    trim, trimmed, words,
};
use crate::upgrade::{
    http_service_config, service_config, upgrade_error_text, ActivationResult, ActivationView,
    CommandOutput, ServiceOwner, ServiceTarget, TargetView, UpgradeError, UpgradeErrorView,
};
use crate::upgrade::commands::{
    activation_deadline, borrowed, command3, command4, command_failure, command_text,
    command_words, deadline_after, manager_error, opt_command, output_view, CommandLine,
    CommandView,
};
use crate::upgrade::health::{
    health_timeout, probed, wait_for_version, HealthObservation, HealthWait,
};
use crate::upgrade::processes::{is_executable, runs_executable};
use vstd::prelude::*;
use vstd::utf8::encode_utf8;

verus! {

/// The units in the lines of a listing: the first word of each line that ends
/// like a service.
pub open spec fn service_units(list: Seq<Seq<char>>) -> Seq<Seq<char>>
    decreases list.len(),
{
    if list.len() == 0 {
        Seq::empty()
    } else {
        let rest = service_units(list.drop_last());
        let fields = words(list.last());
        if fields.len() > 0 && ".service"@.is_suffix_of(fields[0]) {
            rest.push(fields[0])
        } else {
            rest
        }
    }
}

/// The services that a listing of units names.
pub fn parse_unit_names(raw: &str) -> (units: Vec<String>)
    ensures
        texts(units@) == service_units(lines(raw@)),
{
    let all_lines = split_lines(raw);
    let ghost all = lines(raw@);
    let mut units: Vec<String> = Vec::new();
    let mut i: usize = 0;
    assert(all.take(0) =~= Seq::empty());
    assert(texts(units@) =~= Seq::empty());
    while i < all_lines.len()
        invariant
            i <= all_lines@.len(),
            all == texts(all_lines@),
            texts(units@) == service_units(all.take(i as int)),
        decreases all_lines@.len() - i,
    {
        let ghost before_units = units@;
        assert(all.take(i + 1).drop_last() =~= all.take(i as int));
        assert(all.take(i + 1).last() == all_lines@[i as int]@);
        let fields = split_words(all_lines[i].as_str());
        assert(texts(fields@).len() == fields@.len());
        if fields.len() > 0 {
            assert(texts(fields@)[0] == fields@[0]@);
            if ends_with(fields[0].as_str(), ".service") {
                units.push(fields[0].clone());
                assert(texts(units@) =~= texts(before_units).push(fields@[0]@));
            }
        }
        i += 1;
    }
    assert(all.take(i as int) =~= all);
    units
}

/// The command that lists the running services.
pub open spec fn list_units() -> CommandView {
    CommandView {
        program: "systemctl"@,
        args: seq![
            "--user"@,
            "list-units"@,
            "--type=service"@,
            "--state=running"@,
            "--no-legend"@,
            "--plain"@,
            "--no-pager"@,
        ],
    }
}

/// The command that lists the running services.
pub fn list_command() -> (command: CommandLine)
    ensures
        command@ == list_units(),
{
    let mut args: Vec<String> = Vec::new();
    args.push("--user".to_owned());
    args.push("list-units".to_owned());
    args.push("--type=service".to_owned());
    args.push("--state=running".to_owned());
    args.push("--no-legend".to_owned());
    args.push("--plain".to_owned());
    args.push("--no-pager".to_owned());
    let command = CommandLine { program: "systemctl".to_owned(), args };
    assert(command@.args =~= list_units().args);
    command
}

/// The running services; a manager that is not there has none.
pub fn running_units(output: Result<CommandOutput, UpgradeError>) -> (result: Result<
    Vec<String>,
    UpgradeError,
>)
    ensures
        match output {
            Ok(done) => result matches Ok(units) && texts(units@) == if done.success {
                service_units(lines(text_of(done.stdout@)))
            } else {
                Seq::empty()
            },
            Err(error) => if error@ is Command {
                result matches Ok(units) && units@.len() == 0
            } else {
                result == Err::<Vec<String>, UpgradeError>(error)
            },
        },
{
    match output {
        Ok(done) => {
            if !done.success {
                let none: Vec<String> = Vec::new();
                assert(texts(none@) =~= Seq::empty());
                return Ok(none);
            }
            let text = lossy_text(done.stdout.as_slice());
            Ok(parse_unit_names(text.as_str()))
        },
        Err(error) => match error {
            UpgradeError::Command { program: _, message: _ } => Ok(Vec::new()),
            other => Err(other),
        },
    }
}

/// The command that shows the main process of a unit.
pub open spec fn show_pid(unit: Seq<char>) -> CommandView {
    CommandView {
        program: "systemctl"@,
        args: seq!["--user"@, "show"@, unit, "--property=MainPID"@, "--value"@],
    }
}

/// The command that shows the main process of a unit.
pub fn show_command(unit: &str) -> (command: CommandLine)
    ensures
        command@ == show_pid(unit@),
{
    let mut args: Vec<String> = Vec::new();
    args.push("--user".to_owned());
    args.push("show".to_owned());
    args.push(unit.to_owned());
    args.push("--property=MainPID".to_owned());
    args.push("--value".to_owned());
    let command = CommandLine { program: "systemctl".to_owned(), args };
    assert(command@.args =~= show_pid(unit@).args);
    command
}

/// The main process that a command showed: zero stands for none, and so does a
/// failed command.
pub open spec fn shown_pid(success: bool, stdout: Seq<u8>) -> Option<nat> {
    match number_of(trimmed(text_of(stdout)), u32::MAX as nat) {
        Some(pid) => if success && pid != 0 {
            Some(pid)
        } else {
            None
        },
        None => None,
    }
}

/// The main process that a command showed.
pub fn main_pid(output: &CommandOutput) -> (pid: Option<u32>)
    ensures
        match pid {
            Some(number) => shown_pid(output.success, output.stdout@) == Some(number as nat),
            None => shown_pid(output.success, output.stdout@) is None,
        },
{
    if !output.success {
        return None;
    }
    let text = lossy_text(output.stdout.as_slice());
    let value = trim(text.as_str());
    match parse_number(value.as_str(), u32::MAX as u64) {
        Some(number) => if number != 0 {
            Some(number as u32)
        } else {
            None
        },
        None => None,
    }
}

/// The variables of a process that matter; no other one is kept.
#[derive(Debug, PartialEq, Eq)]
pub struct AllowedEnvironment {
    pub transport: Option<String>,
    pub host: Option<String>,
    pub port: Option<String>,
}

/// The variables of a process that matter, as characters.
#[verifier::ext_equal]
pub struct EnvironmentView {
    pub transport: Option<Seq<char>>,
    pub host: Option<Seq<char>>,
    pub port: Option<Seq<char>>,
}

impl View for AllowedEnvironment {
    type V = EnvironmentView;

    open spec fn view(&self) -> EnvironmentView {
        EnvironmentView {
            transport: opt_text(self.transport),
            host: opt_text(self.host),
            port: opt_text(self.port),
        }
    }
}

/// The value of a setting that starts with `prefix`.
pub open spec fn value_after(setting: Seq<u8>, prefix: Seq<char>) -> Option<Seq<char>> {
    let name = encode_utf8(prefix);
    if name.is_prefix_of(setting) {
        Some(text_of(setting.skip(name.len() as int)))
    } else {
        None
    }
}

/// The variables after one more setting.
pub open spec fn with_setting(environment: EnvironmentView, setting: Seq<u8>) -> EnvironmentView {
    if value_after(setting, "OBSIDIAN_TRANSPORT="@) is Some {
        EnvironmentView {
            transport: value_after(setting, "OBSIDIAN_TRANSPORT="@),
            ..environment
        }
    } else if value_after(setting, "OBSIDIAN_HTTP_HOST="@) is Some {
        EnvironmentView { host: value_after(setting, "OBSIDIAN_HTTP_HOST="@), ..environment }
    } else if value_after(setting, "OBSIDIAN_HTTP_PORT="@) is Some {
        EnvironmentView { port: value_after(setting, "OBSIDIAN_HTTP_PORT="@), ..environment }
    } else {
        environment
    }
}

/// The variables after the settings from position `i` on, where `setting` was
/// read of the first one. Settings end at zero bytes; the last one of a variable
/// counts.
pub open spec fn environment_from(
    raw: Seq<u8>,
    i: int,
    setting: Seq<u8>,
    environment: EnvironmentView,
) -> EnvironmentView
    decreases raw.len() - i,
{
    if i < 0 || i >= raw.len() {
        with_setting(environment, setting)
    } else if raw[i] == 0 {
        environment_from(raw, i + 1, Seq::empty(), with_setting(environment, setting))
    } else {
        environment_from(raw, i + 1, setting.push(raw[i]), environment)
    }
}

/// No variable.
pub open spec fn empty_environment() -> EnvironmentView {
    EnvironmentView { transport: None, host: None, port: None }
}

fn setting_value(setting: &Vec<u8>, prefix: &str) -> (value: Option<String>)
    ensures
        opt_text(value) == value_after(setting@, prefix@),
{
    let name = prefix.as_bytes();
    if name.len() > setting.len() {
        return None;
    }
    let mut i: usize = 0;
    while i < name.len()
        invariant
            i <= name@.len() <= setting@.len(),
            name@ == encode_utf8(prefix@),
            forall|k: int| 0 <= k < i ==> name@[k] == setting@[k],
        decreases name@.len() - i,
    {
        if name[i] != setting[i] {
            assert(!name@.is_prefix_of(setting@)) by {
                assert(setting@.subrange(0, name@.len() as int)[i as int] != name@[i as int]);
            }
            return None;
        }
        i += 1;
    }
    assert(name@ =~= setting@.subrange(0, name@.len() as int));
    let mut rest: Vec<u8> = Vec::new();
    while i < setting.len()
        invariant
            name@.len() <= i <= setting@.len(),
            rest@ == setting@.subrange(name@.len() as int, i as int),
        decreases setting@.len() - i,
    {
        rest.push(setting[i]);
        assert(rest@ =~= setting@.subrange(name@.len() as int, i + 1));
        i += 1;
    }
    assert(rest@ =~= setting@.skip(name@.len() as int));
    Some(lossy_text(rest.as_slice()))
}

fn add_setting(environment: AllowedEnvironment, setting: &Vec<u8>) -> (next: AllowedEnvironment)
    ensures
        next@ == with_setting(environment@, setting@),
{
    let mut next = environment;
    match setting_value(setting, "OBSIDIAN_TRANSPORT=") {
        Some(value) => {
            next.transport = Some(value);
            return next;
        },
        None => {},
    }
    match setting_value(setting, "OBSIDIAN_HTTP_HOST=") {
        Some(value) => {
            next.host = Some(value);
            return next;
        },
        None => {},
    }
    match setting_value(setting, "OBSIDIAN_HTTP_PORT=") {
        Some(value) => {
            next.port = Some(value);
            return next;
        },
        None => {},
    }
    next
}

/// The variables in the environment record of a process that matter.
pub fn allowed_environment(raw: &[u8]) -> (environment: AllowedEnvironment)
    ensures
        environment@ == environment_from(raw@, 0, Seq::empty(), empty_environment()),
{
    let mut environment = AllowedEnvironment { transport: None, host: None, port: None };
    let mut setting: Vec<u8> = Vec::new();
    let mut i: usize = 0;
    while i < raw.len()
        invariant
            i <= raw@.len(),
            environment_from(raw@, 0, Seq::empty(), empty_environment()) == environment_from(
                raw@,
                i as int,
                setting@,
                environment@,
            ),
        decreases raw@.len() - i,
    {
        let byte: u8 = raw[i];
        if byte == 0 {
            environment = add_setting(environment, &setting);
            setting = Vec::new();
        } else {
            setting.push(byte);
        }
        i += 1;
    }
    add_setting(environment, &setting)
}

/// The inspection of one running unit: what to look at next.
#[derive(Debug, PartialEq, Eq)]
pub enum UnitScan {
    /// Ask for the main process.
    ShowPid,
    /// Resolve the executable of the process.
    Executable { pid: u32 },
    /// Read the arguments of the process.
    Arguments { pid: u32 },
    /// Read the variables of the process.
    Environment { pid: u32, arguments: Vec<String> },
    /// Ask the service for its version.
    Probe { pid: u32, host: String, port: u16 },
    /// The unit is not a service of the installed binary.
    Skipped,
    /// The service.
    Found(ServiceTarget),
    /// The inspection failed.
    Failed(UpgradeError),
}

/// The inspection of a unit, as mathematical values.
pub enum UnitView {
    ShowPid,
    Executable { pid: u32 },
    Arguments { pid: u32 },
    Environment { pid: u32, arguments: Seq<Seq<char>> },
    Probe { pid: u32, host: Seq<char>, port: u16 },
    Skipped,
    Found(TargetView),
    Failed(UpgradeErrorView),
}

impl View for UnitScan {
    type V = UnitView;

    open spec fn view(&self) -> UnitView {
        match self {
            UnitScan::ShowPid => UnitView::ShowPid,
            UnitScan::Executable { pid } => UnitView::Executable { pid: *pid },
            UnitScan::Arguments { pid } => UnitView::Arguments { pid: *pid },
            UnitScan::Environment { pid, arguments } => UnitView::Environment {
                pid: *pid,
                arguments: texts(arguments@),
            },
            UnitScan::Probe { pid, host, port } => UnitView::Probe {
                pid: *pid,
                host: host@,
                port: *port,
            },
            UnitScan::Skipped => UnitView::Skipped,
            UnitScan::Found(target) => UnitView::Found(target@),
            UnitScan::Failed(error) => UnitView::Failed(error@),
        }
    }
}

/// After the main process was asked for.
pub open spec fn unit_after_pid(
    scan: UnitView,
    output: Result<(bool, Seq<u8>, Seq<u8>), UpgradeErrorView>,
) -> UnitView {
    match scan {
        UnitView::ShowPid => match output {
            Err(error) => UnitView::Failed(error),
            Ok((success, stdout, stderr)) => match shown_pid(success, stdout) {
                Some(pid) => UnitView::Executable { pid: pid as u32 },
                None => UnitView::Skipped,
            },
        },
        _ => scan,
    }
}

/// After the executable was resolved, where it could be: a process of another
/// program is skipped.
pub open spec fn unit_after_executable(
    scan: UnitView,
    resolved: Option<Seq<char>>,
    executable: Seq<char>,
) -> UnitView {
    match scan {
        UnitView::Executable { pid } => if is_executable(resolved, executable) {
            UnitView::Arguments { pid }
        } else {
            UnitView::Skipped
        },
        _ => scan,
    }
}

/// After the variables were read: a service without HTTP is skipped.
pub open spec fn unit_after_environment(
    scan: UnitView,
    result: Result<EnvironmentView, UpgradeErrorView>,
) -> UnitView {
    match scan {
        UnitView::Environment { pid, arguments } => match result {
            Err(error) => UnitView::Failed(error),
            Ok(environment) => match service_config(
                arguments,
                environment.transport,
                environment.host,
                environment.port,
            ) {
                None => UnitView::Skipped,
                Some((host, port)) => UnitView::Probe { pid, host, port: port as u16 },
            },
        },
        _ => scan,
    }
}

/// After the service was asked for its version.
pub open spec fn unit_after_probe(
    scan: UnitView,
    version: Option<Seq<char>>,
    unit: Seq<char>,
    executable: Seq<char>,
) -> UnitView {
    match scan {
        UnitView::Probe { pid, host, port } => UnitView::Found(
            TargetView {
                owner: ServiceOwner::SystemdUser,
                id: unit,
                definition_path: None,
                executable,
                host,
                port,
                previous_pid: Some(pid),
                observed_version: version,
            },
        ),
        _ => scan,
    }
}

impl UnitScan {
    /// Starts the inspection of a unit.
    pub fn start() -> (scan: UnitScan)
        ensures
            scan@ == UnitView::ShowPid,
    {
        UnitScan::ShowPid
    }

    /// Goes on after the main process was asked for.
    pub fn pid_shown(self, output: Result<CommandOutput, UpgradeError>) -> (next: UnitScan)
        ensures
            next@ == unit_after_pid(self@, output_view(output)),
    {
        match self {
            UnitScan::ShowPid => match output {
                Err(error) => UnitScan::Failed(error),
                Ok(done) => match main_pid(&done) {
                    Some(pid) => UnitScan::Executable { pid },
                    None => UnitScan::Skipped,
                },
            },
            other => other,
        }
    }

    /// Goes on after the executable was resolved, where it could be.
    pub fn executable_resolved(self, resolved: Option<String>, executable: &str) -> (next: UnitScan)
        ensures
            next@ == unit_after_executable(self@, opt_text(resolved), executable@),
    {
        match self {
            UnitScan::Executable { pid } => if runs_executable(&resolved, executable) {
                UnitScan::Arguments { pid }
            } else {
                UnitScan::Skipped
            },
            other => other,
        }
    }

    /// Goes on after the arguments were read.
    pub fn arguments_read(self, result: Result<Vec<String>, UpgradeError>) -> (next: UnitScan)
        ensures
            next@ == match self@ {
                UnitView::Arguments { pid } => match result {
                    Err(error) => UnitView::Failed(error@),
                    Ok(arguments) => UnitView::Environment { pid, arguments: texts(arguments@) },
                },
                other => other,
            },
    {
        match self {
            UnitScan::Arguments { pid } => match result {
                Err(error) => UnitScan::Failed(error),
                Ok(arguments) => UnitScan::Environment { pid, arguments },
            },
            other => other,
        }
    }

    /// Goes on after the variables were read.
    pub fn environment_read(self, result: Result<AllowedEnvironment, UpgradeError>) -> (next:
        UnitScan)
        ensures
            next@ == unit_after_environment(
                self@,
                match result {
                    Ok(environment) => Ok(environment@),
                    Err(error) => Err(error@),
                },
            ),
    {
        match self {
            UnitScan::Environment { pid, arguments } => match result {
                Err(error) => UnitScan::Failed(error),
                Ok(environment) => {
                    let config = http_service_config(
                        arguments.as_slice(),
                        borrowed(&environment.transport),
                        borrowed(&environment.host),
                        borrowed(&environment.port),
                    );
                    match config {
                        None => UnitScan::Skipped,
                        Some((host, port)) => UnitScan::Probe { pid, host, port },
                    }
                },
            },
            other => other,
        }
    }

    /// Ends with the service, whose version was asked for.
    pub fn probed(self, version: Option<String>, unit: &str, executable: &str) -> (next: UnitScan)
        ensures
            next@ == unit_after_probe(self@, opt_text(version), unit@, executable@),
    {
        match self {
            UnitScan::Probe { pid, host, port } => UnitScan::Found(
                ServiceTarget {
                    owner: ServiceOwner::SystemdUser,
                    id: unit.to_owned(),
                    definition_path: None,
                    executable: executable.to_owned(),
                    host,
                    port,
                    previous_pid: Some(pid),
                    observed_version: version,
                },
            ),
            other => other,
        }
    }
}

/// The restart of a unit: what to do next.
#[derive(Debug, PartialEq, Eq)]
pub enum UnitRestart {
    /// Ask for the main process before the restart.
    ShowBefore,
    /// Resolve its executable.
    InspectBefore { active: u32 },
    /// Restart the unit.
    Restart { active: u32 },
    /// Ask for the main process until it is a new one; `again` asks for a pause
    /// first.
    ShowAfter { active: u32, deadline: u64, again: bool },
    /// Ask whether the unit is active.
    CheckActive { pid: u32 },
    /// Resolve the executable of the new process.
    InspectAfter { pid: u32 },
    /// Read the arguments of the new process.
    Arguments { pid: u32 },
    /// Read the variables of the new process.
    Environment { pid: u32, arguments: Vec<String> },
    /// Ask the service for its version until it is the expected one; `again` asks
    /// for a pause first.
    AwaitVersion { host: String, port: u16, expected: String, deadline: u64, again: bool },
    /// The service reports this version.
    Finished(String),
    /// The restart failed.
    Failed(UpgradeError),
}

/// The restart of a unit, as mathematical values.
pub enum UnitRestartView {
    ShowBefore,
    InspectBefore { active: u32 },
    Restart { active: u32 },
    ShowAfter { active: u32, deadline: u64, again: bool },
    CheckActive { pid: u32 },
    InspectAfter { pid: u32 },
    Arguments { pid: u32 },
    Environment { pid: u32, arguments: Seq<Seq<char>> },
    AwaitVersion { host: Seq<char>, port: u16, expected: Seq<char>, deadline: u64, again: bool },
    Finished(Seq<char>),
    Failed(UpgradeErrorView),
}

impl View for UnitRestart {
    type V = UnitRestartView;

    open spec fn view(&self) -> UnitRestartView {
        match self {
            UnitRestart::ShowBefore => UnitRestartView::ShowBefore,
            UnitRestart::InspectBefore { active } => UnitRestartView::InspectBefore {
                active: *active,
            },
            UnitRestart::Restart { active } => UnitRestartView::Restart { active: *active },
            UnitRestart::ShowAfter { active, deadline, again } => UnitRestartView::ShowAfter {
                active: *active,
                deadline: *deadline,
                again: *again,
            },
            UnitRestart::CheckActive { pid } => UnitRestartView::CheckActive { pid: *pid },
            UnitRestart::InspectAfter { pid } => UnitRestartView::InspectAfter { pid: *pid },
            UnitRestart::Arguments { pid } => UnitRestartView::Arguments { pid: *pid },
            UnitRestart::Environment { pid, arguments } => UnitRestartView::Environment {
                pid: *pid,
                arguments: texts(arguments@),
            },
            UnitRestart::AwaitVersion { host, port, expected, deadline, again } =>
                UnitRestartView::AwaitVersion {
                    host: host@,
                    port: *port,
                    expected: expected@,
                    deadline: *deadline,
                    again: *again,
                },
            UnitRestart::Finished(version) => UnitRestartView::Finished(version@),
            UnitRestart::Failed(error) => UnitRestartView::Failed(error@),
        }
    }
}

/// The command of a step.
pub open spec fn unit_command(restart: UnitRestartView, id: Seq<char>) -> Option<CommandView> {
    match restart {
        UnitRestartView::ShowBefore => Some(show_pid(id)),
        UnitRestartView::Restart { active } => Some(
            CommandView { program: "systemctl"@, args: seq!["--user"@, "restart"@, id] },
        ),
        UnitRestartView::ShowAfter { .. } => Some(show_pid(id)),
        UnitRestartView::CheckActive { pid } => Some(
            CommandView {
                program: "systemctl"@,
                args: seq!["--user"@, "is-active"@, "--quiet"@, id],
            },
        ),
        _ => None,
    }
}

/// What is said of a unit.
pub open spec fn unit_error(start: Seq<char>, id: Seq<char>, end: Seq<char>) -> UnitRestartView {
    UnitRestartView::Failed(UpgradeErrorView::Activation(start + id + end))
}

/// After the command of a step ended at the time `now`.
pub open spec fn unit_step(
    restart: UnitRestartView,
    id: Seq<char>,
    output: Result<(bool, Seq<u8>, Seq<u8>), UpgradeErrorView>,
    now: u64,
) -> UnitRestartView {
    match unit_command(restart, id) {
        None => restart,
        Some(command) => match output {
            Err(error) => UnitRestartView::Failed(error),
            Ok((success, stdout, stderr)) => {
                let pid = shown_pid(success, stdout);
                match restart {
                    UnitRestartView::ShowBefore => match pid {
                        Some(number) => UnitRestartView::InspectBefore { active: number as u32 },
                        None => unit_error(
                            "systemd user service '"@,
                            id,
                            "' became inactive before activation; it was left inactive"@,
                        ),
                    },
                    UnitRestartView::Restart { active } => if success {
                        UnitRestartView::ShowAfter {
                            active,
                            deadline: deadline_after(now),
                            again: false,
                        }
                    } else {
                        UnitRestartView::Failed(manager_error(command_words(command), stderr))
                    },
                    UnitRestartView::ShowAfter { active, deadline, again } => if pid is Some
                        && pid->0 != active {
                        UnitRestartView::CheckActive { pid: pid->0 as u32 }
                    } else if now >= deadline {
                        unit_error(
                            "systemd user service '"@,
                            id,
                            "' did not report a new running process"@,
                        )
                    } else {
                        UnitRestartView::ShowAfter { active, deadline, again: true }
                    },
                    UnitRestartView::CheckActive { pid } => if success {
                        UnitRestartView::InspectAfter { pid }
                    } else {
                        UnitRestartView::Failed(manager_error(command_words(command), stderr))
                    },
                    _ => restart,
                }
            },
        },
    }
}

/// After the executable of a process was looked at: it could not be read, or it
/// resolved to a path or to none.
pub open spec fn unit_after_inspection(
    restart: UnitRestartView,
    target: TargetView,
    result: Result<Option<Seq<char>>, UpgradeErrorView>,
) -> UnitRestartView {
    match restart {
        UnitRestartView::InspectBefore { active } => match result {
            Err(error) => UnitRestartView::Failed(error),
            Ok(resolved) => if is_executable(resolved, target.executable) {
                UnitRestartView::Restart { active }
            } else {
                unit_error(
                    "systemd user service '"@,
                    target.id,
                    "' changed executable before activation"@,
                )
            },
        },
        UnitRestartView::InspectAfter { pid } => match result {
            Err(error) => UnitRestartView::Failed(
                UpgradeErrorView::Activation(
                    "cannot inspect restarted systemd service '"@ + target.id + "' PID "@ + decimal(
                        pid as nat,
                    ) + ": "@ + upgrade_error_text(error),
                ),
            ),
            Ok(resolved) => if is_executable(resolved, target.executable) {
                UnitRestartView::Arguments { pid }
            } else {
                UnitRestartView::Failed(
                    UpgradeErrorView::Activation(
                        "restarted systemd service '"@ + target.id + "' no longer runs '"@
                            + target.executable + "'"@,
                    ),
                )
            },
        },
        _ => restart,
    }
}

/// After the variables of the new process were read at the time `now`: it has to
/// serve HTTP, and to report the expected version.
pub open spec fn unit_after_variables(
    restart: UnitRestartView,
    id: Seq<char>,
    version: Seq<char>,
    result: Result<EnvironmentView, UpgradeErrorView>,
    now: u64,
) -> UnitRestartView {
    match restart {
        UnitRestartView::Environment { pid, arguments } => match result {
            Err(error) => UnitRestartView::Failed(error),
            Ok(environment) => match service_config(
                arguments,
                environment.transport,
                environment.host,
                environment.port,
            ) {
                Some((host, port)) => UnitRestartView::AwaitVersion {
                    host,
                    port: port as u16,
                    expected: version,
                    deadline: deadline_after(now),
                    again: false,
                },
                None => unit_error(
                    "restarted systemd service '"@,
                    id,
                    "' is no longer configured for HTTP transport"@,
                ),
            },
        },
        _ => restart,
    }
}

/// After the service was asked for its version at the time `now`: only the expected
/// one ends the restart well.
pub open spec fn unit_after_health(
    restart: UnitRestartView,
    probe: Result<Seq<char>, UpgradeErrorView>,
    now: u64,
) -> UnitRestartView {
    match restart {
        UnitRestartView::AwaitVersion { host, port, expected, deadline, again } => if probe == Ok::<
            Seq<char>,
            UpgradeErrorView,
        >(expected) {
            UnitRestartView::Finished(expected)
        } else if now >= deadline {
            UnitRestartView::Failed(health_timeout(probe, host, port, expected))
        } else {
            UnitRestartView::AwaitVersion { host, port, expected, deadline, again: true }
        },
        _ => restart,
    }
}

fn unit_failure(start: &str, id: &str, end: &str) -> (restart: UnitRestart)
    ensures
        restart@ == unit_error(start@, id@, end@),
{
    UnitRestart::Failed(UpgradeError::Activation(cat3(start, id, end)))
}

fn failed_unit_command(command: &CommandLine, done: &CommandOutput) -> (restart: UnitRestart)
    ensures
        restart@ == UnitRestartView::Failed(manager_error(command_words(command@), done.stderr@)),
{
    let text = command_text(command);
    UnitRestart::Failed(command_failure(text.as_str(), done.stderr.as_slice()))
}

impl UnitRestart {
    /// The first step of restarting a unit.
    pub fn start() -> (restart: UnitRestart)
        ensures
            restart@ == UnitRestartView::ShowBefore,
    {
        UnitRestart::ShowBefore
    }

    /// The command of this step.
    pub fn command(&self, target: &ServiceTarget) -> (command: Option<CommandLine>)
        ensures
            opt_command(command) == unit_command(self@, target@.id),
    {
        match self {
            UnitRestart::ShowBefore => Some(show_command(target.id.as_str())),
            UnitRestart::Restart { active: _ } => Some(
                command3("systemctl", "--user", "restart", target.id.as_str()),
            ),
            UnitRestart::ShowAfter { .. } => Some(show_command(target.id.as_str())),
            UnitRestart::CheckActive { pid: _ } => Some(
                command4("systemctl", "--user", "is-active", "--quiet", target.id.as_str()),
            ),
            _ => None,
        }
    }

    /// Whether to wait a little before the command is run or the service is asked.
    pub fn pauses(&self) -> (pause: bool)
        ensures
            pause == match self@ {
                UnitRestartView::ShowAfter { again, .. } => again,
                UnitRestartView::AwaitVersion { again, .. } => again,
                _ => false,
            },
    {
        match self {
            UnitRestart::ShowAfter { active: _, deadline: _, again } => *again,
            UnitRestart::AwaitVersion { host: _, port: _, expected: _, deadline: _, again } =>
                *again,
            _ => false,
        }
    }

    /// Goes on after the command of this step ended.
    pub fn command_ended(
        self,
        target: &ServiceTarget,
        output: Result<CommandOutput, UpgradeError>,
        now: u64,
    ) -> (next: UnitRestart)
        ensures
            next@ == unit_step(self@, target@.id, output_view(output), now),
    {
        let command = match self.command(target) {
            Some(command) => command,
            None => {
                return self;
            },
        };
        let done = match output {
            Ok(done) => done,
            Err(error) => {
                return UnitRestart::Failed(error);
            },
        };
        match self {
            UnitRestart::ShowBefore => match main_pid(&done) {
                Some(active) => UnitRestart::InspectBefore { active },
                None => unit_failure(
                    "systemd user service '",
                    target.id.as_str(),
                    "' became inactive before activation; it was left inactive",
                ),
            },
            UnitRestart::Restart { active } => if done.success {
                UnitRestart::ShowAfter { active, deadline: activation_deadline(now), again: false }
            } else {
                failed_unit_command(&command, &done)
            },
            UnitRestart::ShowAfter { active, deadline, again: _ } => {
                match main_pid(&done) {
                    Some(pid) => {
                        if pid != active {
                            return UnitRestart::CheckActive { pid };
                        }
                    },
                    None => {},
                }
                if now >= deadline {
                    unit_failure(
                        "systemd user service '",
                        target.id.as_str(),
                        "' did not report a new running process",
                    )
                } else {
                    UnitRestart::ShowAfter { active, deadline, again: true }
                }
            },
            UnitRestart::CheckActive { pid } => if done.success {
                UnitRestart::InspectAfter { pid }
            } else {
                failed_unit_command(&command, &done)
            },
            other => other,
        }
    }

    /// Goes on after the executable of a process was looked at.
    pub fn inspected(self, target: &ServiceTarget, result: Result<Option<String>, UpgradeError>) -> (
    next: UnitRestart)
        ensures
            next@ == unit_after_inspection(
                self@,
                target@,
                match result {
                    Ok(resolved) => Ok(opt_text(resolved)),
                    Err(error) => Err(error@),
                },
            ),
    {
        match self {
            UnitRestart::InspectBefore { active } => match result {
                Err(error) => UnitRestart::Failed(error),
                Ok(resolved) => if runs_executable(&resolved, target.executable.as_str()) {
                    UnitRestart::Restart { active }
                } else {
                    unit_failure(
                        "systemd user service '",
                        target.id.as_str(),
                        "' changed executable before activation",
                    )
                },
            },
            UnitRestart::InspectAfter { pid } => match result {
                Err(error) => {
                    let number = to_decimal(pid as u64);
                    let cause = error.message();
                    let mut text = cat5(
                        "cannot inspect restarted systemd service '",
                        target.id.as_str(),
                        "' PID ",
                        number.as_str(),
                        ": ",
                    );
                    text.append(cause.as_str());
                    UnitRestart::Failed(UpgradeError::Activation(text))
                },
                Ok(resolved) => if runs_executable(&resolved, target.executable.as_str()) {
                    UnitRestart::Arguments { pid }
                } else {
                    UnitRestart::Failed(
                        UpgradeError::Activation(
                            cat5(
                                "restarted systemd service '",
                                target.id.as_str(),
                                "' no longer runs '",
                                target.executable.as_str(),
                                "'",
                            ),
                        ),
                    )
                },
            },
            other => other,
        }
    }

    /// Goes on after the arguments of the new process were read.
    pub fn arguments_read(self, result: Result<Vec<String>, UpgradeError>) -> (next: UnitRestart)
        ensures
            next@ == match self@ {
                UnitRestartView::Arguments { pid } => match result {
                    Err(error) => UnitRestartView::Failed(error@),
                    Ok(arguments) => UnitRestartView::Environment {
                        pid,
                        arguments: texts(arguments@),
                    },
                },
                other => other,
            },
    {
        match self {
            UnitRestart::Arguments { pid } => match result {
                Err(error) => UnitRestart::Failed(error),
                Ok(arguments) => UnitRestart::Environment { pid, arguments },
            },
            other => other,
        }
    }

    /// Goes on after the variables of the new process were read. `expected` is the
    /// version that the unit has to report in the end.
    pub fn environment_read(
        self,
        target: &ServiceTarget,
        expected: &str,
        result: Result<AllowedEnvironment, UpgradeError>,
        now: u64,
    ) -> (next: UnitRestart)
        ensures
            next@ == unit_after_variables(
                self@,
                target@.id,
                expected@,
                match result {
                    Ok(environment) => Ok(environment@),
                    Err(error) => Err(error@),
                },
                now,
            ),
    {
        match self {
            UnitRestart::Environment { pid: _, arguments } => match result {
                Err(error) => UnitRestart::Failed(error),
                Ok(environment) => {
                    let config = http_service_config(
                        arguments.as_slice(),
                        borrowed(&environment.transport),
                        borrowed(&environment.host),
                        borrowed(&environment.port),
                    );
                    match config {
                        Some((host, port)) => UnitRestart::AwaitVersion {
                            host,
                            port,
                            expected: expected.to_owned(),
                            deadline: activation_deadline(now),
                            again: false,
                        },
                        None => unit_failure(
                            "restarted systemd service '",
                            target.id.as_str(),
                            "' is no longer configured for HTTP transport",
                        ),
                    }
                },
            },
            other => other,
        }
    }

    /// Goes on after the service was asked for its version.
    pub fn health_probed(self, probe: Result<HealthObservation, UpgradeError>, now: u64) -> (next:
        UnitRestart)
        ensures
            next@ == unit_after_health(self@, probed(probe), now),
    {
        match self {
            UnitRestart::AwaitVersion { host, port, expected, deadline, again: _ } => {
                match wait_for_version(
                    probe,
                    host.as_str(),
                    port,
                    expected.as_str(),
                    now,
                    deadline,
                ) {
                    HealthWait::Ready(observation) => UnitRestart::Finished(observation.version),
                    HealthWait::Failed(error) => UnitRestart::Failed(error),
                    HealthWait::Again => UnitRestart::AwaitVersion {
                        host,
                        port,
                        expected,
                        deadline,
                        again: true,
                    },
                }
            },
            other => other,
        }
    }
}

/// What became of a unit after its restart; `observed` is the version that it
/// reports where the restart failed.
pub fn restart_result(target: &ServiceTarget, restart: UnitRestart, observed: Option<String>) -> (
result: Option<ActivationResult>)
    ensures
        match restart@ {
            UnitRestartView::Finished(version) => result matches Some(r) && r@ == (ActivationView {
                target_id: target@.id,
                success: true,
                observed_version: Some(version),
                diagnostic: "systemd user service restarted and passed exact health verification"@,
            }),
            UnitRestartView::Failed(error) => result matches Some(r) && r@ == (ActivationView {
                target_id: target@.id,
                success: false,
                observed_version: opt_text(observed),
                diagnostic: upgrade_error_text(error),
            }),
            _ => result is None,
        },
{
    match restart {
        UnitRestart::Finished(version) => Some(
            ActivationResult {
                target_id: target.id.clone(),
                success: true,
                observed_version: Some(version),
                diagnostic:
                    "systemd user service restarted and passed exact health verification".to_owned(),
            },
        ),
        UnitRestart::Failed(error) => Some(
            ActivationResult {
                target_id: target.id.clone(),
                success: false,
                observed_version: observed,
                diagnostic: error.message(),
            },
        ),
        _ => None,
    }
}

/// What becomes of a unit on another system than Linux.
pub fn unavailable(target: &ServiceTarget) -> (result: ActivationResult)
    ensures
        result@ == (ActivationView {
            target_id: target@.id,
            success: false,
            observed_version: None,
            diagnostic: "systemd user-service activation is only available on Linux"@,
        }),
{
    ActivationResult {
        target_id: target.id.clone(),
        success: false,
        observed_version: None,
        diagnostic: "systemd user-service activation is only available on Linux".to_owned(),
    }
}

/// A unit is restarted only right after its running process was found to run the
/// installed binary; one without a process is left inactive.
pub proof fn restart_follows_inspection(
    restart: UnitRestartView,
    target: TargetView,
    output: Result<(bool, Seq<u8>, Seq<u8>), UpgradeErrorView>,
    inspected: Result<Option<Seq<char>>, UpgradeErrorView>,
    now: u64,
)
    requires
        !(restart is Restart),
    ensures
        !(unit_step(restart, target.id, output, now) is Restart),
        unit_after_inspection(restart, target, inspected) is Restart ==> restart is InspectBefore
            && inspected is Ok && is_executable(inspected->Ok_0, target.executable),
{
}

/// The arguments of a restarted unit are read only after its process was found to
/// run the installed binary, and its version is waited for only after arguments
/// and variables were found to ask for HTTP.
pub proof fn health_follows_configuration(
    restart: UnitRestartView,
    target: TargetView,
    inspected: Result<Option<Seq<char>>, UpgradeErrorView>,
    version: Seq<char>,
    result: Result<EnvironmentView, UpgradeErrorView>,
    now: u64,
)
    requires
        !(restart is AwaitVersion),
        !(restart is Arguments),
    ensures
        unit_after_inspection(restart, target, inspected) is Arguments ==> restart is InspectAfter
            && inspected is Ok && is_executable(inspected->Ok_0, target.executable),
        unit_after_variables(restart, target.id, version, result, now) is AwaitVersion ==> {
            &&& restart is Environment
            &&& result is Ok
            &&& service_config(
                restart->Environment_arguments,
                result->Ok_0.transport,
                result->Ok_0.host,
                result->Ok_0.port,
            ) is Some
        },
{
}

/// A unit without a running process is skipped, and so is one whose process runs
/// another program: no such unit is ever restarted.
pub proof fn inactive_units_are_skipped(
    output: (bool, Seq<u8>, Seq<u8>),
    pid: u32,
    resolved: Option<Seq<char>>,
    executable: Seq<char>,
)
    requires
        shown_pid(output.0, output.1) is None,
        !is_executable(resolved, executable),
    ensures
        unit_after_pid(UnitView::ShowPid, Ok(output)) == UnitView::Skipped,
        unit_after_executable(UnitView::Executable { pid }, resolved, executable)
            == UnitView::Skipped,
{
}

/// A process that was running before the restart never counts as the new one.
pub proof fn new_process_differs(
    restart: UnitRestartView,
    id: Seq<char>,
    output: Result<(bool, Seq<u8>, Seq<u8>), UpgradeErrorView>,
    now: u64,
)
    requires
        restart is ShowAfter,
        unit_step(restart, id, output, now) is CheckActive,
    ensures
        unit_step(restart, id, output, now)->CheckActive_pid != restart->ShowAfter_active,
{
}

/// Whether a restart waits for the expected version and ends well with no other.
pub open spec fn unit_reports_only(restart: UnitRestartView, version: Seq<char>) -> bool {
    match restart {
        UnitRestartView::AwaitVersion { expected, .. } => expected == version,
        UnitRestartView::Finished(reported) => reported == version,
        _ => true,
    }
}

/// A restarted unit has to report the exact version that is expected: no step ends
/// well with another, and none without the service having reported it.
pub proof fn unit_restart_reports_the_expected_version(
    restart: UnitRestartView,
    target: TargetView,
    expected: Seq<char>,
    output: Result<(bool, Seq<u8>, Seq<u8>), UpgradeErrorView>,
    inspected: Result<Option<Seq<char>>, UpgradeErrorView>,
    variables: Result<EnvironmentView, UpgradeErrorView>,
    probe: Result<Seq<char>, UpgradeErrorView>,
    now: u64,
)
    requires
        unit_reports_only(restart, expected),
    ensures
        unit_reports_only(unit_step(restart, target.id, output, now), expected),
        unit_reports_only(unit_after_inspection(restart, target, inspected), expected),
        unit_reports_only(
            unit_after_variables(restart, target.id, expected, variables, now),
            expected,
        ),
        unit_reports_only(unit_after_health(restart, probe, now), expected),
        !(restart is Finished) ==> {
            &&& !(unit_step(restart, target.id, output, now) is Finished)
            &&& !(unit_after_inspection(restart, target, inspected) is Finished)
            &&& !(unit_after_variables(restart, target.id, expected, variables, now) is Finished)
            &&& unit_after_health(restart, probe, now) is Finished ==> probe == Ok::<
                Seq<char>,
                UpgradeErrorView,
            >(expected)
        },
{
}

/// Units are read line by line: a line counts where its first word is the name of a
/// service.
pub proof fn units_are_read_line_by_line(list: Seq<Seq<char>>, line: Seq<char>)
    ensures
        service_units(Seq::<Seq<char>>::empty()).len() == 0,
        service_units(list.push(line)) == if words(line).len() > 0 && ".service"@.is_suffix_of(
            words(line)[0],
        ) {
            service_units(list).push(words(line)[0])
        } else {
            service_units(list)
        },
{
    assert(list.push(line).drop_last() =~= list);
}

/// A process is shown exactly where the command went well and printed its number, which
/// is not zero.
pub proof fn shown_processes_are_not_zero(success: bool, stdout: Seq<u8>, pid: nat)
    ensures
        shown_pid(success, stdout) == Some(pid) <==> success && pid != 0 && number_of(
            trimmed(text_of(stdout)),
            0xffff_ffff,
        ) == Some(pid),
{
}

/// A setting that starts with one of the three allowed names sets just that value; any
/// other setting is not looked at.
pub proof fn settings_set_their_own_value(environment: EnvironmentView, setting: Seq<u8>)
    ensures
        ({
            let after = with_setting(environment, setting);
            let transport = value_after(setting, "OBSIDIAN_TRANSPORT="@);
            let host = value_after(setting, "OBSIDIAN_HTTP_HOST="@);
            let port = value_after(setting, "OBSIDIAN_HTTP_PORT="@);
            &&& transport is Some ==> after.transport == transport && after.host == environment.host
                && after.port == environment.port
            &&& transport is None && host is Some ==> after.host == host && after.transport
                == environment.transport && after.port == environment.port
            &&& transport is None && host is None && port is Some ==> after.port == port
                && after.transport == environment.transport && after.host == environment.host
            &&& transport is None && host is None && port is None ==> after == environment
        }),
{
}

/// The value of a setting is what stands behind its name.
pub proof fn values_stand_behind_the_name(prefix: Seq<char>, value: Seq<u8>, setting: Seq<u8>)
    ensures
        value_after(encode_utf8(prefix) + value, prefix) == Some(text_of(value)),
        value_after(setting, prefix) is Some <==> encode_utf8(prefix).is_prefix_of(setting),
{
    let name = encode_utf8(prefix);
    let whole = name + value;
    assert(whole.subrange(0, name.len() as int) =~= name);
    assert(whole.skip(name.len() as int) =~= value);
}

proof fn lemma_environment_split(
    a: Seq<u8>,
    b: Seq<u8>,
    i: int,
    setting: Seq<u8>,
    environment: EnvironmentView,
)
    requires
        0 <= i <= a.len(),
    ensures
        environment_from(a + seq![0u8] + b, i, setting, environment) == environment_from(
            b,
            0,
            Seq::empty(),
            environment_from(a, i, setting, environment),
        ),
    decreases a.len() - i,
{
    let whole = a + seq![0u8] + b;
    if i < a.len() {
        assert(whole[i] == a[i]);
        if a[i] == 0 {
            lemma_environment_split(a, b, i + 1, Seq::empty(), with_setting(environment, setting));
        } else {
            lemma_environment_split(a, b, i + 1, setting.push(a[i]), environment);
        }
    } else {
        assert(whole[i] == 0);
        lemma_environment_shifted(
            a + seq![0u8],
            b,
            0,
            Seq::empty(),
            with_setting(environment, setting),
        );
    }
}

proof fn lemma_environment_shifted(
    a: Seq<u8>,
    b: Seq<u8>,
    n: int,
    setting: Seq<u8>,
    environment: EnvironmentView,
)
    requires
        0 <= n <= b.len(),
    ensures
        environment_from(a + b, a.len() + n, setting, environment) == environment_from(
            b,
            n,
            setting,
            environment,
        ),
    decreases b.len() - n,
{
    if n < b.len() {
        assert((a + b)[a.len() + n] == b[n]);
        if b[n] == 0 {
            lemma_environment_shifted(
                a,
                b,
                n + 1,
                Seq::empty(),
                with_setting(environment, setting),
            );
        } else {
            lemma_environment_shifted(a, b, n + 1, setting.push(b[n]), environment);
        }
    }
}

proof fn lemma_environment_piece(a: Seq<u8>, i: int, environment: EnvironmentView)
    requires
        0 <= i <= a.len(),
        !a.contains(0u8),
    ensures
        environment_from(a, i, a.take(i), environment) == with_setting(environment, a),
    decreases a.len() - i,
{
    if i < a.len() {
        assert(a[i] != 0u8) by {
            if a[i] == 0u8 {
                assert(a.contains(0u8));
            }
        }
        assert(a.take(i).push(a[i]) =~= a.take(i + 1));
        lemma_environment_piece(a, i + 1, environment);
    } else {
        assert(a.take(i) =~= a);
    }
}

/// Settings end at zero bytes and are taken in one after the other, so that the last one
/// of a name counts.
pub proof fn settings_are_taken_in_one_by_one(
    a: Seq<u8>,
    b: Seq<u8>,
    environment: EnvironmentView,
)
    ensures
        environment_from(a + seq![0u8] + b, 0, Seq::empty(), environment) == environment_from(
            b,
            0,
            Seq::empty(),
            environment_from(a, 0, Seq::empty(), environment),
        ),
        !a.contains(0u8) ==> environment_from(a, 0, Seq::empty(), environment) == with_setting(
            environment,
            a,
        ),
{
    lemma_environment_split(a, b, 0, Seq::empty(), environment);
    if !a.contains(0u8) {
        assert(a.take(0) =~= Seq::empty());
        lemma_environment_piece(a, 0, environment);
    }
}

/// A unit is found exactly where it runs the installed binary and is configured for
/// HTTP; it is found with its process, its address and the version it reports.
pub proof fn http_units_of_the_binary_are_found(
    pid: u32,
    resolved: Option<Seq<char>>,
    executable: Seq<char>,
    arguments: Seq<Seq<char>>,
    environment: EnvironmentView,
    host: Seq<char>,
    port: u16,
    version: Option<Seq<char>>,
    unit: Seq<char>,
    error: UpgradeErrorView,
)
    ensures
        unit_after_executable(UnitView::Executable { pid }, resolved, executable) == (
        UnitView::Arguments { pid }) <==> resolved is Some && components(resolved->0, false)
            == components(executable, false),
        unit_after_environment(UnitView::Environment { pid, arguments }, Ok(environment))
            is Skipped <==> service_config(
            arguments,
            environment.transport,
            environment.host,
            environment.port,
        ) is None,
        service_config(arguments, environment.transport, environment.host, environment.port) == Some(
            (host, port as nat),
        ) ==> unit_after_environment(UnitView::Environment { pid, arguments }, Ok(environment)) == (
        UnitView::Probe { pid, host, port }),
        unit_after_environment(UnitView::Environment { pid, arguments }, Err(error))
            == UnitView::Failed(error),
        unit_after_probe(UnitView::Probe { pid, host, port }, version, unit, executable) matches
            UnitView::Found(target) && target.owner == ServiceOwner::SystemdUser && target.id == unit
            && target.previous_pid == Some(pid) && target.host == host && target.port == port
            && target.observed_version == version && target.executable == executable,
{
}

/// A restart goes from the running process over its program to the restart itself, and
/// only a unit that is running, with the same program, is restarted.
pub proof fn units_are_restarted_while_they_run(
    target: TargetView,
    active: u32,
    success: bool,
    stdout: Seq<u8>,
    stderr: Seq<u8>,
    resolved: Option<Seq<char>>,
    now: u64,
)
    requires
        now + 15_000 <= u64::MAX,
    ensures
        ({
            let next = unit_step(
                UnitRestartView::ShowBefore,
                target.id,
                Ok((success, stdout, stderr)),
                now,
            );
            match shown_pid(success, stdout) {
                Some(pid) => next == (UnitRestartView::InspectBefore { active: pid as u32 }),
                None => next is Failed,
            }
        }),
        ({
            let next = unit_after_inspection(
                UnitRestartView::InspectBefore { active },
                target,
                Ok(resolved),
            );
            if resolved is Some && components(resolved->0, false) == components(
                target.executable,
                false,
            ) {
                next == (UnitRestartView::Restart { active })
            } else {
                next is Failed
            }
        }),
        ({
            let next = unit_step(
                UnitRestartView::Restart { active },
                target.id,
                Ok((success, stdout, stderr)),
                now,
            );
            if success {
                next == (UnitRestartView::ShowAfter {
                    active,
                    deadline: (now + 15_000) as u64,
                    again: false,
                })
            } else {
                next is Failed
            }
        }),
        unit_command(UnitRestartView::Restart { active }, target.id) matches Some(command)
            && command.program == "systemctl"@ && command.args == seq![
            "--user"@,
            "restart"@,
            target.id,
        ],
{
}

/// A restarted unit is waited for until it has a new process or its time is over; the new
/// process has to be active, run the same program and be configured for HTTP, and then
/// its version is waited for.
pub proof fn restarted_units_are_waited_for(
    target: TargetView,
    active: u32,
    pid: u32,
    deadline: u64,
    again: bool,
    success: bool,
    stdout: Seq<u8>,
    stderr: Seq<u8>,
    resolved: Option<Seq<char>>,
    arguments: Seq<Seq<char>>,
    environment: EnvironmentView,
    version: Seq<char>,
    now: u64,
)
    requires
        now + 15_000 <= u64::MAX,
    ensures
        ({
            let next = unit_step(
                UnitRestartView::ShowAfter { active, deadline, again },
                target.id,
                Ok((success, stdout, stderr)),
                now,
            );
            let shown = shown_pid(success, stdout);
            &&& shown is Some && shown->0 != active ==> next == (UnitRestartView::CheckActive {
                pid: shown->0 as u32,
            })
            &&& shown is None || shown->0 == active ==> if now >= deadline {
                next is Failed
            } else {
                next == (UnitRestartView::ShowAfter { active, deadline, again: true })
            }
        }),
        unit_step(
            UnitRestartView::CheckActive { pid },
            target.id,
            Ok((success, stdout, stderr)),
            now,
        ) == (UnitRestartView::InspectAfter { pid }) <==> success,
        unit_after_inspection(UnitRestartView::InspectAfter { pid }, target, Ok(resolved)) == (
        UnitRestartView::Arguments { pid }) <==> resolved is Some && components(resolved->0, false)
            == components(target.executable, false),
        service_config(arguments, environment.transport, environment.host, environment.port) matches
            Some(address) ==> unit_after_variables(
            UnitRestartView::Environment { pid, arguments },
            target.id,
            version,
            Ok(environment),
            now,
        ) == (UnitRestartView::AwaitVersion {
            host: address.0,
            port: address.1 as u16,
            expected: version,
            deadline: (now + 15_000) as u64,
            again: false,
        }),
        service_config(arguments, environment.transport, environment.host, environment.port) is None
            ==> unit_after_variables(
            UnitRestartView::Environment { pid, arguments },
            target.id,
            version,
            Ok(environment),
            now,
        ) is Failed,
{
}

/// A restart succeeds exactly where the expected version is seen, and fails only after
/// its time is over; until then it is asked again.
pub proof fn unit_versions_are_waited_for(
    host: Seq<char>,
    port: u16,
    expected: Seq<char>,
    deadline: u64,
    again: bool,
    probe: Result<Seq<char>, UpgradeErrorView>,
    now: u64,
)
    ensures
        ({
            let next = unit_after_health(
                UnitRestartView::AwaitVersion { host, port, expected, deadline, again },
                probe,
                now,
            );
            let seen = probe matches Ok(version) && version == expected;
            &&& next == UnitRestartView::Finished(expected) <==> seen
            &&& next is Failed <==> !seen && now >= deadline
            &&& next is AwaitVersion ==> next->AwaitVersion_deadline == deadline
                && next->AwaitVersion_expected == expected
        }),
{
}

} // verus!
