//! User agents of launchd that serve HTTP with the installed binary: finding and
//! restarting them.

use crate::number::{
    decimal, fault_words, number_complaint, number_fault, number_of, number_or_fault, parse_number,
    to_decimal,
};
use crate::path::{components, extension, extension_of, is_absolute, same_path};
use crate::text::{
    cat2, cat3, cat4, cat5, chars_of, lines, lossy_text, text_of, opt_text, same, split_lines,
    split_words, texts, trim, trimmed, words,
};
use crate::upgrade::{
    http_service_config, service_config, upgrade_error_text, ActivationResult, ActivationView,
    CommandOutput, ServiceOwner, ServiceTarget, TargetView, UpgradeError, UpgradeErrorView,
};
use crate::upgrade::commands::{
    activation_deadline, borrowed, command1, command2, command3, command_failure, command_text,
    command_words, deadline_after, manager_error, opt_command, output_view, CommandLine,
    CommandView,
};
use crate::upgrade::health::{
    health_timeout, probed, wait_for_version, HealthObservation, HealthWait,
};
use crate::upgrade::processes::{
    is_executable, listed_paths, lists_executable, lsof_text_matches, resolved_views,
    runs_executable,
};
use vstd::prelude::*;

verus! {

/// How many arguments of an agent are read at most.
pub const MAX_ARGUMENTS: usize = 64;

/// The running job in a line of `launchctl list`: its label and process.
pub open spec fn job_of(line: Seq<char>) -> Option<(Seq<char>, nat)> {
    let fields = words(line);
    if fields.len() >= 3 {
        match number_of(fields[0], u32::MAX as nat) {
            Some(pid) => Some((fields[2], pid)),
            None => None,
        }
    } else {
        None
    }
}

/// The running jobs in the lines of `launchctl list`.
pub open spec fn jobs_of(list: Seq<Seq<char>>) -> Seq<(Seq<char>, nat)>
    decreases list.len(),
{
    if list.len() == 0 {
        Seq::empty()
    } else {
        let rest = jobs_of(list.drop_last());
        match job_of(list.last()) {
            Some(job) => rest.push(job),
            None => rest,
        }
    }
}

/// Jobs as mathematical values.
pub open spec fn job_views(list: Seq<(String, u32)>) -> Seq<(Seq<char>, nat)> {
    list.map_values(|job: (String, u32)| (job.0@, job.1 as nat))
}

fn parse_job(line: &str) -> (job: Option<(String, u32)>)
    ensures
        match job {
            Some((label, pid)) => job_of(line@) == Some((label@, pid as nat)),
            None => job_of(line@) is None,
        },
{
    let fields = split_words(line);
    assert(texts(fields@).len() == fields@.len());
    if fields.len() < 3 {
        return None;
    }
    assert(texts(fields@)[0] == fields@[0]@);
    assert(texts(fields@)[2] == fields@[2]@);
    match parse_number(fields[0].as_str(), u32::MAX as u64) {
        Some(pid) => Some((fields[2].clone(), pid as u32)),
        None => None,
    }
}

/// The running jobs that `launchctl list` names.
pub fn parse_launchctl_list(raw: &str) -> (jobs: Vec<(String, u32)>)
    ensures
        job_views(jobs@) == jobs_of(lines(raw@)),
{
    let all_lines = split_lines(raw);
    let ghost all = lines(raw@);
    let mut jobs: Vec<(String, u32)> = Vec::new();
    let mut i: usize = 0;
    assert(all.take(0) =~= Seq::empty());
    assert(job_views(jobs@) =~= Seq::empty());
    while i < all_lines.len()
        invariant
            i <= all_lines@.len(),
            all == texts(all_lines@),
            job_views(jobs@) == jobs_of(all.take(i as int)),
        decreases all_lines@.len() - i,
    {
        let ghost before_jobs = jobs@;
        assert(all.take(i + 1).drop_last() =~= all.take(i as int));
        assert(all.take(i + 1).last() == all_lines@[i as int]@);
        match parse_job(all_lines[i].as_str()) {
            Some((label, pid)) => {
                let ghost view = (label@, pid as nat);
                jobs.push((label, pid));
                assert(job_views(jobs@) =~= job_views(before_jobs).push(view));
            },
            None => {},
        }
        i += 1;
    }
    assert(all.take(i as int) =~= all);
    jobs
}

/// The process of the first job with a label.
pub open spec fn pid_of(jobs: Seq<(Seq<char>, nat)>, label: Seq<char>) -> Option<nat>
    decreases jobs.len(),
{
    if jobs.len() == 0 {
        None
    } else if jobs[0].0 == label {
        Some(jobs[0].1)
    } else {
        pid_of(jobs.drop_first(), label)
    }
}

fn find_pid(jobs: &Vec<(String, u32)>, label: &str) -> (pid: Option<u32>)
    ensures
        match pid {
            Some(number) => pid_of(job_views(jobs@), label@) == Some(number as nat),
            None => pid_of(job_views(jobs@), label@) is None,
        },
{
    let ghost all = job_views(jobs@);
    let mut i: usize = 0;
    assert(all.skip(0) =~= all);
    while i < jobs.len()
        invariant
            i <= jobs@.len(),
            all == job_views(jobs@),
            pid_of(all, label@) == pid_of(all.skip(i as int), label@),
        decreases jobs@.len() - i,
    {
        assert(all.skip(i as int)[0] == (jobs@[i as int].0@, jobs@[i as int].1 as nat));
        assert(all.skip(i as int).drop_first() =~= all.skip(i + 1));
        if same(jobs[i].0.as_str(), label) {
            return Some(jobs[i].1);
        }
        i += 1;
    }
    None
}

/// The running jobs, from the output of `launchctl list`.
pub fn running_agents(output: &CommandOutput) -> (result: Result<Vec<(String, u32)>, UpgradeError>)
    ensures
        match result {
            Ok(jobs) => output.success && job_views(jobs@) == jobs_of(lines(text_of(output.stdout@))),
            Err(error) => !output.success && error@ == manager_error(
                "launchctl list"@,
                output.stderr@,
            ),
        },
{
    if !output.success {
        return Err(command_failure("launchctl list", output.stderr.as_slice()));
    }
    let text = lossy_text(output.stdout.as_slice());
    Ok(parse_launchctl_list(text.as_str()))
}

/// A value of a definition file, from the output of the command that prints it:
/// a failed command and an empty value count as missing.
pub open spec fn printed_value(output: Option<(bool, Seq<u8>)>) -> Option<Seq<char>> {
    match output {
        Some((success, stdout)) => {
            let value = trimmed(text_of(stdout));
            if success && value.len() > 0 {
                Some(value)
            } else {
                None
            }
        },
        None => None,
    }
}

/// A value of a definition file, from the output of the command that prints it.
pub fn plist_value(output: &Result<CommandOutput, UpgradeError>) -> (value: Option<String>)
    ensures
        opt_text(value) == printed_value(
            match output {
                Ok(done) => Some((done.success, done.stdout@)),
                Err(_) => None,
            },
        ),
{
    match output {
        Err(_) => None,
        Ok(done) => {
            if !done.success {
                return None;
            }
            let text = lossy_text(done.stdout.as_slice());
            let value = trim(text.as_str());
            if value.as_str().unicode_len() == 0 {
                None
            } else {
                Some(value)
            }
        },
    }
}

/// The command that prints a value of a definition file.
pub open spec fn print_command(path: Seq<char>, key: Seq<char>) -> CommandView {
    CommandView {
        program: "/usr/libexec/PlistBuddy"@,
        args: seq!["-c"@, "Print "@ + key, path],
    }
}

/// The command that prints a value of a definition file.
pub fn plist_command(path: &str, key: &str) -> (command: CommandLine)
    ensures
        command@ == print_command(path@, key@),
{
    let print = cat2("Print ", key);
    command3("/usr/libexec/PlistBuddy", "-c", print.as_str(), path)
}

/// Whether a file of the agents' directory is a definition.
pub fn is_agent_file(path: &str) -> (agent: bool)
    ensures
        agent == (extension_of(path@, false) == Some("plist"@)),
{
    match extension(path, false) {
        Some(ext) => same(ext.as_str(), "plist"),
        None => false,
    }
}

/// The command that lists the program of a process.
pub open spec fn inspect_command(pid: u32) -> CommandView {
    CommandView {
        program: "lsof"@,
        args: seq!["-a"@, "-p"@, decimal(pid as nat), "-d"@, "txt"@, "-Fn"@],
    }
}

/// The command that lists the program of a process.
pub fn lsof_command(pid: u32) -> (command: CommandLine)
    ensures
        command@ == inspect_command(pid),
{
    let number = to_decimal(pid as u64);
    let mut args: Vec<String> = Vec::new();
    args.push("-a".to_owned());
    args.push("-p".to_owned());
    args.push(number);
    args.push("-d".to_owned());
    args.push("txt".to_owned());
    args.push("-Fn".to_owned());
    assert(texts(args@) =~= seq![
        "-a"@,
        "-p"@,
        decimal(pid as nat),
        "-d"@,
        "txt"@,
        "-Fn"@,
    ]);
    CommandLine { program: "lsof".to_owned(), args }
}

/// What the inspection of a process says: whether it runs the expected program,
/// or the error of the inspection.
pub open spec fn inspection(
    output: Result<(bool, Seq<u8>, Seq<u8>), UpgradeErrorView>,
    resolved: Seq<Option<Seq<char>>>,
    expected: Seq<char>,
) -> Result<bool, UpgradeErrorView> {
    match output {
        Err(error) => Err(error),
        Ok((success, stdout, stderr)) => if !success {
            Err(manager_error("lsof process executable inspection"@, stderr))
        } else {
            Ok(lists_executable(listed_paths(lines(text_of(stdout))), resolved, expected))
        },
    }
}

/// Whether a process runs the expected program.
pub fn process_matches(
    output: Result<CommandOutput, UpgradeError>,
    resolved: &Vec<Option<String>>,
    expected: &str,
) -> (result: Result<bool, UpgradeError>)
    ensures
        match result {
            Ok(matches) => inspection(output_view(output), resolved_views(resolved@), expected@)
                == Ok::<bool, UpgradeErrorView>(matches),
            Err(error) => inspection(output_view(output), resolved_views(resolved@), expected@)
                == Err::<bool, UpgradeErrorView>(error@),
        },
{
    match output {
        Err(error) => Err(error),
        Ok(done) => if !done.success {
            Err(command_failure("lsof process executable inspection", done.stderr.as_slice()))
        } else {
            Ok(lsof_text_matches(done.stdout.as_slice(), expected, resolved))
        },
    }
}

/// What is known of an agent while its definition is read.
#[derive(Debug, PartialEq, Eq)]
pub struct AgentFacts {
    pub label: String,
    pub pid: u32,
    pub arguments: Vec<String>,
}

/// What is known of an agent, as mathematical values.
#[verifier::ext_equal]
pub struct FactsView {
    pub label: Seq<char>,
    pub pid: u32,
    pub arguments: Seq<Seq<char>>,
}

impl View for AgentFacts {
    type V = FactsView;

    open spec fn view(&self) -> FactsView {
        FactsView { label: self.label@, pid: self.pid, arguments: texts(self.arguments@) }
    }
}

/// The inspection of one agent definition: what to look at next.
#[derive(Debug, PartialEq, Eq)]
pub enum AgentScan {
    /// Read the label.
    ReadLabel,
    /// Read the argument that follows the known ones.
    ReadArgument(AgentFacts),
    /// Read the program.
    ReadProgram(AgentFacts),
    /// Resolve the path of the program.
    Resolve(AgentFacts, String),
    /// Look at the program of the running process.
    Inspect(AgentFacts, String),
    /// Read the transport variable.
    ReadTransport(AgentFacts),
    /// Read the host variable.
    ReadHost(AgentFacts, Option<String>),
    /// Read the port variable.
    ReadPort(AgentFacts, Option<String>, Option<String>),
    /// Ask the service for its version.
    Probe { label: String, pid: u32, host: String, port: u16 },
    /// The definition is not one of a running service of the installed binary.
    Skipped,
    /// The service.
    Found(ServiceTarget),
    /// The inspection failed.
    Failed(UpgradeError),
}

/// The inspection of an agent definition, as mathematical values.
pub enum ScanView {
    ReadLabel,
    ReadArgument(FactsView),
    ReadProgram(FactsView),
    Resolve(FactsView, Seq<char>),
    Inspect(FactsView, Seq<char>),
    ReadTransport(FactsView),
    ReadHost(FactsView, Option<Seq<char>>),
    ReadPort(FactsView, Option<Seq<char>>, Option<Seq<char>>),
    Probe { label: Seq<char>, pid: u32, host: Seq<char>, port: u16 },
    Skipped,
    Found(TargetView),
    Failed(UpgradeErrorView),
}

impl View for AgentScan {
    type V = ScanView;

    open spec fn view(&self) -> ScanView {
        match self {
            AgentScan::ReadLabel => ScanView::ReadLabel,
            AgentScan::ReadArgument(facts) => ScanView::ReadArgument(facts@),
            AgentScan::ReadProgram(facts) => ScanView::ReadProgram(facts@),
            AgentScan::Resolve(facts, program) => ScanView::Resolve(facts@, program@),
            AgentScan::Inspect(facts, program) => ScanView::Inspect(facts@, program@),
            AgentScan::ReadTransport(facts) => ScanView::ReadTransport(facts@),
            AgentScan::ReadHost(facts, transport) => ScanView::ReadHost(
                facts@,
                opt_text(*transport),
            ),
            AgentScan::ReadPort(facts, transport, host) => ScanView::ReadPort(
                facts@,
                opt_text(*transport),
                opt_text(*host),
            ),
            AgentScan::Probe { label, pid, host, port } => ScanView::Probe {
                label: label@,
                pid: *pid,
                host: host@,
                port: *port,
            },
            AgentScan::Skipped => ScanView::Skipped,
            AgentScan::Found(target) => ScanView::Found(target@),
            AgentScan::Failed(error) => ScanView::Failed(error@),
        }
    }
}

/// The key of the definition to read next.
pub open spec fn scan_key(scan: ScanView) -> Option<Seq<char>> {
    match scan {
        ScanView::ReadLabel => Some(":Label"@),
        ScanView::ReadArgument(facts) => Some(
            ":ProgramArguments:"@ + decimal(facts.arguments.len()),
        ),
        ScanView::ReadProgram(_) => Some(":Program"@),
        ScanView::ReadTransport(_) => Some(":EnvironmentVariables:OBSIDIAN_TRANSPORT"@),
        ScanView::ReadHost(_, _) => Some(":EnvironmentVariables:OBSIDIAN_HTTP_HOST"@),
        ScanView::ReadPort(_, _, _) => Some(":EnvironmentVariables:OBSIDIAN_HTTP_PORT"@),
        _ => None,
    }
}

/// After the label was read: an agent without a running process is skipped.
pub open spec fn after_label(value: Option<Seq<char>>, jobs: Seq<(Seq<char>, nat)>) -> ScanView {
    match value {
        None => ScanView::Skipped,
        Some(label) => match pid_of(jobs, label) {
            None => ScanView::Skipped,
            Some(pid) => ScanView::ReadArgument(
                FactsView { label, pid: pid as u32, arguments: Seq::empty() },
            ),
        },
    }
}

/// After an argument was read: the first missing one ends the list.
pub open spec fn after_argument(facts: FactsView, value: Option<Seq<char>>) -> ScanView {
    match value {
        None => ScanView::ReadProgram(facts),
        Some(argument) => {
            let more = FactsView { arguments: facts.arguments.push(argument), ..facts };
            if more.arguments.len() >= MAX_ARGUMENTS {
                ScanView::ReadProgram(more)
            } else {
                ScanView::ReadArgument(more)
            }
        },
    }
}

/// After the program was read: without one the first argument counts; it has to
/// be an absolute path.
pub open spec fn after_program(facts: FactsView, value: Option<Seq<char>>) -> ScanView {
    let program = if value is Some {
        value
    } else if facts.arguments.len() > 0 {
        Some(facts.arguments[0])
    } else {
        None
    };
    match program {
        None => ScanView::Skipped,
        Some(path) => if is_absolute(path, false) {
            ScanView::Resolve(facts, path)
        } else {
            ScanView::Skipped
        },
    }
}

/// After all variables were read: a service without HTTP is skipped.
pub open spec fn after_port(
    facts: FactsView,
    transport: Option<Seq<char>>,
    host: Option<Seq<char>>,
    port: Option<Seq<char>>,
) -> ScanView {
    match service_config(facts.arguments, transport, host, port) {
        None => ScanView::Skipped,
        Some((address, number)) => ScanView::Probe {
            label: facts.label,
            pid: facts.pid,
            host: address,
            port: number as u16,
        },
    }
}

/// After a value of the definition was read.
pub open spec fn after_value(
    scan: ScanView,
    value: Option<Seq<char>>,
    jobs: Seq<(Seq<char>, nat)>,
) -> ScanView {
    match scan {
        ScanView::ReadLabel => after_label(value, jobs),
        ScanView::ReadArgument(facts) => after_argument(facts, value),
        ScanView::ReadProgram(facts) => after_program(facts, value),
        ScanView::ReadTransport(facts) => ScanView::ReadHost(facts, value),
        ScanView::ReadHost(facts, transport) => ScanView::ReadPort(facts, transport, value),
        ScanView::ReadPort(facts, transport, host) => after_port(facts, transport, host, value),
        _ => scan,
    }
}

/// After the program was resolved: another program than the installed one is
/// skipped.
pub open spec fn after_resolve(
    scan: ScanView,
    resolved: Option<Seq<char>>,
    executable: Seq<char>,
) -> ScanView {
    match scan {
        ScanView::Resolve(facts, program) => if is_executable(resolved, executable) {
            ScanView::Inspect(facts, program)
        } else {
            ScanView::Skipped
        },
        _ => scan,
    }
}

/// The arguments without a first one that is the program itself.
pub open spec fn without_program(arguments: Seq<Seq<char>>, program: Seq<char>) -> Seq<Seq<char>> {
    if arguments.len() > 0 && components(arguments[0], false) == components(
        program,
        false,
    ) {
        arguments.skip(1)
    } else {
        arguments
    }
}

/// After the running process was inspected.
pub open spec fn after_inspection(scan: ScanView, result: Result<bool, UpgradeErrorView>) -> ScanView {
    match scan {
        ScanView::Inspect(facts, program) => match result {
            Err(error) => ScanView::Failed(error),
            Ok(false) => ScanView::Skipped,
            Ok(true) => ScanView::ReadTransport(
                FactsView { arguments: without_program(facts.arguments, program), ..facts },
            ),
        },
        _ => scan,
    }
}

/// After the service was asked for its version.
pub open spec fn after_probe(
    scan: ScanView,
    version: Option<Seq<char>>,
    definition: Seq<char>,
    executable: Seq<char>,
) -> ScanView {
    match scan {
        ScanView::Probe { label, pid, host, port } => ScanView::Found(
            TargetView {
                owner: ServiceOwner::Launchd,
                id: label,
                definition_path: Some(definition),
                executable,
                host,
                port,
                previous_pid: Some(pid),
                observed_version: version,
            },
        ),
        _ => scan,
    }
}

impl AgentScan {
    /// Starts the inspection of a definition.
    pub fn start() -> (scan: AgentScan)
        ensures
            scan@ == ScanView::ReadLabel,
    {
        AgentScan::ReadLabel
    }

    /// The key of the definition to read next.
    pub fn key(&self) -> (key: Option<String>)
        ensures
            opt_text(key) == scan_key(self@),
    {
        match self {
            AgentScan::ReadLabel => Some(":Label".to_owned()),
            AgentScan::ReadArgument(facts) => {
                let number = to_decimal(facts.arguments.len() as u64);
                assert(texts(facts.arguments@).len() == facts.arguments@.len());
                Some(cat2(":ProgramArguments:", number.as_str()))
            },
            AgentScan::ReadProgram(_) => Some(":Program".to_owned()),
            AgentScan::ReadTransport(_) => Some(
                ":EnvironmentVariables:OBSIDIAN_TRANSPORT".to_owned(),
            ),
            AgentScan::ReadHost(_, _) => Some(
                ":EnvironmentVariables:OBSIDIAN_HTTP_HOST".to_owned(),
            ),
            AgentScan::ReadPort(_, _, _) => Some(
                ":EnvironmentVariables:OBSIDIAN_HTTP_PORT".to_owned(),
            ),
            _ => None,
        }
    }

    /// Goes on after a value of the definition was read.
    pub fn value_read(self, value: Option<String>, jobs: &Vec<(String, u32)>) -> (next: AgentScan)
        ensures
            next@ == after_value(self@, opt_text(value), job_views(jobs@)),
    {
        match self {
            AgentScan::ReadLabel => match value {
                None => AgentScan::Skipped,
                Some(label) => match find_pid(jobs, label.as_str()) {
                    None => AgentScan::Skipped,
                    Some(pid) => {
                        let arguments: Vec<String> = Vec::new();
                        assert(texts(arguments@) =~= Seq::empty());
                        AgentScan::ReadArgument(AgentFacts { label, pid, arguments })
                    },
                },
            },
            AgentScan::ReadArgument(facts) => match value {
                None => AgentScan::ReadProgram(facts),
                Some(argument) => {
                    let mut more = facts;
                    let ghost first = texts(more.arguments@);
                    let ghost text = argument@;
                    more.arguments.push(argument);
                    assert(texts(more.arguments@) =~= first.push(text));
                    if more.arguments.len() >= MAX_ARGUMENTS {
                        AgentScan::ReadProgram(more)
                    } else {
                        AgentScan::ReadArgument(more)
                    }
                },
            },
            AgentScan::ReadProgram(facts) => {
                assert(texts(facts.arguments@).len() == facts.arguments@.len());
                let program = match value {
                    Some(program) => program,
                    None => {
                        if facts.arguments.len() == 0 {
                            return AgentScan::Skipped;
                        }
                        assert(texts(facts.arguments@)[0] == facts.arguments@[0]@);
                        facts.arguments[0].clone()
                    },
                };
                let chars = chars_of(program.as_str());
                if chars.len() > 0 && chars[0] == '/' {
                    AgentScan::Resolve(facts, program)
                } else {
                    AgentScan::Skipped
                }
            },
            AgentScan::ReadTransport(facts) => AgentScan::ReadHost(facts, value),
            AgentScan::ReadHost(facts, transport) => AgentScan::ReadPort(facts, transport, value),
            AgentScan::ReadPort(facts, transport, host) => {
                let config = http_service_config(
                    facts.arguments.as_slice(),
                    borrowed(&transport),
                    borrowed(&host),
                    borrowed(&value),
                );
                match config {
                    None => AgentScan::Skipped,
                    Some((address, port)) => AgentScan::Probe {
                        label: facts.label,
                        pid: facts.pid,
                        host: address,
                        port,
                    },
                }
            },
            other => other,
        }
    }

    /// Goes on after the program's path was resolved, where it could be.
    pub fn resolved(self, path: Option<String>, executable: &str) -> (next: AgentScan)
        ensures
            next@ == after_resolve(self@, opt_text(path), executable@),
    {
        match self {
            AgentScan::Resolve(facts, program) => if runs_executable(&path, executable) {
                AgentScan::Inspect(facts, program)
            } else {
                AgentScan::Skipped
            },
            other => other,
        }
    }

    /// Goes on after the running process was inspected.
    pub fn inspected(self, result: Result<bool, UpgradeError>) -> (next: AgentScan)
        ensures
            next@ == after_inspection(
                self@,
                match result {
                    Ok(matches) => Ok(matches),
                    Err(error) => Err(error@),
                },
            ),
    {
        match self {
            AgentScan::Inspect(facts, program) => match result {
                Err(error) => AgentScan::Failed(error),
                Ok(matches) => if !matches {
                    AgentScan::Skipped
                } else {
                    let mut known = facts;
                    let ghost first = texts(known.arguments@);
                    if known.arguments.len() > 0 {
                        assert(first[0] == known.arguments@[0]@);
                        if same_path(known.arguments[0].as_str(), program.as_str(), false) {
                            let _program = known.arguments.remove(0);
                            assert(texts(known.arguments@) =~= first.skip(1));
                        }
                    }
                    AgentScan::ReadTransport(known)
                },
            },
            other => other,
        }
    }

    /// Ends with the service, whose version was asked for.
    pub fn probed(self, version: Option<String>, definition: &str, executable: &str) -> (next:
        AgentScan)
        ensures
            next@ == after_probe(self@, opt_text(version), definition@, executable@),
    {
        match self {
            AgentScan::Probe { label, pid, host, port } => AgentScan::Found(
                ServiceTarget {
                    owner: ServiceOwner::Launchd,
                    id: label,
                    definition_path: Some(definition.to_owned()),
                    executable: executable.to_owned(),
                    host,
                    port,
                    previous_pid: Some(pid),
                    observed_version: version,
                },
            ),
            other => other,
        }
    }
}

/// Of the variables of a definition only the transport, the host and the port
/// are ever read.
pub proof fn only_allowed_variables_are_read(scan: ScanView)
    ensures
        scan_key(scan) matches Some(key) ==> {
            ||| scan is ReadLabel && key == ":Label"@
            ||| scan is ReadArgument && key == ":ProgramArguments:"@ + decimal(
                scan->ReadArgument_0.arguments.len(),
            )
            ||| scan is ReadProgram && key == ":Program"@
            ||| key == ":EnvironmentVariables:OBSIDIAN_TRANSPORT"@
            ||| key == ":EnvironmentVariables:OBSIDIAN_HTTP_HOST"@
            ||| key == ":EnvironmentVariables:OBSIDIAN_HTTP_PORT"@
        },
{
}

/// A definition without a running process is never a service to restart.
pub proof fn inactive_agents_are_skipped(label: Seq<char>, jobs: Seq<(Seq<char>, nat)>)
    requires
        pid_of(jobs, label) is None,
    ensures
        after_value(ScanView::ReadLabel, Some(label), jobs) == ScanView::Skipped,
{
}

/// The restart of an agent: what to do next.
#[derive(Debug, PartialEq, Eq)]
pub enum AgentRestart {
    /// Ask for the user's number.
    ReadUser,
    /// List the running jobs before the restart.
    ListBefore { user: u32 },
    /// Look at the program of the running process.
    InspectBefore { user: u32, active: u32 },
    /// Stop the agent.
    Stop { user: u32, active: u32 },
    /// Start it from the same definition.
    Start { user: u32, active: u32 },
    /// List the running jobs until there is a new process; `again` asks for a
    /// pause first.
    ListAfter { active: u32, deadline: u64, again: bool },
    /// Look at the program of the new process.
    InspectAfter { restarted: u32 },
    /// Ask the service for its version until it is the expected one; `again` asks
    /// for a pause first.
    AwaitVersion { expected: String, deadline: u64, again: bool },
    /// The service reports this version.
    Finished(String),
    /// The restart failed.
    Failed(UpgradeError),
}

/// The restart of an agent, as mathematical values.
pub enum RestartView {
    ReadUser,
    ListBefore { user: u32 },
    InspectBefore { user: u32, active: u32 },
    Stop { user: u32, active: u32 },
    Start { user: u32, active: u32 },
    ListAfter { active: u32, deadline: u64, again: bool },
    InspectAfter { restarted: u32 },
    AwaitVersion { expected: Seq<char>, deadline: u64, again: bool },
    Finished(Seq<char>),
    Failed(UpgradeErrorView),
}

impl View for AgentRestart {
    type V = RestartView;

    open spec fn view(&self) -> RestartView {
        match self {
            AgentRestart::ReadUser => RestartView::ReadUser,
            AgentRestart::ListBefore { user } => RestartView::ListBefore { user: *user },
            AgentRestart::InspectBefore { user, active } => RestartView::InspectBefore {
                user: *user,
                active: *active,
            },
            AgentRestart::Stop { user, active } => RestartView::Stop {
                user: *user,
                active: *active,
            },
            AgentRestart::Start { user, active } => RestartView::Start {
                user: *user,
                active: *active,
            },
            AgentRestart::ListAfter { active, deadline, again } => RestartView::ListAfter {
                active: *active,
                deadline: *deadline,
                again: *again,
            },
            AgentRestart::InspectAfter { restarted } => RestartView::InspectAfter {
                restarted: *restarted,
            },
            AgentRestart::AwaitVersion { expected, deadline, again } => RestartView::AwaitVersion {
                expected: expected@,
                deadline: *deadline,
                again: *again,
            },
            AgentRestart::Finished(version) => RestartView::Finished(version@),
            AgentRestart::Failed(error) => RestartView::Failed(error@),
        }
    }
}

/// How launchd names an agent of a user.
pub open spec fn agent_service(user: u32, id: Seq<char>) -> Seq<char> {
    "gui/"@ + decimal(user as nat) + "/"@ + id
}

/// How launchd names the domain of a user.
pub open spec fn agent_domain(user: u32) -> Seq<char> {
    "gui/"@ + decimal(user as nat)
}

/// The command of a step.
pub open spec fn restart_command(restart: RestartView, target: TargetView) -> Option<CommandView> {
    match restart {
        RestartView::ReadUser => Some(CommandView { program: "id"@, args: seq!["-u"@] }),
        RestartView::ListBefore { .. } => Some(
            CommandView { program: "launchctl"@, args: seq!["list"@] },
        ),
        RestartView::InspectBefore { user, active } => Some(inspect_command(active)),
        RestartView::Stop { user, active } => Some(
            CommandView {
                program: "launchctl"@,
                args: seq!["bootout"@, agent_service(user, target.id)],
            },
        ),
        RestartView::Start { user, active } => match target.definition_path {
            Some(path) => Some(
                CommandView {
                    program: "launchctl"@,
                    args: seq!["bootstrap"@, agent_domain(user), path],
                },
            ),
            None => None,
        },
        RestartView::ListAfter { .. } => Some(
            CommandView { program: "launchctl"@, args: seq!["list"@] },
        ),
        RestartView::InspectAfter { restarted } => Some(inspect_command(restarted)),
        _ => None,
    }
}

/// The first step: an agent without a definition cannot be restarted.
pub open spec fn restart_start(target: TargetView) -> RestartView {
    match target.definition_path {
        Some(_) => RestartView::ReadUser,
        None => RestartView::Failed(
            UpgradeErrorView::Activation(
                "LaunchAgent '"@ + target.id + "' has no plist path"@,
            ),
        ),
    }
}

/// After the user's number was asked for.
pub open spec fn after_user(success: bool, stdout: Seq<u8>, stderr: Seq<u8>) -> RestartView {
    let text = trimmed(text_of(stdout));
    if !success {
        RestartView::Failed(manager_error("id -u"@, stderr))
    } else {
        match number_of(text, u32::MAX as nat) {
            Some(user) => RestartView::ListBefore { user: user as u32 },
            None => RestartView::Failed(
                UpgradeErrorView::Activation(
                    "invalid user id from 'id -u': "@ + fault_words(
                        number_fault(text, u32::MAX as nat)->0,
                    ),
                ),
            ),
        }
    }
}

/// After the running jobs were listed before the restart: an agent that is not
/// running is left inactive.
pub open spec fn after_first_list(
    user: u32,
    id: Seq<char>,
    success: bool,
    stdout: Seq<u8>,
    stderr: Seq<u8>,
) -> RestartView {
    if !success {
        RestartView::Failed(manager_error("launchctl list"@, stderr))
    } else {
        match pid_of(jobs_of(lines(text_of(stdout))), id) {
            Some(pid) => RestartView::InspectBefore { user, active: pid as u32 },
            None => RestartView::Failed(
                UpgradeErrorView::Activation(
                    "LaunchAgent '"@ + id
                        + "' became inactive before activation; it was left inactive"@,
                ),
            ),
        }
    }
}

/// After the running jobs were listed behind the restart: a new process is
/// waited for until the deadline.
pub open spec fn after_later_list(
    active: u32,
    deadline: u64,
    now: u64,
    id: Seq<char>,
    success: bool,
    stdout: Seq<u8>,
    stderr: Seq<u8>,
) -> RestartView {
    let pid = pid_of(jobs_of(lines(text_of(stdout))), id);
    if !success {
        RestartView::Failed(manager_error("launchctl list"@, stderr))
    } else if pid is Some && pid->0 != active {
        RestartView::InspectAfter { restarted: pid->0 as u32 }
    } else if now >= deadline {
        RestartView::Failed(
            UpgradeErrorView::Activation(
                "LaunchAgent '"@ + id + "' did not report a new running process"@,
            ),
        )
    } else {
        RestartView::ListAfter { active, deadline, again: true }
    }
}

/// After a command that has to succeed.
pub open spec fn after_checked(command: CommandView, success: bool, stderr: Seq<u8>, next: RestartView) -> RestartView {
    if success {
        next
    } else {
        RestartView::Failed(manager_error(command_words(command), stderr))
    }
}

/// After the command of a step ended at the time `now`. `resolved` holds what
/// the paths that it listed resolve to, where it inspected a process.
pub open spec fn restart_step(
    restart: RestartView,
    target: TargetView,
    expected: Seq<char>,
    output: Result<(bool, Seq<u8>, Seq<u8>), UpgradeErrorView>,
    resolved: Seq<Option<Seq<char>>>,
    now: u64,
) -> RestartView {
    match restart {
        RestartView::InspectBefore { user, active } => match inspection(
            output,
            resolved,
            target.executable,
        ) {
            Err(error) => RestartView::Failed(error),
            Ok(true) => RestartView::Stop { user, active },
            Ok(false) => RestartView::Failed(
                UpgradeErrorView::Activation(
                    "LaunchAgent '"@ + target.id + "' changed executable before activation"@,
                ),
            ),
        },
        RestartView::InspectAfter { restarted } => match inspection(
            output,
            resolved,
            target.executable,
        ) {
            Err(error) => RestartView::Failed(error),
            Ok(true) => RestartView::AwaitVersion {
                expected,
                deadline: deadline_after(now),
                again: false,
            },
            Ok(false) => RestartView::Failed(
                UpgradeErrorView::Activation(
                    "restarted LaunchAgent '"@ + target.id + "' no longer runs '"@
                        + target.executable + "'"@,
                ),
            ),
        },
        RestartView::AwaitVersion { .. } => restart,
        RestartView::Finished(_) => restart,
        RestartView::Failed(_) => restart,
        _ => match output {
            Err(error) => RestartView::Failed(error),
            Ok((success, stdout, stderr)) => match restart {
                RestartView::ReadUser => after_user(success, stdout, stderr),
                RestartView::ListBefore { user } => after_first_list(
                    user,
                    target.id,
                    success,
                    stdout,
                    stderr,
                ),
                RestartView::Stop { user, active } => after_checked(
                    restart_command(restart, target)->0,
                    success,
                    stderr,
                    RestartView::Start { user, active },
                ),
                RestartView::Start { user, active } => match restart_command(restart, target) {
                    Some(command) => after_checked(
                        command,
                        success,
                        stderr,
                        RestartView::ListAfter {
                            active,
                            deadline: deadline_after(now),
                            again: false,
                        },
                    ),
                    None => restart_start(target),
                },
                RestartView::ListAfter { active, deadline, again } => after_later_list(
                    active,
                    deadline,
                    now,
                    target.id,
                    success,
                    stdout,
                    stderr,
                ),
                _ => restart,
            },
        },
    }
}

/// After the service was asked for its version at the time `now`: only the expected
/// one ends the restart well.
pub open spec fn after_health(
    restart: RestartView,
    target: TargetView,
    probe: Result<Seq<char>, UpgradeErrorView>,
    now: u64,
) -> RestartView {
    match restart {
        RestartView::AwaitVersion { expected, deadline, again } => if probe == Ok::<
            Seq<char>,
            UpgradeErrorView,
        >(expected) {
            RestartView::Finished(expected)
        } else if now >= deadline {
            RestartView::Failed(health_timeout(probe, target.host, target.port, expected))
        } else {
            RestartView::AwaitVersion { expected, deadline, again: true }
        },
        _ => restart,
    }
}

impl AgentRestart {
    /// The first step of restarting an agent.
    pub fn start(target: &ServiceTarget) -> (restart: AgentRestart)
        ensures
            restart@ == restart_start(target@),
    {
        match &target.definition_path {
            Some(_) => AgentRestart::ReadUser,
            None => AgentRestart::Failed(
                UpgradeError::Activation(
                    cat3("LaunchAgent '", target.id.as_str(), "' has no plist path"),
                ),
            ),
        }
    }

    /// The command of this step.
    pub fn command(&self, target: &ServiceTarget) -> (command: Option<CommandLine>)
        ensures
            opt_command(command) == restart_command(self@, target@),
    {
        match self {
            AgentRestart::ReadUser => Some(command1("id", "-u")),
            AgentRestart::ListBefore { .. } => Some(command1("launchctl", "list")),
            AgentRestart::InspectBefore { user: _, active } => Some(lsof_command(*active)),
            AgentRestart::Stop { user, active: _ } => {
                let number = to_decimal(*user as u64);
                let service = cat4("gui/", number.as_str(), "/", target.id.as_str());
                Some(command2("launchctl", "bootout", service.as_str()))
            },
            AgentRestart::Start { user, active: _ } => match &target.definition_path {
                Some(path) => {
                    let number = to_decimal(*user as u64);
                    let domain = cat2("gui/", number.as_str());
                    Some(command3("launchctl", "bootstrap", domain.as_str(), path.as_str()))
                },
                None => None,
            },
            AgentRestart::ListAfter { .. } => Some(command1("launchctl", "list")),
            AgentRestart::InspectAfter { restarted } => Some(lsof_command(*restarted)),
            _ => None,
        }
    }

    /// Whether to wait a little before the command is run or the service is asked.
    pub fn pauses(&self) -> (pause: bool)
        ensures
            pause == match self@ {
                RestartView::ListAfter { again, .. } => again,
                RestartView::AwaitVersion { again, .. } => again,
                _ => false,
            },
    {
        match self {
            AgentRestart::ListAfter { active: _, deadline: _, again } => *again,
            AgentRestart::AwaitVersion { expected: _, deadline: _, again } => *again,
            _ => false,
        }
    }

    /// Goes on after the command of this step ended. `expected` is the version that
    /// the agent has to report in the end.
    pub fn command_ended(
        self,
        target: &ServiceTarget,
        expected: &str,
        output: Result<CommandOutput, UpgradeError>,
        resolved: &Vec<Option<String>>,
        now: u64,
    ) -> (next: AgentRestart)
        ensures
            next@ == restart_step(
                self@,
                target@,
                expected@,
                output_view(output),
                resolved_views(resolved@),
                now,
            ),
    {
        let command = self.command(target);
        match self {
            AgentRestart::InspectBefore { user, active } => {
                match process_matches(output, resolved, target.executable.as_str()) {
                    Err(error) => AgentRestart::Failed(error),
                    Ok(matches) => if matches {
                        AgentRestart::Stop { user, active }
                    } else {
                        AgentRestart::Failed(
                            UpgradeError::Activation(
                                cat3(
                                    "LaunchAgent '",
                                    target.id.as_str(),
                                    "' changed executable before activation",
                                ),
                            ),
                        )
                    },
                }
            },
            AgentRestart::InspectAfter { restarted: _ } => {
                match process_matches(output, resolved, target.executable.as_str()) {
                    Err(error) => AgentRestart::Failed(error),
                    Ok(matches) => if matches {
                        AgentRestart::AwaitVersion {
                            expected: expected.to_owned(),
                            deadline: activation_deadline(now),
                            again: false,
                        }
                    } else {
                        AgentRestart::Failed(
                            UpgradeError::Activation(
                                cat5(
                                    "restarted LaunchAgent '",
                                    target.id.as_str(),
                                    "' no longer runs '",
                                    target.executable.as_str(),
                                    "'",
                                ),
                            ),
                        )
                    },
                }
            },
            AgentRestart::AwaitVersion { expected, deadline, again } => AgentRestart::AwaitVersion {
                expected,
                deadline,
                again,
            },
            AgentRestart::Finished(version) => AgentRestart::Finished(version),
            AgentRestart::Failed(error) => AgentRestart::Failed(error),
            AgentRestart::ReadUser => match output {
                Err(error) => AgentRestart::Failed(error),
                Ok(done) => user_read(&done),
            },
            AgentRestart::ListBefore { user } => match output {
                Err(error) => AgentRestart::Failed(error),
                Ok(done) => match running_agents(&done) {
                    Err(error) => AgentRestart::Failed(error),
                    Ok(jobs) => match find_pid(&jobs, target.id.as_str()) {
                        Some(pid) => AgentRestart::InspectBefore { user, active: pid },
                        None => AgentRestart::Failed(
                            UpgradeError::Activation(
                                cat3(
                                    "LaunchAgent '",
                                    target.id.as_str(),
                                    "' became inactive before activation; it was left inactive",
                                ),
                            ),
                        ),
                    },
                },
            },
            AgentRestart::Stop { user, active } => match output {
                Err(error) => AgentRestart::Failed(error),
                Ok(done) => match checked(&command, &done) {
                    Some(error) => AgentRestart::Failed(error),
                    None => AgentRestart::Start { user, active },
                },
            },
            AgentRestart::Start { user: _, active } => match output {
                Err(error) => AgentRestart::Failed(error),
                Ok(done) => {
                    if command.is_none() {
                        return AgentRestart::start(target);
                    }
                    match checked(&command, &done) {
                        Some(error) => AgentRestart::Failed(error),
                        None => AgentRestart::ListAfter {
                            active,
                            deadline: activation_deadline(now),
                            again: false,
                        },
                    }
                },
            },
            AgentRestart::ListAfter { active, deadline, again: _ } => match output {
                Err(error) => AgentRestart::Failed(error),
                Ok(done) => match running_agents(&done) {
                    Err(error) => AgentRestart::Failed(error),
                    Ok(jobs) => {
                        match find_pid(&jobs, target.id.as_str()) {
                            Some(pid) => {
                                if pid != active {
                                    return AgentRestart::InspectAfter { restarted: pid };
                                }
                            },
                            None => {},
                        }
                        if now >= deadline {
                            AgentRestart::Failed(
                                UpgradeError::Activation(
                                    cat3(
                                        "LaunchAgent '",
                                        target.id.as_str(),
                                        "' did not report a new running process",
                                    ),
                                ),
                            )
                        } else {
                            AgentRestart::ListAfter { active, deadline, again: true }
                        }
                    },
                },
            },
        }
    }

    /// Goes on after the service was asked for its version.
    pub fn health_probed(
        self,
        target: &ServiceTarget,
        probe: Result<HealthObservation, UpgradeError>,
        now: u64,
    ) -> (next: AgentRestart)
        ensures
            next@ == after_health(self@, target@, probed(probe), now),
    {
        match self {
            AgentRestart::AwaitVersion { expected, deadline, again: _ } => match wait_for_version(
                probe,
                target.host.as_str(),
                target.port,
                expected.as_str(),
                now,
                deadline,
            ) {
                HealthWait::Ready(observation) => AgentRestart::Finished(observation.version),
                HealthWait::Failed(error) => AgentRestart::Failed(error),
                HealthWait::Again => AgentRestart::AwaitVersion { expected, deadline, again: true },
            },
            other => other,
        }
    }
}

fn user_read(done: &CommandOutput) -> (next: AgentRestart)
    ensures
        next@ == after_user(done.success, done.stdout@, done.stderr@),
{
    if !done.success {
        return AgentRestart::Failed(command_failure("id -u", done.stderr.as_slice()));
    }
    let stdout = lossy_text(done.stdout.as_slice());
    let text = trim(stdout.as_str());
    match parse_number(text.as_str(), u32::MAX as u64) {
        Some(user) => AgentRestart::ListBefore { user: user as u32 },
        None => {
            proof {
                number_or_fault(text@, u32::MAX as nat);
            }
            let complaint = match number_complaint(text.as_str(), u32::MAX as u64) {
                Some(words) => words,
                None => String::new(),
            };
            AgentRestart::Failed(
                UpgradeError::Activation(
                    cat2("invalid user id from 'id -u': ", complaint.as_str()),
                ),
            )
        },
    }
}

fn checked(command: &Option<CommandLine>, done: &CommandOutput) -> (fault: Option<UpgradeError>)
    requires
        command is Some,
    ensures
        match fault {
            Some(error) => !done.success && error@ == manager_error(
                command_words(opt_command(*command)->0),
                done.stderr@,
            ),
            None => done.success,
        },
{
    if done.success {
        return None;
    }
    match command {
        Some(line) => {
            let text = command_text(line);
            Some(command_failure(text.as_str(), done.stderr.as_slice()))
        },
        None => None,
    }
}

/// What became of an agent after its restart; `observed` is the version that it
/// reports where the restart failed.
pub fn restart_result(target: &ServiceTarget, restart: AgentRestart, observed: Option<String>) -> (
result: Option<ActivationResult>)
    ensures
        match restart@ {
            RestartView::Finished(version) => result matches Some(r) && r@ == (ActivationView {
                target_id: target@.id,
                success: true,
                observed_version: Some(version),
                diagnostic: "launchd agent restarted and passed exact health verification"@,
            }),
            RestartView::Failed(error) => result matches Some(r) && r@ == (ActivationView {
                target_id: target@.id,
                success: false,
                observed_version: opt_text(observed),
                diagnostic: upgrade_error_text(error),
            }),
            _ => result is None,
        },
{
    match restart {
        AgentRestart::Finished(version) => Some(
            ActivationResult {
                target_id: target.id.clone(),
                success: true,
                observed_version: Some(version),
                diagnostic: "launchd agent restarted and passed exact health verification".to_owned(),
            },
        ),
        AgentRestart::Failed(error) => Some(
            ActivationResult {
                target_id: target.id.clone(),
                success: false,
                observed_version: observed,
                diagnostic: error.message(),
            },
        ),
        _ => None,
    }
}

/// What becomes of an agent on another system than macOS.
pub fn unavailable(target: &ServiceTarget) -> (result: ActivationResult)
    ensures
        result@ == (ActivationView {
            target_id: target@.id,
            success: false,
            observed_version: None,
            diagnostic: "launchd activation is only available on macOS"@,
        }),
{
    ActivationResult {
        target_id: target.id.clone(),
        success: false,
        observed_version: None,
        diagnostic: "launchd activation is only available on macOS".to_owned(),
    }
}

/// An agent is stopped only right after its running process was found to run the
/// installed binary.
pub proof fn stop_follows_inspection(
    restart: RestartView,
    target: TargetView,
    expected: Seq<char>,
    output: Result<(bool, Seq<u8>, Seq<u8>), UpgradeErrorView>,
    resolved: Seq<Option<Seq<char>>>,
    now: u64,
)
    requires
        restart_step(restart, target, expected, output, resolved, now) is Stop,
    ensures
        restart is InspectBefore,
        inspection(output, resolved, target.executable) == Ok::<bool, UpgradeErrorView>(true),
{
}

/// An agent is started only right after it was stopped, so an inactive one is
/// never started.
pub proof fn start_follows_stop(
    restart: RestartView,
    target: TargetView,
    expected: Seq<char>,
    output: Result<(bool, Seq<u8>, Seq<u8>), UpgradeErrorView>,
    resolved: Seq<Option<Seq<char>>>,
    now: u64,
)
    requires
        restart_step(restart, target, expected, output, resolved, now) is Start,
    ensures
        restart is Stop,
        output matches Ok((success, _, _)) && success,
{
}

/// The version of a restarted agent is waited for only after a process other
/// than the stopped one was found to run the installed binary.
pub proof fn health_follows_a_new_process(
    listing: RestartView,
    target: TargetView,
    expected: Seq<char>,
    list_output: Result<(bool, Seq<u8>, Seq<u8>), UpgradeErrorView>,
    inspect_output: Result<(bool, Seq<u8>, Seq<u8>), UpgradeErrorView>,
    resolved: Seq<Option<Seq<char>>>,
    listed_at: u64,
    inspected_at: u64,
)
    requires
        listing is ListAfter,
        restart_step(listing, target, expected, list_output, resolved, listed_at) is InspectAfter,
        restart_step(
            restart_step(listing, target, expected, list_output, resolved, listed_at),
            target,
            expected,
            inspect_output,
            resolved,
            inspected_at,
        ) is AwaitVersion,
    ensures
        list_output matches Ok((_, stdout, _)) && pid_of(jobs_of(lines(text_of(stdout))), target.id)
            matches Some(pid) && pid != listing->ListAfter_active,
        inspection(inspect_output, resolved, target.executable) == Ok::<bool, UpgradeErrorView>(
            true,
        ),
{
}

/// Whether a restart waits for the expected version and ends well with no other.
pub open spec fn reports_only(restart: RestartView, version: Seq<char>) -> bool {
    match restart {
        RestartView::AwaitVersion { expected, .. } => expected == version,
        RestartView::Finished(reported) => reported == version,
        _ => true,
    }
}

/// A restarted agent has to report the exact version that is expected: no step ends
/// well with another, and none without the service having reported it.
pub proof fn agent_restart_reports_the_expected_version(
    restart: RestartView,
    target: TargetView,
    expected: Seq<char>,
    output: Result<(bool, Seq<u8>, Seq<u8>), UpgradeErrorView>,
    resolved: Seq<Option<Seq<char>>>,
    probe: Result<Seq<char>, UpgradeErrorView>,
    now: u64,
)
    requires
        reports_only(restart, expected),
    ensures
        reports_only(restart_start(target), expected),
        reports_only(restart_step(restart, target, expected, output, resolved, now), expected),
        reports_only(after_health(restart, target, probe, now), expected),
        !(restart is Finished) ==> !(restart_step(
            restart,
            target,
            expected,
            output,
            resolved,
            now,
        ) is Finished),
        !(restart is Finished) && after_health(restart, target, probe, now) is Finished ==> probe
            == Ok::<Seq<char>, UpgradeErrorView>(expected),
{
}

/// Jobs are read line by line: a line counts where it has three words and the first is
/// the number of a process; the third names the job.
pub proof fn jobs_are_read_line_by_line(list: Seq<Seq<char>>, line: Seq<char>)
    ensures
        jobs_of(Seq::<Seq<char>>::empty()).len() == 0,
        jobs_of(list.push(line)) == if words(line).len() >= 3 && number_of(words(line)[0], 0xffff_ffff)
            is Some {
            jobs_of(list).push((words(line)[2], number_of(words(line)[0], 0xffff_ffff)->0))
        } else {
            jobs_of(list)
        },
{
    assert(list.push(line).drop_last() =~= list);
}

/// The process of a job is that of the first line that names it.
pub proof fn the_first_job_of_a_name_counts(jobs: Seq<(Seq<char>, nat)>, label: Seq<char>)
    ensures
        pid_of(jobs, label) is None <==> forall|i: int|
            0 <= i < jobs.len() ==> (#[trigger] jobs[i]).0 != label,
        pid_of(jobs, label) matches Some(pid) ==> exists|i: int|
            0 <= i < jobs.len() && #[trigger] jobs[i] == (label, pid) && forall|k: int|
                0 <= k < i ==> (#[trigger] jobs[k]).0 != label,
    decreases jobs.len(),
{
    if jobs.len() > 0 {
        if jobs[0].0 == label {
            assert(jobs[0] == (label, jobs[0].1));
        } else {
            let rest = jobs.drop_first();
            the_first_job_of_a_name_counts(rest, label);
            assert forall|i: int| 1 <= i < jobs.len() implies #[trigger] jobs[i] == rest[i - 1] by {}
            if pid_of(rest, label) is Some {
                let pid = pid_of(rest, label)->0;
                let i = choose|i: int|
                    0 <= i < rest.len() && #[trigger] rest[i] == (label, pid) && forall|k: int|
                        0 <= k < i ==> (#[trigger] rest[k]).0 != label;
                assert(jobs[i + 1] == rest[i]);
                assert forall|k: int| 0 <= k < i + 1 implies (#[trigger] jobs[k]).0 != label by {
                    if k > 0 {
                        assert(jobs[k] == rest[k - 1]);
                    }
                }
            } else {
                assert forall|i: int| 0 <= i < jobs.len() implies (#[trigger] jobs[i]).0 != label by {
                    if i > 0 {
                        assert(jobs[i] == rest[i - 1]);
                    }
                }
            }
        }
    }
}

/// A value is printed where the command went well and printed more than white space.
pub proof fn blank_values_are_not_printed(success: bool, stdout: Seq<u8>)
    ensures
        printed_value(Some((success, stdout))) is Some <==> success && trimmed(text_of(stdout)).len() > 0,
        printed_value(Some((success, stdout))) matches Some(value) ==> value == trimmed(
            text_of(stdout),
        ),
        printed_value(None) is None,
{
}

/// An inspection says whether one of the program's files is the expected one, and fails
/// where it could not be made.
pub proof fn inspections_look_for_the_program(
    output: Result<(bool, Seq<u8>, Seq<u8>), UpgradeErrorView>,
    resolved: Seq<Option<Seq<char>>>,
    expected: Seq<char>,
)
    ensures
        inspection(output, resolved, expected) is Err <==> output is Err || !output->Ok_0.0,
        output matches Ok(done) ==> (done.0 ==> inspection(output, resolved, expected) == Ok::<
            bool,
            UpgradeErrorView,
        >(lists_executable(listed_paths(lines(text_of(done.1))), resolved, expected))),
{
}

/// An agent is looked at where its definition names it and its job is running; its
/// arguments are read in order, at most 64 of them, and its program is the named one or
/// else its first argument, which has to be an absolute path.
pub proof fn running_agents_are_looked_at(
    label: Seq<char>,
    jobs: Seq<(Seq<char>, nat)>,
    facts: FactsView,
    argument: Seq<char>,
    value: Option<Seq<char>>,
)
    ensures
        after_value(ScanView::ReadLabel, None, jobs) is Skipped,
        pid_of(jobs, label) matches Some(pid) ==> (after_value(ScanView::ReadLabel, Some(label), jobs)
            matches ScanView::ReadArgument(begun) && begun.label == label && begun.pid == pid as u32
            && begun.arguments.len() == 0),
        after_value(ScanView::ReadArgument(facts), None, jobs) == ScanView::ReadProgram(facts),
        facts.arguments.len() + 1 < 64 ==> after_value(
            ScanView::ReadArgument(facts),
            Some(argument),
            jobs,
        ) == ScanView::ReadArgument(
            FactsView {
                label: facts.label,
                pid: facts.pid,
                arguments: facts.arguments.push(argument),
            },
        ),
        facts.arguments.len() + 1 >= 64 ==> after_value(
            ScanView::ReadArgument(facts),
            Some(argument),
            jobs,
        ) is ReadProgram,
        ({
            let next = after_value(ScanView::ReadProgram(facts), value, jobs);
            let program = if value is Some {
                value
            } else if facts.arguments.len() > 0 {
                Some(facts.arguments[0])
            } else {
                None
            };
            if program is Some && is_absolute(program->0, false) {
                next == ScanView::Resolve(facts, program->0)
            } else {
                next is Skipped
            }
        }),
{
}

/// An agent is found exactly where its program and its process are the installed binary
/// and it is configured for HTTP; its own program is not one of its arguments. It is
/// found with its process, its address and the version it reports.
pub proof fn http_agents_of_the_binary_are_found(
    facts: FactsView,
    program: Seq<char>,
    resolved: Option<Seq<char>>,
    executable: Seq<char>,
    transport: Option<Seq<char>>,
    host: Option<Seq<char>>,
    value: Option<Seq<char>>,
    jobs: Seq<(Seq<char>, nat)>,
    address: Seq<char>,
    port: u16,
    version: Option<Seq<char>>,
    definition: Seq<char>,
    error: UpgradeErrorView,
)
    ensures
        after_resolve(ScanView::Resolve(facts, program), resolved, executable) == ScanView::Inspect(
            facts,
            program,
        ) <==> resolved is Some && components(resolved->0, false) == components(executable, false),
        after_inspection(ScanView::Inspect(facts, program), Ok(false)) is Skipped,
        after_inspection(ScanView::Inspect(facts, program), Err(error)) == ScanView::Failed(error),
        after_inspection(ScanView::Inspect(facts, program), Ok(true)) matches ScanView::ReadTransport(kept)
            && kept.label == facts.label && kept.pid == facts.pid && kept.arguments == if facts.arguments.len()
            > 0 && components(facts.arguments[0], false) == components(program, false) {
            facts.arguments.skip(1)
        } else {
            facts.arguments
        },
        after_value(ScanView::ReadTransport(facts), value, jobs) == ScanView::ReadHost(facts, value),
        after_value(ScanView::ReadHost(facts, transport), value, jobs) == ScanView::ReadPort(
            facts,
            transport,
            value,
        ),
        after_value(ScanView::ReadPort(facts, transport, host), value, jobs) is Skipped
            <==> service_config(facts.arguments, transport, host, value) is None,
        service_config(facts.arguments, transport, host, value) == Some((address, port as nat))
            ==> after_value(ScanView::ReadPort(facts, transport, host), value, jobs) == (
        ScanView::Probe { label: facts.label, pid: facts.pid, host: address, port }),
        after_probe(
            ScanView::Probe { label: facts.label, pid: facts.pid, host: address, port },
            version,
            definition,
            executable,
        ) matches ScanView::Found(target) && target.owner == ServiceOwner::Launchd && target.id
            == facts.label && target.definition_path == Some(definition) && target.previous_pid == Some(
            facts.pid,
        ) && target.host == address && target.port == port && target.observed_version == version
            && target.executable == executable,
{
}

/// An agent is restarted only where it has a definition and is running with the same
/// program: then it is stopped, started from its definition, and waited for.
pub proof fn agents_are_restarted_while_they_run(
    target: TargetView,
    expected: Seq<char>,
    user: u32,
    active: u32,
    success: bool,
    stdout: Seq<u8>,
    stderr: Seq<u8>,
    resolved: Seq<Option<Seq<char>>>,
    now: u64,
)
    requires
        now + 15_000 <= u64::MAX,
    ensures
        restart_start(target) is Failed <==> target.definition_path is None,
        target.definition_path is Some ==> restart_start(target) is ReadUser,
        ({
            let output = Ok((success, stdout, stderr));
            let listed = restart_step(
                RestartView::ListBefore { user },
                target,
                expected,
                output,
                resolved,
                now,
            );
            let inspected = restart_step(
                RestartView::InspectBefore { user, active },
                target,
                expected,
                output,
                resolved,
                now,
            );
            let stopped = restart_step(
                RestartView::Stop { user, active },
                target,
                expected,
                output,
                resolved,
                now,
            );
            let started = restart_step(
                RestartView::Start { user, active },
                target,
                expected,
                output,
                resolved,
                now,
            );
            &&& success ==> match pid_of(jobs_of(lines(text_of(stdout))), target.id) {
                Some(pid) => listed == (RestartView::InspectBefore { user, active: pid as u32 }),
                None => listed is Failed,
            }
            &&& !success ==> listed is Failed && inspected is Failed && stopped is Failed
            &&& success ==> if lists_executable(
                listed_paths(lines(text_of(stdout))),
                resolved,
                target.executable,
            ) {
                inspected == (RestartView::Stop { user, active })
            } else {
                inspected is Failed
            }
            &&& success ==> stopped == (RestartView::Start { user, active })
            &&& target.definition_path is Some && success ==> started == (RestartView::ListAfter {
                active,
                deadline: (now + 15_000) as u64,
                again: false,
            })
            &&& target.definition_path is Some && !success ==> started is Failed
        }),
        restart_command(RestartView::Stop { user, active }, target) matches Some(command)
            && command.program == "launchctl"@ && command.args == seq![
            "bootout"@,
            "gui/"@ + decimal(user as nat) + "/"@ + target.id,
        ],
        target.definition_path matches Some(path) ==> (restart_command(
            RestartView::Start { user, active },
            target,
        ) matches Some(command) && command.program == "launchctl"@ && command.args == seq![
            "bootstrap"@,
            "gui/"@ + decimal(user as nat),
            path,
        ]),
{
}

/// A restarted agent is waited for until it has a new process or its time is over; the
/// new process has to run the same program, and then its version is waited for.
pub proof fn restarted_agents_are_waited_for(
    target: TargetView,
    expected: Seq<char>,
    active: u32,
    restarted: u32,
    deadline: u64,
    again: bool,
    stdout: Seq<u8>,
    stderr: Seq<u8>,
    resolved: Seq<Option<Seq<char>>>,
    probe: Result<Seq<char>, UpgradeErrorView>,
    now: u64,
)
    requires
        now + 15_000 <= u64::MAX,
    ensures
        ({
            let next = restart_step(
                RestartView::ListAfter { active, deadline, again },
                target,
                expected,
                Ok((true, stdout, stderr)),
                resolved,
                now,
            );
            let pid = pid_of(jobs_of(lines(text_of(stdout))), target.id);
            &&& pid is Some && pid->0 != active ==> next == (RestartView::InspectAfter {
                restarted: pid->0 as u32,
            })
            &&& pid is None || pid->0 == active ==> if now >= deadline {
                next is Failed
            } else {
                next == (RestartView::ListAfter { active, deadline, again: true })
            }
        }),
        ({
            let next = restart_step(
                RestartView::InspectAfter { restarted },
                target,
                expected,
                Ok((true, stdout, stderr)),
                resolved,
                now,
            );
            if lists_executable(listed_paths(lines(text_of(stdout))), resolved, target.executable) {
                next == (RestartView::AwaitVersion {
                    expected,
                    deadline: (now + 15_000) as u64,
                    again: false,
                })
            } else {
                next is Failed
            }
        }),
        ({
            let next = after_health(
                RestartView::AwaitVersion { expected, deadline, again },
                target,
                probe,
                now,
            );
            let seen = probe matches Ok(version) && version == expected;
            &&& next == RestartView::Finished(expected) <==> seen
            &&& next is Failed <==> !seen && now >= deadline
            &&& next is AwaitVersion ==> next->AwaitVersion_deadline == deadline
                && next->AwaitVersion_expected == expected
        }),
{
}

} // verus!
