//! Stopping a daemon that this installation owns, and waiting for a daemon to
//! come up or to go away.

use crate::daemon::manifest::{endpoint_text, IpcEndpoint, RuntimeManifest};
use crate::daemon::protocol::{
    probe_view, HealthProbeOutcome, HealthResult, ProbeView, ERR_METHOD_NOT_FOUND,
};
use crate::error::{vault_error_text, VaultError, VaultErrorView};
use crate::number::{decimal, number_of, parse_number, to_decimal};
use crate::text::{
    cat2, cat3, cat5, lines, lossy_text, split_first, split_lines, split_once, text_of, texts,
    trim_char,
};
use crate::upgrade::commands::{command2, command3, command4, CommandLine, CommandView};
use crate::upgrade::helper::{second_field, unquoted};
use vstd::prelude::*;

verus! {

/// How long a daemon is waited for to go away, in milliseconds.
pub const SILENCE_TIMEOUT: u64 = 5_000;

/// How long a daemon is waited for to report its health, in milliseconds.
pub const HEALTH_TIMEOUT: u64 = 10_000;

/// How long a process is waited for after an interrupt, in milliseconds.
pub const INTERRUPT_TIMEOUT: u64 = 5_000;

/// How long a process is waited for after it was killed, in milliseconds.
pub const KILL_TIMEOUT: u64 = 2_000;

/// The answer to a request to shut down.
#[derive(Debug, PartialEq, Eq)]
pub enum ShutdownReply {
    Accepted,
    Rejected,
    Failed(VaultError),
}

/// The answer to a request to shut down, as a mathematical value.
pub enum ShutdownReplyView {
    Accepted,
    Rejected,
    Failed(VaultErrorView),
}

impl View for ShutdownReply {
    type V = ShutdownReplyView;

    open spec fn view(&self) -> ShutdownReplyView {
        match self {
            ShutdownReply::Accepted => ShutdownReplyView::Accepted,
            ShutdownReply::Rejected => ShutdownReplyView::Rejected,
            ShutdownReply::Failed(error) => ShutdownReplyView::Failed(error@),
        }
    }
}

/// Stopping a daemon: what to do next.
#[derive(Debug, PartialEq, Eq)]
pub enum Shutdown {
    /// Find out whether the process runs the recorded program.
    CheckIdentity { pid: u32 },
    /// Ask the daemon to shut down.
    Request { pid: u32 },
    /// The daemon does not know the request: find out once more whether the
    /// process runs the recorded program.
    CheckLegacy { pid: u32 },
    /// Interrupt the process.
    Interrupt { pid: u32 },
    /// Wait for the interrupted process.
    AwaitInterrupted { pid: u32 },
    /// Kill the process.
    Kill { pid: u32 },
    /// Wait for the killed process.
    AwaitKilled { pid: u32 },
    /// Wait until nothing answers at the endpoint.
    AwaitSilence,
    /// The daemon is gone.
    Stopped,
    Failed(VaultError),
}

/// Stopping a daemon, as mathematical values.
pub enum ShutdownView {
    CheckIdentity { pid: u32 },
    Request { pid: u32 },
    CheckLegacy { pid: u32 },
    Interrupt { pid: u32 },
    AwaitInterrupted { pid: u32 },
    Kill { pid: u32 },
    AwaitKilled { pid: u32 },
    AwaitSilence,
    Stopped,
    Failed(VaultErrorView),
}

impl View for Shutdown {
    type V = ShutdownView;

    open spec fn view(&self) -> ShutdownView {
        match self {
            Shutdown::CheckIdentity { pid } => ShutdownView::CheckIdentity { pid: *pid },
            Shutdown::Request { pid } => ShutdownView::Request { pid: *pid },
            Shutdown::CheckLegacy { pid } => ShutdownView::CheckLegacy { pid: *pid },
            Shutdown::Interrupt { pid } => ShutdownView::Interrupt { pid: *pid },
            Shutdown::AwaitInterrupted { pid } => ShutdownView::AwaitInterrupted { pid: *pid },
            Shutdown::Kill { pid } => ShutdownView::Kill { pid: *pid },
            Shutdown::AwaitKilled { pid } => ShutdownView::AwaitKilled { pid: *pid },
            Shutdown::AwaitSilence => ShutdownView::AwaitSilence,
            Shutdown::Stopped => ShutdownView::Stopped,
            Shutdown::Failed(error) => ShutdownView::Failed(error@),
        }
    }
}

/// The process of a daemon: the one that it reports, else the recorded one.
pub open spec fn daemon_pid(health_pid: u32, recorded_pid: u32) -> u32 {
    if health_pid == 0 {
        recorded_pid
    } else {
        health_pid
    }
}

/// The first step: neither an unknown process nor the own one is ever stopped.
pub open spec fn shutdown_start(health_pid: u32, recorded_pid: u32, own_pid: u32) -> ShutdownView {
    let pid = daemon_pid(health_pid, recorded_pid);
    if pid == 0 || pid == own_pid {
        ShutdownView::Failed(
            VaultErrorView::DaemonBootstrap("semantic daemon reported an unsafe PID"@),
        )
    } else {
        ShutdownView::CheckIdentity { pid }
    }
}

/// After the program of the process was looked at: another program than the
/// recorded one is never stopped.
pub open spec fn shutdown_after_identity(
    shutdown: ShutdownView,
    matches: bool,
    binary: Seq<char>,
) -> ShutdownView {
    match shutdown {
        ShutdownView::CheckIdentity { pid } => if matches {
            ShutdownView::Request { pid }
        } else {
            ShutdownView::Failed(
                VaultErrorView::DaemonBootstrap(
                    "refusing to stop semantic daemon PID "@ + decimal(pid as nat)
                        + " because its executable identity does not match '"@ + binary + "'"@,
                ),
            )
        },
        ShutdownView::CheckLegacy { pid } => if matches {
            ShutdownView::Interrupt { pid }
        } else {
            ShutdownView::Failed(
                VaultErrorView::DaemonBootstrap(
                    "refusing to stop PID "@ + decimal(pid as nat)
                        + " because its executable identity does not match '"@ + binary + "'"@,
                ),
            )
        },
        _ => shutdown,
    }
}

/// After the daemon was asked to shut down: only one that does not know the
/// request is stopped through its process.
pub open spec fn shutdown_after_reply(shutdown: ShutdownView, reply: ShutdownReplyView) -> ShutdownView {
    match shutdown {
        ShutdownView::Request { pid } => match reply {
            ShutdownReplyView::Accepted => ShutdownView::AwaitSilence,
            ShutdownReplyView::Rejected => ShutdownView::Failed(
                VaultErrorView::DaemonBootstrap("semantic daemon rejected graceful shutdown"@),
            ),
            ShutdownReplyView::Failed(error) => if error matches VaultErrorView::DaemonRpc {
                code,
                ..
            } && code == ERR_METHOD_NOT_FOUND {
                ShutdownView::CheckLegacy { pid }
            } else {
                ShutdownView::Failed(
                    VaultErrorView::DaemonBootstrap(
                        "semantic daemon graceful shutdown failed: "@ + vault_error_text(error),
                    ),
                )
            },
        },
        _ => shutdown,
    }
}

/// After a signal was sent.
pub open spec fn shutdown_after_signal(
    shutdown: ShutdownView,
    result: Result<(), VaultErrorView>,
) -> ShutdownView {
    match (shutdown, result) {
        (ShutdownView::Interrupt { pid }, Ok(_)) => ShutdownView::AwaitInterrupted { pid },
        (ShutdownView::Interrupt { pid }, Err(error)) => ShutdownView::Failed(error),
        (ShutdownView::Kill { pid }, Ok(_)) => ShutdownView::AwaitKilled { pid },
        (ShutdownView::Kill { pid }, Err(error)) => ShutdownView::Failed(error),
        _ => shutdown,
    }
}

/// After a process was waited for.
pub open spec fn shutdown_after_wait(shutdown: ShutdownView, gone: bool) -> ShutdownView {
    match shutdown {
        ShutdownView::AwaitInterrupted { pid } => if gone {
            ShutdownView::AwaitSilence
        } else {
            ShutdownView::Kill { pid }
        },
        ShutdownView::AwaitKilled { pid } => if gone {
            ShutdownView::AwaitSilence
        } else {
            ShutdownView::Failed(
                VaultErrorView::DaemonBootstrap(
                    "legacy semantic daemon PID "@ + decimal(pid as nat) + " did not stop"@,
                ),
            )
        },
        _ => shutdown,
    }
}

/// A result without a value.
pub open spec fn unit_result(result: Result<(), VaultError>) -> Result<(), VaultErrorView> {
    match result {
        Ok(_) => Ok(()),
        Err(error) => Err(error@),
    }
}

/// After the endpoint was waited for.
pub open spec fn shutdown_after_silence(
    shutdown: ShutdownView,
    result: Result<(), VaultErrorView>,
) -> ShutdownView {
    match shutdown {
        ShutdownView::AwaitSilence => match result {
            Ok(_) => ShutdownView::Stopped,
            Err(error) => ShutdownView::Failed(error),
        },
        _ => shutdown,
    }
}

impl Shutdown {
    /// The first step of stopping a daemon.
    pub fn start(manifest: &RuntimeManifest, health_pid: u32, own_pid: u32) -> (shutdown: Shutdown)
        ensures
            shutdown@ == shutdown_start(health_pid, manifest@.pid, own_pid),
    {
        let pid = if health_pid == 0 {
            manifest.pid
        } else {
            health_pid
        };
        if pid == 0 || pid == own_pid {
            Shutdown::Failed(
                VaultError::DaemonBootstrap("semantic daemon reported an unsafe PID".to_owned()),
            )
        } else {
            Shutdown::CheckIdentity { pid }
        }
    }

    /// Goes on after the program of the process was looked at.
    pub fn identity_checked(self, matches: bool, binary_path: &str) -> (next: Shutdown)
        ensures
            next@ == shutdown_after_identity(self@, matches, binary_path@),
    {
        match self {
            Shutdown::CheckIdentity { pid } => if matches {
                Shutdown::Request { pid }
            } else {
                let number = to_decimal(pid as u64);
                Shutdown::Failed(
                    VaultError::DaemonBootstrap(
                        cat5(
                            "refusing to stop semantic daemon PID ",
                            number.as_str(),
                            " because its executable identity does not match '",
                            binary_path,
                            "'",
                        ),
                    ),
                )
            },
            Shutdown::CheckLegacy { pid } => if matches {
                Shutdown::Interrupt { pid }
            } else {
                let number = to_decimal(pid as u64);
                Shutdown::Failed(
                    VaultError::DaemonBootstrap(
                        cat5(
                            "refusing to stop PID ",
                            number.as_str(),
                            " because its executable identity does not match '",
                            binary_path,
                            "'",
                        ),
                    ),
                )
            },
            other => other,
        }
    }

    /// Goes on after the daemon was asked to shut down.
    pub fn replied(self, reply: ShutdownReply) -> (next: Shutdown)
        ensures
            next@ == shutdown_after_reply(self@, reply@),
    {
        match self {
            Shutdown::Request { pid } => match reply {
                ShutdownReply::Accepted => Shutdown::AwaitSilence,
                ShutdownReply::Rejected => Shutdown::Failed(
                    VaultError::DaemonBootstrap(
                        "semantic daemon rejected graceful shutdown".to_owned(),
                    ),
                ),
                ShutdownReply::Failed(error) => {
                    let unknown = match &error {
                        VaultError::DaemonRpc { code, message: _ } => *code == ERR_METHOD_NOT_FOUND,
                        _ => false,
                    };
                    if unknown {
                        Shutdown::CheckLegacy { pid }
                    } else {
                        Shutdown::Failed(
                            VaultError::DaemonBootstrap(
                                cat2(
                                    "semantic daemon graceful shutdown failed: ",
                                    error.message().as_str(),
                                ),
                            ),
                        )
                    }
                },
            },
            other => other,
        }
    }

    /// Goes on after a signal was sent.
    pub fn signalled(self, result: Result<(), VaultError>) -> (next: Shutdown)
        ensures
            next@ == shutdown_after_signal(self@, unit_result(result)),
    {
        match self {
            Shutdown::Interrupt { pid } => match result {
                Ok(_) => Shutdown::AwaitInterrupted { pid },
                Err(error) => Shutdown::Failed(error),
            },
            Shutdown::Kill { pid } => match result {
                Ok(_) => Shutdown::AwaitKilled { pid },
                Err(error) => Shutdown::Failed(error),
            },
            other => other,
        }
    }

    /// Goes on after a process was waited for.
    pub fn waited(self, gone: bool) -> (next: Shutdown)
        ensures
            next@ == shutdown_after_wait(self@, gone),
    {
        match self {
            Shutdown::AwaitInterrupted { pid } => if gone {
                Shutdown::AwaitSilence
            } else {
                Shutdown::Kill { pid }
            },
            Shutdown::AwaitKilled { pid } => if gone {
                Shutdown::AwaitSilence
            } else {
                let number = to_decimal(pid as u64);
                Shutdown::Failed(
                    VaultError::DaemonBootstrap(
                        cat3("legacy semantic daemon PID ", number.as_str(), " did not stop"),
                    ),
                )
            },
            other => other,
        }
    }

    /// Ends after the endpoint was waited for.
    pub fn silenced(self, result: Result<(), VaultError>) -> (next: Shutdown)
        ensures
            next@ == shutdown_after_silence(self@, unit_result(result)),
    {
        match self {
            Shutdown::AwaitSilence => match result {
                Ok(_) => Shutdown::Stopped,
                Err(error) => Shutdown::Failed(error),
            },
            other => other,
        }
    }
}

/// The command that stops a process.
pub open spec fn stop_command(pid: u32, force: bool, windows: bool) -> CommandView {
    if windows {
        CommandView {
            program: "taskkill"@,
            args: if force {
                seq!["/PID"@, decimal(pid as nat), "/F"@]
            } else {
                seq!["/PID"@, decimal(pid as nat)]
            },
        }
    } else {
        CommandView {
            program: "kill"@,
            args: seq![
                if force {
                    "-KILL"@
                } else {
                    "-INT"@
                },
                decimal(pid as nat),
            ],
        }
    }
}

/// The command that stops a process.
pub fn terminate_command(pid: u32, force: bool, windows: bool) -> (command: CommandLine)
    ensures
        command@ == stop_command(pid, force, windows),
{
    let number = to_decimal(pid as u64);
    if windows {
        if force {
            command3("taskkill", "/PID", number.as_str(), "/F")
        } else {
            command2("taskkill", "/PID", number.as_str())
        }
    } else {
        let signal = if force {
            "-KILL"
        } else {
            "-INT"
        };
        command2("kill", signal, number.as_str())
    }
}

/// What the command that stops a process amounts to.
pub fn terminate_process(success: bool, pid: u32, force: bool, windows: bool) -> (result: Result<
    (),
    VaultError,
>)
    ensures
        match result {
            Ok(_) => success,
            Err(error) => !success && error@ == VaultErrorView::DaemonBootstrap(
                if windows {
                    "failed to stop legacy semantic daemon PID "@ + decimal(pid as nat)
                } else if force {
                    "failed to send -KILL to legacy semantic daemon PID "@ + decimal(pid as nat)
                } else {
                    "failed to send -INT to legacy semantic daemon PID "@ + decimal(pid as nat)
                },
            ),
        },
{
    if success {
        return Ok(());
    }
    let number = to_decimal(pid as u64);
    let head = if windows {
        "failed to stop legacy semantic daemon PID "
    } else if force {
        "failed to send -KILL to legacy semantic daemon PID "
    } else {
        "failed to send -INT to legacy semantic daemon PID "
    };
    Err(VaultError::DaemonBootstrap(cat2(head, number.as_str())))
}

/// The process number in a line of the process list of Windows.
pub open spec fn listed_pid(line: Seq<char>) -> Option<nat> {
    match split_first(line, "\",\""@) {
        None => None,
        Some((_, rest)) => number_of(unquoted(second_field(rest)), u32::MAX as nat),
    }
}

/// Whether a process list holds a process.
pub open spec fn lists_process(list: Seq<Seq<char>>, pid: u32) -> bool {
    exists|i: int| 0 <= i < list.len() && listed_pid(#[trigger] list[i]) == Some(pid as nat)
}

fn pid_of_line(line: &str) -> (pid: Option<u64>)
    ensures
        match pid {
            Some(number) => listed_pid(line@) == Some(number as nat),
            None => listed_pid(line@) is None,
        },
{
    match split_once(line, "\",\"") {
        None => None,
        Some((_, rest)) => {
            let field = match split_once(rest.as_str(), "\",\"") {
                Some((field, _)) => field,
                None => rest,
            };
            let digits = trim_char(field.as_str(), '"');
            parse_number(digits.as_str(), u32::MAX as u64)
        },
    }
}

/// The command that asks for a process: the process list on Windows, a signal that
/// does nothing elsewhere.
pub open spec fn query_command(pid: u32, windows: bool) -> CommandView {
    if windows {
        CommandView {
            program: "tasklist"@,
            args: seq!["/FI"@, "PID eq "@ + decimal(pid as nat), "/FO"@, "CSV"@, "/NH"@],
        }
    } else {
        CommandView { program: "kill"@, args: seq!["-0"@, decimal(pid as nat)] }
    }
}

/// The command that asks for a process.
pub fn liveness_command(pid: u32, windows: bool) -> (command: CommandLine)
    ensures
        command@ == query_command(pid, windows),
{
    let number = to_decimal(pid as u64);
    if windows {
        let filter = cat2("PID eq ", number.as_str());
        let mut command = command4("tasklist", "/FI", filter.as_str(), "/FO", "CSV");
        let ghost first = texts(command.args@);
        command.args.push("/NH".to_owned());
        assert(texts(command.args@) =~= first.push("/NH"@));
        assert(command@ =~= query_command(pid, windows));
        command
    } else {
        command2("kill", "-0", number.as_str())
    }
}

/// Whether a process is alive, by how the command that asks for it ended and, on
/// Windows, by the list that it wrote.
pub fn process_is_alive(success: bool, stdout: &[u8], pid: u32, windows: bool) -> (alive: bool)
    ensures
        alive == (success && (windows ==> lists_process(lines(text_of(stdout@)), pid))),
{
    if !success || !windows {
        return success;
    }
    let raw = lossy_text(stdout);
    let all_lines = split_lines(raw.as_str());
    let ghost all = lines(raw@);
    let mut i: usize = 0;
    while i < all_lines.len()
        invariant
            i <= all_lines@.len(),
            all == texts(all_lines@),
            all == lines(text_of(stdout@)),
            success,
            windows,
            forall|k: int| 0 <= k < i ==> listed_pid(#[trigger] all[k]) != Some(pid as nat),
        decreases all_lines@.len() - i,
    {
        assert(all[i as int] == all_lines@[i as int]@);
        match pid_of_line(all_lines[i].as_str()) {
            Some(number) => {
                if number == pid as u64 {
                    return true;
                }
            },
            None => {},
        }
        i += 1;
    }
    false
}

/// What a look at a process that was told to stop means.
#[derive(Debug, Clone, Copy, PartialEq, Eq, Structural)]
pub enum ExitWait {
    Gone,
    /// Look again after a while.
    Again,
    /// Time is up.
    Alive,
}

/// What a look at a process that was told to stop means.
pub fn wait_for_process_exit(alive: bool, elapsed: u64, timeout: u64) -> (wait: ExitWait)
    ensures
        wait == if !alive {
            ExitWait::Gone
        } else if elapsed < timeout {
            ExitWait::Again
        } else {
            ExitWait::Alive
        },
{
    if !alive {
        ExitWait::Gone
    } else if elapsed < timeout {
        ExitWait::Again
    } else {
        ExitWait::Alive
    }
}

/// What a probe of a daemon that is to go away means.
#[derive(Debug, PartialEq, Eq)]
pub enum SilenceWait {
    Silent,
    /// Probe again after a while.
    Again,
    Failed(VaultError),
}

/// What a probe of a daemon that is to go away means: any answer counts as one
/// that is still there.
pub fn wait_for_unreachable(
    probe: Result<HealthProbeOutcome, VaultError>,
    endpoint: &IpcEndpoint,
    elapsed: u64,
    timeout: u64,
) -> (wait: SilenceWait)
    ensures
        match probe_view(probe) {
            Err(error) => wait matches SilenceWait::Failed(e) && e@ == error,
            Ok(outcome) => if outcome is Unreachable {
                wait == SilenceWait::Silent
            } else if elapsed >= timeout {
                wait matches SilenceWait::Failed(e) && e@ == VaultErrorView::DaemonBootstrap(
                    "timed out waiting for semantic daemon '"@ + endpoint_text(endpoint@)
                        + "' to stop"@,
                )
            } else {
                wait == SilenceWait::Again
            },
        },
{
    match probe {
        Err(error) => SilenceWait::Failed(error),
        Ok(HealthProbeOutcome::Unreachable) => SilenceWait::Silent,
        Ok(_) => if elapsed >= timeout {
            let text = endpoint.endpoint_string();
            SilenceWait::Failed(
                VaultError::DaemonBootstrap(
                    cat3("timed out waiting for semantic daemon '", text.as_str(), "' to stop"),
                ),
            )
        } else {
            SilenceWait::Again
        },
    }
}

/// What a probe of a daemon that was started means.
#[derive(Debug, PartialEq, Eq)]
pub enum StartWait {
    Healthy(HealthResult),
    /// Probe again after a while.
    Again,
    Failed(VaultError),
}

/// What a probe of a daemon that was started means: only silence is waited out.
pub fn wait_for_health(
    probe: Result<HealthProbeOutcome, VaultError>,
    endpoint: &IpcEndpoint,
    elapsed: u64,
    timeout: u64,
) -> (wait: StartWait)
    ensures
        match probe_view(probe) {
            Err(error) => wait matches StartWait::Failed(e) && e@ == error,
            Ok(ProbeView::Healthy(health)) => wait matches StartWait::Healthy(h) && h@ == health,
            Ok(ProbeView::Incompatible(message)) => wait matches StartWait::Failed(e) && e@
                == VaultErrorView::DaemonBootstrap(
                "daemon API incompatibility detected: "@ + message,
            ),
            Ok(ProbeView::Invalid(message)) => wait matches StartWait::Failed(e) && e@
                == VaultErrorView::DaemonBootstrap(
                "daemon health probe returned invalid response: "@ + message,
            ),
            Ok(ProbeView::Unreachable) => if elapsed >= timeout {
                wait matches StartWait::Failed(e) && e@ == VaultErrorView::DaemonBootstrap(
                    "timed out waiting for daemon health on endpoint '"@ + endpoint_text(
                        endpoint@,
                    ) + "'"@,
                )
            } else {
                wait == StartWait::Again
            },
        },
{
    match probe {
        Err(error) => StartWait::Failed(error),
        Ok(HealthProbeOutcome::Healthy(health)) => StartWait::Healthy(health),
        Ok(HealthProbeOutcome::Incompatible(message)) => StartWait::Failed(
            VaultError::DaemonBootstrap(
                cat2("daemon API incompatibility detected: ", message.as_str()),
            ),
        ),
        Ok(HealthProbeOutcome::Invalid(message)) => StartWait::Failed(
            VaultError::DaemonBootstrap(
                cat2("daemon health probe returned invalid response: ", message.as_str()),
            ),
        ),
        Ok(HealthProbeOutcome::Unreachable) => if elapsed >= timeout {
            let text = endpoint.endpoint_string();
            StartWait::Failed(
                VaultError::DaemonBootstrap(
                    cat3(
                        "timed out waiting for daemon health on endpoint '",
                        text.as_str(),
                        "'",
                    ),
                ),
            )
        } else {
            StartWait::Again
        },
    }
}

/// Neither an unknown process nor the own one is ever stopped.
pub proof fn own_process_is_never_stopped(health_pid: u32, recorded_pid: u32, own_pid: u32)
    ensures
        shutdown_start(health_pid, recorded_pid, own_pid) matches ShutdownView::CheckIdentity { pid }
            ==> pid != 0 && pid != own_pid,
        shutdown_start(health_pid, recorded_pid, own_pid) is CheckIdentity || shutdown_start(
            health_pid,
            recorded_pid,
            own_pid,
        ) is Failed,
{
}

/// A daemon is asked to stop, and its process is interrupted, only right after
/// the process was found to run the recorded program.
pub proof fn mismatched_process_is_never_stopped(
    shutdown: ShutdownView,
    binary: Seq<char>,
    reply: ShutdownReplyView,
    sent: Result<(), VaultErrorView>,
    gone: bool,
)
    ensures
        shutdown is CheckIdentity || shutdown is CheckLegacy ==> shutdown_after_identity(
            shutdown,
            false,
            binary,
        ) is Failed,
        shutdown_after_identity(shutdown, true, binary) is Request && !(shutdown is Request)
            ==> shutdown is CheckIdentity,
        shutdown_after_identity(shutdown, true, binary) is Interrupt && !(shutdown is Interrupt)
            ==> shutdown is CheckLegacy,
        shutdown_after_reply(shutdown, reply) is Interrupt ==> shutdown is Interrupt,
        shutdown_after_reply(shutdown, reply) is Request ==> shutdown is Request,
        shutdown_after_signal(shutdown, sent) is Request ==> shutdown is Request,
        shutdown_after_wait(shutdown, gone) is Interrupt ==> shutdown is Interrupt,
        shutdown_after_wait(shutdown, gone) is Kill && !(shutdown is Kill) ==> shutdown
            is AwaitInterrupted,
{
}

/// The process to stop is the one that the daemon reports, or the recorded one where
/// it reports none. Stopping begins exactly where that is a process other than this
/// one.
pub proof fn the_reported_process_is_stopped(health_pid: u32, recorded_pid: u32, own_pid: u32)
    ensures
        health_pid != 0 && health_pid != own_pid ==> shutdown_start(health_pid, recorded_pid, own_pid)
            == (ShutdownView::CheckIdentity { pid: health_pid }),
        health_pid == 0 && recorded_pid != 0 && recorded_pid != own_pid ==> shutdown_start(
            health_pid,
            recorded_pid,
            own_pid,
        ) == (ShutdownView::CheckIdentity { pid: recorded_pid }),
        (health_pid != 0 && health_pid == own_pid) || (health_pid == 0 && (recorded_pid == 0
            || recorded_pid == own_pid)) ==> shutdown_start(health_pid, recorded_pid, own_pid)
            is Failed,
{
}

/// A daemon that accepts the request only has to fall silent. One that does not know
/// the request is stopped by signals, after its identity was checked once more; any
/// other answer fails, and no process is signalled.
pub proof fn only_unknown_requests_lead_to_signals(pid: u32, reply: ShutdownReplyView, binary: Seq<char>)
    ensures
        ({
            let asked = shutdown_after_identity(ShutdownView::CheckIdentity { pid }, true, binary);
            let next = shutdown_after_reply(asked, reply);
            &&& asked == (ShutdownView::Request { pid })
            &&& next is AwaitSilence <==> reply is Accepted
            &&& next == (ShutdownView::CheckLegacy { pid }) <==> (reply matches ShutdownReplyView::Failed(
                error,
            ) && (error matches VaultErrorView::DaemonRpc { code, .. } && code == -32601))
            &&& next is AwaitSilence || next is CheckLegacy || next is Failed
            &&& shutdown_after_identity(ShutdownView::CheckLegacy { pid }, true, binary)
                == (ShutdownView::Interrupt { pid })
        }),
{
}

/// A legacy daemon is killed only where it is still there after it was interrupted,
/// the same process throughout, and a process that cannot be killed fails the
/// stopping.
pub proof fn killing_follows_a_failed_interrupt(
    pid: u32,
    sent: Result<(), VaultErrorView>,
    gone: bool,
)
    ensures
        shutdown_after_signal(ShutdownView::Interrupt { pid }, sent) == (
        ShutdownView::AwaitInterrupted { pid }) <==> sent is Ok,
        shutdown_after_signal(ShutdownView::Kill { pid }, sent) == (ShutdownView::AwaitKilled { pid })
            <==> sent is Ok,
        shutdown_after_signal(ShutdownView::Interrupt { pid }, sent) is Failed <==> sent is Err,
        shutdown_after_signal(ShutdownView::Kill { pid }, sent) is Failed <==> sent is Err,
        shutdown_after_wait(ShutdownView::AwaitInterrupted { pid }, gone) == if gone {
            ShutdownView::AwaitSilence
        } else {
            ShutdownView::Kill { pid }
        },
        shutdown_after_wait(ShutdownView::AwaitKilled { pid }, gone) is AwaitSilence <==> gone,
        shutdown_after_wait(ShutdownView::AwaitKilled { pid }, gone) is Failed <==> !gone,
{
}

/// A daemon counts as stopped only once its endpoint has fallen silent.
pub proof fn stopped_daemons_are_silent(
    shutdown: ShutdownView,
    result: Result<(), VaultErrorView>,
    reply: ShutdownReplyView,
    sent: Result<(), VaultErrorView>,
    gone: bool,
    matches: bool,
    binary: Seq<char>,
)
    requires
        !(shutdown is Stopped),
    ensures
        shutdown_after_silence(shutdown, result) is Stopped <==> shutdown is AwaitSilence && result
            is Ok,
        !(shutdown_after_reply(shutdown, reply) is Stopped),
        !(shutdown_after_signal(shutdown, sent) is Stopped),
        !(shutdown_after_wait(shutdown, gone) is Stopped),
        !(shutdown_after_identity(shutdown, matches, binary) is Stopped),
{
}

/// The commands name the process they are about; only a forced one kills.
pub proof fn stop_commands_name_the_process(pid: u32, force: bool, windows: bool)
    ensures
        stop_command(pid, force, windows).args[1] == decimal(pid as nat),
        stop_command(pid, force, windows).program == if windows {
            "taskkill"@
        } else {
            "kill"@
        },
        !windows ==> stop_command(pid, force, windows).args == seq![
            if force {
                "-KILL"@
            } else {
                "-INT"@
            },
            decimal(pid as nat),
        ],
        windows ==> stop_command(pid, force, windows).args[0] == "/PID"@,
        windows && force ==> stop_command(pid, force, windows).args[2] == "/F"@,
        windows && !force ==> stop_command(pid, force, windows).args.len() == 2,
        !windows ==> query_command(pid, windows).args == seq!["-0"@, decimal(pid as nat)],
{
}

} // verus!
