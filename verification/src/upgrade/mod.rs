//! Upgrading the installed package and putting the new binaries to use.

pub mod build_info;
pub mod cargo_install;
pub mod commands;
pub mod health;
pub mod helper;
pub mod launchd;
pub mod orchestrator;
pub mod processes;
pub mod run;
pub mod systemd;

pub use build_info::BuildIdentity;

use crate::number::{number_of, parse_number};
use crate::text::{
    cat2, cat4, copy_opt, eq_ignoring_case, has_text, opt_str, opt_text, same, same_ignoring_case,
    texts,
};
use crate::upgrade::build_info::IdentityView;
use vstd::prelude::*;

verus! {

/// Why an upgrade did not go through.
#[derive(Debug, Clone, PartialEq, Eq)]
pub enum UpgradeError {
    /// The installation is not one that can be upgraded in place.
    UnsupportedInstall(String),
    /// The installation contradicts its own records.
    InvalidInstall(String),
    /// A command could not be run.
    Command { program: String, message: String },
    /// The package could not be installed.
    Install(String),
    /// The package was installed, but the binaries are not the expected ones.
    PostInstall(String),
    /// A running process could not be brought to the new version.
    Activation(String),
    /// A process is running that the upgrade cannot restart.
    UnsupportedRuntime(String),
    /// Reading or writing failed.
    Io(String),
    /// A document is not valid JSON.
    Json(String),
}

/// An upgrade error with its texts as characters.
pub enum UpgradeErrorView {
    UnsupportedInstall(Seq<char>),
    InvalidInstall(Seq<char>),
    Command { program: Seq<char>, message: Seq<char> },
    Install(Seq<char>),
    PostInstall(Seq<char>),
    Activation(Seq<char>),
    UnsupportedRuntime(Seq<char>),
    Io(Seq<char>),
    Json(Seq<char>),
}

impl View for UpgradeError {
    type V = UpgradeErrorView;

    open spec fn view(&self) -> UpgradeErrorView {
        match self {
            UpgradeError::UnsupportedInstall(text) => UpgradeErrorView::UnsupportedInstall(text@),
            UpgradeError::InvalidInstall(text) => UpgradeErrorView::InvalidInstall(text@),
            UpgradeError::Command { program, message } => UpgradeErrorView::Command {
                program: program@,
                message: message@,
            },
            UpgradeError::Install(text) => UpgradeErrorView::Install(text@),
            UpgradeError::PostInstall(text) => UpgradeErrorView::PostInstall(text@),
            UpgradeError::Activation(text) => UpgradeErrorView::Activation(text@),
            UpgradeError::UnsupportedRuntime(text) => UpgradeErrorView::UnsupportedRuntime(text@),
            UpgradeError::Io(text) => UpgradeErrorView::Io(text@),
            UpgradeError::Json(text) => UpgradeErrorView::Json(text@),
        }
    }
}

/// The text of an upgrade error.
pub open spec fn upgrade_error_text(error: UpgradeErrorView) -> Seq<char> {
    match error {
        UpgradeErrorView::UnsupportedInstall(text) => "unsupported installation: "@ + text,
        UpgradeErrorView::InvalidInstall(text) => "invalid installation metadata: "@ + text,
        UpgradeErrorView::Command { program, message } => "command '"@ + program + "' failed: "@
            + message,
        UpgradeErrorView::Install(text) => "upgrade failed: "@ + text,
        UpgradeErrorView::PostInstall(text) =>
            "Cargo completed, but the installed binaries failed verification: "@ + text,
        UpgradeErrorView::Activation(text) => "activation failed: "@ + text,
        UpgradeErrorView::UnsupportedRuntime(text) => "unsupported active runtime: "@ + text,
        UpgradeErrorView::Io(text) => text,
        UpgradeErrorView::Json(text) => text,
    }
}

impl UpgradeError {
    /// The text of the error.
    pub fn message(&self) -> (text: String)
        ensures
            text@ == upgrade_error_text(self@),
    {
        match self {
            UpgradeError::UnsupportedInstall(text) => cat2(
                "unsupported installation: ",
                text.as_str(),
            ),
            UpgradeError::InvalidInstall(text) => cat2(
                "invalid installation metadata: ",
                text.as_str(),
            ),
            UpgradeError::Command { program, message } => cat4(
                "command '",
                program.as_str(),
                "' failed: ",
                message.as_str(),
            ),
            UpgradeError::Install(text) => cat2("upgrade failed: ", text.as_str()),
            UpgradeError::PostInstall(text) => cat2(
                "Cargo completed, but the installed binaries failed verification: ",
                text.as_str(),
            ),
            UpgradeError::Activation(text) => cat2("activation failed: ", text.as_str()),
            UpgradeError::UnsupportedRuntime(text) => cat2(
                "unsupported active runtime: ",
                text.as_str(),
            ),
            UpgradeError::Io(text) => text.clone(),
            UpgradeError::Json(text) => text.clone(),
        }
    }
}

/// What a finished command left behind.
#[derive(Debug, PartialEq, Eq)]
pub struct CommandOutput {
    pub success: bool,
    pub code: Option<i32>,
    pub stdout: Vec<u8>,
    pub stderr: Vec<u8>,
}

/// How a command ended whose output went to the terminal.
#[derive(Debug, Clone, Copy, PartialEq, Eq)]
pub struct CommandStatus {
    pub success: bool,
    pub code: Option<i32>,
}

/// Where and how Cargo installed the package.
#[derive(Debug, PartialEq, Eq)]
pub struct InstallRecord {
    pub root: String,
    pub profile: String,
    pub target: String,
}

/// An install record with its texts as characters.
#[verifier::ext_equal]
pub struct RecordView {
    pub root: Seq<char>,
    pub profile: Seq<char>,
    pub target: Seq<char>,
}

impl View for InstallRecord {
    type V = RecordView;

    open spec fn view(&self) -> RecordView {
        RecordView { root: self.root@, profile: self.profile@, target: self.target@ }
    }
}

impl InstallRecord {
    /// A copy of the record.
    pub fn copied(&self) -> (record: InstallRecord)
        ensures
            record@ == self@,
    {
        InstallRecord {
            root: self.root.clone(),
            profile: self.profile.clone(),
            target: self.target.clone(),
        }
    }
}

/// The manager that keeps a service running.
#[derive(Debug, Clone, Copy, PartialEq, Eq, Structural)]
pub enum ServiceOwner {
    Launchd,
    SystemdUser,
}

/// A running HTTP service of the installed binary.
#[derive(Debug, PartialEq, Eq)]
pub struct ServiceTarget {
    pub owner: ServiceOwner,
    pub id: String,
    pub definition_path: Option<String>,
    pub executable: String,
    pub host: String,
    pub port: u16,
    pub previous_pid: Option<u32>,
    pub observed_version: Option<String>,
}

/// A service with its texts as characters.
#[verifier::ext_equal]
pub struct TargetView {
    pub owner: ServiceOwner,
    pub id: Seq<char>,
    pub definition_path: Option<Seq<char>>,
    pub executable: Seq<char>,
    pub host: Seq<char>,
    pub port: u16,
    pub previous_pid: Option<u32>,
    pub observed_version: Option<Seq<char>>,
}

impl View for ServiceTarget {
    type V = TargetView;

    open spec fn view(&self) -> TargetView {
        TargetView {
            owner: self.owner,
            id: self.id@,
            definition_path: opt_text(self.definition_path),
            executable: self.executable@,
            host: self.host@,
            port: self.port,
            previous_pid: self.previous_pid,
            observed_version: opt_text(self.observed_version),
        }
    }
}

/// The services of a list.
pub open spec fn target_views(list: Seq<ServiceTarget>) -> Seq<TargetView> {
    list.map_values(|t: ServiceTarget| t@)
}

impl ServiceTarget {
    /// A copy of the target.
    pub fn copied(&self) -> (target: ServiceTarget)
        ensures
            target@ == self@,
    {
        ServiceTarget {
            owner: self.owner,
            id: self.id.clone(),
            definition_path: copy_opt(&self.definition_path),
            executable: self.executable.clone(),
            host: self.host.clone(),
            port: self.port,
            previous_pid: self.previous_pid,
            observed_version: copy_opt(&self.observed_version),
        }
    }
}

/// What became of one service.
#[derive(Debug, PartialEq, Eq)]
pub struct ActivationResult {
    pub target_id: String,
    pub success: bool,
    pub observed_version: Option<String>,
    pub diagnostic: String,
}

/// What became of a service, with its texts as characters.
#[verifier::ext_equal]
pub struct ActivationView {
    pub target_id: Seq<char>,
    pub success: bool,
    pub observed_version: Option<Seq<char>>,
    pub diagnostic: Seq<char>,
}

impl View for ActivationResult {
    type V = ActivationView;

    open spec fn view(&self) -> ActivationView {
        ActivationView {
            target_id: self.target_id@,
            success: self.success,
            observed_version: opt_text(self.observed_version),
            diagnostic: self.diagnostic@,
        }
    }
}

/// The results of a list.
pub open spec fn activation_views(list: Seq<ActivationResult>) -> Seq<ActivationView> {
    list.map_values(|r: ActivationResult| r@)
}

/// What became of the semantic daemon.
#[derive(Debug, PartialEq, Eq)]
pub struct SemanticReconcileResult {
    pub success: bool,
    pub ownership: String,
    pub was_running: bool,
    pub restarted: bool,
    pub observed_version: Option<String>,
    pub diagnostic: String,
}

/// What became of the semantic daemon, with its texts as characters.
#[verifier::ext_equal]
pub struct SemanticView {
    pub success: bool,
    pub ownership: Seq<char>,
    pub was_running: bool,
    pub restarted: bool,
    pub observed_version: Option<Seq<char>>,
    pub diagnostic: Seq<char>,
}

impl View for SemanticReconcileResult {
    type V = SemanticView;

    open spec fn view(&self) -> SemanticView {
        SemanticView {
            success: self.success,
            ownership: self.ownership@,
            was_running: self.was_running,
            restarted: self.restarted,
            observed_version: opt_text(self.observed_version),
            diagnostic: self.diagnostic@,
        }
    }
}

/// An optional daemon result.
pub open spec fn opt_semantic(result: Option<SemanticReconcileResult>) -> Option<SemanticView> {
    match result {
        Some(r) => Some(r@),
        None => None,
    }
}

/// What an upgrade did.
#[derive(Debug, PartialEq, Eq)]
pub struct UpgradeReport {
    pub old_identity: BuildIdentity,
    pub new_identity: BuildIdentity,
    pub binaries_changed: bool,
    pub semantic: Option<SemanticReconcileResult>,
    pub services: Vec<ActivationResult>,
    pub stdio_reconnect_required: bool,
    pub activation_attempted: bool,
}

/// What an upgrade did, as mathematical values.
#[verifier::ext_equal]
pub struct ReportView {
    pub old_identity: IdentityView,
    pub new_identity: IdentityView,
    pub binaries_changed: bool,
    pub semantic: Option<SemanticView>,
    pub services: Seq<ActivationView>,
    pub stdio_reconnect_required: bool,
    pub activation_attempted: bool,
}

impl View for UpgradeReport {
    type V = ReportView;

    open spec fn view(&self) -> ReportView {
        ReportView {
            old_identity: self.old_identity@,
            new_identity: self.new_identity@,
            binaries_changed: self.binaries_changed,
            semantic: opt_semantic(self.semantic),
            services: activation_views(self.services@),
            stdio_reconnect_required: self.stdio_reconnect_required,
            activation_attempted: self.activation_attempted,
        }
    }
}

/// Whether the daemon, where there is one, and every service ended well.
pub open spec fn all_active(report: ReportView) -> bool {
    &&& report.semantic matches Some(result) ==> result.success
    &&& forall|i: int| 0 <= i < report.services.len() ==> (#[trigger] report.services[i]).success
}

impl UpgradeReport {
    /// Whether the daemon, where there is one, and every service ended well.
    pub fn activation_succeeded(&self) -> (succeeded: bool)
        ensures
            succeeded == all_active(self@),
    {
        match &self.semantic {
            Some(result) => {
                if !result.success {
                    return false;
                }
            },
            None => {},
        }
        let mut i: usize = 0;
        while i < self.services.len()
            invariant
                i <= self.services@.len(),
                forall|k: int| 0 <= k < i ==> (#[trigger] self@.services[k]).success,
            decreases self.services@.len() - i,
        {
            if !self.services[i].success {
                assert(!self@.services[i as int].success);
                return false;
            }
            i += 1;
        }
        true
    }
}

/// The address of a service that sets none.
pub open spec fn default_host() -> Seq<char> {
    "127.0.0.1"@
}

/// The port of a service that sets none.
pub const DEFAULT_PORT: u16 = 37842;

/// Whether arguments or the transport variable ask for HTTP.
pub open spec fn asks_for_http(arguments: Seq<Seq<char>>, transport: Option<Seq<char>>) -> bool {
    ||| arguments.contains("--http"@)
    ||| (transport matches Some(value) && same_ignoring_case(value, "http"@))
}

/// The address and port after the arguments from position `i` on. An argument
/// overrides what was set before it; a port that is no number leaves no
/// configuration.
pub open spec fn configured_from(arguments: Seq<Seq<char>>, i: int, host: Seq<char>, port: nat) -> Option<
    (Seq<char>, nat),
>
    decreases arguments.len() - i,
{
    if i < 0 || i >= arguments.len() {
        Some((host, port))
    } else if arguments[i] == "--host"@ && i + 1 < arguments.len() {
        configured_from(arguments, i + 2, arguments[i + 1], port)
    } else if arguments[i] == "--port"@ && i + 1 < arguments.len() {
        match number_of(arguments[i + 1], u16::MAX as nat) {
            Some(number) => configured_from(arguments, i + 2, host, number),
            None => None,
        }
    } else {
        configured_from(arguments, i + 1, host, port)
    }
}

/// The port that a variable sets, else the usual one.
pub open spec fn port_setting(port: Option<Seq<char>>) -> nat {
    match port {
        Some(text) => match number_of(text, u16::MAX as nat) {
            Some(number) => number,
            None => DEFAULT_PORT as nat,
        },
        None => DEFAULT_PORT as nat,
    }
}

/// The address and port of a service, where it serves HTTP: arguments override
/// the environment, and the environment overrides the usual values.
pub open spec fn service_config(
    arguments: Seq<Seq<char>>,
    transport: Option<Seq<char>>,
    host: Option<Seq<char>>,
    port: Option<Seq<char>>,
) -> Option<(Seq<char>, nat)> {
    if asks_for_http(arguments, transport) {
        configured_from(
            arguments,
            0,
            match host {
                Some(text) => text,
                None => default_host(),
            },
            port_setting(port),
        )
    } else {
        None
    }
}

/// Whether arguments or the transport variable ask for HTTP.
pub(crate) fn wants_http(arguments: &[String], transport: Option<&str>) -> (http: bool)
    ensures
        http == asks_for_http(texts(arguments@), opt_str(transport)),
{
    if has_text(arguments, "--http") {
        return true;
    }
    match transport {
        Some(value) => eq_ignoring_case(value, "http"),
        None => false,
    }
}

/// The address and port of a service, where it serves HTTP.
pub fn http_service_config(
    arguments: &[String],
    environment_transport: Option<&str>,
    environment_host: Option<&str>,
    environment_port: Option<&str>,
) -> (config: Option<(String, u16)>)
    ensures
        match config {
            Some((host, port)) => service_config(
                texts(arguments@),
                opt_str(environment_transport),
                opt_str(environment_host),
                opt_str(environment_port),
            ) == Some((host@, port as nat)),
            None => service_config(
                texts(arguments@),
                opt_str(environment_transport),
                opt_str(environment_host),
                opt_str(environment_port),
            ) is None,
        },
{
    if !wants_http(arguments, environment_transport) {
        return None;
    }
    let mut host: String = match environment_host {
        Some(text) => text.to_owned(),
        None => "127.0.0.1".to_owned(),
    };
    let mut port: u16 = match environment_port {
        Some(text) => match parse_number(text, u16::MAX as u64) {
            Some(number) => number as u16,
            None => DEFAULT_PORT,
        },
        None => DEFAULT_PORT,
    };
    let ghost first = (host@, port as nat);
    let mut i: usize = 0;
    while i < arguments.len()
        invariant
            i <= arguments@.len(),
            configured_from(texts(arguments@), 0, first.0, first.1) == configured_from(
                texts(arguments@),
                i as int,
                host@,
                port as nat,
            ),
            service_config(
                texts(arguments@),
                opt_str(environment_transport),
                opt_str(environment_host),
                opt_str(environment_port),
            ) == configured_from(texts(arguments@), 0, first.0, first.1),
        decreases arguments@.len() - i,
    {
        let total: usize = arguments.len();
        if same(arguments[i].as_str(), "--host") && total - i > 1 {
            host = arguments[i + 1].clone();
            i += 2;
        } else if same(arguments[i].as_str(), "--port") && total - i > 1 {
            match parse_number(arguments[i + 1].as_str(), u16::MAX as u64) {
                Some(number) => {
                    port = number as u16;
                },
                None => {
                    return None;
                },
            }
            i += 2;
        } else {
            i += 1;
        }
    }
    Some((host, port))
}

/// A service speaks HTTP where its arguments or its settings say so, and only there. Its
/// address is what the settings say unless an argument says otherwise, and the usual
/// one where nothing does.
pub proof fn services_without_arguments_use_their_settings(
    arguments: Seq<Seq<char>>,
    transport: Option<Seq<char>>,
    host: Option<Seq<char>>,
    port: Option<Seq<char>>,
)
    requires
        forall|i: int|
            0 <= i < arguments.len() ==> #[trigger] arguments[i] != "--host"@ && arguments[i]
                != "--port"@,
    ensures
        service_config(arguments, transport, host, port) is Some <==> arguments.contains("--http"@) || (
        transport is Some && same_ignoring_case(transport->0, "http"@)),
        service_config(arguments, transport, host, port) matches Some(address) ==> {
            &&& host is Some ==> address.0 == host->0
            &&& host is None ==> address.0 == "127.0.0.1"@
            &&& port is Some && number_of(port->0, 65535) is Some ==> address.1 == number_of(
                port->0,
                65535,
            )->0
            &&& port is None || number_of(port->0, 65535) is None ==> address.1 == 37842
        },
{
    let start = match host {
        Some(text) => text,
        None => default_host(),
    };
    lemma_no_address_arguments(arguments, 0, start, port_setting(port));
}

proof fn lemma_no_address_arguments(arguments: Seq<Seq<char>>, i: int, host: Seq<char>, port: nat)
    requires
        0 <= i <= arguments.len(),
        forall|k: int|
            0 <= k < arguments.len() ==> #[trigger] arguments[k] != "--host"@ && arguments[k]
                != "--port"@,
    ensures
        configured_from(arguments, i, host, port) == Some((host, port)),
    decreases arguments.len() - i,
{
    if i < arguments.len() {
        lemma_no_address_arguments(arguments, i + 1, host, port);
    }
}

/// A last host or port among the arguments counts, whatever stands before it; a last
/// port that is none leaves no address.
pub proof fn the_last_address_argument_counts(
    arguments: Seq<Seq<char>>,
    value: Seq<char>,
    host: Seq<char>,
    port: nat,
)
    requires
        arguments.len() > 0 ==> arguments.last() != "--host"@ && arguments.last() != "--port"@,
    ensures
        configured_from(arguments + seq!["--host"@, value], 0, host, port) == match configured_from(
            arguments,
            0,
            host,
            port,
        ) {
            Some(address) => Some((value, address.1)),
            None => None,
        },
        configured_from(arguments + seq!["--port"@, value], 0, host, port) == match (
            configured_from(arguments, 0, host, port),
            number_of(value, 65535),
        ) {
            (Some(address), Some(number)) => Some((address.0, number)),
            _ => None,
        },
{
    lemma_last_address_argument(arguments, value, 0, host, port);
}

proof fn lemma_last_address_argument(
    arguments: Seq<Seq<char>>,
    value: Seq<char>,
    i: int,
    host: Seq<char>,
    port: nat,
)
    requires
        0 <= i <= arguments.len(),
        arguments.len() > 0 ==> arguments.last() != "--host"@ && arguments.last() != "--port"@,
    ensures
        configured_from(arguments + seq!["--host"@, value], i, host, port) == match configured_from(
            arguments,
            i,
            host,
            port,
        ) {
            Some(address) => Some((value, address.1)),
            None => None,
        },
        configured_from(arguments + seq!["--port"@, value], i, host, port) == match (
            configured_from(arguments, i, host, port),
            number_of(value, 65535),
        ) {
            (Some(address), Some(number)) => Some((address.0, number)),
            _ => None,
        },
    decreases arguments.len() - i,
{
    reveal_with_fuel(configured_from, 2);
    reveal_strlit("--host");
    reveal_strlit("--port");
    assert("--host"@[2] != "--port"@[2]);
    let hosted = arguments + seq!["--host"@, value];
    let ported = arguments + seq!["--port"@, value];
    if i < arguments.len() {
        assert(hosted[i] == arguments[i] && ported[i] == arguments[i]);
        if (arguments[i] == "--host"@ || arguments[i] == "--port"@) && i + 1 < arguments.len() {
            assert(hosted[i + 1] == arguments[i + 1] && ported[i + 1] == arguments[i + 1]);
            if arguments[i] == "--host"@ {
                lemma_last_address_argument(arguments, value, i + 2, arguments[i + 1], port);
            } else if number_of(arguments[i + 1], u16::MAX as nat) is Some {
                lemma_last_address_argument(
                    arguments,
                    value,
                    i + 2,
                    host,
                    number_of(arguments[i + 1], u16::MAX as nat)->0,
                );
            }
        } else {
            if i + 1 == arguments.len() {
                assert(arguments[i] == arguments.last());
            }
            lemma_last_address_argument(arguments, value, i + 1, host, port);
        }
    } else {
        assert(hosted[i] == "--host"@ && hosted[i + 1] == value);
        assert(ported[i] == "--port"@ && ported[i + 1] == value);
    }
}

/// An upgrade is active exactly where the daemon, if it was looked at, and every service
/// succeeded.
pub proof fn one_failure_spoils_the_activation(report: ReportView, i: int)
    ensures
        0 <= i < report.services.len() && !report.services[i].success ==> !all_active(report),
        report.semantic matches Some(result) && !result.success ==> !all_active(report),
        report.services.len() == 0 && (report.semantic is None || report.semantic->0.success)
            ==> all_active(report),
{
}

} // verus!
