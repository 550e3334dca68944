//! Making sure that a healthy daemon is running.

use crate::daemon::bootstrap::{
    chosen_binary, daemon_binary_version, download_url, effective_origin, origin_of,
    parse_daemon_version, printed, printed_version, resolve_daemon_binary, resolve_download_url,
    version_complaint, BootstrapConfig, BootstrapResult, ConfigView, Platform, ResolvedPaths,
    ResolvedView, System,
};
use crate::daemon::home::{HomeView, SemanticHomePaths};
use crate::daemon::manifest::{
    endpoint_from_manifest, endpoint_text, endpoint_transport, opt_manifest, recorded_endpoint,
    recorded_endpoint_is_read_back, transport_name, BinaryOrigin, EndpointView, IpcEndpoint,
    IpcView, ManifestIpc, ManifestView, RuntimeManifest, RuntimeManifestInput,
};
use crate::daemon::protocol::{
    probe_view, HealthProbeOutcome, HealthResult, HealthView, ProbeView, DAEMON_API_VERSION,
};
use crate::daemon::reconcile::{health_view, loaded_view, Started, StartedView};
use crate::daemon::shutdown::unit_result;
use crate::error::{VaultError, VaultErrorView};
use crate::number::{decimal, to_decimal};
use crate::path::{components, same_path};
use crate::text::{cat2, cat4, cat5, cat7, copy_opt, opt_text, same};
use crate::upgrade::CommandOutput;
use crate::version::{
    compare_versions, order_of_sign, version_fault, version_sign, VersionOrder,
};
use vstd::prelude::*;

verus! {

/// What a start of the daemon is about.
#[derive(Debug, PartialEq, Eq)]
pub struct EnsurePlan {
    pub config: BootstrapConfig,
    pub paths: SemanticHomePaths,
    pub default_endpoint: IpcEndpoint,
    pub platform: Platform,
    /// The version of this package.
    pub version: String,
    /// The program of the daemon in an upgraded package.
    pub preferred_sibling: Option<String>,
}

/// What a start of the daemon is about, as mathematical values.
#[verifier::ext_equal]
pub struct EnsurePlanView {
    pub config: ConfigView,
    pub home: HomeView,
    pub default_endpoint: EndpointView,
    pub platform: Platform,
    pub version: Seq<char>,
    pub preferred: Option<Seq<char>>,
}

impl View for EnsurePlan {
    type V = EnsurePlanView;

    open spec fn view(&self) -> EnsurePlanView {
        EnsurePlanView {
            config: self.config@,
            home: self.paths@,
            default_endpoint: self.default_endpoint@,
            platform: self.platform,
            version: self.version@,
            preferred: opt_text(self.preferred_sibling),
        }
    }
}

/// What a new daemon is started from: the record of the one before, the endpoint,
/// and whether the recorded model is kept.
#[derive(Debug, PartialEq, Eq)]
pub struct StartBase {
    pub existing: Option<RuntimeManifest>,
    pub endpoint: IpcEndpoint,
    pub keep_model: bool,
}

/// What a new daemon is started from, as mathematical values.
#[verifier::ext_equal]
pub struct BaseView {
    pub existing: Option<ManifestView>,
    pub endpoint: EndpointView,
    pub keep_model: bool,
}

impl View for StartBase {
    type V = BaseView;

    open spec fn view(&self) -> BaseView {
        BaseView {
            existing: opt_manifest(self.existing),
            endpoint: self.endpoint@,
            keep_model: self.keep_model,
        }
    }
}

/// The chosen program of the daemon.
#[derive(Debug, PartialEq, Eq)]
pub struct Program {
    pub path: String,
    pub origin: BinaryOrigin,
    pub sha256: Option<String>,
}

/// The chosen program, with texts as characters.
#[verifier::ext_equal]
pub struct ProgramView {
    pub path: Seq<char>,
    pub origin: BinaryOrigin,
    pub sha256: Option<Seq<char>>,
}

impl View for Program {
    type V = ProgramView;

    open spec fn view(&self) -> ProgramView {
        ProgramView { path: self.path@, origin: self.origin, sha256: opt_text(self.sha256) }
    }
}

/// A running daemon, with texts as characters.
#[verifier::ext_equal]
pub struct ResultView {
    pub semantic_home: Seq<char>,
    pub endpoint: EndpointView,
    pub daemon_binary_path: Seq<char>,
    pub manifest: ManifestView,
    pub reused_existing: bool,
}

impl View for BootstrapResult {
    type V = ResultView;

    open spec fn view(&self) -> ResultView {
        ResultView {
            semantic_home: self.semantic_home@,
            endpoint: self.endpoint@,
            daemon_binary_path: self.daemon_binary_path@,
            manifest: self.manifest@,
            reused_existing: self.reused_existing,
        }
    }
}

/// Making sure that a daemon runs: what to do next.
#[derive(Debug, PartialEq, Eq)]
pub enum Ensure {
    /// Take the lock of the home and read the record.
    LoadManifest,
    /// Probe the recorded endpoint.
    Probe { manifest: RuntimeManifest, endpoint: IpcEndpoint },
    /// A healthy daemon runs: look for the program beside this one.
    LocateSibling { manifest: RuntimeManifest, endpoint: IpcEndpoint, health: HealthResult },
    /// Ask that program for its version.
    SiblingVersion {
        manifest: RuntimeManifest,
        endpoint: IpcEndpoint,
        health: HealthResult,
        origin: BinaryOrigin,
        sibling: String,
    },
    /// Write the record of a daemon that goes on running.
    Touch { manifest: RuntimeManifest, endpoint: IpcEndpoint },
    /// Stop a daemon that a newer program is to replace.
    Shutdown { manifest: RuntimeManifest, endpoint: IpcEndpoint, pid: u32 },
    /// Look for the program beside this one.
    LocateBinary(StartBase),
    /// Find out whether the chosen program is there.
    CheckBinary(StartBase, Program),
    /// Look for a program on the search path.
    SearchPath(StartBase, Program),
    /// Download the program.
    Download { base: StartBase, url: String },
    /// Ask the chosen program for its version.
    BinaryVersion(StartBase, Program),
    /// Start the program; it may have to report a version.
    Start { base: StartBase, program: Program, model: String, expected: Option<String> },
    /// Wait for the started daemon.
    AwaitHealth {
        base: StartBase,
        program: Program,
        model: String,
        expected: Option<String>,
        pid: u32,
    },
    /// Write the record of the started daemon.
    Save { manifest: RuntimeManifest, endpoint: IpcEndpoint, path: String },
    Done(BootstrapResult),
    Failed(VaultError),
}

/// Making sure that a daemon runs, as mathematical values.
pub enum EnsureView {
    LoadManifest,
    Probe { manifest: ManifestView, endpoint: EndpointView },
    LocateSibling { manifest: ManifestView, endpoint: EndpointView, health: HealthView },
    SiblingVersion {
        manifest: ManifestView,
        endpoint: EndpointView,
        health: HealthView,
        origin: BinaryOrigin,
        sibling: Seq<char>,
    },
    Touch { manifest: ManifestView, endpoint: EndpointView },
    Shutdown { manifest: ManifestView, endpoint: EndpointView, pid: u32 },
    LocateBinary(BaseView),
    CheckBinary(BaseView, ProgramView),
    SearchPath(BaseView, ProgramView),
    Download { base: BaseView, url: Seq<char> },
    BinaryVersion(BaseView, ProgramView),
    Start { base: BaseView, program: ProgramView, model: Seq<char>, expected: Option<Seq<char>> },
    AwaitHealth {
        base: BaseView,
        program: ProgramView,
        model: Seq<char>,
        expected: Option<Seq<char>>,
        pid: u32,
    },
    Save { manifest: ManifestView, endpoint: EndpointView, path: Seq<char> },
    Done(ResultView),
    Failed(VaultErrorView),
}

impl View for Ensure {
    type V = EnsureView;

    open spec fn view(&self) -> EnsureView {
        match self {
            Ensure::LoadManifest => EnsureView::LoadManifest,
            Ensure::Probe { manifest, endpoint } => EnsureView::Probe {
                manifest: manifest@,
                endpoint: endpoint@,
            },
            Ensure::LocateSibling { manifest, endpoint, health } => EnsureView::LocateSibling {
                manifest: manifest@,
                endpoint: endpoint@,
                health: health@,
            },
            Ensure::SiblingVersion { manifest, endpoint, health, origin, sibling } =>
            EnsureView::SiblingVersion {
                manifest: manifest@,
                endpoint: endpoint@,
                health: health@,
                origin: *origin,
                sibling: sibling@,
            },
            Ensure::Touch { manifest, endpoint } => EnsureView::Touch {
                manifest: manifest@,
                endpoint: endpoint@,
            },
            Ensure::Shutdown { manifest, endpoint, pid } => EnsureView::Shutdown {
                manifest: manifest@,
                endpoint: endpoint@,
                pid: *pid,
            },
            Ensure::LocateBinary(base) => EnsureView::LocateBinary(base@),
            Ensure::CheckBinary(base, program) => EnsureView::CheckBinary(base@, program@),
            Ensure::SearchPath(base, program) => EnsureView::SearchPath(base@, program@),
            Ensure::Download { base, url } => EnsureView::Download { base: base@, url: url@ },
            Ensure::BinaryVersion(base, program) => EnsureView::BinaryVersion(base@, program@),
            Ensure::Start { base, program, model, expected } => EnsureView::Start {
                base: base@,
                program: program@,
                model: model@,
                expected: opt_text(*expected),
            },
            Ensure::AwaitHealth { base, program, model, expected, pid } => EnsureView::AwaitHealth {
                base: base@,
                program: program@,
                model: model@,
                expected: opt_text(*expected),
                pid: *pid,
            },
            Ensure::Save { manifest, endpoint, path } => EnsureView::Save {
                manifest: manifest@,
                endpoint: endpoint@,
                path: path@,
            },
            Ensure::Done(result) => EnsureView::Done(result@),
            Ensure::Failed(error) => EnsureView::Failed(error@),
        }
    }
}

/// The endpoint of a recorded daemon, or the usual one.
pub open spec fn endpoint_or_default(plan: EnsurePlanView, manifest: ManifestView) -> EndpointView {
    match recorded_endpoint(manifest.ipc, plan.platform.system == System::Windows) {
        Some(endpoint) => endpoint,
        None => plan.default_endpoint,
    }
}

/// After the record was read: without one a daemon is started.
pub open spec fn ensure_after_load(
    state: EnsureView,
    plan: EnsurePlanView,
    loaded: Result<Option<ManifestView>, VaultErrorView>,
) -> EnsureView {
    match state {
        EnsureView::LoadManifest => match loaded {
            Err(error) => EnsureView::Failed(error),
            Ok(Some(manifest)) => EnsureView::Probe {
                manifest,
                endpoint: endpoint_or_default(plan, manifest),
            },
            Ok(None) => EnsureView::LocateBinary(
                BaseView {
                    existing: None,
                    endpoint: plan.default_endpoint,
                    keep_model: plan.preferred is Some,
                },
            ),
        },
        _ => state,
    }
}

/// After the endpoint was probed: a daemon of another protocol version is an
/// error, and anything but a healthy daemon is replaced.
pub open spec fn ensure_after_probe(
    state: EnsureView,
    plan: EnsurePlanView,
    probe: Result<ProbeView, VaultErrorView>,
) -> EnsureView {
    match state {
        EnsureView::Probe { manifest, endpoint } => {
            let base = BaseView {
                existing: Some(manifest),
                endpoint,
                keep_model: plan.preferred is Some,
            };
            match probe {
                Err(error) => EnsureView::Failed(error),
                Ok(ProbeView::Healthy(health)) => EnsureView::LocateSibling {
                    manifest,
                    endpoint,
                    health,
                },
                Ok(ProbeView::Incompatible(message)) => EnsureView::Failed(
                    VaultErrorView::DaemonBootstrap(
                        "existing daemon is incompatible with API v"@ + decimal(
                            DAEMON_API_VERSION as nat,
                        ) + ": "@ + message,
                    ),
                ),
                Ok(ProbeView::Invalid(_)) => EnsureView::LocateBinary(base),
                Ok(ProbeView::Unreachable) => EnsureView::LocateBinary(base),
            }
        },
        _ => state,
    }
}

/// The program beside this one: that of the upgraded package where it is there,
/// else the one beside the running program.
pub open spec fn sibling_of(
    preferred: Option<Seq<char>>,
    preferred_present: bool,
    own: Option<Seq<char>>,
) -> Option<Seq<char>> {
    if preferred is Some && preferred_present {
        preferred
    } else {
        own
    }
}

/// The record of a daemon that goes on running.
pub open spec fn touched_manifest(
    manifest: ManifestView,
    health: HealthView,
    origin: BinaryOrigin,
    now: u64,
) -> ManifestView {
    ManifestView {
        daemon_version: health.daemon_version,
        daemon_api_version: health.daemon_api_version,
        binary_origin: origin,
        last_health: now,
        ..manifest
    }
}

/// Who owns a healthy daemon.
pub open spec fn running_origin(
    plan: EnsurePlanView,
    manifest: ManifestView,
    sibling: Option<Seq<char>>,
    resolved: ResolvedView,
) -> BinaryOrigin {
    if plan.config.daemon_path_override is Some {
        BinaryOrigin::Override
    } else {
        match sibling {
            Some(path) => origin_of(
                manifest,
                path,
                plan.home.daemon_binary_path,
                resolved,
                plan.platform.system == System::Windows,
            ),
            None => manifest.binary_origin,
        }
    }
}

/// Whether a daemon of this origin is replaced by a newer program.
pub open spec fn is_replaceable(origin: BinaryOrigin) -> bool {
    origin == BinaryOrigin::Sibling || origin == BinaryOrigin::ManagedDownload
}

/// After the program beside this one was looked for: only a daemon that this
/// installation owns is compared with it.
pub open spec fn ensure_after_sibling(
    state: EnsureView,
    plan: EnsurePlanView,
    preferred_present: bool,
    own: Option<Seq<char>>,
    resolved: ResolvedView,
    now: u64,
) -> EnsureView {
    match state {
        EnsureView::LocateSibling { manifest, endpoint, health } => {
            let sibling = sibling_of(plan.preferred, preferred_present, own);
            let origin = running_origin(plan, manifest, sibling, resolved);
            if is_replaceable(origin) && sibling is Some {
                EnsureView::SiblingVersion { manifest, endpoint, health, origin, sibling: sibling->0 }
            } else {
                EnsureView::Touch {
                    manifest: touched_manifest(manifest, health, origin, now),
                    endpoint,
                }
            }
        },
        _ => state,
    }
}

/// After the program beside this one was asked for its version: a newer one
/// replaces the running daemon.
pub open spec fn ensure_after_sibling_version(
    state: EnsureView,
    output: Result<(bool, Seq<u8>), Seq<char>>,
    now: u64,
) -> EnsureView {
    match state {
        EnsureView::SiblingVersion { manifest, endpoint, health, origin, sibling } =>
        match printed_version(sibling, output) {
            Err(error) => EnsureView::Failed(error),
            Ok(version) => match version_complaint(
                "running semantic daemon"@,
                health.daemon_version,
            ) {
                Some(error) => EnsureView::Failed(error),
                None => if order_of_sign(version_sign(version, health.daemon_version))
                    == VersionOrder::Newer {
                    EnsureView::Shutdown { manifest, endpoint, pid: health.pid }
                } else {
                    EnsureView::Touch {
                        manifest: touched_manifest(manifest, health, origin, now),
                        endpoint,
                    }
                },
            },
        },
        _ => state,
    }
}

/// After the record of a daemon that goes on running was written.
pub open spec fn ensure_after_touch(
    state: EnsureView,
    plan: EnsurePlanView,
    result: Result<(), VaultErrorView>,
) -> EnsureView {
    match state {
        EnsureView::Touch { manifest, endpoint } => match result {
            Err(error) => EnsureView::Failed(error),
            Ok(_) => EnsureView::Done(
                ResultView {
                    semantic_home: plan.home.root,
                    endpoint,
                    daemon_binary_path: manifest.binary_path,
                    manifest,
                    reused_existing: true,
                },
            ),
        },
        _ => state,
    }
}

/// After a daemon was stopped that a newer program replaces: its model is kept.
pub open spec fn ensure_after_stop(state: EnsureView, result: Result<(), VaultErrorView>) -> EnsureView {
    match state {
        EnsureView::Shutdown { manifest, endpoint, pid } => match result {
            Err(error) => EnsureView::Failed(error),
            Ok(_) => EnsureView::LocateBinary(
                BaseView { existing: Some(manifest), endpoint, keep_model: true },
            ),
        },
        _ => state,
    }
}

/// The recorded checksum of a program, where the record is about it.
pub open spec fn recorded_checksum(
    existing: Option<ManifestView>,
    path: Seq<char>,
    windows: bool,
) -> Option<Seq<char>> {
    match existing {
        Some(manifest) => if components(manifest.binary_path, windows) == components(
            path,
            windows,
        ) {
            manifest.binary_sha256
        } else {
            None
        },
        None => None,
    }
}

/// After the program beside this one was looked for to start it.
pub open spec fn ensure_after_locate(
    state: EnsureView,
    plan: EnsurePlanView,
    preferred_present: bool,
    own: Option<Seq<char>>,
) -> EnsureView {
    match state {
        EnsureView::LocateBinary(base) => {
            let chosen = chosen_binary(
                plan.config.daemon_path_override,
                if preferred_present {
                    plan.preferred
                } else {
                    None
                },
                own,
                base.existing,
                plan.home.daemon_binary_path,
            );
            EnsureView::CheckBinary(
                base,
                ProgramView {
                    path: chosen.0,
                    origin: chosen.1,
                    sha256: recorded_checksum(
                        base.existing,
                        chosen.0,
                        plan.platform.system == System::Windows,
                    ),
                },
            )
        },
        _ => state,
    }
}

/// The model of the new daemon.
pub open spec fn model_of(plan: EnsurePlanView, base: BaseView) -> Seq<char> {
    if base.keep_model && base.existing is Some {
        base.existing->0.model_name
    } else {
        plan.config.model_name
    }
}

/// How a program is started: one of the package has to report its version.
pub open spec fn launch(plan: EnsurePlanView, base: BaseView, program: ProgramView) -> EnsureView {
    if program.origin == BinaryOrigin::Sibling {
        EnsureView::BinaryVersion(base, program)
    } else {
        EnsureView::Start { base, program, model: model_of(plan, base), expected: None }
    }
}

/// After the chosen program was looked for: a path that the user gave has to
/// exist.
pub open spec fn ensure_after_check(
    state: EnsureView,
    plan: EnsurePlanView,
    present: bool,
) -> EnsureView {
    match state {
        EnsureView::CheckBinary(base, program) => if present {
            launch(plan, base, program)
        } else if program.origin == BinaryOrigin::Override {
            EnsureView::Failed(
                VaultErrorView::DaemonBootstrap(
                    "daemon override path does not exist: "@ + program.path,
                ),
            )
        } else {
            EnsureView::SearchPath(base, program)
        },
        _ => state,
    }
}

/// After a program was looked for on the search path: without one it is
/// downloaded.
pub open spec fn ensure_after_search(
    state: EnsureView,
    plan: EnsurePlanView,
    found: Option<Seq<char>>,
) -> EnsureView {
    match state {
        EnsureView::SearchPath(base, program) => match found {
            Some(path) => launch(
                plan,
                base,
                ProgramView { path, origin: BinaryOrigin::Path, sha256: program.sha256 },
            ),
            None => match download_url(plan.config, plan.version, plan.platform) {
                Ok(url) => EnsureView::Download { base, url },
                Err(error) => EnsureView::Failed(error),
            },
        },
        _ => state,
    }
}

/// After the program was downloaded.
pub open spec fn ensure_after_download(
    state: EnsureView,
    plan: EnsurePlanView,
    result: Result<Seq<char>, VaultErrorView>,
) -> EnsureView {
    match state {
        EnsureView::Download { base, url } => match result {
            Err(error) => EnsureView::Failed(error),
            Ok(checksum) => launch(
                plan,
                base,
                ProgramView {
                    path: plan.home.daemon_binary_path,
                    origin: BinaryOrigin::ManagedDownload,
                    sha256: Some(checksum),
                },
            ),
        },
        _ => state,
    }
}

/// After the chosen program was asked for its version.
pub open spec fn ensure_after_version(
    state: EnsureView,
    plan: EnsurePlanView,
    output: Result<(bool, Seq<u8>), Seq<char>>,
) -> EnsureView {
    match state {
        EnsureView::BinaryVersion(base, program) => match printed_version(program.path, output) {
            Err(error) => EnsureView::Failed(error),
            Ok(version) => EnsureView::Start {
                base,
                program,
                model: model_of(plan, base),
                expected: Some(version),
            },
        },
        _ => state,
    }
}

/// After the program was started.
pub open spec fn ensure_after_start(
    state: EnsureView,
    plan: EnsurePlanView,
    started: StartedView,
) -> EnsureView {
    match state {
        EnsureView::Start { base, program, model, expected } => match started {
            StartedView::Failed(error) => EnsureView::Failed(error),
            StartedView::Exited(status) => EnsureView::Failed(
                VaultErrorView::DaemonBootstrap(
                    "daemon process exited immediately with "@ + status + " (binary: '"@
                        + program.path + "', check "@ + plan.home.daemon_stderr_log_path + ")"@,
                ),
            ),
            StartedView::Running(pid) => EnsureView::AwaitHealth {
                base,
                program,
                model,
                expected,
                pid,
            },
        },
        _ => state,
    }
}

/// The record of a started daemon.
pub open spec fn started_manifest(
    plan: EnsurePlanView,
    base: BaseView,
    program: ProgramView,
    model: Seq<char>,
    health: HealthView,
    pid: u32,
    now: u64,
) -> ManifestView {
    ManifestView {
        daemon_api_version: health.daemon_api_version,
        daemon_version: health.daemon_version,
        binary_path: program.path,
        binary_origin: program.origin,
        binary_sha256: program.sha256,
        ipc: IpcView {
            transport: transport_name(base.endpoint),
            endpoint: endpoint_text(base.endpoint),
        },
        pid,
        semantic_home: plan.home.root,
        fastembed_cache_dir: plan.home.fastembed_cache_dir,
        model_name: model,
        bootstrap_client_name: plan.config.bootstrap_client_name,
        bootstrap_client_version: plan.config.bootstrap_client_version,
        last_health: now,
    }
}

/// After the started daemon was waited for: a program of the package has to
/// report exactly its own version.
pub open spec fn ensure_after_health(
    state: EnsureView,
    plan: EnsurePlanView,
    result: Result<HealthView, VaultErrorView>,
    now: u64,
) -> EnsureView {
    match state {
        EnsureView::AwaitHealth { base, program, model, expected, pid } => match result {
            Err(error) => EnsureView::Failed(error),
            Ok(health) => if expected is Some && health.daemon_version != expected->0 {
                EnsureView::Failed(
                    VaultErrorView::DaemonBootstrap(
                        "started sibling semantic daemon reports version '"@
                            + health.daemon_version + "', expected '"@ + expected->0 + "'"@,
                    ),
                )
            } else {
                EnsureView::Save {
                    manifest: started_manifest(plan, base, program, model, health, pid, now),
                    endpoint: base.endpoint,
                    path: program.path,
                }
            },
        },
        _ => state,
    }
}

/// After the record of the started daemon was written.
pub open spec fn ensure_after_save(
    state: EnsureView,
    plan: EnsurePlanView,
    result: Result<(), VaultErrorView>,
) -> EnsureView {
    match state {
        EnsureView::Save { manifest, endpoint, path } => match result {
            Err(error) => EnsureView::Failed(error),
            Ok(_) => EnsureView::Done(
                ResultView {
                    semantic_home: plan.home.root,
                    endpoint,
                    daemon_binary_path: path,
                    manifest,
                    reused_existing: false,
                },
            ),
        },
        _ => state,
    }
}

fn kept_running(
    manifest: RuntimeManifest,
    endpoint: IpcEndpoint,
    health: HealthResult,
    origin: BinaryOrigin,
    now: u64,
) -> (state: Ensure)
    ensures
        state@ == (EnsureView::Touch {
            manifest: touched_manifest(manifest@, health@, origin, now),
            endpoint: endpoint@,
        }),
{
    let mut touched = manifest;
    touched.daemon_version = health.daemon_version;
    touched.daemon_api_version = health.daemon_api_version;
    touched.binary_origin = origin;
    touched.last_health = now;
    Ensure::Touch { manifest: touched, endpoint }
}

fn model_for(plan: &EnsurePlan, base: &StartBase) -> (model: String)
    ensures
        model@ == model_of(plan@, base@),
{
    match &base.existing {
        Some(manifest) => if base.keep_model {
            manifest.model_name.clone()
        } else {
            plan.config.model_name.clone()
        },
        None => plan.config.model_name.clone(),
    }
}

fn launching(plan: &EnsurePlan, base: StartBase, program: Program) -> (state: Ensure)
    ensures
        state@ == launch(plan@, base@, program@),
{
    if program.origin == BinaryOrigin::Sibling {
        Ensure::BinaryVersion(base, program)
    } else {
        let model = model_for(plan, &base);
        Ensure::Start { base, program, model, expected: None }
    }
}

fn checksum_for(existing: &Option<RuntimeManifest>, path: &str, windows: bool) -> (checksum: Option<
    String,
>)
    ensures
        opt_text(checksum) == recorded_checksum(opt_manifest(*existing), path@, windows),
{
    match existing {
        Some(manifest) => if same_path(manifest.binary_path.as_str(), path, windows) {
            copy_opt(&manifest.binary_sha256)
        } else {
            None
        },
        None => None,
    }
}

impl Ensure {
    /// The first step.
    pub fn start() -> (state: Ensure)
        ensures
            state@ == EnsureView::LoadManifest,
    {
        Ensure::LoadManifest
    }

    /// Goes on after the record was read.
    pub fn loaded(self, plan: &EnsurePlan, loaded: Result<Option<RuntimeManifest>, VaultError>) -> (
    next: Ensure)
        ensures
            next@ == ensure_after_load(self@, plan@, loaded_view(loaded)),
    {
        match self {
            Ensure::LoadManifest => match loaded {
                Err(error) => Ensure::Failed(error),
                Ok(Some(manifest)) => {
                    let windows = plan.platform.system == System::Windows;
                    let endpoint = match endpoint_from_manifest(&manifest, windows) {
                        Some(endpoint) => endpoint,
                        None => plan.default_endpoint.copied(),
                    };
                    Ensure::Probe { manifest, endpoint }
                },
                Ok(None) => Ensure::LocateBinary(
                    StartBase {
                        existing: None,
                        endpoint: plan.default_endpoint.copied(),
                        keep_model: plan.preferred_sibling.is_some(),
                    },
                ),
            },
            other => other,
        }
    }

    /// Goes on after the endpoint was probed.
    pub fn probed(self, plan: &EnsurePlan, probe: Result<HealthProbeOutcome, VaultError>) -> (next:
        Ensure)
        ensures
            next@ == ensure_after_probe(self@, plan@, probe_view(probe)),
    {
        match self {
            Ensure::Probe { manifest, endpoint } => match probe {
                Err(error) => Ensure::Failed(error),
                Ok(HealthProbeOutcome::Healthy(health)) => Ensure::LocateSibling {
                    manifest,
                    endpoint,
                    health,
                },
                Ok(HealthProbeOutcome::Incompatible(message)) => {
                    let number = to_decimal(DAEMON_API_VERSION as u64);
                    Ensure::Failed(
                        VaultError::DaemonBootstrap(
                            cat4(
                                "existing daemon is incompatible with API v",
                                number.as_str(),
                                ": ",
                                message.as_str(),
                            ),
                        ),
                    )
                },
                Ok(_) => Ensure::LocateBinary(
                    StartBase {
                        existing: Some(manifest),
                        endpoint,
                        keep_model: plan.preferred_sibling.is_some(),
                    },
                ),
            },
            other => other,
        }
    }

    /// Goes on after the program beside this one was looked for:
    /// `preferred_present` tells whether that of the upgraded package is a file,
    /// and `own` is the one beside the running program, where it is a file.
    pub fn sibling_located(
        self,
        plan: &EnsurePlan,
        preferred_present: bool,
        own: Option<String>,
        resolved: &ResolvedPaths,
        now: u64,
    ) -> (next: Ensure)
        ensures
            next@ == ensure_after_sibling(
                self@,
                plan@,
                preferred_present,
                opt_text(own),
                resolved@,
                now,
            ),
    {
        match self {
            Ensure::LocateSibling { manifest, endpoint, health } => {
                let sibling = match &plan.preferred_sibling {
                    Some(path) => if preferred_present {
                        Some(path.clone())
                    } else {
                        own
                    },
                    None => own,
                };
                let origin = if plan.config.daemon_path_override.is_some() {
                    BinaryOrigin::Override
                } else {
                    match &sibling {
                        Some(path) => effective_origin(
                            &manifest,
                            &plan.paths,
                            path.as_str(),
                            resolved,
                            plan.platform.system == System::Windows,
                        ),
                        None => manifest.binary_origin,
                    }
                };
                let replaceable = origin == BinaryOrigin::Sibling || origin
                    == BinaryOrigin::ManagedDownload;
                match sibling {
                    Some(path) => if replaceable {
                        Ensure::SiblingVersion { manifest, endpoint, health, origin, sibling: path }
                    } else {
                        kept_running(manifest, endpoint, health, origin, now)
                    },
                    None => kept_running(manifest, endpoint, health, origin, now),
                }
            },
            other => other,
        }
    }

    /// Goes on after the program beside this one was asked for its version.
    pub fn sibling_version(self, output: Result<CommandOutput, String>, now: u64) -> (next: Ensure)
        ensures
            next@ == ensure_after_sibling_version(self@, printed(output), now),
    {
        match self {
            Ensure::SiblingVersion { manifest, endpoint, health, origin, sibling } => {
                let version = match daemon_binary_version(sibling.as_str(), output) {
                    Ok(version) => version,
                    Err(error) => {
                        return Ensure::Failed(error);
                    },
                };
                match parse_daemon_version(
                    "running semantic daemon",
                    health.daemon_version.as_str(),
                ) {
                    Err(error) => {
                        return Ensure::Failed(error);
                    },
                    Ok(_) => {},
                }
                if compare_versions(version.as_str(), health.daemon_version.as_str())
                    == VersionOrder::Newer {
                    Ensure::Shutdown { manifest, endpoint, pid: health.pid }
                } else {
                    kept_running(manifest, endpoint, health, origin, now)
                }
            },
            other => other,
        }
    }

    /// Ends after the record of a daemon that goes on running was written.
    pub fn touched(self, plan: &EnsurePlan, result: Result<(), VaultError>) -> (next: Ensure)
        ensures
            next@ == ensure_after_touch(self@, plan@, unit_result(result)),
    {
        match self {
            Ensure::Touch { manifest, endpoint } => match result {
                Err(error) => Ensure::Failed(error),
                Ok(_) => Ensure::Done(
                    BootstrapResult {
                        semantic_home: plan.paths.root.clone(),
                        endpoint,
                        daemon_binary_path: manifest.binary_path.clone(),
                        manifest,
                        reused_existing: true,
                    },
                ),
            },
            other => other,
        }
    }

    /// Goes on after a daemon was stopped that a newer program replaces.
    pub fn stopped(self, result: Result<(), VaultError>) -> (next: Ensure)
        ensures
            next@ == ensure_after_stop(self@, unit_result(result)),
    {
        match self {
            Ensure::Shutdown { manifest, endpoint, pid: _ } => match result {
                Err(error) => Ensure::Failed(error),
                Ok(_) => Ensure::LocateBinary(
                    StartBase { existing: Some(manifest), endpoint, keep_model: true },
                ),
            },
            other => other,
        }
    }

    /// Goes on after the program beside this one was looked for to start it.
    pub fn binary_located(self, plan: &EnsurePlan, preferred_present: bool, own: Option<String>) -> (
    next: Ensure)
        ensures
            next@ == ensure_after_locate(self@, plan@, preferred_present, opt_text(own)),
    {
        match self {
            Ensure::LocateBinary(base) => {
                let preferred = match &plan.preferred_sibling {
                    Some(path) => if preferred_present {
                        Some(path.as_str())
                    } else {
                        None
                    },
                    None => None,
                };
                let sibling = match &own {
                    Some(path) => Some(path.as_str()),
                    None => None,
                };
                let (path, origin) = resolve_daemon_binary(
                    &plan.config,
                    &plan.paths,
                    base.existing.as_ref(),
                    preferred,
                    sibling,
                );
                let sha256 = checksum_for(
                    &base.existing,
                    path.as_str(),
                    plan.platform.system == System::Windows,
                );
                Ensure::CheckBinary(base, Program { path, origin, sha256 })
            },
            other => other,
        }
    }

    /// Goes on after the chosen program was looked for.
    pub fn binary_checked(self, plan: &EnsurePlan, present: bool) -> (next: Ensure)
        ensures
            next@ == ensure_after_check(self@, plan@, present),
    {
        match self {
            Ensure::CheckBinary(base, program) => if present {
                launching(plan, base, program)
            } else if program.origin == BinaryOrigin::Override {
                Ensure::Failed(
                    VaultError::DaemonBootstrap(
                        cat2("daemon override path does not exist: ", program.path.as_str()),
                    ),
                )
            } else {
                Ensure::SearchPath(base, program)
            },
            other => other,
        }
    }

    /// Goes on after a program was looked for on the search path.
    pub fn path_searched(self, plan: &EnsurePlan, found: Option<String>) -> (next: Ensure)
        ensures
            next@ == ensure_after_search(self@, plan@, opt_text(found)),
    {
        match self {
            Ensure::SearchPath(base, program) => match found {
                Some(path) => launching(
                    plan,
                    base,
                    Program { path, origin: BinaryOrigin::Path, sha256: program.sha256 },
                ),
                None => match resolve_download_url(
                    &plan.config,
                    plan.version.as_str(),
                    plan.platform,
                ) {
                    Ok(url) => Ensure::Download { base, url },
                    Err(error) => Ensure::Failed(error),
                },
            },
            other => other,
        }
    }

    /// Goes on after the program was downloaded; the result is its checksum.
    pub fn downloaded(self, plan: &EnsurePlan, result: Result<String, VaultError>) -> (next: Ensure)
        ensures
            next@ == ensure_after_download(
                self@,
                plan@,
                match result {
                    Ok(checksum) => Ok(checksum@),
                    Err(error) => Err(error@),
                },
            ),
    {
        match self {
            Ensure::Download { base, url: _ } => match result {
                Err(error) => Ensure::Failed(error),
                Ok(checksum) => launching(
                    plan,
                    base,
                    Program {
                        path: plan.paths.daemon_binary_path.clone(),
                        origin: BinaryOrigin::ManagedDownload,
                        sha256: Some(checksum),
                    },
                ),
            },
            other => other,
        }
    }

    /// Goes on after the chosen program was asked for its version.
    pub fn binary_version(self, plan: &EnsurePlan, output: Result<CommandOutput, String>) -> (next:
        Ensure)
        ensures
            next@ == ensure_after_version(self@, plan@, printed(output)),
    {
        match self {
            Ensure::BinaryVersion(base, program) => {
                match daemon_binary_version(program.path.as_str(), output) {
                    Err(error) => Ensure::Failed(error),
                    Ok(version) => {
                        let model = model_for(plan, &base);
                        Ensure::Start { base, program, model, expected: Some(version) }
                    },
                }
            },
            other => other,
        }
    }

    /// Goes on after the program was started.
    pub fn started(self, plan: &EnsurePlan, started: Started) -> (next: Ensure)
        ensures
            next@ == ensure_after_start(self@, plan@, started@),
    {
        match self {
            Ensure::Start { base, program, model, expected } => match started {
                Started::Failed(error) => Ensure::Failed(error),
                Started::Exited(status) => Ensure::Failed(
                    VaultError::DaemonBootstrap(
                        cat7(
                            "daemon process exited immediately with ",
                            status.as_str(),
                            " (binary: '",
                            program.path.as_str(),
                            "', check ",
                            plan.paths.daemon_stderr_log_path.as_str(),
                            ")",
                        ),
                    ),
                ),
                Started::Running(pid) => Ensure::AwaitHealth {
                    base,
                    program,
                    model,
                    expected,
                    pid,
                },
            },
            other => other,
        }
    }

    /// Goes on after the started daemon was waited for.
    pub fn healthy(
        self,
        plan: &EnsurePlan,
        result: Result<HealthResult, VaultError>,
        now: u64,
    ) -> (next: Ensure)
        ensures
            next@ == ensure_after_health(self@, plan@, health_view(result), now),
    {
        match self {
            Ensure::AwaitHealth { base, program, model, expected, pid } => match result {
                Err(error) => Ensure::Failed(error),
                Ok(health) => {
                    match &expected {
                        Some(version) => {
                            if !same(health.daemon_version.as_str(), version.as_str()) {
                                return Ensure::Failed(
                                    VaultError::DaemonBootstrap(
                                        cat5(
                                            "started sibling semantic daemon reports version '",
                                            health.daemon_version.as_str(),
                                            "', expected '",
                                            version.as_str(),
                                            "'",
                                        ),
                                    ),
                                );
                            }
                        },
                        None => {},
                    }
                    let ipc = ManifestIpc {
                        transport: endpoint_transport(&base.endpoint).to_owned(),
                        endpoint: base.endpoint.endpoint_string(),
                    };
                    let path = program.path.clone();
                    let manifest = RuntimeManifest::from_input(
                        RuntimeManifestInput {
                            daemon_api_version: health.daemon_api_version,
                            daemon_version: health.daemon_version,
                            binary_path: program.path,
                            binary_origin: program.origin,
                            binary_sha256: program.sha256,
                            ipc,
                            pid,
                            semantic_home: plan.paths.root.clone(),
                            fastembed_cache_dir: plan.paths.fastembed_cache_dir.clone(),
                            model_name: model,
                            bootstrap_client_name: plan.config.bootstrap_client_name.clone(),
                            bootstrap_client_version: plan.config.bootstrap_client_version.clone(),
                        },
                        now,
                    );
                    Ensure::Save { manifest, endpoint: base.endpoint, path }
                },
            },
            other => other,
        }
    }

    /// Ends after the record of the started daemon was written.
    pub fn saved(self, plan: &EnsurePlan, result: Result<(), VaultError>) -> (next: Ensure)
        ensures
            next@ == ensure_after_save(self@, plan@, unit_result(result)),
    {
        match self {
            Ensure::Save { manifest, endpoint, path } => match result {
                Err(error) => Ensure::Failed(error),
                Ok(_) => Ensure::Done(
                    BootstrapResult {
                        semantic_home: plan.paths.root.clone(),
                        endpoint,
                        daemon_binary_path: path,
                        manifest,
                        reused_existing: false,
                    },
                ),
            },
            other => other,
        }
    }
}

/// A running daemon is stopped only where this installation owns it, it is
/// healthy, and the program that replaces it is newer.
pub proof fn only_a_newer_owned_program_replaces(
    state: EnsureView,
    plan: EnsurePlanView,
    preferred_present: bool,
    own: Option<Seq<char>>,
    resolved: ResolvedView,
    output: Result<(bool, Seq<u8>), Seq<char>>,
    now: u64,
)
    requires
        state is LocateSibling,
        ensure_after_sibling_version(
            ensure_after_sibling(state, plan, preferred_present, own, resolved, now),
            output,
            now,
        ) is Shutdown,
    ensures
        plan.config.daemon_path_override is None,
        ({
            let sibling = sibling_of(plan.preferred, preferred_present, own);
            let manifest = state->LocateSibling_manifest;
            let health = state->LocateSibling_health;
            &&& sibling is Some
            &&& is_replaceable(running_origin(plan, manifest, sibling, resolved))
            &&& printed_version(sibling->0, output) matches Ok(version) && order_of_sign(
                version_sign(version, health.daemon_version),
            ) == VersionOrder::Newer
        }),
{
}

/// A healthy daemon that nothing replaces is used as it is: its program, model,
/// home and endpoint stay recorded.
pub proof fn healthy_daemon_is_reused(
    manifest: ManifestView,
    endpoint: EndpointView,
    health: HealthView,
    plan: EnsurePlanView,
    origin: BinaryOrigin,
    now: u64,
)
    ensures
        ({
            let touched = touched_manifest(manifest, health, origin, now);
            let done = ensure_after_touch(
                EnsureView::Touch { manifest: touched, endpoint },
                plan,
                Ok(()),
            );
            &&& done is Done
            &&& done->Done_0.reused_existing
            &&& done->Done_0.daemon_binary_path == manifest.binary_path
            &&& done->Done_0.manifest.model_name == manifest.model_name
            &&& done->Done_0.manifest.semantic_home == manifest.semantic_home
            &&& done->Done_0.manifest.ipc == manifest.ipc
            &&& done->Done_0.endpoint == endpoint
        }),
{
}

/// A daemon that a newer program replaced keeps its model, whatever the
/// configuration says.
pub proof fn replaced_daemon_keeps_its_model(state: EnsureView, plan: EnsurePlanView)
    requires
        state is Shutdown,
    ensures
        ensure_after_stop(state, Ok(())) matches EnsureView::LocateBinary(base) && model_of(
            plan,
            base,
        ) == state->Shutdown_manifest.model_name && base.endpoint == state->Shutdown_endpoint,
{
}

/// Nothing is searched for or downloaded in place of a path that the user gave.
pub proof fn given_path_is_not_replaced(
    base: BaseView,
    plan: EnsurePlanView,
    preferred_present: bool,
    own: Option<Seq<char>>,
    present: bool,
)
    requires
        plan.config.daemon_path_override is Some,
    ensures
        ({
            let located = ensure_after_locate(
                EnsureView::LocateBinary(base),
                plan,
                preferred_present,
                own,
            );
            let checked = ensure_after_check(located, plan, present);
            &&& present ==> checked is Start && checked->Start_program.path
                == plan.config.daemon_path_override->0
            &&& !present ==> checked is Failed
        }),
{
}

/// A started program of the package counts only when it reports exactly its own
/// version.
pub proof fn started_sibling_reports_its_version(
    state: EnsureView,
    plan: EnsurePlanView,
    result: Result<HealthView, VaultErrorView>,
    now: u64,
)
    requires
        state is AwaitHealth,
        state->AwaitHealth_expected is Some,
        ensure_after_health(state, plan, result, now) is Save,
    ensures
        ensure_after_health(state, plan, result, now)->Save_manifest.daemon_version
            == state->AwaitHealth_expected->0,
{
}

/// The record of a started daemon names the endpoint at which it was started.
pub proof fn record_names_the_endpoint(
    plan: EnsurePlanView,
    base: BaseView,
    program: ProgramView,
    model: Seq<char>,
    health: HealthView,
    pid: u32,
    now: u64,
)
    requires
        base.endpoint is NamedPipe <==> plan.platform.system == System::Windows,
    ensures
        endpoint_or_default(
            plan,
            started_manifest(plan, base, program, model, health, pid, now),
        ) == base.endpoint,
{
    recorded_endpoint_is_read_back(base.endpoint);
}

/// A recorded daemon is asked at its recorded endpoint, or at the default one where
/// this system has no such endpoint; without a record a daemon is started at the
/// default endpoint.
pub proof fn recorded_daemons_are_asked_first(
    plan: EnsurePlanView,
    loaded: Result<Option<ManifestView>, VaultErrorView>,
)
    ensures
        ({
            let next = ensure_after_load(EnsureView::LoadManifest, plan, loaded);
            match loaded {
                Err(error) => next == EnsureView::Failed(error),
                Ok(None) => next matches EnsureView::LocateBinary(base) && base.existing is None
                    && base.endpoint == plan.default_endpoint && (base.keep_model <==> plan.preferred
                    is Some),
                Ok(Some(manifest)) => next matches EnsureView::Probe { manifest: kept, endpoint } && kept
                    == manifest && endpoint == match recorded_endpoint(
                    manifest.ipc,
                    plan.platform.system == System::Windows,
                ) {
                    Some(recorded) => recorded,
                    None => plan.default_endpoint,
                },
            }
        }),
{
}

/// A healthy daemon is kept or replaced, one that is not reachable or answers
/// invalidly is started anew at the same endpoint, and one that is incompatible or
/// cannot be asked fails the attempt.
pub proof fn a_probe_decides_whether_to_start(
    plan: EnsurePlanView,
    manifest: ManifestView,
    endpoint: EndpointView,
    probe: Result<ProbeView, VaultErrorView>,
)
    ensures
        ({
            let next = ensure_after_probe(EnsureView::Probe { manifest, endpoint }, plan, probe);
            match probe {
                Err(error) => next == EnsureView::Failed(error),
                Ok(ProbeView::Healthy(health)) => next == (EnsureView::LocateSibling {
                    manifest,
                    endpoint,
                    health,
                }),
                Ok(ProbeView::Incompatible(_)) => next is Failed,
                Ok(_) => next matches EnsureView::LocateBinary(base) && base.existing == Some(manifest)
                    && base.endpoint == endpoint && (base.keep_model <==> plan.preferred is Some),
            }
        }),
{
}

/// A healthy daemon is reused as it is where the user gave one, where it is not this
/// installation's, or where no program stands beside this one to compare it with; its
/// record then takes over what the daemon reports.
pub proof fn healthy_daemons_of_others_are_kept(
    plan: EnsurePlanView,
    manifest: ManifestView,
    endpoint: EndpointView,
    health: HealthView,
    preferred_present: bool,
    own: Option<Seq<char>>,
    resolved: ResolvedView,
    now: u64,
)
    requires
        plan.config.daemon_path_override is Some || manifest.binary_origin == BinaryOrigin::Override
            || manifest.binary_origin == BinaryOrigin::Path || (own is None && !(plan.preferred is Some
            && preferred_present)),
    ensures
        ({
            let next = ensure_after_sibling(
                EnsureView::LocateSibling { manifest, endpoint, health },
                plan,
                preferred_present,
                own,
                resolved,
                now,
            );
            &&& next matches EnsureView::Touch { manifest: record, endpoint: kept }
            &&& kept == endpoint
            &&& record.daemon_version == health.daemon_version
            &&& record.daemon_api_version == health.daemon_api_version
            &&& record.last_health == now
            &&& record.pid == manifest.pid
            &&& record.binary_path == manifest.binary_path
            &&& record.model_name == manifest.model_name
            &&& record.ipc == manifest.ipc
            &&& plan.config.daemon_path_override is Some ==> record.binary_origin
                == BinaryOrigin::Override
        }),
{
}

/// A daemon of this installation is compared with the program beside it, the upgraded
/// one before the running one.
pub proof fn own_daemons_are_compared_with_the_sibling(
    plan: EnsurePlanView,
    manifest: ManifestView,
    endpoint: EndpointView,
    health: HealthView,
    preferred_present: bool,
    own: Option<Seq<char>>,
    resolved: ResolvedView,
    now: u64,
)
    requires
        plan.config.daemon_path_override is None,
        manifest.binary_origin == BinaryOrigin::Sibling || manifest.binary_origin
            == BinaryOrigin::ManagedDownload,
        own is Some || (plan.preferred is Some && preferred_present),
    ensures
        ensure_after_sibling(
            EnsureView::LocateSibling { manifest, endpoint, health },
            plan,
            preferred_present,
            own,
            resolved,
            now,
        ) == (EnsureView::SiblingVersion {
            manifest,
            endpoint,
            health,
            origin: manifest.binary_origin,
            sibling: if plan.preferred is Some && preferred_present {
                plan.preferred->0
            } else {
                own->0
            },
        }),
{
}

/// A running daemon is stopped for the program beside it exactly where that program is
/// strictly newer; a version that cannot be had or is none fails the attempt.
pub proof fn only_newer_programs_replace(
    manifest: ManifestView,
    endpoint: EndpointView,
    health: HealthView,
    origin: BinaryOrigin,
    sibling: Seq<char>,
    output: Result<(bool, Seq<u8>), Seq<char>>,
    now: u64,
)
    ensures
        ({
            let next = ensure_after_sibling_version(
                EnsureView::SiblingVersion { manifest, endpoint, health, origin, sibling },
                output,
                now,
            );
            match printed_version(sibling, output) {
                Err(error) => next == EnsureView::Failed(error),
                Ok(version) => if version_fault(health.daemon_version) is Some {
                    next is Failed
                } else if version_sign(version, health.daemon_version) > 0 {
                    next == (EnsureView::Shutdown { manifest, endpoint, pid: health.pid })
                } else {
                    next matches EnsureView::Touch { manifest: record, endpoint: kept } && kept
                        == endpoint && record.daemon_version == health.daemon_version
                        && record.binary_origin == origin && record.pid == manifest.pid
                },
            }
        }),
{
}

/// A missing program is looked for on the search path, then downloaded; a given one
/// that is missing fails. What is found on the search path counts as found there, and
/// what is downloaded lies in the managed home with its checksum.
pub proof fn missing_programs_are_searched_then_downloaded(
    plan: EnsurePlanView,
    base: BaseView,
    program: ProgramView,
    found: Option<Seq<char>>,
    url: Seq<char>,
    checksum: Seq<char>,
    error: VaultErrorView,
)
    ensures
        program.origin == BinaryOrigin::Override ==> ensure_after_check(
            EnsureView::CheckBinary(base, program),
            plan,
            false,
        ) is Failed,
        program.origin != BinaryOrigin::Override ==> ensure_after_check(
            EnsureView::CheckBinary(base, program),
            plan,
            false,
        ) == EnsureView::SearchPath(base, program),
        ({
            let next = ensure_after_search(EnsureView::SearchPath(base, program), plan, found);
            match found {
                Some(path) => next matches EnsureView::Start { base: kept, program: chosen, .. } && kept
                    == base && chosen.path == path && chosen.origin == BinaryOrigin::Path,
                None => match download_url(plan.config, plan.version, plan.platform) {
                    Ok(address) => next == (EnsureView::Download { base, url: address }),
                    Err(fault) => next == EnsureView::Failed(fault),
                },
            }
        }),
        ensure_after_download(EnsureView::Download { base, url }, plan, Ok(checksum)) matches
            EnsureView::Start { base: kept, program: chosen, expected, .. } && kept == base && chosen.path
            == plan.home.daemon_binary_path && chosen.origin == BinaryOrigin::ManagedDownload
            && chosen.sha256 == Some(checksum) && expected is None,
        ensure_after_download(EnsureView::Download { base, url }, plan, Err(error))
            == EnsureView::Failed(error),
{
}

/// A program that is there is started with the recorded model where that is to be kept,
/// else with the configured one. A program beside this one is asked for its version
/// first, which the started daemon then has to report.
pub proof fn present_programs_are_started(
    plan: EnsurePlanView,
    base: BaseView,
    program: ProgramView,
    output: Result<(bool, Seq<u8>), Seq<char>>,
)
    ensures
        ({
            let next = ensure_after_check(EnsureView::CheckBinary(base, program), plan, true);
            let model = if base.keep_model && base.existing is Some {
                base.existing->0.model_name
            } else {
                plan.config.model_name
            };
            &&& program.origin == BinaryOrigin::Sibling ==> next == EnsureView::BinaryVersion(
                base,
                program,
            )
            &&& program.origin != BinaryOrigin::Sibling ==> next == (EnsureView::Start {
                base,
                program,
                model,
                expected: None,
            })
            &&& match printed_version(program.path, output) {
                Ok(version) => ensure_after_version(
                    EnsureView::BinaryVersion(base, program),
                    plan,
                    output,
                ) == (EnsureView::Start { base, program, model, expected: Some(version) }),
                Err(error) => ensure_after_version(
                    EnsureView::BinaryVersion(base, program),
                    plan,
                    output,
                ) == EnsureView::Failed(error),
            }
        }),
{
}

/// A program is located by its sources in order; its checksum is taken from the record
/// only where the record is of that very program.
pub proof fn checksums_belong_to_the_recorded_program(
    plan: EnsurePlanView,
    base: BaseView,
    preferred_present: bool,
    own: Option<Seq<char>>,
)
    ensures
        ({
            let next = ensure_after_locate(
                EnsureView::LocateBinary(base),
                plan,
                preferred_present,
                own,
            );
            &&& next matches EnsureView::CheckBinary(kept, program)
            &&& kept == base
            &&& (program.path, program.origin) == chosen_binary(
                plan.config.daemon_path_override,
                if preferred_present {
                    plan.preferred
                } else {
                    None
                },
                own,
                base.existing,
                plan.home.daemon_binary_path,
            )
            &&& program.sha256 is Some ==> base.existing is Some && program.sha256
                == base.existing->0.binary_sha256 && components(
                base.existing->0.binary_path,
                plan.platform.system == System::Windows,
            ) == components(program.path, plan.platform.system == System::Windows)
            &&& base.existing is Some && base.existing->0.binary_path == program.path
                ==> program.sha256 == base.existing->0.binary_sha256
        }),
{
}

/// A started daemon that comes up, in the expected version where one is expected, is
/// recorded with its process, program, endpoint, home and model, and handed out as a
/// new one; otherwise the attempt fails.
pub proof fn started_daemons_are_recorded(
    plan: EnsurePlanView,
    base: BaseView,
    program: ProgramView,
    model: Seq<char>,
    expected: Option<Seq<char>>,
    pid: u32,
    started: StartedView,
    health: HealthView,
    now: u64,
)
    ensures
        ({
            let next = ensure_after_start(
                EnsureView::Start { base, program, model, expected },
                plan,
                started,
            );
            &&& next is Failed <==> !(started is Running)
            &&& started == StartedView::Running(pid) ==> next == (EnsureView::AwaitHealth {
                base,
                program,
                model,
                expected,
                pid,
            })
        }),
        ({
            let waiting = EnsureView::AwaitHealth { base, program, model, expected, pid };
            let saving = ensure_after_health(waiting, plan, Ok(health), now);
            &&& saving is Failed <==> expected is Some && expected->0 != health.daemon_version
            &&& saving is Save <==> expected is None || expected->0 == health.daemon_version
            &&& saving matches EnsureView::Save { manifest: record, endpoint, path } ==> {
                &&& endpoint == base.endpoint
                &&& path == program.path
                &&& record.pid == pid
                &&& record.daemon_version == health.daemon_version
                &&& record.daemon_api_version == health.daemon_api_version
                &&& record.binary_path == program.path
                &&& record.binary_origin == program.origin
                &&& record.binary_sha256 == program.sha256
                &&& record.model_name == model
                &&& record.semantic_home == plan.home.root
                &&& record.fastembed_cache_dir == plan.home.fastembed_cache_dir
                &&& record.ipc.endpoint == endpoint_text(base.endpoint)
                &&& record.last_health == now
                &&& ensure_after_save(saving, plan, Ok(())) matches EnsureView::Done(result)
                &&& !result.reused_existing
                &&& result.manifest == record
                &&& result.endpoint == base.endpoint
                &&& result.daemon_binary_path == program.path
                &&& result.semantic_home == plan.home.root
            }
        }),
{
}

/// A running daemon belongs to the user where the user gave one; otherwise it is told by
/// its record and, where a program stands beside this one, by that program.
pub proof fn running_daemons_are_told_by_record_and_sibling(
    plan: EnsurePlanView,
    manifest: ManifestView,
    sibling: Option<Seq<char>>,
    resolved: ResolvedView,
)
    ensures
        plan.config.daemon_path_override is Some ==> running_origin(plan, manifest, sibling, resolved)
            == BinaryOrigin::Override,
        plan.config.daemon_path_override is None && manifest.binary_origin != BinaryOrigin::Unknown
            ==> running_origin(plan, manifest, sibling, resolved) == manifest.binary_origin,
        plan.config.daemon_path_override is None && sibling is None ==> running_origin(
            plan,
            manifest,
            sibling,
            resolved,
        ) == manifest.binary_origin,
        plan.config.daemon_path_override is None && sibling is Some && plan.platform.system
            == System::Windows ==> running_origin(plan, manifest, sibling, resolved) == origin_of(
            manifest,
            sibling->0,
            plan.home.daemon_binary_path,
            resolved,
            true,
        ),
        plan.config.daemon_path_override is None && sibling is Some && plan.platform.system
            != System::Windows ==> running_origin(plan, manifest, sibling, resolved) == origin_of(
            manifest,
            sibling->0,
            plan.home.daemon_binary_path,
            resolved,
            false,
        ),
{
}

} // verus!
