//! Bringing a running daemon to the version of an upgraded package.

use crate::daemon::archive::sha256_hex;
use crate::daemon::bootstrap::{
    compare_daemon_versions, daemon_order, effective_origin, origin_of, BootstrapConfig,
    ConfigView, DaemonReconcileOutcome, ResolvedPaths, ResolvedView,
};
use crate::daemon::home::{HomeView, SemanticHomePaths};
use crate::daemon::manifest::{
    endpoint_from_manifest, externally_owned, is_external, opt_manifest, recorded_endpoint,
    BinaryOrigin, EndpointView, IpcEndpoint, ManifestView, RuntimeManifest, RuntimeManifestInput,
};
use crate::daemon::protocol::{probe_view, HealthProbeOutcome, HealthResult, HealthView, ProbeView};
use crate::daemon::shutdown::unit_result;
use crate::error::{VaultError, VaultErrorView};
use crate::number::hex;
use crate::text::{cat2, cat3, cat5, opt_text, same};
use crate::vault::digest::sha256;
use crate::version::{version_fault, version_sign, VersionOrder};
use vstd::prelude::*;

verus! {

/// What a reconciliation is about.
#[derive(Debug, PartialEq, Eq)]
pub struct ReconcilePlan {
    pub config: BootstrapConfig,
    pub paths: SemanticHomePaths,
    /// The program of the daemon in the upgraded package.
    pub installed_daemon: String,
    pub expected_version: String,
    pub windows: bool,
}

/// What a reconciliation is about, as mathematical values.
#[verifier::ext_equal]
pub struct PlanView {
    pub config: ConfigView,
    pub home: HomeView,
    pub installed: Seq<char>,
    pub expected: Seq<char>,
    pub windows: bool,
}

impl View for ReconcilePlan {
    type V = PlanView;

    open spec fn view(&self) -> PlanView {
        PlanView {
            config: self.config@,
            home: self.paths@,
            installed: self.installed_daemon@,
            expected: self.expected_version@,
            windows: self.windows,
        }
    }
}

/// What became of the daemon, with texts as characters.
#[verifier::ext_equal]
pub struct OutcomeView {
    pub origin: BinaryOrigin,
    pub was_running: bool,
    pub restarted: bool,
    pub observed_version: Option<Seq<char>>,
    pub diagnostic: Seq<char>,
}

impl View for DaemonReconcileOutcome {
    type V = OutcomeView;

    open spec fn view(&self) -> OutcomeView {
        OutcomeView {
            origin: self.origin,
            was_running: self.was_running,
            restarted: self.restarted,
            observed_version: opt_text(self.observed_version),
            diagnostic: self.diagnostic@,
        }
    }
}

/// What the start of a daemon gave.
#[derive(Debug, PartialEq, Eq)]
pub enum Started {
    /// The process was not made.
    Failed(VaultError),
    /// The process ended at once, with this status.
    Exited(String),
    /// The process is running.
    Running(u32),
}

/// What the start of a daemon gave, as mathematical values.
pub enum StartedView {
    Failed(VaultErrorView),
    Exited(Seq<char>),
    Running(u32),
}

impl View for Started {
    type V = StartedView;

    open spec fn view(&self) -> StartedView {
        match self {
            Started::Failed(error) => StartedView::Failed(error@),
            Started::Exited(status) => StartedView::Exited(status@),
            Started::Running(pid) => StartedView::Running(*pid),
        }
    }
}

/// A reconciliation: what to do next.
#[derive(Debug, PartialEq, Eq)]
pub enum Reconcile {
    /// Take the lock of the home and read the record.
    LoadManifest,
    /// Probe the recorded endpoint.
    Probe { manifest: RuntimeManifest, origin: BinaryOrigin, endpoint: IpcEndpoint },
    /// Find out whether the upgraded program is there.
    CheckInstalled { manifest: RuntimeManifest, endpoint: IpcEndpoint, pid: u32 },
    /// Stop the running daemon.
    Shutdown { manifest: RuntimeManifest, endpoint: IpcEndpoint, pid: u32 },
    /// Start the upgraded program with the recorded model.
    Start { manifest: RuntimeManifest, endpoint: IpcEndpoint },
    /// Wait for the started daemon.
    AwaitHealth { manifest: RuntimeManifest, endpoint: IpcEndpoint, pid: u32 },
    /// Read the upgraded program for its checksum.
    ReadProgram { manifest: RuntimeManifest, health: HealthResult, pid: u32 },
    /// Write the new record.
    Save { manifest: RuntimeManifest },
    Done(DaemonReconcileOutcome),
    Failed(VaultError),
}

/// A reconciliation, as mathematical values.
pub enum ReconcileView {
    LoadManifest,
    Probe { manifest: ManifestView, origin: BinaryOrigin, endpoint: EndpointView },
    CheckInstalled { manifest: ManifestView, endpoint: EndpointView, pid: u32 },
    Shutdown { manifest: ManifestView, endpoint: EndpointView, pid: u32 },
    Start { manifest: ManifestView, endpoint: EndpointView },
    AwaitHealth { manifest: ManifestView, endpoint: EndpointView, pid: u32 },
    ReadProgram { manifest: ManifestView, health: HealthView, pid: u32 },
    Save { manifest: ManifestView },
    Done(OutcomeView),
    Failed(VaultErrorView),
}

impl View for Reconcile {
    type V = ReconcileView;

    open spec fn view(&self) -> ReconcileView {
        match self {
            Reconcile::LoadManifest => ReconcileView::LoadManifest,
            Reconcile::Probe { manifest, origin, endpoint } => ReconcileView::Probe {
                manifest: manifest@,
                origin: *origin,
                endpoint: endpoint@,
            },
            Reconcile::CheckInstalled { manifest, endpoint, pid } => ReconcileView::CheckInstalled {
                manifest: manifest@,
                endpoint: endpoint@,
                pid: *pid,
            },
            Reconcile::Shutdown { manifest, endpoint, pid } => ReconcileView::Shutdown {
                manifest: manifest@,
                endpoint: endpoint@,
                pid: *pid,
            },
            Reconcile::Start { manifest, endpoint } => ReconcileView::Start {
                manifest: manifest@,
                endpoint: endpoint@,
            },
            Reconcile::AwaitHealth { manifest, endpoint, pid } => ReconcileView::AwaitHealth {
                manifest: manifest@,
                endpoint: endpoint@,
                pid: *pid,
            },
            Reconcile::ReadProgram { manifest, health, pid } => ReconcileView::ReadProgram {
                manifest: manifest@,
                health: health@,
                pid: *pid,
            },
            Reconcile::Save { manifest } => ReconcileView::Save { manifest: manifest@ },
            Reconcile::Done(outcome) => ReconcileView::Done(outcome@),
            Reconcile::Failed(error) => ReconcileView::Failed(error@),
        }
    }
}

/// The outcome without a record.
pub open spec fn nothing_recorded() -> OutcomeView {
    OutcomeView {
        origin: BinaryOrigin::Unknown,
        was_running: false,
        restarted: false,
        observed_version: None,
        diagnostic: "no semantic daemon manifest; nothing to restart"@,
    }
}

/// The outcome of a daemon that was left as it is.
pub open spec fn left_alone(
    origin: BinaryOrigin,
    was_running: bool,
    observed: Option<Seq<char>>,
    diagnostic: Seq<char>,
) -> ReconcileView {
    ReconcileView::Done(
        OutcomeView {
            origin,
            was_running,
            restarted: false,
            observed_version: observed,
            diagnostic,
        },
    )
}

/// Who owns the recorded daemon: a path that the user gave decides.
pub open spec fn owner_of(plan: PlanView, manifest: ManifestView, resolved: ResolvedView) -> BinaryOrigin {
    if plan.config.daemon_path_override is Some {
        BinaryOrigin::Override
    } else {
        origin_of(
            manifest,
            plan.installed,
            plan.home.daemon_binary_path,
            resolved,
            plan.windows,
        )
    }
}

/// The error for a record whose endpoint this system does not have.
pub open spec fn unsupported_endpoint() -> VaultErrorView {
    VaultErrorView::DaemonBootstrap("semantic manifest contains an unsupported IPC endpoint"@)
}

/// A read record, as mathematical values.
pub open spec fn loaded_view(loaded: Result<Option<RuntimeManifest>, VaultError>) -> Result<
    Option<ManifestView>,
    VaultErrorView,
> {
    match loaded {
        Ok(manifest) => Ok(opt_manifest(manifest)),
        Err(error) => Err(error@),
    }
}

/// After the record was read.
pub open spec fn reconcile_after_load(
    state: ReconcileView,
    plan: PlanView,
    loaded: Result<Option<ManifestView>, VaultErrorView>,
    resolved: ResolvedView,
) -> ReconcileView {
    match state {
        ReconcileView::LoadManifest => match loaded {
            Err(error) => ReconcileView::Failed(error),
            Ok(None) => ReconcileView::Done(nothing_recorded()),
            Ok(Some(manifest)) => {
                let origin = owner_of(plan, manifest, resolved);
                match recorded_endpoint(manifest.ipc, plan.windows) {
                    Some(endpoint) => ReconcileView::Probe { manifest, origin, endpoint },
                    None => if is_external(origin) {
                        left_alone(
                            origin,
                            false,
                            None,
                            "external semantic daemon ownership preserved; manifest endpoint was not inspected"@,
                        )
                    } else {
                        ReconcileView::Failed(unsupported_endpoint())
                    },
                }
            },
        },
        _ => state,
    }
}

/// After a healthy daemon was found: one of somebody else, a newer one and one
/// of the same version are left as they are.
pub open spec fn reconcile_healthy(
    plan: PlanView,
    manifest: ManifestView,
    origin: BinaryOrigin,
    endpoint: EndpointView,
    health: HealthView,
) -> ReconcileView {
    if is_external(origin) {
        left_alone(
            origin,
            true,
            Some(health.daemon_version),
            "external semantic daemon ownership preserved; no restart attempted"@,
        )
    } else {
        match daemon_order(health.daemon_version, plan.expected) {
            Err(error) => ReconcileView::Failed(error),
            Ok(VersionOrder::Newer) => left_alone(
                origin,
                true,
                Some(health.daemon_version),
                "semantic daemon is newer than this package; preserved without downgrade"@,
            ),
            Ok(VersionOrder::Same) => left_alone(
                origin,
                true,
                Some(health.daemon_version),
                "semantic daemon already reports the installed version"@,
            ),
            Ok(VersionOrder::Older) => ReconcileView::CheckInstalled {
                manifest,
                endpoint,
                pid: health.pid,
            },
        }
    }
}

/// After a daemon that does not answer a health request as it should: one of
/// somebody else is left as it is.
pub open spec fn reconcile_unfit(origin: BinaryOrigin, message: Seq<char>) -> ReconcileView {
    if is_external(origin) {
        left_alone(
            origin,
            true,
            None,
            "external semantic daemon ownership preserved; health was not compatible: "@ + message,
        )
    } else {
        ReconcileView::Failed(
            VaultErrorView::DaemonBootstrap(
                "running semantic daemon could not be safely reconciled: "@ + message,
            ),
        )
    }
}

/// After the endpoint was probed.
pub open spec fn reconcile_after_probe(
    state: ReconcileView,
    plan: PlanView,
    probe: Result<ProbeView, VaultErrorView>,
) -> ReconcileView {
    match state {
        ReconcileView::Probe { manifest, origin, endpoint } => match probe {
            Err(error) => ReconcileView::Failed(error),
            Ok(ProbeView::Healthy(health)) => reconcile_healthy(
                plan,
                manifest,
                origin,
                endpoint,
                health,
            ),
            Ok(ProbeView::Unreachable) => left_alone(
                origin,
                false,
                None,
                "semantic daemon is not running; preserved its manifest and cache"@,
            ),
            Ok(ProbeView::Incompatible(message)) => reconcile_unfit(origin, message),
            Ok(ProbeView::Invalid(message)) => reconcile_unfit(origin, message),
        },
        _ => state,
    }
}

/// After the upgraded program was looked for: the running daemon is stopped only
/// when its replacement is there.
pub open spec fn reconcile_after_check(
    state: ReconcileView,
    plan: PlanView,
    present: bool,
) -> ReconcileView {
    match state {
        ReconcileView::CheckInstalled { manifest, endpoint, pid } => if present {
            ReconcileView::Shutdown { manifest, endpoint, pid }
        } else {
            ReconcileView::Failed(
                VaultErrorView::DaemonBootstrap(
                    "installed sibling daemon '"@ + plan.installed + "' is missing"@,
                ),
            )
        },
        _ => state,
    }
}

/// After the running daemon was stopped.
pub open spec fn reconcile_after_stop(
    state: ReconcileView,
    result: Result<(), VaultErrorView>,
) -> ReconcileView {
    match state {
        ReconcileView::Shutdown { manifest, endpoint, pid } => match result {
            Ok(_) => ReconcileView::Start { manifest, endpoint },
            Err(error) => ReconcileView::Failed(error),
        },
        _ => state,
    }
}

/// After the upgraded program was started.
pub open spec fn reconcile_after_start(
    state: ReconcileView,
    plan: PlanView,
    started: StartedView,
) -> ReconcileView {
    match state {
        ReconcileView::Start { manifest, endpoint } => match started {
            StartedView::Failed(error) => ReconcileView::Failed(error),
            StartedView::Exited(status) => ReconcileView::Failed(
                VaultErrorView::DaemonBootstrap(
                    "updated semantic daemon exited immediately with "@ + status + " (check '"@
                        + plan.home.daemon_stderr_log_path + "')"@,
                ),
            ),
            StartedView::Running(pid) => ReconcileView::AwaitHealth { manifest, endpoint, pid },
        },
        _ => state,
    }
}

/// The health of a started daemon or the error of waiting for it.
pub open spec fn health_view(result: Result<HealthResult, VaultError>) -> Result<
    HealthView,
    VaultErrorView,
> {
    match result {
        Ok(health) => Ok(health@),
        Err(error) => Err(error@),
    }
}

/// After the started daemon was waited for: it has to report exactly the
/// expected version.
pub open spec fn reconcile_after_health(
    state: ReconcileView,
    plan: PlanView,
    result: Result<HealthView, VaultErrorView>,
) -> ReconcileView {
    match state {
        ReconcileView::AwaitHealth { manifest, endpoint, pid } => match result {
            Err(error) => ReconcileView::Failed(error),
            Ok(health) => if health.daemon_version == plan.expected {
                ReconcileView::ReadProgram { manifest, health, pid }
            } else {
                ReconcileView::Failed(
                    VaultErrorView::DaemonBootstrap(
                        "updated semantic daemon reports version '"@ + health.daemon_version
                            + "', expected '"@ + plan.expected + "'"@,
                    ),
                )
            },
        },
        _ => state,
    }
}

/// The new record of a restarted daemon: its home, model, cache and endpoint are
/// those of the old one.
pub open spec fn restarted_manifest(
    plan: PlanView,
    manifest: ManifestView,
    health: HealthView,
    pid: u32,
    program: Seq<u8>,
    now: u64,
) -> ManifestView {
    ManifestView {
        daemon_api_version: health.daemon_api_version,
        daemon_version: health.daemon_version,
        binary_path: plan.installed,
        binary_origin: BinaryOrigin::Sibling,
        binary_sha256: Some(hex(sha256(program))),
        pid,
        bootstrap_client_name: plan.config.bootstrap_client_name,
        bootstrap_client_version: plan.config.bootstrap_client_version,
        last_health: now,
        ..manifest
    }
}

/// After the upgraded program was read.
pub open spec fn reconcile_after_read(
    state: ReconcileView,
    plan: PlanView,
    program: Result<Seq<u8>, VaultErrorView>,
    now: u64,
) -> ReconcileView {
    match state {
        ReconcileView::ReadProgram { manifest, health, pid } => match program {
            Err(error) => ReconcileView::Failed(error),
            Ok(bytes) => ReconcileView::Save {
                manifest: restarted_manifest(plan, manifest, health, pid, bytes, now),
            },
        },
        _ => state,
    }
}

/// After the new record was written.
pub open spec fn reconcile_after_save(
    state: ReconcileView,
    result: Result<(), VaultErrorView>,
) -> ReconcileView {
    match state {
        ReconcileView::Save { manifest } => match result {
            Err(error) => ReconcileView::Failed(error),
            Ok(_) => ReconcileView::Done(
                OutcomeView {
                    origin: BinaryOrigin::Sibling,
                    was_running: true,
                    restarted: true,
                    observed_version: Some(manifest.daemon_version),
                    diagnostic:
                        "locally owned semantic daemon restarted with its existing home and model"@,
                },
            ),
        },
        _ => state,
    }
}

fn alone(origin: BinaryOrigin, was_running: bool, observed: Option<String>, diagnostic: String) -> (
state: Reconcile)
    ensures
        state@ == left_alone(origin, was_running, opt_text(observed), diagnostic@),
{
    Reconcile::Done(
        DaemonReconcileOutcome {
            origin,
            was_running,
            restarted: false,
            observed_version: observed,
            diagnostic,
        },
    )
}

fn no_record() -> (outcome: DaemonReconcileOutcome)
    ensures
        outcome@ == nothing_recorded(),
{
    DaemonReconcileOutcome {
        origin: BinaryOrigin::Unknown,
        was_running: false,
        restarted: false,
        observed_version: None,
        diagnostic: "no semantic daemon manifest; nothing to restart".to_owned(),
    }
}

fn owner(plan: &ReconcilePlan, manifest: &RuntimeManifest, resolved: &ResolvedPaths) -> (origin:
    BinaryOrigin)
    ensures
        origin == owner_of(plan@, manifest@, resolved@),
{
    if plan.config.daemon_path_override.is_some() {
        BinaryOrigin::Override
    } else {
        effective_origin(
            manifest,
            &plan.paths,
            plan.installed_daemon.as_str(),
            resolved,
            plan.windows,
        )
    }
}

fn unfit(origin: BinaryOrigin, message: &str) -> (state: Reconcile)
    ensures
        state@ == reconcile_unfit(origin, message@),
{
    if externally_owned(origin) {
        alone(
            origin,
            true,
            None,
            cat2(
                "external semantic daemon ownership preserved; health was not compatible: ",
                message,
            ),
        )
    } else {
        Reconcile::Failed(
            VaultError::DaemonBootstrap(
                cat2("running semantic daemon could not be safely reconciled: ", message),
            ),
        )
    }
}

impl Reconcile {
    /// The first step: without a record there is nothing to do.
    pub fn start(manifest_is_file: bool) -> (state: Reconcile)
        ensures
            state@ == if manifest_is_file {
                ReconcileView::LoadManifest
            } else {
                ReconcileView::Done(nothing_recorded())
            },
    {
        if manifest_is_file {
            Reconcile::LoadManifest
        } else {
            Reconcile::Done(no_record())
        }
    }

    /// Goes on after the record was read. `resolved` holds what its program, the
    /// upgraded one and the managed one resolve to.
    pub fn loaded(
        self,
        plan: &ReconcilePlan,
        loaded: Result<Option<RuntimeManifest>, VaultError>,
        resolved: &ResolvedPaths,
    ) -> (next: Reconcile)
        ensures
            next@ == reconcile_after_load(self@, plan@, loaded_view(loaded), resolved@),
    {
        match self {
            Reconcile::LoadManifest => match loaded {
                Err(error) => Reconcile::Failed(error),
                Ok(None) => Reconcile::Done(no_record()),
                Ok(Some(manifest)) => {
                    let origin = owner(plan, &manifest, resolved);
                    match endpoint_from_manifest(&manifest, plan.windows) {
                        Some(endpoint) => Reconcile::Probe { manifest, origin, endpoint },
                        None => if externally_owned(origin) {
                            alone(
                                origin,
                                false,
                                None,
                                "external semantic daemon ownership preserved; manifest endpoint was not inspected".to_owned(),
                            )
                        } else {
                            Reconcile::Failed(
                                VaultError::DaemonBootstrap(
                                    "semantic manifest contains an unsupported IPC endpoint".to_owned(),
                                ),
                            )
                        },
                    }
                },
            },
            other => other,
        }
    }

    /// Goes on after the endpoint was probed.
    pub fn probed(
        self,
        plan: &ReconcilePlan,
        probe: Result<HealthProbeOutcome, VaultError>,
    ) -> (next: Reconcile)
        ensures
            next@ == reconcile_after_probe(self@, plan@, probe_view(probe)),
            self is Probe && probe == Ok::<HealthProbeOutcome, VaultError>(
                HealthProbeOutcome::Unreachable,
            ) ==> (next matches Reconcile::Done(outcome) && outcome.origin == self->Probe_origin
                && !outcome.was_running && !outcome.restarted && outcome.observed_version is None),
            self is Probe && next is Failed ==> match probe {
                Err(error) => next->Failed_0@ == error@,
                Ok(HealthProbeOutcome::Unreachable) => false,
                Ok(HealthProbeOutcome::Healthy(health)) => version_fault(
                    health.daemon_version@,
                ) is Some || version_fault(plan.expected_version@) is Some,
                Ok(_) => true,
            },
    {
        match self {
            Reconcile::Probe { manifest, origin, endpoint } => {
                let health = match probe {
                    Err(error) => {
                        return Reconcile::Failed(error);
                    },
                    Ok(HealthProbeOutcome::Unreachable) => {
                        return alone(
                            origin,
                            false,
                            None,
                            "semantic daemon is not running; preserved its manifest and cache".to_owned(),
                        );
                    },
                    Ok(HealthProbeOutcome::Incompatible(message)) => {
                        return unfit(origin, message.as_str());
                    },
                    Ok(HealthProbeOutcome::Invalid(message)) => {
                        return unfit(origin, message.as_str());
                    },
                    Ok(HealthProbeOutcome::Healthy(health)) => health,
                };
                if externally_owned(origin) {
                    return alone(
                        origin,
                        true,
                        Some(health.daemon_version),
                        "external semantic daemon ownership preserved; no restart attempted".to_owned(),
                    );
                }
                match compare_daemon_versions(
                    health.daemon_version.as_str(),
                    plan.expected_version.as_str(),
                ) {
                    Err(error) => Reconcile::Failed(error),
                    Ok(VersionOrder::Newer) => alone(
                        origin,
                        true,
                        Some(health.daemon_version),
                        "semantic daemon is newer than this package; preserved without downgrade".to_owned(),
                    ),
                    Ok(VersionOrder::Same) => alone(
                        origin,
                        true,
                        Some(health.daemon_version),
                        "semantic daemon already reports the installed version".to_owned(),
                    ),
                    Ok(VersionOrder::Older) => Reconcile::CheckInstalled {
                        manifest,
                        endpoint,
                        pid: health.pid,
                    },
                }
            },
            other => other,
        }
    }

    /// Goes on after the upgraded program was looked for.
    pub fn installed_checked(self, plan: &ReconcilePlan, present: bool) -> (next: Reconcile)
        ensures
            next@ == reconcile_after_check(self@, plan@, present),
    {
        match self {
            Reconcile::CheckInstalled { manifest, endpoint, pid } => if present {
                Reconcile::Shutdown { manifest, endpoint, pid }
            } else {
                Reconcile::Failed(
                    VaultError::DaemonBootstrap(
                        cat3(
                            "installed sibling daemon '",
                            plan.installed_daemon.as_str(),
                            "' is missing",
                        ),
                    ),
                )
            },
            other => other,
        }
    }

    /// Goes on after the running daemon was stopped.
    pub fn stopped(self, result: Result<(), VaultError>) -> (next: Reconcile)
        ensures
            next@ == reconcile_after_stop(self@, unit_result(result)),
    {
        match self {
            Reconcile::Shutdown { manifest, endpoint, pid: _ } => match result {
                Ok(_) => Reconcile::Start { manifest, endpoint },
                Err(error) => Reconcile::Failed(error),
            },
            other => other,
        }
    }

    /// Goes on after the upgraded program was started.
    pub fn started(self, plan: &ReconcilePlan, started: Started) -> (next: Reconcile)
        ensures
            next@ == reconcile_after_start(self@, plan@, started@),
    {
        match self {
            Reconcile::Start { manifest, endpoint } => match started {
                Started::Failed(error) => Reconcile::Failed(error),
                Started::Exited(status) => Reconcile::Failed(
                    VaultError::DaemonBootstrap(
                        cat5(
                            "updated semantic daemon exited immediately with ",
                            status.as_str(),
                            " (check '",
                            plan.paths.daemon_stderr_log_path.as_str(),
                            "')",
                        ),
                    ),
                ),
                Started::Running(pid) => Reconcile::AwaitHealth { manifest, endpoint, pid },
            },
            other => other,
        }
    }

    /// Goes on after the started daemon was waited for.
    pub fn healthy(self, plan: &ReconcilePlan, result: Result<HealthResult, VaultError>) -> (next:
        Reconcile)
        ensures
            next@ == reconcile_after_health(self@, plan@, health_view(result)),
    {
        match self {
            Reconcile::AwaitHealth { manifest, endpoint: _, pid } => match result {
                Err(error) => Reconcile::Failed(error),
                Ok(health) => if same(
                    health.daemon_version.as_str(),
                    plan.expected_version.as_str(),
                ) {
                    Reconcile::ReadProgram { manifest, health, pid }
                } else {
                    Reconcile::Failed(
                        VaultError::DaemonBootstrap(
                            cat5(
                                "updated semantic daemon reports version '",
                                health.daemon_version.as_str(),
                                "', expected '",
                                plan.expected_version.as_str(),
                                "'",
                            ),
                        ),
                    )
                },
            },
            other => other,
        }
    }

    /// Goes on after the upgraded program was read.
    pub fn program_read(
        self,
        plan: &ReconcilePlan,
        program: Result<Vec<u8>, VaultError>,
        now: u64,
    ) -> (next: Reconcile)
        ensures
            next@ == reconcile_after_read(
                self@,
                plan@,
                match program {
                    Ok(bytes) => Ok(bytes@),
                    Err(error) => Err(error@),
                },
                now,
            ),
    {
        match self {
            Reconcile::ReadProgram { manifest, health, pid } => match program {
                Err(error) => Reconcile::Failed(error),
                Ok(bytes) => {
                    let checksum = sha256_hex(bytes.as_slice());
                    let updated = RuntimeManifest::from_input(
                        RuntimeManifestInput {
                            daemon_api_version: health.daemon_api_version,
                            daemon_version: health.daemon_version,
                            binary_path: plan.installed_daemon.clone(),
                            binary_origin: BinaryOrigin::Sibling,
                            binary_sha256: Some(checksum),
                            ipc: manifest.ipc,
                            pid,
                            semantic_home: manifest.semantic_home,
                            fastembed_cache_dir: manifest.fastembed_cache_dir,
                            model_name: manifest.model_name,
                            bootstrap_client_name: plan.config.bootstrap_client_name.clone(),
                            bootstrap_client_version: plan.config.bootstrap_client_version.clone(),
                        },
                        now,
                    );
                    Reconcile::Save { manifest: updated }
                },
            },
            other => other,
        }
    }

    /// Ends after the new record was written.
    pub fn saved(self, result: Result<(), VaultError>) -> (next: Reconcile)
        ensures
            next@ == reconcile_after_save(self@, unit_result(result)),
    {
        match self {
            Reconcile::Save { manifest } => match result {
                Err(error) => Reconcile::Failed(error),
                Ok(_) => Reconcile::Done(
                    DaemonReconcileOutcome {
                        origin: BinaryOrigin::Sibling,
                        was_running: true,
                        restarted: true,
                        observed_version: Some(manifest.daemon_version),
                        diagnostic:
                            "locally owned semantic daemon restarted with its existing home and model".to_owned(),
                    },
                ),
            },
            other => other,
        }
    }
}

/// A daemon is looked at for a restart only where this installation owns it and
/// its version is older than the expected one.
pub proof fn only_owned_older_daemons_are_replaced(
    state: ReconcileView,
    plan: PlanView,
    probe: Result<ProbeView, VaultErrorView>,
)
    requires
        state is Probe,
        reconcile_after_probe(state, plan, probe) is CheckInstalled,
    ensures
        !is_external(state->Probe_origin),
        probe matches Ok(ProbeView::Healthy(health)) && daemon_order(
            health.daemon_version,
            plan.expected,
        ) == Ok::<VersionOrder, VaultErrorView>(VersionOrder::Older),
{
}

/// A daemon of somebody else is never stopped or restarted, whatever it answers.
pub proof fn external_daemons_are_left_alone(
    state: ReconcileView,
    plan: PlanView,
    probe: Result<ProbeView, VaultErrorView>,
)
    requires
        state is Probe,
        is_external(state->Probe_origin),
    ensures
        reconcile_after_probe(state, plan, probe) is Failed ==> probe is Err,
        probe is Ok ==> reconcile_after_probe(state, plan, probe) is Done
            && !reconcile_after_probe(state, plan, probe)->Done_0.restarted,
{
}

/// A daemon that the user chose is never owned by this installation.
pub proof fn given_daemons_are_external(plan: PlanView, manifest: ManifestView, resolved: ResolvedView)
    requires
        plan.config.daemon_path_override is Some,
    ensures
        is_external(owner_of(plan, manifest, resolved)),
{
}

/// A newer daemon is never replaced by an older one.
pub proof fn newer_daemons_are_preserved(
    plan: PlanView,
    manifest: ManifestView,
    origin: BinaryOrigin,
    endpoint: EndpointView,
    health: HealthView,
)
    requires
        daemon_order(health.daemon_version, plan.expected) == Ok::<VersionOrder, VaultErrorView>(
            VersionOrder::Newer,
        ),
    ensures
        reconcile_healthy(plan, manifest, origin, endpoint, health) is Done,
        !reconcile_healthy(plan, manifest, origin, endpoint, health)->Done_0.restarted,
{
}

/// A restarted daemon keeps the home, the model, the model cache and the endpoint
/// of the one before, whatever the configuration says, and is recorded as owned.
pub proof fn restart_preserves_runtime_state(
    plan: PlanView,
    manifest: ManifestView,
    health: HealthView,
    pid: u32,
    program: Seq<u8>,
    now: u64,
)
    ensures
        ({
            let updated = restarted_manifest(plan, manifest, health, pid, program, now);
            &&& updated.model_name == manifest.model_name
            &&& updated.semantic_home == manifest.semantic_home
            &&& updated.fastembed_cache_dir == manifest.fastembed_cache_dir
            &&& updated.ipc == manifest.ipc
            &&& !is_external(updated.binary_origin)
        }),
{
}

/// A restart counts only when the daemon reports exactly the expected version.
pub proof fn restart_reports_the_expected_version(
    state: ReconcileView,
    plan: PlanView,
    result: Result<HealthView, VaultErrorView>,
    program: Result<Seq<u8>, VaultErrorView>,
    saved: Result<(), VaultErrorView>,
    now: u64,
)
    requires
        state is AwaitHealth,
        reconcile_after_save(
            reconcile_after_read(
                reconcile_after_health(state, plan, result),
                plan,
                program,
                now,
            ),
            saved,
        ) is Done,
    ensures
        reconcile_after_save(
            reconcile_after_read(
                reconcile_after_health(state, plan, result),
                plan,
                program,
                now,
            ),
            saved,
        )->Done_0.observed_version == Some(plan.expected),
{
}

/// A daemon belongs to somebody else where the user gave it, where it was found on
/// the search path or where nothing is known of it; an installed or downloaded one
/// belongs to this installation.
pub proof fn installed_and_downloaded_daemons_are_owned(origin: BinaryOrigin)
    ensures
        is_external(origin) <==> match origin {
            BinaryOrigin::Sibling => false,
            BinaryOrigin::ManagedDownload => false,
            BinaryOrigin::Override => true,
            BinaryOrigin::Path => true,
            BinaryOrigin::Unknown => true,
        },
{
}

/// A daemon that is not running is no failure, whoever owns it: nothing was running,
/// nothing is restarted and no version was seen.
pub proof fn a_stopped_daemon_is_left_stopped(
    plan: PlanView,
    manifest: ManifestView,
    origin: BinaryOrigin,
    endpoint: EndpointView,
)
    ensures
        ({
            let next = reconcile_after_probe(
                ReconcileView::Probe { manifest, origin, endpoint },
                plan,
                Ok(ProbeView::Unreachable),
            );
            &&& next matches ReconcileView::Done(outcome)
            &&& outcome.origin == origin
            &&& !outcome.was_running
            &&& !outcome.restarted
            &&& outcome.observed_version is None
        }),
{
}

/// A probe fails a reconciliation exactly where the probe itself failed, or where a
/// daemon of this installation answered incompatibly or invalidly or one of the two
/// versions is none.
pub proof fn probes_fail_only_with_a_reason(
    plan: PlanView,
    manifest: ManifestView,
    origin: BinaryOrigin,
    endpoint: EndpointView,
    probe: Result<ProbeView, VaultErrorView>,
)
    ensures
        ({
            let state = ReconcileView::Probe { manifest, origin, endpoint };
            let owned = origin == BinaryOrigin::Sibling || origin == BinaryOrigin::ManagedDownload;
            reconcile_after_probe(state, plan, probe) is Failed <==> match probe {
                Err(_) => true,
                Ok(ProbeView::Unreachable) => false,
                Ok(ProbeView::Incompatible(_)) => owned,
                Ok(ProbeView::Invalid(_)) => owned,
                Ok(ProbeView::Healthy(health)) => owned && (version_fault(health.daemon_version)
                    is Some || version_fault(plan.expected) is Some),
            }
        }),
{
}

/// Where a reconciliation ends with the probe, it restarts nothing and keeps the
/// owner; the daemon counts as running unless nothing was listening, and its version
/// was seen exactly where it answered healthily.
pub proof fn a_probe_reports_what_it_found(
    plan: PlanView,
    manifest: ManifestView,
    origin: BinaryOrigin,
    endpoint: EndpointView,
    probe: ProbeView,
)
    ensures
        ({
            let state = ReconcileView::Probe { manifest, origin, endpoint };
            reconcile_after_probe(state, plan, Ok(probe)) matches ReconcileView::Done(outcome) ==> {
                &&& outcome.origin == origin
                &&& !outcome.restarted
                &&& outcome.was_running == !(probe is Unreachable)
                &&& outcome.observed_version == match probe {
                    ProbeView::Healthy(health) => Some(health.daemon_version),
                    _ => None,
                }
            }
        }),
{
}

/// A healthy daemon of this installation is replaced exactly where its version is
/// older than the expected one, and then the daemon that answered is the one to stop.
pub proof fn older_owned_daemons_are_replaced(
    plan: PlanView,
    manifest: ManifestView,
    origin: BinaryOrigin,
    endpoint: EndpointView,
    health: HealthView,
)
    requires
        origin == BinaryOrigin::Sibling || origin == BinaryOrigin::ManagedDownload,
        version_fault(health.daemon_version) is None,
        version_fault(plan.expected) is None,
    ensures
        ({
            let next = reconcile_after_probe(
                ReconcileView::Probe { manifest, origin, endpoint },
                plan,
                Ok(ProbeView::Healthy(health)),
            );
            if version_sign(health.daemon_version, plan.expected) < 0 {
                next == (ReconcileView::CheckInstalled { manifest, endpoint, pid: health.pid })
            } else {
                next is Done
            }
        }),
{
}

/// The running daemon is stopped only where its replacement is there, and started
/// only after it was stopped.
pub proof fn no_daemon_is_stopped_without_a_replacement(
    plan: PlanView,
    manifest: ManifestView,
    endpoint: EndpointView,
    pid: u32,
    present: bool,
    stopped: Result<(), VaultErrorView>,
)
    ensures
        ({
            let check = ReconcileView::CheckInstalled { manifest, endpoint, pid };
            let stop = ReconcileView::Shutdown { manifest, endpoint, pid };
            &&& reconcile_after_check(check, plan, present) == stop <==> present
            &&& reconcile_after_check(check, plan, present) is Failed <==> !present
            &&& reconcile_after_stop(stop, stopped) == (ReconcileView::Start { manifest, endpoint })
                <==> stopped is Ok
            &&& reconcile_after_stop(stop, stopped) is Failed <==> stopped is Err
        }),
{
}

/// A replacement that goes well ends with a restarted daemon of the expected version,
/// and its record names the new process, its program and the expected version.
pub proof fn a_completed_replacement_is_recorded(
    plan: PlanView,
    manifest: ManifestView,
    endpoint: EndpointView,
    pid: u32,
    new_pid: u32,
    health: HealthView,
    program: Seq<u8>,
    now: u64,
)
    requires
        health.daemon_version == plan.expected,
    ensures
        ({
            let checked = reconcile_after_check(
                ReconcileView::CheckInstalled { manifest, endpoint, pid },
                plan,
                true,
            );
            let stopped = reconcile_after_stop(checked, Ok(()));
            let started = reconcile_after_start(stopped, plan, StartedView::Running(new_pid));
            let healthy = reconcile_after_health(started, plan, Ok(health));
            let saving = reconcile_after_read(healthy, plan, Ok(program), now);
            &&& saving matches ReconcileView::Save { manifest: record }
            &&& record.pid == new_pid
            &&& record.daemon_version == plan.expected
            &&& record.daemon_api_version == health.daemon_api_version
            &&& record.binary_path == plan.installed
            &&& record.binary_sha256 == Some(hex(sha256(program)))
            &&& record.last_health == now
            &&& reconcile_after_save(saving, Ok(())) matches ReconcileView::Done(outcome)
            &&& outcome.origin == BinaryOrigin::Sibling
            &&& outcome.was_running
            &&& outcome.restarted
            &&& outcome.observed_version == Some(plan.expected)
        }),
{
}

/// Once a replacement has begun, any step that goes wrong fails it.
pub proof fn a_broken_replacement_fails(
    plan: PlanView,
    manifest: ManifestView,
    endpoint: EndpointView,
    pid: u32,
    started: StartedView,
    health: Result<HealthView, VaultErrorView>,
    found: HealthView,
    program: Result<Seq<u8>, VaultErrorView>,
    saved: Result<(), VaultErrorView>,
    now: u64,
)
    ensures
        reconcile_after_start(ReconcileView::Start { manifest, endpoint }, plan, started) is Failed
            <==> !(started is Running),
        reconcile_after_health(
            ReconcileView::AwaitHealth { manifest, endpoint, pid },
            plan,
            health,
        ) is Failed <==> !(health matches Ok(answer) && answer.daemon_version == plan.expected),
        reconcile_after_read(
            ReconcileView::ReadProgram { manifest, health: found, pid },
            plan,
            program,
            now,
        ) is Failed <==> program is Err,
        reconcile_after_save(ReconcileView::Save { manifest }, saved) is Failed <==> saved is Err,
{
}

/// Without a record nothing is done; with one the recorded endpoint is probed. A
/// record that this system has no endpoint for fails only where the daemon is owned.
pub proof fn a_record_decides_whether_to_probe(
    plan: PlanView,
    loaded: Result<Option<ManifestView>, VaultErrorView>,
    resolved: ResolvedView,
)
    ensures
        ({
            let next = reconcile_after_load(ReconcileView::LoadManifest, plan, loaded, resolved);
            match loaded {
                Err(error) => next == ReconcileView::Failed(error),
                Ok(None) => next matches ReconcileView::Done(outcome) && outcome.origin
                    == BinaryOrigin::Unknown && !outcome.was_running && !outcome.restarted
                    && outcome.observed_version is None,
                Ok(Some(manifest)) => {
                    &&& next matches ReconcileView::Probe { manifest: kept, origin, endpoint } ==> kept
                        == manifest && recorded_endpoint(manifest.ipc, plan.windows) == Some(endpoint)
                        && (plan.config.daemon_path_override is Some ==> origin
                        == BinaryOrigin::Override) && (plan.config.daemon_path_override is None
                        && manifest.binary_origin != BinaryOrigin::Unknown ==> origin
                        == manifest.binary_origin)
                    &&& next is Probe <==> recorded_endpoint(manifest.ipc, plan.windows) is Some
                    &&& next is Done ==> !next->Done_0.was_running && !next->Done_0.restarted
                        && next->Done_0.observed_version is None
                    &&& next is Done && plan.config.daemon_path_override is None
                        && manifest.binary_origin != BinaryOrigin::Unknown ==> manifest.binary_origin
                        == BinaryOrigin::Override || manifest.binary_origin == BinaryOrigin::Path
                    &&& next is Failed ==> plan.config.daemon_path_override is None
                        && manifest.binary_origin != BinaryOrigin::Override && manifest.binary_origin
                        != BinaryOrigin::Path
                },
            }
        }),
{
}

/// Making room for the upgraded program: what to do next.
#[derive(Debug, PartialEq, Eq)]
pub enum Prepare {
    /// Take the lock of the home and read the record.
    LoadManifest,
    /// Probe the recorded endpoint.
    Probe { manifest: RuntimeManifest, origin: BinaryOrigin, endpoint: IpcEndpoint },
    /// Stop the running daemon.
    Shutdown { manifest: RuntimeManifest, endpoint: IpcEndpoint, pid: u32 },
    /// Whether the daemon was stopped.
    Done(bool),
    Failed(VaultError),
}

/// Making room for the upgraded program, as mathematical values.
pub enum PrepareView {
    LoadManifest,
    Probe { manifest: ManifestView, origin: BinaryOrigin, endpoint: EndpointView },
    Shutdown { manifest: ManifestView, endpoint: EndpointView, pid: u32 },
    Done(bool),
    Failed(VaultErrorView),
}

impl View for Prepare {
    type V = PrepareView;

    open spec fn view(&self) -> PrepareView {
        match self {
            Prepare::LoadManifest => PrepareView::LoadManifest,
            Prepare::Probe { manifest, origin, endpoint } => PrepareView::Probe {
                manifest: manifest@,
                origin: *origin,
                endpoint: endpoint@,
            },
            Prepare::Shutdown { manifest, endpoint, pid } => PrepareView::Shutdown {
                manifest: manifest@,
                endpoint: endpoint@,
                pid: *pid,
            },
            Prepare::Done(stopped) => PrepareView::Done(*stopped),
            Prepare::Failed(error) => PrepareView::Failed(error@),
        }
    }
}

/// After the record was read.
pub open spec fn prepare_after_load(
    state: PrepareView,
    plan: PlanView,
    loaded: Result<Option<ManifestView>, VaultErrorView>,
    resolved: ResolvedView,
) -> PrepareView {
    match state {
        PrepareView::LoadManifest => match loaded {
            Err(error) => PrepareView::Failed(error),
            Ok(None) => PrepareView::Done(false),
            Ok(Some(manifest)) => {
                let origin = owner_of(plan, manifest, resolved);
                match recorded_endpoint(manifest.ipc, plan.windows) {
                    Some(endpoint) => PrepareView::Probe { manifest, origin, endpoint },
                    None => if is_external(origin) {
                        PrepareView::Done(false)
                    } else {
                        PrepareView::Failed(unsupported_endpoint())
                    },
                }
            },
        },
        _ => state,
    }
}

/// After the endpoint was probed: only a healthy daemon that this installation
/// owns is stopped.
pub open spec fn prepare_after_probe(
    state: PrepareView,
    probe: Result<ProbeView, VaultErrorView>,
) -> PrepareView {
    match state {
        PrepareView::Probe { manifest, origin, endpoint } => match probe {
            Err(error) => PrepareView::Failed(error),
            Ok(ProbeView::Unreachable) => PrepareView::Done(false),
            Ok(outcome) => if is_external(origin) {
                PrepareView::Done(false)
            } else {
                match outcome {
                    ProbeView::Healthy(health) => PrepareView::Shutdown {
                        manifest,
                        endpoint,
                        pid: health.pid,
                    },
                    ProbeView::Incompatible(message) => PrepareView::Failed(unprepared(message)),
                    ProbeView::Invalid(message) => PrepareView::Failed(unprepared(message)),
                    ProbeView::Unreachable => PrepareView::Done(false),
                }
            },
        },
        _ => state,
    }
}

/// The error for an own daemon that does not answer as it should.
pub open spec fn unprepared(message: Seq<char>) -> VaultErrorView {
    VaultErrorView::DaemonBootstrap(
        "running semantic daemon could not be safely prepared: "@ + message,
    )
}

/// After the running daemon was stopped.
pub open spec fn prepare_after_stop(
    state: PrepareView,
    result: Result<(), VaultErrorView>,
) -> PrepareView {
    match state {
        PrepareView::Shutdown { manifest, endpoint, pid } => match result {
            Ok(_) => PrepareView::Done(true),
            Err(error) => PrepareView::Failed(error),
        },
        _ => state,
    }
}

fn not_prepared(message: &str) -> (state: Prepare)
    ensures
        state@ == PrepareView::Failed(unprepared(message@)),
{
    Prepare::Failed(
        VaultError::DaemonBootstrap(
            cat2("running semantic daemon could not be safely prepared: ", message),
        ),
    )
}

impl Prepare {
    /// The first step: without a record there is nothing to stop.
    pub fn start(manifest_is_file: bool) -> (state: Prepare)
        ensures
            state@ == if manifest_is_file {
                PrepareView::LoadManifest
            } else {
                PrepareView::Done(false)
            },
    {
        if manifest_is_file {
            Prepare::LoadManifest
        } else {
            Prepare::Done(false)
        }
    }

    /// Goes on after the record was read.
    pub fn loaded(
        self,
        plan: &ReconcilePlan,
        loaded: Result<Option<RuntimeManifest>, VaultError>,
        resolved: &ResolvedPaths,
    ) -> (next: Prepare)
        ensures
            next@ == prepare_after_load(self@, plan@, loaded_view(loaded), resolved@),
    {
        match self {
            Prepare::LoadManifest => match loaded {
                Err(error) => Prepare::Failed(error),
                Ok(None) => Prepare::Done(false),
                Ok(Some(manifest)) => {
                    let origin = owner(plan, &manifest, resolved);
                    match endpoint_from_manifest(&manifest, plan.windows) {
                        Some(endpoint) => Prepare::Probe { manifest, origin, endpoint },
                        None => if externally_owned(origin) {
                            Prepare::Done(false)
                        } else {
                            Prepare::Failed(
                                VaultError::DaemonBootstrap(
                                    "semantic manifest contains an unsupported IPC endpoint".to_owned(),
                                ),
                            )
                        },
                    }
                },
            },
            other => other,
        }
    }

    /// Goes on after the endpoint was probed.
    pub fn probed(self, probe: Result<HealthProbeOutcome, VaultError>) -> (next: Prepare)
        ensures
            next@ == prepare_after_probe(self@, probe_view(probe)),
    {
        match self {
            Prepare::Probe { manifest, origin, endpoint } => match probe {
                Err(error) => Prepare::Failed(error),
                Ok(HealthProbeOutcome::Unreachable) => Prepare::Done(false),
                Ok(HealthProbeOutcome::Healthy(health)) => if externally_owned(origin) {
                    Prepare::Done(false)
                } else {
                    Prepare::Shutdown { manifest, endpoint, pid: health.pid }
                },
                Ok(HealthProbeOutcome::Incompatible(message)) => if externally_owned(origin) {
                    Prepare::Done(false)
                } else {
                    not_prepared(message.as_str())
                },
                Ok(HealthProbeOutcome::Invalid(message)) => if externally_owned(origin) {
                    Prepare::Done(false)
                } else {
                    not_prepared(message.as_str())
                },
            },
            other => other,
        }
    }

    /// Ends after the running daemon was stopped.
    pub fn stopped(self, result: Result<(), VaultError>) -> (next: Prepare)
        ensures
            next@ == prepare_after_stop(self@, unit_result(result)),
    {
        match self {
            Prepare::Shutdown { manifest: _, endpoint: _, pid: _ } => match result {
                Ok(_) => Prepare::Done(true),
                Err(error) => Prepare::Failed(error),
            },
            other => other,
        }
    }
}

/// A daemon of somebody else is never stopped to make room, and a stopped daemon
/// is always reported so that it can be brought back.
pub proof fn preparation_stops_only_owned_daemons(
    state: PrepareView,
    probe: Result<ProbeView, VaultErrorView>,
    result: Result<(), VaultErrorView>,
)
    ensures
        state is Probe && is_external(state->Probe_origin) ==> !(prepare_after_probe(state, probe)
            is Shutdown),
        state is Shutdown && result is Ok ==> prepare_after_stop(state, result)
            == PrepareView::Done(true),
        prepare_after_stop(state, result) == PrepareView::Done(true) && !(state is Done) ==> state
            is Shutdown,
{
}

/// Making room stops a daemon exactly where it belongs to this installation and
/// answers healthily; it fails exactly where the probe failed or an own daemon
/// answers incompatibly or invalidly. A daemon that is not running, or of somebody
/// else, is left as it is, and then none counts as stopped.
pub proof fn preparation_goes_by_owner_and_answer(
    manifest: ManifestView,
    origin: BinaryOrigin,
    endpoint: EndpointView,
    probe: Result<ProbeView, VaultErrorView>,
)
    ensures
        ({
            let next = prepare_after_probe(PrepareView::Probe { manifest, origin, endpoint }, probe);
            let owned = origin == BinaryOrigin::Sibling || origin == BinaryOrigin::ManagedDownload;
            match probe {
                Err(error) => next == PrepareView::Failed(error),
                Ok(ProbeView::Unreachable) => next == PrepareView::Done(false),
                Ok(ProbeView::Healthy(health)) => if owned {
                    next == (PrepareView::Shutdown { manifest, endpoint, pid: health.pid })
                } else {
                    next == PrepareView::Done(false)
                },
                Ok(_) => if owned {
                    next is Failed
                } else {
                    next == PrepareView::Done(false)
                },
            }
        }),
{
}

} // verus!
