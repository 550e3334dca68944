//! The course of an upgrade, from the first look at the installation to the
//! report.

use crate::daemon::bootstrap::{BootstrapResult, DaemonReconcileOutcome};
use crate::daemon::ensure::ResultView;
use crate::daemon::reconcile::OutcomeView;
use crate::error::{vault_error_text, VaultError, VaultErrorView};
use crate::text::{cat2, cat3};
use crate::upgrade::{
    activation_views, target_views, upgrade_error_text, ActivationResult, ActivationView,
    BuildIdentity, InstallRecord, RecordView, ReportView, SemanticReconcileResult, SemanticView,
    ServiceTarget, TargetView, UpgradeError, UpgradeErrorView, UpgradeReport,
};
use crate::upgrade::build_info::IdentityView;
use crate::upgrade::cargo_install::{
    cargo_install_args, install_arguments, installed_binary, installed_path, InstallOutcome,
};
use crate::upgrade::orchestrator::{
    ensure_no_unmanaged_http, merge_service_targets, merged_targets, needs_activation,
    process_fault, reconcile_result, reconcile_semantic, reconciled_view, restarted_semantic,
    restarted_view, service_needs_activation, start_result, unchanged_result, unchanged_service,
    OptionsView, RunOutcomeView, UpgradeOptions, UpgradePlan, UpgradePlanView, UpgradeRunOutcome,
};
use crate::upgrade::processes::ProcessCandidate;
use vstd::prelude::*;

verus! {

/// What an upgrade runs with.
#[derive(Debug, PartialEq, Eq)]
pub struct UpgradeContext {
    pub options: UpgradeOptions,
    /// The identity of the running binary.
    pub identity: BuildIdentity,
    pub windows: bool,
    pub current_pid: u32,
}

/// What an upgrade runs with, as mathematical values.
#[verifier::ext_equal]
pub struct ContextView {
    pub options: OptionsView,
    pub identity: IdentityView,
    pub windows: bool,
    pub current_pid: u32,
}

impl View for UpgradeContext {
    type V = ContextView;

    open spec fn view(&self) -> ContextView {
        ContextView {
            options: self.options@,
            identity: self.identity@,
            windows: self.windows,
            current_pid: self.current_pid,
        }
    }
}

/// Whether the installation is locked.
#[derive(Debug, Clone, Copy, PartialEq, Eq, Structural)]
pub enum Phase {
    /// Nothing has been touched.
    Preflight,
    /// No other upgrade uses the installation.
    Locked,
}

/// What was found under the lock.
#[derive(Debug, PartialEq, Eq)]
pub struct Ready {
    pub record: InstallRecord,
    /// The program of the daemon in the installation.
    pub daemon: String,
    pub services: Vec<ServiceTarget>,
}

/// What was found under the lock, as mathematical values.
#[verifier::ext_equal]
pub struct ReadyView {
    pub record: RecordView,
    pub daemon: Seq<char>,
    pub services: Seq<TargetView>,
}

impl View for Ready {
    type V = ReadyView;

    open spec fn view(&self) -> ReadyView {
        ReadyView {
            record: self.record@,
            daemon: self.daemon@,
            services: target_views(self.services@),
        }
    }
}

/// A package that was installed and is not yet in use.
#[derive(Debug, PartialEq, Eq)]
pub struct Installed {
    pub daemon: String,
    pub services: Vec<ServiceTarget>,
    /// The identity of the installed binaries.
    pub identity: BuildIdentity,
    /// Whether a binary is not what it was.
    pub changed: bool,
    /// Whether the daemon was stopped for the installation.
    pub stopped: bool,
}

/// An installed package, as mathematical values.
#[verifier::ext_equal]
pub struct InstalledView {
    pub daemon: Seq<char>,
    pub services: Seq<TargetView>,
    pub identity: IdentityView,
    pub changed: bool,
    pub stopped: bool,
}

impl View for Installed {
    type V = InstalledView;

    open spec fn view(&self) -> InstalledView {
        InstalledView {
            daemon: self.daemon@,
            services: target_views(self.services@),
            identity: self.identity@,
            changed: self.changed,
            stopped: self.stopped,
        }
    }
}

/// The restart of the services, one after the other.
#[derive(Debug, PartialEq, Eq)]
pub struct Activation {
    pub services: Vec<ServiceTarget>,
    pub identity: BuildIdentity,
    pub changed: bool,
    pub semantic: SemanticReconcileResult,
    /// What became of the services so far, in their order.
    pub results: Vec<ActivationResult>,
    /// Whether a restart of a service was tried.
    pub attempted: bool,
}

/// The restart of the services, as mathematical values.
#[verifier::ext_equal]
pub struct ProgressView {
    pub services: Seq<TargetView>,
    pub identity: IdentityView,
    pub changed: bool,
    pub semantic: SemanticView,
    pub results: Seq<ActivationView>,
    pub attempted: bool,
}

impl View for Activation {
    type V = ProgressView;

    open spec fn view(&self) -> ProgressView {
        ProgressView {
            services: target_views(self.services@),
            identity: self.identity@,
            changed: self.changed,
            semantic: self.semantic@,
            results: activation_views(self.results@),
            attempted: self.attempted,
        }
    }
}

/// An upgrade: what to do next.
#[derive(Debug, PartialEq, Eq)]
pub enum Upgrade {
    /// Wait until the process that handed the upgrade over has ended.
    AwaitReplacement(u32),
    /// Find the installation of the executable.
    DiscoverInstall(Phase),
    /// Find the running services of the executable.
    DiscoverServices(Phase, InstallRecord),
    /// List the other processes of the executable.
    ListProcesses(Phase, InstallRecord, Vec<ServiceTarget>),
    /// Start the helper that goes on with the upgrade.
    Handoff,
    /// Lock the installation.
    Lock(InstallRecord),
    /// Stop an owned daemon so that its program can be replaced.
    PrepareDaemon(Ready),
    /// Run Cargo and verify what it installed.
    Install { ready: Ready, stopped: bool },
    /// Start the stopped daemon again after a failed installation.
    RestoreDaemon { daemon: String, error: UpgradeError },
    /// Find the running services once more.
    RefreshServices(Installed),
    /// List the other processes once more.
    RecheckProcesses(Installed),
    /// Start the stopped daemon from the installed program.
    RestartDaemon(Installed),
    /// Bring a running daemon to the installed version.
    ReconcileDaemon(Installed),
    /// Restart the next service.
    Activate(Activation),
    Done(UpgradeRunOutcome),
    Failed(UpgradeError),
}

/// An upgrade, as mathematical values.
pub enum UpgradeView {
    AwaitReplacement(u32),
    DiscoverInstall(Phase),
    DiscoverServices(Phase, RecordView),
    ListProcesses(Phase, RecordView, Seq<TargetView>),
    Handoff,
    Lock(RecordView),
    PrepareDaemon(ReadyView),
    Install { ready: ReadyView, stopped: bool },
    RestoreDaemon { daemon: Seq<char>, error: UpgradeErrorView },
    RefreshServices(InstalledView),
    RecheckProcesses(InstalledView),
    RestartDaemon(InstalledView),
    ReconcileDaemon(InstalledView),
    Activate(ProgressView),
    Done(RunOutcomeView),
    Failed(UpgradeErrorView),
}

impl View for Upgrade {
    type V = UpgradeView;

    open spec fn view(&self) -> UpgradeView {
        match self {
            Upgrade::AwaitReplacement(pid) => UpgradeView::AwaitReplacement(*pid),
            Upgrade::DiscoverInstall(phase) => UpgradeView::DiscoverInstall(*phase),
            Upgrade::DiscoverServices(phase, record) => UpgradeView::DiscoverServices(
                *phase,
                record@,
            ),
            Upgrade::ListProcesses(phase, record, services) => UpgradeView::ListProcesses(
                *phase,
                record@,
                target_views(services@),
            ),
            Upgrade::Handoff => UpgradeView::Handoff,
            Upgrade::Lock(record) => UpgradeView::Lock(record@),
            Upgrade::PrepareDaemon(ready) => UpgradeView::PrepareDaemon(ready@),
            Upgrade::Install { ready, stopped } => UpgradeView::Install {
                ready: ready@,
                stopped: *stopped,
            },
            Upgrade::RestoreDaemon { daemon, error } => UpgradeView::RestoreDaemon {
                daemon: daemon@,
                error: error@,
            },
            Upgrade::RefreshServices(installed) => UpgradeView::RefreshServices(installed@),
            Upgrade::RecheckProcesses(installed) => UpgradeView::RecheckProcesses(installed@),
            Upgrade::RestartDaemon(installed) => UpgradeView::RestartDaemon(installed@),
            Upgrade::ReconcileDaemon(installed) => UpgradeView::ReconcileDaemon(installed@),
            Upgrade::Activate(activation) => UpgradeView::Activate(activation@),
            Upgrade::Done(outcome) => UpgradeView::Done(outcome@),
            Upgrade::Failed(error) => UpgradeView::Failed(error@),
        }
    }
}

/// Something that happened during an upgrade.
pub enum UpgradeEventView {
    /// The wait for the handing process ended.
    ReplacementAwaited(Result<(), UpgradeErrorView>),
    InstallFound(Result<RecordView, UpgradeErrorView>),
    ServicesFound(Result<Seq<TargetView>, UpgradeErrorView>),
    ProcessesListed(Result<Seq<ProcessCandidate>, UpgradeErrorView>),
    HandedOver(Result<Seq<char>, UpgradeErrorView>),
    Locked(Result<(), UpgradeErrorView>),
    /// Whether a daemon was stopped.
    DaemonPrepared(Result<bool, VaultErrorView>),
    /// The identity of the installed binaries, and whether one changed.
    PackageInstalled(Result<(IdentityView, bool), UpgradeErrorView>),
    DaemonStarted(Result<ResultView, VaultErrorView>),
    DaemonReconciled(Result<OutcomeView, VaultErrorView>),
    ServiceRestarted(ActivationView),
}

/// The result of the service that is restarted next.
pub open spec fn result_for(progress: ProgressView, result: ActivationView) -> ActivationView {
    if progress.results.len() < progress.services.len() {
        ActivationView {
            target_id: progress.services[progress.results.len() as int].id,
            ..result
        }
    } else {
        result
    }
}

/// How an upgrade starts.
pub open spec fn upgrade_start(context: ContextView) -> UpgradeView {
    match context.options.windows_parent_pid {
        Some(pid) => if context.windows {
            UpgradeView::AwaitReplacement(pid)
        } else {
            UpgradeView::DiscoverInstall(Phase::Preflight)
        },
        None => UpgradeView::DiscoverInstall(Phase::Preflight),
    }
}

/// The plan that a dry run shows.
pub open spec fn plan_of(
    context: ContextView,
    record: RecordView,
    services: Seq<TargetView>,
) -> UpgradePlanView {
    UpgradePlanView {
        identity: context.identity,
        install: record,
        cargo_args: install_arguments(record, context.identity.features),
        services,
    }
}

/// What was found under the lock.
pub open spec fn ready_of(
    context: ContextView,
    record: RecordView,
    services: Seq<TargetView>,
) -> ReadyView {
    ReadyView {
        record,
        daemon: installed_path(record.root, "obsidian-semanticd"@, context.windows),
        services,
    }
}

/// After no process stands in the way.
pub open spec fn upgrade_after_check(
    context: ContextView,
    phase: Phase,
    record: RecordView,
    services: Seq<TargetView>,
) -> UpgradeView {
    match phase {
        Phase::Preflight => if context.options.dry_run {
            UpgradeView::Done(RunOutcomeView::DryRun(plan_of(context, record, services)))
        } else if context.windows && context.options.windows_parent_pid is None {
            UpgradeView::Handoff
        } else {
            UpgradeView::Lock(record)
        },
        Phase::Locked => if context.windows {
            UpgradeView::PrepareDaemon(ready_of(context, record, services))
        } else {
            UpgradeView::Install { ready: ready_of(context, record, services), stopped: false }
        },
    }
}

/// The error of a failed installation after which the daemon was started again.
pub open spec fn restoration_error(
    error: UpgradeErrorView,
    result: Result<ResultView, VaultErrorView>,
) -> UpgradeErrorView {
    UpgradeErrorView::Install(
        match result {
            Ok(_) => upgrade_error_text(error)
                + "; the semantic daemon was restored after the failed installation"@,
            Err(failure) => upgrade_error_text(error)
                + "; additionally, the semantic daemon could not be restored: "@
                + vault_error_text(failure),
        },
    )
}

/// The report of an upgrade.
pub open spec fn report_of(context: ContextView, progress: ProgressView) -> ReportView {
    ReportView {
        old_identity: context.identity,
        new_identity: progress.identity,
        binaries_changed: progress.changed,
        semantic: Some(progress.semantic),
        services: progress.results,
        stdio_reconnect_required: progress.changed,
        activation_attempted: progress.attempted || progress.semantic.restarted
            || !progress.semantic.success,
    }
}

/// The next service to restart, or the report after the last one. A service that
/// already reports the installed version is not restarted.
pub open spec fn next_activation(context: ContextView, progress: ProgressView) -> UpgradeView
    decreases progress.services.len() - progress.results.len(),
{
    let at = progress.results.len() as int;
    if at >= progress.services.len() {
        UpgradeView::Done(RunOutcomeView::Completed(report_of(context, progress)))
    } else if needs_activation(progress.services[at], progress.identity.version) {
        UpgradeView::Activate(progress)
    } else {
        next_activation(
            context,
            ProgressView {
                results: progress.results.push(unchanged_result(progress.services[at])),
                ..progress
            },
        )
    }
}

/// The first step of the restarts.
pub open spec fn activation_start(
    context: ContextView,
    installed: InstalledView,
    semantic: SemanticView,
) -> UpgradeView {
    next_activation(
        context,
        ProgressView {
            services: installed.services,
            identity: installed.identity,
            changed: installed.changed,
            semantic,
            results: Seq::empty(),
            attempted: false,
        },
    )
}

/// An upgrade after an event. An event that does not belong to the step changes
/// nothing.
pub open spec fn upgrade_step(
    state: UpgradeView,
    context: ContextView,
    event: UpgradeEventView,
) -> UpgradeView {
    match (state, event) {
        (UpgradeView::AwaitReplacement(_), UpgradeEventView::ReplacementAwaited(result)) =>
        match result {
            Ok(_) => UpgradeView::DiscoverInstall(Phase::Preflight),
            Err(error) => UpgradeView::Failed(error),
        },
        (UpgradeView::DiscoverInstall(phase), UpgradeEventView::InstallFound(result)) =>
        match result {
            Ok(record) => UpgradeView::DiscoverServices(phase, record),
            Err(error) => UpgradeView::Failed(error),
        },
        (UpgradeView::DiscoverServices(phase, record), UpgradeEventView::ServicesFound(result)) =>
        match result {
            Ok(services) => UpgradeView::ListProcesses(phase, record, services),
            Err(error) => UpgradeView::Failed(error),
        },
        (
            UpgradeView::ListProcesses(phase, record, services),
            UpgradeEventView::ProcessesListed(result),
        ) => match result {
            Ok(candidates) => match process_fault(candidates, services, context.current_pid) {
                None => upgrade_after_check(context, phase, record, services),
                Some(error) => UpgradeView::Failed(error),
            },
            Err(error) => UpgradeView::Failed(error),
        },
        (UpgradeView::Handoff, UpgradeEventView::HandedOver(result)) => match result {
            Ok(helper) => UpgradeView::Done(RunOutcomeView::WindowsHandoff { helper }),
            Err(error) => UpgradeView::Failed(error),
        },
        (UpgradeView::Lock(_), UpgradeEventView::Locked(result)) => match result {
            Ok(_) => UpgradeView::DiscoverInstall(Phase::Locked),
            Err(error) => UpgradeView::Failed(error),
        },
        (UpgradeView::PrepareDaemon(ready), UpgradeEventView::DaemonPrepared(result)) =>
        match result {
            Ok(stopped) => UpgradeView::Install { ready, stopped },
            Err(error) => UpgradeView::Failed(
                UpgradeErrorView::Activation(vault_error_text(error)),
            ),
        },
        (UpgradeView::Install { ready, stopped }, UpgradeEventView::PackageInstalled(result)) =>
        match result {
            Ok((identity, changed)) => UpgradeView::RefreshServices(
                InstalledView {
                    daemon: ready.daemon,
                    services: ready.services,
                    identity,
                    changed,
                    stopped,
                },
            ),
            Err(error) => if stopped {
                UpgradeView::RestoreDaemon { daemon: ready.daemon, error }
            } else {
                UpgradeView::Failed(error)
            },
        },
        (UpgradeView::RestoreDaemon { daemon, error }, UpgradeEventView::DaemonStarted(result)) =>
        UpgradeView::Failed(restoration_error(error, result)),
        (UpgradeView::RefreshServices(installed), UpgradeEventView::ServicesFound(result)) =>
        match result {
            Ok(services) => UpgradeView::RecheckProcesses(
                InstalledView {
                    services: merged_targets(installed.services, services),
                    ..installed
                },
            ),
            Err(error) => UpgradeView::Failed(
                UpgradeErrorView::Activation(
                    "binaries were installed, but running services could not be rediscovered: "@
                        + upgrade_error_text(error),
                ),
            ),
        },
        (UpgradeView::RecheckProcesses(installed), UpgradeEventView::ProcessesListed(result)) => {
            let fault = match result {
                Ok(candidates) => process_fault(
                    candidates,
                    installed.services,
                    context.current_pid,
                ),
                Err(error) => Some(error),
            };
            match fault {
                Some(error) => UpgradeView::Failed(
                    UpgradeErrorView::Activation(
                        "binaries were installed, but runtime activation is incomplete: "@
                            + upgrade_error_text(error),
                    ),
                ),
                None => if installed.stopped {
                    UpgradeView::RestartDaemon(installed)
                } else {
                    UpgradeView::ReconcileDaemon(installed)
                },
            }
        },
        (UpgradeView::RestartDaemon(installed), UpgradeEventView::DaemonStarted(result)) =>
        activation_start(context, installed, restarted_view(result, installed.identity.version)),
        (UpgradeView::ReconcileDaemon(installed), UpgradeEventView::DaemonReconciled(result)) =>
        activation_start(context, installed, reconciled_view(result)),
        (UpgradeView::Activate(progress), UpgradeEventView::ServiceRestarted(result)) =>
        next_activation(
            context,
            ProgressView { results: progress.results.push(result_for(progress, result)), attempted: true, ..progress },
        ),
        _ => state,
    }
}

/// A result without a value, as mathematical values.
pub open spec fn unit_view(result: Result<(), UpgradeError>) -> Result<(), UpgradeErrorView> {
    match result {
        Ok(_) => Ok(()),
        Err(error) => Err(error@),
    }
}

/// A found installation, as mathematical values.
pub open spec fn record_result(result: Result<InstallRecord, UpgradeError>) -> Result<
    RecordView,
    UpgradeErrorView,
> {
    match result {
        Ok(record) => Ok(record@),
        Err(error) => Err(error@),
    }
}

/// Found services, as mathematical values.
pub open spec fn services_result(result: Result<Vec<ServiceTarget>, UpgradeError>) -> Result<
    Seq<TargetView>,
    UpgradeErrorView,
> {
    match result {
        Ok(services) => Ok(target_views(services@)),
        Err(error) => Err(error@),
    }
}

/// Listed processes, as mathematical values.
pub open spec fn processes_result(result: Result<Vec<ProcessCandidate>, UpgradeError>) -> Result<
    Seq<ProcessCandidate>,
    UpgradeErrorView,
> {
    match result {
        Ok(candidates) => Ok(candidates@),
        Err(error) => Err(error@),
    }
}

/// The path of a helper, as mathematical values.
pub open spec fn helper_result(result: Result<String, UpgradeError>) -> Result<
    Seq<char>,
    UpgradeErrorView,
> {
    match result {
        Ok(helper) => Ok(helper@),
        Err(error) => Err(error@),
    }
}

/// Whether a daemon was stopped, as mathematical values.
pub open spec fn prepared_result(result: Result<bool, VaultError>) -> Result<bool, VaultErrorView> {
    match result {
        Ok(stopped) => Ok(stopped),
        Err(error) => Err(error@),
    }
}

/// A finished installation, as mathematical values.
pub open spec fn installed_result(result: Result<InstallOutcome, UpgradeError>) -> Result<
    (IdentityView, bool),
    UpgradeErrorView,
> {
    match result {
        Ok(outcome) => Ok((outcome.after.main_identity@, outcome.changed)),
        Err(error) => Err(error@),
    }
}

fn proceed(
    context: &UpgradeContext,
    phase: Phase,
    record: InstallRecord,
    services: Vec<ServiceTarget>,
) -> (state: Upgrade)
    ensures
        state@ == upgrade_after_check(context@, phase, record@, target_views(services@)),
{
    match phase {
        Phase::Preflight => if context.options.dry_run {
            let cargo_args = cargo_install_args(&record, &context.identity);
            Upgrade::Done(
                UpgradeRunOutcome::DryRun(
                    UpgradePlan {
                        identity: context.identity.copied(),
                        install: record,
                        cargo_args,
                        services,
                    },
                ),
            )
        } else if context.windows && context.options.windows_parent_pid.is_none() {
            Upgrade::Handoff
        } else {
            Upgrade::Lock(record)
        },
        Phase::Locked => {
            let daemon = installed_binary(
                record.root.as_str(),
                "obsidian-semanticd",
                context.windows,
            );
            let ready = Ready { record, daemon, services };
            if context.windows {
                Upgrade::PrepareDaemon(ready)
            } else {
                Upgrade::Install { ready, stopped: false }
            }
        },
    }
}

fn go_on(context: &UpgradeContext, activation: Activation) -> (state: Upgrade)
    ensures
        state@ == next_activation(context@, activation@),
{
    let mut progress = activation;
    let ghost first = progress@;
    while progress.results.len() < progress.services.len()
        invariant
            first == activation@,
            next_activation(context@, first) == next_activation(context@, progress@),
        decreases progress.services@.len() - progress.results@.len(),
    {
        let at: usize = progress.results.len();
        let ghost now = progress@;
        assert(now.services[at as int] == progress.services@[at as int]@);
        if service_needs_activation(
            &progress.services[at],
            progress.identity.version.as_str(),
        ) {
            return Upgrade::Activate(progress);
        }
        let result = unchanged_service(&progress.services[at]);
        let ghost results = progress.results@;
        progress.results.push(result);
        assert(activation_views(progress.results@) =~= activation_views(results).push(result@));
    }
    let attempted = progress.attempted || progress.semantic.restarted || !progress.semantic.success;
    Upgrade::Done(
        UpgradeRunOutcome::Completed(
            UpgradeReport {
                old_identity: context.identity.copied(),
                new_identity: progress.identity,
                binaries_changed: progress.changed,
                semantic: Some(progress.semantic),
                services: progress.results,
                stdio_reconnect_required: progress.changed,
                activation_attempted: attempted,
            },
        ),
    )
}

fn begin_activation(
    context: &UpgradeContext,
    installed: Installed,
    semantic: SemanticReconcileResult,
) -> (state: Upgrade)
    ensures
        state@ == activation_start(context@, installed@, semantic@),
{
    let results: Vec<ActivationResult> = Vec::new();
    assert(activation_views(results@) =~= Seq::empty());
    go_on(
        context,
        Activation {
            services: installed.services,
            identity: installed.identity,
            changed: installed.changed,
            semantic,
            results,
            attempted: false,
        },
    )
}

impl Upgrade {
    /// The first step.
    pub fn start(context: &UpgradeContext) -> (state: Upgrade)
        ensures
            state@ == upgrade_start(context@),
    {
        match context.options.windows_parent_pid {
            Some(pid) => if context.windows {
                Upgrade::AwaitReplacement(pid)
            } else {
                Upgrade::DiscoverInstall(Phase::Preflight)
            },
            None => Upgrade::DiscoverInstall(Phase::Preflight),
        }
    }

    /// Goes on after the wait for the process that handed the upgrade over.
    pub fn replacement_awaited(self, context: &UpgradeContext, result: Result<(), UpgradeError>) -> (
    next: Upgrade)
        ensures
            next@ == upgrade_step(
                self@,
                context@,
                UpgradeEventView::ReplacementAwaited(unit_view(result)),
            ),
    {
        match self {
            Upgrade::AwaitReplacement(_) => match result {
                Ok(_) => Upgrade::DiscoverInstall(Phase::Preflight),
                Err(error) => Upgrade::Failed(error),
            },
            other => other,
        }
    }

    /// Goes on after the installation was looked for.
    pub fn install_found(
        self,
        context: &UpgradeContext,
        result: Result<InstallRecord, UpgradeError>,
    ) -> (next: Upgrade)
        ensures
            next@ == upgrade_step(
                self@,
                context@,
                UpgradeEventView::InstallFound(record_result(result)),
            ),
    {
        match self {
            Upgrade::DiscoverInstall(phase) => match result {
                Ok(record) => Upgrade::DiscoverServices(phase, record),
                Err(error) => Upgrade::Failed(error),
            },
            other => other,
        }
    }

    /// Goes on after the running services were looked for.
    pub fn services_found(
        self,
        context: &UpgradeContext,
        result: Result<Vec<ServiceTarget>, UpgradeError>,
    ) -> (next: Upgrade)
        ensures
            next@ == upgrade_step(
                self@,
                context@,
                UpgradeEventView::ServicesFound(services_result(result)),
            ),
    {
        match self {
            Upgrade::DiscoverServices(phase, record) => match result {
                Ok(services) => Upgrade::ListProcesses(phase, record, services),
                Err(error) => Upgrade::Failed(error),
            },
            Upgrade::RefreshServices(installed) => match result {
                Ok(services) => {
                    let mut refreshed = installed;
                    merge_service_targets(&mut refreshed.services, services);
                    Upgrade::RecheckProcesses(refreshed)
                },
                Err(error) => {
                    let text = error.message();
                    Upgrade::Failed(
                        UpgradeError::Activation(
                            cat2(
                                "binaries were installed, but running services could not be rediscovered: ",
                                text.as_str(),
                            ),
                        ),
                    )
                },
            },
            other => other,
        }
    }

    /// Goes on after the other processes of the executable were listed.
    pub fn processes_listed(
        self,
        context: &UpgradeContext,
        result: Result<Vec<ProcessCandidate>, UpgradeError>,
    ) -> (next: Upgrade)
        ensures
            next@ == upgrade_step(
                self@,
                context@,
                UpgradeEventView::ProcessesListed(processes_result(result)),
            ),
    {
        match self {
            Upgrade::ListProcesses(phase, record, services) => match result {
                Ok(candidates) => match ensure_no_unmanaged_http(
                    &candidates,
                    &services,
                    context.current_pid,
                ) {
                    Ok(_) => proceed(context, phase, record, services),
                    Err(error) => Upgrade::Failed(error),
                },
                Err(error) => Upgrade::Failed(error),
            },
            Upgrade::RecheckProcesses(installed) => {
                let checked = match result {
                    Ok(candidates) => ensure_no_unmanaged_http(
                        &candidates,
                        &installed.services,
                        context.current_pid,
                    ),
                    Err(error) => Err(error),
                };
                match checked {
                    Ok(_) => if installed.stopped {
                        Upgrade::RestartDaemon(installed)
                    } else {
                        Upgrade::ReconcileDaemon(installed)
                    },
                    Err(error) => {
                        let text = error.message();
                        Upgrade::Failed(
                            UpgradeError::Activation(
                                cat2(
                                    "binaries were installed, but runtime activation is incomplete: ",
                                    text.as_str(),
                                ),
                            ),
                        )
                    },
                }
            },
            other => other,
        }
    }

    /// Ends after the helper was started.
    pub fn handed_over(self, context: &UpgradeContext, result: Result<String, UpgradeError>) -> (
    next: Upgrade)
        ensures
            next@ == upgrade_step(
                self@,
                context@,
                UpgradeEventView::HandedOver(helper_result(result)),
            ),
    {
        match self {
            Upgrade::Handoff => match result {
                Ok(helper) => Upgrade::Done(UpgradeRunOutcome::WindowsHandoff { helper }),
                Err(error) => Upgrade::Failed(error),
            },
            other => other,
        }
    }

    /// Goes on after the installation was locked.
    pub fn locked(self, context: &UpgradeContext, result: Result<(), UpgradeError>) -> (next: Upgrade)
        ensures
            next@ == upgrade_step(
                self@,
                context@,
                UpgradeEventView::Locked(unit_view(result)),
            ),
    {
        match self {
            Upgrade::Lock(_) => match result {
                Ok(_) => Upgrade::DiscoverInstall(Phase::Locked),
                Err(error) => Upgrade::Failed(error),
            },
            other => other,
        }
    }

    /// Goes on after the daemon was made ready for the replacement.
    pub fn daemon_prepared(self, context: &UpgradeContext, result: Result<bool, VaultError>) -> (
    next: Upgrade)
        ensures
            next@ == upgrade_step(
                self@,
                context@,
                UpgradeEventView::DaemonPrepared(prepared_result(result)),
            ),
    {
        match self {
            Upgrade::PrepareDaemon(ready) => match result {
                Ok(stopped) => Upgrade::Install { ready, stopped },
                Err(error) => Upgrade::Failed(UpgradeError::Activation(error.message().clone())),
            },
            other => other,
        }
    }

    /// Goes on after Cargo ran and its binaries were verified.
    pub fn package_installed(
        self,
        context: &UpgradeContext,
        result: Result<InstallOutcome, UpgradeError>,
    ) -> (next: Upgrade)
        ensures
            next@ == upgrade_step(
                self@,
                context@,
                UpgradeEventView::PackageInstalled(installed_result(result)),
            ),
    {
        match self {
            Upgrade::Install { ready, stopped } => match result {
                Ok(outcome) => Upgrade::RefreshServices(
                    Installed {
                        daemon: ready.daemon,
                        services: ready.services,
                        identity: outcome.after.main_identity,
                        changed: outcome.changed,
                        stopped,
                    },
                ),
                Err(error) => if stopped {
                    Upgrade::RestoreDaemon { daemon: ready.daemon, error }
                } else {
                    Upgrade::Failed(error)
                },
            },
            other => other,
        }
    }

    /// Goes on after a stopped daemon was started again.
    pub fn daemon_started(
        self,
        context: &UpgradeContext,
        result: Result<BootstrapResult, VaultError>,
    ) -> (next: Upgrade)
        ensures
            next@ == upgrade_step(
                self@,
                context@,
                UpgradeEventView::DaemonStarted(start_result(result)),
            ),
    {
        match self {
            Upgrade::RestoreDaemon { daemon: _, error } => {
                let text = error.message();
                Upgrade::Failed(
                    UpgradeError::Install(
                        match result {
                            Ok(_) => cat2(
                                text.as_str(),
                                "; the semantic daemon was restored after the failed installation",
                            ),
                            Err(failure) => cat3(
                                text.as_str(),
                                "; additionally, the semantic daemon could not be restored: ",
                                failure.message().as_str(),
                            ),
                        },
                    ),
                )
            },
            Upgrade::RestartDaemon(installed) => {
                let semantic = restarted_semantic(result, installed.identity.version.as_str());
                begin_activation(context, installed, semantic)
            },
            other => other,
        }
    }

    /// Goes on after a running daemon was brought to the installed version.
    pub fn daemon_reconciled(
        self,
        context: &UpgradeContext,
        result: Result<DaemonReconcileOutcome, VaultError>,
    ) -> (next: Upgrade)
        ensures
            next@ == upgrade_step(
                self@,
                context@,
                UpgradeEventView::DaemonReconciled(reconcile_result(result)),
            ),
    {
        match self {
            Upgrade::ReconcileDaemon(installed) => {
                let semantic = reconcile_semantic(result);
                begin_activation(context, installed, semantic)
            },
            other => other,
        }
    }

    /// Goes on after the next service was restarted. The result is that of this
    /// service, whatever identifier it came with.
    pub fn service_restarted(self, context: &UpgradeContext, result: ActivationResult) -> (next:
        Upgrade)
        ensures
            next@ == upgrade_step(
                self@,
                context@,
                UpgradeEventView::ServiceRestarted(result@),
            ),
    {
        match self {
            Upgrade::Activate(activation) => {
                let mut progress = activation;
                let ghost results = progress.results@;
                let ghost owned = result_for(progress@, result@);
                let at: usize = progress.results.len();
                let mut own = result;
                if at < progress.services.len() {
                    assert(progress@.services[at as int] == progress.services@[at as int]@);
                    own.target_id = progress.services[at].id.clone();
                }
                assert(own@ == owned);
                progress.results.push(own);
                progress.attempted = true;
                assert(activation_views(progress.results@) =~= activation_views(results).push(
                    owned,
                ));
                go_on(context, progress)
            },
            other => other,
        }
    }

    /// The service to restart next.
    pub fn next_service(&self) -> (service: Option<&ServiceTarget>)
        ensures
            match self@ {
                UpgradeView::Activate(progress) => if progress.results.len()
                    < progress.services.len() {
                    service matches Some(target) && target@
                        == progress.services[progress.results.len() as int]
                } else {
                    service is None
                },
                _ => service is None,
            },
    {
        match self {
            Upgrade::Activate(activation) => {
                let at: usize = activation.results.len();
                assert(activation@.results.len() == at);
                if at < activation.services.len() {
                    assert(activation@.services[at as int] == activation.services@[at as int]@);
                    Some(&activation.services[at])
                } else {
                    None
                }
            },
            _ => None,
        }
    }
}

/// Whether nothing has been locked, installed, stopped or restarted yet.
pub open spec fn untouched(state: UpgradeView) -> bool {
    match state {
        UpgradeView::AwaitReplacement(_) => true,
        UpgradeView::DiscoverInstall(phase) => phase == Phase::Preflight,
        UpgradeView::DiscoverServices(phase, _) => phase == Phase::Preflight,
        UpgradeView::ListProcesses(phase, _, _) => phase == Phase::Preflight,
        UpgradeView::Done(outcome) => outcome is DryRun,
        UpgradeView::Failed(_) => true,
        _ => false,
    }
}

/// A dry run neither locks nor installs, stops or restarts anything: whatever
/// happens, it ends with a plan or an error.
pub proof fn dry_run_touches_nothing(
    state: UpgradeView,
    context: ContextView,
    event: UpgradeEventView,
)
    requires
        context.options.dry_run,
    ensures
        untouched(upgrade_start(context)),
        untouched(state) ==> untouched(upgrade_step(state, context, event)),
{
}

/// Cargo runs, and a daemon is stopped for it, only under the lock and after no
/// process stood in the way that no manager can restart.
pub proof fn replacement_follows_a_clean_check(
    state: UpgradeView,
    context: ContextView,
    event: UpgradeEventView,
)
    requires
        !(state is Install),
        !(state is PrepareDaemon),
        ({
            let next = upgrade_step(state, context, event);
            next is Install || next is PrepareDaemon
        }),
    ensures
        state is ListProcesses,
        state->ListProcesses_0 == Phase::Locked,
        event matches UpgradeEventView::ProcessesListed(Ok(candidates)) && process_fault(
            candidates,
            state->ListProcesses_2,
            context.current_pid,
        ) is None,
{
    lemma_step_into_installation(state, context, event);
}

proof fn lemma_step_into_installation(
    state: UpgradeView,
    context: ContextView,
    event: UpgradeEventView,
)
    ensures
        ({
            let next = upgrade_step(state, context, event);
            &&& (state is RestartDaemon || state is ReconcileDaemon || state is Activate) ==> (next
                == state || next is Activate || next is Done)
        }),
{
    match (state, event) {
        (UpgradeView::RestartDaemon(installed), UpgradeEventView::DaemonStarted(result)) => {
            lemma_next_activation(
                context,
                ProgressView {
                    services: installed.services,
                    identity: installed.identity,
                    changed: installed.changed,
                    semantic: restarted_view(result, installed.identity.version),
                    results: Seq::empty(),
                    attempted: false,
                },
            );
        },
        (UpgradeView::ReconcileDaemon(installed), UpgradeEventView::DaemonReconciled(result)) => {
            lemma_next_activation(
                context,
                ProgressView {
                    services: installed.services,
                    identity: installed.identity,
                    changed: installed.changed,
                    semantic: reconciled_view(result),
                    results: Seq::empty(),
                    attempted: false,
                },
            );
        },
        (UpgradeView::Activate(progress), UpgradeEventView::ServiceRestarted(result)) => {
            lemma_next_activation(
                context,
                ProgressView { results: progress.results.push(result_for(progress, result)), attempted: true, ..progress },
            );
        },
        _ => {},
    }
}

/// Whether the results so far tell what was done: there is one for each service, with
/// its identifier; a service that reported the installed version was left alone; and
/// `attempted` tells whether another one was restarted.
pub open spec fn faithful(progress: ProgressView) -> bool {
    &&& progress.results.len() <= progress.services.len()
    &&& progress.attempted <==> exists|k: int|
        0 <= k < progress.results.len() && needs_activation(
            #[trigger] progress.services[k],
            progress.identity.version,
        )
    &&& forall|k: int|
        0 <= k < progress.results.len() && !needs_activation(
            progress.services[k],
            progress.identity.version,
        ) ==> #[trigger] progress.results[k] == unchanged_result(progress.services[k])
    &&& forall|k: int|
        0 <= k < progress.results.len() ==> (#[trigger] progress.results[k]).target_id
            == progress.services[k].id
}

/// Whether a report tells what was done with the services.
pub open spec fn faithful_report(
    report: ReportView,
    services: Seq<TargetView>,
    version: Seq<char>,
    semantic: SemanticView,
) -> bool {
    &&& report.services.len() == services.len()
    &&& report.activation_attempted <==> semantic.restarted || !semantic.success || exists|k: int|
        0 <= k < services.len() && needs_activation(#[trigger] services[k], version)
    &&& forall|k: int|
        0 <= k < services.len() && !needs_activation(services[k], version)
            ==> #[trigger] report.services[k] == unchanged_result(services[k])
    &&& forall|k: int|
        0 <= k < services.len() ==> (#[trigger] report.services[k]).target_id == services[k].id
}

proof fn lemma_next_activation(context: ContextView, progress: ProgressView)
    ensures
        ({
            let next = next_activation(context, progress);
            &&& next is Activate || next is Done
            &&& next matches UpgradeView::Activate(later) ==> {
                &&& later.services == progress.services
                &&& later.identity == progress.identity
                &&& later.changed == progress.changed
                &&& later.semantic == progress.semantic
                &&& later.results.len() < later.services.len()
                &&& needs_activation(
                    later.services[later.results.len() as int],
                    later.identity.version,
                )
                &&& faithful(progress) ==> faithful(later)
            }
            &&& next matches UpgradeView::Done(outcome) ==> {
                &&& outcome is Completed
                &&& outcome->Completed_0.old_identity == context.identity
                &&& outcome->Completed_0.new_identity == progress.identity
                &&& outcome->Completed_0.binaries_changed == progress.changed
                &&& outcome->Completed_0.stdio_reconnect_required == progress.changed
                &&& outcome->Completed_0.semantic == Some(progress.semantic)
                &&& faithful(progress) ==> faithful_report(
                    outcome->Completed_0,
                    progress.services,
                    progress.identity.version,
                    progress.semantic,
                )
            }
        }),
    decreases progress.services.len() - progress.results.len(),
{
    let at = progress.results.len() as int;
    if at < progress.services.len() && !needs_activation(
        progress.services[at],
        progress.identity.version,
    ) {
        let later = ProgressView {
            results: progress.results.push(unchanged_result(progress.services[at])),
            ..progress
        };
        lemma_next_activation(context, later);
        if faithful(progress) {
            assert forall|k: int|
                0 <= k < later.results.len() && !needs_activation(
                    later.services[k],
                    later.identity.version,
                ) implies #[trigger] later.results[k] == unchanged_result(later.services[k]) by {
                if k < at {
                    assert(later.results[k] == progress.results[k]);
                }
            }
            if exists|k: int|
                0 <= k < later.results.len() && needs_activation(
                    #[trigger] later.services[k],
                    later.identity.version,
                ) {
                let k = choose|k: int|
                    0 <= k < later.results.len() && needs_activation(
                        #[trigger] later.services[k],
                        later.identity.version,
                    );
                assert(k < at);
                assert(needs_activation(progress.services[k], progress.identity.version));
            }
            assert(faithful(later));
        }
    }
}

/// Whether a step of the restarts is at a service that has to be restarted, with
/// results that tell what was done.
pub open spec fn sound_activation(state: UpgradeView) -> bool {
    state matches UpgradeView::Activate(progress) ==> {
        &&& progress.results.len() < progress.services.len()
        &&& needs_activation(
            progress.services[progress.results.len() as int],
            progress.identity.version,
        )
        &&& faithful(progress)
    }
}

/// Only a service that does not report the installed version is restarted, and
/// the results tell what was done, after every event.
pub proof fn current_services_are_not_restarted(
    state: UpgradeView,
    context: ContextView,
    event: UpgradeEventView,
)
    requires
        sound_activation(state),
    ensures
        sound_activation(upgrade_start(context)),
        sound_activation(upgrade_step(state, context, event)),
{
    match (state, event) {
        (UpgradeView::RestartDaemon(installed), UpgradeEventView::DaemonStarted(result)) => {
            lemma_next_activation(
                context,
                ProgressView {
                    services: installed.services,
                    identity: installed.identity,
                    changed: installed.changed,
                    semantic: restarted_view(result, installed.identity.version),
                    results: Seq::empty(),
                    attempted: false,
                },
            );
        },
        (UpgradeView::ReconcileDaemon(installed), UpgradeEventView::DaemonReconciled(result)) => {
            lemma_next_activation(
                context,
                ProgressView {
                    services: installed.services,
                    identity: installed.identity,
                    changed: installed.changed,
                    semantic: reconciled_view(result),
                    results: Seq::empty(),
                    attempted: false,
                },
            );
        },
        (UpgradeView::Activate(progress), UpgradeEventView::ServiceRestarted(result)) => {
            let later = ProgressView {
                results: progress.results.push(result_for(progress, result)),
                attempted: true,
                ..progress
            };
            lemma_restart_is_faithful(progress, result);
            lemma_next_activation(context, later);
        },
        _ => {},
    }
}

proof fn lemma_restart_is_faithful(progress: ProgressView, result: ActivationView)
    requires
        sound_activation(UpgradeView::Activate(progress)),
    ensures
        faithful(
            ProgressView { results: progress.results.push(result_for(progress, result)), attempted: true, ..progress },
        ),
{
    let later = ProgressView { results: progress.results.push(result_for(progress, result)), attempted: true, ..progress };
    let at = progress.results.len() as int;
    assert(needs_activation(later.services[at], later.identity.version));
    assert forall|k: int|
        0 <= k < later.results.len() && !needs_activation(
            later.services[k],
            later.identity.version,
        ) implies #[trigger] later.results[k] == unchanged_result(later.services[k]) by {
        assert(k < at);
        assert(later.results[k] == progress.results[k]);
    }
}

/// The report after the last restart has one result for each service, tells
/// whether a restart was tried, and asks clients to reconnect exactly where a
/// binary changed.
pub proof fn report_tells_what_was_done(
    progress: ProgressView,
    context: ContextView,
    result: ActivationView,
)
    requires
        sound_activation(UpgradeView::Activate(progress)),
    ensures
        upgrade_step(
            UpgradeView::Activate(progress),
            context,
            UpgradeEventView::ServiceRestarted(result),
        ) matches UpgradeView::Done(outcome) ==> {
            &&& outcome is Completed
            &&& outcome->Completed_0.stdio_reconnect_required == progress.changed
            &&& outcome->Completed_0.binaries_changed == progress.changed
            &&& faithful_report(
                outcome->Completed_0,
                progress.services,
                progress.identity.version,
                progress.semantic,
            )
        },
{
    lemma_restart_is_faithful(progress, result);
    lemma_next_activation(
        context,
        ProgressView { results: progress.results.push(result_for(progress, result)), attempted: true, ..progress },
    );
}

/// Whether every service that counts as activated reports a version.
pub open spec fn all_report(results: Seq<ActivationView>, version: Seq<char>) -> bool {
    forall|k: int|
        0 <= k < results.len() && (#[trigger] results[k]).success ==> results[k].observed_version
            == Some(version)
}

proof fn lemma_next_reports(context: ContextView, progress: ProgressView)
    requires
        all_report(progress.results, progress.identity.version),
    ensures
        next_activation(context, progress) matches UpgradeView::Activate(later) ==> all_report(
            later.results,
            later.identity.version,
        ),
        next_activation(context, progress) matches UpgradeView::Done(
            RunOutcomeView::Completed(report),
        ) ==> all_report(report.services, progress.identity.version),
    decreases progress.services.len() - progress.results.len(),
{
    let at = progress.results.len() as int;
    if at < progress.services.len() && !needs_activation(
        progress.services[at],
        progress.identity.version,
    ) {
        let later = ProgressView {
            results: progress.results.push(unchanged_result(progress.services[at])),
            ..progress
        };
        assert forall|k: int| 0 <= k < later.results.len() && (
        #[trigger] later.results[k]).success implies later.results[k].observed_version == Some(
            later.identity.version,
        ) by {
            if k < at {
                assert(later.results[k] == progress.results[k]);
            }
        }
        lemma_next_reports(context, later);
    }
}

/// A service counts as activated only where it reports the exact installed version,
/// as long as this holds of each restart.
pub proof fn activated_services_report_the_installed_version(
    progress: ProgressView,
    context: ContextView,
    result: ActivationView,
)
    requires
        all_report(progress.results, progress.identity.version),
        result.success ==> result.observed_version == Some(progress.identity.version),
    ensures
        ({
            let next = upgrade_step(
                UpgradeView::Activate(progress),
                context,
                UpgradeEventView::ServiceRestarted(result),
            );
            &&& next matches UpgradeView::Activate(later) ==> all_report(
                later.results,
                later.identity.version,
            )
            &&& next matches UpgradeView::Done(RunOutcomeView::Completed(report)) ==> all_report(
                report.services,
                progress.identity.version,
            )
        }),
{
    let later = ProgressView {
        results: progress.results.push(result_for(progress, result)),
        attempted: true,
        ..progress
    };
    assert forall|k: int| 0 <= k < later.results.len() && (
    #[trigger] later.results[k]).success implies later.results[k].observed_version == Some(
        later.identity.version,
    ) by {
        if k < progress.results.len() {
            assert(later.results[k] == progress.results[k]);
        }
    }
    lemma_next_reports(context, later);
}

/// An upgrade restarts nothing where every service and the daemon report the
/// installed version already.
pub proof fn up_to_date_restarts_nothing(
    installed: InstalledView,
    context: ContextView,
    result: Result<OutcomeView, VaultErrorView>,
)
    requires
        forall|k: int|
            0 <= k < installed.services.len() ==> !needs_activation(
                #[trigger] installed.services[k],
                installed.identity.version,
            ),
        result is Ok,
        !result->Ok_0.restarted,
    ensures
        upgrade_step(
            UpgradeView::ReconcileDaemon(installed),
            context,
            UpgradeEventView::DaemonReconciled(result),
        ) matches UpgradeView::Done(RunOutcomeView::Completed(report)) && {
            &&& !report.activation_attempted
            &&& report.services.len() == installed.services.len()
            &&& report.stdio_reconnect_required == installed.changed
        },
{
    let progress = ProgressView {
        services: installed.services,
        identity: installed.identity,
        changed: installed.changed,
        semantic: reconciled_view(result),
        results: Seq::empty(),
        attempted: false,
    };
    lemma_next_activation(context, progress);
    let next = next_activation(context, progress);
    if next is Activate {
        let later = next->Activate_0;
        assert(needs_activation(
            installed.services[later.results.len() as int],
            installed.identity.version,
        ));
    }
}

/// Whether no daemon was stopped for the installation.
pub open spec fn nothing_stopped(state: UpgradeView) -> bool {
    match state {
        UpgradeView::PrepareDaemon(_) => false,
        UpgradeView::Install { ready, stopped } => !stopped,
        UpgradeView::RestoreDaemon { daemon, error } => false,
        UpgradeView::RefreshServices(installed) => !installed.stopped,
        UpgradeView::RecheckProcesses(installed) => !installed.stopped,
        UpgradeView::RestartDaemon(_) => false,
        UpgradeView::ReconcileDaemon(installed) => !installed.stopped,
        _ => true,
    }
}

/// Other than on Windows nothing is stopped for the installation, so that a
/// failed one leaves every running process as it is.
pub proof fn failed_install_stops_nothing_on_unix(
    state: UpgradeView,
    context: ContextView,
    event: UpgradeEventView,
)
    requires
        !context.windows,
        nothing_stopped(state),
    ensures
        nothing_stopped(upgrade_start(context)),
        nothing_stopped(upgrade_step(state, context, event)),
        state is Install ==> (event matches UpgradeEventView::PackageInstalled(Err(error))
            ==> upgrade_step(state, context, event) == UpgradeView::Failed(error)),
{
    lemma_step_into_installation(state, context, event);
}

/// A daemon that was stopped for the installation is started again from the same
/// program, whether the installation fails or not.
pub proof fn stopped_daemon_is_started_again(
    ready: ReadyView,
    installed: InstalledView,
    context: ContextView,
    error: UpgradeErrorView,
    candidates: Seq<ProcessCandidate>,
)
    requires
        installed.stopped,
        process_fault(candidates, installed.services, context.current_pid) is None,
    ensures
        upgrade_step(
            UpgradeView::Install { ready, stopped: true },
            context,
            UpgradeEventView::PackageInstalled(Err(error)),
        ) == (UpgradeView::RestoreDaemon { daemon: ready.daemon, error }),
        upgrade_step(
            UpgradeView::RecheckProcesses(installed),
            context,
            UpgradeEventView::ProcessesListed(Ok(candidates)),
        ) == UpgradeView::RestartDaemon(installed),
{
}

/// A replacement on Windows waits for the program that started it; every other upgrade
/// begins with a look at the installation.
pub proof fn upgrades_begin_with_a_look(context: ContextView, result: Result<(), UpgradeErrorView>)
    ensures
        context.windows && context.options.windows_parent_pid is Some ==> upgrade_start(context)
            == UpgradeView::AwaitReplacement(context.options.windows_parent_pid->0),
        !context.windows || context.options.windows_parent_pid is None ==> upgrade_start(context)
            == UpgradeView::DiscoverInstall(Phase::Preflight),
        context.windows && context.options.windows_parent_pid is Some ==> upgrade_step(
            upgrade_start(context),
            context,
            UpgradeEventView::ReplacementAwaited(result),
        ) == match result {
            Ok(_) => UpgradeView::DiscoverInstall(Phase::Preflight),
            Err(error) => UpgradeView::Failed(error),
        },
{
}

/// The installation, the services and the processes are looked at in turn, before and
/// after the lock is taken; what cannot be found out, or a stray process, fails the
/// upgrade.
pub proof fn checks_follow_each_other(
    context: ContextView,
    phase: Phase,
    record: Result<RecordView, UpgradeErrorView>,
    found: RecordView,
    services: Result<Seq<TargetView>, UpgradeErrorView>,
    managed: Seq<TargetView>,
    candidates: Result<Seq<ProcessCandidate>, UpgradeErrorView>,
    lock: Result<(), UpgradeErrorView>,
)
    ensures
        upgrade_step(
            UpgradeView::DiscoverInstall(phase),
            context,
            UpgradeEventView::InstallFound(record),
        ) == match record {
            Ok(install) => UpgradeView::DiscoverServices(phase, install),
            Err(error) => UpgradeView::Failed(error),
        },
        upgrade_step(
            UpgradeView::DiscoverServices(phase, found),
            context,
            UpgradeEventView::ServicesFound(services),
        ) == match services {
            Ok(list) => UpgradeView::ListProcesses(phase, found, list),
            Err(error) => UpgradeView::Failed(error),
        },
        upgrade_step(
            UpgradeView::ListProcesses(phase, found, managed),
            context,
            UpgradeEventView::ProcessesListed(candidates),
        ) is Failed <==> candidates is Err || process_fault(
            candidates->Ok_0,
            managed,
            context.current_pid,
        ) is Some,
        upgrade_step(UpgradeView::Lock(found), context, UpgradeEventView::Locked(lock)) == match lock {
            Ok(_) => UpgradeView::DiscoverInstall(Phase::Locked),
            Err(error) => UpgradeView::Failed(error),
        },
{
}

/// After a clean check a dry run ends with its plan, Windows hands over to a helper
/// unless it is the helper, and every other upgrade takes the lock. Under the lock the
/// package is installed, on Windows after the daemon was prepared.
pub proof fn a_clean_check_leads_on(
    context: ContextView,
    record: RecordView,
    services: Seq<TargetView>,
    candidates: Seq<ProcessCandidate>,
)
    requires
        process_fault(candidates, services, context.current_pid) is None,
    ensures
        ({
            let next = upgrade_step(
                UpgradeView::ListProcesses(Phase::Preflight, record, services),
                context,
                UpgradeEventView::ProcessesListed(Ok(candidates)),
            );
            &&& context.options.dry_run ==> (next matches UpgradeView::Done(RunOutcomeView::DryRun(plan))
                && plan.install == record && plan.services == services && plan.identity
                == context.identity && plan.cargo_args == install_arguments(
                record,
                context.identity.features,
            ))
            &&& next == UpgradeView::Handoff <==> !context.options.dry_run && context.windows
                && context.options.windows_parent_pid is None
            &&& next == UpgradeView::Lock(record) <==> !context.options.dry_run && (!context.windows
                || context.options.windows_parent_pid is Some)
        }),
        ({
            let next = upgrade_step(
                UpgradeView::ListProcesses(Phase::Locked, record, services),
                context,
                UpgradeEventView::ProcessesListed(Ok(candidates)),
            );
            &&& context.windows ==> (next matches UpgradeView::PrepareDaemon(ready) && ready.record
                == record && ready.services == services)
            &&& !context.windows ==> (next matches UpgradeView::Install { ready, stopped }
                && ready.record == record && ready.services == services && !stopped)
        }),
{
}

/// What was installed is carried on: its identity, whether the binaries changed, and
/// whether the daemon was stopped for it. Services that are found anew replace those from
/// before; a failure after the installation is one of activation.
pub proof fn an_installation_is_carried_on(
    context: ContextView,
    ready: ReadyView,
    stopped: bool,
    identity: IdentityView,
    changed: bool,
    services: Result<Seq<TargetView>, UpgradeErrorView>,
    candidates: Result<Seq<ProcessCandidate>, UpgradeErrorView>,
    prepared: Result<bool, VaultErrorView>,
)
    ensures
        ({
            let next = upgrade_step(
                UpgradeView::Install { ready, stopped },
                context,
                UpgradeEventView::PackageInstalled(Ok((identity, changed))),
            );
            &&& next matches UpgradeView::RefreshServices(installed)
            &&& installed.identity == identity
            &&& installed.changed == changed
            &&& installed.stopped == stopped
            &&& installed.daemon == ready.daemon
            &&& installed.services == ready.services
            &&& upgrade_step(next, context, UpgradeEventView::ServicesFound(services)) == match services {
                Ok(list) => UpgradeView::RecheckProcesses(
                    InstalledView { services: merged_targets(ready.services, list), ..installed },
                ),
                Err(error) => upgrade_step(next, context, UpgradeEventView::ServicesFound(services)),
            }
            &&& services is Err ==> (upgrade_step(next, context, UpgradeEventView::ServicesFound(services))
                matches UpgradeView::Failed(error) && error is Activation)
            &&& ({
                let last = upgrade_step(
                    UpgradeView::RecheckProcesses(installed),
                    context,
                    UpgradeEventView::ProcessesListed(candidates),
                );
                let clean = candidates is Ok && process_fault(
                    candidates->Ok_0,
                    installed.services,
                    context.current_pid,
                ) is None;
                &&& clean && stopped ==> last == UpgradeView::RestartDaemon(installed)
                &&& clean && !stopped ==> last == UpgradeView::ReconcileDaemon(installed)
                &&& !clean ==> (last matches UpgradeView::Failed(error) && error is Activation)
            })
        }),
        upgrade_step(
            UpgradeView::PrepareDaemon(ready),
            context,
            UpgradeEventView::DaemonPrepared(prepared),
        ) == match prepared {
            Ok(was_stopped) => UpgradeView::Install { ready, stopped: was_stopped },
            Err(error) => UpgradeView::Failed(UpgradeErrorView::Activation(vault_error_text(error))),
        },
{
}

/// A failed installation whose daemon was brought back, or could not be, is still a
/// failed installation, and a helper that was started ends the upgrade here.
pub proof fn a_restored_daemon_does_not_hide_the_failure(
    context: ContextView,
    daemon: Seq<char>,
    error: UpgradeErrorView,
    started: Result<ResultView, VaultErrorView>,
    handed: Result<Seq<char>, UpgradeErrorView>,
)
    ensures
        upgrade_step(
            UpgradeView::RestoreDaemon { daemon, error },
            context,
            UpgradeEventView::DaemonStarted(started),
        ) matches UpgradeView::Failed(failure) && (failure matches UpgradeErrorView::Install(text)
            && upgrade_error_text(error).is_prefix_of(text)),
        upgrade_step(UpgradeView::Handoff, context, UpgradeEventView::HandedOver(handed))
            == match handed {
            Ok(helper) => UpgradeView::Done(RunOutcomeView::WindowsHandoff { helper }),
            Err(failure) => UpgradeView::Failed(failure),
        },
{
    let text = upgrade_error_text(error);
    let whole = restoration_error(error, started)->Install_0;
    assert(whole.subrange(0, text.len() as int) =~= text);
}

} // verus!
