//! The rules of an upgrade: what may be replaced, and what is restarted.

use crate::daemon::bootstrap::{BootstrapResult, DaemonReconcileOutcome};
use crate::daemon::ensure::ResultView;
use crate::daemon::manifest::origin_name;
use crate::daemon::reconcile::OutcomeView;
use crate::error::{vault_error_text, VaultError, VaultErrorView};
use crate::text::{cat4, cat5, copy_opt, opt_text, same, texts};
use crate::upgrade::{
    target_views, ActivationResult, ActivationView, BuildIdentity, InstallRecord, RecordView,
    ReportView, SemanticReconcileResult, SemanticView, ServiceTarget, TargetView, UpgradeError,
    UpgradeErrorView, UpgradeReport,
};
use crate::upgrade::build_info::IdentityView;
use crate::upgrade::commands::{
    is_sorted_by_id, sort_targets, sorted_targets, sorting_orders_and_keeps_all,
};
use crate::upgrade::processes::{
    ascending, is_unmanaged, pid_list, pid_words, serves_http, unmanaged_http_processes,
    ProcessCandidate,
};
use vstd::prelude::*;

verus! {

/// What the user asked of an upgrade.
#[derive(Debug, Clone, PartialEq, Eq)]
pub struct UpgradeOptions {
    /// Whether nothing is changed.
    pub dry_run: bool,
    /// The executable to upgrade, where it is not the running one.
    pub executable: Option<String>,
    /// The process that handed the upgrade over, on Windows.
    pub windows_parent_pid: Option<u32>,
}

/// What the user asked, with texts as characters.
#[verifier::ext_equal]
pub struct OptionsView {
    pub dry_run: bool,
    pub executable: Option<Seq<char>>,
    pub windows_parent_pid: Option<u32>,
}

impl View for UpgradeOptions {
    type V = OptionsView;

    open spec fn view(&self) -> OptionsView {
        OptionsView {
            dry_run: self.dry_run,
            executable: opt_text(self.executable),
            windows_parent_pid: self.windows_parent_pid,
        }
    }
}

impl UpgradeOptions {
    /// The options of an upgrade that the user starts.
    pub fn normal(dry_run: bool) -> (options: UpgradeOptions)
        ensures
            options@ == (OptionsView { dry_run, executable: None, windows_parent_pid: None }),
    {
        UpgradeOptions { dry_run, executable: None, windows_parent_pid: None }
    }

    /// The options of the helper that replaces `executable` on Windows.
    pub fn windows_helper(executable: String, parent_pid: u32) -> (options: UpgradeOptions)
        ensures
            options@ == (OptionsView {
                dry_run: false,
                executable: Some(executable@),
                windows_parent_pid: Some(parent_pid),
            }),
    {
        UpgradeOptions {
            dry_run: false,
            executable: Some(executable),
            windows_parent_pid: Some(parent_pid),
        }
    }
}

/// What an upgrade is going to do.
#[derive(Debug, PartialEq, Eq)]
pub struct UpgradePlan {
    pub identity: BuildIdentity,
    pub install: InstallRecord,
    pub cargo_args: Vec<String>,
    pub services: Vec<ServiceTarget>,
}

/// What an upgrade is going to do, as mathematical values.
#[verifier::ext_equal]
pub struct UpgradePlanView {
    pub identity: IdentityView,
    pub install: RecordView,
    pub cargo_args: Seq<Seq<char>>,
    pub services: Seq<TargetView>,
}

impl View for UpgradePlan {
    type V = UpgradePlanView;

    open spec fn view(&self) -> UpgradePlanView {
        UpgradePlanView {
            identity: self.identity@,
            install: self.install@,
            cargo_args: texts(self.cargo_args@),
            services: target_views(self.services@),
        }
    }
}

/// How an upgrade ended.
#[derive(Debug, PartialEq, Eq)]
pub enum UpgradeRunOutcome {
    DryRun(UpgradePlan),
    Completed(UpgradeReport),
    /// A helper goes on with the upgrade.
    WindowsHandoff { helper: String },
}

/// How an upgrade ended, as mathematical values.
pub enum RunOutcomeView {
    DryRun(UpgradePlanView),
    Completed(ReportView),
    WindowsHandoff { helper: Seq<char> },
}

impl View for UpgradeRunOutcome {
    type V = RunOutcomeView;

    open spec fn view(&self) -> RunOutcomeView {
        match self {
            UpgradeRunOutcome::DryRun(plan) => RunOutcomeView::DryRun(plan@),
            UpgradeRunOutcome::Completed(report) => RunOutcomeView::Completed(report@),
            UpgradeRunOutcome::WindowsHandoff { helper } => RunOutcomeView::WindowsHandoff {
                helper: helper@,
            },
        }
    }
}

/// The executable that is upgraded: the given one, else the running one.
pub fn upgraded_executable(options: &UpgradeOptions, current: Result<String, String>) -> (result:
    Result<String, UpgradeError>)
    ensures
        match options@.executable {
            Some(path) => result matches Ok(chosen) && chosen@ == path,
            None => match current {
                Ok(path) => result matches Ok(chosen) && chosen@ == path@,
                Err(text) => result matches Err(error) && error@ == UpgradeErrorView::Io(text@),
            },
        },
{
    match &options.executable {
        Some(path) => Ok(path.clone()),
        None => match current {
            Ok(path) => Ok(path),
            Err(text) => Err(UpgradeError::Io(text)),
        },
    }
}

/// The error for an installation that another upgrade has locked.
pub fn locked_by_another(root: &str, error: &str) -> (failure: UpgradeError)
    ensures
        failure@ == UpgradeErrorView::Install(
            "another obsidian-mcp upgrade is already using '"@ + root@ + "': "@ + error@,
        ),
{
    let text = cat4("another obsidian-mcp upgrade is already using '", root, "': ", error);
    UpgradeError::Install(text)
}

/// Whether a service does not report the installed version.
pub open spec fn needs_activation(target: TargetView, expected: Seq<char>) -> bool {
    target.observed_version != Some(expected)
}

/// Whether a service does not report the installed version.
pub fn service_needs_activation(target: &ServiceTarget, expected_version: &str) -> (needed: bool)
    ensures
        needed == needs_activation(target@, expected_version@),
{
    match &target.observed_version {
        Some(version) => !same(version.as_str(), expected_version),
        None => true,
    }
}

/// The result for a service that already reports the installed version.
pub open spec fn unchanged_result(target: TargetView) -> ActivationView {
    ActivationView {
        target_id: target.id,
        success: true,
        observed_version: target.observed_version,
        diagnostic: "already reports the installed version; not restarted"@,
    }
}

/// The result for a service that already reports the installed version.
pub fn unchanged_service(target: &ServiceTarget) -> (result: ActivationResult)
    ensures
        result@ == unchanged_result(target@),
{
    ActivationResult {
        target_id: target.id.clone(),
        success: true,
        observed_version: copy_opt(&target.observed_version),
        diagnostic: "already reports the installed version; not restarted".to_owned(),
    }
}

/// Whether two entries are about the same service.
pub open spec fn same_service(left: TargetView, right: TargetView) -> bool {
    left.owner == right.owner && left.id == right.id
}

/// The first position at or after `i` with an entry about the same service, or
/// the end.
pub open spec fn service_position(list: Seq<TargetView>, target: TargetView, i: int) -> int
    decreases list.len() - i,
{
    if i < 0 || i >= list.len() || same_service(list[i], target) {
        i
    } else {
        service_position(list, target, i + 1)
    }
}

/// A list after one refreshed entry: it takes the place of the first entry about
/// the same service, else it is added.
pub open spec fn with_target(list: Seq<TargetView>, target: TargetView) -> Seq<TargetView> {
    let at = service_position(list, target, 0);
    if at < list.len() {
        list.update(at, target)
    } else {
        list.push(target)
    }
}

/// A list after refreshed entries, in their order.
pub open spec fn with_targets(list: Seq<TargetView>, current: Seq<TargetView>) -> Seq<TargetView>
    decreases current.len(),
{
    if current.len() == 0 {
        list
    } else {
        with_target(with_targets(list, current.drop_last()), current.last())
    }
}

/// The services after a refresh, sorted by identifier.
pub open spec fn merged_targets(list: Seq<TargetView>, current: Seq<TargetView>) -> Seq<TargetView> {
    sorted_targets(with_targets(list, current))
}

proof fn lemma_service_position(list: Seq<TargetView>, target: TargetView, i: int)
    requires
        0 <= i <= list.len(),
    ensures
        i <= service_position(list, target, i) <= list.len(),
        service_position(list, target, i) < list.len() ==> same_service(
            list[service_position(list, target, i)],
            target,
        ),
        forall|k: int|
            i <= k < service_position(list, target, i) ==> !same_service(
                #[trigger] list[k],
                target,
            ),
    decreases list.len() - i,
{
    if i < list.len() && !same_service(list[i], target) {
        lemma_service_position(list, target, i + 1);
    }
}

fn place_target(list: &mut Vec<ServiceTarget>, target: ServiceTarget)
    ensures
        target_views(final(list)@) == with_target(target_views(old(list)@), target@),
{
    let ghost first = target_views(list@);
    let ghost view = target@;
    let mut i: usize = 0;
    let total: usize = list.len();
    while i < total
        invariant
            i <= total == list@.len(),
            first == target_views(list@),
            first == target_views(old(list)@),
            target@ == view,
            service_position(first, view, 0) == service_position(first, view, i as int),
        decreases total - i,
    {
        assert(first[i as int] == list@[i as int]@);
        if list[i].owner == target.owner && same(list[i].id.as_str(), target.id.as_str()) {
            list.set(i, target);
            assert(target_views(list@) =~= first.update(i as int, view));
            return;
        }
        i += 1;
    }
    list.push(target);
    assert(target_views(list@) =~= first.push(view));
}

/// Brings a list of services up to date and sorts it by identifier: an entry is
/// replaced by the refreshed one about the same service, and a new service is
/// added.
pub fn merge_service_targets(existing: &mut Vec<ServiceTarget>, current: Vec<ServiceTarget>)
    ensures
        target_views(final(existing)@) == merged_targets(
            target_views(old(existing)@),
            target_views(current@),
        ),
{
    let ghost first = target_views(existing@);
    let ghost all = target_views(current@);
    let mut source = current;
    let total: usize = source.len();
    let mut merged: Vec<ServiceTarget> = Vec::new();
    std::mem::swap(&mut merged, existing);
    assert(all.take(0) =~= Seq::empty());
    while source.len() > 0
        invariant
            source@.len() <= all.len() == total,
            target_views(source@) == all.skip(total - source@.len()),
            target_views(merged@) == with_targets(first, all.take(total - source@.len())),
        decreases source@.len(),
    {
        let ghost done = total - source@.len();
        let ghost rest = target_views(source@);
        assert(rest[0] == all[done]);
        let target = source.remove(0);
        assert(target@ == all[done]);
        assert(target_views(source@) =~= rest.skip(1));
        assert(rest.skip(1) =~= all.skip(done + 1));
        place_target(&mut merged, target);
        assert(all.take(done + 1).drop_last() =~= all.take(done));
        assert(all.take(done + 1).last() == all[done]);
    }
    assert(all.take(total as int) =~= all);
    *existing = sort_targets(merged);
}

/// The processes of the managed services.
pub open spec fn pids_of(services: Seq<TargetView>) -> Seq<u32>
    decreases services.len(),
{
    if services.len() == 0 {
        Seq::empty()
    } else {
        let rest = pids_of(services.drop_last());
        match services.last().previous_pid {
            Some(pid) => rest.push(pid),
            None => rest,
        }
    }
}

/// The processes of the managed services.
pub fn managed_pids(services: &Vec<ServiceTarget>) -> (pids: Vec<u32>)
    ensures
        pids@ == pids_of(target_views(services@)),
{
    let ghost all = target_views(services@);
    let mut pids: Vec<u32> = Vec::new();
    let mut i: usize = 0;
    assert(all.take(0) =~= Seq::empty());
    while i < services.len()
        invariant
            i <= services@.len(),
            all == target_views(services@),
            pids@ == pids_of(all.take(i as int)),
        decreases services@.len() - i,
    {
        assert(all.take(i + 1).drop_last() =~= all.take(i as int));
        assert(all.take(i + 1).last() == services@[i as int]@);
        match services[i].previous_pid {
            Some(pid) => {
                pids.push(pid);
            },
            None => {},
        }
        i += 1;
    }
    assert(all.take(i as int) =~= all);
    pids
}

/// Whether `pids` are the processes that serve HTTP and belong to no manager, in
/// ascending order.
pub open spec fn lists_unmanaged(
    pids: Seq<u32>,
    candidates: Seq<ProcessCandidate>,
    managed: Seq<u32>,
    current: u32,
) -> bool {
    &&& ascending(pids)
    &&& forall|pid: u32| #[trigger]
        pids.contains(pid) <==> exists|i: int|
            0 <= i < candidates.len() && (#[trigger] candidates[i]).pid == pid && is_unmanaged(
                candidates[i],
                managed,
                current,
            )
}

/// The processes that serve HTTP and belong to no manager, in ascending order.
pub open spec fn unmanaged_pids(
    candidates: Seq<ProcessCandidate>,
    managed: Seq<u32>,
    current: u32,
) -> Seq<u32> {
    choose|pids: Seq<u32>| lists_unmanaged(pids, candidates, managed, current)
}

proof fn lemma_ascending_list_is_determined(left: Seq<u32>, right: Seq<u32>)
    requires
        ascending(left),
        ascending(right),
        forall|n: u32| #[trigger] left.contains(n) <==> right.contains(n),
    ensures
        left == right,
    decreases left.len(),
{
    if left.len() == 0 {
        if right.len() > 0 {
            assert(right.contains(right[0]));
            assert(left.contains(right[0]));
        }
        assert(left =~= right);
    } else {
        assert(left.contains(left.last()));
        assert(right.contains(left.last()));
        assert(right.contains(right.last()));
        assert(left.contains(right.last()));
        let l = choose|k: int| 0 <= k < left.len() && left[k] == right.last();
        let r = choose|k: int| 0 <= k < right.len() && right[k] == left.last();
        assert(left.last() == right.last()) by {
            if l < left.len() - 1 {
                assert(left[l] < left[left.len() - 1]);
            }
            if r < right.len() - 1 {
                assert(right[r] < right[right.len() - 1]);
            }
        }
        let a = left.drop_last();
        let b = right.drop_last();
        assert forall|n: u32| #[trigger] a.contains(n) <==> b.contains(n) by {
            if a.contains(n) {
                let k = choose|k: int| 0 <= k < a.len() && a[k] == n;
                assert(left[k] < left[left.len() - 1]);
                assert(left.contains(n));
                assert(right.contains(n));
                let m = choose|m: int| 0 <= m < right.len() && right[m] == n;
                assert(b[m] == n);
            }
            if b.contains(n) {
                let k = choose|k: int| 0 <= k < b.len() && b[k] == n;
                assert(right[k] < right[right.len() - 1]);
                assert(right.contains(n));
                assert(left.contains(n));
                let m = choose|m: int| 0 <= m < left.len() && left[m] == n;
                assert(a[m] == n);
            }
        }
        lemma_ascending_list_is_determined(a, b);
        assert(left =~= a.push(left.last()));
        assert(right =~= b.push(right.last()));
    }
}

/// The list of unmanaged processes is the only one of its kind.
pub proof fn unmanaged_list_is_determined(
    pids: Seq<u32>,
    candidates: Seq<ProcessCandidate>,
    managed: Seq<u32>,
    current: u32,
)
    requires
        lists_unmanaged(pids, candidates, managed, current),
    ensures
        unmanaged_pids(candidates, managed, current) == pids,
{
    let chosen = unmanaged_pids(candidates, managed, current);
    assert(lists_unmanaged(chosen, candidates, managed, current));
    lemma_ascending_list_is_determined(chosen, pids);
}

/// The text of the error for processes that no manager can restart.
pub open spec fn unmanaged_words(pids: Seq<u32>) -> Seq<char> {
    let one = pids.len() == 1;
    let them = if one {
        "it"@
    } else {
        "them"@
    };
    "ad-hoc HTTP process"@ + (if one {
        ""@
    } else {
        "es"@
    }) + " "@ + pid_words(pids) + " use"@ + (if one {
        "s"@
    } else {
        ""@
    })
        + " this binary, but the upgrader cannot reconstruct inherited settings; stop "@
        + them + ", retry the upgrade, then restart "@ + them + " with the same launch command"@
}

/// The error for processes that no manager can restart.
pub open spec fn unmanaged_error(pids: Seq<u32>) -> Option<UpgradeErrorView> {
    if pids.len() == 0 {
        None
    } else {
        Some(UpgradeErrorView::UnsupportedRuntime(unmanaged_words(pids)))
    }
}

/// The error that stops an upgrade while such processes run.
pub open spec fn process_fault(
    candidates: Seq<ProcessCandidate>,
    services: Seq<TargetView>,
    current: u32,
) -> Option<UpgradeErrorView> {
    unmanaged_error(unmanaged_pids(candidates, pids_of(services), current))
}

/// Fails while a process serves HTTP that no supported manager can restart.
pub fn ensure_no_unmanaged_http(
    candidates: &Vec<ProcessCandidate>,
    services: &Vec<ServiceTarget>,
    current_pid: u32,
) -> (result: Result<(), UpgradeError>)
    ensures
        match result {
            Ok(_) => process_fault(candidates@, target_views(services@), current_pid) is None,
            Err(error) => process_fault(candidates@, target_views(services@), current_pid) == Some(
                error@,
            ),
        },
{
    let managed = managed_pids(services);
    let pids = unmanaged_http_processes(candidates, managed.as_slice(), current_pid);
    proof {
        unmanaged_list_is_determined(pids@, candidates@, managed@, current_pid);
    }
    if pids.len() == 0 {
        return Ok(());
    }
    let one = pids.len() == 1;
    let them = if one {
        "it"
    } else {
        "them"
    };
    let list = pid_list(&pids);
    let mut text: String = "ad-hoc HTTP process".to_owned();
    text.append(
        if one {
            ""
        } else {
            "es"
        },
    );
    text.append(" ");
    text.append(list.as_str());
    text.append(" use");
    text.append(
        if one {
            "s"
        } else {
            ""
        },
    );
    text.append(" this binary, but the upgrader cannot reconstruct inherited settings; stop ");
    text.append(them);
    text.append(", retry the upgrade, then restart ");
    text.append(them);
    text.append(" with the same launch command");
    Err(UpgradeError::UnsupportedRuntime(text))
}

/// The result for a daemon that could not be brought to the new version.
pub open spec fn failed_view(diagnostic: Seq<char>) -> SemanticView {
    SemanticView {
        success: false,
        ownership: "unknown"@,
        was_running: false,
        restarted: false,
        observed_version: None,
        diagnostic,
    }
}

/// The result for a daemon that could not be brought to the new version.
pub fn failed_semantic_result(diagnostic: String) -> (result: SemanticReconcileResult)
    ensures
        result@ == failed_view(diagnostic@),
{
    SemanticReconcileResult {
        success: false,
        ownership: "unknown".to_owned(),
        was_running: false,
        restarted: false,
        observed_version: None,
        diagnostic,
    }
}

/// What a reconciliation did, as the report tells it.
pub open spec fn reconciled_view(result: Result<OutcomeView, VaultErrorView>) -> SemanticView {
    match result {
        Ok(outcome) => SemanticView {
            success: true,
            ownership: origin_name(outcome.origin),
            was_running: outcome.was_running,
            restarted: outcome.restarted,
            observed_version: outcome.observed_version,
            diagnostic: outcome.diagnostic,
        },
        Err(error) => failed_view(vault_error_text(error)),
    }
}

/// The result of a reconciliation, as mathematical values.
pub open spec fn reconcile_result(result: Result<DaemonReconcileOutcome, VaultError>) -> Result<
    OutcomeView,
    VaultErrorView,
> {
    match result {
        Ok(outcome) => Ok(outcome@),
        Err(error) => Err(error@),
    }
}

/// What a reconciliation did, as the report tells it.
pub fn reconcile_semantic(result: Result<DaemonReconcileOutcome, VaultError>) -> (semantic:
    SemanticReconcileResult)
    ensures
        semantic@ == reconciled_view(reconcile_result(result)),
{
    match result {
        Ok(outcome) => SemanticReconcileResult {
            success: true,
            ownership: outcome.origin.as_str().to_owned(),
            was_running: outcome.was_running,
            restarted: outcome.restarted,
            observed_version: outcome.observed_version,
            diagnostic: outcome.diagnostic,
        },
        Err(error) => failed_semantic_result(error.message().clone()),
    }
}

/// What the restart of a stopped daemon did, as the report tells it: the daemon
/// has to report exactly the installed version.
pub open spec fn restarted_view(
    result: Result<ResultView, VaultErrorView>,
    expected: Seq<char>,
) -> SemanticView {
    match result {
        Ok(started) => {
            let version = started.manifest.daemon_version;
            SemanticView {
                success: version == expected,
                ownership: origin_name(started.manifest.binary_origin),
                was_running: true,
                restarted: true,
                observed_version: Some(version),
                diagnostic: if version == expected {
                    "locally owned semantic daemon restarted after Windows binary replacement"@
                } else {
                    "semantic daemon reports version '"@ + version + "', expected '"@ + expected
                        + "'"@
                },
            }
        },
        Err(error) => failed_view(vault_error_text(error)),
    }
}

/// The result of a start, as mathematical values.
pub open spec fn start_result(result: Result<BootstrapResult, VaultError>) -> Result<
    ResultView,
    VaultErrorView,
> {
    match result {
        Ok(started) => Ok(started@),
        Err(error) => Err(error@),
    }
}

/// What the restart of a stopped daemon did, as the report tells it.
pub fn restarted_semantic(result: Result<BootstrapResult, VaultError>, expected_version: &str) -> (
semantic: SemanticReconcileResult)
    ensures
        semantic@ == restarted_view(start_result(result), expected_version@),
{
    match result {
        Ok(started) => {
            let version = started.manifest.daemon_version;
            let success = same(version.as_str(), expected_version);
            let diagnostic = if success {
                "locally owned semantic daemon restarted after Windows binary replacement".to_owned()
            } else {
                cat5(
                    "semantic daemon reports version '",
                    version.as_str(),
                    "', expected '",
                    expected_version,
                    "'",
                )
            };
            SemanticReconcileResult {
                success,
                ownership: started.manifest.binary_origin.as_str().to_owned(),
                was_running: true,
                restarted: true,
                observed_version: Some(version),
                diagnostic,
            }
        },
        Err(error) => failed_semantic_result(error.message().clone()),
    }
}

/// A refresh loses no service, and every refreshed entry is in the result.
pub proof fn refresh_keeps_every_service(
    list: Seq<TargetView>,
    current: Seq<TargetView>,
    old_target: TargetView,
)
    requires
        list.contains(old_target),
    ensures
        exists|k: int|
            0 <= k < merged_targets(list, current).len() && same_service(
                #[trigger] merged_targets(list, current)[k],
                old_target,
            ),
{
    let merged = with_targets(list, current);
    let first = choose|k: int| 0 <= k < list.len() && list[k] == old_target;
    lemma_with_targets_keeps(list, current, first);
    lemma_sorting_keeps(merged, first);
    let sorted = merged_targets(list, current);
    let j = choose|j: int| 0 <= j < sorted.len() && #[trigger] sorted[j] == merged[first];
    assert(same_service(sorted[j], old_target));
}

proof fn lemma_with_targets_keeps(list: Seq<TargetView>, current: Seq<TargetView>, k: int)
    requires
        0 <= k < list.len(),
    ensures
        list.len() <= with_targets(list, current).len(),
        same_service(with_targets(list, current)[k], list[k]),
    decreases current.len(),
{
    if current.len() > 0 {
        lemma_with_targets_keeps(list, current.drop_last(), k);
        let rest = with_targets(list, current.drop_last());
        lemma_service_position(rest, current.last(), 0);
    }
}

proof fn lemma_sorting_keeps(list: Seq<TargetView>, k: int)
    requires
        0 <= k < list.len(),
    ensures
        exists|j: int|
            0 <= j < sorted_targets(list).len() && #[trigger] sorted_targets(list)[j] == list[k],
{
    sorting_orders_and_keeps_all(list);
    broadcast use vstd::seq_lib::group_to_multiset_ensures;

    let sorted = sorted_targets(list);
    assert(list.contains(list[k]));
    assert(list.to_multiset().count(list[k]) > 0);
    assert(sorted.to_multiset().count(list[k]) > 0);
    assert(sorted.contains(list[k]));
}

proof fn lemma_newest_is_placed(list: Seq<TargetView>, current: Seq<TargetView>, i: int) -> (k: int)
    requires
        0 <= i < current.len(),
        forall|j: int|
            i < j < current.len() ==> !same_service(current[i], #[trigger] current[j]),
    ensures
        0 <= k < with_targets(list, current).len(),
        with_targets(list, current)[k] == current[i],
    decreases current.len(),
{
    let rest = with_targets(list, current.drop_last());
    lemma_service_position(rest, current.last(), 0);
    if i == current.len() - 1 {
        service_position(rest, current.last(), 0)
    } else {
        assert(!same_service(current[i], current[current.len() - 1]));
        assert forall|j: int| i < j < current.drop_last().len() implies !same_service(
            current.drop_last()[i],
            #[trigger] current.drop_last()[j],
        ) by {
            assert(!same_service(current[i], current[j]));
        }
        lemma_newest_is_placed(list, current.drop_last(), i)
    }
}

/// After a refresh the services are sorted by identifier, and the newest entry
/// about each refreshed service is there.
pub proof fn refresh_takes_the_newest_entry(
    list: Seq<TargetView>,
    current: Seq<TargetView>,
    i: int,
)
    requires
        0 <= i < current.len(),
        forall|j: int|
            i < j < current.len() ==> !same_service(current[i], #[trigger] current[j]),
    ensures
        is_sorted_by_id(merged_targets(list, current)),
        merged_targets(list, current).contains(current[i]),
{
    let merged = with_targets(list, current);
    let k = lemma_newest_is_placed(list, current, i);
    lemma_sorting_keeps(merged, k);
    sorting_orders_and_keeps_all(merged);
}

/// A service is restarted unless it is seen to run the expected version.
pub proof fn only_the_expected_version_is_left_running(target: TargetView, expected: Seq<char>)
    ensures
        target.observed_version is None ==> needs_activation(target, expected),
        target.observed_version is Some ==> (needs_activation(target, expected)
            <==> target.observed_version->0 != expected),
        unchanged_result(target).target_id == target.id,
        unchanged_result(target).success,
        unchanged_result(target).observed_version == target.observed_version,
{
}

/// A found service takes the place of the one with the same manager and name, or comes
/// last where there is none; every other service stays where it is.
pub proof fn a_found_service_replaces_its_namesake(
    list: Seq<TargetView>,
    target: TargetView,
    i: int,
)
    requires
        0 <= i < list.len(),
    ensures
        with_target(list, target).contains(target),
        !(list[i].owner == target.owner && list[i].id == target.id) ==> with_target(list, target)[i]
            == list[i],
        (forall|k: int|
            0 <= k < list.len() ==> !((#[trigger] list[k]).owner == target.owner && list[k].id
                == target.id)) ==> with_target(list, target) == list.push(target),
        (exists|k: int|
            0 <= k < list.len() && (#[trigger] list[k]).owner == target.owner && list[k].id
                == target.id) ==> with_target(list, target).len() == list.len(),
{
    lemma_position(list, target, 0);
    let at = service_position(list, target, 0);
    let after = with_target(list, target);
    assert(after[if at < list.len() {
        at
    } else {
        list.len() as int
    }] == target);
    if at < list.len() {
        assert(list[at].owner == target.owner && list[at].id == target.id);
    }
}

proof fn lemma_position(list: Seq<TargetView>, target: TargetView, from: int)
    requires
        0 <= from <= list.len(),
    ensures
        from <= service_position(list, target, from) <= list.len(),
        service_position(list, target, from) < list.len() ==> same_service(
            list[service_position(list, target, from)],
            target,
        ),
        forall|k: int|
            from <= k < service_position(list, target, from) ==> !same_service(
                #[trigger] list[k],
                target,
            ),
    decreases list.len() - from,
{
    if from < list.len() && !same_service(list[from], target) {
        lemma_position(list, target, from + 1);
    }
}

/// The processes of services are those that the services name.
pub proof fn services_own_their_processes(services: Seq<TargetView>, pid: u32)
    ensures
        pids_of(services).contains(pid) <==> exists|i: int|
            0 <= i < services.len() && (#[trigger] services[i]).previous_pid == Some(pid),
    decreases services.len(),
{
    if services.len() > 0 {
        let front = services.drop_last();
        let earlier = pids_of(front);
        let all = pids_of(services);
        services_own_their_processes(front, pid);
        if earlier.contains(pid) {
            let i = choose|i: int|
                0 <= i < front.len() && (#[trigger] front[i]).previous_pid == Some(pid);
            assert(services[i].previous_pid == Some(pid));
            let k = choose|k: int| 0 <= k < earlier.len() && earlier[k] == pid;
            assert(all[k] == pid);
        }
        if services.last().previous_pid == Some(pid) {
            assert(services[services.len() - 1].previous_pid == Some(pid));
            assert(all[all.len() - 1] == pid);
        }
        if all.contains(pid) && !earlier.contains(pid) {
            let k = choose|k: int| 0 <= k < all.len() && all[k] == pid;
            if k < earlier.len() {
                assert(earlier[k] == pid);
            }
            assert(services[services.len() - 1].previous_pid == Some(pid));
        }
        if exists|i: int| 0 <= i < services.len() && (#[trigger] services[i]).previous_pid == Some(pid) {
            let i = choose|i: int|
                0 <= i < services.len() && (#[trigger] services[i]).previous_pid == Some(pid);
            if i < front.len() {
                assert(front[i].previous_pid == Some(pid));
            }
        }
    }
}

/// The processes allow an upgrade exactly where each of them is the upgrade itself,
/// belongs to a service, or neither asks for HTTP nor listens; `pids` are those that do
/// not.
pub proof fn stray_http_processes_refuse_an_upgrade(
    candidates: Seq<ProcessCandidate>,
    services: Seq<TargetView>,
    current: u32,
    pids: Seq<u32>,
)
    requires
        lists_unmanaged(pids, candidates, pids_of(services), current),
    ensures
        process_fault(candidates, services, current) is None <==> forall|i: int|
            0 <= i < candidates.len() ==> (#[trigger] candidates[i]).pid == current || pids_of(
                services,
            ).contains(candidates[i].pid) || !serves_http(
                texts(candidates[i].arguments@),
                opt_text(candidates[i].transport),
                candidates[i].listens_tcp,
            ),
        process_fault(candidates, services, current) matches Some(error) ==> error
            is UnsupportedRuntime,
{
    unmanaged_list_is_determined(pids, candidates, pids_of(services), current);
    let managed = pids_of(services);
    if pids.len() == 0 {
        assert forall|i: int| 0 <= i < candidates.len() implies (#[trigger] candidates[i]).pid == current
            || managed.contains(candidates[i].pid) || !serves_http(
            texts(candidates[i].arguments@),
            opt_text(candidates[i].transport),
            candidates[i].listens_tcp,
        ) by {
            if is_unmanaged(candidates[i], managed, current) {
                assert(pids.contains(candidates[i].pid));
            }
        }
    } else {
        assert(pids.contains(pids[0]));
        let i = choose|i: int|
            0 <= i < candidates.len() && (#[trigger] candidates[i]).pid == pids[0] && is_unmanaged(
                candidates[i],
                managed,
                current,
            );
        assert(is_unmanaged(candidates[i], managed, current));
    }
}

/// What became of the daemon is reported as it is: a reconciliation that ended counts as
/// a success with all it says, and one that failed as a failure that did nothing.
pub proof fn reconciliations_are_reported_as_they_are(result: Result<OutcomeView, VaultErrorView>)
    ensures
        reconciled_view(result).success <==> result is Ok,
        result matches Ok(outcome) ==> {
            let semantic = reconciled_view(result);
            &&& semantic.was_running == outcome.was_running
            &&& semantic.restarted == outcome.restarted
            &&& semantic.observed_version == outcome.observed_version
            &&& semantic.diagnostic == outcome.diagnostic
            &&& semantic.ownership == origin_name(outcome.origin)
        },
        result is Err ==> !reconciled_view(result).restarted && !reconciled_view(result).was_running
            && reconciled_view(result).observed_version is None,
{
}

/// A daemon that was stopped for the replacement counts as brought back only where it
/// reports the expected version.
pub proof fn a_restarted_daemon_has_the_expected_version(
    result: Result<ResultView, VaultErrorView>,
    expected: Seq<char>,
)
    ensures
        restarted_view(result, expected).success <==> (result matches Ok(started)
            && started.manifest.daemon_version == expected),
        result matches Ok(started) ==> {
            let semantic = restarted_view(result, expected);
            &&& semantic.was_running
            &&& semantic.restarted
            &&& semantic.observed_version == Some(started.manifest.daemon_version)
            &&& semantic.ownership == origin_name(started.manifest.binary_origin)
        },
        result is Err ==> !restarted_view(result, expected).restarted && restarted_view(
            result,
            expected,
        ).observed_version is None,
{
}

} // verus!
