//! Upgrading the installed package.

use obsidian_mcp::daemon::bootstrap::DaemonReconcileOutcome;
use obsidian_mcp::daemon::manifest::BinaryOrigin;
use obsidian_mcp::error::VaultError;
use obsidian_mcp::order::TextSet;
use obsidian_mcp::path::join_path;
use obsidian_mcp::upgrade::build_info::{parse_features, BuildIdentity};
use obsidian_mcp::upgrade::cargo_install::{
    binary_file_name, cargo_install_args, discover_install, hash_file, install_latest,
    installed_binary, locate_install, package_source, probe_identity, snapshot_install,
    unresolved_executable, CargoTracker, InstallOutcome, InstallSnapshot, TrackedInstall,
};
use obsidian_mcp::upgrade::health::{
    connect_host, ends_reply, format_host_header, health_body, health_request, no_healthy_address,
    observe_health, probe_error, reads_on, wait_for_version, HealthBody, HealthObservation,
    HealthWait, ProbeFailure,
};
use obsidian_mcp::upgrade::helper::{
    handoff_error, helper_arguments, helper_directory, is_stale_helper, parse_tasklist_pids,
    replacement_step, HandoffFailure, ReplacementStep,
};
use obsidian_mcp::upgrade::orchestrator::{
    ensure_no_unmanaged_http, locked_by_another, merge_service_targets, service_needs_activation,
    upgraded_executable, UpgradeOptions, UpgradeRunOutcome,
};
use obsidian_mcp::upgrade::processes::{
    argument_list, is_http_runtime, linux_candidate, listens_tcp, lsof_paths, lsof_text_matches,
    pgrep_pids, process_id, ps_arguments, strip_deleted_suffix, unmanaged_http_processes,
    ProcessCandidate,
};
use obsidian_mcp::upgrade::run::{Phase, Upgrade, UpgradeContext};
use obsidian_mcp::upgrade::{
    http_service_config, ActivationResult, CommandOutput, CommandStatus, InstallRecord,
    SemanticReconcileResult, ServiceOwner, ServiceTarget, UpgradeError, UpgradeReport,
};

fn set(items: &[&str]) -> TextSet {
    let mut set = TextSet::new();
    for item in items {
        set.insert(item.to_string());
    }
    set
}

fn output(success: bool, code: i32, stdout: &str, stderr: &str) -> CommandOutput {
    CommandOutput {
        success,
        code: Some(code),
        stdout: stdout.as_bytes().to_vec(),
        stderr: stderr.as_bytes().to_vec(),
    }
}

#[test]
fn feature_parser_sorts_and_deduplicates() {
    let features = parse_features("embeddings-api,embeddings,embeddings-api,default");
    assert_eq!(features, set(&["embeddings", "embeddings-api"]));
    assert_eq!(features.items(), &vec!["embeddings".to_string(), "embeddings-api".to_string()]);
}

#[test]
fn rendered_features_are_read_back() {
    for raw in ["a", " b ,a,default", "embeddings-api,embeddings"] {
        let identity = BuildIdentity::embedded("1.0.0", "test-target", raw);
        assert_eq!(parse_features(&identity.feature_list()), identity.features);
    }
}

#[test]
fn feature_list_is_safe_for_human_output() {
    let identity = BuildIdentity {
        name: "obsidian-mcp".into(),
        version: "1.0.0".into(),
        target: "test-target".into(),
        features: TextSet::new(),
    };
    assert_eq!(identity.feature_list(), "none");
}

#[test]
fn embedded_identity_sorts_its_features() {
    let identity = BuildIdentity::embedded("2.5.0", "x86_64-unknown-linux-gnu", "b, a ,default,,a");
    assert_eq!(identity.name, "obsidian-mcp");
    assert_eq!(identity.version, "2.5.0");
    assert_eq!(identity.target, "x86_64-unknown-linux-gnu");
    assert_eq!(identity.feature_list(), "a,b");
    let other = BuildIdentity::embedded("2.5.0", "x86_64-unknown-linux-gnu", "a,b");
    assert!(identity.same_identity(&other));
    assert!(!identity.same_identity(&BuildIdentity::embedded("2.5.1", "x86_64-unknown-linux-gnu", "a,b")));
}

#[test]
fn http_config_applies_cli_over_allowlisted_environment() {
    let arguments = vec![
        "--http".into(),
        "--host".into(),
        "0.0.0.0".into(),
        "--port".into(),
        "4010".into(),
    ];
    assert_eq!(
        http_service_config(&arguments, None, Some("127.0.0.1"), Some("4000")),
        Some(("0.0.0.0".into(), 4010))
    );
    assert_eq!(http_service_config(&[], Some("stdio"), None, None), None);
}

#[test]
fn http_config_falls_back_to_the_usual_address() {
    assert_eq!(
        http_service_config(&[], Some("HTTP"), None, Some("not a port")),
        Some(("127.0.0.1".into(), 37842))
    );
    let bad_port: Vec<String> = vec!["--http".into(), "--port".into(), "65536".into()];
    assert_eq!(http_service_config(&bad_port, None, None, None), None);
    let dangling: Vec<String> = vec!["--http".into(), "--port".into()];
    assert_eq!(
        http_service_config(&dangling, None, None, Some("4000")),
        Some(("127.0.0.1".into(), 4000))
    );
}

#[test]
fn error_texts_name_the_step() {
    let text = String::from("reason");
    let cases = vec![
        (UpgradeError::UnsupportedInstall(text.clone()), "unsupported installation: reason"),
        (UpgradeError::InvalidInstall(text.clone()), "invalid installation metadata: reason"),
        (
            UpgradeError::Command { program: "cargo".into(), message: text.clone() },
            "command 'cargo' failed: reason",
        ),
        (UpgradeError::Install(text.clone()), "upgrade failed: reason"),
        (
            UpgradeError::PostInstall(text.clone()),
            "Cargo completed, but the installed binaries failed verification: reason",
        ),
        (UpgradeError::Activation(text.clone()), "activation failed: reason"),
        (UpgradeError::UnsupportedRuntime(text.clone()), "unsupported active runtime: reason"),
        (UpgradeError::Io(text.clone()), "reason"),
        (UpgradeError::Json(text), "reason"),
    ];
    for (error, expected) in cases {
        assert_eq!(error.message(), expected);
    }
}

// Cargo installations.

const GIT_INDEX: &str = "registry+https://github.com/rust-lang/crates.io-index";
const SPARSE_INDEX: &str = "sparse+https://index.crates.io/";

fn identity() -> BuildIdentity {
    BuildIdentity {
        name: "obsidian-mcp".into(),
        version: "2.4.0".into(),
        target: "test-target".into(),
        features: set(&["embeddings-api"]),
    }
}

fn tracker(source: &str) -> CargoTracker {
    CargoTracker::Installs(vec![TrackedInstall {
        package_id: format!("obsidian-mcp 2.4.0 ({source})"),
        bins: set(&["obsidian-mcp", "obsidian-semanticd"]),
        features: set(&["embeddings-api"]),
        profile: "release".into(),
        target: Some("test-target".into()),
    }])
}

fn discover(source: &str, identity: &BuildIdentity) -> Result<InstallRecord, UpgradeError> {
    let location = locate_install("/cargo/bin/obsidian-mcp", false)?;
    discover_install(&location, &tracker(source), identity, false, true, true)
}

#[test]
fn discovers_official_cargo_install_and_ignores_unknown_metadata() {
    let record = discover(GIT_INDEX, &identity()).expect("install should be supported");
    assert_eq!(record.root, "/cargo");
    assert_eq!(record.profile, "release");
    assert_eq!(record.target, "test-target");
}

#[test]
fn rejects_non_registry_install_before_any_command() {
    let error = discover("git+https://github.com/lstpsche/obsidian-mcp", &identity())
        .expect_err("git install must be rejected");
    assert!(error.message().contains("not the official crates.io registry"));
}

#[test]
fn reconstructed_command_preserves_exact_compiled_capabilities() {
    let record = discover(SPARSE_INDEX, &identity()).expect("install should be supported");
    let rendered = cargo_install_args(&record, &identity());
    assert_eq!(
        rendered,
        vec![
            "install",
            "obsidian-mcp",
            "--root",
            "/cargo",
            "--registry",
            "crates-io",
            "--locked",
            "--bins",
            "--profile",
            "release",
            "--target",
            "test-target",
            "--no-default-features",
            "--features",
            "embeddings-api"
        ]
    );
    assert!(!rendered.contains(&"--force".to_string()));
    assert!(!rendered.contains(&"--no-track".to_string()));
}

#[test]
fn rejects_target_and_feature_mismatches() {
    let mut wrong_target = identity();
    wrong_target.target = "different-target".into();
    assert!(discover(GIT_INDEX, &wrong_target).is_err());

    let mut missing_feature = identity();
    missing_feature.features = TextSet::new();
    assert!(discover(GIT_INDEX, &missing_feature).is_err());
}

#[test]
fn installation_has_to_be_in_a_bin_directory() {
    let wrong_name = locate_install("/cargo/bin/other", false).unwrap_err();
    assert!(matches!(wrong_name, UpgradeError::UnsupportedInstall(_)));
    assert_eq!(
        wrong_name.message(),
        "unsupported installation: running executable '/cargo/bin/other' is not obsidian-mcp"
    );
    let wrong_dir = locate_install("/opt/obsidian-mcp", false).unwrap_err();
    assert!(wrong_dir.message().contains("is not inside a Cargo install root bin directory"));
    assert!(locate_install("/cargo/bin/obsidian-mcp.exe", true).is_ok());
    for (executable, root) in [
        (r"C:\Users\me\.cargo\bin\obsidian-mcp.exe", r"C:\Users\me\.cargo"),
        (r"\\?\C:\Users\me\.cargo\bin\obsidian-mcp.exe", r"\\?\C:\Users\me\.cargo"),
        ("C:/Users/me/.cargo/bin/obsidian-mcp.exe", "C:/Users/me/.cargo"),
        (r"\\server\share\bin\obsidian-mcp.exe", r"\\server\share\"),
    ] {
        let location = locate_install(executable, true).unwrap();
        assert_eq!(location.root, root);
        assert_eq!(location.tracker_path, join_path(root, ".crates2.json", true));
    }
    let spelled = locate_install("/opt//cargo/./bin//obsidian-mcp", false).unwrap();
    assert_eq!(spelled.root, "/opt//cargo");
    assert_eq!(spelled.bin_dir, "/opt//cargo/./bin");
    assert_eq!(
        installed_binary(r"C:\Users\me\.cargo", "obsidian-mcp", true),
        r"C:\Users\me\.cargo\bin\obsidian-mcp.exe"
    );
    assert!(locate_install(r"C:\Users\me\.cargo\bin\obsidian-mcp.exe", false).is_err());
    assert!(locate_install(r"C:\Users\me\.cargo\obsidian-mcp.exe", true).is_err());
    assert_eq!(binary_file_name("obsidian-mcp", true), "obsidian-mcp.exe");
    assert_eq!(
        installed_binary("/cargo", "obsidian-semanticd", false),
        "/cargo/bin/obsidian-semanticd"
    );
    assert_eq!(
        unresolved_executable("/x", "gone").message(),
        "unsupported installation: cannot resolve running executable '/x': gone"
    );
}

#[test]
fn ownership_record_has_to_be_unambiguous() {
    let location = locate_install("/cargo/bin/obsidian-mcp", false).unwrap();
    let missing = CargoTracker::Unavailable("no such file".into());
    let error = discover_install(&location, &missing, &identity(), false, true, true).unwrap_err();
    assert!(matches!(error, UpgradeError::UnsupportedInstall(_)));
    assert!(error.message().contains("'/cargo/.crates2.json' is unavailable: no such file"));

    let broken = CargoTracker::Unreadable("bad json".into());
    let error = discover_install(&location, &broken, &identity(), false, true, true).unwrap_err();
    assert!(matches!(error, UpgradeError::InvalidInstall(_)));

    let empty = CargoTracker::Installs(Vec::new());
    assert!(discover_install(&location, &empty, &identity(), false, true, true).is_err());
    let double = match (tracker(GIT_INDEX), tracker(SPARSE_INDEX)) {
        (CargoTracker::Installs(mut a), CargoTracker::Installs(b)) => {
            a.extend(b);
            CargoTracker::Installs(a)
        }
        _ => unreachable!(),
    };
    assert!(discover_install(&location, &double, &identity(), false, true, true).is_err());
    assert!(discover_install(&location, &tracker(GIT_INDEX), &identity(), false, false, true).is_err());
    assert!(discover_install(&location, &tracker(GIT_INDEX), &identity(), false, true, false).is_err());
    assert_eq!(package_source("obsidian-mcp 2.4.0 (path+file:///x)"), Some("path+file:///x".into()));
    assert_eq!(package_source("obsidian-mcp 2.4.0"), None);
}

fn snapshot(identity: &BuildIdentity, main: &[u8], semantic: &[u8]) -> Result<InstallSnapshot, UpgradeError> {
    snapshot_install(
        Ok(identity.copied()),
        Ok(identity.copied()),
        Ok(hash_file(main)),
        Ok(hash_file(semantic)),
    )
}

fn install(after: &BuildIdentity, replaced: bool) -> Result<InstallOutcome, UpgradeError> {
    let current = identity();
    let record = discover(GIT_INDEX, &current)?;
    let pending = install_latest(snapshot(&current, b"main", b"semantic"), &record, &current)?;
    assert!(!pending.arguments().contains(&"--force".to_string()));
    let completed = pending.cargo_finished(Ok(CommandStatus { success: true, code: Some(0) }))?;
    let after = if replaced {
        snapshot(after, b"new-main", b"new-semantic")
    } else {
        snapshot(after, b"main", b"semantic")
    };
    completed.verify(after, &current)
}

#[test]
fn install_verifies_both_replaced_binaries_and_detects_hash_change() {
    let mut updated = identity();
    updated.version = "2.5.0".into();
    let outcome = install(&updated, true).expect("install should pass");
    assert!(outcome.changed);
    assert_eq!(outcome.after.main_identity, updated);
}

#[test]
fn same_version_and_hashes_are_a_no_op() {
    let outcome = install(&identity(), false).expect("install should pass");
    assert!(!outcome.changed);
    assert_eq!(outcome.after.main_identity, identity());
}

#[test]
fn install_rejects_post_install_feature_drift_after_cargo_completes() {
    let mut drifted = identity();
    drifted.version = "2.5.0".into();
    drifted.features = TextSet::new();
    let error = install(&drifted, true).expect_err("feature drift must fail verification");
    assert!(matches!(error, UpgradeError::PostInstall(_)));
}

#[test]
fn install_rejects_post_install_version_downgrade() {
    let mut older = identity();
    older.version = "2.3.9".into();
    let error = install(&older, true).expect_err("a downgrade must fail verification");
    assert!(matches!(error, UpgradeError::PostInstall(_)));
    assert!(error.message().contains("older version"));
}

#[test]
fn cargo_failure_stops_before_post_install_probes() {
    let current = identity();
    let record = discover(GIT_INDEX, &current).expect("install should be supported");
    let pending = install_latest(snapshot(&current, b"main", b"semantic"), &record, &current).unwrap();
    let error = pending
        .cargo_finished(Ok(CommandStatus { success: false, code: Some(101) }))
        .expect_err("Cargo failure should propagate");
    assert!(matches!(error, UpgradeError::Install(_)));
    assert_eq!(error.message(), "upgrade failed: cargo install exited with status 101");
}

#[test]
fn install_starts_only_from_the_running_build() {
    let current = identity();
    let record = discover(GIT_INDEX, &current).unwrap();
    let mut other = identity();
    other.version = "2.3.0".into();
    let error = install_latest(snapshot(&other, b"main", b"semantic"), &record, &current).unwrap_err();
    assert!(matches!(error, UpgradeError::InvalidInstall(_)));
    let pending = install_latest(snapshot(&current, b"main", b"semantic"), &record, &current).unwrap();
    let error = pending.cargo_finished(Ok(CommandStatus { success: false, code: None })).unwrap_err();
    assert_eq!(error.message(), "upgrade failed: cargo install exited with status terminated by signal");
    let pending = install_latest(snapshot(&current, b"main", b"semantic"), &record, &current).unwrap();
    let error = pending.cargo_finished(Ok(CommandStatus { success: false, code: Some(-9) })).unwrap_err();
    assert_eq!(error.message(), "upgrade failed: cargo install exited with status -9");
}

#[test]
fn hashes_are_those_of_the_contents() {
    let digest = hash_file(b"abc");
    assert_eq!(digest[..4], [0xba, 0x78, 0x16, 0xbf]);
    assert_ne!(hash_file(b"main"), hash_file(b"new-main"));
}

#[test]
fn identity_probe_reports_failures() {
    let failed = probe_identity("/cargo/bin/obsidian-mcp", Ok(output(false, 1, "", " broken \n")), Ok(identity()));
    assert_eq!(
        failed.unwrap_err().message(),
        "invalid installation metadata: '/cargo/bin/obsidian-mcp --__build-info' failed: broken"
    );
    let garbled = probe_identity(
        "/b",
        Ok(output(true, 0, "?", "")),
        Err(UpgradeError::Json("expected value".into())),
    );
    assert_eq!(
        garbled.unwrap_err().message(),
        "invalid installation metadata: '/b' returned invalid build identity: expected value"
    );
    assert_eq!(probe_identity("/b", Ok(output(true, 0, "{}", "")), Ok(identity())), Ok(identity()));
}

// Health of services.

#[test]
fn probe_requires_exact_health_identity() {
    let response = "HTTP/1.0 200 OK\r\nContent-Type: application/json\r\n\r\n\
                    {\"status\":\"ok\",\"server\":\"obsidian-mcp\",\"version\":\"2.5.0\"}";
    assert_eq!(
        health_body(response).expect("a body"),
        "{\"status\":\"ok\",\"server\":\"obsidian-mcp\",\"version\":\"2.5.0\"}"
    );
    let body = HealthBody {
        status: "ok".into(),
        server: "obsidian-mcp".into(),
        version: "2.5.0".into(),
    };
    assert_eq!(observe_health(Ok(body)).expect("health should pass").version, "2.5.0");
}

#[test]
fn probe_rejects_lookalike_json() {
    let body = HealthBody { status: "ok".into(), server: "other".into(), version: "2.5.0".into() };
    assert!(observe_health(Ok(body)).is_err());
    assert!(observe_health(Err("expected value".into())).is_err());
}

#[test]
fn host_header_brackets_ipv6_literals() {
    assert_eq!(format_host_header("::1", 37842, true), "[::1]:37842");
    assert_eq!(format_host_header("127.0.0.1", 37842, false), "127.0.0.1:37842");
}

#[test]
fn wildcard_hosts_are_probed_on_loopback() {
    for (given, expected) in [
        ("", "127.0.0.1"),
        ("0.0.0.0", "127.0.0.1"),
        (" :: ", "::1"),
        ("[::]", "::1"),
        ("[fe80::1]", "fe80::1"),
        ("example.org", "example.org"),
    ] {
        assert_eq!(connect_host(given), expected);
    }
    assert_eq!(
        health_request("::1", 80, true),
        "GET /health HTTP/1.0\r\nHost: [::1]:80\r\nConnection: close\r\n\r\n"
    );
}

#[test]
fn replies_that_are_no_health_reply_are_refused() {
    assert!(health_body("HTTP/1.0 503 Service Unavailable\r\n\r\n{}").is_err());
    assert!(health_body("HTTP/1.0 200 OK\r\n").is_err());
    assert!(reads_on(65535));
    assert!(!reads_on(65536));
    assert!(ends_reply(true, 1));
    assert!(!ends_reply(true, 0));
    assert!(!ends_reply(false, 1));
    let unresolved = probe_error(&ProbeFailure::Unresolved("no host".into()), "h", 80);
    assert_eq!(unresolved.message(), "activation failed: cannot resolve h:80: no host");
    assert_eq!(
        no_healthy_address(None, "h", 80).message(),
        "activation failed: no addresses resolved for h:80"
    );
}

#[test]
fn wait_for_a_version_ends_with_it_or_with_the_deadline() {
    let ready = wait_for_version(
        Ok(HealthObservation { version: "2.5.0".into() }),
        "127.0.0.1",
        4000,
        "2.5.0",
        0,
        10,
    );
    assert!(matches!(ready, HealthWait::Ready(o) if o.version == "2.5.0"));
    let old = || Ok(HealthObservation { version: "2.4.0".into() });
    assert!(matches!(wait_for_version(old(), "127.0.0.1", 4000, "2.5.0", 0, 10), HealthWait::Again));
    assert!(matches!(wait_for_version(old(), "127.0.0.1", 4000, "2.5.0", 10, 10), HealthWait::Failed(_)));
}

// The helper on Windows.

#[test]
fn tasklist_parser_ignores_headers_and_other_images() {
    let raw = "\"obsidian-mcp.exe\",\"123\",\"Console\",\"1\",\"1,024 K\"\n\
               \"other.exe\",\"456\",\"Console\",\"1\",\"1,024 K\"\n\
               INFO: No tasks are running";
    assert_eq!(parse_tasklist_pids(raw), vec![123]);
}

#[test]
fn replacement_waits_for_the_parent_and_refuses_others() {
    assert!(matches!(replacement_step(&vec![], 7, 0, 10), ReplacementStep::Proceed));
    assert!(matches!(replacement_step(&vec![7], 7, 0, 10), ReplacementStep::Wait));
    assert!(matches!(replacement_step(&vec![7], 7, 10, 10), ReplacementStep::Refuse(_)));
    match replacement_step(&vec![7, 8, 9], 7, 0, 10) {
        ReplacementStep::Refuse(error) => assert_eq!(
            error.message(),
            "upgrade failed: cannot replace obsidian-mcp.exe while other instances are running (PIDs: 8, 9)"
        ),
        other => panic!("unexpected {other:?}"),
    }
}

#[test]
fn helper_is_named_after_its_process() {
    assert_eq!(helper_directory(42, "123"), "obsidian-mcp-upgrade-42-123");
    assert_eq!(
        helper_arguments(42, "C:/bin/obsidian-mcp.exe"),
        vec!["__apply-upgrade", "--parent-pid", "42", "--original-exe", "C:/bin/obsidian-mcp.exe"]
    );
    assert!(is_stale_helper("obsidian-mcp-upgrade-1-2", true, true));
    assert!(!is_stale_helper("obsidian-mcp-upgrade-1-2", true, false));
    assert!(!is_stale_helper("something", true, true));
    assert!(handoff_error(&HandoffFailure::Copy, "/tmp/h", "denied").message().contains("/tmp/h"));
}

// Processes.

#[test]
fn classifies_only_http_runtime_arguments_or_transport() {
    assert!(is_http_runtime(&["--http".into()], None, false));
    assert!(is_http_runtime(&[], Some("HTTP"), false));
    assert!(is_http_runtime(&[], None, true));
    assert!(!is_http_runtime(&[], None, false));
    assert!(!is_http_runtime(&["serve".into()], Some("stdio"), false));
}

#[test]
fn normalizes_linux_deleted_executable_suffix_for_retry_discovery() {
    assert_eq!(
        strip_deleted_suffix("/home/user/.cargo/bin/obsidian-mcp (deleted)"),
        "/home/user/.cargo/bin/obsidian-mcp"
    );
    assert_eq!(strip_deleted_suffix("/tmp/not-deleted"), "/tmp/not-deleted");
}

#[test]
fn lsof_matching_ignores_non_text_fields_and_deleted_suffix() {
    let expected = "/tmp/obsidian-mcp";
    let listed = b"p123\nfcwd\nn/tmp\nftxt\nn/tmp/obsidian-mcp (deleted)\n";
    assert_eq!(lsof_paths(listed), vec!["/tmp", "/tmp/obsidian-mcp"]);
    assert!(lsof_text_matches(listed, expected, &vec![None, None]));
    assert!(!lsof_text_matches(b"p123\nftxt\nn/tmp/other-binary\n", expected, &vec![None]));
}

#[test]
fn lsof_matching_follows_links() {
    let listed = b"p1\nftxt\nn/usr/bin/link\n";
    assert!(lsof_text_matches(listed, "/tmp/obsidian-mcp", &vec![Some("/tmp/obsidian-mcp".into())]));
}

#[test]
fn process_details_are_read_from_the_system() {
    let candidate = linux_candidate(
        7,
        b"/bin/obsidian-mcp\0--http\0",
        b"A=1\0OBSIDIAN_TRANSPORT=http\0OBSIDIAN_TRANSPORT=stdio\0",
    );
    assert_eq!(candidate.arguments, vec!["--http"]);
    assert_eq!(candidate.transport.as_deref(), Some("http"));
    assert_eq!(argument_list(b"prog\0caf\xc3\xa9\0"), vec!["caf\u{e9}"]);
    assert_eq!(process_id("123"), Some(123));
    assert_eq!(process_id("self"), None);
    assert_eq!(ps_arguments(b"/bin/obsidian-mcp --http --port 1\n"), vec!["--http", "--port", "1"]);
    assert_eq!(pgrep_pids(&output(true, 0, "12\nx\n13\n", "")), Ok(vec![12, 13]));
    assert_eq!(pgrep_pids(&output(false, 1, "", "")), Ok(vec![]));
    assert!(pgrep_pids(&output(false, 2, "", "usage")).is_err());
    assert_eq!(listens_tcp(&output(false, 1, "", "")), Ok(false));
    assert_eq!(listens_tcp(&output(true, 0, "x", "")), Ok(true));
    assert!(listens_tcp(&output(false, 2, "", "denied")).is_err());
}

fn candidate(pid: u32, http: bool) -> ProcessCandidate {
    ProcessCandidate {
        pid,
        arguments: if http { vec!["--http".into()] } else { Vec::new() },
        transport: None,
        listens_tcp: false,
    }
}

#[test]
fn unmanaged_processes_are_listed_in_order() {
    let candidates = vec![candidate(9, true), candidate(4, true), candidate(5, false), candidate(7, true), candidate(9, true), candidate(1, true)];
    assert_eq!(unmanaged_http_processes(&candidates, &[7], 1), vec![4, 9]);
}

// The rules of an upgrade.

fn service(observed_version: Option<&str>) -> ServiceTarget {
    ServiceTarget {
        owner: ServiceOwner::Launchd,
        id: "test.service".into(),
        definition_path: None,
        executable: "/tmp/obsidian-mcp".into(),
        host: "127.0.0.1".into(),
        port: 37842,
        previous_pid: Some(1),
        observed_version: observed_version.map(str::to_owned),
    }
}

#[test]
fn unchanged_healthy_service_is_not_activated() {
    assert!(!service_needs_activation(&service(Some("2.5.0")), "2.5.0"));
}

#[test]
fn only_old_or_unhealthy_service_is_activated() {
    assert!(!service_needs_activation(&service(Some("2.5.0")), "2.5.0"));
    assert!(service_needs_activation(&service(Some("2.4.0")), "2.5.0"));
    assert!(service_needs_activation(&service(None), "2.5.0"));
}

#[test]
fn refreshed_service_state_replaces_snapshot_and_adds_new_targets() {
    let mut existing = vec![service(Some("2.4.0"))];
    existing[0].id = "existing.service".into();
    let mut refreshed = service(Some("2.5.0"));
    refreshed.id = "existing.service".into();
    refreshed.previous_pid = Some(2);
    let mut added = service(Some("2.5.0"));
    added.id = "new.service".into();

    merge_service_targets(&mut existing, vec![refreshed, added]);

    assert_eq!(existing.len(), 2);
    assert_eq!(existing[0].id, "existing.service");
    assert_eq!(existing[0].previous_pid, Some(2));
    assert_eq!(existing[1].id, "new.service");
}

#[test]
fn refreshed_services_are_sorted_and_told_apart_by_their_manager() {
    let mut existing = vec![service(None)];
    let mut other_manager = service(None);
    other_manager.owner = ServiceOwner::SystemdUser;
    let mut first = service(None);
    first.id = "a.service".into();
    merge_service_targets(&mut existing, vec![other_manager, first]);
    let ids: Vec<&str> = existing.iter().map(|target| target.id.as_str()).collect();
    assert_eq!(ids, vec!["a.service", "test.service", "test.service"]);
    assert_eq!(existing[1].owner, ServiceOwner::Launchd);
    assert_eq!(existing[2].owner, ServiceOwner::SystemdUser);
}

#[test]
fn unmanaged_processes_block_the_upgrade() {
    let services = vec![service(None)];
    assert_eq!(ensure_no_unmanaged_http(&vec![candidate(1, true)], &services, 99), Ok(()));
    assert_eq!(
        ensure_no_unmanaged_http(&vec![candidate(5, true)], &services, 99).unwrap_err().message(),
        "unsupported active runtime: ad-hoc HTTP process 5 uses this binary, but the upgrader \
         cannot reconstruct inherited settings; stop it, retry the upgrade, then restart it with \
         the same launch command"
    );
    assert_eq!(
        ensure_no_unmanaged_http(&vec![candidate(6, true), candidate(5, true)], &services, 99)
            .unwrap_err()
            .message(),
        "unsupported active runtime: ad-hoc HTTP processes 5, 6 use this binary, but the upgrader \
         cannot reconstruct inherited settings; stop them, retry the upgrade, then restart them \
         with the same launch command"
    );
}

#[test]
fn options_tell_the_executable() {
    let normal = UpgradeOptions::normal(true);
    assert!(normal.dry_run);
    assert_eq!(upgraded_executable(&normal, Ok("/bin/self".into())), Ok("/bin/self".into()));
    assert_eq!(
        upgraded_executable(&normal, Err("gone".into())),
        Err(UpgradeError::Io("gone".into()))
    );
    let helper = UpgradeOptions::windows_helper("C:/obsidian-mcp.exe".into(), 12);
    assert!(!helper.dry_run);
    assert_eq!(helper.windows_parent_pid, Some(12));
    assert_eq!(
        upgraded_executable(&helper, Ok("other".into())),
        Ok("C:/obsidian-mcp.exe".into())
    );
    assert_eq!(
        locked_by_another("/cargo", "busy").message(),
        "upgrade failed: another obsidian-mcp upgrade is already using '/cargo': busy"
    );
}

#[test]
fn report_succeeds_only_as_a_whole() {
    let result = |success: bool| ActivationResult {
        target_id: "a".into(),
        success,
        observed_version: None,
        diagnostic: String::new(),
    };
    let mut report = UpgradeReport {
        old_identity: identity(),
        new_identity: identity(),
        binaries_changed: false,
        semantic: None,
        services: vec![result(true)],
        stdio_reconnect_required: false,
        activation_attempted: false,
    };
    assert!(report.activation_succeeded());
    report.services.push(result(false));
    assert!(!report.activation_succeeded());
    report.services.pop();
    report.semantic = Some(SemanticReconcileResult {
        success: false,
        ownership: "unknown".into(),
        was_running: false,
        restarted: false,
        observed_version: None,
        diagnostic: String::new(),
    });
    assert!(!report.activation_succeeded());
}

// The course of an upgrade.

fn context(options: UpgradeOptions, windows: bool) -> UpgradeContext {
    UpgradeContext { options, identity: identity(), windows, current_pid: 99 }
}

fn record() -> InstallRecord {
    InstallRecord { root: "/cargo".into(), profile: "release".into(), target: "test-target".into() }
}

fn preflight(state: Upgrade, context: &UpgradeContext) -> Upgrade {
    state
        .install_found(context, Ok(record()))
        .services_found(context, Ok(vec![service(Some("2.4.0"))]))
        .processes_listed(context, Ok(vec![candidate(1, true)]))
}

fn outcome(version: &str, changed: bool) -> Result<InstallOutcome, UpgradeError> {
    let mut identity = identity();
    identity.version = version.into();
    Ok(InstallOutcome { after: snapshot(&identity, b"a", b"b")?, changed })
}

#[test]
fn dry_run_ends_with_a_plan() {
    let context = context(UpgradeOptions::normal(true), false);
    match preflight(Upgrade::start(&context), &context) {
        Upgrade::Done(UpgradeRunOutcome::DryRun(plan)) => {
            assert_eq!(plan.install, record());
            assert_eq!(plan.cargo_args[0], "install");
            assert_eq!(plan.services.len(), 1);
        }
        other => panic!("unexpected {other:?}"),
    }
}

#[test]
fn unmanaged_process_stops_the_upgrade_before_the_lock() {
    let context = context(UpgradeOptions::normal(false), false);
    let state = Upgrade::start(&context)
        .install_found(&context, Ok(record()))
        .services_found(&context, Ok(Vec::new()))
        .processes_listed(&context, Ok(vec![candidate(5, true)]));
    assert!(matches!(state, Upgrade::Failed(UpgradeError::UnsupportedRuntime(_))));
}

#[test]
fn services_are_restarted_after_the_installation() {
    let context = context(UpgradeOptions::normal(false), false);
    let state = preflight(Upgrade::start(&context), &context);
    assert!(matches!(state, Upgrade::Lock(_)));
    let state = state.locked(&context, Ok(()));
    assert!(matches!(state, Upgrade::DiscoverInstall(Phase::Locked)));
    let state = preflight(state, &context);
    match &state {
        Upgrade::Install { ready, stopped } => {
            assert_eq!(ready.daemon, "/cargo/bin/obsidian-semanticd");
            assert!(!stopped);
        }
        other => panic!("unexpected {other:?}"),
    }
    let mut current = service(Some("2.5.0"));
    current.id = "current.service".into();
    let state = state
        .package_installed(&context, outcome("2.5.0", true))
        .services_found(&context, Ok(vec![current]))
        .processes_listed(&context, Ok(Vec::new()));
    assert!(matches!(state, Upgrade::ReconcileDaemon(_)));
    let state = state.daemon_reconciled(&context, Err(VaultError::Other("no daemon".into())));
    assert_eq!(state.next_service().map(|target| target.id.as_str()), Some("test.service"));
    let state = state.service_restarted(
        &context,
        ActivationResult {
            target_id: "another.service".into(),
            success: true,
            observed_version: Some("2.5.0".into()),
            diagnostic: "restarted".into(),
        },
    );
    match state {
        Upgrade::Done(UpgradeRunOutcome::Completed(report)) => {
            assert_eq!(report.new_identity.version, "2.5.0");
            assert!(report.stdio_reconnect_required);
            assert!(report.activation_attempted);
            assert_eq!(
                report.services[0].diagnostic,
                "already reports the installed version; not restarted"
            );
            assert_eq!(report.services[1].diagnostic, "restarted");
            assert_eq!(report.services[1].target_id, "test.service");
            let semantic = report.semantic.expect("a result for the daemon");
            assert_eq!(semantic.ownership, "unknown");
            assert_eq!(semantic.diagnostic, "no daemon");
        }
        other => panic!("unexpected {other:?}"),
    }
}

#[test]
fn up_to_date_installation_restarts_nothing() {
    let context = context(UpgradeOptions::normal(false), false);
    let state = preflight(Upgrade::start(&context), &context).locked(&context, Ok(()));
    let state = preflight(state, &context)
        .package_installed(&context, outcome("2.4.0", false))
        .services_found(&context, Ok(vec![service(Some("2.4.0"))]))
        .processes_listed(&context, Ok(Vec::new()))
        .daemon_reconciled(
            &context,
            Ok(DaemonReconcileOutcome {
                origin: BinaryOrigin::Sibling,
                was_running: true,
                restarted: false,
                observed_version: Some("2.4.0".into()),
                diagnostic: "current".into(),
            }),
        );
    match state {
        Upgrade::Done(UpgradeRunOutcome::Completed(report)) => {
            assert!(!report.activation_attempted);
            assert!(!report.stdio_reconnect_required);
            assert!(report.activation_succeeded());
            assert_eq!(report.semantic.unwrap().ownership, "sibling");
        }
        other => panic!("unexpected {other:?}"),
    }
}

#[test]
fn failed_installation_on_unix_is_reported_as_it_is() {
    let context = context(UpgradeOptions::normal(false), false);
    let state = preflight(Upgrade::start(&context), &context).locked(&context, Ok(()));
    let state = preflight(state, &context)
        .package_installed(&context, Err(UpgradeError::Install("cargo failed".into())));
    assert_eq!(state, Upgrade::Failed(UpgradeError::Install("cargo failed".into())));
}

#[test]
fn windows_hands_over_and_the_helper_restores_the_daemon() {
    let first = context(UpgradeOptions::normal(false), true);
    let state = preflight(Upgrade::start(&first), &first);
    assert!(matches!(state, Upgrade::Handoff));
    let state = state.handed_over(&first, Ok("C:/tmp/helper.exe".into()));
    assert!(matches!(state, Upgrade::Done(UpgradeRunOutcome::WindowsHandoff { .. })));

    let helper = context(UpgradeOptions::windows_helper("C:/obsidian-mcp.exe".into(), 7), true);
    let state = Upgrade::start(&helper);
    assert!(matches!(state, Upgrade::AwaitReplacement(7)));
    let state = preflight(state.replacement_awaited(&helper, Ok(())), &helper);
    let state = preflight(state.locked(&helper, Ok(())), &helper);
    assert!(matches!(state, Upgrade::PrepareDaemon(_)));
    let state = state
        .daemon_prepared(&helper, Ok(true))
        .package_installed(&helper, Err(UpgradeError::Install("cargo failed".into())));
    assert!(matches!(state, Upgrade::RestoreDaemon { .. }));
    match state.daemon_started(&helper, Err(VaultError::Other("gone".into()))) {
        Upgrade::Failed(error) => assert_eq!(
            error.message(),
            "upgrade failed: upgrade failed: cargo failed; additionally, the semantic daemon \
             could not be restored: gone"
        ),
        other => panic!("unexpected {other:?}"),
    }
}

#[test]
fn failures_after_the_installation_say_so() {
    let context = context(UpgradeOptions::normal(false), false);
    let installed = || {
        let state = preflight(Upgrade::start(&context), &context).locked(&context, Ok(()));
        preflight(state, &context).package_installed(&context, outcome("2.5.0", true))
    };
    let failed = installed().services_found(&context, Err(UpgradeError::Io("x".into())));
    assert_eq!(
        failed,
        Upgrade::Failed(UpgradeError::Activation(
            "binaries were installed, but running services could not be rediscovered: x".into()
        ))
    );
    let failed = installed()
        .services_found(&context, Ok(Vec::new()))
        .processes_listed(&context, Err(UpgradeError::Io("y".into())));
    assert_eq!(
        failed,
        Upgrade::Failed(UpgradeError::Activation(
            "binaries were installed, but runtime activation is incomplete: y".into()
        ))
    );
}
