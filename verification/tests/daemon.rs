//! Starting, replacing and stopping the shared daemon.

use std::io::Write;

use obsidian_mcp::daemon::archive::{
    download_error, extract_tar_gz_binary, extract_zip_binary, packing, sha256_hex, tar_entry_step,
    unpack_error, zip_entry_step, DownloadFailure, EntryStep, Packing, TarItem, ZipItem,
};
use obsidian_mcp::daemon::bootstrap::{
    compare_daemon_versions, daemon_binary_version, daemon_environment, effective_origin,
    executable_command, find_daemon_on_path, linux_process_matches, macos_process_matches,
    parse_daemon_version, paths_equal, resolve_daemon_binary, resolve_download_url,
    sibling_daemon_path, start_error, reported_program, target_triple, windows_process_matches,
    BootstrapConfig, Machine, Platform, ResolvedPaths, SemanticRuntimeConfig, StartFailure, System,
};
use obsidian_mcp::daemon::ensure::{Ensure, EnsurePlan};
use obsidian_mcp::daemon::home::SemanticHomePaths;
use obsidian_mcp::daemon::manifest::{
    endpoint_from_manifest, BinaryOrigin, IpcEndpoint, ManifestIpc, RuntimeManifest,
    RuntimeManifestInput,
};
use obsidian_mcp::daemon::protocol::{
    connection_failed, exchange_error, health_request, probe_outcome, request_health,
    ConnectFailure, ExchangeFailure, HealthProbeOutcome, HealthReply, HealthResult,
    DAEMON_API_VERSION,
};
use obsidian_mcp::daemon::reconcile::{Prepare, Reconcile, ReconcilePlan, Started};
use obsidian_mcp::daemon::shutdown::{
    liveness_command, process_is_alive, terminate_command, terminate_process, wait_for_health,
    wait_for_process_exit, wait_for_unreachable, ExitWait, Shutdown, ShutdownReply, SilenceWait,
    StartWait,
};
use obsidian_mcp::daemon::vault_context::{embeddings_unavailable, note_metadata};
use obsidian_mcp::daemon::vault_registry::{
    canonicalize_vault_root, EnsureVault, ResolvedRoot, VaultRegistry,
};
use obsidian_mcp::error::VaultError;
use obsidian_mcp::upgrade::commands::command_text;
use obsidian_mcp::upgrade::CommandOutput;
use obsidian_mcp::version::VersionOrder;

const VERSION: &str = "2.5.0";
const INSTALLED: &str = "/cargo/bin/obsidian-semanticd";
const LINUX: Platform = Platform { system: System::Linux, machine: Machine::X86 };

fn config() -> BootstrapConfig {
    BootstrapConfig {
        semantic_home_override: Some("/home/semantic".into()),
        daemon_path_override: None,
        model_name: "different-config-model".into(),
        download_url_override: None,
        bootstrap_client_name: "upgrade-test".into(),
        bootstrap_client_version: VERSION.into(),
    }
}

fn manifest(version: &str, origin: BinaryOrigin, binary: &str, transport: &str) -> RuntimeManifest {
    RuntimeManifest::from_input(
        RuntimeManifestInput {
            daemon_api_version: DAEMON_API_VERSION,
            daemon_version: version.into(),
            binary_path: binary.into(),
            binary_origin: origin,
            binary_sha256: Some("old-checksum".into()),
            ipc: ManifestIpc {
                transport: transport.into(),
                endpoint: "/home/semantic/ipc/old.sock".into(),
            },
            pid: 4242,
            semantic_home: "/home/semantic".into(),
            fastembed_cache_dir: "/home/semantic/model/fastembed-cache".into(),
            model_name: "preserved-model".into(),
            bootstrap_client_name: "old-client".into(),
            bootstrap_client_version: "0.0.1".into(),
        },
        5,
    )
}

fn owned(version: &str) -> RuntimeManifest {
    manifest(version, BinaryOrigin::Sibling, "/bin/sleep", "unix_socket")
}

fn paths() -> SemanticHomePaths {
    SemanticHomePaths::new("/home/semantic".into(), false)
}

fn healthy(version: &str) -> Result<HealthProbeOutcome, VaultError> {
    Ok(HealthProbeOutcome::Healthy(health(version)))
}

fn health(version: &str) -> HealthResult {
    HealthResult { daemon_version: version.into(), daemon_api_version: DAEMON_API_VERSION, pid: 77 }
}

fn unresolved() -> ResolvedPaths {
    ResolvedPaths { recorded: None, installed: None, managed: None }
}

fn printed(text: &str) -> Result<CommandOutput, String> {
    Ok(CommandOutput {
        success: true,
        code: Some(0),
        stdout: text.as_bytes().to_vec(),
        stderr: Vec::new(),
    })
}

// Where the program comes from.

#[test]
fn resolve_download_url_uses_override() {
    let config = BootstrapConfig {
        download_url_override: Some("https://example.com/custom.tar.gz".to_string()),
        ..config()
    };
    let url = resolve_download_url(&config, VERSION, LINUX).expect("download URL should resolve");
    assert_eq!(url, "https://example.com/custom.tar.gz");
}

#[test]
fn resolve_download_url_uses_versioned_semanticd_asset_name() {
    let url = resolve_download_url(&config(), VERSION, LINUX).expect("resolve default URL");
    assert!(
        url.contains(&format!("/releases/download/v{VERSION}/")),
        "url should target release tag path, got: {url}"
    );
    assert!(
        url.contains(&format!("obsidian-semanticd-{VERSION}-")),
        "url should include versioned semantic daemon asset, got: {url}"
    );
    assert!(url.ends_with(".tar.gz"), "unix URL should end with .tar.gz");
    let windows = Platform { system: System::Windows, machine: Machine::X86 };
    let url = resolve_download_url(&config(), VERSION, windows).expect("resolve default URL");
    assert!(url.ends_with(".zip"), "windows URL should end with .zip");
}

#[test]
fn unknown_platforms_have_no_download() {
    let other = Platform { system: System::Other, machine: Machine::Other };
    assert!(target_triple(other).is_err());
    assert!(resolve_download_url(&config(), VERSION, other).is_err());
    assert_eq!(target_triple(LINUX), Ok("x86_64-unknown-linux-gnu"));
}

#[test]
fn configuration_takes_the_settings_of_the_environment() {
    let config = BootstrapConfig::from_env(
        SemanticRuntimeConfig {
            semantic_home_override: None,
            daemon_path_override: Some("/d".into()),
            model_name: "m".into(),
            daemon_download_url: Some("https://x".into()),
        },
        VERSION,
    );
    assert_eq!(config.daemon_path_override.as_deref(), Some("/d"));
    assert_eq!(config.download_url_override.as_deref(), Some("https://x"));
    assert_eq!(config.bootstrap_client_name, "obsidian-mcp");
    assert_eq!(config.bootstrap_client_version, VERSION);
}

#[test]
fn endpoint_from_manifest_rejects_unknown_transport() {
    let manifest = manifest("1.0.1", BinaryOrigin::Unknown, "/tmp/semanticd", "tcp");
    assert!(endpoint_from_manifest(&manifest, false).is_none());
}

#[test]
fn endpoint_is_read_back_from_the_manifest() {
    let recorded = owned("1.0.0");
    assert_eq!(
        endpoint_from_manifest(&recorded, false),
        Some(IpcEndpoint::UnixSocket("/home/semantic/ipc/old.sock".into()))
    );
    assert_eq!(endpoint_from_manifest(&recorded, true), None);
    let pipe = manifest("1.0.0", BinaryOrigin::Path, "/x", "named_pipe");
    assert!(matches!(endpoint_from_manifest(&pipe, true), Some(IpcEndpoint::NamedPipe(_))));
}

#[test]
fn find_daemon_on_path_discovers_binary_in_temp_dir() {
    let dirs: Vec<String> = vec!["/first".into(), "/tmp/dir".into(), "/usr/bin".into()];
    assert_eq!(
        find_daemon_on_path(&dirs, &vec![false, true, true], false),
        Some("/tmp/dir/obsidian-semanticd".into())
    );
}

#[test]
fn find_daemon_on_path_returns_none_when_absent() {
    assert!(find_daemon_on_path(&vec!["/tmp/dir".into()], &vec![false], false).is_none());
}

#[test]
fn program_is_chosen_in_order() {
    let recorded = owned("1.0.0");
    let given = BootstrapConfig { daemon_path_override: Some("/given".into()), ..config() };
    let chosen = |config: &BootstrapConfig, existing, preferred, sibling| {
        resolve_daemon_binary(config, &paths(), existing, preferred, sibling)
    };
    assert_eq!(
        chosen(&given, Some(&recorded), Some("/p"), Some("/s")),
        ("/given".into(), BinaryOrigin::Override)
    );
    assert_eq!(chosen(&config(), Some(&recorded), Some("/p"), Some("/s")).0, "/p");
    assert_eq!(chosen(&config(), Some(&recorded), None, Some("/s")).0, "/s");
    assert_eq!(chosen(&config(), Some(&recorded), None, None).0, "/bin/sleep");
    assert_eq!(
        chosen(&config(), None, None, None),
        ("/home/semantic/bin/obsidian-semanticd".into(), BinaryOrigin::ManagedDownload)
    );
    assert_eq!(
        sibling_daemon_path("/cargo/bin/obsidian-mcp", false),
        Some("/cargo/bin/obsidian-semanticd".into())
    );
    for (executable, sibling) in [
        (r"C:\cargo\bin\obsidian-mcp.exe", r"C:\cargo\bin\obsidian-semanticd.exe"),
        (r"\\?\C:\cargo\bin\obsidian-mcp.exe", r"\\?\C:\cargo\bin\obsidian-semanticd.exe"),
        ("C:/cargo/bin/obsidian-mcp.exe", r"C:/cargo/bin\obsidian-semanticd.exe"),
    ] {
        assert_eq!(sibling_daemon_path(executable, true).as_deref(), Some(sibling));
    }
}

#[test]
fn versions_are_compared_semantically() {
    assert_eq!(compare_daemon_versions("2.10.0", "2.9.0"), Ok(VersionOrder::Newer));
    assert_eq!(compare_daemon_versions("2.5.0", "2.5.0"), Ok(VersionOrder::Same));
    assert_eq!(compare_daemon_versions("2.5.0-rc.1", "2.5.0"), Ok(VersionOrder::Older));
    let error = parse_daemon_version("running semantic daemon", "two").unwrap_err();
    assert!(error.message().starts_with("running semantic daemon reported invalid semantic version 'two': "));
    assert!(compare_daemon_versions("1", "2.0.0").is_err());
}

#[test]
fn program_prints_its_version() {
    assert_eq!(daemon_binary_version("/d", printed(" obsidian-semanticd 2.5.0\n")), Ok("2.5.0".into()));
    assert!(daemon_binary_version("/d", printed("other 2.5.0")).is_err());
    assert!(daemon_binary_version("/d", printed("obsidian-semanticd x")).is_err());
    assert!(daemon_binary_version("/d", Err("denied".into())).is_err());
    let failed = CommandOutput { success: false, code: Some(1), stdout: Vec::new(), stderr: Vec::new() };
    assert_eq!(
        daemon_binary_version("/d", Ok(failed)).unwrap_err().message(),
        "'/d --version' exited unsuccessfully"
    );
}

#[test]
fn owner_of_a_legacy_record_is_found_by_its_path() {
    let legacy = manifest("1.0.0", BinaryOrigin::Unknown, INSTALLED, "unix_socket");
    assert_eq!(
        effective_origin(&legacy, &paths(), INSTALLED, &unresolved(), false),
        BinaryOrigin::Sibling
    );
    let managed = manifest(
        "1.0.0",
        BinaryOrigin::Unknown,
        "/home/semantic/bin/obsidian-semanticd",
        "unix_socket",
    );
    assert_eq!(
        effective_origin(&managed, &paths(), INSTALLED, &unresolved(), false),
        BinaryOrigin::ManagedDownload
    );
    assert!(paths_equal("/a//b", "/a/b", &None, &None, false));
    assert!(paths_equal("/a", "/b", &Some("/c".into()), &Some("/c".into()), false));
    assert!(!paths_equal("/a", "/b", &None, &None, false));
    assert!(paths_equal(r"C:\a\b", "c:/a/b", &None, &None, true));
}

#[test]
fn started_daemon_gets_its_settings() {
    let endpoint = paths().default_socket();
    let variables = daemon_environment(&paths(), &endpoint, "m", Some("debug"));
    let value = |name: &str| {
        variables.iter().find(|(key, _)| key == name).map(|(_, value)| value.as_str())
    };
    assert_eq!(value("OBSIDIAN_SEMANTIC_MODEL"), Some("m"));
    assert!(variables.iter().any(|(_, value)| value == "/home/semantic/ipc/semanticd.sock"));
    let error = start_error(&StartFailure::Spawn("denied".into()), "/d", &paths());
    assert!(error.message().contains("/d") && error.message().contains("denied"));
}

#[test]
fn processes_are_matched_by_their_program() {
    assert!(linux_process_matches("/a/d (deleted)", "/a/d", &None, &None));
    assert!(linux_process_matches("/l", "/a/d", &Some("/r".into()), &Some("/r".into())));
    assert!(!linux_process_matches("/b", "/a/d", &None, &None));
    assert!(macos_process_matches(b"p1\nftxt\nn/a/d\n", &vec![None], "/a/d", &None));
    assert!(!macos_process_matches(b"p1\nftxt\nn/a/e\n", &vec![None], "/a/d", &None));
}

// Downloads.

fn tar_gz(entries: &[(&str, &[u8])]) -> Vec<u8> {
    let encoder = flate2::write::GzEncoder::new(Vec::new(), flate2::Compression::default());
    let mut builder = tar::Builder::new(encoder);
    for (path, data) in entries {
        let mut header = tar::Header::new_gnu();
        header.set_size(data.len() as u64);
        header.set_mode(0o755);
        header.set_cksum();
        builder.append_data(&mut header, path, *data).unwrap();
    }
    builder.into_inner().unwrap().finish().unwrap()
}

#[test]
fn program_is_found_in_a_compressed_archive() {
    let archive = tar_gz(&[("pkg/README", b"r"), ("pkg/obsidian-semanticd", b"program")]);
    assert_eq!(extract_tar_gz_binary(&archive, "obsidian-semanticd", false), Ok(1));
    let error = extract_tar_gz_binary(&archive, "other", false).unwrap_err();
    assert_eq!(error.message(), "downloaded tar.gz archive does not contain 'other'");
    assert!(extract_tar_gz_binary(b"no archive", "obsidian-semanticd", false).is_err());
}

#[test]
fn links_are_not_taken_for_a_program() {
    let link = TarItem::Entry {
        path: "pkg/obsidian-semanticd".into(),
        is_file: false,
        kind: "Symlink".into(),
    };
    assert!(matches!(tar_entry_step(&link, "obsidian-semanticd", false), EntryStep::Failed(_)));
    let other = TarItem::Entry { path: "x".into(), is_file: true, kind: "Regular".into() };
    assert!(matches!(tar_entry_step(&other, "obsidian-semanticd", false), EntryStep::Next));
}

#[test]
fn program_is_found_in_a_zip_archive() {
    let mut writer = zip::ZipWriter::new(std::io::Cursor::new(Vec::new()));
    let options = zip::write::SimpleFileOptions::default();
    writer.start_file("readme.txt", options).unwrap();
    writer.write_all(b"r").unwrap();
    writer.start_file("bin/obsidian-semanticd.exe", options).unwrap();
    writer.write_all(b"program").unwrap();
    let archive = writer.finish().unwrap().into_inner();
    assert_eq!(extract_zip_binary(&archive, "obsidian-semanticd.exe", false), Ok(1));
    let error = extract_zip_binary(&archive, "other", false).unwrap_err();
    assert_eq!(error.message(), "downloaded zip archive does not contain 'other'");
    assert!(extract_zip_binary(b"no archive", "other", false).unwrap_err().message().starts_with("failed to open zip archive: "));
}

#[test]
fn entries_that_leave_the_archive_are_refused() {
    let outside = ZipItem::Entry { name: "../obsidian-semanticd".into(), is_dir: false };
    assert!(matches!(zip_entry_step(&outside, "obsidian-semanticd", false), EntryStep::Failed(_)));
    let directory = ZipItem::Entry { name: "obsidian-semanticd/".into(), is_dir: true };
    assert!(matches!(zip_entry_step(&directory, "obsidian-semanticd", false), EntryStep::Failed(_)));
    let inside = ZipItem::Entry { name: "a/obsidian-semanticd".into(), is_dir: false };
    assert!(matches!(zip_entry_step(&inside, "obsidian-semanticd", false), EntryStep::Here));
}

#[test]
fn downloads_are_packed_as_their_name_says() {
    assert_eq!(packing("https://x/a.zip"), Packing::Zip);
    assert_eq!(packing("https://x/a.tar.gz"), Packing::TarGz);
    assert_eq!(packing("https://x/a"), Packing::Plain);
    assert_eq!(
        sha256_hex(b"abc"),
        "ba7816bf8f01cfea414140de5dae2223b00361a396177a9cb410ff61f20015ad"
    );
    assert_eq!(
        download_error("https://x", &DownloadFailure::Request("timeout".into())).message(),
        "failed to download daemon binary 'https://x': timeout"
    );
    assert!(unpack_error(Packing::Zip, "/d", "full").message().starts_with("failed to extract daemon binary to '/d"));
}

// The protocol.

#[test]
fn health_requests_and_replies_are_read() {
    let request = health_request("2.5.0\"");
    assert!(request.ends_with("}}\n"));
    assert!(request.contains("\"client_version\":\"2.5.0\\\"\""));
    assert_eq!(request_health("{\"result\":{}}"), Ok(HealthReply::Result));
    assert_eq!(request_health(""), Ok(HealthReply::Closed));
    assert_eq!(
        request_health("{\"error\":{\"code\":-32001,\"message\":\"old\"}}"),
        Ok(HealthReply::Incompatible("old".into()))
    );
    assert_eq!(
        request_health("{\"error\":{\"code\":1}}"),
        Ok(HealthReply::Invalid("daemon health error".into()))
    );
    assert!(matches!(request_health("{}"), Ok(HealthReply::Invalid(_))));
    assert!(request_health("no json").is_err());
    assert!(matches!(
        probe_outcome(HealthReply::Result, Ok(health("1.0.0"))),
        Ok(HealthProbeOutcome::Healthy(_))
    ));
    assert!(probe_outcome(HealthReply::Result, Err("bad".into())).is_err());
}

#[test]
fn failed_connections_count_as_unreachable() {
    for failure in [ConnectFailure::NotFound, ConnectFailure::Refused] {
        assert_eq!(
            connection_failed(failure, "/s", false, "x"),
            Ok(HealthProbeOutcome::Unreachable)
        );
    }
    assert!(connection_failed(ConnectFailure::Other, "/s", false, "denied").is_err());
    assert!(exchange_error(ExchangeFailure::Read, "reset").message().contains("reset"));
}

// Stopping a daemon.

#[test]
fn daemon_is_asked_before_it_is_interrupted() {
    let recorded = owned("0.0.1");
    let shutdown = Shutdown::start(&recorded, 77, 1).identity_checked(true, "/bin/sleep");
    assert_eq!(shutdown, Shutdown::Request { pid: 77 });
    assert_eq!(
        shutdown.replied(ShutdownReply::Accepted).silenced(Ok(())),
        Shutdown::Stopped
    );
    let legacy = Shutdown::Request { pid: 77 }
        .replied(ShutdownReply::Failed(VaultError::DaemonRpc { code: -32601, message: "unknown".into() }));
    assert_eq!(legacy, Shutdown::CheckLegacy { pid: 77 });
    let interrupted = legacy.identity_checked(true, "/bin/sleep").signalled(Ok(()));
    assert_eq!(interrupted, Shutdown::AwaitInterrupted { pid: 77 });
    let killed = interrupted.waited(false).signalled(Ok(()));
    assert_eq!(killed, Shutdown::AwaitKilled { pid: 77 });
    assert!(matches!(killed.waited(false), Shutdown::Failed(_)));
}

#[test]
fn unsafe_processes_are_not_stopped() {
    let recorded = owned("0.0.1");
    assert!(matches!(Shutdown::start(&recorded, 55, 55), Shutdown::Failed(_)));
    let mut unknown = owned("0.0.1");
    unknown.pid = 0;
    assert!(matches!(Shutdown::start(&unknown, 0, 1), Shutdown::Failed(_)));
    assert_eq!(Shutdown::start(&recorded, 0, 1), Shutdown::CheckIdentity { pid: 4242 });
    assert!(matches!(
        Shutdown::Request { pid: 1 }.replied(ShutdownReply::Rejected),
        Shutdown::Failed(_)
    ));
}

#[test]
fn waits_end_with_the_process_or_the_time() {
    assert_eq!(wait_for_process_exit(false, 0, 10), ExitWait::Gone);
    assert_eq!(wait_for_process_exit(true, 0, 10), ExitWait::Again);
    assert_eq!(wait_for_process_exit(true, 10, 10), ExitWait::Alive);
    let endpoint = paths().default_socket();
    assert!(matches!(
        wait_for_unreachable(Ok(HealthProbeOutcome::Unreachable), &endpoint, 0, 10),
        SilenceWait::Silent
    ));
    assert!(matches!(wait_for_unreachable(healthy("1.0.0"), &endpoint, 10, 10), SilenceWait::Failed(_)));
    assert!(matches!(wait_for_health(healthy("1.0.0"), &endpoint, 0, 10), StartWait::Healthy(_)));
    assert!(matches!(
        wait_for_health(Ok(HealthProbeOutcome::Unreachable), &endpoint, 0, 10),
        StartWait::Again
    ));
    assert!(command_text(&terminate_command(5, false, false)).contains("5"));
    assert!(terminate_process(true, 5, false, false).is_ok());
    assert!(terminate_process(false, 5, true, false).is_err());
}

// After an upgrade.

fn plan() -> ReconcilePlan {
    ReconcilePlan {
        config: config(),
        paths: paths(),
        installed_daemon: INSTALLED.into(),
        expected_version: VERSION.into(),
        windows: false,
    }
}

#[test]
fn reconcile_restarts_owned_daemon_and_preserves_runtime_state() {
    let plan = plan();
    let state = Reconcile::start(true)
        .loaded(&plan, Ok(Some(owned("0.0.1"))), &unresolved())
        .probed(&plan, healthy("0.0.1"))
        .installed_checked(&plan, true);
    assert!(matches!(state, Reconcile::Shutdown { pid: 77, .. }));
    let state = state.stopped(Ok(()));
    match &state {
        Reconcile::Start { manifest, .. } => assert_eq!(manifest.model_name, "preserved-model"),
        other => panic!("unexpected {other:?}"),
    }
    let state = state
        .started(&plan, Started::Running(88))
        .healthy(&plan, Ok(health(VERSION)))
        .program_read(&plan, Ok(b"abc".to_vec()), 9);
    match &state {
        Reconcile::Save { manifest } => {
            assert_eq!(manifest.binary_origin, BinaryOrigin::Sibling);
            assert_eq!(manifest.model_name, "preserved-model");
            assert_eq!(manifest.ipc.endpoint, "/home/semantic/ipc/old.sock");
            assert_eq!(manifest.binary_sha256.as_deref(), Some(sha256_hex(b"abc").as_str()));
        }
        other => panic!("unexpected {other:?}"),
    }
    match state.saved(Ok(())) {
        Reconcile::Done(outcome) => {
            assert!(outcome.was_running);
            assert!(outcome.restarted);
            assert_eq!(outcome.origin, BinaryOrigin::Sibling);
            assert_eq!(outcome.observed_version.as_deref(), Some(VERSION));
        }
        other => panic!("unexpected {other:?}"),
    }
}

#[test]
fn reconcile_leaves_explicit_override_daemon_running() {
    let mut plan = plan();
    plan.config.daemon_path_override = Some("/external/obsidian-semanticd".into());
    let external =
        manifest("0.0.1", BinaryOrigin::Override, "/external/obsidian-semanticd", "unix_socket");
    let state = Reconcile::start(true)
        .loaded(&plan, Ok(Some(external)), &unresolved())
        .probed(&plan, healthy("0.0.1"));
    match state {
        Reconcile::Done(outcome) => {
            assert!(outcome.was_running);
            assert!(!outcome.restarted);
            assert_eq!(outcome.origin, BinaryOrigin::Override);
        }
        other => panic!("unexpected {other:?}"),
    }
}

#[test]
fn reconcile_refuses_to_stop_a_responder_with_mismatched_executable_identity() {
    let recorded = manifest("0.0.1", BinaryOrigin::Sibling, INSTALLED, "unix_socket");
    let shutdown = Shutdown::start(&recorded, 0, 1).identity_checked(false, INSTALLED);
    let error = match shutdown {
        Shutdown::Failed(error) => error,
        other => panic!("unexpected {other:?}"),
    };
    assert!(error.message().contains("executable identity does not match"));
    let plan = plan();
    let state = Reconcile::start(true)
        .loaded(&plan, Ok(Some(recorded)), &unresolved())
        .probed(&plan, healthy("0.0.1"))
        .installed_checked(&plan, true)
        .stopped(Err(error));
    assert!(matches!(state, Reconcile::Failed(_)));
}

#[test]
fn reconcile_never_downgrades_a_newer_owned_daemon() {
    let plan = plan();
    let state = Reconcile::start(true)
        .loaded(&plan, Ok(Some(owned("999.0.0"))), &unresolved())
        .probed(&plan, healthy("999.0.0"));
    match state {
        Reconcile::Done(outcome) => {
            assert!(!outcome.restarted);
            assert_eq!(outcome.observed_version.as_deref(), Some("999.0.0"));
        }
        other => panic!("unexpected {other:?}"),
    }
}

#[test]
fn reconcile_without_a_record_does_nothing() {
    assert!(matches!(
        Reconcile::start(false),
        Reconcile::Done(outcome) if !outcome.was_running && !outcome.restarted
    ));
    let plan = plan();
    let unsupported = manifest("0.0.1", BinaryOrigin::Sibling, "/bin/sleep", "tcp");
    let state = Reconcile::start(true).loaded(&plan, Ok(Some(unsupported)), &unresolved());
    assert_eq!(
        state,
        Reconcile::Failed(VaultError::DaemonBootstrap(
            "semantic manifest contains an unsupported IPC endpoint".into()
        ))
    );
    let wrong = Reconcile::start(true)
        .loaded(&plan, Ok(Some(owned("0.0.1"))), &unresolved())
        .probed(&plan, healthy("0.0.1"))
        .installed_checked(&plan, true)
        .stopped(Ok(()))
        .started(&plan, Started::Running(88))
        .healthy(&plan, Ok(health("2.4.9")));
    assert!(matches!(wrong, Reconcile::Failed(_)));
}

#[test]
fn preparation_stops_only_an_owned_daemon() {
    let plan = plan();
    let state = Prepare::start(true)
        .loaded(&plan, Ok(Some(owned("0.0.1"))), &unresolved())
        .probed(healthy("0.0.1"));
    assert!(matches!(state, Prepare::Shutdown { pid: 77, .. }));
    assert_eq!(state.stopped(Ok(())), Prepare::Done(true));
    let external = manifest("0.0.1", BinaryOrigin::Path, "/usr/bin/d", "unix_socket");
    let state = Prepare::start(true)
        .loaded(&plan, Ok(Some(external)), &unresolved())
        .probed(healthy("0.0.1"));
    assert_eq!(state, Prepare::Done(false));
    assert_eq!(Prepare::start(false), Prepare::Done(false));
}

// Making sure that a daemon runs.

fn ensure_plan(preferred: Option<&str>) -> EnsurePlan {
    EnsurePlan {
        config: config(),
        paths: paths(),
        default_endpoint: paths().default_socket(),
        platform: LINUX,
        version: VERSION.into(),
        preferred_sibling: preferred.map(str::to_owned),
    }
}

#[test]
fn ensure_daemon_reuses_healthy_manifest_endpoint() {
    let plan = ensure_plan(None);
    let recorded =
        manifest(VERSION, BinaryOrigin::Unknown, "/tmp/nonexistent-semanticd", "unix_socket");
    let state = Ensure::start()
        .loaded(&plan, Ok(Some(recorded)))
        .probed(&plan, healthy(VERSION))
        .sibling_located(&plan, false, None, &unresolved(), 12);
    assert!(matches!(state, Ensure::Touch { .. }));
    match state.touched(&plan, Ok(())) {
        Ensure::Done(result) => {
            assert!(result.reused_existing, "expected reuse-existing path");
            assert_eq!(result.daemon_binary_path, "/tmp/nonexistent-semanticd");
            assert_eq!(result.manifest.last_health, 12);
        }
        other => panic!("unexpected {other:?}"),
    }
}

#[test]
fn normal_bootstrap_completes_interrupted_owned_daemon_activation() {
    let plan = ensure_plan(Some(INSTALLED));
    let state = Ensure::start()
        .loaded(&plan, Ok(Some(owned("0.0.1"))))
        .probed(&plan, healthy("0.0.1"))
        .sibling_located(&plan, true, None, &unresolved(), 1)
        .sibling_version(printed("obsidian-semanticd 2.5.0\n"), 1);
    assert!(matches!(state, Ensure::Shutdown { pid: 77, .. }));
    let state = state
        .stopped(Ok(()))
        .binary_located(&plan, true, None)
        .binary_checked(&plan, true)
        .binary_version(&plan, printed("obsidian-semanticd 2.5.0\n"));
    match &state {
        Ensure::Start { program, model, expected, .. } => {
            assert_eq!(program.path, INSTALLED);
            assert_eq!(model, "preserved-model");
            assert_eq!(expected.as_deref(), Some(VERSION));
        }
        other => panic!("unexpected {other:?}"),
    }
    let state = state
        .started(&plan, Started::Running(90))
        .healthy(&plan, Ok(health(VERSION)), 3)
        .saved(&plan, Ok(()));
    match state {
        Ensure::Done(result) => {
            assert!(!result.reused_existing);
            assert_eq!(result.manifest.daemon_version, VERSION);
            assert_eq!(result.manifest.model_name, "preserved-model");
            assert_eq!(result.manifest.pid, 90);
        }
        other => panic!("unexpected {other:?}"),
    }
}

#[test]
fn missing_program_is_downloaded() {
    let plan = ensure_plan(None);
    let state = Ensure::start()
        .loaded(&plan, Ok(None))
        .binary_located(&plan, false, None)
        .binary_checked(&plan, false)
        .path_searched(&plan, None);
    match &state {
        Ensure::Download { url, .. } => assert!(url.ends_with(".tar.gz")),
        other => panic!("unexpected {other:?}"),
    }
    match state.downloaded(&plan, Ok("checksum".into())) {
        Ensure::Start { program, model, expected, .. } => {
            assert_eq!(program.origin, BinaryOrigin::ManagedDownload);
            assert_eq!(program.sha256.as_deref(), Some("checksum"));
            assert_eq!(model, "different-config-model");
            assert_eq!(expected, None);
        }
        other => panic!("unexpected {other:?}"),
    }
}

#[test]
fn program_on_the_search_path_is_used() {
    let plan = ensure_plan(None);
    let state = Ensure::start()
        .loaded(&plan, Ok(Some(owned("0.0.1"))))
        .probed(&plan, Ok(HealthProbeOutcome::Unreachable))
        .binary_located(&plan, false, None)
        .binary_checked(&plan, false)
        .path_searched(&plan, Some("/usr/bin/obsidian-semanticd".into()));
    match state {
        Ensure::Start { base, program, .. } => {
            assert_eq!(program.origin, BinaryOrigin::Path);
            assert_eq!(base.endpoint, IpcEndpoint::UnixSocket("/home/semantic/ipc/old.sock".into()));
        }
        other => panic!("unexpected {other:?}"),
    }
}

#[test]
fn start_failures_are_reported() {
    let mut given = ensure_plan(None);
    given.config.daemon_path_override = Some("/given".into());
    let state = Ensure::start()
        .loaded(&given, Ok(None))
        .binary_located(&given, false, None)
        .binary_checked(&given, false);
    assert_eq!(
        state,
        Ensure::Failed(VaultError::DaemonBootstrap("daemon override path does not exist: /given".into()))
    );

    let plan = ensure_plan(None);
    let incompatible = Ensure::start()
        .loaded(&plan, Ok(Some(owned("0.0.1"))))
        .probed(&plan, Ok(HealthProbeOutcome::Incompatible("too old".into())));
    assert_eq!(
        incompatible,
        Ensure::Failed(VaultError::DaemonBootstrap(
            "existing daemon is incompatible with API v1: too old".into()
        ))
    );

    let starting = || {
        Ensure::start()
            .loaded(&plan, Ok(None))
            .binary_located(&plan, false, Some(INSTALLED.into()))
            .binary_checked(&plan, true)
            .binary_version(&plan, printed("obsidian-semanticd 2.5.0"))
    };
    assert_eq!(
        starting().started(&plan, Started::Exited("exit status: 1".into())),
        Ensure::Failed(VaultError::DaemonBootstrap(
            "daemon process exited immediately with exit status: 1 (binary: \
             '/cargo/bin/obsidian-semanticd', check /home/semantic/logs/semanticd.stderr.log)"
                .into()
        ))
    );
    assert_eq!(
        starting().started(&plan, Started::Running(5)).healthy(&plan, Ok(health("2.4.0")), 0),
        Ensure::Failed(VaultError::DaemonBootstrap(
            "started sibling semantic daemon reports version '2.4.0', expected '2.5.0'".into()
        ))
    );
}

#[test]
fn newer_running_daemon_is_kept() {
    let plan = ensure_plan(Some(INSTALLED));
    let state = Ensure::start()
        .loaded(&plan, Ok(Some(owned("9.0.0"))))
        .probed(&plan, healthy("9.0.0"))
        .sibling_located(&plan, true, None, &unresolved(), 4)
        .sibling_version(printed("obsidian-semanticd 2.5.0"), 4);
    match state {
        Ensure::Touch { manifest, .. } => assert_eq!(manifest.daemon_version, "9.0.0"),
        other => panic!("unexpected {other:?}"),
    }
}

// Vaults.

fn root(path: &str, is_dir: bool) -> Result<ResolvedRoot, String> {
    Ok(ResolvedRoot { path: path.into(), is_dir })
}

#[test]
fn vault_root_has_to_be_an_absolute_directory() {
    assert_eq!(canonicalize_vault_root("/v/../v", root("/v", true), false), Ok("/v".into()));
    assert_eq!(
        canonicalize_vault_root("v", root("/v", true), false).unwrap_err().message(),
        "vault_root must be absolute: v"
    );
    assert_eq!(
        canonicalize_vault_root("/v", Err("missing".into()), false).unwrap_err().message(),
        "failed to canonicalize vault root '/v': missing"
    );
    assert_eq!(
        canonicalize_vault_root("/v", root("/v.md", false), false).unwrap_err().message(),
        "vault_root is not a directory: /v.md"
    );
}

#[test]
fn windows_vault_root_has_a_prefix() {
    for path in [r"C:\Users\me\Vault", "C:/Users/me/Vault", r"\\?\C:\Users\me\Vault"] {
        let resolved = root(r"\\?\C:\Users\me\Vault", true);
        assert_eq!(
            canonicalize_vault_root(path, resolved, true),
            Ok(r"\\?\C:\Users\me\Vault".into())
        );
    }
    for path in [r"\Vault", "C:Vault", "Vault"] {
        assert_eq!(
            canonicalize_vault_root(path, root(path, true), true).unwrap_err().message(),
            &format!("vault_root must be absolute: {path}")
        );
    }
    let home = r"C:\Users\me\semantic\vaults";
    let mut registry = VaultRegistry::new(home.into(), "model".into(), true);
    let resolved = root(r"\\?\C:\V", true);
    let plan = registry.ensure_vault(r"C:\V", resolved, Ok("id".into()), false, "model");
    assert_eq!(
        plan,
        Ok(EnsureVault::Open {
            vault_id: "id".into(),
            root: r"\\?\C:\V".into(),
            state_dir: r"C:\Users\me\semantic\vaults\id".into(),
            watch: false,
        })
    );
}

#[test]
fn windows_process_is_told_by_its_program() {
    let command = executable_command(7);
    assert_eq!(command.program, "powershell.exe");
    assert_eq!(
        command.args[3],
        "(Get-CimInstance Win32_Process -Filter 'ProcessId = 7').ExecutablePath"
    );
    let answer = b"C:\\bin\\d.exe\r\n";
    assert_eq!(reported_program(answer), r"C:\bin\d.exe");
    assert!(windows_process_matches(true, answer, "c:/bin/d.exe", &None, &None));
    assert!(!windows_process_matches(false, answer, "c:/bin/d.exe", &None, &None));
    assert!(!windows_process_matches(true, b"\r\n", "c:/bin/d.exe", &None, &None));
}

#[test]
fn windows_process_list_is_read_by_its_fields() {
    let list = b"\"obsidian-semanticd.exe\",\"42\",\"Console\",\"1\",\"7 K\"\r\n";
    assert!(process_is_alive(true, list, 42, true));
    assert!(!process_is_alive(false, list, 42, true));
    assert!(!process_is_alive(true, list, 4, true));
    // The number of the session is not that of the process.
    assert!(!process_is_alive(true, list, 1, true));
    assert!(process_is_alive(true, b"", 42, false) && !process_is_alive(false, b"", 42, false));
    assert_eq!(command_text(&liveness_command(42, true)), "tasklist /FI PID eq 42 /FO CSV /NH");
    assert_eq!(liveness_command(42, true).args.len(), 5);
    assert_eq!(command_text(&liveness_command(42, false)), "kill -0 42");
    let none = b"INFO: No tasks are running which match the specified criteria.\r\n";
    assert!(!process_is_alive(true, none, 42, true));
    assert!(process_is_alive(true, b"\"x\xff\",\"7\"", 7, true));
}

#[test]
fn vault_is_opened_once() {
    let mut registry = VaultRegistry::new("/home/semantic/vaults".into(), "model".into(), false);
    assert_eq!(registry.model_name(), "model");
    let plan = registry.ensure_vault("/v", root("/v", true), Ok("id".into()), false, "model");
    assert_eq!(
        plan,
        Ok(EnsureVault::Open {
            vault_id: "id".into(),
            root: "/v".into(),
            state_dir: "/home/semantic/vaults/id".into(),
            watch: false,
        })
    );
    registry.opened("id".into(), "/v".into(), false);
    registry.opened("id".into(), "/other".into(), true);
    let found = registry.get_context_by_root("/v", root("/v", true), Ok("id".into())).unwrap();
    assert_eq!(found.unwrap().vault_root, "/v");
    let plan = registry.ensure_vault("/v", root("/v", true), Ok("id".into()), true, "model");
    assert_eq!(plan, Ok(EnsureVault::Reuse { vault_id: "id".into(), start_watcher: true }));
    registry.watcher_started("id");
    let plan = registry.ensure_vault("/v", root("/v", true), Ok("id".into()), true, "model");
    assert_eq!(plan, Ok(EnsureVault::Reuse { vault_id: "id".into(), start_watcher: false }));
    let error = registry
        .ensure_vault("relative", root("/v", true), Ok("id".into()), true, "other")
        .unwrap_err();
    assert_eq!(error.message(), "requested model 'other' does not match daemon model 'model'");
    assert!(registry.get_by_id("missing").is_none());
}

#[test]
fn missing_notes_have_no_metadata() {
    assert_eq!(note_metadata(Ok("a.md".into())), Ok(Some("a.md".into())));
    assert_eq!(note_metadata(Err(VaultError::NoteNotFound("a.md".into()))), Ok(None));
    assert!(note_metadata(Err(VaultError::Io("x".into()))).is_err());
    assert_eq!(
        embeddings_unavailable().message(),
        "daemon binary compiled without embeddings feature"
    );
}
