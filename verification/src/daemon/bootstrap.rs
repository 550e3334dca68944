//! Choosing, starting and recognising the daemon's program.

use crate::daemon::home::{daemon_binary_name, daemon_program, HomeView, SemanticHomePaths};
use crate::daemon::manifest::{
    endpoint_text, BinaryOrigin, IpcEndpoint, ManifestView, RuntimeManifest,
};
use crate::error::{VaultError, VaultErrorView};
use crate::number::{decimal, to_decimal};
use crate::path::{components, join_path, joined_path, parent, parent_of, same_path};
use crate::text::{
    cat3, cat4, cat5, cat7, copy_opt, lines, lossy_text, opt_str, opt_text, strip_prefix,
    text_of, texts, trim, trimmed,
};
use crate::upgrade::commands::{command4, CommandLine, CommandView};
use crate::upgrade::CommandOutput;
use crate::upgrade::processes::{
    listed_paths, lsof_paths, resolved_views, strip_deleted_suffix, undeleted,
};
use crate::version::{
    check_version, compare_versions, order_of_sign, version_fault, version_sign, VersionOrder,
};
use vstd::prelude::*;

verus! {

/// An operating system.
#[derive(Debug, Clone, Copy, PartialEq, Eq, Structural)]
pub enum System {
    Linux,
    MacOs,
    Windows,
    Other,
}

/// A processor architecture.
#[derive(Debug, Clone, Copy, PartialEq, Eq, Structural)]
pub enum Machine {
    X86,
    Arm,
    Other,
}

/// What this program runs on.
#[derive(Debug, Clone, Copy, PartialEq, Eq, Structural)]
pub struct Platform {
    pub system: System,
    pub machine: Machine,
}

/// The target of the release for a platform, where there is one.
pub open spec fn release_target(platform: Platform) -> Option<Seq<char>> {
    match (platform.system, platform.machine) {
        (System::Linux, Machine::X86) => Some("x86_64-unknown-linux-gnu"@),
        (System::Linux, Machine::Arm) => Some("aarch64-unknown-linux-gnu"@),
        (System::MacOs, Machine::X86) => Some("x86_64-apple-darwin"@),
        (System::MacOs, Machine::Arm) => Some("aarch64-apple-darwin"@),
        (System::Windows, Machine::X86) => Some("x86_64-pc-windows-msvc"@),
        _ => None,
    }
}

/// The error on a platform without a release.
pub open spec fn unsupported_target() -> VaultErrorView {
    VaultErrorView::DaemonBootstrap("unsupported target for daemon auto-download"@)
}

/// The target of the release for a platform.
pub fn target_triple(platform: Platform) -> (result: Result<&'static str, VaultError>)
    ensures
        match result {
            Ok(target) => release_target(platform) == Some(target@),
            Err(error) => release_target(platform) is None && error@ == unsupported_target(),
        },
{
    match (platform.system, platform.machine) {
        (System::Linux, Machine::X86) => Ok("x86_64-unknown-linux-gnu"),
        (System::Linux, Machine::Arm) => Ok("aarch64-unknown-linux-gnu"),
        (System::MacOs, Machine::X86) => Ok("x86_64-apple-darwin"),
        (System::MacOs, Machine::Arm) => Ok("aarch64-apple-darwin"),
        (System::Windows, Machine::X86) => Ok("x86_64-pc-windows-msvc"),
        _ => Err(
            VaultError::DaemonBootstrap("unsupported target for daemon auto-download".to_owned()),
        ),
    }
}

/// What the environment says about the semantic runtime.
#[derive(Debug, PartialEq, Eq)]
pub struct SemanticRuntimeConfig {
    pub semantic_home_override: Option<String>,
    pub daemon_path_override: Option<String>,
    pub model_name: String,
    pub daemon_download_url: Option<String>,
}

/// How the daemon is to be brought up.
#[derive(Debug, PartialEq, Eq)]
pub struct BootstrapConfig {
    pub semantic_home_override: Option<String>,
    pub daemon_path_override: Option<String>,
    pub model_name: String,
    pub download_url_override: Option<String>,
    pub bootstrap_client_name: String,
    pub bootstrap_client_version: String,
}

/// How the daemon is to be brought up, with texts as characters.
#[verifier::ext_equal]
pub struct ConfigView {
    pub semantic_home_override: Option<Seq<char>>,
    pub daemon_path_override: Option<Seq<char>>,
    pub model_name: Seq<char>,
    pub download_url_override: Option<Seq<char>>,
    pub bootstrap_client_name: Seq<char>,
    pub bootstrap_client_version: Seq<char>,
}

impl View for BootstrapConfig {
    type V = ConfigView;

    open spec fn view(&self) -> ConfigView {
        ConfigView {
            semantic_home_override: opt_text(self.semantic_home_override),
            daemon_path_override: opt_text(self.daemon_path_override),
            model_name: self.model_name@,
            download_url_override: opt_text(self.download_url_override),
            bootstrap_client_name: self.bootstrap_client_name@,
            bootstrap_client_version: self.bootstrap_client_version@,
        }
    }
}

impl BootstrapConfig {
    /// The configuration that the environment gives a client of this version.
    pub fn from_env(runtime: SemanticRuntimeConfig, client_version: &str) -> (config:
        BootstrapConfig)
        ensures
            config@ == (ConfigView {
                semantic_home_override: opt_text(runtime.semantic_home_override),
                daemon_path_override: opt_text(runtime.daemon_path_override),
                model_name: runtime.model_name@,
                download_url_override: opt_text(runtime.daemon_download_url),
                bootstrap_client_name: "obsidian-mcp"@,
                bootstrap_client_version: client_version@,
            }),
    {
        BootstrapConfig {
            semantic_home_override: runtime.semantic_home_override,
            daemon_path_override: runtime.daemon_path_override,
            model_name: runtime.model_name,
            download_url_override: runtime.daemon_download_url,
            bootstrap_client_name: "obsidian-mcp".to_owned(),
            bootstrap_client_version: client_version.to_owned(),
        }
    }
}

/// A running daemon.
#[derive(Debug, PartialEq, Eq)]
pub struct BootstrapResult {
    pub semantic_home: String,
    pub endpoint: IpcEndpoint,
    pub daemon_binary_path: String,
    pub manifest: RuntimeManifest,
    pub reused_existing: bool,
}

/// What became of the daemon after an upgrade.
#[derive(Debug, PartialEq, Eq)]
pub struct DaemonReconcileOutcome {
    pub origin: BinaryOrigin,
    pub was_running: bool,
    pub restarted: bool,
    pub observed_version: Option<String>,
    pub diagnostic: String,
}

/// Where the daemon is downloaded from: the address that was given, else the
/// release asset of this version for the platform.
pub open spec fn download_url(config: ConfigView, version: Seq<char>, platform: Platform) -> Result<
    Seq<char>,
    VaultErrorView,
> {
    let given = match config.download_url_override {
        Some(url) => trimmed(url),
        None => Seq::empty(),
    };
    if given.len() > 0 {
        Ok(given)
    } else {
        match release_target(platform) {
            None => Err(unsupported_target()),
            Some(target) => Ok(
                "https://github.com/lstpsche/obsidian-mcp/releases/download/v"@ + version
                    + "/obsidian-semanticd-"@ + version + "-"@ + target + if platform.system
                    == System::Windows {
                    ".zip"@
                } else {
                    ".tar.gz"@
                },
            ),
        }
    }
}

/// Where the daemon is downloaded from.
pub fn resolve_download_url(config: &BootstrapConfig, version: &str, platform: Platform) -> (result:
    Result<String, VaultError>)
    ensures
        match result {
            Ok(url) => download_url(config@, version@, platform) == Ok::<
                Seq<char>,
                VaultErrorView,
            >(url@),
            Err(error) => download_url(config@, version@, platform) == Err::<
                Seq<char>,
                VaultErrorView,
            >(error@),
        },
{
    match &config.download_url_override {
        Some(url) => {
            let given = trim(url.as_str());
            if given.as_str().unicode_len() > 0 {
                return Ok(given);
            }
        },
        None => {},
    }
    let target = match target_triple(platform) {
        Ok(target) => target,
        Err(error) => {
            return Err(error);
        },
    };
    let ending = if platform.system == System::Windows {
        ".zip"
    } else {
        ".tar.gz"
    };
    Ok(
        cat7(
            "https://github.com/lstpsche/obsidian-mcp/releases/download/v",
            version,
            "/obsidian-semanticd-",
            version,
            "-",
            target,
            ending,
        ),
    )
}

/// The program and its origin: a given path, else the program beside the
/// upgraded or the running one, else the recorded one, else the managed one.
/// `preferred` and `sibling` are files that exist.
pub open spec fn chosen_binary(
    given: Option<Seq<char>>,
    preferred: Option<Seq<char>>,
    sibling: Option<Seq<char>>,
    recorded: Option<ManifestView>,
    managed: Seq<char>,
) -> (Seq<char>, BinaryOrigin) {
    if given is Some {
        (given->0, BinaryOrigin::Override)
    } else if preferred is Some {
        (preferred->0, BinaryOrigin::Sibling)
    } else if sibling is Some {
        (sibling->0, BinaryOrigin::Sibling)
    } else if recorded is Some && recorded->0.binary_path.len() > 0 {
        (recorded->0.binary_path, recorded->0.binary_origin)
    } else {
        (managed, BinaryOrigin::ManagedDownload)
    }
}

/// An optional borrowed record.
pub open spec fn opt_record(manifest: Option<&RuntimeManifest>) -> Option<ManifestView> {
    match manifest {
        Some(m) => Some(m@),
        None => None,
    }
}

/// The program and its origin.
pub fn resolve_daemon_binary(
    config: &BootstrapConfig,
    paths: &SemanticHomePaths,
    existing_manifest: Option<&RuntimeManifest>,
    preferred_sibling: Option<&str>,
    sibling: Option<&str>,
) -> (chosen: (String, BinaryOrigin))
    ensures
        (chosen.0@, chosen.1) == chosen_binary(
            config@.daemon_path_override,
            opt_str(preferred_sibling),
            opt_str(sibling),
            opt_record(existing_manifest),
            paths@.daemon_binary_path,
        ),
{
    match &config.daemon_path_override {
        Some(path) => {
            return (path.clone(), BinaryOrigin::Override);
        },
        None => {},
    }
    match preferred_sibling {
        Some(path) => {
            return (path.to_owned(), BinaryOrigin::Sibling);
        },
        None => {},
    }
    match sibling {
        Some(path) => {
            return (path.to_owned(), BinaryOrigin::Sibling);
        },
        None => {},
    }
    match existing_manifest {
        Some(manifest) => {
            if manifest.binary_path.as_str().unicode_len() > 0 {
                return (manifest.binary_path.clone(), manifest.binary_origin);
            }
        },
        None => {},
    }
    (paths.daemon_binary_path.clone(), BinaryOrigin::ManagedDownload)
}

/// Where the daemon's program is beside a running one.
pub fn sibling_daemon_path(current_exe: &str, windows: bool) -> (path: Option<String>)
    ensures
        opt_text(path) == match parent_of(current_exe@, windows) {
            Some(dir) => Some(joined_path(dir, daemon_program(windows), windows)),
            None => None,
        },
{
    match parent(current_exe, windows) {
        Some(dir) => Some(join_path(dir.as_str(), daemon_binary_name(windows), windows)),
        None => None,
    }
}

/// The first directory of the search path, from position `i` on, that holds the
/// program; `present` tells of each directory whether it does.
pub open spec fn on_path_from(dirs: Seq<Seq<char>>, present: Seq<bool>, windows: bool, i: int) -> Option<
    Seq<char>,
>
    decreases dirs.len() - i,
{
    if i < 0 || i >= dirs.len() || i >= present.len() {
        None
    } else if present[i] {
        Some(joined_path(dirs[i], daemon_program(windows), windows))
    } else {
        on_path_from(dirs, present, windows, i + 1)
    }
}

/// The daemon's program on the search path; `present` tells of each directory
/// whether the program is a file in it.
pub fn find_daemon_on_path(dirs: &Vec<String>, present: &Vec<bool>, windows: bool) -> (path: Option<
    String,
>)
    ensures
        opt_text(path) == on_path_from(texts(dirs@), present@, windows, 0),
{
    let mut i: usize = 0;
    while i < dirs.len() && i < present.len()
        invariant
            i <= dirs@.len(),
            i <= present@.len(),
            on_path_from(texts(dirs@), present@, windows, 0) == on_path_from(
                texts(dirs@),
                present@,
                windows,
                i as int,
            ),
        decreases dirs@.len() - i,
    {
        if present[i] {
            assert(texts(dirs@)[i as int] == dirs@[i as int]@);
            return Some(join_path(dirs[i].as_str(), daemon_binary_name(windows), windows));
        }
        i += 1;
    }
    None
}

/// What is wrong with the version that something reported.
pub open spec fn version_complaint(label: Seq<char>, version: Seq<char>) -> Option<VaultErrorView> {
    match version_fault(version) {
        Some(fault) => Some(
            VaultErrorView::DaemonBootstrap(
                label + " reported invalid semantic version '"@ + version + "': "@ + fault,
            ),
        ),
        None => None,
    }
}

/// Checks the version that something reported.
pub fn parse_daemon_version(label: &str, version: &str) -> (result: Result<(), VaultError>)
    ensures
        match result {
            Ok(_) => version_complaint(label@, version@) is None,
            Err(error) => version_complaint(label@, version@) == Some(error@),
        },
        result is Ok ==> version_fault(version@) is None,
{
    match check_version(version) {
        None => Ok(()),
        Some(fault) => Err(
            VaultError::DaemonBootstrap(
                cat5(
                    label,
                    " reported invalid semantic version '",
                    version,
                    "': ",
                    fault.as_str(),
                ),
            ),
        ),
    }
}

/// How the version of the running daemon stands to the installed one.
pub open spec fn daemon_order(running: Seq<char>, installed: Seq<char>) -> Result<
    VersionOrder,
    VaultErrorView,
> {
    match version_complaint("running semantic daemon"@, running) {
        Some(error) => Err(error),
        None => match version_complaint("installed semantic daemon"@, installed) {
            Some(error) => Err(error),
            None => Ok(order_of_sign(version_sign(running, installed))),
        },
    }
}

/// How the version of the running daemon stands to the installed one.
pub fn compare_daemon_versions(running: &str, installed: &str) -> (result: Result<
    VersionOrder,
    VaultError,
>)
    ensures
        match result {
            Ok(order) => daemon_order(running@, installed@) == Ok::<VersionOrder, VaultErrorView>(
                order,
            ),
            Err(error) => daemon_order(running@, installed@) == Err::<
                VersionOrder,
                VaultErrorView,
            >(error@),
        },
        running@ == installed@ && result is Ok ==> result->Ok_0 == VersionOrder::Same,
{
    match parse_daemon_version("running semantic daemon", running) {
        Err(error) => {
            return Err(error);
        },
        Ok(_) => {},
    }
    match parse_daemon_version("installed semantic daemon", installed) {
        Err(error) => {
            return Err(error);
        },
        Ok(_) => {},
    }
    Ok(compare_versions(running, installed))
}

/// The version that a program of the daemon prints of itself.
pub open spec fn printed_version(
    binary: Seq<char>,
    output: Result<(bool, Seq<u8>), Seq<char>>,
) -> Result<Seq<char>, VaultErrorView> {
    match output {
        Err(cause) => Err(
            VaultErrorView::DaemonBootstrap(
                "failed to inspect semantic daemon binary '"@ + binary + "': "@ + cause,
            ),
        ),
        Ok((success, stdout)) => {
            let text = trimmed(text_of(stdout));
            let name = "obsidian-semanticd "@;
            if !success {
                Err(
                    VaultErrorView::DaemonBootstrap(
                        "'"@ + binary + " --version' exited unsuccessfully"@,
                    ),
                )
            } else if !name.is_prefix_of(text) {
                Err(
                    VaultErrorView::DaemonBootstrap(
                        "'"@ + binary + " --version' returned an unexpected identity"@,
                    ),
                )
            } else {
                let version = text.skip(name.len() as int);
                match version_complaint("semantic daemon binary"@, version) {
                    Some(error) => Err(error),
                    None => Ok(version),
                }
            }
        },
    }
}

/// The output of a command that was to print a version.
pub open spec fn printed(output: Result<CommandOutput, String>) -> Result<
    (bool, Seq<u8>),
    Seq<char>,
> {
    match output {
        Ok(done) => Ok((done.success, done.stdout@)),
        Err(cause) => Err(cause@),
    }
}

/// The version that a program of the daemon prints of itself.
pub fn daemon_binary_version(binary: &str, output: Result<CommandOutput, String>) -> (result: Result<
    String,
    VaultError,
>)
    ensures
        match result {
            Ok(version) => printed_version(binary@, printed(output)) == Ok::<
                Seq<char>,
                VaultErrorView,
            >(version@) && version_fault(version@) is None,
            Err(error) => printed_version(binary@, printed(output)) == Err::<
                Seq<char>,
                VaultErrorView,
            >(error@),
        },
{
    let done = match output {
        Ok(done) => done,
        Err(cause) => {
            return Err(
                VaultError::DaemonBootstrap(
                    cat4(
                        "failed to inspect semantic daemon binary '",
                        binary,
                        "': ",
                        cause.as_str(),
                    ),
                ),
            );
        },
    };
    if !done.success {
        return Err(
            VaultError::DaemonBootstrap(cat3("'", binary, " --version' exited unsuccessfully")),
        );
    }
    let stdout = lossy_text(done.stdout.as_slice());
    let text = trim(stdout.as_str());
    match strip_prefix(text.as_str(), "obsidian-semanticd ") {
        None => Err(
            VaultError::DaemonBootstrap(
                cat3("'", binary, " --version' returned an unexpected identity"),
            ),
        ),
        Some(version) => {
            let ghost name = "obsidian-semanticd "@;
            assert(text@.skip(name.len() as int) =~= version@);
            assert(text@.subrange(0, name.len() as int) =~= name);
            assert(name.is_prefix_of(text@));
            match parse_daemon_version("semantic daemon binary", version.as_str()) {
                Ok(_) => Ok(version),
                Err(error) => Err(error),
            }
        },
    }
}

/// Whether two paths are the same: by what they resolve to, where both do, else
/// as they stand.
pub open spec fn same_file(
    left: Seq<char>,
    right: Seq<char>,
    left_resolved: Option<Seq<char>>,
    right_resolved: Option<Seq<char>>,
    windows: bool,
) -> bool {
    if left_resolved is Some && right_resolved is Some {
        components(left_resolved->0, windows) == components(right_resolved->0, windows)
    } else {
        components(left, windows) == components(right, windows)
    }
}

/// Whether two paths are the same: by what they resolve to, where both do, else
/// as they stand.
pub fn paths_equal(
    left: &str,
    right: &str,
    left_resolved: &Option<String>,
    right_resolved: &Option<String>,
    windows: bool,
) -> (equal: bool)
    ensures
        equal == same_file(
            left@,
            right@,
            opt_text(*left_resolved),
            opt_text(*right_resolved),
            windows,
        ),
{
    match (left_resolved, right_resolved) {
        (Some(a), Some(b)) => same_path(a.as_str(), b.as_str(), windows),
        _ => same_path(left, right, windows),
    }
}

/// What the recorded program, the installed one and the managed one resolve to,
/// where they do.
#[derive(Debug, PartialEq, Eq)]
pub struct ResolvedPaths {
    pub recorded: Option<String>,
    pub installed: Option<String>,
    pub managed: Option<String>,
}

/// What the three programs resolve to, as characters.
#[verifier::ext_equal]
pub struct ResolvedView {
    pub recorded: Option<Seq<char>>,
    pub installed: Option<Seq<char>>,
    pub managed: Option<Seq<char>>,
}

impl View for ResolvedPaths {
    type V = ResolvedView;

    open spec fn view(&self) -> ResolvedView {
        ResolvedView {
            recorded: opt_text(self.recorded),
            installed: opt_text(self.installed),
            managed: opt_text(self.managed),
        }
    }
}

/// The origin of a recorded program: one of an older record is recognised by its
/// path.
pub open spec fn origin_of(
    manifest: ManifestView,
    installed: Seq<char>,
    managed: Seq<char>,
    resolved: ResolvedView,
    windows: bool,
) -> BinaryOrigin {
    if manifest.binary_origin != BinaryOrigin::Unknown {
        manifest.binary_origin
    } else if same_file(
        manifest.binary_path,
        installed,
        resolved.recorded,
        resolved.installed,
        windows,
    ) {
        BinaryOrigin::Sibling
    } else if same_file(
        manifest.binary_path,
        managed,
        resolved.recorded,
        resolved.managed,
        windows,
    ) {
        BinaryOrigin::ManagedDownload
    } else {
        BinaryOrigin::Unknown
    }
}

/// The origin of a recorded program.
pub fn effective_origin(
    manifest: &RuntimeManifest,
    paths: &SemanticHomePaths,
    installed_daemon: &str,
    resolved: &ResolvedPaths,
    windows: bool,
) -> (origin: BinaryOrigin)
    ensures
        origin == origin_of(
            manifest@,
            installed_daemon@,
            paths@.daemon_binary_path,
            resolved@,
            windows,
        ),
{
    if manifest.binary_origin != BinaryOrigin::Unknown {
        manifest.binary_origin
    } else if paths_equal(
        manifest.binary_path.as_str(),
        installed_daemon,
        &resolved.recorded,
        &resolved.installed,
        windows,
    ) {
        BinaryOrigin::Sibling
    } else if paths_equal(
        manifest.binary_path.as_str(),
        paths.daemon_binary_path.as_str(),
        &resolved.recorded,
        &resolved.managed,
        windows,
    ) {
        BinaryOrigin::ManagedDownload
    } else {
        BinaryOrigin::Unknown
    }
}

/// The environment that a started daemon gets.
pub open spec fn daemon_variables(
    home: HomeView,
    endpoint: Seq<char>,
    model: Seq<char>,
    log_level: Option<Seq<char>>,
) -> Seq<(Seq<char>, Seq<char>)> {
    let fixed = seq![
        ("OBSIDIAN_SEMANTIC_HOME"@, home.root),
        ("OBSIDIAN_SEMANTIC_ENDPOINT"@, endpoint),
        ("OBSIDIAN_SEMANTIC_MODEL"@, model),
        ("FASTEMBED_CACHE_DIR"@, home.fastembed_cache_dir),
    ];
    match log_level {
        Some(level) => fixed.push(("OBSIDIAN_LOG_LEVEL"@, level)),
        None => fixed,
    }
}

/// Variables as characters.
pub open spec fn variable_views(list: Seq<(String, String)>) -> Seq<(Seq<char>, Seq<char>)> {
    list.map_values(|v: (String, String)| (v.0@, v.1@))
}

/// The environment that a started daemon gets.
pub fn daemon_environment(
    paths: &SemanticHomePaths,
    endpoint: &IpcEndpoint,
    model_name: &str,
    log_level: Option<&str>,
) -> (variables: Vec<(String, String)>)
    ensures
        variable_views(variables@) == daemon_variables(
            paths@,
            endpoint_text(endpoint@),
            model_name@,
            opt_str(log_level),
        ),
{
    let mut variables: Vec<(String, String)> = Vec::new();
    variables.push(("OBSIDIAN_SEMANTIC_HOME".to_owned(), paths.root.clone()));
    variables.push(("OBSIDIAN_SEMANTIC_ENDPOINT".to_owned(), endpoint.endpoint_string()));
    variables.push(("OBSIDIAN_SEMANTIC_MODEL".to_owned(), model_name.to_owned()));
    variables.push(("FASTEMBED_CACHE_DIR".to_owned(), paths.fastembed_cache_dir.clone()));
    match log_level {
        Some(level) => {
            variables.push(("OBSIDIAN_LOG_LEVEL".to_owned(), level.to_owned()));
        },
        None => {},
    }
    assert(variable_views(variables@) =~= daemon_variables(
        paths@,
        endpoint_text(endpoint@),
        model_name@,
        opt_str(log_level),
    ));
    variables
}

/// What kept the daemon from being started.
#[derive(Debug, PartialEq, Eq)]
pub enum StartFailure {
    /// Its log could not be opened.
    Log(String),
    /// The process could not be made.
    Spawn(String),
}

/// The error of a start.
pub open spec fn start_fault(failure: StartFailure, binary: Seq<char>, log: Seq<char>) -> VaultErrorView {
    VaultErrorView::DaemonBootstrap(
        match failure {
            StartFailure::Log(cause) => "failed to open daemon stderr log file '"@ + log + "': "@
                + cause@,
            StartFailure::Spawn(cause) => "failed to spawn semantic daemon '"@ + binary + "': "@
                + cause@,
        },
    )
}

/// The error of a start.
pub fn start_error(failure: &StartFailure, binary: &str, paths: &SemanticHomePaths) -> (error:
    VaultError)
    ensures
        error@ == start_fault(*failure, binary@, paths@.daemon_stderr_log_path),
{
    VaultError::DaemonBootstrap(
        match failure {
            StartFailure::Log(cause) => cat4(
                "failed to open daemon stderr log file '",
                paths.daemon_stderr_log_path.as_str(),
                "': ",
                cause.as_str(),
            ),
            StartFailure::Spawn(cause) => cat4(
                "failed to spawn semantic daemon '",
                binary,
                "': ",
                cause.as_str(),
            ),
        },
    )
}

/// Whether a process runs the expected program on Linux: `actual` is what its
/// executable link names, without the mark of a deleted file.
pub fn linux_process_matches(
    actual: &str,
    expected: &str,
    actual_resolved: &Option<String>,
    expected_resolved: &Option<String>,
) -> (matches: bool)
    ensures
        matches == same_file(
            undeleted(actual@),
            expected@,
            opt_text(*actual_resolved),
            opt_text(*expected_resolved),
            false,
        ),
{
    let plain = strip_deleted_suffix(actual);
    paths_equal(plain.as_str(), expected, actual_resolved, expected_resolved, false)
}

/// The command that asks for the program of a process on Windows.
pub fn executable_command(pid: u32) -> (command: CommandLine)
    ensures
        command@ == (CommandView {
            program: "powershell.exe"@,
            args: seq![
                "-NoProfile"@,
                "-NonInteractive"@,
                "-Command"@,
                "(Get-CimInstance Win32_Process -Filter 'ProcessId = "@ + decimal(pid as nat)
                    + "').ExecutablePath"@,
            ],
        }),
{
    let number = to_decimal(pid as u64);
    let script = cat3(
        "(Get-CimInstance Win32_Process -Filter 'ProcessId = ",
        number.as_str(),
        "').ExecutablePath",
    );
    command4("powershell.exe", "-NoProfile", "-NonInteractive", "-Command", script.as_str())
}

/// The program that the answer for a process names.
pub fn reported_program(stdout: &[u8]) -> (program: String)
    ensures
        program@ == trimmed(text_of(stdout@)),
{
    let text = lossy_text(stdout);
    trim(text.as_str())
}

/// Whether a process runs the expected program on Windows: `stdout` is the answer
/// for it, and the program that it names resolves to `actual_resolved`.
pub fn windows_process_matches(
    success: bool,
    stdout: &[u8],
    expected: &str,
    actual_resolved: &Option<String>,
    expected_resolved: &Option<String>,
) -> (matches: bool)
    ensures
        matches == (success && same_file(
            trimmed(text_of(stdout@)),
            expected@,
            opt_text(*actual_resolved),
            opt_text(*expected_resolved),
            true,
        )),
{
    if !success {
        return false;
    }
    let actual = reported_program(stdout);
    paths_equal(actual.as_str(), expected, actual_resolved, expected_resolved, true)
}

/// Whether a listed path at a position is the expected program.
pub open spec fn is_listed_file(
    paths: Seq<Seq<char>>,
    resolved: Seq<Option<Seq<char>>>,
    expected: Seq<char>,
    expected_resolved: Option<Seq<char>>,
    i: int,
) -> bool {
    same_file(
        paths[i],
        expected,
        if i < resolved.len() {
            resolved[i]
        } else {
            None
        },
        expected_resolved,
        false,
    )
}

/// Whether a process runs the expected program on macOS: `raw` lists its open
/// program files, and `resolved` what each of them resolves to.
pub fn macos_process_matches(
    raw: &[u8],
    resolved: &Vec<Option<String>>,
    expected: &str,
    expected_resolved: &Option<String>,
) -> (matches: bool)
    ensures
        matches == exists|i: int|
            0 <= i < listed_paths(lines(text_of(raw@))).len() && #[trigger] is_listed_file(
                listed_paths(lines(text_of(raw@))),
                resolved_views(resolved@),
                expected@,
                opt_text(*expected_resolved),
                i,
            ),
{
    let paths = lsof_paths(raw);
    let ghost all = listed_paths(lines(text_of(raw@)));
    let ghost found = resolved_views(resolved@);
    let mut i: usize = 0;
    while i < paths.len()
        invariant
            i <= paths@.len(),
            all == texts(paths@),
            all == listed_paths(lines(text_of(raw@))),
            found == resolved_views(resolved@),
            forall|k: int|
                0 <= k < i ==> !#[trigger] is_listed_file(
                    all,
                    found,
                    expected@,
                    opt_text(*expected_resolved),
                    k,
                ),
        decreases paths@.len() - i,
    {
        assert(all[i as int] == paths@[i as int]@);
        let own = if i < resolved.len() {
            assert(found[i as int] == opt_text(resolved@[i as int]));
            copy_opt(&resolved[i])
        } else {
            None
        };
        let listed = paths_equal(paths[i].as_str(), expected, &own, expected_resolved, false);
        assert(listed == is_listed_file(
            all,
            found,
            expected@,
            opt_text(*expected_resolved),
            i as int,
        ));
        if listed {
            return true;
        }
        i += 1;
    }
    false
}

/// A given address is used as it is, without surrounding space.
pub proof fn given_address_is_used(config: ConfigView, version: Seq<char>, platform: Platform)
    requires
        config.download_url_override is Some,
        trimmed(config.download_url_override->0).len() > 0,
    ensures
        download_url(config, version, platform) == Ok::<Seq<char>, VaultErrorView>(
            trimmed(config.download_url_override->0),
        ),
{
}

/// A path that the user gave is always the one that is used; without one an
/// existing program of the package is.
pub proof fn given_path_wins(
    given: Option<Seq<char>>,
    preferred: Option<Seq<char>>,
    sibling: Option<Seq<char>>,
    recorded: Option<ManifestView>,
    managed: Seq<char>,
)
    ensures
        given is Some ==> chosen_binary(given, preferred, sibling, recorded, managed) == (
            given->0,
            BinaryOrigin::Override,
        ),
        given is None && (preferred is Some || sibling is Some) ==> chosen_binary(
            given,
            preferred,
            sibling,
            recorded,
            managed,
        ).1 == BinaryOrigin::Sibling,
{
}

/// The address of a release: nothing was given, and the platform has a release of this
/// version, which is an archive of the kind of its system.
pub proof fn releases_are_named_by_version_and_target(
    config: ConfigView,
    version: Seq<char>,
    platform: Platform,
)
    requires
        config.download_url_override is None || trimmed(config.download_url_override->0).len() == 0,
    ensures
        download_url(config, version, platform) is Err <==> platform.system == System::Other
            || platform.machine == Machine::Other || (platform.system == System::Windows
            && platform.machine == Machine::Arm),
        download_url(config, version, platform) matches Ok(url) ==> {
            let folder = "https://github.com/lstpsche/obsidian-mcp/releases/download/v"@ + version
                + "/obsidian-semanticd-"@ + version + "-"@;
            &&& folder.is_prefix_of(url)
            &&& platform.system == System::Windows ==> url == folder + "x86_64-pc-windows-msvc"@
                + ".zip"@
            &&& platform.system == System::Linux ==> url == folder + (if platform.machine
                == Machine::X86 {
                "x86_64-unknown-linux-gnu"@
            } else {
                "aarch64-unknown-linux-gnu"@
            }) + ".tar.gz"@
            &&& platform.system == System::MacOs ==> url == folder + (if platform.machine
                == Machine::X86 {
                "x86_64-apple-darwin"@
            } else {
                "aarch64-apple-darwin"@
            }) + ".tar.gz"@
        },
{
    if download_url(config, version, platform) is Ok {
        let url = download_url(config, version, platform)->Ok_0;
        let folder = "https://github.com/lstpsche/obsidian-mcp/releases/download/v"@ + version
            + "/obsidian-semanticd-"@ + version + "-"@;
        assert(url.subrange(0, folder.len() as int) =~= folder);
    }
}

/// The program comes from the first source that has one: the given path, the program
/// beside the upgraded one, the one beside the running one, the record, the managed
/// home. Only a given path counts as given, and only the last as a download.
pub proof fn programs_come_from_the_first_source(
    preferred: Option<Seq<char>>,
    sibling: Option<Seq<char>>,
    recorded: Option<ManifestView>,
    managed: Seq<char>,
)
    ensures
        preferred is Some ==> chosen_binary(None, preferred, sibling, recorded, managed) == (
            preferred->0,
            BinaryOrigin::Sibling,
        ),
        preferred is None && sibling is Some ==> chosen_binary(
            None,
            preferred,
            sibling,
            recorded,
            managed,
        ) == (sibling->0, BinaryOrigin::Sibling),
        recorded is Some && recorded->0.binary_path.len() > 0 ==> chosen_binary(
            None,
            None,
            None,
            recorded,
            managed,
        ) == (recorded->0.binary_path, recorded->0.binary_origin),
        recorded is None || recorded->0.binary_path.len() == 0 ==> chosen_binary(
            None,
            None,
            None,
            recorded,
            managed,
        ) == (managed, BinaryOrigin::ManagedDownload),
{
}

/// The program on the search path is that of the first directory that holds one.
pub proof fn the_first_directory_with_the_program_counts(
    dirs: Seq<Seq<char>>,
    present: Seq<bool>,
    windows: bool,
    from: int,
)
    requires
        0 <= from <= dirs.len() == present.len(),
    ensures
        on_path_from(dirs, present, windows, from) is None <==> forall|i: int|
            from <= i < dirs.len() ==> !#[trigger] present[i],
        on_path_from(dirs, present, windows, from) matches Some(path) ==> exists|i: int|
            from <= i < dirs.len() && #[trigger] present[i] && path == joined_path(
                dirs[i],
                daemon_program(windows),
                windows,
            ) && forall|k: int| from <= k < i ==> !#[trigger] present[k],
    decreases dirs.len() - from,
{
    if from < dirs.len() && !present[from] {
        the_first_directory_with_the_program_counts(dirs, present, windows, from + 1);
    }
}

/// A program's own version is accepted exactly where it ended well, printed the
/// daemon's name and a version behind it, and that version is one; the accepted
/// version is what stands behind the name.
pub proof fn printed_versions_follow_the_name(
    binary: Seq<char>,
    success: bool,
    stdout: Seq<u8>,
    version: Seq<char>,
    cause: Seq<char>,
)
    ensures
        printed_version(binary, Ok((success, stdout))) == Ok::<Seq<char>, VaultErrorView>(version)
            <==> success && trimmed(text_of(stdout)) == "obsidian-semanticd "@ + version
            && version_fault(version) is None,
        printed_version(binary, Err(cause)) is Err,
{
    let text = trimmed(text_of(stdout));
    let name = "obsidian-semanticd "@;
    if name.is_prefix_of(text) {
        assert(text =~= name + text.skip(name.len() as int));
    }
    if text == name + version {
        assert(text.subrange(0, name.len() as int) =~= name);
        assert(text.skip(name.len() as int) =~= version);
    }
}

/// Two versions are ordered exactly where both are versions, and then by their
/// comparison.
pub proof fn only_versions_are_ordered(running: Seq<char>, installed: Seq<char>)
    ensures
        daemon_order(running, installed) is Ok <==> version_fault(running) is None && version_fault(
            installed,
        ) is None,
        daemon_order(running, installed) matches Ok(order) ==> {
            &&& order == VersionOrder::Older <==> version_sign(running, installed) < 0
            &&& order == VersionOrder::Newer <==> version_sign(running, installed) > 0
        },
{
}

/// Whether two paths are the same does not depend on their order, every path is the
/// same as itself, and what both resolve to decides before how they are written.
pub proof fn being_the_same_file_is_symmetric(
    left: Seq<char>,
    right: Seq<char>,
    left_resolved: Option<Seq<char>>,
    right_resolved: Option<Seq<char>>,
    windows: bool,
)
    ensures
        same_file(left, right, left_resolved, right_resolved, windows) == same_file(
            right,
            left,
            right_resolved,
            left_resolved,
            windows,
        ),
        same_file(left, left, left_resolved, left_resolved, windows),
        left_resolved is Some && right_resolved is Some ==> (same_file(
            left,
            right,
            left_resolved,
            right_resolved,
            windows,
        ) <==> components(left_resolved->0, windows) == components(right_resolved->0, windows)),
        left_resolved is None || right_resolved is None ==> (same_file(
            left,
            right,
            left_resolved,
            right_resolved,
            windows,
        ) <==> components(left, windows) == components(right, windows)),
{
}

/// A recorded origin counts. Where none is recorded, a program that is the installed
/// one belongs to the installation, one that is the managed one is a download, and any
/// other stays unknown.
pub proof fn unrecorded_origins_are_told_by_the_program(
    manifest: ManifestView,
    installed: Seq<char>,
    managed: Seq<char>,
    resolved: ResolvedView,
    windows: bool,
)
    ensures
        ({
            let origin = origin_of(manifest, installed, managed, resolved, windows);
            let own = same_file(
                manifest.binary_path,
                installed,
                resolved.recorded,
                resolved.installed,
                windows,
            );
            let downloaded = same_file(
                manifest.binary_path,
                managed,
                resolved.recorded,
                resolved.managed,
                windows,
            );
            &&& manifest.binary_origin != BinaryOrigin::Unknown ==> origin == manifest.binary_origin
            &&& manifest.binary_origin == BinaryOrigin::Unknown ==> {
                &&& origin == BinaryOrigin::Sibling <==> own
                &&& origin == BinaryOrigin::ManagedDownload <==> downloaded && !own
                &&& origin == BinaryOrigin::Unknown <==> !own && !downloaded
            }
        }),
{
}

/// A started daemon is told its home, its endpoint, its model and its model cache, and
/// the log level where there is one, and nothing else.
pub proof fn daemons_are_told_home_endpoint_and_model(
    home: HomeView,
    endpoint: Seq<char>,
    model: Seq<char>,
    log_level: Option<Seq<char>>,
)
    ensures
        ({
            let variables = daemon_variables(home, endpoint, model, log_level);
            &&& variables.contains(("OBSIDIAN_SEMANTIC_HOME"@, home.root))
            &&& variables.contains(("OBSIDIAN_SEMANTIC_ENDPOINT"@, endpoint))
            &&& variables.contains(("OBSIDIAN_SEMANTIC_MODEL"@, model))
            &&& variables.contains(("FASTEMBED_CACHE_DIR"@, home.fastembed_cache_dir))
            &&& log_level is Some ==> variables.contains(("OBSIDIAN_LOG_LEVEL"@, log_level->0))
            &&& variables.len() == 4 + if log_level is Some {
                1int
            } else {
                0
            }
        }),
{
    let variables = daemon_variables(home, endpoint, model, log_level);
    assert(variables[0] == ("OBSIDIAN_SEMANTIC_HOME"@, home.root));
    assert(variables[1] == ("OBSIDIAN_SEMANTIC_ENDPOINT"@, endpoint));
    assert(variables[2] == ("OBSIDIAN_SEMANTIC_MODEL"@, model));
    assert(variables[3] == ("FASTEMBED_CACHE_DIR"@, home.fastembed_cache_dir));
    if log_level is Some {
        assert(variables[4] == ("OBSIDIAN_LOG_LEVEL"@, log_level->0));
    }
}

} // verus!
