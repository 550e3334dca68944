//! The directory that the daemon and its clients share.

use crate::daemon::manifest::{EndpointView, IpcEndpoint};
use crate::path::{join_path, joined_path};
use vstd::prelude::*;

verus! {

/// The name of the daemon's program.
pub open spec fn daemon_program(windows: bool) -> Seq<char> {
    if windows {
        "obsidian-semanticd.exe"@
    } else {
        "obsidian-semanticd"@
    }
}

/// The name of the daemon's program.
pub fn daemon_binary_name(windows: bool) -> (name: &'static str)
    ensures
        name@ == daemon_program(windows),
{
    if windows {
        "obsidian-semanticd.exe"
    } else {
        "obsidian-semanticd"
    }
}

/// The files and directories of the daemon's home.
#[derive(Debug, PartialEq, Eq)]
pub struct SemanticHomePaths {
    pub root: String,
    pub manifest_path: String,
    pub daemon_binary_path: String,
    pub daemon_stderr_log_path: String,
    pub fastembed_cache_dir: String,
    pub vaults_dir: String,
    pub ipc_dir: String,
}

/// The files and directories of the daemon's home, as characters.
#[verifier::ext_equal]
pub struct HomeView {
    pub root: Seq<char>,
    pub manifest_path: Seq<char>,
    pub daemon_binary_path: Seq<char>,
    pub daemon_stderr_log_path: Seq<char>,
    pub fastembed_cache_dir: Seq<char>,
    pub vaults_dir: Seq<char>,
    pub ipc_dir: Seq<char>,
}

impl View for SemanticHomePaths {
    type V = HomeView;

    open spec fn view(&self) -> HomeView {
        HomeView {
            root: self.root@,
            manifest_path: self.manifest_path@,
            daemon_binary_path: self.daemon_binary_path@,
            daemon_stderr_log_path: self.daemon_stderr_log_path@,
            fastembed_cache_dir: self.fastembed_cache_dir@,
            vaults_dir: self.vaults_dir@,
            ipc_dir: self.ipc_dir@,
        }
    }
}

/// Where the files of a home are.
pub open spec fn home_layout(root: Seq<char>, windows: bool) -> HomeView {
    HomeView {
        root,
        manifest_path: joined_path(root, "runtime.json"@, windows),
        daemon_binary_path: joined_path(
            joined_path(root, "bin"@, windows),
            daemon_program(windows),
            windows,
        ),
        daemon_stderr_log_path: joined_path(
            joined_path(root, "logs"@, windows),
            "semanticd.stderr.log"@,
            windows,
        ),
        fastembed_cache_dir: joined_path(
            joined_path(root, "model"@, windows),
            "fastembed-cache"@,
            windows,
        ),
        vaults_dir: joined_path(root, "vaults"@, windows),
        ipc_dir: joined_path(root, "ipc"@, windows),
    }
}

impl SemanticHomePaths {
    /// Where the files of a home are.
    pub fn new(root: String, windows: bool) -> (paths: SemanticHomePaths)
        ensures
            paths@ == home_layout(root@, windows),
    {
        let bin = join_path(root.as_str(), "bin", windows);
        let logs = join_path(root.as_str(), "logs", windows);
        let model = join_path(root.as_str(), "model", windows);
        SemanticHomePaths {
            manifest_path: join_path(root.as_str(), "runtime.json", windows),
            daemon_binary_path: join_path(bin.as_str(), daemon_binary_name(windows), windows),
            daemon_stderr_log_path: join_path(logs.as_str(), "semanticd.stderr.log", windows),
            fastembed_cache_dir: join_path(model.as_str(), "fastembed-cache", windows),
            vaults_dir: join_path(root.as_str(), "vaults", windows),
            ipc_dir: join_path(root.as_str(), "ipc", windows),
            root,
        }
    }

    /// The socket of a home on systems that have sockets in the file system.
    pub fn default_socket(&self) -> (endpoint: IpcEndpoint)
        ensures
            endpoint@ == EndpointView::UnixSocket(
                joined_path(self@.ipc_dir, "semanticd.sock"@, false),
            ),
    {
        IpcEndpoint::UnixSocket(join_path(self.ipc_dir.as_str(), "semanticd.sock", false))
    }
}

/// All that the daemon and its clients share lies below one directory.
pub proof fn everything_lies_below_the_home(root: Seq<char>, windows: bool)
    ensures
        ({
            let home = home_layout(root, windows);
            &&& home.root == root
            &&& home.manifest_path == joined_path(root, "runtime.json"@, windows)
            &&& home.vaults_dir == joined_path(root, "vaults"@, windows)
            &&& home.ipc_dir == joined_path(root, "ipc"@, windows)
            &&& home.daemon_binary_path == joined_path(
                joined_path(root, "bin"@, windows),
                if windows {
                    "obsidian-semanticd.exe"@
                } else {
                    "obsidian-semanticd"@
                },
                windows,
            )
        }),
{
}

} // verus!
