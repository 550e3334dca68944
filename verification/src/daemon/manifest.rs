//! The record that a started daemon leaves behind.

use crate::text::{copy_opt, opt_text, same};
use vstd::prelude::*;

verus! {

/// Where the daemon's program came from, which tells who owns it.
#[derive(Debug, Clone, Copy, PartialEq, Eq, Structural)]
pub enum BinaryOrigin {
    /// A path that the user gave.
    Override,
    /// The search path.
    Path,
    /// The program that was installed beside this one.
    Sibling,
    /// A download into the daemon's home.
    ManagedDownload,
    Unknown,
}

/// The name of an origin.
pub open spec fn origin_name(origin: BinaryOrigin) -> Seq<char> {
    match origin {
        BinaryOrigin::Override => "override"@,
        BinaryOrigin::Path => "path"@,
        BinaryOrigin::Sibling => "sibling"@,
        BinaryOrigin::ManagedDownload => "managed_download"@,
        BinaryOrigin::Unknown => "unknown"@,
    }
}

impl BinaryOrigin {
    /// The name of the origin.
    pub fn as_str(&self) -> (name: &'static str)
        ensures
            name@ == origin_name(*self),
    {
        match self {
            BinaryOrigin::Override => "override",
            BinaryOrigin::Path => "path",
            BinaryOrigin::Sibling => "sibling",
            BinaryOrigin::ManagedDownload => "managed_download",
            BinaryOrigin::Unknown => "unknown",
        }
    }
}

/// Whether somebody else owns a daemon of this origin: it is never stopped.
pub open spec fn is_external(origin: BinaryOrigin) -> bool {
    origin == BinaryOrigin::Override || origin == BinaryOrigin::Path || origin
        == BinaryOrigin::Unknown
}

/// Whether somebody else owns a daemon of this origin.
pub fn externally_owned(origin: BinaryOrigin) -> (external: bool)
    ensures
        external == is_external(origin),
{
    origin == BinaryOrigin::Override || origin == BinaryOrigin::Path || origin
        == BinaryOrigin::Unknown
}

/// How a daemon is reached.
#[derive(Debug, PartialEq, Eq)]
pub enum IpcEndpoint {
    UnixSocket(String),
    NamedPipe(String),
}

/// How a daemon is reached, with texts as characters.
pub enum EndpointView {
    UnixSocket(Seq<char>),
    NamedPipe(Seq<char>),
}

impl View for IpcEndpoint {
    type V = EndpointView;

    open spec fn view(&self) -> EndpointView {
        match self {
            IpcEndpoint::UnixSocket(path) => EndpointView::UnixSocket(path@),
            IpcEndpoint::NamedPipe(name) => EndpointView::NamedPipe(name@),
        }
    }
}

/// The text of an endpoint.
pub open spec fn endpoint_text(endpoint: EndpointView) -> Seq<char> {
    match endpoint {
        EndpointView::UnixSocket(path) => path,
        EndpointView::NamedPipe(name) => name,
    }
}

/// The transport of an endpoint.
pub open spec fn transport_name(endpoint: EndpointView) -> Seq<char> {
    match endpoint {
        EndpointView::UnixSocket(_) => "unix_socket"@,
        EndpointView::NamedPipe(_) => "named_pipe"@,
    }
}

impl IpcEndpoint {
    /// The text of the endpoint.
    pub fn endpoint_string(&self) -> (text: String)
        ensures
            text@ == endpoint_text(self@),
    {
        match self {
            IpcEndpoint::UnixSocket(path) => path.clone(),
            IpcEndpoint::NamedPipe(name) => name.clone(),
        }
    }

    /// A copy of the endpoint.
    pub fn copied(&self) -> (endpoint: IpcEndpoint)
        ensures
            endpoint@ == self@,
    {
        match self {
            IpcEndpoint::UnixSocket(path) => IpcEndpoint::UnixSocket(path.clone()),
            IpcEndpoint::NamedPipe(name) => IpcEndpoint::NamedPipe(name.clone()),
        }
    }
}

/// The transport of an endpoint.
pub fn endpoint_transport(endpoint: &IpcEndpoint) -> (transport: &'static str)
    ensures
        transport@ == transport_name(endpoint@),
{
    match endpoint {
        IpcEndpoint::UnixSocket(_) => "unix_socket",
        IpcEndpoint::NamedPipe(_) => "named_pipe",
    }
}

/// The endpoint in a record.
#[derive(Debug, PartialEq, Eq)]
pub struct ManifestIpc {
    pub transport: String,
    pub endpoint: String,
}

/// The endpoint in a record, as characters.
#[verifier::ext_equal]
pub struct IpcView {
    pub transport: Seq<char>,
    pub endpoint: Seq<char>,
}

impl View for ManifestIpc {
    type V = IpcView;

    open spec fn view(&self) -> IpcView {
        IpcView { transport: self.transport@, endpoint: self.endpoint@ }
    }
}

/// What is known of a daemon when its record is written.
#[derive(Debug, PartialEq, Eq)]
pub struct RuntimeManifestInput {
    pub daemon_api_version: u32,
    pub daemon_version: String,
    pub binary_path: String,
    pub binary_origin: BinaryOrigin,
    pub binary_sha256: Option<String>,
    pub ipc: ManifestIpc,
    pub pid: u32,
    pub semantic_home: String,
    pub fastembed_cache_dir: String,
    pub model_name: String,
    pub bootstrap_client_name: String,
    pub bootstrap_client_version: String,
}

/// The record of a daemon.
#[derive(Debug, PartialEq, Eq)]
pub struct RuntimeManifest {
    pub daemon_api_version: u32,
    pub daemon_version: String,
    pub binary_path: String,
    pub binary_origin: BinaryOrigin,
    pub binary_sha256: Option<String>,
    pub ipc: ManifestIpc,
    pub pid: u32,
    pub semantic_home: String,
    pub fastembed_cache_dir: String,
    pub model_name: String,
    pub bootstrap_client_name: String,
    pub bootstrap_client_version: String,
    /// When the daemon was last found healthy, in milliseconds.
    pub last_health: u64,
}

/// The record of a daemon, with texts as characters.
#[verifier::ext_equal]
pub struct ManifestView {
    pub daemon_api_version: u32,
    pub daemon_version: Seq<char>,
    pub binary_path: Seq<char>,
    pub binary_origin: BinaryOrigin,
    pub binary_sha256: Option<Seq<char>>,
    pub ipc: IpcView,
    pub pid: u32,
    pub semantic_home: Seq<char>,
    pub fastembed_cache_dir: Seq<char>,
    pub model_name: Seq<char>,
    pub bootstrap_client_name: Seq<char>,
    pub bootstrap_client_version: Seq<char>,
    pub last_health: u64,
}

impl View for RuntimeManifest {
    type V = ManifestView;

    open spec fn view(&self) -> ManifestView {
        ManifestView {
            daemon_api_version: self.daemon_api_version,
            daemon_version: self.daemon_version@,
            binary_path: self.binary_path@,
            binary_origin: self.binary_origin,
            binary_sha256: opt_text(self.binary_sha256),
            ipc: self.ipc@,
            pid: self.pid,
            semantic_home: self.semantic_home@,
            fastembed_cache_dir: self.fastembed_cache_dir@,
            model_name: self.model_name@,
            bootstrap_client_name: self.bootstrap_client_name@,
            bootstrap_client_version: self.bootstrap_client_version@,
            last_health: self.last_health,
        }
    }
}

/// An optional record.
pub open spec fn opt_manifest(manifest: Option<RuntimeManifest>) -> Option<ManifestView> {
    match manifest {
        Some(m) => Some(m@),
        None => None,
    }
}

impl RuntimeManifest {
    /// The record of a daemon that was just found healthy.
    pub fn from_input(input: RuntimeManifestInput, now: u64) -> (manifest: RuntimeManifest)
        ensures
            manifest@ == (ManifestView {
                daemon_api_version: input.daemon_api_version,
                daemon_version: input.daemon_version@,
                binary_path: input.binary_path@,
                binary_origin: input.binary_origin,
                binary_sha256: opt_text(input.binary_sha256),
                ipc: input.ipc@,
                pid: input.pid,
                semantic_home: input.semantic_home@,
                fastembed_cache_dir: input.fastembed_cache_dir@,
                model_name: input.model_name@,
                bootstrap_client_name: input.bootstrap_client_name@,
                bootstrap_client_version: input.bootstrap_client_version@,
                last_health: now,
            }),
    {
        RuntimeManifest {
            daemon_api_version: input.daemon_api_version,
            daemon_version: input.daemon_version,
            binary_path: input.binary_path,
            binary_origin: input.binary_origin,
            binary_sha256: input.binary_sha256,
            ipc: input.ipc,
            pid: input.pid,
            semantic_home: input.semantic_home,
            fastembed_cache_dir: input.fastembed_cache_dir,
            model_name: input.model_name,
            bootstrap_client_name: input.bootstrap_client_name,
            bootstrap_client_version: input.bootstrap_client_version,
            last_health: now,
        }
    }

    /// A copy of the record.
    pub fn copied(&self) -> (manifest: RuntimeManifest)
        ensures
            manifest@ == self@,
    {
        RuntimeManifest {
            daemon_api_version: self.daemon_api_version,
            daemon_version: self.daemon_version.clone(),
            binary_path: self.binary_path.clone(),
            binary_origin: self.binary_origin,
            binary_sha256: copy_opt(&self.binary_sha256),
            ipc: ManifestIpc {
                transport: self.ipc.transport.clone(),
                endpoint: self.ipc.endpoint.clone(),
            },
            pid: self.pid,
            semantic_home: self.semantic_home.clone(),
            fastembed_cache_dir: self.fastembed_cache_dir.clone(),
            model_name: self.model_name.clone(),
            bootstrap_client_name: self.bootstrap_client_name.clone(),
            bootstrap_client_version: self.bootstrap_client_version.clone(),
            last_health: self.last_health,
        }
    }
}

/// The endpoint that a record names, where this system has its transport.
pub open spec fn recorded_endpoint(ipc: IpcView, windows: bool) -> Option<EndpointView> {
    if ipc.transport == "unix_socket"@ && !windows {
        Some(EndpointView::UnixSocket(ipc.endpoint))
    } else if ipc.transport == "named_pipe"@ && windows {
        Some(EndpointView::NamedPipe(ipc.endpoint))
    } else {
        None
    }
}

/// An optional endpoint.
pub open spec fn opt_endpoint(endpoint: Option<IpcEndpoint>) -> Option<EndpointView> {
    match endpoint {
        Some(e) => Some(e@),
        None => None,
    }
}

/// The endpoint that a record names, where this system has its transport.
pub fn endpoint_from_manifest(manifest: &RuntimeManifest, windows: bool) -> (endpoint: Option<
    IpcEndpoint,
>)
    ensures
        opt_endpoint(endpoint) == recorded_endpoint(manifest@.ipc, windows),
{
    if !windows && same(manifest.ipc.transport.as_str(), "unix_socket") {
        Some(IpcEndpoint::UnixSocket(manifest.ipc.endpoint.clone()))
    } else if windows && same(manifest.ipc.transport.as_str(), "named_pipe") {
        Some(IpcEndpoint::NamedPipe(manifest.ipc.endpoint.clone()))
    } else {
        None
    }
}

/// A record of an endpoint is read back as that endpoint on the system that
/// wrote it.
pub proof fn recorded_endpoint_is_read_back(endpoint: EndpointView)
    ensures
        recorded_endpoint(
            IpcView { transport: transport_name(endpoint), endpoint: endpoint_text(endpoint) },
            endpoint is NamedPipe,
        ) == Some(endpoint),
{
}

/// A record has an endpoint exactly where its transport is the one of this system:
/// sockets everywhere but on Windows, named pipes there. The endpoint is the recorded
/// text.
pub proof fn a_record_has_the_endpoint_of_its_system(ipc: IpcView, windows: bool)
    ensures
        recorded_endpoint(ipc, windows) is Some <==> ipc.transport == if windows {
            "named_pipe"@
        } else {
            "unix_socket"@
        },
        recorded_endpoint(ipc, windows) matches Some(endpoint) ==> endpoint_text(endpoint)
            == ipc.endpoint && (endpoint is NamedPipe <==> windows) && transport_name(endpoint)
            == ipc.transport,
{
    reveal_strlit("named_pipe");
    reveal_strlit("unix_socket");
    assert("named_pipe"@.len() != "unix_socket"@.len());
}

} // verus!
