//! The open vaults of the daemon.

use crate::daemon::vault_context::{VaultContext, VaultView};
use crate::error::{VaultError, VaultErrorView};
use crate::keyed::Keyed;
use crate::path::{is_absolute, is_absolute_path, join_path, joined_path};
use crate::text::{cat2, cat4, cat5, same};
use vstd::prelude::*;

verus! {

/// What the file system knows of the root of a vault.
#[derive(Debug, PartialEq, Eq)]
pub struct ResolvedRoot {
    /// The path without links and dots.
    pub path: String,
    pub is_dir: bool,
}

/// What the file system knows of a root, with its path as characters.
#[verifier::ext_equal]
pub struct RootView {
    pub path: Seq<char>,
    pub is_dir: bool,
}

impl View for ResolvedRoot {
    type V = RootView;

    open spec fn view(&self) -> RootView {
        RootView { path: self.path@, is_dir: self.is_dir }
    }
}

/// A resolved root or the message of the failure.
pub open spec fn root_result(resolved: Result<ResolvedRoot, String>) -> Result<RootView, Seq<char>> {
    match resolved {
        Ok(root) => Ok(root@),
        Err(message) => Err(message@),
    }
}

/// The canonical root of a vault: a given root has to be an absolute path to a
/// directory.
pub open spec fn canonical_root(
    given: Seq<char>,
    resolved: Result<RootView, Seq<char>>,
    windows: bool,
) -> Result<Seq<char>, VaultErrorView> {
    if !is_absolute(given, windows) {
        Err(VaultErrorView::InvalidPath("vault_root must be absolute: "@ + given))
    } else {
        match resolved {
            Err(message) => Err(
                VaultErrorView::InvalidPath(
                    "failed to canonicalize vault root '"@ + given + "': "@ + message,
                ),
            ),
            Ok(root) => if root.is_dir {
                Ok(root.path)
            } else {
                Err(VaultErrorView::InvalidPath("vault_root is not a directory: "@ + root.path))
            },
        }
    }
}

/// The canonical root of a vault.
pub fn canonicalize_vault_root(
    vault_root: &str,
    resolved: Result<ResolvedRoot, String>,
    windows: bool,
) -> (result: Result<String, VaultError>)
    ensures
        id_result(result) == canonical_root(vault_root@, root_result(resolved), windows),
{
    if !is_absolute_path(vault_root, windows) {
        return Err(VaultError::InvalidPath(cat2("vault_root must be absolute: ", vault_root)));
    }
    match resolved {
        Err(message) => Err(
            VaultError::InvalidPath(
                cat4(
                    "failed to canonicalize vault root '",
                    vault_root,
                    "': ",
                    message.as_str(),
                ),
            ),
        ),
        Ok(root) => if root.is_dir {
            Ok(root.path)
        } else {
            Err(
                VaultError::InvalidPath(
                    cat2("vault_root is not a directory: ", root.path.as_str()),
                ),
            )
        },
    }
}

/// The open vaults of a daemon that serves one model.
pub struct VaultRegistry {
    model_name: String,
    vaults_dir: String,
    windows: bool,
    contexts: Keyed<VaultContext>,
}

/// The open vaults, as mathematical values.
#[verifier::ext_equal]
pub struct RegistryView {
    pub model_name: Seq<char>,
    pub vaults_dir: Seq<char>,
    /// Whether the daemon runs on Windows.
    pub windows: bool,
    /// The vaults by their identifier.
    pub contexts: Map<Seq<char>, VaultView>,
}

impl View for VaultRegistry {
    type V = RegistryView;

    closed spec fn view(&self) -> RegistryView {
        RegistryView {
            model_name: self.model_name@,
            vaults_dir: self.vaults_dir@,
            windows: self.windows,
            contexts: self.contexts@,
        }
    }
}

/// Whether every vault is kept under its own identifier and serves the model of
/// the daemon.
pub open spec fn consistent(registry: RegistryView) -> bool {
    forall|id: Seq<char>| #[trigger]
        registry.contexts.contains_key(id) ==> registry.contexts[id].vault_id == id
            && registry.contexts[id].model_name == registry.model_name
}

/// What a request for a vault leads to.
#[derive(Debug, PartialEq, Eq)]
pub enum EnsureVault {
    /// The vault is open; its watcher may have to be started.
    Reuse { vault_id: String, start_watcher: bool },
    /// The vault has to be opened, with its state in a directory.
    Open { vault_id: String, root: String, state_dir: String, watch: bool },
}

/// What a request leads to, with texts as characters.
pub enum EnsureVaultView {
    Reuse { vault_id: Seq<char>, start_watcher: bool },
    Open { vault_id: Seq<char>, root: Seq<char>, state_dir: Seq<char>, watch: bool },
}

impl View for EnsureVault {
    type V = EnsureVaultView;

    open spec fn view(&self) -> EnsureVaultView {
        match self {
            EnsureVault::Reuse { vault_id, start_watcher } => EnsureVaultView::Reuse {
                vault_id: vault_id@,
                start_watcher: *start_watcher,
            },
            EnsureVault::Open { vault_id, root, state_dir, watch } => EnsureVaultView::Open {
                vault_id: vault_id@,
                root: root@,
                state_dir: state_dir@,
                watch: *watch,
            },
        }
    }
}

/// The error for a request of another model.
pub open spec fn model_fault(registry: RegistryView, requested: Seq<char>) -> Option<VaultErrorView> {
    if requested == registry.model_name {
        None
    } else {
        Some(
            VaultErrorView::InvalidPath(
                "requested model '"@ + requested + "' does not match daemon model '"@
                    + registry.model_name + "'"@,
            ),
        )
    }
}

/// What a request for a vault leads to: an open vault is used again, and its
/// watcher is started where one is asked for and none runs.
pub open spec fn ensured(
    registry: RegistryView,
    vault_id: Seq<char>,
    root: Seq<char>,
    watch: bool,
) -> EnsureVaultView {
    if registry.contexts.contains_key(vault_id) {
        EnsureVaultView::Reuse {
            vault_id,
            start_watcher: watch && !registry.contexts[vault_id].watching,
        }
    } else {
        EnsureVaultView::Open {
            vault_id,
            root,
            state_dir: joined_path(registry.vaults_dir, vault_id, registry.windows),
            watch,
        }
    }
}

/// The identifier of the vault at a root.
pub open spec fn located_id(
    given: Seq<char>,
    resolved: Result<RootView, Seq<char>>,
    vault_id: Result<Seq<char>, VaultErrorView>,
    windows: bool,
) -> Result<Seq<char>, VaultErrorView> {
    match canonical_root(given, resolved, windows) {
        Ok(_) => vault_id,
        Err(error) => Err(error),
    }
}

/// What a request for a vault leads to, or why it is refused.
pub open spec fn ensure_outcome(
    registry: RegistryView,
    given: Seq<char>,
    resolved: Result<RootView, Seq<char>>,
    vault_id: Result<Seq<char>, VaultErrorView>,
    watch: bool,
    requested: Seq<char>,
) -> Result<EnsureVaultView, VaultErrorView> {
    match model_fault(registry, requested) {
        Some(error) => Err(error),
        None => match canonical_root(given, resolved, registry.windows) {
            Err(error) => Err(error),
            Ok(root) => match vault_id {
                Err(error) => Err(error),
                Ok(id) => Ok(ensured(registry, id, root, watch)),
            },
        },
    }
}

/// The result of a request, as mathematical values.
pub open spec fn ensure_view(result: Result<EnsureVault, VaultError>) -> Result<
    EnsureVaultView,
    VaultErrorView,
> {
    match result {
        Ok(plan) => Ok(plan@),
        Err(error) => Err(error@),
    }
}

/// An identifier or the failure, as mathematical values.
pub open spec fn id_result(result: Result<String, VaultError>) -> Result<Seq<char>, VaultErrorView> {
    match result {
        Ok(id) => Ok(id@),
        Err(error) => Err(error@),
    }
}

/// The registry after a vault was opened: a vault that was opened meanwhile stays.
pub open spec fn with_vault(registry: RegistryView, vault: VaultView) -> RegistryView {
    if registry.contexts.contains_key(vault.vault_id) {
        registry
    } else {
        RegistryView { contexts: registry.contexts.insert(vault.vault_id, vault), ..registry }
    }
}

/// The registry after the watcher of a vault was started.
pub open spec fn with_watcher(registry: RegistryView, vault_id: Seq<char>) -> RegistryView {
    if registry.contexts.contains_key(vault_id) {
        RegistryView {
            contexts: registry.contexts.insert(
                vault_id,
                VaultView { watching: true, ..registry.contexts[vault_id] },
            ),
            ..registry
        }
    } else {
        registry
    }
}

impl VaultRegistry {
    #[verifier::type_invariant]
    spec fn keeps_identifiers(self) -> bool {
        consistent(self@)
    }

    /// A registry without vaults.
    pub fn new(vaults_dir: String, model_name: String, windows: bool) -> (registry: VaultRegistry)
        ensures
            registry@ == (RegistryView {
                model_name: model_name@,
                vaults_dir: vaults_dir@,
                windows,
                contexts: Map::empty(),
            }),
    {
        VaultRegistry { model_name, vaults_dir, windows, contexts: Keyed::new() }
    }

    /// The model that the daemon serves.
    pub fn model_name(&self) -> (name: &str)
        ensures
            name@ == self@.model_name,
    {
        self.model_name.as_str()
    }

    /// What a request for a vault leads to. `resolved` is what the file system
    /// knows of the root, and `vault_id` is the identifier of the resolved root.
    pub fn ensure_vault(
        &self,
        vault_root: &str,
        resolved: Result<ResolvedRoot, String>,
        vault_id: Result<String, VaultError>,
        watch_enabled: bool,
        requested_model: &str,
    ) -> (result: Result<EnsureVault, VaultError>)
        ensures
            ensure_view(result) == ensure_outcome(
                self@,
                vault_root@,
                root_result(resolved),
                id_result(vault_id),
                watch_enabled,
                requested_model@,
            ),
    {
        if !same(requested_model, self.model_name.as_str()) {
            return Err(
                VaultError::InvalidPath(
                    cat5(
                        "requested model '",
                        requested_model,
                        "' does not match daemon model '",
                        self.model_name.as_str(),
                        "'",
                    ),
                ),
            );
        }
        let root = match canonicalize_vault_root(vault_root, resolved, self.windows) {
            Ok(root) => root,
            Err(error) => {
                return Err(error);
            },
        };
        let id = match vault_id {
            Ok(id) => id,
            Err(error) => {
                return Err(error);
            },
        };
        match self.contexts.get(id.as_str()) {
            Some(context) => Ok(
                EnsureVault::Reuse {
                    vault_id: id,
                    start_watcher: watch_enabled && !context.watching,
                },
            ),
            None => {
                let state_dir = join_path(self.vaults_dir.as_str(), id.as_str(), self.windows);
                Ok(EnsureVault::Open { vault_id: id, root, state_dir, watch: watch_enabled })
            },
        }
    }

    /// The open vault at a root, where there is one.
    pub fn get_context_by_root(
        &self,
        vault_root: &str,
        resolved: Result<ResolvedRoot, String>,
        vault_id: Result<String, VaultError>,
    ) -> (result: Result<Option<&VaultContext>, VaultError>)
        ensures
            match located_id(
                vault_root@,
                root_result(resolved),
                id_result(vault_id),
                self@.windows,
            ) {
                Ok(id) => if self@.contexts.contains_key(id) {
                    result matches Ok(Some(vault)) && vault@ == self@.contexts[id]
                } else {
                    result matches Ok(None)
                },
                Err(error) => result matches Err(failure) && failure@ == error,
            },
    {
        match canonicalize_vault_root(vault_root, resolved, self.windows) {
            Ok(_) => {},
            Err(error) => {
                return Err(error);
            },
        }
        match vault_id {
            Ok(id) => Ok(self.get_by_id(id.as_str())),
            Err(error) => Err(error),
        }
    }

    /// The vault with an identifier.
    pub fn get_by_id(&self, vault_id: &str) -> (context: Option<&VaultContext>)
        ensures
            match context {
                Some(vault) => self@.contexts.contains_key(vault_id@) && vault@
                    == self@.contexts[vault_id@],
                None => !self@.contexts.contains_key(vault_id@),
            },
            context matches Some(vault) ==> vault@.vault_id == vault_id@ && vault@.model_name
                == self@.model_name,
    {
        proof {
            use_type_invariant(self);
            assert(self@.contexts.contains_key(vault_id@) ==> self@.contexts[vault_id@].vault_id
                == vault_id@);
        }
        self.contexts.get(vault_id)
    }

    /// Keeps a vault that was opened, unless it was opened meanwhile.
    pub fn opened(&mut self, vault_id: String, vault_root: String, watching: bool)
        ensures
            final(self)@ == with_vault(
                old(self)@,
                VaultView {
                    vault_id: vault_id@,
                    vault_root: vault_root@,
                    model_name: old(self)@.model_name,
                    watching,
                },
            ),
    {
        proof {
            use_type_invariant(&*self);
        }
        let ghost first = self@;
        if self.contexts.contains_key(vault_id.as_str()) {
            return;
        }
        let model_name = self.model_name.clone();
        let key = vault_id.clone();
        let vault = VaultContext { vault_id, vault_root, model_name, watching };
        let ghost view = vault@;
        let mut contexts: Keyed<VaultContext> = Keyed::new();
        std::mem::swap(&mut contexts, &mut self.contexts);
        contexts.insert(key, vault);
        proof {
            registry_stays_consistent(first, view, view.vault_id);
            assert(with_vault(first, view).contexts == contexts@);
            assert(consistent(
                RegistryView {
                    model_name: self.model_name@,
                    vaults_dir: self.vaults_dir@,
                    windows: self.windows,
                    contexts: contexts@,
                },
            ));
        }
        self.contexts = contexts;
    }

    /// Notes that the watcher of a vault was started.
    pub fn watcher_started(&mut self, vault_id: &str)
        ensures
            final(self)@ == with_watcher(old(self)@, vault_id@),
    {
        proof {
            use_type_invariant(&*self);
        }
        let ghost whole = self@;
        let mut contexts: Keyed<VaultContext> = Keyed::new();
        std::mem::swap(&mut contexts, &mut self.contexts);
        let ghost first = contexts@;
        match contexts.remove(vault_id) {
            Some(context) => {
                let mut vault = context;
                vault.watching = true;
                contexts.insert(vault_id.to_owned(), vault);
                assert(contexts@ =~= first.insert(
                    vault_id@,
                    VaultView { watching: true, ..first[vault_id@] },
                ));
            },
            None => {
                assert(contexts@ =~= first);
            },
        }
        proof {
            let after = with_watcher(whole, vault_id@);
            assert(after.contexts == contexts@);
            assert forall|id: Seq<char>| #[trigger] after.contexts.contains_key(id) implies
                after.contexts[id].vault_id == id && after.contexts[id].model_name
                == after.model_name by {
                assert(whole.contexts.contains_key(id));
            }
            assert(consistent(after));
        }
        self.contexts = contexts;
    }
}

/// An open vault is never opened a second time, and stays what it is while other
/// vaults are opened.
pub proof fn one_context_for_each_vault(
    registry: RegistryView,
    vault: VaultView,
    id: Seq<char>,
    root: Seq<char>,
    watch: bool,
)
    requires
        registry.contexts.contains_key(id),
    ensures
        ensured(registry, id, root, watch) is Reuse,
        with_vault(registry, vault).contexts.contains_key(id),
        with_vault(registry, vault).contexts[id] == registry.contexts[id],
        ensured(with_vault(registry, vault), id, root, watch) is Reuse,
        ensured(with_watcher(registry, id), id, root, true) == (EnsureVaultView::Reuse {
            vault_id: id,
            start_watcher: false,
        }),
{
}

/// After a vault was opened, a request for it is answered with that vault.
pub proof fn opened_vault_is_found(registry: RegistryView, vault: VaultView)
    ensures
        with_vault(registry, vault).contexts.contains_key(vault.vault_id),
        !registry.contexts.contains_key(vault.vault_id) ==> with_vault(
            registry,
            vault,
        ).contexts[vault.vault_id] == vault,
{
}

/// Every operation keeps each vault under its own identifier and with the model of
/// the daemon.
pub proof fn registry_stays_consistent(registry: RegistryView, vault: VaultView, id: Seq<char>)
    requires
        consistent(registry),
        vault.model_name == registry.model_name,
    ensures
        consistent(with_vault(registry, vault)),
        consistent(with_watcher(registry, id)),
{
}

/// A request for a vault is granted exactly where it names the daemon's model and an
/// absolute path that resolves to a directory, and the directory has an identifier.
pub proof fn vaults_are_granted_for_the_model_and_a_directory(
    registry: RegistryView,
    given: Seq<char>,
    resolved: Result<RootView, Seq<char>>,
    vault_id: Result<Seq<char>, VaultErrorView>,
    watch: bool,
    requested: Seq<char>,
)
    ensures
        ({
            let outcome = ensure_outcome(registry, given, resolved, vault_id, watch, requested);
            &&& outcome is Ok <==> requested == registry.model_name && is_absolute(
                given,
                registry.windows,
            ) && (resolved matches Ok(root) && root.is_dir) && vault_id is Ok
            &&& outcome matches Ok(plan) ==> {
                let id = vault_id->Ok_0;
                if registry.contexts.contains_key(id) {
                    plan == (EnsureVaultView::Reuse {
                        vault_id: id,
                        start_watcher: watch && !registry.contexts[id].watching,
                    })
                } else {
                    plan == (EnsureVaultView::Open {
                        vault_id: id,
                        root: resolved->Ok_0.path,
                        state_dir: joined_path(registry.vaults_dir, id, registry.windows),
                        watch,
                    })
                }
            }
            &&& requested != registry.model_name || !is_absolute(given, registry.windows) ==> (
            outcome matches Err(error) && error is InvalidPath)
        }),
{
}

/// Opening a vault and starting a watcher concern that vault alone, and a started
/// watcher changes nothing else of it.
pub proof fn vaults_do_not_disturb_each_other(
    registry: RegistryView,
    vault: VaultView,
    id: Seq<char>,
    other: Seq<char>,
)
    requires
        other != id,
        other != vault.vault_id,
    ensures
        with_vault(registry, vault).contexts.contains_key(other) <==> registry.contexts.contains_key(
            other,
        ),
        with_watcher(registry, id).contexts.contains_key(other) <==> registry.contexts.contains_key(
            other,
        ),
        registry.contexts.contains_key(other) ==> with_vault(registry, vault).contexts[other]
            == registry.contexts[other] && with_watcher(registry, id).contexts[other]
            == registry.contexts[other],
        with_watcher(registry, id).contexts.contains_key(id) <==> registry.contexts.contains_key(id),
        registry.contexts.contains_key(id) ==> {
            let after = with_watcher(registry, id).contexts[id];
            &&& after.watching
            &&& after.vault_id == registry.contexts[id].vault_id
            &&& after.vault_root == registry.contexts[id].vault_root
            &&& after.model_name == registry.contexts[id].model_name
        },
        with_vault(registry, vault).model_name == registry.model_name,
        with_watcher(registry, id).model_name == registry.model_name,
{
}

/// Every open vault is kept under its own identifier and has the daemon's model.
pub proof fn vaults_are_kept_under_their_identifier(registry: RegistryView, id: Seq<char>)
    requires
        consistent(registry),
        registry.contexts.contains_key(id),
    ensures
        registry.contexts[id].vault_id == id,
        registry.contexts[id].model_name == registry.model_name,
{
}

} // verus!
