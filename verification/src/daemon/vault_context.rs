//! What the daemon keeps of one vault.

use crate::error::{VaultError, VaultErrorView};
use vstd::prelude::*;

verus! {

/// An open vault.
#[derive(Debug, PartialEq, Eq)]
pub struct VaultContext {
    pub vault_id: String,
    pub vault_root: String,
    pub model_name: String,
    /// Whether a watcher follows the files of the vault.
    pub watching: bool,
}

/// An open vault, with texts as characters.
#[verifier::ext_equal]
pub struct VaultView {
    pub vault_id: Seq<char>,
    pub vault_root: Seq<char>,
    pub model_name: Seq<char>,
    pub watching: bool,
}

impl View for VaultContext {
    type V = VaultView;

    open spec fn view(&self) -> VaultView {
        VaultView {
            vault_id: self.vault_id@,
            vault_root: self.vault_root@,
            model_name: self.model_name@,
            watching: self.watching,
        }
    }
}

/// What a metadata lookup gives: a note that is not there has none.
pub open spec fn lookup_outcome<T>(result: Result<T, VaultErrorView>) -> Result<
    Option<T>,
    VaultErrorView,
> {
    match result {
        Ok(value) => Ok(Some(value)),
        Err(VaultErrorView::NoteNotFound(_)) => Ok(None),
        Err(error) => Err(error),
    }
}

/// The path of a note whose metadata is asked for: a note that is not there has
/// none, and any other failure is passed on.
pub fn note_metadata(resolved: Result<String, VaultError>) -> (result: Result<
    Option<String>,
    VaultError,
>)
    ensures
        match lookup_outcome(
            match resolved {
                Ok(path) => Ok(path@),
                Err(error) => Err(error@),
            },
        ) {
            Ok(Some(path)) => result matches Ok(Some(found)) && found@ == path,
            Ok(None) => result matches Ok(None),
            Err(error) => result matches Err(failure) && failure@ == error,
        },
{
    match resolved {
        Ok(path) => Ok(Some(path)),
        Err(VaultError::NoteNotFound(_)) => Ok(None),
        Err(error) => Err(error),
    }
}

/// The error of a semantic search in a daemon that was built without embeddings.
pub fn embeddings_unavailable() -> (error: VaultError)
    ensures
        error@ == VaultErrorView::Embedding("daemon binary compiled without embeddings feature"@),
{
    VaultError::Embedding("daemon binary compiled without embeddings feature".to_owned())
}

/// A note that is not there is no failure of a lookup; every other error is.
pub proof fn missing_notes_are_no_failure<T>(result: Result<T, VaultErrorView>)
    ensures
        lookup_outcome(result) is Err <==> (result matches Err(error) && !(error is NoteNotFound)),
        result matches Ok(value) ==> lookup_outcome(result) == Ok::<Option<T>, VaultErrorView>(
            Some(value),
        ),
        result matches Err(error) && error is NoteNotFound ==> lookup_outcome(result) == Ok::<
            Option<T>,
            VaultErrorView,
        >(None),
{
}

} // verus!
