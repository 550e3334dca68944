//! The errors that vault, daemon and tool operations report.

use vstd::prelude::*;

verus! {

/// A failed vault or daemon operation.
#[derive(Debug, Clone, PartialEq, Eq)]
pub enum VaultError {
    /// There is no note at the path.
    NoteNotFound(String),
    /// Reading or writing failed.
    Io(String),
    /// A path is not acceptable.
    InvalidPath(String),
    /// Embedding or its cache failed.
    Embedding(String),
    /// The semantic daemon could not be brought up or replaced.
    DaemonBootstrap(String),
    /// The semantic daemon answered with an error.
    DaemonRpc { code: i64, message: String },
    /// Watching the file system failed.
    Watcher(String),
    /// Anything else.
    Other(String),
}

/// What an error says, with its text as characters.
pub enum VaultErrorView {
    NoteNotFound(Seq<char>),
    Io(Seq<char>),
    InvalidPath(Seq<char>),
    Embedding(Seq<char>),
    DaemonBootstrap(Seq<char>),
    DaemonRpc { code: i64, message: Seq<char> },
    Watcher(Seq<char>),
    Other(Seq<char>),
}

impl View for VaultError {
    type V = VaultErrorView;

    open spec fn view(&self) -> VaultErrorView {
        match self {
            VaultError::NoteNotFound(text) => VaultErrorView::NoteNotFound(text@),
            VaultError::Io(text) => VaultErrorView::Io(text@),
            VaultError::InvalidPath(text) => VaultErrorView::InvalidPath(text@),
            VaultError::Embedding(text) => VaultErrorView::Embedding(text@),
            VaultError::DaemonBootstrap(text) => VaultErrorView::DaemonBootstrap(text@),
            VaultError::DaemonRpc { code, message } => VaultErrorView::DaemonRpc {
                code: *code,
                message: message@,
            },
            VaultError::Watcher(text) => VaultErrorView::Watcher(text@),
            VaultError::Other(text) => VaultErrorView::Other(text@),
        }
    }
}

/// The text of an error.
pub open spec fn vault_error_text(error: VaultErrorView) -> Seq<char> {
    match error {
        VaultErrorView::NoteNotFound(text) => text,
        VaultErrorView::Io(text) => text,
        VaultErrorView::InvalidPath(text) => text,
        VaultErrorView::Embedding(text) => text,
        VaultErrorView::DaemonBootstrap(text) => text,
        VaultErrorView::DaemonRpc { code, message } => message,
        VaultErrorView::Watcher(text) => text,
        VaultErrorView::Other(text) => text,
    }
}

impl VaultError {
    /// The text of the error.
    pub fn message(&self) -> (text: &String)
        ensures
            text@ == vault_error_text(self@),
    {
        match self {
            VaultError::NoteNotFound(text) => text,
            VaultError::Io(text) => text,
            VaultError::InvalidPath(text) => text,
            VaultError::Embedding(text) => text,
            VaultError::DaemonBootstrap(text) => text,
            VaultError::DaemonRpc { code: _, message } => message,
            VaultError::Watcher(text) => text,
            VaultError::Other(text) => text,
        }
    }
}

/// An error says what it was given to say.
pub proof fn errors_say_their_text(text: Seq<char>, code: i64)
    ensures
        vault_error_text(VaultErrorView::NoteNotFound(text)) == text,
        vault_error_text(VaultErrorView::Io(text)) == text,
        vault_error_text(VaultErrorView::InvalidPath(text)) == text,
        vault_error_text(VaultErrorView::Embedding(text)) == text,
        vault_error_text(VaultErrorView::DaemonBootstrap(text)) == text,
        vault_error_text(VaultErrorView::DaemonRpc { code, message: text }) == text,
        vault_error_text(VaultErrorView::Watcher(text)) == text,
        vault_error_text(VaultErrorView::Other(text)) == text,
{
}

} // verus!
