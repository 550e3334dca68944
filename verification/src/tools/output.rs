//! Tool errors and results.

use crate::error::{vault_error_text, VaultError, VaultErrorView};
use vstd::prelude::*;

verus! {

/// The code of a request with invalid parameters.
pub const INVALID_PARAMS: i32 = -32602;

/// The code of a request for something that is not there.
pub const RESOURCE_NOT_FOUND: i32 = -32002;

/// The code of a request that failed for a reason of the server's own.
pub const INTERNAL_ERROR: i32 = -32603;

/// An error that a tool answers with.
#[derive(Debug, PartialEq, Eq)]
pub struct ToolError {
    pub code: i32,
    pub message: String,
}

/// A tool error with its message as characters.
pub struct ToolErrorView {
    pub code: i32,
    pub message: Seq<char>,
}

impl View for ToolError {
    type V = ToolErrorView;

    open spec fn view(&self) -> ToolErrorView {
        ToolErrorView { code: self.code, message: self.message@ }
    }
}

/// A request with invalid parameters.
pub open spec fn invalid(message: Seq<char>) -> ToolErrorView {
    ToolErrorView { code: INVALID_PARAMS, message }
}

/// The error for a request with invalid parameters.
pub fn invalid_params(message: String) -> (error: ToolError)
    ensures
        error@ == invalid(message@),
{
    ToolError { code: INVALID_PARAMS, message }
}

/// Why a tool failed: its parameters, or the vault.
#[derive(Debug, PartialEq, Eq)]
pub enum NoteFailure {
    Params(ToolError),
    Vault(VaultError),
}

/// Why a tool failed, as mathematical values.
pub enum NoteFailureView {
    Params(ToolErrorView),
    Vault(VaultErrorView),
}

impl View for NoteFailure {
    type V = NoteFailureView;

    open spec fn view(&self) -> NoteFailureView {
        match self {
            NoteFailure::Params(error) => NoteFailureView::Params(error@),
            NoteFailure::Vault(error) => NoteFailureView::Vault(error@),
        }
    }
}

/// The answer to a failure of the vault: a path that is not acceptable is an
/// invalid parameter.
pub open spec fn vault_answer(error: VaultErrorView) -> ToolErrorView {
    match error {
        VaultErrorView::InvalidPath(text) => invalid(text),
        VaultErrorView::NoteNotFound(text) => ToolErrorView {
            code: RESOURCE_NOT_FOUND,
            message: text,
        },
        _ => ToolErrorView { code: INTERNAL_ERROR, message: vault_error_text(error) },
    }
}

/// The answer to a failure.
pub open spec fn failure_answer(failure: NoteFailureView) -> ToolErrorView {
    match failure {
        NoteFailureView::Params(error) => error,
        NoteFailureView::Vault(error) => vault_answer(error),
    }
}

/// The answer to a failure of the vault.
pub fn vault_failure(error: &VaultError) -> (answer: ToolError)
    ensures
        answer@ == vault_answer(error@),
{
    let code: i32 = match error {
        VaultError::InvalidPath(_) => INVALID_PARAMS,
        VaultError::NoteNotFound(_) => RESOURCE_NOT_FOUND,
        _ => INTERNAL_ERROR,
    };
    ToolError { code, message: error.message().clone() }
}

/// The answer to a failure. A path that is not acceptable is answered as an
/// invalid parameter.
pub fn failure_error(failure: NoteFailure) -> (error: ToolError)
    ensures
        error@ == failure_answer(failure@),
        failure@ matches NoteFailureView::Vault(VaultErrorView::InvalidPath(text)) ==> error@
            == invalid(text),
        failure@ matches NoteFailureView::Params(given) ==> error@ == given,
{
    match failure {
        NoteFailure::Params(error) => error,
        NoteFailure::Vault(error) => vault_failure(&error),
    }
}

/// Raw note content or a rendered directory tree.
#[derive(Debug, PartialEq, Eq)]
pub struct TextOutput {
    pub content: String,
}

/// The confirmation of a completed operation.
#[derive(Debug, PartialEq, Eq)]
pub struct MessageOutput {
    pub message: String,
}

/// Matching entries, in the order of the text response.
#[derive(Debug, PartialEq, Eq)]
pub struct Results<T> {
    pub results: T,
}

/// A structured result with the text that stands for it.
#[derive(Debug, PartialEq, Eq)]
pub struct WithText<T> {
    pub value: T,
    pub text: String,
}

/// A result with the given text.
pub fn with_text<T>(value: T, text: String) -> (result: WithText<T>)
    ensures
        result.value == value,
        result.text == text,
{
    WithText { value, text }
}

/// Content as a structured result; the text is the content itself.
pub fn content(text: String) -> (result: WithText<TextOutput>)
    ensures
        result.value.content@ == text@,
        result.text@ == text@,
{
    with_text(TextOutput { content: text.clone() }, text)
}

/// A confirmation as a structured result; the text is the message itself.
pub fn message(text: String) -> (result: WithText<MessageOutput>)
    ensures
        result.value.message@ == text@,
        result.text@ == text@,
{
    with_text(MessageOutput { message: text.clone() }, text)
}

/// Entries as a structured result; the text lists the entries without the frame.
pub fn results<T>(value: T, text: String) -> (result: WithText<Results<T>>)
    ensures
        result.value.results == value,
        result.text == text,
{
    with_text(Results { results: value }, text)
}

/// An answer tells whose fault a failure is: a path that is not acceptable is the
/// caller's, a note that is not there is missing, and everything else is the server's
/// own. Refused parameters are answered as they are.
pub proof fn answers_tell_whose_fault_it_is(error: VaultErrorView, given: ToolErrorView, text: Seq<char>)
    ensures
        vault_answer(error).code == if error is InvalidPath {
            -32602i32
        } else if error is NoteNotFound {
            -32002i32
        } else {
            -32603i32
        },
        vault_answer(VaultErrorView::InvalidPath(text)).message == text,
        vault_answer(VaultErrorView::NoteNotFound(text)).message == text,
        invalid(text).code == -32602i32 && invalid(text).message == text,
        failure_answer(NoteFailureView::Params(given)) == given,
        failure_answer(NoteFailureView::Vault(error)).code == vault_answer(error).code,
        failure_answer(NoteFailureView::Vault(error)).message == vault_answer(error).message,
{
}

} // verus!
