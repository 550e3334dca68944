//! Note tools: parameters, limits, and the bounded reading of many notes.

use crate::error::{VaultError, VaultErrorView};
use crate::path::{
    extension, extension_of, invalid_relative_text, normal_relative, normalize_relative,
};
use crate::text::{cat2, cat3, eq_ignoring_case, opt_str, same_ignoring_case, texts};
use crate::tools::output::{
    failure_answer, invalid, invalid_params, NoteFailure, NoteFailureView, ToolError, INVALID_PARAMS,
};
use vstd::prelude::*;
use vstd::utf8::encode_utf8;

verus! {

/// The number of files that are inspected unless the request says otherwise.
pub const DEFAULT_MAX_FILES: usize = 20;

/// The largest number of files that are inspected.
pub const MAX_FILES_CAP: usize = 100;

/// The number of content bytes that are returned unless the request says otherwise.
pub const DEFAULT_MAX_BYTES: usize = 65536;

/// The largest number of content bytes that are returned.
pub const MAX_BYTES_CAP: usize = 262144;

/// The largest number of skipped notes that are listed.
pub const MAX_SKIPPED_DETAILS: usize = 100;

/// Parameters of a reading.
#[derive(Debug, Default)]
pub struct NoteReadParams {
    /// Path to the note, relative to the vault root.
    pub path: String,
}

/// Parameters of a reading of many notes.
#[derive(Debug, Default)]
pub struct NoteReadManyParams {
    /// Explicit note paths, in the order they should be returned. Excludes `dir`.
    pub paths: Option<Vec<String>>,
    /// Directory relative to the vault root; empty for the root. Excludes `paths`.
    pub dir: Option<String>,
    /// Include notes in nested directories. Only valid with `dir`.
    pub recursive: Option<bool>,
    /// Pattern applied to vault-relative paths. Only valid with `dir`.
    pub glob: Option<String>,
    /// Maximum number of candidate files inspected.
    pub max_files: Option<usize>,
    /// Maximum number of combined content bytes returned.
    pub max_bytes: Option<usize>,
}

/// A note that was read.
#[derive(Debug, PartialEq, Eq)]
pub struct NoteReadManyItem {
    pub path: String,
    pub content: String,
}

/// Why a note was not read.
#[derive(Debug, Clone, Copy, PartialEq, Eq, Structural)]
pub enum NoteReadManySkipReason {
    FileLimit,
    ByteLimit,
    NotFound,
    Unreadable,
}

/// A note that was not read.
#[derive(Debug, PartialEq, Eq)]
pub struct NoteReadManySkipped {
    pub path: String,
    pub reason: NoteReadManySkipReason,
}

/// What a reading of many notes gives.
#[derive(Debug, PartialEq, Eq)]
pub struct NoteReadManyOutput {
    pub notes: Vec<NoteReadManyItem>,
    pub skipped: Vec<NoteReadManySkipped>,
    /// All skipped candidates, also those that `skipped` no longer lists.
    pub skipped_count: usize,
    /// The sum of the UTF-8 bytes of the returned contents.
    pub content_bytes: usize,
}

/// Parameters of a creation.
#[derive(Debug, Default)]
pub struct NoteCreateParams {
    /// Path of the new note, relative to the vault root.
    pub path: String,
    /// Initial body.
    pub content: Option<String>,
    /// Frontmatter as the text of a JSON object.
    pub frontmatter: Option<String>,
}

/// Parameters of an overwriting.
#[derive(Debug, Default)]
pub struct NoteWriteParams {
    /// Path to the note, relative to the vault root.
    pub path: String,
    /// New content of the whole note.
    pub content: String,
}

/// Parameters of an insertion.
#[derive(Debug, Default)]
pub struct NoteInsertParams {
    /// Path to the note, relative to the vault root.
    pub path: String,
    /// Content to insert.
    pub content: String,
    /// `end` (the default) or `beginning`.
    pub position: Option<String>,
}

/// How a patch changes its target.
#[derive(Debug, Clone, Copy, PartialEq, Eq, Structural)]
pub enum PatchOperation {
    Append,
    Prepend,
    Replace,
}

/// What a patch is aimed at.
#[derive(Debug, Clone, Copy, PartialEq, Eq, Structural)]
pub enum PatchTargetType {
    Heading,
    Block,
    Frontmatter,
}

/// A patch of one note.
#[derive(Debug)]
pub struct PatchRequest {
    pub operation: PatchOperation,
    pub target_type: PatchTargetType,
    pub target: String,
    pub content: String,
}

/// Parameters of a patch.
#[derive(Debug)]
pub struct NotePatchParams {
    /// Path to the note, relative to the vault root.
    pub path: String,
    pub operation: PatchOperation,
    pub target_type: PatchTargetType,
    /// Heading text, block identifier or frontmatter field.
    pub target: String,
    /// Content to insert or replace with.
    pub content: String,
}

impl Default for NotePatchParams {
    fn default() -> (params: Self)
        ensures
            params.path@.len() == 0,
            params.operation == PatchOperation::Append,
            params.target_type == PatchTargetType::Heading,
            params.target@.len() == 0,
            params.content@.len() == 0,
    {
        NotePatchParams {
            path: String::new(),
            operation: PatchOperation::Append,
            target_type: PatchTargetType::Heading,
            target: String::new(),
            content: String::new(),
        }
    }
}

/// Parameters of a deletion.
#[derive(Debug, Default)]
pub struct NoteDeleteParams {
    /// Path to the note, relative to the vault root.
    pub path: String,
    /// Has to be set to confirm the deletion.
    pub confirm: bool,
}

/// Parameters of a move.
#[derive(Debug, Default)]
pub struct NoteMoveParams {
    /// Current path of the note, relative to the vault root.
    pub from: String,
    /// New path, relative to the vault root.
    pub to: String,
}

/// The limit that applies: the requested one, else the default, and never more
/// than the cap. Zero is refused.
pub fn validated_limit(requested: Option<usize>, default: usize, hard_cap: usize, name: &str) -> (result:
    Result<usize, ToolError>)
    ensures
        ({
            let value = match requested {
                Some(n) => n,
                None => default,
            };
            match result {
                Ok(limit) => value > 0 && limit == if value < hard_cap {
                    value
                } else {
                    hard_cap
                },
                Err(error) => value == 0 && error@ == invalid(
                    "`"@ + name@ + "` must be greater than zero"@,
                ),
            }
        }),
{
    let value: usize = match requested {
        Some(n) => n,
        None => default,
    };
    if value == 0 {
        return Err(invalid_params(cat3("`", name, "` must be greater than zero")));
    }
    if value < hard_cap {
        Ok(value)
    } else {
        Ok(hard_cap)
    }
}

/// Which notes are read.
#[derive(Debug)]
pub enum ReadSelector {
    Paths(Vec<String>),
    Dir { dir: String, recursive: bool, glob: Option<String> },
}

/// Which notes are read, within which limits.
#[derive(Debug)]
pub struct ReadPlan {
    pub max_files: usize,
    pub max_bytes: usize,
    pub selector: ReadSelector,
}

/// The first path of a list, from position `i` on, that has no normal form.
pub open spec fn first_invalid_path(paths: Seq<Seq<char>>, windows: bool, i: int) -> Option<
    Seq<char>,
>
    decreases paths.len() - i,
{
    if i < 0 || i >= paths.len() {
        None
    } else if normal_relative(paths[i], windows) is None {
        Some(paths[i])
    } else {
        first_invalid_path(paths, windows, i + 1)
    }
}

/// Why a request to read many notes is refused, if it is. The first reason counts.
pub open spec fn read_refusal(params: NoteReadManyParams, windows: bool) -> Option<NoteFailureView> {
    if params.max_files == Some(0usize) {
        Some(NoteFailureView::Params(invalid("`max_files` must be greater than zero"@)))
    } else if params.max_bytes == Some(0usize) {
        Some(NoteFailureView::Params(invalid("`max_bytes` must be greater than zero"@)))
    } else if params.paths is Some && (params.recursive is Some || params.glob is Some) {
        Some(
            NoteFailureView::Params(
                invalid("`recursive` and `glob` are only valid with the `dir` selector"@),
            ),
        )
    } else if params.paths is Some == params.dir is Some {
        Some(
            NoteFailureView::Params(
                invalid("Exactly one of `paths` or `dir` must be provided"@),
            ),
        )
    } else {
        match params.paths {
            None => None,
            Some(paths) => if paths@.len() == 0 {
                Some(
                    NoteFailureView::Params(invalid("`paths` must contain at least one path"@)),
                )
            } else if paths@.len() > MAX_FILES_CAP {
                Some(NoteFailureView::Params(invalid("`paths` accepts at most 100 entries"@)))
            } else {
                match first_invalid_path(texts(paths@), windows, 0) {
                    Some(path) => Some(
                        NoteFailureView::Vault(
                            VaultErrorView::InvalidPath(invalid_relative_text(path)),
                        ),
                    ),
                    None => None,
                }
            },
        }
    }
}

/// Every refusal of a request to read many notes, that of a path which leaves the
/// vault among them, is answered as one of invalid parameters.
pub proof fn refused_requests_have_invalid_params(params: NoteReadManyParams, windows: bool)
    ensures
        read_refusal(params, windows) matches Some(failure) ==> failure_answer(failure).code
            == INVALID_PARAMS,
{
}

/// A requested limit, or the default, up to the cap.
pub open spec fn capped(requested: Option<usize>, default: usize, cap: usize) -> usize {
    let value = match requested {
        Some(n) => n,
        None => default,
    };
    if value < cap {
        value
    } else {
        cap
    }
}

proof fn lemma_limit_texts()
    ensures
        "`"@ + "max_files"@ + "` must be greater than zero"@
            == "`max_files` must be greater than zero"@,
        "`"@ + "max_bytes"@ + "` must be greater than zero"@
            == "`max_bytes` must be greater than zero"@,
{
    reveal_strlit("`");
    reveal_strlit("max_files");
    reveal_strlit("max_bytes");
    reveal_strlit("` must be greater than zero");
    reveal_strlit("`max_files` must be greater than zero");
    reveal_strlit("`max_bytes` must be greater than zero");
    assert("`"@ + "max_files"@ + "` must be greater than zero"@
        =~= "`max_files` must be greater than zero"@);
    assert("`"@ + "max_bytes"@ + "` must be greater than zero"@
        =~= "`max_bytes` must be greater than zero"@);
}

/// Checks a request to read many notes.
pub fn plan_read(params: NoteReadManyParams, windows: bool) -> (result: Result<
    ReadPlan,
    NoteFailure,
>)
    ensures
        match result {
            Err(failure) => read_refusal(params, windows) == Some(failure@),
            Ok(plan) => {
                &&& read_refusal(params, windows) is None
                &&& plan.max_files == capped(params.max_files, DEFAULT_MAX_FILES, MAX_FILES_CAP)
                &&& plan.max_bytes == capped(params.max_bytes, DEFAULT_MAX_BYTES, MAX_BYTES_CAP)
                &&& params.max_files is None ==> plan.max_files == 20
                &&& params.max_files matches Some(limit) ==> plan.max_files == if limit < 100 {
                    limit
                } else {
                    100
                }
                &&& params.max_bytes is None ==> plan.max_bytes == 65536
                &&& params.max_bytes matches Some(limit) ==> plan.max_bytes == if limit < 262144 {
                    limit
                } else {
                    262144
                }
                &&& match plan.selector {
                    ReadSelector::Paths(paths) => params.paths == Some(paths),
                    ReadSelector::Dir { dir, recursive, glob } => params.dir == Some(dir)
                        && recursive == (params.recursive == Some(true)) && glob == params.glob,
                }
            },
        },
{
    proof {
        lemma_limit_texts();
    }
    let max_files = match validated_limit(
        params.max_files,
        DEFAULT_MAX_FILES,
        MAX_FILES_CAP,
        "max_files",
    ) {
        Ok(limit) => limit,
        Err(error) => {
            return Err(NoteFailure::Params(error));
        },
    };
    let max_bytes = match validated_limit(
        params.max_bytes,
        DEFAULT_MAX_BYTES,
        MAX_BYTES_CAP,
        "max_bytes",
    ) {
        Ok(limit) => limit,
        Err(error) => {
            return Err(NoteFailure::Params(error));
        },
    };
    if params.paths.is_some() && (params.recursive.is_some() || params.glob.is_some()) {
        return Err(
            NoteFailure::Params(
                invalid_params(
                    "`recursive` and `glob` are only valid with the `dir` selector".to_owned(),
                ),
            ),
        );
    }
    match (params.paths, params.dir) {
        (Some(paths), None) => {
            if paths.len() == 0 {
                return Err(
                    NoteFailure::Params(
                        invalid_params("`paths` must contain at least one path".to_owned()),
                    ),
                );
            }
            if paths.len() > MAX_FILES_CAP {
                return Err(
                    NoteFailure::Params(
                        invalid_params("`paths` accepts at most 100 entries".to_owned()),
                    ),
                );
            }
            let ghost all = texts(paths@);
            let mut i: usize = 0;
            while i < paths.len()
                invariant
                    i <= paths@.len(),
                    all == texts(paths@),
                    first_invalid_path(all, windows, 0) == first_invalid_path(all, windows, i as int),
                    0 < paths@.len() <= MAX_FILES_CAP,
                    params.paths == Some(paths),
                    params.dir is None,
                    params.recursive is None && params.glob is None,
                    params.max_files != Some(0usize) && params.max_bytes != Some(0usize),
                decreases paths@.len() - i,
            {
                assert(all[i as int] == paths@[i as int]@);
                match normalize_relative(paths[i].as_str(), windows) {
                    Ok(_) => {},
                    Err(error) => {
                        return Err(NoteFailure::Vault(error));
                    },
                }
                i += 1;
            }
            Ok(ReadPlan { max_files, max_bytes, selector: ReadSelector::Paths(paths) })
        },
        (None, Some(dir)) => {
            let recursive = match params.recursive {
                Some(flag) => flag,
                None => false,
            };
            Ok(
                ReadPlan {
                    max_files,
                    max_bytes,
                    selector: ReadSelector::Dir { dir, recursive, glob: params.glob },
                },
            )
        },
        _ => Err(
            NoteFailure::Params(
                invalid_params("Exactly one of `paths` or `dir` must be provided".to_owned()),
            ),
        ),
    }
}

/// Whether a path has the extension of a note.
pub open spec fn is_note_path(path: Seq<char>, windows: bool) -> bool {
    match extension_of(path, windows) {
        Some(ext) => same_ignoring_case(ext, "md"@),
        None => false,
    }
}

/// Whether a path has the extension of a note.
pub fn has_note_extension(path: &str, windows: bool) -> (yes: bool)
    ensures
        yes == is_note_path(path@, windows),
{
    match extension(path, windows) {
        Some(ext) => eq_ignoring_case(ext.as_str(), "md"),
        None => false,
    }
}

/// An entry of a directory listing.
#[derive(Debug)]
pub struct ListedFile {
    pub path: String,
    pub is_file: bool,
}

/// The listed entries that are notes: files with the extension of a note.
pub open spec fn note_candidates(files: Seq<ListedFile>, windows: bool) -> Seq<Seq<char>>
    decreases files.len(),
{
    if files.len() == 0 {
        Seq::empty()
    } else {
        let rest = note_candidates(files.drop_last(), windows);
        if is_note_path(files.last().path@, windows) && files.last().is_file {
            rest.push(files.last().path@)
        } else {
            rest
        }
    }
}

/// The listed entries that are notes, in order.
pub fn directory_candidates(files: &Vec<ListedFile>, windows: bool) -> (list: Vec<String>)
    ensures
        texts(list@) == note_candidates(files@, windows),
{
    let mut list: Vec<String> = Vec::new();
    let mut i: usize = 0;
    assert(files@.take(0) =~= Seq::empty());
    assert(texts(list@) =~= Seq::empty());
    while i < files.len()
        invariant
            i <= files@.len(),
            texts(list@) == note_candidates(files@.take(i as int), windows),
        decreases files@.len() - i,
    {
        assert(files@.take(i + 1).drop_last() =~= files@.take(i as int));
        if files[i].is_file && has_note_extension(files[i].path.as_str(), windows) {
            let ghost before_list = list@;
            list.push(files[i].path.clone());
            assert(texts(list@) =~= texts(before_list).push(files@[i as int].path@));
        }
        i += 1;
    }
    assert(files@.take(i as int) =~= files@);
    list
}

/// A note that was read, as mathematical values.
pub struct ItemView {
    pub path: Seq<char>,
    pub content: Seq<char>,
}

/// A note that was not read, as mathematical values.
pub struct SkippedView {
    pub path: Seq<char>,
    pub reason: NoteReadManySkipReason,
}

/// The notes of a list.
pub open spec fn item_views(list: Seq<NoteReadManyItem>) -> Seq<ItemView> {
    list.map_values(|n: NoteReadManyItem| ItemView { path: n.path@, content: n.content@ })
}

/// The skipped notes of a list.
pub open spec fn skipped_views(list: Seq<NoteReadManySkipped>) -> Seq<SkippedView> {
    list.map_values(|s: NoteReadManySkipped| SkippedView { path: s.path@, reason: s.reason })
}

/// The list with one more skipped note, unless it is full.
pub open spec fn with_skipped(list: Seq<SkippedView>, entry: SkippedView) -> Seq<SkippedView> {
    if list.len() < MAX_SKIPPED_DETAILS {
        list.push(entry)
    } else {
        list
    }
}

/// Counts a skipped note, and lists it unless the list is full.
pub fn record_skipped(
    skipped: &mut Vec<NoteReadManySkipped>,
    skipped_count: &mut usize,
    path: String,
    reason: NoteReadManySkipReason,
)
    requires
        *old(skipped_count) < usize::MAX,
    ensures
        *final(skipped_count) == *old(skipped_count) + 1,
        skipped_views(final(skipped)@) == with_skipped(
            skipped_views(old(skipped)@),
            SkippedView { path: path@, reason },
        ),
{
    *skipped_count = *skipped_count + 1;
    if skipped.len() < MAX_SKIPPED_DETAILS {
        let ghost before_list = skipped@;
        let ghost entry = SkippedView { path: path@, reason };
        skipped.push(NoteReadManySkipped { path, reason });
        assert(skipped_views(skipped@) =~= skipped_views(before_list).push(entry));
    }
}

/// The reason that a file error stands for; other errors end the reading.
pub open spec fn skip_reason(error: VaultErrorView) -> Option<NoteReadManySkipReason> {
    match error {
        VaultErrorView::NoteNotFound(_) => Some(NoteReadManySkipReason::NotFound),
        VaultErrorView::Io(_) => Some(NoteReadManySkipReason::Unreadable),
        _ => None,
    }
}

/// Counts a note that could not be read as skipped. Errors other than a missing
/// or unreadable file are handed back.
pub fn record_file_error(
    error: VaultError,
    path: &str,
    skipped: &mut Vec<NoteReadManySkipped>,
    skipped_count: &mut usize,
) -> (result: Result<(), VaultError>)
    requires
        *old(skipped_count) < usize::MAX,
    ensures
        match skip_reason(error@) {
            Some(reason) => {
                &&& result is Ok
                &&& *final(skipped_count) == *old(skipped_count) + 1
                &&& skipped_views(final(skipped)@) == with_skipped(
                    skipped_views(old(skipped)@),
                    SkippedView { path: path@, reason },
                )
            },
            None => {
                &&& result == Err::<(), VaultError>(error)
                &&& *final(skipped_count) == *old(skipped_count)
                &&& final(skipped)@ == old(skipped)@
            },
        },
{
    let reason = match error {
        VaultError::NoteNotFound(_) => NoteReadManySkipReason::NotFound,
        VaultError::Io(_) => NoteReadManySkipReason::Unreadable,
        other => {
            return Err(other);
        },
    };
    record_skipped(skipped, skipped_count, path.to_owned(), reason);
    Ok(())
}

/// What is known of the candidate that is being read.
pub enum ReadStage {
    /// Its actual path has to be found.
    Resolve,
    /// Its size has to be found.
    Size(String),
    /// It has to be read.
    Read(String),
}

/// What is known of the candidate, as mathematical values.
pub enum StageView {
    Resolve,
    Size(Seq<char>),
    Read(Seq<char>),
}

impl View for ReadStage {
    type V = StageView;

    open spec fn view(&self) -> StageView {
        match self {
            ReadStage::Resolve => StageView::Resolve,
            ReadStage::Size(path) => StageView::Size(path@),
            ReadStage::Read(path) => StageView::Read(path@),
        }
    }
}

/// How far a reading is.
struct ReadProgress {
    candidates: Vec<String>,
    inspected: usize,
    max_bytes: usize,
    next: usize,
    stage: ReadStage,
    notes: Vec<NoteReadManyItem>,
    skipped: Vec<NoteReadManySkipped>,
    skipped_count: usize,
    content_bytes: usize,
}

/// A reading of many notes in progress.
pub struct ReadSession {
    progress: ReadProgress,
}

/// A reading in progress, as mathematical values.
#[verifier::ext_equal]
pub struct SessionView {
    pub candidates: Seq<Seq<char>>,
    /// How many candidates are looked at.
    pub inspected: nat,
    pub max_bytes: nat,
    /// The candidate that is looked at.
    pub next: nat,
    pub stage: StageView,
    pub notes: Seq<ItemView>,
    pub skipped: Seq<SkippedView>,
    pub skipped_count: nat,
    pub content_bytes: nat,
}

impl View for ReadSession {
    type V = SessionView;

    closed spec fn view(&self) -> SessionView {
        self.progress@
    }
}

impl ReadSession {
    #[verifier::type_invariant]
    spec fn is_well_kept(self) -> bool {
        well_kept(self.progress@)
    }
}

impl View for ReadProgress {
    type V = SessionView;

    closed spec fn view(&self) -> SessionView {
        SessionView {
            candidates: texts(self.candidates@),
            inspected: self.inspected as nat,
            max_bytes: self.max_bytes as nat,
            next: self.next as nat,
            stage: self.stage@,
            notes: item_views(self.notes@),
            skipped: skipped_views(self.skipped@),
            skipped_count: self.skipped_count as nat,
            content_bytes: self.content_bytes as nat,
        }
    }
}

/// The bytes of the contents of the notes.
pub open spec fn content_size(notes: Seq<ItemView>) -> nat
    decreases notes.len(),
{
    if notes.len() == 0 {
        0
    } else {
        content_size(notes.drop_last()) + encode_utf8(notes.last().content).len()
    }
}

/// What holds of every reading in progress: each candidate so far was either
/// read or counted as skipped, the returned bytes are counted and within the
/// limit, and the list of skipped notes is cut off but the count is not.
pub open spec fn well_kept(s: SessionView) -> bool {
    &&& s.next <= s.inspected <= s.candidates.len() <= usize::MAX
    &&& s.notes.len() + s.skipped_count == s.next
    &&& s.content_bytes == content_size(s.notes) <= s.max_bytes
    &&& s.skipped.len() == if s.skipped_count < MAX_SKIPPED_DETAILS {
        s.skipped_count
    } else {
        MAX_SKIPPED_DETAILS as nat
    }
}

/// What is to be done for the reading.
pub enum ReadAction {
    /// Find the actual path of a candidate.
    Resolve(String),
    /// Find the size of a file.
    Size(String),
    /// Read a file.
    Read(String),
    /// All candidates have been looked at.
    Finish,
}

/// The candidate is skipped and the next one looked at.
pub open spec fn skipping(s: SessionView, path: Seq<char>, reason: NoteReadManySkipReason) -> SessionView {
    SessionView {
        next: s.next + 1,
        stage: StageView::Resolve,
        skipped: with_skipped(s.skipped, SkippedView { path, reason }),
        skipped_count: s.skipped_count + 1,
        ..s
    }
}

/// What a file error leaves: the candidate is skipped, or the reading ends.
pub open spec fn after_error(s: SessionView, path: Seq<char>, error: VaultErrorView) -> Option<
    SessionView,
> {
    match skip_reason(error) {
        Some(reason) => Some(skipping(s, path, reason)),
        None => None,
    }
}

/// The candidate is returned and the next one looked at.
pub open spec fn returning(s: SessionView, path: Seq<char>, content: Seq<char>) -> SessionView {
    SessionView {
        next: s.next + 1,
        stage: StageView::Resolve,
        notes: s.notes.push(ItemView { path, content }),
        content_bytes: s.content_bytes + encode_utf8(content).len(),
        ..s
    }
}

/// A reading at its start.
pub open spec fn started(candidates: Seq<Seq<char>>, max_files: nat, max_bytes: nat) -> SessionView {
    SessionView {
        candidates,
        inspected: if candidates.len() < max_files {
            candidates.len()
        } else {
            max_files
        },
        max_bytes,
        next: 0,
        stage: StageView::Resolve,
        notes: Seq::empty(),
        skipped: Seq::empty(),
        skipped_count: 0,
        content_bytes: 0,
    }
}

/// The bytes that may still be returned.
pub open spec fn remaining(s: SessionView) -> int {
    s.max_bytes - s.content_bytes
}

/// After the actual path of the candidate was looked for. What was not asked for is
/// ignored, here and below.
pub open spec fn after_resolving(s: SessionView, result: Result<Seq<char>, VaultErrorView>) -> Option<
    SessionView,
> {
    if s.next >= s.inspected || !(s.stage is Resolve) {
        Some(s)
    } else {
        match result {
            Ok(actual) => Some(SessionView { stage: StageView::Size(actual), ..s }),
            Err(error) => after_error(s, s.candidates[s.next as int], error),
        }
    }
}

/// After the size of the candidate's file was looked for. A file that does not fit
/// into what may still be returned is skipped without being read.
pub open spec fn after_sizing(s: SessionView, result: Result<u64, VaultErrorView>) -> Option<
    SessionView,
> {
    if s.next >= s.inspected || !(s.stage is Size) {
        Some(s)
    } else {
        let path = s.stage->Size_0;
        match result {
            Ok(size) => Some(
                if size > remaining(s) {
                    skipping(s, path, NoteReadManySkipReason::ByteLimit)
                } else {
                    SessionView { stage: StageView::Read(path), ..s }
                },
            ),
            Err(error) => after_error(s, path, error),
        }
    }
}

/// After the candidate's file was read. Content that has grown beyond what may still
/// be returned is skipped.
pub open spec fn after_reading(s: SessionView, result: Result<Seq<char>, VaultErrorView>) -> Option<
    SessionView,
> {
    if s.next >= s.inspected || !(s.stage is Read) {
        Some(s)
    } else {
        let path = s.stage->Read_0;
        match result {
            Ok(content) => Some(
                if encode_utf8(content).len() > remaining(s) {
                    skipping(s, path, NoteReadManySkipReason::ByteLimit)
                } else {
                    returning(s, path, content)
                },
            ),
            Err(error) => after_error(s, path, error),
        }
    }
}

/// A text or an error, as mathematical values.
pub open spec fn text_result(result: Result<String, VaultError>) -> Result<
    Seq<char>,
    VaultErrorView,
> {
    match result {
        Ok(text) => Ok(text@),
        Err(error) => Err(error@),
    }
}

/// A size or an error, as mathematical values.
pub open spec fn size_result(result: Result<u64, VaultError>) -> Result<u64, VaultErrorView> {
    match result {
        Ok(size) => Ok(size),
        Err(error) => Err(error@),
    }
}

/// Whether `outcome` and `after` are what a step leaves: the reading goes on as
/// `next` says, or it ends with the error it was given and stays as it is.
pub open spec fn is_step<T>(
    before_step: SessionView,
    next: Option<SessionView>,
    result: Result<T, VaultError>,
    outcome: Result<(), VaultError>,
    after: SessionView,
) -> bool {
    match next {
        Some(s) => outcome is Ok && after == s,
        None => after == before_step && (result matches Err(error) && outcome == Err::<
            (),
            VaultError,
        >(error)),
    }
}

impl ReadProgress {
    fn empty() -> (progress: Self)
        ensures
            well_kept(progress@),
    {
        let progress = ReadProgress {
            candidates: Vec::new(),
            inspected: 0,
            max_bytes: 0,
            next: 0,
            stage: ReadStage::Resolve,
            notes: Vec::new(),
            skipped: Vec::new(),
            skipped_count: 0,
            content_bytes: 0,
        };
        assert(progress@.notes =~= Seq::empty());
        progress
    }

    fn fail(&mut self, path: String, error: VaultError) -> (result: Result<(), VaultError>)
        requires
            well_kept(old(self)@),
            old(self)@.next < old(self)@.inspected,
        ensures
            match after_error(old(self)@, path@, error@) {
                Some(after) => result is Ok && final(self)@ == after && well_kept(final(self)@),
                None => result == Err::<(), VaultError>(error) && final(self)@ == old(self)@,
            },
    {
        match record_file_error(
            error,
            path.as_str(),
            &mut self.skipped,
            &mut self.skipped_count,
        ) {
            Ok(_) => {
                self.next = self.next + 1;
                self.stage = ReadStage::Resolve;
                Ok(())
            },
            Err(other) => Err(other),
        }
    }

    fn skip(&mut self, path: String, reason: NoteReadManySkipReason)
        requires
            well_kept(old(self)@),
            old(self)@.next < old(self)@.inspected,
        ensures
            final(self)@ == skipping(old(self)@, path@, reason),
            well_kept(final(self)@),
    {
        record_skipped(&mut self.skipped, &mut self.skipped_count, path, reason);
        self.next = self.next + 1;
        self.stage = ReadStage::Resolve;
    }

    fn resolved(&mut self, result: Result<String, VaultError>) -> (outcome: Result<(), VaultError>)
        requires
            well_kept(old(self)@),
        ensures
            is_step(
                old(self)@,
                after_resolving(old(self)@, text_result(result)),
                result,
                outcome,
                final(self)@,
            ),
            well_kept(final(self)@),
    {
        if self.next >= self.inspected {
            return Ok(());
        }
        match &self.stage {
            ReadStage::Resolve => {},
            _ => {
                return Ok(());
            },
        }
        match result {
            Ok(actual) => {
                self.stage = ReadStage::Size(actual);
                Ok(())
            },
            Err(error) => {
                assert(self@.candidates[self.next as int] == self.candidates@[self.next as int]@);
                let path = self.candidates[self.next].clone();
                self.fail(path, error)
            },
        }
    }

    fn sized(&mut self, result: Result<u64, VaultError>) -> (outcome: Result<(), VaultError>)
        requires
            well_kept(old(self)@),
        ensures
            is_step(
                old(self)@,
                after_sizing(old(self)@, size_result(result)),
                result,
                outcome,
                final(self)@,
            ),
            well_kept(final(self)@),
            old(self)@.next < old(self)@.inspected && old(self)@.stage is Size ==> (result matches Ok(
                size,
            ) ==> if size + content_size(old(self)@.notes) > old(self)@.max_bytes {
                final(self)@.next == old(self)@.next + 1 && final(self)@.skipped_count
                    == old(self)@.skipped_count + 1
            } else {
                final(self)@.next == old(self)@.next && final(self)@.stage is Read
                    && final(self)@.skipped_count == old(self)@.skipped_count
            }),
    {
        if self.next >= self.inspected {
            return Ok(());
        }
        let path = match &self.stage {
            ReadStage::Size(path) => path.clone(),
            _ => {
                return Ok(());
            },
        };
        match result {
            Ok(size) => {
                let left: usize = self.max_bytes - self.content_bytes;
                if size > left as u64 {
                    self.skip(path, NoteReadManySkipReason::ByteLimit);
                } else {
                    self.stage = ReadStage::Read(path);
                }
                Ok(())
            },
            Err(error) => self.fail(path, error),
        }
    }

    fn read(&mut self, result: Result<String, VaultError>) -> (outcome: Result<(), VaultError>)
        requires
            well_kept(old(self)@),
        ensures
            is_step(
                old(self)@,
                after_reading(old(self)@, text_result(result)),
                result,
                outcome,
                final(self)@,
            ),
            well_kept(final(self)@),
            old(self)@.next < old(self)@.inspected && old(self)@.stage is Read ==> (result matches Ok(
                content,
            ) ==> final(self)@.next == old(self)@.next + 1 && if encode_utf8(content@).len()
                + content_size(old(self)@.notes) > old(self)@.max_bytes {
                final(self)@.notes == old(self)@.notes
            } else {
                final(self)@.notes == old(self)@.notes.push(
                    ItemView { path: old(self)@.stage->Read_0, content: content@ },
                )
            }),
    {
        if self.next >= self.inspected {
            return Ok(());
        }
        let path = match &self.stage {
            ReadStage::Read(path) => path.clone(),
            _ => {
                return Ok(());
            },
        };
        match result {
            Ok(content) => {
                let left: usize = self.max_bytes - self.content_bytes;
                let size: usize = content.as_str().as_bytes().len();
                if size > left {
                    self.skip(path, NoteReadManySkipReason::ByteLimit);
                } else {
                    let ghost before_notes = self.notes@;
                    let ghost item = ItemView { path: path@, content: content@ };
                    self.content_bytes = self.content_bytes + size;
                    self.notes.push(NoteReadManyItem { path, content });
                    self.next = self.next + 1;
                    self.stage = ReadStage::Resolve;
                    assert(item_views(self.notes@) =~= item_views(before_notes).push(item));
                    assert(item_views(self.notes@).drop_last() =~= item_views(before_notes));
                }
                Ok(())
            },
            Err(error) => self.fail(path, error),
        }
    }

    fn finish(self) -> (output: NoteReadManyOutput)
        requires
            well_kept(self@),
        ensures
            item_views(output.notes@) == self@.notes,
            output.content_bytes == self@.content_bytes,
            output.skipped_count == self@.skipped_count + (self@.candidates.len() - self@.next),
            skipped_views(output.skipped@) == all_skipped(self@),
    {
        let mut skipped = self.skipped;
        let rest: usize = self.candidates.len() - self.next;
        assert(self@.candidates.len() == self.candidates@.len());
        let skipped_count: usize = self.skipped_count + rest;
        let mut i: usize = self.next;
        assert(limited(self@.candidates, self@.next as int, self.next as int)
            =~= Seq::empty());
        assert(skipped_views(skipped@) + limited(
            self@.candidates,
            self@.next as int,
            i as int,
        ) =~= skipped_views(skipped@));
        while i < self.candidates.len() && skipped.len() < MAX_SKIPPED_DETAILS
            invariant
                self.next <= i <= self.candidates@.len(),
                skipped_views(skipped@) == self@.skipped + limited(
                    self@.candidates,
                    self@.next as int,
                    i as int,
                ),
                self@.next == self.next,
                self@.candidates == texts(self.candidates@),
                skipped@.len() <= MAX_SKIPPED_DETAILS,
            decreases self.candidates@.len() - i,
        {
            let ghost before_list = skipped@;
            let ghost before_limited = limited(
                self@.candidates,
                self@.next as int,
                i as int,
            );
            let path = self.candidates[i].clone();
            assert(self@.candidates[i as int] == path@);
            skipped.push(
                NoteReadManySkipped { path, reason: NoteReadManySkipReason::FileLimit },
            );
            let ghost entry = SkippedView {
                path: self@.candidates[i as int],
                reason: NoteReadManySkipReason::FileLimit,
            };
            i += 1;
            proof {
                assert(skipped_views(skipped@) =~= skipped_views(before_list).push(entry));
                assert(limited(self@.candidates, self@.next as int, i as int)
                    =~= before_limited.push(entry));
                assert(skipped_views(skipped@) =~= self@.skipped + limited(
                    self@.candidates,
                    self@.next as int,
                    i as int,
                ));
            }
        }
        proof {
            assert(skipped_views(skipped@).len() == skipped@.len());
            assert(skipped_views(skipped@) =~= all_skipped(self@));
        }
        NoteReadManyOutput {
            notes: self.notes,
            skipped,
            skipped_count,
            content_bytes: self.content_bytes,
        }
    }}

impl ReadSession {
    /// Starts a reading of the candidates.
    pub fn start(candidates: Vec<String>, max_files: usize, max_bytes: usize) -> (session: Self)
        ensures
            session@ == started(texts(candidates@), max_files as nat, max_bytes as nat),
            well_kept(session@),
    {
        let inspected: usize = if candidates.len() < max_files {
            candidates.len()
        } else {
            max_files
        };
        assert(texts(candidates@).len() == candidates@.len());
        let progress = ReadProgress {
            candidates,
            inspected,
            max_bytes,
            next: 0,
            stage: ReadStage::Resolve,
            notes: Vec::new(),
            skipped: Vec::new(),
            skipped_count: 0,
            content_bytes: 0,
        };
        assert(progress@ =~= started(texts(candidates@), max_files as nat, max_bytes as nat));
        ReadSession { progress }
    }

    /// What is to be done next.
    pub fn action(&self) -> (action: ReadAction)
        ensures
            well_kept(self@),
            if self@.next == self@.inspected {
                action is Finish
            } else {
                match self@.stage {
                    StageView::Resolve => action matches ReadAction::Resolve(path) && path@
                        == self@.candidates[self@.next as int],
                    StageView::Size(actual) => action matches ReadAction::Size(path) && path@
                        == actual,
                    StageView::Read(actual) => action matches ReadAction::Read(path) && path@
                        == actual,
                }
            },
    {
        proof {
            use_type_invariant(self);
        }
        let progress = &self.progress;
        if progress.next == progress.inspected {
            return ReadAction::Finish;
        }
        assert(self@.candidates[progress.next as int] == progress.candidates@[progress.next as int]@);
        match &progress.stage {
            ReadStage::Resolve => ReadAction::Resolve(progress.candidates[progress.next].clone()),
            ReadStage::Size(path) => ReadAction::Size(path.clone()),
            ReadStage::Read(path) => ReadAction::Read(path.clone()),
        }
    }

    /// Takes in the actual path of the candidate.
    pub fn resolved(&mut self, result: Result<String, VaultError>) -> (outcome: Result<
        (),
        VaultError,
    >)
        ensures
            is_step(
                old(self)@,
                after_resolving(old(self)@, text_result(result)),
                result,
                outcome,
                final(self)@,
            ),
            well_kept(final(self)@),
    {
        proof {
            use_type_invariant(&*self);
        }
        let mut progress = ReadProgress::empty();
        std::mem::swap(&mut progress, &mut self.progress);
        let outcome = progress.resolved(result);
        self.progress = progress;
        outcome
    }

    /// Takes in the size of the candidate's file. A file that does not fit into
    /// what may still be returned is skipped without being read.
    pub fn sized(&mut self, result: Result<u64, VaultError>) -> (outcome: Result<(), VaultError>)
        ensures
            is_step(
                old(self)@,
                after_sizing(old(self)@, size_result(result)),
                result,
                outcome,
                final(self)@,
            ),
            well_kept(final(self)@),
            old(self)@.next < old(self)@.inspected && old(self)@.stage is Size ==> (result matches Ok(
                size,
            ) ==> if size + content_size(old(self)@.notes) > old(self)@.max_bytes {
                final(self)@.next == old(self)@.next + 1 && final(self)@.skipped_count
                    == old(self)@.skipped_count + 1
            } else {
                final(self)@.next == old(self)@.next && final(self)@.stage is Read
                    && final(self)@.skipped_count == old(self)@.skipped_count
            }),
    {
        proof {
            use_type_invariant(&*self);
        }
        let mut progress = ReadProgress::empty();
        std::mem::swap(&mut progress, &mut self.progress);
        let outcome = progress.sized(result);
        self.progress = progress;
        outcome
    }

    /// Takes in the content of the candidate's file. Content that has grown beyond
    /// what may still be returned is skipped.
    pub fn read(&mut self, result: Result<String, VaultError>) -> (outcome: Result<(), VaultError>)
        ensures
            is_step(
                old(self)@,
                after_reading(old(self)@, text_result(result)),
                result,
                outcome,
                final(self)@,
            ),
            well_kept(final(self)@),
            old(self)@.next < old(self)@.inspected && old(self)@.stage is Read ==> (result matches Ok(
                content,
            ) ==> final(self)@.next == old(self)@.next + 1 && if encode_utf8(content@).len()
                + content_size(old(self)@.notes) > old(self)@.max_bytes {
                final(self)@.notes == old(self)@.notes
            } else {
                final(self)@.notes == old(self)@.notes.push(
                    ItemView { path: old(self)@.stage->Read_0, content: content@ },
                )
            }),
    {
        proof {
            use_type_invariant(&*self);
        }
        let mut progress = ReadProgress::empty();
        std::mem::swap(&mut progress, &mut self.progress);
        let outcome = progress.read(result);
        self.progress = progress;
        outcome
    }

    /// Ends a reading: the candidates that were not looked at, those beyond the file
    /// limit, are skipped too.
    pub fn finish(self) -> (output: NoteReadManyOutput)
        ensures
            well_kept(self@),
            item_views(output.notes@) == self@.notes,
            output.content_bytes == self@.content_bytes,
            output.skipped_count == self@.skipped_count + (self@.candidates.len() - self@.next),
            skipped_views(output.skipped@) == all_skipped(self@),
    {
        proof {
            use_type_invariant(&self);
        }
        self.progress.finish()
    }
}

/// The candidates of a range, skipped because of the file limit.
pub open spec fn limited(candidates: Seq<Seq<char>>, from: int, to: int) -> Seq<SkippedView> {
    Seq::new(
        (to - from) as nat,
        |i: int|
            SkippedView {
                path: candidates[from + i],
                reason: NoteReadManySkipReason::FileLimit,
            },
    )
}

/// The skipped notes of a finished reading, up to the number that is listed.
pub open spec fn all_skipped(s: SessionView) -> Seq<SkippedView> {
    let slots = MAX_SKIPPED_DETAILS - s.skipped.len();
    let rest = s.candidates.len() - s.next;
    s.skipped + limited(
        s.candidates,
        s.next as int,
        s.next + if rest < slots {
            rest
        } else {
            slots
        },
    )
}

/// A finished reading accounts for every candidate: each one is returned or
/// counted as skipped, the returned bytes are what is reported and within the
/// limit, and as many skipped notes are listed as the list holds.
pub proof fn finished_reading_accounts_for_all(s: SessionView)
    requires
        well_kept(s),
    ensures
        s.notes.len() + (s.skipped_count + (s.candidates.len() - s.next))
            == s.candidates.len(),
        content_size(s.notes) == s.content_bytes <= s.max_bytes,
        ({
            let count = s.skipped_count + (s.candidates.len() - s.next);
            all_skipped(s).len() == if count < MAX_SKIPPED_DETAILS {
                count
            } else {
                MAX_SKIPPED_DETAILS as int
            }
        }),
{
}

/// No file is read whose size exceeds what may still be returned, and nothing is
/// returned beyond the limit.
pub proof fn oversized_file_is_not_read(s: SessionView, path: Seq<char>, size: u64)
    requires
        s.stage == StageView::Size(path),
        size > remaining(s),
    ensures
        ({
            let after = skipping(s, path, NoteReadManySkipReason::ByteLimit);
            &&& after.notes == s.notes
            &&& after.content_bytes == s.content_bytes
            &&& after.stage is Resolve
            &&& after.next == s.next + 1
        }),
{
}

/// Notes are returned in the order of the candidates: what was returned before
/// stays in place.
pub proof fn returned_notes_keep_their_order(
    s: SessionView,
    path: Seq<char>,
    content: Seq<char>,
    reason: NoteReadManySkipReason,
)
    ensures
        s.notes.is_prefix_of(returning(s, path, content).notes),
        returning(s, path, content).notes.last() == (ItemView { path, content }),
        skipping(s, path, reason).notes == s.notes,
{
}

/// A candidate whose size was found is skipped because of the byte limit exactly
/// where its size and the bytes that were returned so far exceed the limit; otherwise
/// it is read.
pub proof fn byte_limit_counts_what_was_returned(s: SessionView, path: Seq<char>, size: u64)
    requires
        well_kept(s),
        s.next < s.inspected,
        s.stage == StageView::Size(path),
    ensures
        ({
            let after = after_sizing(s, Ok(size));
            &&& after is Some
            &&& after->0.notes == s.notes
            &&& after->0.candidates == s.candidates
            &&& after->0.inspected == s.inspected
            &&& after->0.max_bytes == s.max_bytes
            &&& after->0.content_bytes == s.content_bytes
            &&& if size + content_size(s.notes) > s.max_bytes {
                &&& after->0.next == s.next + 1
                &&& after->0.stage is Resolve
                &&& after->0.skipped_count == s.skipped_count + 1
                &&& s.skipped.len() < 100 ==> after->0.skipped == s.skipped.push(
                    SkippedView { path, reason: NoteReadManySkipReason::ByteLimit },
                )
            } else {
                &&& after->0.next == s.next
                &&& after->0.stage == StageView::Read(path)
                &&& after->0.skipped_count == s.skipped_count
                &&& after->0.skipped == s.skipped
            }
        }),
{
}

/// Content that was read is returned exactly where it fits, together with what was
/// returned so far, into the byte limit.
pub proof fn fitting_content_is_returned(s: SessionView, path: Seq<char>, content: Seq<char>)
    requires
        well_kept(s),
        s.next < s.inspected,
        s.stage == StageView::Read(path),
    ensures
        ({
            let after = after_reading(s, Ok(content));
            &&& after is Some
            &&& after->0.next == s.next + 1
            &&& after->0.stage is Resolve
            &&& after->0.candidates == s.candidates
            &&& after->0.inspected == s.inspected
            &&& after->0.max_bytes == s.max_bytes
            &&& if encode_utf8(content).len() + content_size(s.notes) > s.max_bytes {
                &&& after->0.notes == s.notes
                &&& after->0.content_bytes == s.content_bytes
                &&& after->0.skipped_count == s.skipped_count + 1
                &&& s.skipped.len() < 100 ==> after->0.skipped == s.skipped.push(
                    SkippedView { path, reason: NoteReadManySkipReason::ByteLimit },
                )
            } else {
                &&& after->0.notes == s.notes.push(ItemView { path, content })
                &&& after->0.content_bytes == s.content_bytes + encode_utf8(content).len()
                &&& after->0.skipped_count == s.skipped_count
                &&& after->0.skipped == s.skipped
            }
        }),
{
}

/// Looking for a candidate hands its actual path on; a missing candidate is skipped
/// as not found and an unreadable one as unreadable, under the path it was asked for
/// or found at. Any other error ends the reading.
pub proof fn file_errors_skip_the_candidate(s: SessionView, actual: Seq<char>, error: VaultErrorView)
    requires
        well_kept(s),
        s.next < s.inspected,
    ensures
        s.stage is Resolve ==> after_resolving(s, Ok(actual)) == Some(
            SessionView { stage: StageView::Size(actual), ..s },
        ),
        ({
            let (path, after) = match s.stage {
                StageView::Resolve => (s.candidates[s.next as int], after_resolving(s, Err(error))),
                StageView::Size(path) => (path, after_sizing(s, Err(error))),
                StageView::Read(path) => (path, after_reading(s, Err(error))),
            };
            if error is NoteNotFound || error is Io {
                &&& after is Some
                &&& after->0.next == s.next + 1
                &&& after->0.stage is Resolve
                &&& after->0.notes == s.notes
                &&& after->0.skipped_count == s.skipped_count + 1
                &&& s.skipped.len() < 100 ==> after->0.skipped == s.skipped.push(
                    SkippedView {
                        path,
                        reason: if error is NoteNotFound {
                            NoteReadManySkipReason::NotFound
                        } else {
                            NoteReadManySkipReason::Unreadable
                        },
                    },
                )
                &&& s.skipped.len() >= 100 ==> after->0.skipped == s.skipped
            } else {
                after is None
            }
        }),
{
}

/// What was not asked for changes nothing: once all candidates were looked at, and for
/// any answer to another question than the one that is open.
pub proof fn unasked_answers_are_ignored(
    s: SessionView,
    resolved: Result<Seq<char>, VaultErrorView>,
    sized: Result<u64, VaultErrorView>,
    read: Result<Seq<char>, VaultErrorView>,
)
    ensures
        s.next >= s.inspected || !(s.stage is Resolve) ==> after_resolving(s, resolved) == Some(s),
        s.next >= s.inspected || !(s.stage is Size) ==> after_sizing(s, sized) == Some(s),
        s.next >= s.inspected || !(s.stage is Read) ==> after_reading(s, read) == Some(s),
{
}

/// A file as a reading meets it.
pub struct FoundFile {
    pub path: Seq<char>,
    pub size: u64,
    pub content: Seq<char>,
}

/// A reading after files that could all be found and read.
pub open spec fn after_files(s: SessionView, files: Seq<FoundFile>) -> SessionView
    decreases files.len(),
{
    if files.len() == 0 {
        s
    } else {
        let file = files.last();
        let found = after_resolving(after_files(s, files.drop_last()), Ok(file.path));
        let sized = after_sizing(found->0, Ok(file.size));
        after_reading(sized->0, Ok(file.content))->0
    }
}

/// What the files hold.
pub open spec fn found_items(files: Seq<FoundFile>) -> Seq<ItemView> {
    files.map_values(|file: FoundFile| ItemView { path: file.path, content: file.content })
}

proof fn lemma_prefix_size(notes: Seq<ItemView>, n: int)
    requires
        0 <= n <= notes.len(),
    ensures
        content_size(notes.take(n)) <= content_size(notes),
    decreases notes.len() - n,
{
    if n < notes.len() {
        lemma_prefix_size(notes, n + 1);
        assert(notes.take(n + 1).drop_last() =~= notes.take(n));
    } else {
        assert(notes.take(n) =~= notes);
    }
}

proof fn lemma_files_return(
    candidates: Seq<Seq<char>>,
    max_files: nat,
    max_bytes: nat,
    files: Seq<FoundFile>,
    n: int,
)
    requires
        candidates.len() <= usize::MAX,
        files.len() == candidates.len() <= max_files,
        0 <= n <= files.len(),
        forall|i: int|
            0 <= i < files.len() ==> (#[trigger] files[i]).size == encode_utf8(files[i].content).len(),
        content_size(found_items(files)) <= max_bytes,
    ensures
        ({
            let s = after_files(started(candidates, max_files, max_bytes), files.take(n));
            &&& well_kept(s)
            &&& s.next == n
            &&& s.stage is Resolve
            &&& s.inspected == candidates.len()
            &&& s.max_bytes == max_bytes
            &&& s.candidates == candidates
            &&& s.notes == found_items(files).take(n)
            &&& s.skipped.len() == 0
            &&& s.skipped_count == 0
        }),
    decreases n,
{
    let items = found_items(files);
    if n == 0 {
        assert(items.take(0) =~= Seq::empty());
    } else {
        lemma_files_return(candidates, max_files, max_bytes, files, n - 1);
        let file = files[n - 1];
        assert(files.take(n).drop_last() =~= files.take(n - 1));
        assert(files.take(n).last() == file);
        lemma_prefix_size(items, n);
        assert(items.take(n).drop_last() =~= items.take(n - 1));
        assert(items.take(n) =~= items.take(n - 1).push(
            ItemView { path: file.path, content: file.content },
        ));
        let s = after_files(started(candidates, max_files, max_bytes), files.take(n - 1));
        let found = after_resolving(s, Ok(file.path))->0;
        byte_limit_counts_what_was_returned(found, file.path, file.size);
        let sized = after_sizing(found, Ok(file.size))->0;
        fitting_content_is_returned(sized, file.path, file.content);
        assert(s.notes.push(ItemView { path: file.path, content: file.content }).drop_last()
            =~= s.notes);
    }
}

/// Candidates within the file limit that can all be read, and whose sizes together are
/// within the byte limit, are all returned, in their order, and none is skipped.
pub proof fn candidates_within_the_limits_are_all_returned(
    candidates: Seq<Seq<char>>,
    max_files: nat,
    max_bytes: nat,
    files: Seq<FoundFile>,
)
    requires
        candidates.len() <= usize::MAX,
        files.len() == candidates.len() <= max_files,
        forall|i: int|
            0 <= i < files.len() ==> (#[trigger] files[i]).size == encode_utf8(files[i].content).len(),
        content_size(found_items(files)) <= max_bytes,
    ensures
        ({
            let s = after_files(started(candidates, max_files, max_bytes), files);
            &&& s.next == s.inspected == candidates.len()
            &&& s.notes.len() == files.len()
            &&& forall|i: int|
                0 <= i < files.len() ==> (#[trigger] s.notes[i]).path == files[i].path
                    && s.notes[i].content == files[i].content
            &&& s.skipped_count == 0
            &&& all_skipped(s).len() == 0
        }),
{
    lemma_files_return(candidates, max_files, max_bytes, files, files.len() as int);
    assert(files.take(files.len() as int) =~= files);
    assert(found_items(files).take(files.len() as int) =~= found_items(files));
}

/// The bytes of notes are counted in UTF-8, note by note.
pub proof fn content_sizes_add_up(notes: Seq<ItemView>, note: ItemView)
    ensures
        content_size(Seq::<ItemView>::empty()) == 0,
        content_size(notes.push(note)) == content_size(notes) + encode_utf8(note.content).len(),
{
    assert(notes.push(note).drop_last() =~= notes);
}

/// No more candidates are looked at than the file limit says, and none fewer; once
/// those were looked at, the others are skipped because of that limit, in their order
/// and as far as the list of 100 goes.
pub proof fn candidates_beyond_the_file_limit_are_skipped(
    candidates: Seq<Seq<char>>,
    max_files: nat,
    max_bytes: nat,
    s: SessionView,
    i: int,
)
    requires
        well_kept(s),
        s.next == s.inspected,
    ensures
        started(candidates, max_files, max_bytes).inspected <= max_files,
        started(candidates, max_files, max_bytes).inspected == candidates.len() || started(
            candidates,
            max_files,
            max_bytes,
        ).inspected == max_files,
        started(candidates, max_files, max_bytes).inspected <= candidates.len(),
        started(candidates, max_files, max_bytes).max_bytes == max_bytes,
        s.skipped.is_prefix_of(all_skipped(s)),
        s.inspected <= i < s.candidates.len() && s.skipped.len() + (i - s.inspected) < 100
            ==> all_skipped(s).len() > s.skipped.len() + (i - s.inspected) && all_skipped(
            s,
        )[s.skipped.len() + (i - s.inspected)] == (SkippedView {
            path: s.candidates[i],
            reason: NoteReadManySkipReason::FileLimit,
        }),
        all_skipped(s).len() <= 100,
{
}

/// The notes of a listing are its files with the extension `md`, in whatever case;
/// those of two listings one after the other are the notes of each.
pub proof fn listed_notes_are_markdown_files(
    files: Seq<ListedFile>,
    more: Seq<ListedFile>,
    file: ListedFile,
    windows: bool,
)
    ensures
        note_candidates(files + more, windows) == note_candidates(files, windows) + note_candidates(
            more,
            windows,
        ),
        note_candidates(seq![file], windows) == if file.is_file && (extension_of(
            file.path@,
            windows,
        ) matches Some(ext) && same_ignoring_case(ext, "md"@)) {
            seq![file.path@]
        } else {
            Seq::empty()
        },
    decreases more.len(),
{
    let one = seq![file];
    assert(one.drop_last() =~= Seq::empty());
    assert(note_candidates(one.drop_last(), windows) =~= Seq::empty());
    assert(note_candidates(one, windows) =~= if file.is_file && is_note_path(file.path@, windows) {
        seq![file.path@]
    } else {
        Seq::empty()
    });
    if more.len() == 0 {
        assert(files + more =~= files);
        assert(note_candidates(files + more, windows) =~= note_candidates(files, windows)
            + note_candidates(more, windows));
    } else {
        listed_notes_are_markdown_files(files, more.drop_last(), file, windows);
        assert((files + more).drop_last() =~= files + more.drop_last());
        assert(note_candidates(files + more, windows) =~= note_candidates(files, windows)
            + note_candidates(more, windows));
    }
}

proof fn lemma_first_invalid(paths: Seq<Seq<char>>, windows: bool, i: int)
    requires
        0 <= i <= paths.len(),
    ensures
        first_invalid_path(paths, windows, i) is None <==> forall|k: int|
            i <= k < paths.len() ==> normal_relative(#[trigger] paths[k], windows) is Some,
    decreases paths.len() - i,
{
    if i < paths.len() {
        lemma_first_invalid(paths, windows, i + 1);
    }
}

/// A request to read many notes is accepted exactly where its limits are not zero, it
/// names either 1 to 100 paths that stay inside the vault or a directory, and only a
/// directory comes with `recursive` or `glob`.
pub proof fn accepted_read_requests(params: NoteReadManyParams, windows: bool)
    ensures
        read_refusal(params, windows) is None <==> {
            &&& params.max_files != Some(0usize)
            &&& params.max_bytes != Some(0usize)
            &&& params.paths is Some <==> params.dir is None
            &&& params.paths is Some ==> params.recursive is None && params.glob is None
            &&& params.paths matches Some(paths) ==> 1 <= paths@.len() <= 100 && forall|i: int|
                0 <= i < paths@.len() ==> normal_relative((#[trigger] paths@[i])@, windows) is Some
        },
{
    if params.paths is Some {
        let paths = params.paths->0;
        let all = texts(paths@);
        lemma_first_invalid(all, windows, 0);
        assert forall|i: int| 0 <= i < paths@.len() implies (#[trigger] paths@[i])@ == all[i] by {}
        if read_refusal(params, windows) is None {
            assert forall|i: int| 0 <= i < paths@.len() implies normal_relative(
                (#[trigger] paths@[i])@,
                windows,
            ) is Some by {
                assert(normal_relative(all[i], windows) is Some);
            }
        } else if 1 <= paths@.len() <= 100 && forall|i: int|
            0 <= i < paths@.len() ==> normal_relative((#[trigger] paths@[i])@, windows) is Some {
            assert forall|k: int| 0 <= k < all.len() implies normal_relative(
                #[trigger] all[k],
                windows,
            ) is Some by {
                assert(all[k] == paths@[k]@);
            }
        }
    }
}

/// Where content is inserted.
#[derive(Debug, Clone, Copy, PartialEq, Eq, Structural)]
pub enum InsertPosition {
    End,
    Beginning,
}

/// The position that is meant, which is the end unless given.
pub open spec fn meant_position(position: Option<Seq<char>>) -> Seq<char> {
    match position {
        Some(text) => text,
        None => "end"@,
    }
}

/// Where content is inserted; an unknown position is refused.
pub fn insert_position(position: Option<&str>) -> (result: Result<InsertPosition, ToolError>)
    ensures
        ({
            let meant = meant_position(opt_str(position));
            match result {
                Ok(InsertPosition::End) => same_ignoring_case(meant, "end"@),
                Ok(InsertPosition::Beginning) => !same_ignoring_case(meant, "end"@)
                    && same_ignoring_case(meant, "beginning"@),
                Err(error) => !same_ignoring_case(meant, "end"@) && !same_ignoring_case(
                    meant,
                    "beginning"@,
                ) && error@ == invalid(
                    "Unknown position '"@ + meant
                        + "'. Valid values: \"end\", \"beginning\""@,
                ),
            }
        }),
{
    let meant = match position {
        Some(text) => text,
        None => "end",
    };
    if eq_ignoring_case(meant, "end") {
        Ok(InsertPosition::End)
    } else if eq_ignoring_case(meant, "beginning") {
        Ok(InsertPosition::Beginning)
    } else {
        Err(
            invalid_params(
                cat3(
                    "Unknown position '",
                    meant,
                    "'. Valid values: \"end\", \"beginning\"",
                ),
            ),
        )
    }
}

/// Whether a note may be deleted: only with confirmation.
pub fn check_deletion(params: &NoteDeleteParams) -> (result: Result<(), ToolError>)
    ensures
        match result {
            Ok(_) => params.confirm,
            Err(error) => !params.confirm && error@ == invalid(
                "Deletion requires `confirm: true` as a safety check"@,
            ),
        },
{
    if params.confirm {
        Ok(())
    } else {
        Err(invalid_params("Deletion requires `confirm: true` as a safety check".to_owned()))
    }
}

/// The patch that parameters ask for.
pub fn patch_request(params: NotePatchParams) -> (request: PatchRequest)
    ensures
        request.operation == params.operation,
        request.target_type == params.target_type,
        request.target == params.target,
        request.content == params.content,
{
    PatchRequest {
        operation: params.operation,
        target_type: params.target_type,
        target: params.target,
        content: params.content,
    }
}

/// What was done with a note.
#[derive(Debug, Clone, Copy, PartialEq, Eq, Structural)]
pub enum NoteChange {
    Created,
    Written,
    Inserted,
    Patched,
    Deleted,
    Moved,
}

/// The confirmation of a change to the note at `path`.
pub fn confirmation(change: NoteChange, path: &str) -> (text: String)
    ensures
        text@ == match change {
            NoteChange::Created => "Created note: "@,
            NoteChange::Written => "Written to: "@,
            NoteChange::Inserted => "Inserted into: "@,
            NoteChange::Patched => "Patched: "@,
            NoteChange::Deleted => "Deleted: "@,
            NoteChange::Moved => "Moved to: "@,
        } + path@,
{
    let lead = match change {
        NoteChange::Created => "Created note: ",
        NoteChange::Written => "Written to: ",
        NoteChange::Inserted => "Inserted into: ",
        NoteChange::Patched => "Patched: ",
        NoteChange::Deleted => "Deleted: ",
        NoteChange::Moved => "Moved to: ",
    };
    cat2(lead, path)
}

/// The initial body of a new note.
pub fn initial_content(params: &NoteCreateParams) -> (content: String)
    ensures
        content@ == match params.content {
            Some(text) => text@,
            None => Seq::<char>::empty(),
        },
{
    match &params.content {
        Some(text) => text.clone(),
        None => {
            let content = String::new();
            assert(content@ =~= Seq::<char>::empty());
            content
        },
    }
}

} // verus!
