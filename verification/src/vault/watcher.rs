//! What file system events mean for the notes of a vault.

use crate::error::{VaultError, VaultErrorView};
use crate::path::{
    components, extension, extension_of, has_hidden, invalid_relative_text, is_inside,
    is_path_before, is_visible_path, is_within, normal_relative, path_before,
    path_order_is_strict_and_total,
    path_order_is_transitive, relative_from_absolute, relative_to_root,
};
use crate::text::{cat4, eq_ignoring_case, opt_text, same_ignoring_case, texts};
use crate::vault::embedding_runtime::{EmbeddingRuntime, RuntimeView};
use crate::vault::runtime_state::{submitted, PendingKind, StateView};
use vstd::prelude::*;

verus! {

/// What kind of access an event reports.
#[derive(Debug, Clone, Copy, PartialEq, Eq, Structural)]
pub enum AccessEvent {
    /// The event reports something other than an access.
    NoAccess,
    /// A file that was open for writing was closed.
    CloseWrite,
    /// Any other access, such as opening a file to read it.
    Other,
}

/// Whether an event is dropped before it is debounced: an access that changed
/// nothing, unless the watcher lost track and asks for a new scan. Without this
/// the reads of the index would cause events of their own.
pub fn is_dropped_event(access: AccessEvent, need_rescan: bool) -> (dropped: bool)
    ensures
        dropped == (access == AccessEvent::Other && !need_rescan),
{
    access == AccessEvent::Other && !need_rescan
}

/// Whether a path names a Markdown file, by its extension.
pub open spec fn is_markdown(path: Seq<char>, windows: bool) -> bool {
    extension_of(path, windows) matches Some(ext) && same_ignoring_case(ext, "md"@)
}

/// Whether an absolute path is that of a visible note of the vault.
pub open spec fn is_note_event(root: Seq<char>, absolute: Seq<char>, windows: bool) -> bool {
    relative_to_root(root, absolute, windows) matches Some(relative) && !has_hidden(
        components(relative, windows),
    ) && is_markdown(relative, windows)
}

/// The path of an event relative to the vault, with the spelling of the event.
pub fn normalized_relative_path(vault_root: &str, absolute: &str, windows: bool) -> (relative: Option<
    String,
>)
    ensures
        opt_text(relative) == relative_to_root(vault_root@, absolute@, windows),
{
    match relative_from_absolute(vault_root, absolute, windows) {
        Ok(relative) => Some(relative),
        Err(_) => None,
    }
}

/// Whether an event is about a visible note of the vault.
pub fn should_process_path(vault_root: &str, absolute: &str, windows: bool) -> (process: bool)
    ensures
        process == is_note_event(vault_root@, absolute@, windows),
{
    match normalized_relative_path(vault_root, absolute, windows) {
        Some(relative) => is_visible_path(relative.as_str(), windows) && match extension(
            relative.as_str(),
            windows,
        ) {
            Some(ext) => eq_ignoring_case(ext.as_str(), "md"),
            None => false,
        },
        None => false,
    }
}

/// Whether the walk of a directory goes on into an entry: into the directory
/// itself and into whatever is not hidden.
pub fn walks_into(is_top: bool, name: &str, windows: bool) -> (walk: bool)
    ensures
        walk == (is_top || !has_hidden(components(name@, windows))),
{
    is_top || is_visible_path(name, windows)
}

/// What is to be looked at for an event.
#[derive(Debug)]
pub enum EventPlan {
    /// The path is not inside the vault.
    Invalid(VaultError),
    /// The path is hidden.
    Nothing,
    /// The event is about this note alone.
    Note(String),
    /// The path is a directory: its files and the known notes below it.
    Directory(String),
    /// The path is gone or is no note: the known notes below it, and the note
    /// itself where the path is that of one.
    Gone { relative: String, note: bool },
}

/// What is to be looked at for an event, with texts as characters.
pub enum PlanView {
    Invalid(VaultErrorView),
    Nothing,
    Note(Seq<char>),
    Directory(Seq<char>),
    Gone { relative: Seq<char>, note: bool },
}

impl View for EventPlan {
    type V = PlanView;

    open spec fn view(&self) -> PlanView {
        match self {
            EventPlan::Invalid(error) => PlanView::Invalid(error@),
            EventPlan::Nothing => PlanView::Nothing,
            EventPlan::Note(path) => PlanView::Note(path@),
            EventPlan::Directory(path) => PlanView::Directory(path@),
            EventPlan::Gone { relative, note } => PlanView::Gone { relative: relative@, note: *note },
        }
    }
}

/// What is to be looked at for an event on `absolute`, which is a file or a
/// directory or neither, and which the index knows as a note or not.
pub open spec fn event_plan(
    root: Seq<char>,
    absolute: Seq<char>,
    is_file: bool,
    is_dir: bool,
    indexed: bool,
    windows: bool,
) -> PlanView {
    match relative_to_root(root, absolute, windows) {
        None => PlanView::Invalid(VaultErrorView::InvalidPath(invalid_relative_text(absolute))),
        Some(relative) => if has_hidden(components(relative, windows)) {
            PlanView::Nothing
        } else if is_note_event(root, absolute, windows) && (is_file || indexed) {
            PlanView::Note(relative)
        } else if is_dir {
            PlanView::Directory(relative)
        } else {
            PlanView::Gone { relative, note: is_note_event(root, absolute, windows) }
        },
    }
}

/// What is to be looked at for an event.
pub fn plan_event(
    vault_root: &str,
    absolute: &str,
    is_file: bool,
    is_dir: bool,
    indexed: bool,
    windows: bool,
) -> (plan: EventPlan)
    ensures
        plan@ == event_plan(vault_root@, absolute@, is_file, is_dir, indexed, windows),
        plan is Invalid <==> relative_to_root(vault_root@, absolute@, windows) is None,
        plan is Nothing <==> (relative_to_root(vault_root@, absolute@, windows) matches Some(relative)
            && has_hidden(components(relative, windows))),
        plan is Note <==> is_note_event(vault_root@, absolute@, windows) && (is_file || indexed),
{
    match relative_from_absolute(vault_root, absolute, windows) {
        Err(error) => EventPlan::Invalid(error),
        Ok(relative) => {
            if !is_visible_path(relative.as_str(), windows) {
                return EventPlan::Nothing;
            }
            let note = should_process_path(vault_root, absolute, windows);
            if note && (is_file || indexed) {
                EventPlan::Note(relative)
            } else if is_dir {
                EventPlan::Directory(relative)
            } else {
                EventPlan::Gone { relative, note }
            }
        },
    }
}

/// An entry met on the walk of a directory.
#[derive(Debug)]
pub enum WalkEntry {
    /// A file at an absolute path.
    File(String),
    /// A directory or something else that is no file.
    Other,
    /// The walk failed.
    Failed(String),
}

/// Whether paths are distinct and in path order.
pub open spec fn strictly_path_sorted(list: Seq<Seq<char>>, windows: bool) -> bool {
    forall|i: int, j: int|
        0 <= i < j < list.len() ==> path_before(#[trigger] list[i], #[trigger] list[j], windows)
}

/// Whether a list of paths holds the same path as `path`, however spelled.
pub open spec fn holds_path(list: Seq<Seq<char>>, path: Seq<char>, windows: bool) -> bool {
    exists|i: int|
        0 <= i < list.len() && components(#[trigger] list[i], windows) == components(path, windows)
}

/// Whether `list` is the ascending list of the paths that satisfy `wanted`: it
/// holds each of them, in one of its spellings, and nothing else.
pub open spec fn lists_paths(
    list: Seq<Seq<char>>,
    wanted: spec_fn(Seq<char>) -> bool,
    windows: bool,
) -> bool {
    &&& strictly_path_sorted(list, windows)
    &&& forall|i: int| 0 <= i < list.len() ==> wanted(#[trigger] list[i])
    &&& forall|path: Seq<char>| #[trigger] wanted(path) ==> holds_path(list, path, windows)
}

fn insert_path(list: &mut Vec<String>, path: String, windows: bool)
    requires
        strictly_path_sorted(texts(old(list)@), windows),
    ensures
        strictly_path_sorted(texts(final(list)@), windows),
        forall|i: int|
            0 <= i < texts(final(list)@).len() ==> #[trigger] texts(final(list)@)[i] == path@
                || texts(old(list)@).contains(texts(final(list)@)[i]),
        forall|other: Seq<char>|
            holds_path(texts(old(list)@), other, windows) ==> #[trigger] holds_path(
                texts(final(list)@),
                other,
                windows,
            ),
        holds_path(texts(final(list)@), path@, windows),
{
    let ghost first = texts(list@);
    let mut i: usize = 0;
    while i < list.len() && is_path_before(list[i].as_str(), path.as_str(), windows)
        invariant
            i <= list@.len(),
            first == texts(list@),
            forall|k: int| 0 <= k < i ==> path_before(#[trigger] first[k], path@, windows),
        decreases list@.len() - i,
    {
        i += 1;
    }
    if i < list.len() && !is_path_before(path.as_str(), list[i].as_str(), windows) {
        proof {
            path_order_is_strict_and_total(first[i as int], path@, windows);
            assert(holds_path(first, path@, windows));
            assert forall|k: int| 0 <= k < first.len() implies first.contains(#[trigger] first[k]) by {}
        }
        return;
    }
    let ghost text = path@;
    list.insert(i, path);
    proof {
        let after = texts(list@);
        assert(after =~= first.insert(i as int, text));
        assert forall|p: int, q: int| 0 <= p < q < after.len() implies path_before(
            #[trigger] after[p],
            #[trigger] after[q],
            windows,
        ) by {
            if p < i && q > i {
                assert(path_before(first[p], first[q - 1], windows));
            } else if p == i {
                if q - 1 > i {
                    assert(path_before(first[i as int], first[q - 1], windows));
                    path_order_is_transitive(text, first[i as int], first[q - 1], windows);
                }
            } else if p > i {
                assert(path_before(first[p - 1], first[q - 1], windows));
            } else if q < i {
                assert(path_before(first[p], first[q], windows));
            }
        }
        assert(after[i as int] == text);
        assert(holds_path(after, text, windows));
        assert forall|k: int| 0 <= k < after.len() implies #[trigger] after[k] == text
            || first.contains(after[k]) by {
            if k < i {
                assert(first[k] == after[k]);
            } else if k > i {
                assert(first[k - 1] == after[k]);
            }
        }
        assert forall|other: Seq<char>|
            holds_path(first, other, windows) implies #[trigger] holds_path(
            after,
            other,
            windows,
        ) by {
            let k = choose|k: int|
                0 <= k < first.len() && components(#[trigger] first[k], windows) == components(
                    other,
                    windows,
                );
            if k < i {
                assert(after[k] == first[k]);
            } else {
                assert(after[k + 1] == first[k]);
            }
        }
    }
}

/// Whether `path` is one of the known paths below `relative`.
pub open spec fn is_known_below(
    known_paths: Seq<Seq<char>>,
    relative: Seq<char>,
    path: Seq<char>,
    windows: bool,
) -> bool {
    known_paths.contains(path) && is_within(path, relative, windows)
}

/// Whether `path` is that of a note that the walk of a directory met.
pub open spec fn is_walked_note(
    root: Seq<char>,
    walk: Seq<WalkEntry>,
    path: Seq<char>,
    windows: bool,
) -> bool {
    exists|i: int|
        0 <= i < walk.len() && #[trigger] walked_note(root, walk[i], windows) == Some(path)
}

/// The note that an entry of a walk is.
pub open spec fn walked_note(root: Seq<char>, entry: WalkEntry, windows: bool) -> Option<Seq<char>> {
    match entry {
        WalkEntry::File(absolute) => if is_note_event(root, absolute@, windows) {
            relative_to_root(root, absolute@, windows)
        } else {
            None
        },
        _ => None,
    }
}

/// The first failure of a walk.
pub open spec fn walk_failure(walk: Seq<WalkEntry>) -> Option<Seq<char>>
    decreases walk.len(),
{
    if walk.len() == 0 {
        None
    } else {
        match walk[0] {
            WalkEntry::Failed(error) => Some(error@),
            _ => walk_failure(walk.drop_first()),
        }
    }
}

/// Whether `path` is to be refreshed for an event on `relative`.
pub open spec fn is_event_path(
    root: Seq<char>,
    plan: PlanView,
    known_paths: Seq<Seq<char>>,
    walk: Seq<WalkEntry>,
    path: Seq<char>,
    windows: bool,
) -> bool {
    match plan {
        PlanView::Invalid(_) => false,
        PlanView::Nothing => false,
        PlanView::Note(relative) => path == relative,
        PlanView::Directory(relative) => is_known_below(known_paths, relative, path, windows)
            || is_walked_note(root, walk, path, windows),
        PlanView::Gone { relative, note } => is_known_below(known_paths, relative, path, windows)
            || (note && path == relative),
    }
}

/// The error of an event, where there is one: a path outside the vault, a
/// directory that does not resolve inside it, or a walk that failed.
pub open spec fn event_fault(
    plan: PlanView,
    resolved: Option<VaultErrorView>,
    walk: Seq<WalkEntry>,
) -> Option<VaultErrorView> {
    match plan {
        PlanView::Invalid(error) => Some(error),
        PlanView::Directory(relative) => if resolved is Some {
            resolved
        } else {
            match walk_failure(walk) {
                Some(error) => Some(
                    VaultErrorView::Watcher("cannot reconcile "@ + relative + ": "@ + error),
                ),
                None => None,
            }
        },
        _ => None,
    }
}

fn known_below(known_paths: &Vec<String>, relative: &str, windows: bool) -> (list: Vec<String>)
    ensures
        lists_paths(
            texts(list@),
            |path: Seq<char>| is_known_below(texts(known_paths@), relative@, path, windows),
            windows,
        ),
{
    let mut list: Vec<String> = Vec::new();
    let ghost all = texts(known_paths@);
    let mut i: usize = 0;
    assert(texts(list@) =~= Seq::empty());
    while i < known_paths.len()
        invariant
            i <= known_paths@.len(),
            all == texts(known_paths@),
            strictly_path_sorted(texts(list@), windows),
            forall|k: int|
                0 <= k < texts(list@).len() ==> is_known_below(
                    all,
                    relative@,
                    #[trigger] texts(list@)[k],
                    windows,
                ),
            forall|k: int|
                0 <= k < i && is_within(all[k], relative@, windows) ==> holds_path(
                    texts(list@),
                    #[trigger] all[k],
                    windows,
                ),
        decreases known_paths@.len() - i,
    {
        let ghost before_list = texts(list@);
        assert(all[i as int] == known_paths@[i as int]@);
        if is_inside(known_paths[i].as_str(), relative, windows) {
            insert_path(&mut list, known_paths[i].clone(), windows);
            proof {
                let after = texts(list@);
                assert(all.contains(all[i as int]));
                assert forall|k: int| 0 <= k < after.len() implies is_known_below(
                    all,
                    relative@,
                    #[trigger] after[k],
                    windows,
                ) by {
                    if after[k] != all[i as int] {
                        let m = choose|m: int| 0 <= m < before_list.len() && before_list[m] == after[k];
                        assert(is_known_below(all, relative@, before_list[m], windows));
                    }
                }
                assert forall|k: int|
                    0 <= k < i + 1 && is_within(all[k], relative@, windows) implies holds_path(
                    after,
                    #[trigger] all[k],
                    windows,
                ) by {
                    if k < i {
                        assert(holds_path(before_list, all[k], windows));
                    }
                }
            }
        }
        i += 1;
    }
    assert forall|path: Seq<char>| is_known_below(all, relative@, path, windows) implies holds_path(
        texts(list@),
        path,
        windows,
    ) by {
        let k = choose|k: int| 0 <= k < all.len() && all[k] == path;
        assert(holds_path(texts(list@), all[k], windows));
    }
    list
}

/// The paths to refresh for an event, in path order: `known_paths` holds the paths
/// that the index knows, `resolved` tells whether a directory resolves inside
/// the vault, and `walk` lists its entries. Only a plan for a directory reads
/// the last two.
pub fn event_paths(
    vault_root: &str,
    plan: EventPlan,
    known_paths: &Vec<String>,
    resolved: Option<VaultError>,
    walk: &Vec<WalkEntry>,
    windows: bool,
) -> (result: Result<Vec<String>, VaultError>)
    ensures
        match result {
            Err(error) => event_fault(plan@, opt_error(resolved), walk@) == Some(error@),
            Ok(paths) => {
                &&& event_fault(plan@, opt_error(resolved), walk@) is None
                &&& lists_paths(
                    texts(paths@),
                    |path: Seq<char>|
                        is_event_path(vault_root@, plan@, texts(known_paths@), walk@, path, windows),
                        windows,
                )
            },
        },
{
    let ghost root = vault_root@;
    let ghost known = texts(known_paths@);
    let ghost view = plan@;
    let ghost wanted = |path: Seq<char>| is_event_path(root, view, known, walk@, path, windows);
    match plan {
        EventPlan::Invalid(error) => Err(error),
        EventPlan::Nothing => {
            let list: Vec<String> = Vec::new();
            assert(texts(list@) =~= Seq::empty());
            Ok(list)
        },
        EventPlan::Note(relative) => {
            let mut list: Vec<String> = Vec::new();
            let ghost text = relative@;
            list.push(relative);
            assert(texts(list@) =~= seq![text]);
            assert(texts(list@)[0] == text);
            assert(holds_path(texts(list@), text, windows));
            Ok(list)
        },
        EventPlan::Gone { relative, note } => {
            let mut list = known_below(known_paths, relative.as_str(), windows);
            let ghost before_list = texts(list@);
            let ghost text = relative@;
            proof {
                assert forall|path: Seq<char>|
                    is_known_below(known, text, path, windows) implies holds_path(
                    before_list,
                    path,
                    windows,
                ) by {
                    let was = |p: Seq<char>| is_known_below(known, text, p, windows);
                    assert(was(path));
                }
            }
            if note {
                insert_path(&mut list, relative, windows);
                proof {
                    let after = texts(list@);
                    assert forall|k: int| 0 <= k < after.len() implies wanted(#[trigger] after[k]) by {
                        if after[k] != text {
                            let m = choose|m: int|
                                0 <= m < before_list.len() && before_list[m] == after[k];
                            let was = |p: Seq<char>| is_known_below(known, text, p, windows);
                            assert(was(before_list[m]));
                        }
                    }
                    assert forall|path: Seq<char>| #[trigger] wanted(path) implies holds_path(
                        after,
                        path,
                        windows,
                    ) by {
                        if path != text {
                            assert(holds_path(before_list, path, windows));
                        }
                    }
                }
            }
            Ok(list)
        },
        EventPlan::Directory(relative) => {
            match resolved {
                Some(error) => {
                    return Err(error);
                },
                None => {},
            }
            let mut list = known_below(known_paths, relative.as_str(), windows);
            proof {
                assert forall|path: Seq<char>|
                    is_known_below(known, relative@, path, windows) implies #[trigger] holds_path(
                    texts(list@),
                    path,
                    windows,
                ) by {
                    let was = |p: Seq<char>| is_known_below(known, relative@, p, windows);
                    assert(was(path));
                }
                assert forall|k: int| 0 <= k < texts(list@).len() implies wanted(
                    #[trigger] texts(list@)[k],
                ) by {
                    let was = |p: Seq<char>| is_known_below(known, relative@, p, windows);
                    assert(was(texts(list@)[k]));
                }
            }
            let mut i: usize = 0;
            assert(walk@.skip(0) =~= walk@);
            while i < walk.len()
                invariant
                    i <= walk@.len(),
                    root == vault_root@,
                    view == PlanView::Directory(relative@),
                    view == plan@,
                    opt_error(resolved) is None,
                    wanted == (|path: Seq<char>|
                        is_event_path(root, view, known, walk@, path, windows)),
                    walk_failure(walk@) == walk_failure(walk@.skip(i as int)),
                    strictly_path_sorted(texts(list@), windows),
                    forall|k: int|
                        0 <= k < texts(list@).len() ==> wanted(#[trigger] texts(list@)[k]),
                    forall|path: Seq<char>|
                        is_known_below(known, relative@, path, windows) ==> #[trigger] holds_path(
                            texts(list@),
                            path,
                            windows,
                        ),
                    forall|k: int|
                        0 <= k < i && (#[trigger] walked_note(root, walk@[k], windows)) is Some
                            ==> holds_path(
                            texts(list@),
                            walked_note(root, walk@[k], windows)->0,
                            windows,
                        ),
                decreases walk@.len() - i,
            {
                let ghost before_list = texts(list@);
                assert(walk@.skip(i as int)[0] == walk@[i as int]);
                assert(walk@.skip(i as int).drop_first() =~= walk@.skip(i + 1));
                match &walk[i] {
                    WalkEntry::Failed(error) => {
                        return Err(
                            VaultError::Watcher(
                                cat4("cannot reconcile ", relative.as_str(), ": ", error.as_str()),
                            ),
                        );
                    },
                    WalkEntry::Other => {},
                    WalkEntry::File(absolute) => {
                        if should_process_path(vault_root, absolute.as_str(), windows) {
                            match normalized_relative_path(vault_root, absolute.as_str(), windows) {
                                Some(path) => {
                                    let ghost text = path@;
                                    assert(walked_note(root, walk@[i as int], windows) == Some(text));
                                    assert(is_walked_note(root, walk@, text, windows));
                                    insert_path(&mut list, path, windows);
                                    proof {
                                        let after = texts(list@);
                                        assert forall|k: int| 0 <= k < after.len() implies wanted(
                                            #[trigger] after[k],
                                        ) by {
                                            if after[k] != text {
                                                let m = choose|m: int|
                                                    0 <= m < before_list.len() && before_list[m]
                                                        == after[k];
                                                assert(wanted(before_list[m]));
                                            }
                                        }
                                        assert forall|k: int|
                                            0 <= k < i + 1 && (#[trigger] walked_note(
                                                root,
                                                walk@[k],
                                                windows,
                                            )) is Some implies holds_path(
                                            after,
                                            walked_note(root, walk@[k], windows)->0,
                                            windows,
                                        ) by {
                                            if k < i {
                                                assert(holds_path(
                                                    before_list,
                                                    walked_note(root, walk@[k], windows)->0,
                                                    windows,
                                                ));
                                            }
                                        }
                                    }
                                },
                                None => {},
                            }
                        }
                    },
                }
                i += 1;
            }
            assert(walk_failure(walk@.skip(i as int)) is None);
            assert forall|path: Seq<char>| #[trigger] wanted(path) implies holds_path(
                texts(list@),
                path,
                windows,
            ) by {
                if !is_known_below(known, relative@, path, windows) {
                    let k = choose|k: int|
                        0 <= k < walk@.len() && #[trigger] walked_note(root, walk@[k], windows)
                            == Some(path);
                    assert(holds_path(texts(list@), walked_note(root, walk@[k], windows)->0, windows));
                }
            }
            Ok(list)
        },
    }
}

/// An optional error.
pub open spec fn opt_error(error: Option<VaultError>) -> Option<VaultErrorView> {
    match error {
        Some(e) => Some(e@),
        None => None,
    }
}

/// The pending work after the first `n` refreshed paths: a note that is now in
/// the index is to be embedded, any other path loses its embedding.
pub open spec fn after_refresh(
    state: StateView,
    paths: Seq<Seq<char>>,
    indexed: Seq<bool>,
    now: u64,
    n: int,
    windows: bool,
) -> StateView
    decreases n,
{
    if n <= 0 {
        state
    } else {
        submitted(
            after_refresh(state, paths, indexed, now, n - 1, windows),
            paths[n - 1],
            if indexed[n - 1] {
                PendingKind::Upsert
            } else {
                PendingKind::Remove
            },
            now,
            windows,
        )
    }
}

/// Hands the refreshed paths of an event to the embedding runtime; `indexed`
/// tells for each whether the index holds it after the refresh.
pub fn submit_event(
    runtime: &mut EmbeddingRuntime,
    paths: &Vec<String>,
    indexed: &Vec<bool>,
    now: u64,
    windows: bool,
)
    requires
        paths@.len() == indexed@.len(),
    ensures
        final(runtime)@ == (RuntimeView {
            state: after_refresh(
                old(runtime)@.state,
                texts(paths@),
                indexed@,
                now,
                paths@.len() as int,
                windows,
            ),
            ..old(runtime)@
        }),
{
    let mut i: usize = 0;
    while i < paths.len()
        invariant
            i <= paths@.len() == indexed@.len(),
            runtime@ == (RuntimeView {
                state: after_refresh(
                    old(runtime)@.state,
                    texts(paths@),
                    indexed@,
                    now,
                    i as int,
                    windows,
                ),
                ..old(runtime)@
            }),
        decreases paths@.len() - i,
    {
        assert(texts(paths@)[i as int] == paths@[i as int]@);
        if indexed[i] {
            runtime.submit_upsert(paths[i].as_str(), now, windows);
        } else {
            runtime.submit_remove(paths[i].as_str(), now, windows);
        }
        i += 1;
    }
}

/// Whether the text index has to be flushed after an event: where there is one
/// and something was refreshed.
pub fn process_event(has_text_index: bool, paths: &Vec<String>) -> (flush: bool)
    ensures
        flush == (has_text_index && paths@.len() > 0),
{
    has_text_index && paths.len() > 0
}

/// An event on a visible Markdown path of the vault always refreshes that path,
/// whether or not the file is still there and whether or not the index knows it;
/// only a directory that bears such a name is walked instead.
pub proof fn note_events_refresh_the_note(
    root: Seq<char>,
    absolute: Seq<char>,
    relative: Seq<char>,
    ext: Seq<char>,
    is_file: bool,
    is_dir: bool,
    indexed: bool,
    known_paths: Seq<Seq<char>>,
    resolved: Option<VaultErrorView>,
    walk: Seq<WalkEntry>,
    list: Seq<Seq<char>>,
    windows: bool,
)
    requires
        relative_to_root(root, absolute, windows) == Some(relative),
        !has_hidden(components(relative, windows)),
        extension_of(relative, windows) == Some(ext),
        same_ignoring_case(ext, "md"@),
        !is_dir || is_file || indexed,
        lists_paths(
            list,
            |path: Seq<char>|
                is_event_path(
                    root,
                    event_plan(root, absolute, is_file, is_dir, indexed, windows),
                    known_paths,
                    walk,
                    path,
                    windows,
                ),
            windows,
        ),
    ensures
        event_fault(
            event_plan(root, absolute, is_file, is_dir, indexed, windows),
            resolved,
            walk,
        ) is None,
        is_event_path(
            root,
            event_plan(root, absolute, is_file, is_dir, indexed, windows),
            known_paths,
            walk,
            relative,
            windows,
        ),
        exists|i: int|
            0 <= i < list.len() && components(#[trigger] list[i], windows) == components(
                relative,
                windows,
            ),
{
    let wanted = |path: Seq<char>|
        is_event_path(
            root,
            event_plan(root, absolute, is_file, is_dir, indexed, windows),
            known_paths,
            walk,
            path,
            windows,
        );
    assert(wanted(relative));
    assert(holds_path(list, relative, windows));
}

/// An event refreshes every known path below its own: a removed or renamed directory
/// leaves no note of it behind in the index.
pub proof fn events_refresh_known_paths_below(
    root: Seq<char>,
    absolute: Seq<char>,
    relative: Seq<char>,
    is_file: bool,
    is_dir: bool,
    indexed: bool,
    known_paths: Seq<Seq<char>>,
    walk: Seq<WalkEntry>,
    path: Seq<char>,
    windows: bool,
)
    requires
        relative_to_root(root, absolute, windows) == Some(relative),
        !has_hidden(components(relative, windows)),
        !is_file && !indexed,
        known_paths.contains(path),
        is_within(path, relative, windows),
    ensures
        is_event_path(
            root,
            event_plan(root, absolute, is_file, is_dir, indexed, windows),
            known_paths,
            walk,
            path,
            windows,
        ),
{
}

/// An event on a directory refreshes each visible Markdown file that its walk met.
pub proof fn directory_events_refresh_walked_notes(
    root: Seq<char>,
    absolute: Seq<char>,
    relative: Seq<char>,
    known_paths: Seq<Seq<char>>,
    walk: Seq<WalkEntry>,
    i: int,
    found: Seq<char>,
    ext: Seq<char>,
    windows: bool,
)
    requires
        relative_to_root(root, absolute, windows) == Some(relative),
        !has_hidden(components(relative, windows)),
        0 <= i < walk.len(),
        walk[i] is File,
        relative_to_root(root, walk[i]->File_0@, windows) == Some(found),
        !has_hidden(components(found, windows)),
        extension_of(found, windows) == Some(ext),
        same_ignoring_case(ext, "md"@),
    ensures
        is_event_path(
            root,
            event_plan(root, absolute, false, true, false, windows),
            known_paths,
            walk,
            found,
            windows,
        ),
{
    assert(walked_note(root, walk[i], windows) == Some(found));
}

/// An event refreshes nothing only where its path is hidden, or where no known path
/// is below it and it is no note or a directory without notes.
pub proof fn events_without_refresh_concern_no_note(
    root: Seq<char>,
    absolute: Seq<char>,
    relative: Seq<char>,
    is_file: bool,
    is_dir: bool,
    indexed: bool,
    known_paths: Seq<Seq<char>>,
    walk: Seq<WalkEntry>,
    path: Seq<char>,
    windows: bool,
)
    requires
        relative_to_root(root, absolute, windows) == Some(relative),
        forall|other: Seq<char>|
            !#[trigger] is_event_path(
                root,
                event_plan(root, absolute, is_file, is_dir, indexed, windows),
                known_paths,
                walk,
                other,
                windows,
            ),
    ensures
        has_hidden(components(relative, windows)) || {
            &&& known_paths.contains(path) ==> !is_within(path, relative, windows)
            &&& is_dir && !is_file && !indexed || !(extension_of(relative, windows) matches Some(ext)
                && same_ignoring_case(ext, "md"@))
        },
{
    assert(!is_event_path(
        root,
        event_plan(root, absolute, is_file, is_dir, indexed, windows),
        known_paths,
        walk,
        relative,
        windows,
    ));
    assert(!is_event_path(
        root,
        event_plan(root, absolute, is_file, is_dir, indexed, windows),
        known_paths,
        walk,
        path,
        windows,
    ));
}

/// What an event refreshes is its own path, a known path below it, or a visible
/// Markdown file that a walk met; hidden paths and paths outside the vault refresh
/// nothing, and the latter are errors.
pub proof fn events_refresh_nothing_else(
    root: Seq<char>,
    absolute: Seq<char>,
    is_file: bool,
    is_dir: bool,
    indexed: bool,
    known_paths: Seq<Seq<char>>,
    resolved: Option<VaultErrorView>,
    walk: Seq<WalkEntry>,
    path: Seq<char>,
    windows: bool,
)
    ensures
        ({
            let plan = event_plan(root, absolute, is_file, is_dir, indexed, windows);
            &&& is_event_path(root, plan, known_paths, walk, path, windows) ==> {
                &&& relative_to_root(root, absolute, windows) matches Some(relative)
                &&& !has_hidden(components(relative, windows))
                &&& path == relative || (known_paths.contains(path) && is_within(
                    path,
                    relative,
                    windows,
                )) || (is_dir && exists|i: int|
                    0 <= i < walk.len() && (#[trigger] walk[i]) is File && relative_to_root(
                        root,
                        walk[i]->File_0@,
                        windows,
                    ) == Some(path) && !has_hidden(components(path, windows)))
            }
            &&& relative_to_root(root, absolute, windows) is None ==> event_fault(
                plan,
                resolved,
                walk,
            ) == Some(VaultErrorView::InvalidPath(invalid_relative_text(absolute)))
            &&& event_fault(plan, resolved, walk) is Some ==> relative_to_root(
                root,
                absolute,
                windows,
            ) is None || is_dir
        }),
{
    let plan = event_plan(root, absolute, is_file, is_dir, indexed, windows);
    if is_event_path(root, plan, known_paths, walk, path, windows) && is_walked_note(
        root,
        walk,
        path,
        windows,
    ) {
        let i = choose|i: int|
            0 <= i < walk.len() && #[trigger] walked_note(root, walk[i], windows) == Some(path);
        assert(walk[i] is File);
    }
}

/// A walk fails exactly where one of its entries did, and the first failure counts.
pub proof fn first_walk_failure_counts(walk: Seq<WalkEntry>)
    ensures
        walk_failure(walk) is None <==> forall|i: int|
            0 <= i < walk.len() ==> !((#[trigger] walk[i]) is Failed),
        walk_failure(walk) matches Some(error) ==> exists|i: int|
            0 <= i < walk.len() && (#[trigger] walk[i] matches WalkEntry::Failed(text) && text@ == error)
                && forall|k: int| 0 <= k < i ==> !((#[trigger] walk[k]) is Failed),
    decreases walk.len(),
{
    if walk.len() > 0 {
        let rest = walk.drop_first();
        first_walk_failure_counts(rest);
        assert forall|i: int| 1 <= i < walk.len() implies #[trigger] walk[i] == rest[i - 1] by {}
        if walk[0] is Failed {
            assert(walk[0] is Failed);
        } else if walk_failure(rest) is Some {
            let i = choose|i: int|
                0 <= i < rest.len() && (#[trigger] rest[i] matches WalkEntry::Failed(text) && text@
                    == walk_failure(rest)->0) && forall|k: int|
                    0 <= k < i ==> !((#[trigger] rest[k]) is Failed);
            assert(walk[i + 1] == rest[i]);
            assert forall|k: int| 0 <= k < i + 1 implies !((#[trigger] walk[k]) is Failed) by {
                if k > 0 {
                    assert(walk[k] == rest[k - 1]);
                }
            }
        } else {
            assert forall|i: int| 0 <= i < walk.len() implies !((#[trigger] walk[i]) is Failed) by {
                if i > 0 {
                    assert(walk[i] == rest[i - 1]);
                }
            }
        }
    }
}

/// After an event each refreshed note is pending: to be embedded where the index holds it
/// now, and to be removed where it does not. The last word on a note counts.
pub proof fn refreshed_notes_are_submitted(
    state: StateView,
    paths: Seq<Seq<char>>,
    indexed: Seq<bool>,
    now: u64,
    n: int,
    normal: Seq<char>,
    windows: bool,
)
    requires
        0 <= n < paths.len() == indexed.len(),
        normal_relative(paths[n], windows) == Some(normal),
        normal.len() > 0,
    ensures
        after_refresh(state, paths, indexed, now, 0, windows) == state,
        ({
            let earlier = after_refresh(state, paths, indexed, now, n, windows);
            let after = after_refresh(state, paths, indexed, now, n + 1, windows);
            &&& after.pending.contains_key(normal)
            &&& after.pending[normal].kind == if indexed[n] {
                PendingKind::Upsert
            } else {
                PendingKind::Remove
            }
            &&& after.pending[normal].not_before == now
            &&& forall|other: Seq<char>|
                other != normal ==> (#[trigger] after.pending.contains_key(other)
                    <==> earlier.pending.contains_key(other)) && (earlier.pending.contains_key(other)
                    ==> after.pending[other] == earlier.pending[other])
        }),
{
}

} // verus!
