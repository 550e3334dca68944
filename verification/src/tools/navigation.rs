//! Vault listings: flat lists with optional metadata, and trees.

use crate::error::VaultError;
use crate::order::{
    before, before_is_strict_and_total, before_is_transitive, is_before, strictly_sorted,
};
use crate::path::{below, component_count, components, components_of, strip_base};
use crate::text::{
    cat2, cat3, chars_of, eq_ignoring_case, opt_text, same, same_ignoring_case, slice_text, texts,
};
use crate::tools::notes::{has_note_extension, is_note_path};
use crate::tools::output::{invalid, invalid_params, ToolError};
use vstd::prelude::*;

verus! {

/// Parameters of a listing.
#[derive(Debug, Default)]
pub struct VaultListParams {
    /// Directory relative to the vault root; the root unless given.
    pub path: Option<String>,
    /// List files in nested directories too. Only used in list mode.
    pub recursive: Option<bool>,
    /// Pattern that filters the results. Only used in list mode.
    pub glob: Option<String>,
    /// `list` (the default) or `tree`.
    pub format: Option<String>,
    /// The largest number of path components or nesting levels.
    pub max_depth: Option<usize>,
    /// Add note metadata in list mode. Invalid in tree mode.
    pub include_metadata: Option<bool>,
}

/// How a listing is shown.
#[derive(Debug, Clone, Copy, PartialEq, Eq, Structural)]
pub enum ListFormat {
    List,
    Tree,
}

/// The format that is meant, which is the list unless given.
pub open spec fn meant_format(format: Option<Seq<char>>) -> Seq<char> {
    match format {
        Some(text) => text,
        None => "list"@,
    }
}

/// How a listing is shown. Unknown formats are refused, and so is a tree with
/// metadata.
pub fn list_format(params: &VaultListParams) -> (result: Result<ListFormat, ToolError>)
    ensures
        ({
            let meant = meant_format(opt_text(params.format));
            let is_list = same_ignoring_case(meant, "list"@);
            let is_tree = !is_list && same_ignoring_case(meant, "tree"@);
            match result {
                Ok(ListFormat::List) => is_list,
                Ok(ListFormat::Tree) => is_tree && params.include_metadata != Some(true),
                Err(error) => if is_tree {
                    params.include_metadata == Some(true) && error@ == invalid(
                        "`include_metadata` is only valid in list mode"@,
                    )
                } else {
                    !is_list && error@ == invalid(
                        "Unknown format '"@ + meant
                            + "'. Valid values: \"list\", \"tree\""@,
                    )
                },
            }
        }),
{
    let meant = match &params.format {
        Some(text) => text.as_str(),
        None => "list",
    };
    if eq_ignoring_case(meant, "list") {
        Ok(ListFormat::List)
    } else if eq_ignoring_case(meant, "tree") {
        let include_metadata = match params.include_metadata {
            Some(flag) => flag,
            None => false,
        };
        if include_metadata {
            Err(invalid_params("`include_metadata` is only valid in list mode".to_owned()))
        } else {
            Ok(ListFormat::Tree)
        }
    } else {
        Err(
            invalid_params(
                cat3("Unknown format '", meant, "'. Valid values: \"list\", \"tree\""),
            ),
        )
    }
}

/// Whether a path has at most `max_depth` components.
pub open spec fn within_depth(path: Seq<char>, max_depth: Option<usize>, windows: bool) -> bool {
    match max_depth {
        Some(max) => components(path, windows).len() <= max,
        None => true,
    }
}

fn is_within_depth(path: &str, max_depth: Option<usize>, windows: bool) -> (yes: bool)
    ensures
        yes == within_depth(path@, max_depth, windows),
{
    match max_depth {
        Some(max) => component_count(path, windows) <= max,
        None => true,
    }
}

/// The paths of a list that are within the depth, in order.
pub open spec fn shallow_paths(
    paths: Seq<Seq<char>>,
    max_depth: Option<usize>,
    windows: bool,
) -> Seq<Seq<char>>
    decreases paths.len(),
{
    if paths.len() == 0 {
        Seq::empty()
    } else {
        let rest = shallow_paths(paths.drop_last(), max_depth, windows);
        if within_depth(paths.last(), max_depth, windows) {
            rest.push(paths.last())
        } else {
            rest
        }
    }
}

/// The listed paths within the depth, in order.
pub fn listed_paths(files: &Vec<String>, max_depth: Option<usize>, windows: bool) -> (list: Vec<
    String,
>)
    ensures
        texts(list@) == shallow_paths(texts(files@), max_depth, windows),
{
    let mut list: Vec<String> = Vec::new();
    let ghost all = texts(files@);
    let mut i: usize = 0;
    assert(all.take(0) =~= Seq::empty());
    assert(texts(list@) =~= Seq::empty());
    while i < files.len()
        invariant
            i <= files@.len(),
            all == texts(files@),
            texts(list@) == shallow_paths(all.take(i as int), max_depth, windows),
        decreases files@.len() - i,
    {
        assert(all.take(i + 1).drop_last() =~= all.take(i as int));
        assert(all.take(i + 1).last() == files@[i as int]@);
        if is_within_depth(files[i].as_str(), max_depth, windows) {
            let ghost before_list = list@;
            list.push(files[i].clone());
            assert(texts(list@) =~= texts(before_list).push(files@[i as int]@));
        }
        i += 1;
    }
    assert(all.take(i as int) =~= all);
    list
}

/// What the index knows of a note.
#[derive(Debug)]
pub struct NoteSummary {
    pub title: String,
    pub tags: Vec<String>,
    pub size: u64,
    /// Creation time, where it is known.
    pub created: Option<String>,
    /// Modification time, where it is known.
    pub modified: Option<String>,
}

/// An entry of a listing with metadata.
#[derive(Debug)]
pub struct VaultListEntry {
    pub path: String,
    pub title: Option<String>,
    pub tags: Option<Vec<String>>,
    pub size: Option<u64>,
    pub created: Option<String>,
    pub modified: Option<String>,
}

impl VaultListEntry {
    /// Whether the entry has a path and nothing else.
    pub open spec fn is_bare(self, path: Seq<char>) -> bool {
        &&& self.path@ == path
        &&& self.title is None
        &&& self.tags is None
        &&& self.size is None
        &&& self.created is None
        &&& self.modified is None
    }

    /// Whether the entry has a path and the metadata of a note.
    pub open spec fn is_described(self, path: Seq<char>, summary: NoteSummary) -> bool {
        &&& self.path@ == path
        &&& self.title == Some(summary.title)
        &&& self.tags == Some(summary.tags)
        &&& self.size == Some(summary.size)
        &&& self.created == summary.created
        &&& self.modified == summary.modified
    }

    /// An entry without metadata.
    pub fn path_only(path: &str) -> (entry: Self)
        ensures
            entry.is_bare(path@),
    {
        VaultListEntry {
            path: path.to_owned(),
            title: None,
            tags: None,
            size: None,
            created: None,
            modified: None,
        }
    }
}

/// Whether `entry` is the entry of a listed path. Only notes have metadata, and a
/// note that the index does not hold is listed without; `lookup` is what the index
/// says of it.
pub open spec fn is_entry(
    path: Seq<char>,
    lookup: Result<NoteSummary, VaultError>,
    windows: bool,
    entry: VaultListEntry,
) -> bool {
    if !is_note_path(path, windows) {
        entry.is_bare(path)
    } else {
        match lookup {
            Ok(summary) => entry.is_described(path, summary),
            Err(error) => error@ is NoteNotFound && entry.is_bare(path),
        }
    }
}

/// Whether a path has no entry because the index could not be asked.
pub open spec fn is_unlisted(
    path: Seq<char>,
    lookup: Result<NoteSummary, VaultError>,
    windows: bool,
) -> bool {
    is_note_path(path, windows) && (lookup matches Err(error) && !(error@ is NoteNotFound))
}

/// The entry of a listed path.
pub fn list_entry(path: &str, lookup: Result<NoteSummary, VaultError>, windows: bool) -> (result:
    Result<VaultListEntry, VaultError>)
    ensures
        match result {
            Ok(entry) => is_entry(path@, lookup, windows, entry),
            Err(error) => is_unlisted(path@, lookup, windows) && lookup == Err::<
                NoteSummary,
                VaultError,
            >(error),
        },
        result is Err <==> is_note_path(path@, windows) && (lookup matches Err(error) && !(error
            is NoteNotFound)),
        result matches Ok(entry) ==> entry.path@ == path@,
        is_note_path(path@, windows) ==> (lookup matches Ok(summary) ==> {
            &&& result is Ok
            &&& result->Ok_0.title == Some(summary.title)
            &&& result->Ok_0.tags == Some(summary.tags)
            &&& result->Ok_0.size == Some(summary.size)
            &&& result->Ok_0.created == summary.created
            &&& result->Ok_0.modified == summary.modified
        }),
        (result matches Ok(entry) && (!is_note_path(path@, windows) || lookup is Err)) ==> {
            &&& result->Ok_0.title is None
            &&& result->Ok_0.tags is None
            &&& result->Ok_0.size is None
            &&& result->Ok_0.created is None
            &&& result->Ok_0.modified is None
        },
{
    if !has_note_extension(path, windows) {
        return Ok(VaultListEntry::path_only(path));
    }
    match lookup {
        Ok(summary) => Ok(
            VaultListEntry {
                path: path.to_owned(),
                title: Some(summary.title),
                tags: Some(summary.tags),
                size: Some(summary.size),
                created: summary.created,
                modified: summary.modified,
            },
        ),
        Err(VaultError::NoteNotFound(_)) => Ok(VaultListEntry::path_only(path)),
        Err(error) => Err(error),
    }
}

/// The paths of entries.
pub open spec fn entry_paths(entries: Seq<VaultListEntry>) -> Seq<Seq<char>> {
    entries.map_values(|entry: VaultListEntry| entry.path@)
}

/// Whether `entries` are the entries of listed paths, one for each in their order.
pub open spec fn are_entries(
    paths: Seq<Seq<char>>,
    lookups: Seq<Result<NoteSummary, VaultError>>,
    windows: bool,
    entries: Seq<VaultListEntry>,
) -> bool {
    &&& entries.len() == paths.len()
    &&& forall|i: int|
        0 <= i < paths.len() ==> is_entry(paths[i], lookups[i], windows, #[trigger] entries[i])
}

/// The entries of listed paths, in their order. The first path without an entry
/// ends the listing.
pub fn list_entries(
    paths: &Vec<String>,
    lookups: Vec<Result<NoteSummary, VaultError>>,
    windows: bool,
) -> (result: Result<Vec<VaultListEntry>, VaultError>)
    requires
        lookups@.len() == paths@.len(),
    ensures
        match result {
            Ok(entries) => are_entries(texts(paths@), lookups@, windows, entries@) && entry_paths(
                entries@,
            ) == texts(paths@),
            Err(error) => exists|i: int|
                0 <= i < paths@.len() && #[trigger] lookups@[i] == Err::<NoteSummary, VaultError>(
                    error,
                ) && is_unlisted(texts(paths@)[i], lookups@[i], windows) && forall|k: int|
                    0 <= k < i ==> !is_unlisted(texts(paths@)[k], #[trigger] lookups@[k], windows),
        },
{
    let ghost all = lookups@;
    let ghost n = lookups@.len();
    let mut left = lookups;
    let mut rest: Vec<Result<NoteSummary, VaultError>> = Vec::new();
    while left.len() > 0
        invariant
            n == all.len(),
            left@.len() + rest@.len() == n,
            forall|k: int| 0 <= k < left@.len() ==> #[trigger] left@[k] == all[k],
            forall|k: int| 0 <= k < rest@.len() ==> #[trigger] rest@[k] == all[n - 1 - k],
        decreases left@.len(),
    {
        match left.pop() {
            Some(lookup) => {
                rest.push(lookup);
            },
            None => {},
        }
    }
    let mut entries: Vec<VaultListEntry> = Vec::new();
    let mut i: usize = 0;
    while i < paths.len()
        invariant
            all == lookups@,
            i <= paths@.len() == all.len() == n,
            rest@.len() == n - i,
            forall|k: int| 0 <= k < rest@.len() ==> #[trigger] rest@[k] == all[n - 1 - k],
            entries@.len() == i,
            forall|k: int|
                0 <= k < i ==> is_entry(
                    texts(paths@)[k],
                    all[k],
                    windows,
                    #[trigger] entries@[k],
                ),
            forall|k: int| 0 <= k < i ==> !is_unlisted(texts(paths@)[k], #[trigger] all[k], windows),
        decreases paths@.len() - i,
    {
        assert(rest@.last() == all[i as int]);
        assert(texts(paths@)[i as int] == paths@[i as int]@);
        match rest.pop() {
            Some(lookup) => match list_entry(paths[i].as_str(), lookup, windows) {
                Ok(entry) => {
                    entries.push(entry);
                },
                Err(error) => {
                    assert(lookups@[i as int] == Err::<NoteSummary, VaultError>(error));
                    return Err(error);
                },
            },
            None => {},
        }
        i += 1;
    }
    assert(entry_paths(entries@) =~= texts(paths@));
    Ok(entries)
}

/// Whether a listing has metadata.
pub fn wants_metadata(params: &VaultListParams) -> (wants: bool)
    ensures
        wants == (params.include_metadata == Some(true)),
{
    match params.include_metadata {
        Some(flag) => flag,
        None => false,
    }
}

/// Metadata neither adds, drops nor reorders entries: two requests that differ in
/// nothing else list the same paths of the same files.
pub proof fn metadata_keeps_the_listing(
    plain: VaultListParams,
    described: VaultListParams,
    files: Seq<Seq<char>>,
    lookups: Seq<Result<NoteSummary, VaultError>>,
    windows: bool,
    entries: Seq<VaultListEntry>,
)
    requires
        plain.max_depth == described.max_depth,
        are_entries(shallow_paths(files, described.max_depth, windows), lookups, windows, entries),
    ensures
        entry_paths(entries) == shallow_paths(files, plain.max_depth, windows),
{
    let list = shallow_paths(files, plain.max_depth, windows);
    assert forall|i: int| 0 <= i < list.len() implies entry_paths(entries)[i] == list[i] by {
        assert(is_entry(list[i], lookups[i], windows, entries[i]));
    }
    assert(entry_paths(entries) =~= list);
}

/// A directory tree. The children of a node are in ascending order of their names.
pub struct TreeNode {
    names: Vec<String>,
    nodes: Vec<TreeNode>,
}

impl TreeNode {
    /// The names of the children.
    pub closed spec fn child_names(self) -> Seq<Seq<char>> {
        texts(self.names@)
    }

    /// The children.
    pub closed spec fn child_nodes(self) -> Seq<TreeNode> {
        self.nodes@
    }

    /// Whether every node has one name for each child, in ascending order.
    pub closed spec fn well_formed(self) -> bool
        decreases self,
    {
        &&& self.names@.len() == self.nodes@.len()
        &&& strictly_sorted(texts(self.names@))
        &&& forall|i: int| 0 <= i < self.nodes@.len() ==> (#[trigger] self.nodes@[i]).well_formed()
    }

    #[verifier::type_invariant]
    spec fn is_well_formed(self) -> bool {
        self.well_formed()
    }

    /// Whether the tree holds a path of the given names below this node.
    pub open spec fn has(self, path: Seq<Seq<char>>) -> bool
        decreases path.len(),
    {
        path.len() == 0 || exists|i: int|
            0 <= i < self.child_nodes().len() && #[trigger] self.child_names()[i] == path[0]
                && self.child_nodes()[i].has(path.drop_first())
    }

    /// The empty tree.
    pub fn new() -> (node: Self)
        ensures
            node.well_formed(),
            forall|path: Seq<Seq<char>>| node.has(path) <==> path.len() == 0,
    {
        let names: Vec<String> = Vec::new();
        assert(texts(names@) =~= Seq::empty());
        TreeNode { names, nodes: Vec::new() }
    }

    /// The children of a node are in ascending order of their names, one name for
    /// each, and so are theirs.
    pub proof fn children_are_sorted(self)
        requires
            self.well_formed(),
        ensures
            strictly_sorted(self.child_names()),
            self.child_names().len() == self.child_nodes().len(),
            forall|i: int|
                0 <= i < self.child_nodes().len() ==> (#[trigger] self.child_nodes()[
                    i
                ]).well_formed(),
    {
        self.lemma_children();
    }

    proof fn lemma_children(self)
        requires
            self.well_formed(),
        ensures
            forall|i: int|
                0 <= i < self.nodes@.len() ==> #[trigger] self.nodes@[i].well_formed(),
    {
        assert forall|i: int| 0 <= i < self.nodes@.len() implies #[trigger]
            self.nodes@[i].well_formed() by {
            reveal_with_fuel(TreeNode::well_formed, 2);
            let child = self.nodes@[i];
        }
    }

    fn position(&self, name: &str) -> (at: usize)
        requires
            self.well_formed(),
        ensures
            at <= self.names@.len(),
            forall|i: int| 0 <= i < at ==> before(#[trigger] self.child_names()[i], name@),
            at < self.names@.len() ==> !before(self.child_names()[at as int], name@),
    {
        let mut at: usize = 0;
        while at < self.names.len() && is_before(self.names[at].as_str(), name)
            invariant
                at <= self.names@.len(),
                forall|i: int| 0 <= i < at ==> before(#[trigger] self.child_names()[i], name@),
            decreases self.names@.len() - at,
        {
            at += 1;
        }
        at
    }

    /// Adds the path of `list[i..]` and all its leading parts.
    fn insert_from(&mut self, list: &Vec<String>, i: usize)
        requires
            i <= list@.len(),
        ensures
            final(self).well_formed(),
            forall|path: Seq<Seq<char>>| #[trigger]
                final(self).has(path) <==> old(self).has(path) || path.is_prefix_of(
                    texts(list@).skip(i as int),
                ),
        decreases list@.len() - i,
    {
        proof {
            use_type_invariant(&*self);
        }
        let ghost given = texts(list@).skip(i as int);
        if i == list.len() {
            assert forall|path: Seq<Seq<char>>| #[trigger]
                self.has(path) <==> self.has(path) || path.is_prefix_of(given) by {
                if path.is_prefix_of(given) {
                    assert(path.len() == 0);
                }
            }
            return;
        }
        let name = list[i].clone();
        let at = self.position(name.as_str());
        let ghost before_node = *self;
        let ghost before_names = self.child_names();
        let found = at < self.names.len() && same(self.names[at].as_str(), name.as_str());
        proof {
            before_node.lemma_children();
        }
        let mut node = TreeNode::new();
        std::mem::swap(&mut node, self);
        let mut names = node.names;
        let mut nodes = node.nodes;
        let mut child = if found {
            nodes.remove(at)
        } else {
            TreeNode::new()
        };
        let ghost child_before = child;
        child.insert_from(list, i + 1);
        let ghost child_after = child;
        let ghost text = name@;
        if found {
            nodes.insert(at, child);
            proof {
                assert(texts(names@) =~= before_names);
                assert(nodes@ =~= before_node.nodes@.update(at as int, child_after));
            }
        } else {
            names.insert(at, name);
            nodes.insert(at, child);
            proof {
                assert(texts(names@) =~= before_names.insert(at as int, text));
                assert(nodes@ =~= before_node.nodes@.insert(at as int, child_after));
                lemma_sorted_insert(before_names, text, at as int);
            }
        }
        assert forall|k: int| 0 <= k < nodes@.len() implies #[trigger] nodes@[k].well_formed() by {
            if found {
                if k != at {
                    assert(before_node.nodes@[k].well_formed());
                }
            } else {
                if k < at {
                    assert(before_node.nodes@[k].well_formed());
                } else if k > at {
                    assert(before_node.nodes@[k - 1].well_formed());
                }
            }
        }
        *self = TreeNode { names, nodes };
        proof {
            assert(given[0] == text);
            assert(given.drop_first() =~= texts(list@).skip(i + 1));
            assert(self.child_names()[at as int] == text);
            assert(self.child_nodes()[at as int] == child_after);
            assert forall|path: Seq<Seq<char>>| #[trigger]
                self.has(path) <==> before_node.has(path) || path.is_prefix_of(given) by {
                lemma_has_after_insert(
                    before_node,
                    *self,
                    child_before,
                    child_after,
                    given,
                    at as int,
                    found,
                    path,
                );
            }
        }
    }

    /// Adds a path: its components and all its leading parts.
    pub fn insert(&mut self, path: &str, windows: bool)
        ensures
            final(self).well_formed(),
            forall|p: Seq<Seq<char>>| #[trigger]
                final(self).has(p) <==> old(self).has(p) || p.is_prefix_of(
                    components(path@, windows),
                ),
    {
        let list = components_of(path, windows);
        assert(texts(list@).skip(0) =~= components(path@, windows));
        self.insert_from(&list, 0);
    }
}

proof fn lemma_sorted_insert(names: Seq<Seq<char>>, name: Seq<char>, at: int)
    requires
        strictly_sorted(names),
        0 <= at <= names.len(),
        forall|i: int| 0 <= i < at ==> before(#[trigger] names[i], name),
        at < names.len() ==> !before(names[at], name) && names[at] != name,
    ensures
        strictly_sorted(names.insert(at, name)),
{
    let after = names.insert(at, name);
    assert forall|p: int, q: int| 0 <= p < q < after.len() implies before(
        #[trigger] after[p],
        #[trigger] after[q],
    ) by {
        let a = if p < at { p } else { p - 1 };
        let b = if q < at { q } else { q - 1 };
        if p == at {
            before_is_strict_and_total(names[at], name);
            if b > at {
                assert(before(names[at], names[b]));
                before_is_transitive(name, names[at], names[b]);
            }
        } else if q == at {
            assert(before(names[a], name));
        } else {
            assert(before(names[a], names[b]));
        }
    }
}

proof fn lemma_has_after_insert(
    old_node: TreeNode,
    new_node: TreeNode,
    old_child: TreeNode,
    new_child: TreeNode,
    given: Seq<Seq<char>>,
    at: int,
    found: bool,
    path: Seq<Seq<char>>,
)
    requires
        old_node.well_formed(),
        given.len() > 0,
        0 <= at <= old_node.child_nodes().len(),
        forall|i: int| 0 <= i < at ==> before(#[trigger] old_node.child_names()[i], given[0]),
        at < old_node.child_nodes().len() ==> !before(old_node.child_names()[at], given[0]),
        found <==> at < old_node.child_nodes().len() && old_node.child_names()[at] == given[0],
        found ==> old_child == old_node.child_nodes()[at] && new_node.child_nodes()
            == old_node.child_nodes().update(at, new_child) && new_node.child_names()
            == old_node.child_names(),
        !found ==> (forall|p: Seq<Seq<char>>| old_child.has(p) <==> p.len() == 0)
            && new_node.child_nodes() == old_node.child_nodes().insert(at, new_child)
            && new_node.child_names() == old_node.child_names().insert(at, given[0]),
        forall|p: Seq<Seq<char>>| #[trigger]
            new_child.has(p) <==> old_child.has(p) || p.is_prefix_of(given.drop_first()),
    ensures
        new_node.has(path) <==> old_node.has(path) || path.is_prefix_of(given),
{
    if path.len() > 0 {
        let rest = path.drop_first();
        let names = old_node.child_names();
        let nodes = old_node.child_nodes();
        assert(names.len() == nodes.len());
        if path.is_prefix_of(given) {
            assert(path[0] == given[0]);
            assert(rest.is_prefix_of(given.drop_first())) by {
                assert(rest =~= given.drop_first().subrange(0, rest.len() as int));
            }
            assert(new_node.child_names()[at] == path[0]);
            assert(new_node.child_nodes()[at].has(rest));
        }
        if old_node.has(path) {
            let k = choose|k: int|
                0 <= k < nodes.len() && #[trigger] names[k] == path[0] && nodes[k].has(rest);
            if found {
                assert(new_node.child_names()[k] == path[0]);
                if k == at {
                    assert(new_child.has(rest));
                }
                assert(new_node.child_nodes()[k].has(rest));
            } else {
                let j = if k < at { k } else { k + 1 };
                assert(new_node.child_names()[j] == path[0]);
                assert(new_node.child_nodes()[j] == nodes[k]);
            }
        }
        if new_node.has(path) {
            let j = choose|j: int|
                0 <= j < new_node.child_nodes().len() && #[trigger] new_node.child_names()[j]
                    == path[0] && new_node.child_nodes()[j].has(rest);
            if j == at {
                assert(path[0] == given[0]);
                assert(new_child.has(rest));
                if old_child.has(rest) {
                    if found {
                        assert(names[at] == path[0]);
                        assert(nodes[at].has(rest));
                        assert(old_node.has(path));
                    } else {
                        assert(path =~= seq![given[0]]);
                        assert(path =~= given.subrange(0, 1));
                        assert(path.is_prefix_of(given));
                    }
                } else {
                    assert(path =~= given.subrange(0, path.len() as int)) by {
                        assert forall|x: int| 0 <= x < path.len() implies path[x] == given[x] by {
                            if x > 0 {
                                assert(rest[x - 1] == given.drop_first()[x - 1]);
                            }
                        }
                    }
                    assert(path.is_prefix_of(given));
                }
            } else {
                let k = if found || j < at { j } else { j - 1 };
                assert(names[k] == path[0]);
                assert(nodes[k].has(rest));
            }
        }
    }
}

/// The lines of the children of a node from position `i` on.
pub open spec fn rendered_from(node: TreeNode, prefix: Seq<char>, i: int) -> Seq<char>
    decreases node, node.child_nodes().len() - i,
{
    if i < 0 || i >= node.child_nodes().len() {
        Seq::empty()
    } else {
        let last = i == node.child_nodes().len() - 1;
        let connector = if last {
            "└── "@
        } else {
            "├── "@
        };
        let deeper = prefix + if last {
            "    "@
        } else {
            "│   "@
        };
        prefix + connector + node.child_names()[i] + "\n"@ + rendered(
            node.child_nodes()[i],
            deeper,
        ) + rendered_from(node, prefix, i + 1)
    }
}

/// The lines of a tree, each after `prefix`.
pub open spec fn rendered(node: TreeNode, prefix: Seq<char>) -> Seq<char>
    decreases node, node.child_nodes().len() + 1,
{
    rendered_from(node, prefix, 0)
}

/// Appends the lines of a tree, each after `prefix`.
pub fn render_tree(node: &TreeNode, output: &mut String, prefix: &str)
    ensures
        final(output)@ == old(output)@ + rendered(*node, prefix@),
    decreases node,
{
    proof {
        use_type_invariant(node);
    }
    let count: usize = node.nodes.len();
    let ghost start = output@;
    let mut i: usize = 0;
    assert(output@ + rendered_from(*node, prefix@, 0) =~= start + rendered(*node, prefix@));
    while i < count
        invariant
            i <= count == node.nodes@.len(),
            node.names@.len() == node.nodes@.len(),
            output@ + rendered_from(*node, prefix@, i as int) == start + rendered(*node, prefix@),
        decreases count - i,
    {
        let ghost before_output = output@;
        let last = i == count - 1;
        let connector = if last {
            "└── "
        } else {
            "├── "
        };
        output.append(prefix);
        output.append(connector);
        output.append(node.names[i].as_str());
        output.append("\n");
        let deeper = if last {
            cat2(prefix, "    ")
        } else {
            cat2(prefix, "│   ")
        };
        let child = &node.nodes[i];
        proof {
            assert(node.child_names()[i as int] == node.names@[i as int]@);
            assert(node.child_nodes()[i as int] == *child);
        }
        render_tree(child, output, deeper.as_str());
        proof {
            let head = prefix@ + connector@ + node.child_names()[i as int] + "\n"@;
            assert(output@ =~= before_output + head + rendered(*child, deeper@));
            assert(output@ + rendered_from(*node, prefix@, i + 1) =~= before_output
                + rendered_from(*node, prefix@, i as int));
        }
        i += 1;
    }
    assert(rendered_from(*node, prefix@, i as int) =~= Seq::empty());
    assert(output@ =~= start + rendered(*node, prefix@));
}

/// A listed path below the listed directory, or the path itself where it is not
/// below it.
pub open spec fn shown_path(path: Seq<char>, dir: Seq<char>, windows: bool) -> Seq<char> {
    match below(path, dir, windows) {
        Some(rest) => rest,
        None => path,
    }
}

/// Whether a path of names is shown: a leading part of some listed path within
/// the depth.
pub open spec fn is_shown(
    files: Seq<Seq<char>>,
    dir: Seq<char>,
    max_depth: Option<usize>,
    windows: bool,
    path: Seq<Seq<char>>,
) -> bool {
    path.len() == 0 || exists|i: int|
        0 <= i < files.len() && within_depth(
            shown_path(#[trigger] files[i], dir, windows),
            max_depth,
            windows,
        ) && path.is_prefix_of(components(shown_path(files[i], dir, windows), windows))
}

/// The name over a tree.
pub open spec fn tree_label(dir: Seq<char>) -> Seq<char> {
    if dir.len() == 0 {
        "."@
    } else {
        dir
    }
}

/// Whether `text` is a tree of the listed paths: the label, then the lines of a
/// tree that holds just what is shown, without the last line feed.
pub open spec fn is_tree_listing(
    files: Seq<Seq<char>>,
    dir: Seq<char>,
    max_depth: Option<usize>,
    windows: bool,
    text: Seq<char>,
) -> bool {
    exists|root: TreeNode|
        #![trigger root.well_formed()]
        {
            &&& root.well_formed()
            &&& forall|path: Seq<Seq<char>>| #[trigger]
                root.has(path) <==> is_shown(files, dir, max_depth, windows, path)
            &&& text + "\n"@ == tree_label(dir) + "\n"@ + rendered(root, Seq::empty())
        }
}

proof fn lemma_rendered_ends(node: TreeNode, prefix: Seq<char>, i: int)
    ensures
        rendered_from(node, prefix, i).len() > 0 ==> rendered_from(node, prefix, i).last() == '\n',
    decreases node, node.child_nodes().len() - i,
{
    reveal_strlit("\n");
    reveal_with_fuel(rendered, 2);
    reveal_with_fuel(rendered_from, 2);
    if !(i < 0 || i >= node.child_nodes().len()) {
        let last = i == node.child_nodes().len() - 1;
        let deeper = prefix + if last {
            "    "@
        } else {
            "│   "@
        };
        let child = node.child_nodes()[i];
        lemma_rendered_ends(child, deeper, 0);
        lemma_rendered_ends(node, prefix, i + 1);
    }
}

/// The tree of the listed paths below `canonical_dir`.
pub fn tree_listing(
    files: &Vec<String>,
    canonical_dir: &str,
    max_depth: Option<usize>,
    windows: bool,
) -> (text: String)
    ensures
        is_tree_listing(texts(files@), canonical_dir@, max_depth, windows, text@),
{
    let ghost all = texts(files@);
    let mut root = TreeNode::new();
    let mut i: usize = 0;
    while i < files.len()
        invariant
            i <= files@.len(),
            all == texts(files@),
            forall|path: Seq<Seq<char>>| #[trigger]
                root.has(path) <==> is_shown(
                    all.take(i as int),
                    canonical_dir@,
                    max_depth,
                    windows,
                    path,
                ),
        decreases files@.len() - i,
    {
        let ghost before_root = root;
        assert(all[i as int] == files@[i as int]@);
        let relative = match strip_base(files[i].as_str(), canonical_dir, windows) {
            Some(rest) => rest,
            None => files[i].clone(),
        };
        assert(relative@ == shown_path(all[i as int], canonical_dir@, windows));
        let kept = is_within_depth(relative.as_str(), max_depth, windows);
        if kept {
            root.insert(relative.as_str(), windows);
        }
        proof {
            let now = all.take(i + 1);
            let earlier = all.take(i as int);
            assert(now =~= earlier.push(all[i as int]));
            assert forall|path: Seq<Seq<char>>| #[trigger]
                root.has(path) <==> is_shown(now, canonical_dir@, max_depth, windows, path) by {
                assert(before_root.has(path) <==> is_shown(
                    earlier,
                    canonical_dir@,
                    max_depth,
                    windows,
                    path,
                ));
                if is_shown(earlier, canonical_dir@, max_depth, windows, path) && path.len() > 0 {
                    let k = choose|k: int|
                        0 <= k < earlier.len() && within_depth(
                            shown_path(#[trigger] earlier[k], canonical_dir@, windows),
                            max_depth,
                            windows,
                        ) && path.is_prefix_of(
                            components(shown_path(earlier[k], canonical_dir@, windows), windows),
                        );
                    assert(now[k] == earlier[k]);
                }
                if is_shown(now, canonical_dir@, max_depth, windows, path) && path.len() > 0 {
                    let k = choose|k: int|
                        0 <= k < now.len() && within_depth(
                            shown_path(#[trigger] now[k], canonical_dir@, windows),
                            max_depth,
                            windows,
                        ) && path.is_prefix_of(
                            components(shown_path(now[k], canonical_dir@, windows), windows),
                        );
                    if k < i {
                        assert(now[k] == earlier[k]);
                    }
                }
                assert(now[i as int] == all[i as int]);
            }
        }
        i += 1;
    }
    assert(all.take(i as int) =~= all);
    let mut output = if canonical_dir.unicode_len() == 0 {
        ".".to_owned()
    } else {
        canonical_dir.to_owned()
    };
    output.append("\n");
    let ghost head = output@;
    render_tree(&root, &mut output, "");
    proof {
        reveal_strlit("");
        reveal_strlit("\n");
        assert(""@ =~= Seq::<char>::empty());
        lemma_rendered_ends(root, Seq::empty(), 0);
        let lines = rendered(root, Seq::empty());
        assert(output@ =~= head + lines);
        assert(output@.last() == '\n') by {
            if lines.len() > 0 {
                assert(output@.last() == lines.last());
            } else {
                assert(output@ =~= head);
            }
        }
    }
    let chars = chars_of(output.as_str());
    let text = slice_text(&chars, 0, chars.len() - 1);
    proof {
        assert(text@ + "\n"@ =~= output@);
        use_type_invariant(&root);
        assert(root.well_formed());
    }
    text
}

/// A listing keeps the paths with at most the given number of components, in their
/// order; that of two lists one after the other is the listing of each.
pub proof fn listings_keep_what_is_within_the_depth(
    paths: Seq<Seq<char>>,
    more: Seq<Seq<char>>,
    path: Seq<char>,
    max_depth: Option<usize>,
    windows: bool,
)
    ensures
        shallow_paths(paths + more, max_depth, windows) == shallow_paths(paths, max_depth, windows)
            + shallow_paths(more, max_depth, windows),
        shallow_paths(seq![path], max_depth, windows) == if max_depth is None || components(
            path,
            windows,
        ).len() <= max_depth->0 {
            seq![path]
        } else {
            Seq::empty()
        },
    decreases more.len(),
{
    let one = seq![path];
    assert(one.drop_last() =~= Seq::empty());
    assert(shallow_paths(one.drop_last(), max_depth, windows) =~= Seq::empty());
    assert(shallow_paths(one, max_depth, windows) =~= if within_depth(path, max_depth, windows) {
        seq![path]
    } else {
        Seq::empty()
    });
    if more.len() == 0 {
        assert(paths + more =~= paths);
        assert(shallow_paths(paths + more, max_depth, windows) =~= shallow_paths(
            paths,
            max_depth,
            windows,
        ) + shallow_paths(more, max_depth, windows));
    } else {
        listings_keep_what_is_within_the_depth(paths, more.drop_last(), path, max_depth, windows);
        assert((paths + more).drop_last() =~= paths + more.drop_last());
        assert(shallow_paths(paths + more, max_depth, windows) =~= shallow_paths(
            paths,
            max_depth,
            windows,
        ) + shallow_paths(more, max_depth, windows));
    }
}

/// Each entry of a listing has the path at its place. A note that the index holds has
/// the title, the tags, the size and both times that the index says; any other entry
/// has none of them.
pub proof fn entries_say_what_the_index_says(
    paths: Seq<Seq<char>>,
    lookups: Seq<Result<NoteSummary, VaultError>>,
    windows: bool,
    entries: Seq<VaultListEntry>,
    i: int,
)
    requires
        are_entries(paths, lookups, windows, entries),
        0 <= i < paths.len(),
    ensures
        entries.len() == paths.len(),
        entries[i].path@ == paths[i],
        is_note_path(paths[i], windows) ==> (lookups[i] matches Ok(summary) ==> {
            &&& entries[i].title == Some(summary.title)
            &&& entries[i].tags == Some(summary.tags)
            &&& entries[i].size == Some(summary.size)
            &&& entries[i].created == summary.created
            &&& entries[i].modified == summary.modified
        }),
        !is_note_path(paths[i], windows) || lookups[i] is Err ==> {
            &&& entries[i].title is None
            &&& entries[i].tags is None
            &&& entries[i].size is None
            &&& entries[i].created is None
            &&& entries[i].modified is None
        },
{
    assert(is_entry(paths[i], lookups[i], windows, entries[i]));
}

/// A tree shows a listed path and all its leading parts exactly where the path, as it
/// is seen from the listed directory, is within the depth; it shows nothing else.
pub proof fn trees_show_what_is_within_the_depth(
    files: Seq<Seq<char>>,
    dir: Seq<char>,
    max_depth: Option<usize>,
    windows: bool,
    i: int,
    path: Seq<Seq<char>>,
)
    requires
        0 <= i < files.len(),
    ensures
        ({
            let seen = match below(files[i], dir, windows) {
                Some(rest) => components(rest, windows),
                None => components(files[i], windows),
            };
            (max_depth is None || seen.len() <= max_depth->0) && path.is_prefix_of(seen) ==> is_shown(
                files,
                dir,
                max_depth,
                windows,
                path,
            )
        }),
        is_shown(files, dir, max_depth, windows, path) && path.len() > 0 ==> {
            &&& max_depth is None || path.len() <= max_depth->0
            &&& exists|k: int|
                0 <= k < files.len() && path.is_prefix_of(
                    components(
                        match below(#[trigger] files[k], dir, windows) {
                            Some(rest) => rest,
                            None => files[k],
                        },
                        windows,
                    ),
                )
        },
{
    assert(within_depth(shown_path(files[i], dir, windows), max_depth, windows) <==> max_depth is None
        || components(shown_path(files[i], dir, windows), windows).len() <= max_depth->0);
    if is_shown(files, dir, max_depth, windows, path) && path.len() > 0 {
        let k = choose|k: int|
            0 <= k < files.len() && within_depth(
                shown_path(#[trigger] files[k], dir, windows),
                max_depth,
                windows,
            ) && path.is_prefix_of(components(shown_path(files[k], dir, windows), windows));
        assert(path.is_prefix_of(
            components(
                match below(files[k], dir, windows) {
                    Some(rest) => rest,
                    None => files[k],
                },
                windows,
            ),
        ));
    }
}

/// The lines of a tree: one for each child in order, with the corner before the last
/// and the branch before the others, each followed by the lines of that child, set in
/// by four columns.
pub proof fn tree_lines_go_child_by_child(node: TreeNode, prefix: Seq<char>, i: int)
    requires
        0 <= i < node.child_nodes().len(),
    ensures
        rendered(node, prefix) == rendered_from(node, prefix, 0),
        rendered_from(node, prefix, node.child_nodes().len() as int).len() == 0,
        i == node.child_nodes().len() - 1 ==> rendered_from(node, prefix, i) == prefix + "└── "@
            + node.child_names()[i] + "\n"@ + rendered(node.child_nodes()[i], prefix + "    "@),
        i < node.child_nodes().len() - 1 ==> rendered_from(node, prefix, i) == prefix + "├── "@
            + node.child_names()[i] + "\n"@ + rendered(node.child_nodes()[i], prefix + "│   "@)
            + rendered_from(node, prefix, i + 1),
{
    reveal_with_fuel(rendered_from, 2);
    let whole = rendered_from(node, prefix, i);
    if i == node.child_nodes().len() - 1 {
        assert(rendered_from(node, prefix, i + 1) =~= Seq::empty());
        assert(whole =~= prefix + "└── "@ + node.child_names()[i] + "\n"@ + rendered(
            node.child_nodes()[i],
            prefix + "    "@,
        ));
    }
}

} // verus!
