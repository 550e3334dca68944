//! The Cargo installation: where it is, what Cargo knows of it, and whether an
//! installed replacement is the one that was wanted.

use crate::number::{signed_decimal, to_signed_decimal};
use crate::order::TextSet;
use crate::path::{
    ancestor, ancestor_path, body_of, is_verbatim, join_path, joined_path, kept_end, kept_pieces,
    parts, parts_of, piece_holds_no_separator, piece_start, piece_starts_behind_separator, prefix_of,
    separator, unified,
};
use crate::text::{
    after_last, cat2, cat3, cat4, cat5, contains_text, is_last_at, join, joined, last_piece_splits_off,
    lossy_text, occurs_at, opt_text, same, split, starts_with, strip_suffix, text_after_last, text_of, texts, trim, trimmed,
};
use crate::upgrade::{
    upgrade_error_text, CommandOutput, CommandStatus, InstallRecord, RecordView, UpgradeError,
    UpgradeErrorView,
};
use crate::upgrade::build_info::{feature_words, BuildIdentity, IdentityView};
use crate::vault::digest::{same_digest, sha256, sha256_of};
use crate::version::{
    check_version, compare_versions, order_of_sign, version_fault, version_sign, VersionOrder,
};
use vstd::prelude::*;

verus! {

/// The file name of a program.
pub open spec fn program_name(stem: Seq<char>, windows: bool) -> Seq<char> {
    if windows {
        stem + ".exe"@
    } else {
        stem
    }
}

/// The file name of a program.
pub fn binary_file_name(stem: &str, windows: bool) -> (name: String)
    ensures
        name@ == program_name(stem@, windows),
{
    if windows {
        cat2(stem, ".exe")
    } else {
        stem.to_owned()
    }
}

/// Where the running binary is installed.
#[derive(Debug, PartialEq, Eq)]
pub struct InstallLocation {
    pub bin_dir: String,
    pub root: String,
    pub tracker_path: String,
}

/// Where the running binary is installed, with texts as characters.
#[verifier::ext_equal]
pub struct LocationView {
    pub bin_dir: Seq<char>,
    pub root: Seq<char>,
    pub tracker_path: Seq<char>,
}

impl View for InstallLocation {
    type V = LocationView;

    open spec fn view(&self) -> LocationView {
        LocationView {
            bin_dir: self.bin_dir@,
            root: self.root@,
            tracker_path: self.tracker_path@,
        }
    }
}

/// The install root of a resolved executable: it has to be the main binary in
/// the `bin` directory of the root.
pub open spec fn location_of(executable: Seq<char>, windows: bool) -> Result<
    LocationView,
    UpgradeErrorView,
> {
    let expected = program_name("obsidian-mcp"@, windows);
    let names = parts(executable, windows);
    if names.len() == 0 || names.last() != expected {
        Err(
            UpgradeErrorView::UnsupportedInstall(
                "running executable '"@ + executable + "' is not "@ + expected,
            ),
        )
    } else if names.len() == 1 || names[names.len() - 2] != "bin"@ {
        Err(
            UpgradeErrorView::UnsupportedInstall(
                "'"@ + executable + "' is not inside a Cargo install root bin directory"@,
            ),
        )
    } else {
        Ok(
            LocationView {
                bin_dir: ancestor(executable, 1, windows),
                root: ancestor(executable, 2, windows),
                tracker_path: joined_path(
                    ancestor(executable, 2, windows),
                    ".crates2.json"@,
                    windows,
                ),
            },
        )
    }
}

/// The error for an executable that does not resolve.
pub fn unresolved_executable(given: &str, error: &str) -> (failure: UpgradeError)
    ensures
        failure@ == UpgradeErrorView::UnsupportedInstall(
            "cannot resolve running executable '"@ + given@ + "': "@ + error@,
        ),
{
    UpgradeError::UnsupportedInstall(
        cat4("cannot resolve running executable '", given, "': ", error),
    )
}

/// The install root of a resolved executable.
pub fn locate_install(executable: &str, windows: bool) -> (result: Result<
    InstallLocation,
    UpgradeError,
>)
    ensures
        match result {
            Ok(location) => location_of(executable@, windows) == Ok::<
                LocationView,
                UpgradeErrorView,
            >(location@),
            Err(error) => location_of(executable@, windows) == Err::<
                LocationView,
                UpgradeErrorView,
            >(error@),
        },
{
    let expected = binary_file_name("obsidian-mcp", windows);
    let names = parts_of(executable, windows);
    let ghost all = parts(executable@, windows);
    assert(all.len() == names@.len());
    proof {
        if all.len() > 0 {
            assert(all.last() == names@.last()@);
        }
        if all.len() > 1 {
            assert(all[all.len() - 2] == names@[all.len() - 2]@);
        }
    }
    if names.len() == 0 || !same(names[names.len() - 1].as_str(), expected.as_str()) {
        return Err(
            UpgradeError::UnsupportedInstall(
                cat4("running executable '", executable, "' is not ", expected.as_str()),
            ),
        );
    }
    if names.len() == 1 || !same(names[names.len() - 2].as_str(), "bin") {
        return Err(
            UpgradeError::UnsupportedInstall(
                cat3("'", executable, "' is not inside a Cargo install root bin directory"),
            ),
        );
    }
    let bin_dir = ancestor_path(executable, 1, windows);
    let root = ancestor_path(executable, 2, windows);
    let tracker_path = join_path(root.as_str(), ".crates2.json", windows);
    Ok(InstallLocation { bin_dir, root, tracker_path })
}

proof fn lemma_last_names(a: Seq<char>, x: Seq<char>, y: Seq<char>, sep: char, keep_dots: bool)
    requires
        !x.contains(sep),
        !y.contains(sep),
        x.len() > 1,
        y.len() > 1,
    ensures
        kept_pieces(split(a + seq![sep] + x + seq![sep] + y, sep), keep_dots) == kept_pieces(
            split(a, sep),
            keep_dots,
        ).push(x).push(y),
{
    last_piece_splits_off(a + seq![sep] + x, y, sep, 0);
    last_piece_splits_off(a, x, sep, 0);
    let pieces = split(a, sep);
    let dot = seq!['.'];
    assert(dot.len() == 1);
    assert(pieces.push(x).push(y).drop_last() =~= pieces.push(x));
    assert(pieces.push(x).drop_last() =~= pieces);
    assert(kept_pieces(pieces.push(x), keep_dots) == kept_pieces(pieces, keep_dots).push(x));
}

proof fn lemma_last_ends(
    text: Seq<char>,
    lo: int,
    r: int,
    program: int,
    end: int,
    sep: char,
    keep_dots: bool,
)
    requires
        0 <= lo < r,
        r + 3 < program < end - 1,
        end <= text.len(),
        text[r] == sep,
        text[program - 1] == sep,
        forall|k: int| r < k < program - 1 ==> text[k] != sep,
        forall|k: int| program <= k < end ==> text[k] != sep,
        text[r - 1] != sep,
        text[r - 1] == '.' ==> keep_dots || (r - 1 > lo && text[r - 2] != sep),
    ensures
        kept_end(text, lo, end, 1, sep, keep_dots) == program - 1,
        kept_end(text, lo, end, 2, sep, keep_dots) == r,
{
    piece_starts_behind_separator(text, lo, program, end, sep);
    piece_starts_behind_separator(text, lo, r + 1, program - 1, sep);
    piece_holds_no_separator(text, lo, r, sep);
    let start = piece_start(text, lo, r, sep);
    assert(start < r);
    assert(kept_end(text, lo, r, 0, sep, keep_dots) == r);
    assert(kept_end(text, lo, program - 1, 0, sep, keep_dots) == program - 1);
    assert(kept_end(text, lo, program - 1, 1, sep, keep_dots) == r);
}

/// On every system the main binary in the `bin` directory of a root is located, and
/// the root is given back as it is spelled. The root has a name in the end: it does
/// not end with a separator or with a component of a single dot.
pub proof fn installed_executable_is_located(
    executable: Seq<char>,
    root: Seq<char>,
    windows: bool,
)
    requires
        executable == root + seq![separator(windows)] + "bin"@ + seq![separator(windows)]
            + program_name("obsidian-mcp"@, windows),
        prefix_of(executable, windows).len() < root.len(),
        ({
            let last = root.len() - 1;
            let text = unified(executable, windows);
            &&& text[last] != separator(windows)
            &&& text[last] == '.' ==> is_verbatim(executable, windows) || (last > prefix_of(
                executable,
                windows,
            ).len() && text[last - 1] != separator(windows))
        }),
    ensures
        location_of(executable, windows) matches Ok(location) && location.root == root
            && location.bin_dir == root + seq![separator(windows)] + "bin"@,
{
    let sep = separator(windows);
    let name = program_name("obsidian-mcp"@, windows);
    let text = unified(executable, windows);
    let lo = prefix_of(executable, windows).len() as int;
    let verbatim = is_verbatim(executable, windows);
    lemma_program_name(windows);
    let bin = "bin"@;
    reveal_strlit("bin");
    assert(bin.len() == 3 && bin[0] == 'b' && bin[1] == 'i' && bin[2] == 'n');
    let r = root.len() as int;
    let end = executable.len() as int;
    let program = r + 5;
    assert forall|k: int| r <= k < end implies #[trigger] text[k] == executable[k] by {
        if k >= program {
            assert(executable[k] == name[k - program]);
        }
    }
    let a = text.subrange(lo, r);
    assert(body_of(executable, windows) =~= a + seq![sep] + bin + seq![sep] + name);
    lemma_last_names(a, bin, name, sep, verbatim);
    assert forall|k: int| program <= k < end implies text[k] != sep by {
        assert(text[k] == executable[k]);
        assert(executable[k] == name[k - program]);
    }
    lemma_last_ends(text, lo, r, program, end, sep, verbatim);
    assert(executable.take(r) =~= root);
    assert(executable.take(r + 4) =~= root + seq![sep] + bin);
}

proof fn lemma_program_name(windows: bool)
    ensures
        ({
            let name = program_name("obsidian-mcp"@, windows);
            &&& name.len() > 1
            &&& !name.contains(separator(windows))
            &&& forall|k: int|
                0 <= k < name.len() ==> #[trigger] name[k] != separator(windows) && name[k] != '/'
        }),
{
    reveal_strlit("obsidian-mcp");
    reveal_strlit(".exe");
    let name = program_name("obsidian-mcp"@, windows);
    assert forall|k: int| 0 <= k < name.len() implies #[trigger] name[k] != separator(windows)
        && name[k] != '/' by {
        if k >= 12 {
            assert(name[k] == ".exe"@[k - 12]);
        } else {
            assert(name[k] == "obsidian-mcp"@[k]);
        }
    }
}

/// What Cargo records of one installed package.
#[derive(Debug, PartialEq, Eq)]
pub struct TrackedInstall {
    pub package_id: String,
    pub bins: TextSet,
    pub features: TextSet,
    pub profile: String,
    pub target: Option<String>,
}

/// A record of Cargo with its texts as characters.
#[verifier::ext_equal]
pub struct TrackedView {
    pub package_id: Seq<char>,
    pub bins: Seq<Seq<char>>,
    pub features: Seq<Seq<char>>,
    pub profile: Seq<char>,
    pub target: Option<Seq<char>>,
}

impl View for TrackedInstall {
    type V = TrackedView;

    open spec fn view(&self) -> TrackedView {
        TrackedView {
            package_id: self.package_id@,
            bins: self.bins@,
            features: self.features@,
            profile: self.profile@,
            target: opt_text(self.target),
        }
    }
}

/// The records of a list.
pub open spec fn tracked_views(list: Seq<TrackedInstall>) -> Seq<TrackedView> {
    list.map_values(|t: TrackedInstall| t@)
}

/// What reading Cargo's ownership record gave.
#[derive(Debug, PartialEq, Eq)]
pub enum CargoTracker {
    /// The file could not be read.
    Unavailable(String),
    /// The file is not what Cargo writes.
    Unreadable(String),
    /// The installed packages.
    Installs(Vec<TrackedInstall>),
}

/// What reading Cargo's ownership record gave, as mathematical values.
pub enum TrackerView {
    Unavailable(Seq<char>),
    Unreadable(Seq<char>),
    Installs(Seq<TrackedView>),
}

impl View for CargoTracker {
    type V = TrackerView;

    open spec fn view(&self) -> TrackerView {
        match self {
            CargoTracker::Unavailable(error) => TrackerView::Unavailable(error@),
            CargoTracker::Unreadable(error) => TrackerView::Unreadable(error@),
            CargoTracker::Installs(list) => TrackerView::Installs(tracked_views(list@)),
        }
    }
}

/// How the package identifiers of a version of this package start.
pub open spec fn package_prefix(version: Seq<char>) -> Seq<char> {
    "obsidian-mcp "@ + version + " ("@
}

/// The records of a version of this package.
pub open spec fn records_of(list: Seq<TrackedView>, prefix: Seq<char>) -> Seq<TrackedView>
    decreases list.len(),
{
    if list.len() == 0 {
        Seq::empty()
    } else {
        let rest = records_of(list.drop_last(), prefix);
        if prefix.is_prefix_of(list.last().package_id) {
            rest.push(list.last())
        } else {
            rest
        }
    }
}

/// The source in a package identifier: what its last brackets hold.
pub open spec fn source_of(package_id: Seq<char>) -> Option<Seq<char>> {
    if package_id.len() > 0 && package_id.last() == ')' {
        after_last(package_id.drop_last(), " ("@)
    } else {
        None
    }
}

/// Whether a source is the official registry.
pub open spec fn is_official(source: Seq<char>) -> bool {
    source == "registry+https://github.com/rust-lang/crates.io-index"@ || source
        == "sparse+https://index.crates.io/"@
}

/// A file name without the endings of Windows programs.
pub open spec fn without_exe(name: Seq<char>) -> Seq<char>
    decreases name.len(),
{
    if name.len() >= 4 && name.skip(name.len() - 4) == seq!['.', 'e', 'x', 'e'] {
        without_exe(name.take(name.len() - 4))
    } else {
        name
    }
}

/// Whether a record owns a program.
pub open spec fn owns_binary(bins: Seq<Seq<char>>, stem: Seq<char>) -> bool {
    exists|i: int| 0 <= i < bins.len() && without_exe(#[trigger] bins[i]) == stem
}

/// Features without the default one.
pub open spec fn chosen_features(features: Seq<Seq<char>>) -> Seq<Seq<char>>
    decreases features.len(),
{
    if features.len() == 0 {
        Seq::empty()
    } else {
        let rest = chosen_features(features.drop_last());
        if features.last() == "default"@ {
            rest
        } else {
            rest.push(features.last())
        }
    }
}

/// The error for a required program: one that the record does not own, or whose
/// file is missing.
pub open spec fn binary_fault(
    bins: Seq<Seq<char>>,
    bin_dir: Seq<char>,
    stem: Seq<char>,
    windows: bool,
    present: bool,
) -> Option<UpgradeErrorView> {
    if !owns_binary(bins, stem) {
        Some(
            UpgradeErrorView::InvalidInstall(
                "Cargo record does not own required binary '"@ + stem + "'"@,
            ),
        )
    } else if !present {
        Some(
            UpgradeErrorView::InvalidInstall(
                "Cargo-owned binary '"@ + joined_path(
                    bin_dir,
                    program_name(stem, windows),
                    windows,
                )
                    + "' is missing"@,
            ),
        )
    } else {
        None
    }
}

/// What the record of the package amounts to: its source has to be the official
/// registry, it has to own both programs, and its target and features have to
/// fit the running binary.
pub open spec fn record_outcome(
    location: LocationView,
    record: TrackedView,
    identity: IdentityView,
    windows: bool,
    main_present: bool,
    semantic_present: bool,
) -> Result<RecordView, UpgradeErrorView> {
    let main = binary_fault(
        record.bins,
        location.bin_dir,
        "obsidian-mcp"@,
        windows,
        main_present,
    );
    let semantic = binary_fault(
        record.bins,
        location.bin_dir,
        "obsidian-semanticd"@,
        windows,
        semantic_present,
    );
    let features = chosen_features(record.features);
    match source_of(record.package_id) {
        None => Err(
            UpgradeErrorView::InvalidInstall(
                "malformed Cargo package id '"@ + record.package_id + "'"@,
            ),
        ),
        Some(source) => if !is_official(source) {
            Err(
                UpgradeErrorView::UnsupportedInstall(
                    "Cargo source '"@ + source + "' is not the official crates.io registry"@,
                ),
            )
        } else if main is Some {
            Err(main->0)
        } else if semantic is Some {
            Err(semantic->0)
        } else if trimmed(record.profile).len() == 0 {
            Err(UpgradeErrorView::InvalidInstall("Cargo record has an empty build profile"@))
        } else {
            match record.target {
                None => Err(
                    UpgradeErrorView::InvalidInstall(
                        "Cargo record does not include its target triple"@,
                    ),
                ),
                Some(target) => if target != identity.target {
                    Err(
                        UpgradeErrorView::InvalidInstall(
                            "Cargo target '"@ + target + "' does not match running binary target '"@
                                + identity.target + "'"@,
                        ),
                    )
                } else if !(forall|f: Seq<char>| #[trigger]
                    features.contains(f) ==> identity.features.contains(f)) {
                    Err(
                        UpgradeErrorView::InvalidInstall(
                            "Cargo-tracked features ["@ + joined(features, ","@)
                                + "] are not present in the running binary ["@ + feature_words(
                                identity.features,
                            ) + "]"@,
                        ),
                    )
                } else {
                    Ok(RecordView { root: location.root, profile: record.profile, target })
                },
            }
        },
    }
}

/// What an installation amounts to, given what Cargo's record holds and which of
/// the two programs are there.
pub open spec fn install_outcome(
    location: LocationView,
    tracker: TrackerView,
    identity: IdentityView,
    windows: bool,
    main_present: bool,
    semantic_present: bool,
) -> Result<RecordView, UpgradeErrorView> {
    match tracker {
        TrackerView::Unavailable(error) => Err(
            UpgradeErrorView::UnsupportedInstall(
                "Cargo ownership tracker '"@ + location.tracker_path + "' is unavailable: "@ + error,
            ),
        ),
        TrackerView::Unreadable(error) => Err(
            UpgradeErrorView::InvalidInstall(
                "cannot parse Cargo ownership tracker '"@ + location.tracker_path + "': "@ + error,
            ),
        ),
        TrackerView::Installs(list) => {
            let records = records_of(list, package_prefix(identity.version));
            if records.len() == 0 {
                Err(
                    UpgradeErrorView::UnsupportedInstall(
                        "Cargo does not track obsidian-mcp "@ + identity.version + " in '"@
                            + location.root + "'"@,
                    ),
                )
            } else if records.len() > 1 {
                Err(
                    UpgradeErrorView::InvalidInstall(
                        "Cargo tracker contains multiple records for obsidian-mcp "@
                            + identity.version,
                    ),
                )
            } else {
                record_outcome(
                    location,
                    records[0],
                    identity,
                    windows,
                    main_present,
                    semantic_present,
                )
            }
        },
    }
}

/// The source in a package identifier.
pub fn package_source(package_id: &str) -> (source: Option<String>)
    ensures
        opt_text(source) == source_of(package_id@),
{
    proof {
        reveal_strlit(")");
    }
    match strip_suffix(package_id, ")") {
        Some(head) => {
            assert(package_id@ == head@ + ")"@);
            assert(package_id@.last() == ')');
            assert(package_id@.drop_last() =~= head@);
            text_after_last(head.as_str(), " (")
        },
        None => {
            assert(package_id@.len() > 0 && package_id@.last() == ')' ==> ")"@.is_suffix_of(
                package_id@,
            )) by {
                if package_id@.len() > 0 && package_id@.last() == ')' {
                    assert(package_id@.subrange(package_id@.len() - 1, package_id@.len() as int)
                        =~= ")"@);
                }
            }
            None
        },
    }
}

/// Whether a source is the official registry.
pub fn is_official_crates_io(source: &str) -> (official: bool)
    ensures
        official == is_official(source@),
{
    same(source, "registry+https://github.com/rust-lang/crates.io-index") || same(
        source,
        "sparse+https://index.crates.io/",
    )
}

fn strip_exe(name: &str) -> (stem: String)
    ensures
        stem@ == without_exe(name@),
{
    proof {
        reveal_strlit(".exe");
        assert(".exe"@ =~= seq!['.', 'e', 'x', 'e']);
    }
    let mut stem = name.to_owned();
    loop
        invariant
            without_exe(name@) == without_exe(stem@),
            ".exe"@ == seq!['.', 'e', 'x', 'e'],
        decreases stem@.len(),
    {
        match strip_suffix(stem.as_str(), ".exe") {
            Some(shorter) => {
                assert(stem@.skip(stem@.len() - 4) =~= ".exe"@);
                assert(stem@.take(stem@.len() - 4) =~= shorter@);
                stem = shorter;
            },
            None => {
                assert(stem@.len() >= 4 ==> stem@.skip(stem@.len() - 4) == stem@.subrange(
                    stem@.len() - 4,
                    stem@.len() as int,
                ));
                return stem;
            },
        }
    }
}

fn owns(bins: &TextSet, stem: &str) -> (owned: bool)
    ensures
        owned == owns_binary(bins@, stem@),
{
    let items = bins.items();
    let mut i: usize = 0;
    while i < items.len()
        invariant
            i <= items@.len(),
            texts(items@) == bins@,
            forall|k: int| 0 <= k < i ==> without_exe(#[trigger] bins@[k]) != stem@,
        decreases items@.len() - i,
    {
        let name = strip_exe(items[i].as_str());
        assert(bins@[i as int] == items@[i as int]@);
        if same(name.as_str(), stem) {
            return true;
        }
        i += 1;
    }
    false
}

fn required_binary(
    bins: &TextSet,
    bin_dir: &str,
    stem: &str,
    windows: bool,
    present: bool,
) -> (fault: Option<UpgradeError>)
    ensures
        match fault {
            Some(error) => binary_fault(bins@, bin_dir@, stem@, windows, present) == Some(error@),
            None => binary_fault(bins@, bin_dir@, stem@, windows, present) is None,
        },
{
    if !owns(bins, stem) {
        Some(
            UpgradeError::InvalidInstall(
                cat3("Cargo record does not own required binary '", stem, "'"),
            ),
        )
    } else if !present {
        let name = binary_file_name(stem, windows);
        let path = join_path(bin_dir, name.as_str(), windows);
        Some(
            UpgradeError::InvalidInstall(
                cat3("Cargo-owned binary '", path.as_str(), "' is missing"),
            ),
        )
    } else {
        None
    }
}

fn without_default(features: &TextSet) -> (chosen: Vec<String>)
    ensures
        texts(chosen@) == chosen_features(features@),
{
    let items = features.items();
    let mut chosen: Vec<String> = Vec::new();
    let mut i: usize = 0;
    assert(features@.take(0) =~= Seq::empty());
    assert(texts(chosen@) =~= Seq::empty());
    while i < items.len()
        invariant
            i <= items@.len(),
            texts(items@) == features@,
            texts(chosen@) == chosen_features(features@.take(i as int)),
        decreases items@.len() - i,
    {
        let ghost before_chosen = chosen@;
        assert(features@.take(i + 1).drop_last() =~= features@.take(i as int));
        assert(features@.take(i + 1).last() == items@[i as int]@);
        if !same(items[i].as_str(), "default") {
            chosen.push(items[i].clone());
            assert(texts(chosen@) =~= texts(before_chosen).push(items@[i as int]@));
        }
        i += 1;
    }
    assert(features@.take(i as int) =~= features@);
    chosen
}

fn all_in(list: &Vec<String>, set: &TextSet) -> (all: bool)
    ensures
        all == (forall|f: Seq<char>| #[trigger] texts(list@).contains(f) ==> set@.contains(f)),
{
    let mut i: usize = 0;
    while i < list.len()
        invariant
            i <= list@.len(),
            forall|k: int| 0 <= k < i ==> set@.contains(#[trigger] texts(list@)[k]),
        decreases list@.len() - i,
    {
        assert(texts(list@)[i as int] == list@[i as int]@);
        if !set.contains(list[i].as_str()) {
            assert(texts(list@).contains(texts(list@)[i as int]));
            return false;
        }
        i += 1;
    }
    true
}

fn check_record(
    location: &InstallLocation,
    record: &TrackedInstall,
    identity: &BuildIdentity,
    windows: bool,
    main_present: bool,
    semantic_present: bool,
) -> (result: Result<InstallRecord, UpgradeError>)
    ensures
        ({
            let outcome = record_outcome(
                location@,
                record@,
                identity@,
                windows,
                main_present,
                semantic_present,
            );
            match result {
                Ok(found) => outcome == Ok::<RecordView, UpgradeErrorView>(found@),
                Err(error) => outcome == Err::<RecordView, UpgradeErrorView>(error@),
            }
        }),
{
    let source = match package_source(record.package_id.as_str()) {
        Some(source) => source,
        None => {
            return Err(
                UpgradeError::InvalidInstall(
                    cat3("malformed Cargo package id '", record.package_id.as_str(), "'"),
                ),
            );
        },
    };
    if !is_official_crates_io(source.as_str()) {
        return Err(
            UpgradeError::UnsupportedInstall(
                cat3(
                    "Cargo source '",
                    source.as_str(),
                    "' is not the official crates.io registry",
                ),
            ),
        );
    }
    match required_binary(
        &record.bins,
        location.bin_dir.as_str(),
        "obsidian-mcp",
        windows,
        main_present,
    ) {
        Some(error) => {
            return Err(error);
        },
        None => {},
    }
    match required_binary(
        &record.bins,
        location.bin_dir.as_str(),
        "obsidian-semanticd",
        windows,
        semantic_present,
    ) {
        Some(error) => {
            return Err(error);
        },
        None => {},
    }
    let profile = trim(record.profile.as_str());
    if profile.as_str().unicode_len() == 0 {
        return Err(
            UpgradeError::InvalidInstall("Cargo record has an empty build profile".to_owned()),
        );
    }
    let target = match &record.target {
        Some(target) => target.clone(),
        None => {
            return Err(
                UpgradeError::InvalidInstall(
                    "Cargo record does not include its target triple".to_owned(),
                ),
            );
        },
    };
    if !same(target.as_str(), identity.target.as_str()) {
        return Err(
            UpgradeError::InvalidInstall(
                cat5(
                    "Cargo target '",
                    target.as_str(),
                    "' does not match running binary target '",
                    identity.target.as_str(),
                    "'",
                ),
            ),
        );
    }
    let features = without_default(&record.features);
    if !all_in(&features, &identity.features) {
        let list = join(features.as_slice(), ",");
        let running = identity.feature_list();
        return Err(
            UpgradeError::InvalidInstall(
                cat5(
                    "Cargo-tracked features [",
                    list.as_str(),
                    "] are not present in the running binary [",
                    running.as_str(),
                    "]",
                ),
            ),
        );
    }
    Ok(InstallRecord { root: location.root.clone(), profile: record.profile.clone(), target })
}

/// Checks that the running binary is the one that Cargo installed from the
/// official registry. `main_present` and `semantic_present` tell whether the two
/// programs are files in the `bin` directory.
pub fn discover_install(
    location: &InstallLocation,
    tracker: &CargoTracker,
    identity: &BuildIdentity,
    windows: bool,
    main_present: bool,
    semantic_present: bool,
) -> (result: Result<InstallRecord, UpgradeError>)
    ensures
        ({
            let outcome = install_outcome(
                location@,
                tracker@,
                identity@,
                windows,
                main_present,
                semantic_present,
            );
            match result {
                Ok(found) => outcome == Ok::<RecordView, UpgradeErrorView>(found@),
                Err(error) => outcome == Err::<RecordView, UpgradeErrorView>(error@),
            }
        }),
{
    let list = match tracker {
        CargoTracker::Unavailable(error) => {
            return Err(
                UpgradeError::UnsupportedInstall(
                    cat4(
                        "Cargo ownership tracker '",
                        location.tracker_path.as_str(),
                        "' is unavailable: ",
                        error.as_str(),
                    ),
                ),
            );
        },
        CargoTracker::Unreadable(error) => {
            return Err(
                UpgradeError::InvalidInstall(
                    cat4(
                        "cannot parse Cargo ownership tracker '",
                        location.tracker_path.as_str(),
                        "': ",
                        error.as_str(),
                    ),
                ),
            );
        },
        CargoTracker::Installs(list) => list,
    };
    let prefix = cat3("obsidian-mcp ", identity.version.as_str(), " (");
    let ghost all = tracked_views(list@);
    let mut found: Option<usize> = None;
    let mut i: usize = 0;
    assert(all.take(0) =~= Seq::empty());
    while i < list.len()
        invariant
            i <= list@.len(),
            all == tracked_views(list@),
            prefix@ == package_prefix(identity@.version),
            tracker@ == TrackerView::Installs(all),
            match found {
                None => records_of(all.take(i as int), prefix@).len() == 0,
                Some(k) => k < i && records_of(all.take(i as int), prefix@) == seq![all[k as int]],
            },
        decreases list@.len() - i,
    {
        let ghost before_records = records_of(all.take(i as int), prefix@);
        assert(all.take(i + 1).drop_last() =~= all.take(i as int));
        assert(all.take(i + 1).last() == all[i as int]);
        if starts_with(list[i].package_id.as_str(), prefix.as_str()) {
            assert(records_of(all.take(i + 1), prefix@) == before_records.push(all[i as int]));
            if found.is_some() {
                proof {
                    lemma_records_grow(all, prefix@, i + 1);
                }
                return Err(
                    UpgradeError::InvalidInstall(
                        cat2(
                            "Cargo tracker contains multiple records for obsidian-mcp ",
                            identity.version.as_str(),
                        ),
                    ),
                );
            }
            assert(before_records.push(all[i as int]) =~= seq![all[i as int]]);
            found = Some(i);
        }
        i += 1;
    }
    assert(all.take(i as int) =~= all);
    match found {
        Some(k) => check_record(
            location,
            &list[k],
            identity,
            windows,
            main_present,
            semantic_present,
        ),
        None => Err(
            UpgradeError::UnsupportedInstall(
                cat5(
                    "Cargo does not track obsidian-mcp ",
                    identity.version.as_str(),
                    " in '",
                    location.root.as_str(),
                    "'",
                ),
            ),
        ),
    }
}

proof fn lemma_records_grow(list: Seq<TrackedView>, prefix: Seq<char>, n: int)
    requires
        0 <= n <= list.len(),
    ensures
        records_of(list.take(n), prefix).len() <= records_of(list, prefix).len(),
    decreases list.len() - n,
{
    if n == list.len() {
        assert(list.take(n) =~= list);
    } else {
        assert(list.take(n + 1).drop_last() =~= list.take(n));
        lemma_records_grow(list, prefix, n + 1);
    }
}

/// The arguments with which Cargo installs the newest release in the same way.
pub open spec fn install_arguments(record: RecordView, features: Seq<Seq<char>>) -> Seq<Seq<char>> {
    let fixed = seq![
        "install"@,
        "obsidian-mcp"@,
        "--root"@,
        record.root,
        "--registry"@,
        "crates-io"@,
        "--locked"@,
        "--bins"@,
        "--profile"@,
        record.profile,
        "--target"@,
        record.target,
        "--no-default-features"@,
    ];
    if features.len() == 0 {
        fixed
    } else {
        fixed.push("--features"@).push(feature_words(features))
    }
}

/// The arguments with which Cargo installs the newest release in the same way.
pub fn cargo_install_args(record: &InstallRecord, identity: &BuildIdentity) -> (args: Vec<String>)
    ensures
        texts(args@) == install_arguments(record@, identity@.features),
{
    let mut args: Vec<String> = Vec::new();
    args.push("install".to_owned());
    args.push("obsidian-mcp".to_owned());
    args.push("--root".to_owned());
    args.push(record.root.clone());
    args.push("--registry".to_owned());
    args.push("crates-io".to_owned());
    args.push("--locked".to_owned());
    args.push("--bins".to_owned());
    args.push("--profile".to_owned());
    args.push(record.profile.clone());
    args.push("--target".to_owned());
    args.push(record.target.clone());
    args.push("--no-default-features".to_owned());
    if identity.features.items().len() > 0 {
        args.push("--features".to_owned());
        args.push(identity.feature_list());
    }
    assert(texts(args@) =~= install_arguments(record@, identity@.features));
    args
}

/// The two programs as they are on disk.
#[derive(Debug, PartialEq, Eq)]
pub struct InstallSnapshot {
    pub main_identity: BuildIdentity,
    pub semantic_identity: BuildIdentity,
    pub main_hash: [u8; 32],
    pub semantic_hash: [u8; 32],
}

/// The two programs as mathematical values.
#[verifier::ext_equal]
pub struct SnapshotView {
    pub main_identity: IdentityView,
    pub semantic_identity: IdentityView,
    pub main_hash: Seq<u8>,
    pub semantic_hash: Seq<u8>,
}

impl View for InstallSnapshot {
    type V = SnapshotView;

    open spec fn view(&self) -> SnapshotView {
        SnapshotView {
            main_identity: self.main_identity@,
            semantic_identity: self.semantic_identity@,
            main_hash: self.main_hash@,
            semantic_hash: self.semantic_hash@,
        }
    }
}

/// A finished installation.
#[derive(Debug, PartialEq, Eq)]
pub struct InstallOutcome {
    pub after: InstallSnapshot,
    pub changed: bool,
}

/// The digest of a program's contents.
pub fn hash_file(contents: &[u8]) -> (digest: [u8; 32])
    ensures
        digest@ == sha256(contents@),
{
    sha256_of(contents)
}

/// Where a program of an installation is.
pub open spec fn installed_path(root: Seq<char>, stem: Seq<char>, windows: bool) -> Seq<char> {
    joined_path(joined_path(root, "bin"@, windows), program_name(stem, windows), windows)
}

/// Where a program of an installation is.
pub fn installed_binary(root: &str, stem: &str, windows: bool) -> (path: String)
    ensures
        path@ == installed_path(root@, stem@, windows),
{
    let bin = join_path(root, "bin", windows);
    let name = binary_file_name(stem, windows);
    join_path(bin.as_str(), name.as_str(), windows)
}

/// The identity that a program reports: `decoded` is what its standard output
/// says, read as an identity.
pub fn probe_identity(
    binary: &str,
    output: Result<CommandOutput, UpgradeError>,
    decoded: Result<BuildIdentity, UpgradeError>,
) -> (result: Result<BuildIdentity, UpgradeError>)
    ensures
        match output {
            Err(error) => result == Err::<BuildIdentity, UpgradeError>(error),
            Ok(done) => if !done.success {
                result matches Err(error) && error@ == UpgradeErrorView::InvalidInstall(
                    "'"@ + binary@ + " --__build-info' failed: "@ + trimmed(text_of(done.stderr@)),
                )
            } else {
                match decoded {
                    Ok(identity) => result == Ok::<BuildIdentity, UpgradeError>(identity),
                    Err(cause) => result matches Err(error) && error@
                        == UpgradeErrorView::InvalidInstall(
                        "'"@ + binary@ + "' returned invalid build identity: "@
                            + upgrade_error_text(cause@),
                    ),
                }
            },
        },
{
    match output {
        Err(error) => Err(error),
        Ok(done) => if !done.success {
            let stderr = lossy_text(done.stderr.as_slice());
            let diagnostic = trim(stderr.as_str());
            Err(
                UpgradeError::InvalidInstall(
                    cat4("'", binary, " --__build-info' failed: ", diagnostic.as_str()),
                ),
            )
        } else {
            match decoded {
                Ok(identity) => Ok(identity),
                Err(cause) => {
                    let text = cause.message();
                    Err(
                        UpgradeError::InvalidInstall(
                            cat4("'", binary, "' returned invalid build identity: ", text.as_str()),
                        ),
                    )
                },
            }
        },
    }
}

/// The two programs as they are on disk; the first failure counts.
pub fn snapshot_install(
    main_identity: Result<BuildIdentity, UpgradeError>,
    semantic_identity: Result<BuildIdentity, UpgradeError>,
    main_hash: Result<[u8; 32], UpgradeError>,
    semantic_hash: Result<[u8; 32], UpgradeError>,
) -> (result: Result<InstallSnapshot, UpgradeError>)
    ensures
        match (main_identity, semantic_identity, main_hash, semantic_hash) {
            (Ok(a), Ok(b), Ok(c), Ok(d)) => result == Ok::<InstallSnapshot, UpgradeError>(
                InstallSnapshot {
                    main_identity: a,
                    semantic_identity: b,
                    main_hash: c,
                    semantic_hash: d,
                },
            ),
            (Err(error), _, _, _) => result == Err::<InstallSnapshot, UpgradeError>(error),
            (_, Err(error), _, _) => result == Err::<InstallSnapshot, UpgradeError>(error),
            (_, _, Err(error), _) => result == Err::<InstallSnapshot, UpgradeError>(error),
            (_, _, _, Err(error)) => result == Err::<InstallSnapshot, UpgradeError>(error),
        },
{
    let main_identity = match main_identity {
        Ok(identity) => identity,
        Err(error) => {
            return Err(error);
        },
    };
    let semantic_identity = match semantic_identity {
        Ok(identity) => identity,
        Err(error) => {
            return Err(error);
        },
    };
    let main_hash = match main_hash {
        Ok(hash) => hash,
        Err(error) => {
            return Err(error);
        },
    };
    match semantic_hash {
        Ok(semantic_hash) => Ok(
            InstallSnapshot { main_identity, semantic_identity, main_hash, semantic_hash },
        ),
        Err(error) => Err(error),
    }
}

/// The error for programs that are not both the running one.
pub open spec fn mismatch() -> UpgradeErrorView {
    UpgradeErrorView::InvalidInstall(
        "installed sibling binaries do not match the running build identity"@,
    )
}

/// Checks that both programs have the expected identity.
pub fn validate_snapshot(snapshot: &InstallSnapshot, expected: &BuildIdentity) -> (result: Result<
    (),
    UpgradeError,
>)
    ensures
        match result {
            Ok(_) => snapshot@.main_identity == expected@ && snapshot@.semantic_identity
                == expected@,
            Err(error) => error@ == mismatch() && (snapshot@.main_identity != expected@
                || snapshot@.semantic_identity != expected@),
        },
{
    if !snapshot.main_identity.same_identity(expected) || !snapshot.semantic_identity.same_identity(
        expected,
    ) {
        return Err(
            UpgradeError::InvalidInstall(
                "installed sibling binaries do not match the running build identity".to_owned(),
            ),
        );
    }
    Ok(())
}

/// What is wrong with installed programs: they have to agree with each other, be
/// this package, keep the target and the features, and not be older.
pub open spec fn post_install_fault(after: SnapshotView, previous: IdentityView) -> Option<
    UpgradeErrorView,
> {
    let current = after.main_identity;
    if after.main_identity != after.semantic_identity {
        Some(
            UpgradeErrorView::Install(
                "updated obsidian-mcp and obsidian-semanticd identities differ"@,
            ),
        )
    } else if current.name != "obsidian-mcp"@ {
        Some(
            UpgradeErrorView::Install(
                "updated package identity is '"@ + current.name + "', expected 'obsidian-mcp'"@,
            ),
        )
    } else if current.target != previous.target {
        Some(
            UpgradeErrorView::Install(
                "updated target '"@ + current.target + "' does not preserve '"@ + previous.target
                    + "'"@,
            ),
        )
    } else if current.features != previous.features {
        Some(
            UpgradeErrorView::Install(
                "updated features ["@ + feature_words(current.features) + "] do not preserve ["@
                    + feature_words(previous.features) + "]"@,
            ),
        )
    } else {
        match version_fault(previous.version) {
            Some(fault) => Some(
                UpgradeErrorView::Install(
                    "running binary has invalid semantic version '"@ + previous.version + "': "@
                        + fault,
                ),
            ),
            None => match version_fault(current.version) {
                Some(fault) => Some(
                    UpgradeErrorView::Install(
                        "updated binary has invalid semantic version '"@ + current.version + "': "@
                            + fault,
                    ),
                ),
                None => if order_of_sign(version_sign(current.version, previous.version))
                    == VersionOrder::Older {
                    Some(
                        UpgradeErrorView::Install(
                            "Cargo installed older version '"@ + current.version + "' over '"@
                                + previous.version + "'"@,
                        ),
                    )
                } else {
                    None
                },
            },
        }
    }
}

/// Checks installed programs against the ones before.
pub fn validate_post_install(snapshot: &InstallSnapshot, previous: &BuildIdentity) -> (result:
    Result<(), UpgradeError>)
    ensures
        match result {
            Ok(_) => post_install_fault(snapshot@, previous@) is None,
            Err(error) => post_install_fault(snapshot@, previous@) == Some(error@),
        },
{
    if !snapshot.main_identity.same_identity(&snapshot.semantic_identity) {
        return Err(
            UpgradeError::Install(
                "updated obsidian-mcp and obsidian-semanticd identities differ".to_owned(),
            ),
        );
    }
    let current = &snapshot.main_identity;
    if !same(current.name.as_str(), "obsidian-mcp") {
        return Err(
            UpgradeError::Install(
                cat3(
                    "updated package identity is '",
                    current.name.as_str(),
                    "', expected 'obsidian-mcp'",
                ),
            ),
        );
    }
    if !same(current.target.as_str(), previous.target.as_str()) {
        return Err(
            UpgradeError::Install(
                cat5(
                    "updated target '",
                    current.target.as_str(),
                    "' does not preserve '",
                    previous.target.as_str(),
                    "'",
                ),
            ),
        );
    }
    if !current.features.same_set(&previous.features) {
        let now = current.feature_list();
        let then = previous.feature_list();
        return Err(
            UpgradeError::Install(
                cat5("updated features [", now.as_str(), "] do not preserve [", then.as_str(), "]"),
            ),
        );
    }
    match check_version(previous.version.as_str()) {
        Some(fault) => {
            return Err(
                UpgradeError::Install(
                    cat4(
                        "running binary has invalid semantic version '",
                        previous.version.as_str(),
                        "': ",
                        fault.as_str(),
                    ),
                ),
            );
        },
        None => {},
    }
    match check_version(current.version.as_str()) {
        Some(fault) => {
            return Err(
                UpgradeError::Install(
                    cat4(
                        "updated binary has invalid semantic version '",
                        current.version.as_str(),
                        "': ",
                        fault.as_str(),
                    ),
                ),
            );
        },
        None => {},
    }
    if compare_versions(current.version.as_str(), previous.version.as_str())
        == VersionOrder::Older {
        return Err(
            UpgradeError::Install(
                cat5(
                    "Cargo installed older version '",
                    current.version.as_str(),
                    "' over '",
                    previous.version.as_str(),
                    "'",
                ),
            ),
        );
    }
    Ok(())
}

/// An installation that Cargo is to perform.
#[derive(Debug)]
pub struct PendingInstall {
    before: InstallSnapshot,
    arguments: Vec<String>,
}

/// An installation that Cargo performed and that has to be verified.
#[derive(Debug)]
pub struct CompletedInstall {
    before: InstallSnapshot,
}

/// Starts an installation: both programs have to be the running build. Cargo is
/// then to be run with the pending arguments.
pub fn install_latest(
    before: Result<InstallSnapshot, UpgradeError>,
    record: &InstallRecord,
    identity: &BuildIdentity,
) -> (result: Result<PendingInstall, UpgradeError>)
    ensures
        match before {
            Err(error) => result == Err::<PendingInstall, UpgradeError>(error),
            Ok(snapshot) => match result {
                Ok(pending) => {
                    &&& snapshot@.main_identity == identity@
                    &&& snapshot@.semantic_identity == identity@
                    &&& pending.before_view() == snapshot@
                    &&& pending.arguments_view() == install_arguments(record@, identity@.features)
                },
                Err(error) => error@ == mismatch() && (snapshot@.main_identity != identity@
                    || snapshot@.semantic_identity != identity@),
            },
        },
{
    match before {
        Err(error) => Err(error),
        Ok(snapshot) => match validate_snapshot(&snapshot, identity) {
            Err(error) => Err(error),
            Ok(_) => Ok(
                PendingInstall { before: snapshot, arguments: cargo_install_args(record, identity) },
            ),
        },
    }
}

/// How the end of a command is described.
pub open spec fn exit_words(code: Option<i32>) -> Seq<char> {
    match code {
        Some(number) => signed_decimal(number as int),
        None => "terminated by signal"@,
    }
}

impl PendingInstall {
    /// The programs before the installation.
    pub closed spec fn before_view(&self) -> SnapshotView {
        self.before@
    }

    /// The arguments for Cargo.
    pub closed spec fn arguments_view(&self) -> Seq<Seq<char>> {
        texts(self.arguments@)
    }

    /// The arguments for Cargo.
    pub fn arguments(&self) -> (arguments: &Vec<String>)
        ensures
            texts(arguments@) == self.arguments_view(),
    {
        &self.arguments
    }

    /// Goes on after Cargo: only a successful run leads to a verification.
    pub fn cargo_finished(self, status: Result<CommandStatus, UpgradeError>) -> (result: Result<
        CompletedInstall,
        UpgradeError,
    >)
        ensures
            match status {
                Err(error) => result == Err::<CompletedInstall, UpgradeError>(error),
                Ok(done) => match result {
                    Ok(completed) => done.success && completed.before_view() == self.before_view(),
                    Err(error) => !done.success && error@ == UpgradeErrorView::Install(
                        "cargo install exited with status "@ + exit_words(done.code),
                    ),
                },
            },
    {
        match status {
            Err(error) => Err(error),
            Ok(done) => if done.success {
                Ok(CompletedInstall { before: self.before })
            } else {
                let code = match done.code {
                    Some(number) => to_signed_decimal(number),
                    None => "terminated by signal".to_owned(),
                };
                Err(
                    UpgradeError::Install(
                        cat2("cargo install exited with status ", code.as_str()),
                    ),
                )
            },
        }
    }
}

impl CompletedInstall {
    /// The programs before the installation.
    pub closed spec fn before_view(&self) -> SnapshotView {
        self.before@
    }

    /// Verifies the installed programs and tells whether they changed.
    pub fn verify(self, after: Result<InstallSnapshot, UpgradeError>, previous: &BuildIdentity) -> (
    result: Result<InstallOutcome, UpgradeError>)
        ensures
            match after {
                Err(cause) => result matches Err(error) && error@ == UpgradeErrorView::PostInstall(
                    upgrade_error_text(cause@),
                ),
                Ok(snapshot) => match result {
                    Ok(outcome) => {
                        &&& post_install_fault(snapshot@, previous@) is None
                        &&& outcome.after == snapshot
                        &&& outcome.changed == (self.before_view().main_hash != snapshot@.main_hash
                            || self.before_view().semantic_hash != snapshot@.semantic_hash)
                    },
                    Err(error) => post_install_fault(snapshot@, previous@) matches Some(fault)
                        && error@ == UpgradeErrorView::PostInstall(upgrade_error_text(fault)),
                },
            },
    {
        let snapshot = match after {
            Ok(snapshot) => snapshot,
            Err(cause) => {
                return Err(UpgradeError::PostInstall(cause.message()));
            },
        };
        match validate_post_install(&snapshot, previous) {
            Err(fault) => Err(UpgradeError::PostInstall(fault.message())),
            Ok(_) => {
                let changed = !same_digest(&self.before.main_hash, &snapshot.main_hash)
                    || !same_digest(&self.before.semantic_hash, &snapshot.semantic_hash);
                Ok(InstallOutcome { after: snapshot, changed })
            },
        }
    }
}

/// A verified installation keeps what the running binary was built with: the
/// package, the target and every feature, in both programs, and its version is
/// not older.
pub proof fn verified_install_preserves_capabilities(after: SnapshotView, previous: IdentityView)
    requires
        post_install_fault(after, previous) is None,
    ensures
        after.main_identity == after.semantic_identity,
        after.main_identity.name == "obsidian-mcp"@,
        after.main_identity.target == previous.target,
        after.main_identity.features == previous.features,
        order_of_sign(version_sign(after.main_identity.version, previous.version))
            != VersionOrder::Older,
{
}

/// Cargo is told to lock dependencies and to build exactly the features of the
/// running binary, without the defaults of a later release, for the same target
/// and profile, into the same root.
pub proof fn arguments_preserve_the_build(record: RecordView, features: Seq<Seq<char>>)
    ensures
        ({
            let args = install_arguments(record, features);
            &&& args.contains("--locked"@)
            &&& args.contains("--no-default-features"@)
            &&& args[2] == "--root"@ && args[3] == record.root
            &&& args[8] == "--profile"@ && args[9] == record.profile
            &&& args[10] == "--target"@ && args[11] == record.target
            &&& features.len() == 0 ==> args.len() == 13
            &&& features.len() > 0 ==> args.len() == 15 && args[13] == "--features"@ && args[14]
                == joined(features, ","@)
        }),
{
    let args = install_arguments(record, features);
    assert(args[6] == "--locked"@);
    assert(args[12] == "--no-default-features"@);
}

/// Cargo is never told to overwrite what it does not own or to forget what it
/// installs: apart from the recorded root, profile, target and features no
/// argument asks for that.
pub proof fn cargo_is_never_forced(record: RecordView, features: Seq<Seq<char>>, i: int)
    requires
        0 <= i < install_arguments(record, features).len(),
        i != 3,
        i != 9,
        i != 11,
        i != 14,
    ensures
        install_arguments(record, features)[i] != "--force"@,
        install_arguments(record, features)[i] != "--no-track"@,
{
    reveal_strlit("--force");
    reveal_strlit("--no-track");
    reveal_strlit("install");
    reveal_strlit("obsidian-mcp");
    reveal_strlit("--root");
    reveal_strlit("--registry");
    reveal_strlit("crates-io");
    reveal_strlit("--locked");
    reveal_strlit("--bins");
    reveal_strlit("--profile");
    reveal_strlit("--target");
    reveal_strlit("--no-default-features");
    reveal_strlit("--features");
    let args = install_arguments(record, features);
    assert("--force"@.len() == 7 && "--no-track"@.len() == 10 && "install"@.len() == 7);
    assert("obsidian-mcp"@.len() == 12 && "--root"@.len() == 6 && "--registry"@.len() == 10);
    assert("crates-io"@.len() == 9 && "--locked"@.len() == 8 && "--bins"@.len() == 6);
    assert("--profile"@.len() == 9 && "--target"@.len() == 8 && "--features"@.len() == 10);
    assert("--no-default-features"@.len() == 21);
    assert("--force"@[0] == '-' && "install"@[0] == 'i');
    assert("--no-track"@[2] == 'n' && "--registry"@[2] == 'r' && "--features"@[2] == 'f');
    assert(args[0] == "install"@ && args[1] == "obsidian-mcp"@ && args[2] == "--root"@);
    assert(args[4] == "--registry"@ && args[5] == "crates-io"@ && args[6] == "--locked"@);
    assert(args[7] == "--bins"@ && args[8] == "--profile"@ && args[10] == "--target"@);
    assert(args[12] == "--no-default-features"@);
    assert(features.len() > 0 ==> args[13] == "--features"@);
}

/// Only a package of the official registry that owns both programs, with the
/// target of the running binary, is accepted.
pub proof fn accepted_install_is_official(
    location: LocationView,
    tracker: TrackerView,
    identity: IdentityView,
    windows: bool,
    main_present: bool,
    semantic_present: bool,
)
    requires
        install_outcome(location, tracker, identity, windows, main_present, semantic_present) is Ok,
    ensures
        tracker is Installs,
        ({
            let records = records_of(tracker->Installs_0, package_prefix(identity.version));
            &&& records.len() == 1
            &&& source_of(records[0].package_id) matches Some(source) && is_official(source)
            &&& owns_binary(records[0].bins, "obsidian-mcp"@)
            &&& owns_binary(records[0].bins, "obsidian-semanticd"@)
            &&& records[0].target == Some(identity.target)
        }),
        main_present && semantic_present,
{
}

/// An installation is accepted exactly where Cargo tracks it once, from the official
/// registry, with both binaries owned and present, a profile, the target of the running
/// binary and no feature that the running binary lacks. What is accepted is its root, its
/// profile and its target.
pub proof fn accepted_installations(
    location: LocationView,
    list: Seq<TrackedView>,
    identity: IdentityView,
    windows: bool,
    main_present: bool,
    semantic_present: bool,
)
    ensures
        ({
            let outcome = install_outcome(
                location,
                TrackerView::Installs(list),
                identity,
                windows,
                main_present,
                semantic_present,
            );
            let records = records_of(list, "obsidian-mcp "@ + identity.version + " ("@);
            let record = records[0];
            &&& outcome is Ok <==> {
                &&& records.len() == 1
                &&& source_of(record.package_id) matches Some(source) && (source
                    == "registry+https://github.com/rust-lang/crates.io-index"@ || source
                    == "sparse+https://index.crates.io/"@)
                &&& owns_binary(record.bins, "obsidian-mcp"@)
                &&& owns_binary(record.bins, "obsidian-semanticd"@)
                &&& main_present && semantic_present
                &&& trimmed(record.profile).len() > 0
                &&& record.target == Some(identity.target)
                &&& forall|f: Seq<char>| #[trigger]
                    chosen_features(record.features).contains(f) ==> identity.features.contains(f)
            }
            &&& outcome matches Ok(found) ==> found.root == location.root && found.profile
                == record.profile && found.target == identity.target
        }),
{
}

/// The records of a package are those whose identifier starts with it, in their order.
pub proof fn records_are_chosen_by_package(
    list: Seq<TrackedView>,
    record: TrackedView,
    prefix: Seq<char>,
)
    ensures
        records_of(Seq::<TrackedView>::empty(), prefix).len() == 0,
        records_of(list.push(record), prefix) == if prefix.is_prefix_of(record.package_id) {
            records_of(list, prefix).push(record)
        } else {
            records_of(list, prefix)
        },
{
    assert(list.push(record).drop_last() =~= list);
}

/// The features that were chosen are all but `default`, in their order.
pub proof fn chosen_features_leave_out_default(features: Seq<Seq<char>>, feature: Seq<char>)
    ensures
        chosen_features(Seq::<Seq<char>>::empty()).len() == 0,
        chosen_features(features.push(feature)) == if feature == "default"@ {
            chosen_features(features)
        } else {
            chosen_features(features).push(feature)
        },
{
    assert(features.push(feature).drop_last() =~= features);
}

/// A package's binaries are told without the ending that Windows gives them.
pub proof fn endings_do_not_matter(name: Seq<char>, bins: Seq<Seq<char>>, i: int, stem: Seq<char>)
    ensures
        without_exe(name + ".exe"@) == without_exe(name),
        !".exe"@.is_suffix_of(name) ==> without_exe(name) == name,
        0 <= i < bins.len() && without_exe(bins[i]) == stem ==> owns_binary(bins, stem),
{
    reveal_strlit(".exe");
    let whole = name + ".exe"@;
    assert(".exe"@ =~= seq!['.', 'e', 'x', 'e']);
    assert(whole.skip(whole.len() - 4) =~= seq!['.', 'e', 'x', 'e']);
    assert(whole.take(whole.len() - 4) =~= name);
    if name.len() >= 4 && name.skip(name.len() - 4) == seq!['.', 'e', 'x', 'e'] {
        assert(name.subrange(name.len() - 4, name.len() as int) =~= name.skip(name.len() - 4));
        assert(".exe"@.is_suffix_of(name));
    }
}

/// A replacement is accepted exactly where both binaries are of one build, of this
/// package, with the target and the features of the one before, and of a version that is
/// not older.
pub proof fn accepted_replacements(after: SnapshotView, previous: IdentityView)
    ensures
        post_install_fault(after, previous) is None <==> {
            &&& after.main_identity == after.semantic_identity
            &&& after.main_identity.name == "obsidian-mcp"@
            &&& after.main_identity.target == previous.target
            &&& after.main_identity.features == previous.features
            &&& version_fault(previous.version) is None
            &&& version_fault(after.main_identity.version) is None
            &&& version_sign(after.main_identity.version, previous.version) >= 0
        },
{
}

/// The binaries of an installation lie in its `bin` directory.
pub proof fn binaries_lie_in_the_bin_directory(root: Seq<char>, stem: Seq<char>)
    ensures
        installed_path(root, stem, false) == joined_path(joined_path(root, "bin"@, false), stem, false),
        installed_path(root, stem, true) == joined_path(
            joined_path(root, "bin"@, true),
            stem + ".exe"@,
            true,
        ),
{
}

proof fn lemma_last_exists(s: Seq<char>, pattern: Seq<char>, i: int)
    requires
        occurs_at(s, pattern, i),
    ensures
        exists|k: int| is_last_at(s, pattern, k),
    decreases s.len() - i,
{
    if exists|j: int| i < j && occurs_at(s, pattern, j) {
        let j = choose|j: int| i < j && occurs_at(s, pattern, j);
        lemma_last_exists(s, pattern, j);
    } else {
        assert(is_last_at(s, pattern, i));
    }
}

/// The source of a package stands in brackets at the end of its identifier, behind the
/// last blank and opening bracket.
pub proof fn sources_stand_in_brackets_at_the_end(package_id: Seq<char>)
    ensures
        source_of(package_id) is Some <==> package_id.len() > 0 && package_id.last() == ')'
            && contains_text(package_id.drop_last(), " ("@),
        source_of(package_id) matches Some(source) ==> (" ("@ + source + ")"@).is_suffix_of(package_id),
{
    reveal_strlit(" (");
    reveal_strlit(")");
    if package_id.len() > 0 && package_id.last() == ')' {
        let s = package_id.drop_last();
        let sep = " ("@;
        if contains_text(s, sep) {
            let i = choose|i: int| occurs_at(s, sep, i);
            lemma_last_exists(s, sep, i);
            let k = choose|k: int| is_last_at(s, sep, k);
            assert(occurs_at(s, sep, k));
            let source = s.skip(k + sep.len());
            assert(source_of(package_id) == Some(source));
            let tail = sep + source + ")"@;
            assert forall|m: int| 0 <= m < sep.len() implies s[k + m] == sep[m] by {
                assert(s.subrange(k, k + sep.len())[m] == s[k + m]);
            }
            assert(tail =~= package_id.subrange(package_id.len() - tail.len(), package_id.len() as int));
        }
    }
}

} // verus!
