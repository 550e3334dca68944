//! Downloads of the daemon: the release asset and the program inside it.

use crate::error::{VaultError, VaultErrorView};
use crate::number::{hex, to_hex};
use crate::path::{file_name, file_name_of};
use crate::text::{cat2, cat3, cat4, cat5, contains, contains_text, ends_with, same};
use crate::vault::digest::{sha256, sha256_of};
use vstd::prelude::*;

verus! {

/// How a download is packed.
#[derive(Debug, Clone, Copy, PartialEq, Eq, Structural)]
pub enum Packing {
    Zip,
    TarGz,
    /// The program itself.
    Plain,
}

/// How a download is packed, by the end of its address.
pub open spec fn packing_of(url: Seq<char>) -> Packing {
    if ".zip"@.is_suffix_of(url) {
        Packing::Zip
    } else if ".tar.gz"@.is_suffix_of(url) {
        Packing::TarGz
    } else {
        Packing::Plain
    }
}

/// How a download is packed, by the end of its address.
pub fn packing(url: &str) -> (packing: Packing)
    ensures
        packing == packing_of(url@),
{
    if ends_with(url, ".zip") {
        Packing::Zip
    } else if ends_with(url, ".tar.gz") {
        Packing::TarGz
    } else {
        Packing::Plain
    }
}

/// The checksum of a download, in hexadecimal notation.
pub fn sha256_hex(bytes: &[u8]) -> (checksum: String)
    ensures
        checksum@ == hex(sha256(bytes@)),
{
    let digest = sha256_of(bytes);
    let mut list: Vec<u8> = Vec::new();
    let mut i: usize = 0;
    while i < 32
        invariant
            i <= 32,
            digest@.len() == 32,
            list@ == digest@.take(i as int),
        decreases 32 - i,
    {
        list.push(digest[i]);
        assert(list@ =~= digest@.take(i + 1));
        i += 1;
    }
    assert(list@ =~= digest@);
    to_hex(&list)
}

/// What went wrong with a download.
#[derive(Debug, PartialEq, Eq)]
pub enum DownloadFailure {
    Request(String),
    /// The status of a reply that is no success.
    Status(String),
    Body(String),
}

/// The error of a download.
pub fn download_error(url: &str, failure: &DownloadFailure) -> (error: VaultError)
    ensures
        error@ == VaultErrorView::DaemonBootstrap(
            match failure {
                DownloadFailure::Request(cause) => "failed to download daemon binary '"@ + url@
                    + "': "@ + cause@,
                DownloadFailure::Status(status) => "failed to download daemon binary '"@ + url@
                    + "': HTTP "@ + status@,
                DownloadFailure::Body(cause) => "failed to read daemon download bytes: "@ + cause@,
            },
        ),
{
    VaultError::DaemonBootstrap(
        match failure {
            DownloadFailure::Request(cause) => cat4(
                "failed to download daemon binary '",
                url,
                "': ",
                cause.as_str(),
            ),
            DownloadFailure::Status(status) => cat4(
                "failed to download daemon binary '",
                url,
                "': HTTP ",
                status.as_str(),
            ),
            DownloadFailure::Body(cause) => cat2(
                "failed to read daemon download bytes: ",
                cause.as_str(),
            ),
        },
    )
}

/// What stands at a position of a compressed archive.
#[derive(Debug, PartialEq, Eq)]
pub enum TarItem {
    /// The archive has no more entries.
    End,
    /// The archive's entries cannot be read.
    NoEntries(String),
    /// The entry cannot be read.
    NoEntry(String),
    /// The path of the entry cannot be read.
    NoPath(String),
    /// An entry: its path, whether it is a regular file, and its type in words.
    Entry { path: String, is_file: bool, kind: String },
}

/// What stands at a position of a compressed archive, with texts as characters.
pub enum TarView {
    End,
    NoEntries(Seq<char>),
    NoEntry(Seq<char>),
    NoPath(Seq<char>),
    Entry { path: Seq<char>, is_file: bool, kind: Seq<char> },
}

impl View for TarItem {
    type V = TarView;

    open spec fn view(&self) -> TarView {
        match self {
            TarItem::End => TarView::End,
            TarItem::NoEntries(cause) => TarView::NoEntries(cause@),
            TarItem::NoEntry(cause) => TarView::NoEntry(cause@),
            TarItem::NoPath(cause) => TarView::NoPath(cause@),
            TarItem::Entry { path, is_file, kind } => TarView::Entry {
                path: path@,
                is_file: *is_file,
                kind: kind@,
            },
        }
    }
}

/// What the archive reader finds at a position of a compressed archive.
pub uninterp spec fn tar_at(archive: Seq<u8>, index: nat) -> TarView;

/// `tar::Archive::entries` over `flate2::read::GzDecoder`, at a position: the
/// entry's `path` and its `entry_type`. What the bytes hold is not said here.
#[verifier::external_body]
fn tar_item(archive: &[u8], index: usize) -> (item: TarItem)
    ensures
        item@ == tar_at(archive@, index as nat),
{
    let mut reader = tar::Archive::new(flate2::read::GzDecoder::new(archive));
    match reader.entries().map(|mut entries| entries.nth(index)) {
        Err(cause) => TarItem::NoEntries(cause.to_string()),
        Ok(None) => TarItem::End,
        Ok(Some(Err(cause))) => TarItem::NoEntry(cause.to_string()),
        Ok(Some(Ok(entry))) => match entry.path() {
            Err(cause) => TarItem::NoPath(cause.to_string()),
            Ok(path) => TarItem::Entry {
                path: path.to_string_lossy().into_owned(),
                is_file: entry.header().entry_type().is_file(),
                kind: format!("{:?}", entry.header().entry_type()),
            },
        },
    }
}

/// What a position of an archive means for the search of a program.
pub enum Search {
    /// Go on behind it.
    Next,
    /// The program is here.
    Here,
    Failed(VaultErrorView),
}

/// What an entry means for the search of a program.
pub open spec fn tar_search(item: TarView, wanted: Seq<char>, windows: bool) -> Search {
    match item {
        TarView::End => Search::Failed(
            VaultErrorView::DaemonBootstrap(
                "downloaded tar.gz archive does not contain '"@ + wanted + "'"@,
            ),
        ),
        TarView::NoEntries(cause) => Search::Failed(
            VaultErrorView::DaemonBootstrap("failed to read tar.gz entries: "@ + cause),
        ),
        TarView::NoEntry(cause) => Search::Failed(
            VaultErrorView::DaemonBootstrap("failed to read tar.gz entry: "@ + cause),
        ),
        TarView::NoPath(cause) => Search::Failed(
            VaultErrorView::DaemonBootstrap("failed to inspect tar.gz path: "@ + cause),
        ),
        TarView::Entry { path, is_file, kind } => if file_name_of(path, windows) != Some(wanted) {
            Search::Next
        } else if !is_file {
            Search::Failed(
                VaultErrorView::DaemonBootstrap(
                    "tar entry '"@ + wanted + "' is not a regular file (type: "@ + kind
                        + "); refusing to extract"@,
                ),
            )
        } else {
            Search::Here
        },
    }
}

/// What to do with an entry of an archive.
#[derive(Debug, PartialEq, Eq)]
pub enum EntryStep {
    /// Go on behind it.
    Next,
    /// The program is here.
    Here,
    Failed(VaultError),
}

/// A step as a mathematical value.
pub open spec fn step_view(step: EntryStep) -> Search {
    match step {
        EntryStep::Next => Search::Next,
        EntryStep::Here => Search::Here,
        EntryStep::Failed(error) => Search::Failed(error@),
    }
}

/// What an entry means for the search of a program.
pub fn tar_entry_step(item: &TarItem, wanted: &str, windows: bool) -> (step: EntryStep)
    ensures
        step_view(step) == tar_search(item@, wanted@, windows),
{
    match item {
        TarItem::End => EntryStep::Failed(
            VaultError::DaemonBootstrap(
                cat3("downloaded tar.gz archive does not contain '", wanted, "'"),
            ),
        ),
        TarItem::NoEntries(cause) => EntryStep::Failed(
            VaultError::DaemonBootstrap(cat2("failed to read tar.gz entries: ", cause.as_str())),
        ),
        TarItem::NoEntry(cause) => EntryStep::Failed(
            VaultError::DaemonBootstrap(cat2("failed to read tar.gz entry: ", cause.as_str())),
        ),
        TarItem::NoPath(cause) => EntryStep::Failed(
            VaultError::DaemonBootstrap(cat2("failed to inspect tar.gz path: ", cause.as_str())),
        ),
        TarItem::Entry { path, is_file, kind } => {
            let named = match file_name(path.as_str(), windows) {
                Some(name) => same(name.as_str(), wanted),
                None => false,
            };
            if !named {
                EntryStep::Next
            } else if !*is_file {
                EntryStep::Failed(
                    VaultError::DaemonBootstrap(
                        cat5(
                            "tar entry '",
                            wanted,
                            "' is not a regular file (type: ",
                            kind.as_str(),
                            "); refusing to extract",
                        ),
                    ),
                )
            } else {
                EntryStep::Here
            }
        },
    }
}

/// Whether the search goes on behind each of the first entries of a compressed archive.
pub open spec fn tar_passed(
    archive: Seq<u8>,
    wanted: Seq<char>,
    windows: bool,
    index: nat,
) -> bool {
    forall|k: nat| k < index ==> #[trigger] tar_search(
        tar_at(archive, k),
        wanted,
        windows,
    ) is Next
}

/// The position of the program in a compressed archive: the first entry with its
/// name, which has to be a regular file.
pub fn extract_tar_gz_binary(archive: &[u8], wanted: &str, windows: bool) -> (result: Result<
    usize,
    VaultError,
>)
    ensures
        match result {
            Ok(index) => tar_passed(archive@, wanted@, windows, index as nat) && tar_search(
                tar_at(archive@, index as nat),
                wanted@,
                windows,
            ) is Here,
            Err(error) => exists|index: nat| #[trigger]
                tar_passed(archive@, wanted@, windows, index) && Search::Failed(error@) == tar_search(
                    if index == usize::MAX {
                        TarView::End
                    } else {
                        tar_at(archive@, index)
                    },
                    wanted@,
                    windows,
                ),
        },
{
    let mut index: usize = 0;
    while index < usize::MAX
        invariant
            tar_passed(archive@, wanted@, windows, index as nat),
        decreases usize::MAX - index,
    {
        let item = tar_item(archive, index);
        match tar_entry_step(&item, wanted, windows) {
            EntryStep::Next => {},
            EntryStep::Here => {
                return Ok(index);
            },
            EntryStep::Failed(error) => {
                assert(tar_passed(archive@, wanted@, windows, index as nat));
                return Err(error);
            },
        }
        index += 1;
    }
    let error = VaultError::DaemonBootstrap(
        cat3("downloaded tar.gz archive does not contain '", wanted, "'"),
    );
    assert(tar_passed(archive@, wanted@, windows, usize::MAX as nat));
    Err(error)
}

/// What stands at a position of a zip archive.
#[derive(Debug, PartialEq, Eq)]
pub enum ZipItem {
    /// The archive has no more entries.
    End,
    /// The archive cannot be opened.
    NoArchive(String),
    /// The entry cannot be read.
    NoEntry(String),
    Entry { name: String, is_dir: bool },
}

/// What stands at a position of a zip archive, with texts as characters.
pub enum ZipView {
    End,
    NoArchive(Seq<char>),
    NoEntry(Seq<char>),
    Entry { name: Seq<char>, is_dir: bool },
}

impl View for ZipItem {
    type V = ZipView;

    open spec fn view(&self) -> ZipView {
        match self {
            ZipItem::End => ZipView::End,
            ZipItem::NoArchive(cause) => ZipView::NoArchive(cause@),
            ZipItem::NoEntry(cause) => ZipView::NoEntry(cause@),
            ZipItem::Entry { name, is_dir } => ZipView::Entry { name: name@, is_dir: *is_dir },
        }
    }
}

/// What the archive reader finds at a position of a zip archive.
pub uninterp spec fn zip_at(archive: Seq<u8>, index: nat) -> ZipView;

/// `zip::ZipArchive::new` and `by_index`: the entry's `name` and `is_dir`. What
/// the bytes hold is not said here.
#[verifier::external_body]
fn zip_item(archive: &[u8], index: usize) -> (item: ZipItem)
    ensures
        item@ == zip_at(archive@, index as nat),
{
    let mut reader = match zip::ZipArchive::new(std::io::Cursor::new(archive)) {
        Err(cause) => return ZipItem::NoArchive(cause.to_string()),
        Ok(reader) => reader,
    };
    match reader.by_index(index).and_then(|f| Ok((f.name()?.into_owned(), f.is_dir()))) {
        Err(zip::result::ZipError::FileNotFound) => ZipItem::End,
        Err(cause) => ZipItem::NoEntry(cause.to_string()),
        Ok((name, is_dir)) => ZipItem::Entry { name, is_dir },
    }
}

/// What an entry means for the search of a program.
pub open spec fn zip_search(item: ZipView, wanted: Seq<char>, windows: bool) -> Search {
    match item {
        ZipView::End => Search::Failed(
            VaultErrorView::DaemonBootstrap(
                "downloaded zip archive does not contain '"@ + wanted + "'"@,
            ),
        ),
        ZipView::NoArchive(cause) => Search::Failed(
            VaultErrorView::DaemonBootstrap("failed to open zip archive: "@ + cause),
        ),
        ZipView::NoEntry(cause) => Search::Failed(
            VaultErrorView::DaemonBootstrap("failed to read zip entry: "@ + cause),
        ),
        ZipView::Entry { name, is_dir } => if file_name_of(name, windows) != Some(wanted) {
            Search::Next
        } else if is_dir {
            Search::Failed(
                VaultErrorView::DaemonBootstrap(
                    "zip entry '"@ + name + "' is a directory; refusing to extract"@,
                ),
            )
        } else if contains_text(name, ".."@) {
            Search::Failed(
                VaultErrorView::DaemonBootstrap(
                    "zip entry '"@ + name
                        + "' contains path traversal sequence; refusing to extract"@,
                ),
            )
        } else {
            Search::Here
        },
    }
}

/// What an entry means for the search of a program.
pub fn zip_entry_step(item: &ZipItem, wanted: &str, windows: bool) -> (step: EntryStep)
    ensures
        step_view(step) == zip_search(item@, wanted@, windows),
{
    match item {
        ZipItem::End => EntryStep::Failed(
            VaultError::DaemonBootstrap(
                cat3("downloaded zip archive does not contain '", wanted, "'"),
            ),
        ),
        ZipItem::NoArchive(cause) => EntryStep::Failed(
            VaultError::DaemonBootstrap(cat2("failed to open zip archive: ", cause.as_str())),
        ),
        ZipItem::NoEntry(cause) => EntryStep::Failed(
            VaultError::DaemonBootstrap(cat2("failed to read zip entry: ", cause.as_str())),
        ),
        ZipItem::Entry { name, is_dir } => {
            let named = match file_name(name.as_str(), windows) {
                Some(last) => same(last.as_str(), wanted),
                None => false,
            };
            if !named {
                EntryStep::Next
            } else if *is_dir {
                EntryStep::Failed(
                    VaultError::DaemonBootstrap(
                        cat3(
                            "zip entry '",
                            name.as_str(),
                            "' is a directory; refusing to extract",
                        ),
                    ),
                )
            } else if contains(name.as_str(), "..") {
                EntryStep::Failed(
                    VaultError::DaemonBootstrap(
                        cat3(
                            "zip entry '",
                            name.as_str(),
                            "' contains path traversal sequence; refusing to extract",
                        ),
                    ),
                )
            } else {
                EntryStep::Here
            }
        },
    }
}

/// Whether the search goes on behind each of the first entries of a zip archive.
pub open spec fn zip_passed(
    archive: Seq<u8>,
    wanted: Seq<char>,
    windows: bool,
    index: nat,
) -> bool {
    forall|k: nat| k < index ==> #[trigger] zip_search(
        zip_at(archive, k),
        wanted,
        windows,
    ) is Next
}

/// The position of the program in a zip archive: the first entry with its name,
/// which has to be a file and whose name has to stay inside the archive.
pub fn extract_zip_binary(archive: &[u8], wanted: &str, windows: bool) -> (result: Result<
    usize,
    VaultError,
>)
    ensures
        match result {
            Ok(index) => zip_passed(archive@, wanted@, windows, index as nat) && zip_search(
                zip_at(archive@, index as nat),
                wanted@,
                windows,
            ) is Here,
            Err(error) => exists|index: nat| #[trigger]
                zip_passed(archive@, wanted@, windows, index) && Search::Failed(error@) == zip_search(
                    if index == usize::MAX {
                        ZipView::End
                    } else {
                        zip_at(archive@, index)
                    },
                    wanted@,
                    windows,
                ),
        },
{
    let mut index: usize = 0;
    while index < usize::MAX
        invariant
            zip_passed(archive@, wanted@, windows, index as nat),
        decreases usize::MAX - index,
    {
        let item = zip_item(archive, index);
        match zip_entry_step(&item, wanted, windows) {
            EntryStep::Next => {},
            EntryStep::Here => {
                return Ok(index);
            },
            EntryStep::Failed(error) => {
                assert(zip_passed(archive@, wanted@, windows, index as nat));
                return Err(error);
            },
        }
        index += 1;
    }
    let error = VaultError::DaemonBootstrap(
        cat3("downloaded zip archive does not contain '", wanted, "'"),
    );
    assert(zip_passed(archive@, wanted@, windows, usize::MAX as nat));
    Err(error)
}

/// What is taken out of a zip archive has the wanted name, is no directory and
/// has no name with two dots.
pub proof fn zip_program_stays_inside(item: ZipView, wanted: Seq<char>, windows: bool)
    requires
        zip_search(item, wanted, windows) is Here,
    ensures
        item matches ZipView::Entry { name, is_dir } && file_name_of(name, windows) == Some(wanted)
            && !is_dir && !contains_text(name, ".."@),
{
}

/// What is taken out of a compressed archive has the wanted name and is a
/// regular file.
pub proof fn tar_program_is_a_file(item: TarView, wanted: Seq<char>, windows: bool)
    requires
        tar_search(item, wanted, windows) is Here,
    ensures
        item matches TarView::Entry { path, is_file, .. } && file_name_of(path, windows) == Some(wanted)
            && is_file,
{
}

/// The error when the program could not be taken out of an archive.
pub fn unpack_error(packing: Packing, destination: &str, cause: &str) -> (error: VaultError)
    ensures
        error@ == VaultErrorView::DaemonBootstrap(
            if packing == Packing::Zip {
                "failed to extract daemon binary to '"@
            } else {
                "failed to unpack daemon binary to '"@
            } + destination@ + "': "@ + cause@,
        ),
{
    let head = if packing == Packing::Zip {
        "failed to extract daemon binary to '"
    } else {
        "failed to unpack daemon binary to '"
    };
    VaultError::DaemonBootstrap(cat4(head, destination, "': ", cause))
}

/// What is looked for in an archive is the first regular file with the wanted name; an
/// entry of another name is passed over, whatever it is, and the search fails where
/// the archive ends, cannot be read, or has something else under that name.
pub proof fn archives_are_searched_by_name(
    path: Seq<char>,
    flag: bool,
    kind: Seq<char>,
    cause: Seq<char>,
    wanted: Seq<char>,
    windows: bool,
)
    ensures
        ({
            let tar = tar_search(TarView::Entry { path, is_file: flag, kind }, wanted, windows);
            let zip = zip_search(ZipView::Entry { name: path, is_dir: flag }, wanted, windows);
            let named = file_name_of(path, windows) == Some(wanted);
            &&& tar is Next <==> !named
            &&& tar is Here <==> named && flag
            &&& tar is Failed <==> named && !flag
            &&& zip is Next <==> !named
            &&& zip is Here <==> named && !flag && !contains_text(path, ".."@)
            &&& zip is Failed <==> named && (flag || contains_text(path, ".."@))
        }),
        tar_search(TarView::End, wanted, windows) is Failed,
        tar_search(TarView::NoEntries(cause), wanted, windows) is Failed,
        tar_search(TarView::NoEntry(cause), wanted, windows) is Failed,
        tar_search(TarView::NoPath(cause), wanted, windows) is Failed,
        zip_search(ZipView::End, wanted, windows) is Failed,
        zip_search(ZipView::NoArchive(cause), wanted, windows) is Failed,
        zip_search(ZipView::NoEntry(cause), wanted, windows) is Failed,
{
}

/// The end of an address tells how a download is packed.
pub proof fn packing_goes_by_the_ending(stem: Seq<char>, url: Seq<char>)
    ensures
        packing_of(stem + ".zip"@) == Packing::Zip,
        packing_of(stem + ".tar.gz"@) == Packing::TarGz,
        packing_of(url) == Packing::Plain <==> !".zip"@.is_suffix_of(url) && !".tar.gz"@.is_suffix_of(
            url,
        ),
{
    reveal_strlit(".zip");
    reveal_strlit(".tar.gz");
    let zip = stem + ".zip"@;
    assert(zip.subrange(zip.len() - 4, zip.len() as int) =~= ".zip"@);
    let tar = stem + ".tar.gz"@;
    assert(tar.subrange(tar.len() - 7, tar.len() as int) =~= ".tar.gz"@);
    assert(tar.last() == 'z');
    assert(tar[tar.len() - 2] == 'g');
    if ".zip"@.is_suffix_of(tar) {
        assert(tar.last() == ".zip"@[3]);
    }
}

} // verus!
