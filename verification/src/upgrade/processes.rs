//! Running processes of the installed binary that no supported manager owns.

use crate::number::{decimal, number_of, parse_number, to_decimal};
use crate::path::{components, same_path};
use crate::text::{
    join, joined, lines, lossy_text, text_of, opt_str, opt_text, same_ignoring_case, split_lines,
    split_words,
    strip_prefix, strip_suffix, texts, trim, trimmed, words,
};
use crate::upgrade::{asks_for_http, wants_http, CommandOutput, UpgradeError, UpgradeErrorView};
use vstd::prelude::*;

verus! {

/// A process that runs the installed binary.
#[derive(Debug, PartialEq, Eq)]
pub struct ProcessCandidate {
    pub pid: u32,
    pub arguments: Vec<String>,
    pub transport: Option<String>,
    pub listens_tcp: bool,
}

/// Whether a process serves HTTP: it was asked to, or it listens.
pub open spec fn serves_http(
    arguments: Seq<Seq<char>>,
    transport: Option<Seq<char>>,
    listens_tcp: bool,
) -> bool {
    asks_for_http(arguments, transport) || listens_tcp
}

/// Whether a process serves HTTP: it was asked to, or it listens.
pub fn is_http_runtime(arguments: &[String], transport: Option<&str>, listens_tcp: bool) -> (http:
    bool)
    ensures
        http == serves_http(texts(arguments@), opt_str(transport), listens_tcp),
{
    wants_http(arguments, transport) || listens_tcp
}

/// Whether a process is another one than the current, belongs to no manager and
/// serves HTTP.
pub open spec fn is_unmanaged(candidate: ProcessCandidate, managed: Seq<u32>, current: u32) -> bool {
    &&& candidate.pid != current
    &&& !managed.contains(candidate.pid)
    &&& serves_http(
        texts(candidate.arguments@),
        opt_text(candidate.transport),
        candidate.listens_tcp,
    )
}

/// Whether numbers are distinct and ascending.
pub open spec fn ascending(list: Seq<u32>) -> bool {
    forall|i: int, j: int| 0 <= i < j < list.len() ==> #[trigger] list[i] < #[trigger] list[j]
}

fn is_member(list: &[u32], wanted: u32) -> (found: bool)
    ensures
        found == list@.contains(wanted),
{
    let mut i: usize = 0;
    while i < list.len()
        invariant
            i <= list@.len(),
            forall|k: int| 0 <= k < i ==> list@[k] != wanted,
        decreases list@.len() - i,
    {
        if list[i] == wanted {
            return true;
        }
        i += 1;
    }
    false
}

fn insert_number(list: &mut Vec<u32>, number: u32)
    requires
        ascending(old(list)@),
    ensures
        ascending(final(list)@),
        forall|n: u32| #[trigger]
            final(list)@.contains(n) <==> n == number || old(list)@.contains(n),
{
    let ghost first = list@;
    let mut i: usize = 0;
    while i < list.len() && list[i] < number
        invariant
            i <= list@.len(),
            list@ == first,
            forall|k: int| 0 <= k < i ==> first[k] < number,
        decreases list@.len() - i,
    {
        i += 1;
    }
    if i < list.len() && list[i] == number {
        assert(first.contains(number));
        return;
    }
    list.insert(i, number);
    proof {
        assert(list@ =~= first.insert(i as int, number));
        assert forall|p: int, q: int| 0 <= p < q < list@.len() implies #[trigger] list@[p]
            < #[trigger] list@[q] by {
            if p < i && q > i {
                assert(first[p] < first[q - 1]);
            } else if p == i {
                if q - 1 > i {
                    assert(first[i as int] < first[q - 1]);
                }
            } else if p > i {
                assert(first[p - 1] < first[q - 1]);
            }
        }
        assert forall|n: u32| #[trigger] list@.contains(n) <==> n == number || first.contains(n) by {
            if list@.contains(n) {
                let k = choose|k: int| 0 <= k < list@.len() && list@[k] == n;
                if k < i {
                    assert(first[k] == n);
                } else if k > i {
                    assert(first[k - 1] == n);
                }
            }
            if n == number {
                assert(list@[i as int] == n);
            }
            if first.contains(n) {
                let k = choose|k: int| 0 <= k < first.len() && first[k] == n;
                if k < i {
                    assert(list@[k] == n);
                } else {
                    assert(list@[k + 1] == n);
                }
            }
        }
    }
}

/// The processes that serve HTTP and belong to no manager, in ascending order.
/// Processes of a client that speaks through standard input are left alone:
/// replacing the file does not disturb them.
pub fn unmanaged_http_processes(
    candidates: &Vec<ProcessCandidate>,
    managed_pids: &[u32],
    current_pid: u32,
) -> (pids: Vec<u32>)
    ensures
        ascending(pids@),
        forall|pid: u32| #[trigger]
            pids@.contains(pid) <==> exists|i: int|
                0 <= i < candidates@.len() && (#[trigger] candidates@[i]).pid == pid
                    && is_unmanaged(candidates@[i], managed_pids@, current_pid),
{
    let mut pids: Vec<u32> = Vec::new();
    let mut i: usize = 0;
    while i < candidates.len()
        invariant
            i <= candidates@.len(),
            ascending(pids@),
            forall|pid: u32| #[trigger]
                pids@.contains(pid) <==> exists|k: int|
                    0 <= k < i && (#[trigger] candidates@[k]).pid == pid && is_unmanaged(
                        candidates@[k],
                        managed_pids@,
                        current_pid,
                    ),
        decreases candidates@.len() - i,
    {
        let candidate = &candidates[i];
        let ghost before_pids = pids@;
        let transport = match &candidate.transport {
            Some(text) => Some(text.as_str()),
            None => None,
        };
        let unmanaged = candidate.pid != current_pid && !is_member(managed_pids, candidate.pid)
            && is_http_runtime(candidate.arguments.as_slice(), transport, candidate.listens_tcp);
        assert(unmanaged == is_unmanaged(candidates@[i as int], managed_pids@, current_pid));
        if unmanaged {
            insert_number(&mut pids, candidate.pid);
        }
        assert forall|pid: u32| #[trigger] pids@.contains(pid) <==> exists|k: int|
            0 <= k < i + 1 && (#[trigger] candidates@[k]).pid == pid && is_unmanaged(
                candidates@[k],
                managed_pids@,
                current_pid,
            ) by {
            if pids@.contains(pid) {
                if before_pids.contains(pid) {
                    let k = choose|k: int|
                        0 <= k < i && (#[trigger] candidates@[k]).pid == pid && is_unmanaged(
                            candidates@[k],
                            managed_pids@,
                            current_pid,
                        );
                    assert(candidates@[k].pid == pid);
                } else {
                    assert(candidates@[i as int].pid == pid);
                }
            }
            if exists|k: int|
                0 <= k < i + 1 && (#[trigger] candidates@[k]).pid == pid && is_unmanaged(
                    candidates@[k],
                    managed_pids@,
                    current_pid,
                ) {
                let k = choose|k: int|
                    0 <= k < i + 1 && (#[trigger] candidates@[k]).pid == pid && is_unmanaged(
                        candidates@[k],
                        managed_pids@,
                        current_pid,
                    );
                if k < i {
                    assert(before_pids.contains(pid));
                }
            }
        }
        i += 1;
    }
    pids
}

/// Process numbers in words.
pub open spec fn pid_words(pids: Seq<u32>) -> Seq<char> {
    joined(pids.map_values(|pid: u32| decimal(pid as nat)), ", "@)
}

/// Process numbers in words.
pub(crate) fn pid_list(pids: &Vec<u32>) -> (text: String)
    ensures
        text@ == pid_words(pids@),
{
    let mut numbers: Vec<String> = Vec::new();
    let ghost all = pids@.map_values(|pid: u32| decimal(pid as nat));
    let mut i: usize = 0;
    assert(texts(numbers@) =~= all.take(0));
    while i < pids.len()
        invariant
            i <= pids@.len(),
            all == pids@.map_values(|pid: u32| decimal(pid as nat)),
            texts(numbers@) == all.take(i as int),
        decreases pids@.len() - i,
    {
        let ghost before_numbers = numbers@;
        let number = to_decimal(pids[i] as u64);
        numbers.push(number);
        assert(texts(numbers@) =~= texts(before_numbers).push(all[i as int]));
        assert(all.take(i + 1) =~= all.take(i as int).push(all[i as int]));
        i += 1;
    }
    assert(all.take(i as int) =~= all);
    join(numbers.as_slice(), ", ")
}

/// A path without the mark of a deleted file.
pub open spec fn undeleted(path: Seq<char>) -> Seq<char> {
    if " (deleted)"@.is_suffix_of(path) {
        path.take(path.len() - " (deleted)"@.len())
    } else {
        path
    }
}

/// A path without the mark of a deleted file.
pub fn strip_deleted_suffix(path: &str) -> (plain: String)
    ensures
        plain@ == undeleted(path@),
{
    match strip_suffix(path, " (deleted)") {
        Some(plain) => {
            assert(path@.take(path@.len() - " (deleted)"@.len()) =~= plain@);
            assert(path@.subrange(path@.len() - " (deleted)"@.len(), path@.len() as int)
                =~= " (deleted)"@);
            plain
        },
        None => path.to_owned(),
    }
}

/// The paths that the name fields of a listing of open files hold.
pub open spec fn listed_paths(raw: Seq<Seq<char>>) -> Seq<Seq<char>>
    decreases raw.len(),
{
    if raw.len() == 0 {
        Seq::empty()
    } else {
        let rest = listed_paths(raw.drop_last());
        if raw.last().len() > 0 && raw.last()[0] == 'n' {
            rest.push(undeleted(raw.last().skip(1)))
        } else {
            rest
        }
    }
}

/// The paths that the name fields of a listing of open files hold, without the
/// marks of deleted files.
pub fn lsof_paths(raw: &[u8]) -> (paths: Vec<String>)
    ensures
        texts(paths@) == listed_paths(lines(text_of(raw@))),
{
    proof {
        reveal_strlit("n");
    }
    let text = lossy_text(raw);
    let all_lines = split_lines(text.as_str());
    let ghost all = lines(text_of(raw@));
    let mut paths: Vec<String> = Vec::new();
    let mut i: usize = 0;
    assert(all.take(0) =~= Seq::empty());
    assert(texts(paths@) =~= Seq::empty());
    while i < all_lines.len()
        invariant
            i <= all_lines@.len(),
            all == texts(all_lines@),
            texts(paths@) == listed_paths(all.take(i as int)),
            "n"@.len() == 1,
            "n"@[0] == 'n',
        decreases all_lines@.len() - i,
    {
        let ghost before_paths = paths@;
        assert(all.take(i + 1).drop_last() =~= all.take(i as int));
        assert(all.take(i + 1).last() == all_lines@[i as int]@);
        match strip_prefix(all_lines[i].as_str(), "n") {
            Some(rest) => {
                let ghost line = all_lines@[i as int]@;
                assert(line[0] == 'n');
                assert(line.skip(1) =~= rest@);
                let path = strip_deleted_suffix(rest.as_str());
                paths.push(path);
                assert(texts(paths@) =~= texts(before_paths).push(undeleted(line.skip(1))));
            },
            None => {
                let ghost line = all_lines@[i as int]@;
                assert(line.len() > 0 && line[0] == 'n' ==> "n"@.is_prefix_of(line)) by {
                    if line.len() > 0 && line[0] == 'n' {
                        assert(line.subrange(0, 1) =~= "n"@);
                    }
                }
            },
        }
        i += 1;
    }
    assert(all.take(i as int) =~= all);
    paths
}

/// Whether the listed path at position `i` is the expected one, as it stands or
/// after it was resolved.
pub open spec fn is_listed_at(
    paths: Seq<Seq<char>>,
    resolved: Seq<Option<Seq<char>>>,
    expected: Seq<char>,
    i: int,
) -> bool {
    components(paths[i], false) == components(expected, false) || (i < resolved.len() && is_executable(
        resolved[i],
        expected,
    ))
}

/// Whether one of the listed paths is the expected one, as it stands or after it
/// was resolved. `resolved` holds what each path resolves to, where it does.
pub open spec fn lists_executable(
    paths: Seq<Seq<char>>,
    resolved: Seq<Option<Seq<char>>>,
    expected: Seq<char>,
) -> bool {
    exists|i: int| 0 <= i < paths.len() && #[trigger] is_listed_at(paths, resolved, expected, i)
}

/// The resolved paths as mathematical values.
pub open spec fn resolved_views(resolved: Seq<Option<String>>) -> Seq<Option<Seq<char>>> {
    resolved.map_values(|r: Option<String>| opt_text(r))
}

/// Whether the expected executable is among the open files that a listing names.
pub fn lsof_text_matches(raw: &[u8], expected: &str, resolved: &Vec<Option<String>>) -> (matches:
    bool)
    ensures
        matches == lists_executable(
            listed_paths(lines(text_of(raw@))),
            resolved_views(resolved@),
            expected@,
        ),
{
    let paths = lsof_paths(raw);
    let ghost all = listed_paths(lines(text_of(raw@)));
    let ghost found = resolved_views(resolved@);
    let mut i: usize = 0;
    while i < paths.len()
        invariant
            i <= paths@.len(),
            all == texts(paths@),
            all == listed_paths(lines(text_of(raw@))),
            found == resolved_views(resolved@),
            forall|k: int| 0 <= k < i ==> !#[trigger] is_listed_at(all, found, expected@, k),
        decreases paths@.len() - i,
    {
        assert(all[i as int] == paths@[i as int]@);
        let mut listed = same_path(paths[i].as_str(), expected, false);
        if i < resolved.len() {
            assert(found[i as int] == opt_text(resolved@[i as int]));
            if runs_executable(&resolved[i], expected) {
                listed = true;
            }
        }
        assert(listed == is_listed_at(all, found, expected@, i as int));
        if listed {
            return true;
        }
        i += 1;
    }
    false
}

/// The texts between the zero bytes of a record of the process file system,
/// without empty ones.
pub open spec fn nul_texts(raw: Seq<u8>) -> Seq<Seq<char>> {
    nul_texts_from(raw, 0, Seq::empty())
}

/// The texts from position `i` on, where `piece` was read of the first one.
pub open spec fn nul_texts_from(raw: Seq<u8>, i: int, piece: Seq<u8>) -> Seq<Seq<char>>
    decreases raw.len() - i,
{
    let done = if piece.len() > 0 {
        seq![text_of(piece)]
    } else {
        Seq::empty()
    };
    if i < 0 || i >= raw.len() {
        done
    } else if raw[i] == 0 {
        done + nul_texts_from(raw, i + 1, Seq::empty())
    } else {
        nul_texts_from(raw, i + 1, piece.push(raw[i]))
    }
}

/// The texts between the zero bytes of a record of the process file system,
/// without empty ones.
pub fn read_nul_strings(raw: &[u8]) -> (list: Vec<String>)
    ensures
        texts(list@) == nul_texts(raw@),
{
    let mut list: Vec<String> = Vec::new();
    let mut piece: Vec<u8> = Vec::new();
    let mut i: usize = 0;
    assert(texts(list@) + nul_texts_from(raw@, 0, piece@) =~= nul_texts(raw@));
    while i < raw.len()
        invariant
            i <= raw@.len(),
            texts(list@) + nul_texts_from(raw@, i as int, piece@) == nul_texts(raw@),
        decreases raw@.len() - i,
    {
        let ghost before_list = list@;
        let ghost before_piece = piece@;
        let byte: u8 = raw[i];
        if byte == 0 {
            if piece.len() > 0 {
                let text = lossy_text(piece.as_slice());
                list.push(text);
                assert(texts(list@) =~= texts(before_list).push(text_of(before_piece)));
            }
            piece = Vec::new();
            assert(texts(list@) + nul_texts_from(raw@, i + 1, piece@) =~= texts(before_list)
                + nul_texts_from(raw@, i as int, before_piece));
        } else {
            piece.push(byte);
        }
        i += 1;
    }
    if piece.len() > 0 {
        let ghost before_list = list@;
        let text = lossy_text(piece.as_slice());
        list.push(text);
        assert(texts(list@) =~= texts(before_list) + seq![text_of(piece@)]);
    } else {
        assert(texts(list@) =~= texts(list@) + Seq::<Seq<char>>::empty());
    }
    list
}

/// The command line of a process without the program.
pub open spec fn process_arguments(raw: Seq<u8>) -> Seq<Seq<char>> {
    if nul_texts(raw).len() > 0 {
        nul_texts(raw).skip(1)
    } else {
        Seq::empty()
    }
}

/// The command line of a process without the program.
pub fn argument_list(raw: &[u8]) -> (arguments: Vec<String>)
    ensures
        texts(arguments@) == process_arguments(raw@),
{
    let mut list = read_nul_strings(raw);
    let ghost all = nul_texts(raw@);
    if list.len() > 0 {
        let ghost before_list = list@;
        let _program = list.remove(0);
        assert(texts(list@) =~= all.skip(1));
    } else {
        assert(texts(list@) =~= Seq::empty());
    }
    list
}

/// The value of a variable in a list of settings: that of its first setting.
pub open spec fn first_setting(list: Seq<Seq<char>>, prefix: Seq<char>) -> Option<Seq<char>>
    decreases list.len(),
{
    if list.len() == 0 {
        None
    } else if prefix.is_prefix_of(list[0]) {
        Some(list[0].skip(prefix.len() as int))
    } else {
        first_setting(list.drop_first(), prefix)
    }
}

/// The number in the name of a process directory.
pub fn process_id(name: &str) -> (pid: Option<u32>)
    ensures
        match pid {
            Some(number) => number_of(name@, u32::MAX as nat) == Some(number as nat),
            None => number_of(name@, u32::MAX as nat) is None,
        },
{
    match parse_number(name, u32::MAX as u64) {
        Some(number) => Some(number as u32),
        None => None,
    }
}

/// A process of Linux that runs the installed binary, from its command line and
/// environment; a record that could not be read is empty.
pub fn linux_candidate(pid: u32, cmdline: &[u8], environ: &[u8]) -> (candidate: ProcessCandidate)
    ensures
        candidate.pid == pid,
        texts(candidate.arguments@) == process_arguments(cmdline@),
        opt_text(candidate.transport) == first_setting(
            nul_texts(environ@),
            "OBSIDIAN_TRANSPORT="@,
        ),
        !candidate.listens_tcp,
{
    let arguments = argument_list(cmdline);
    let settings = read_nul_strings(environ);
    let ghost all = nul_texts(environ@);
    let mut transport: Option<String> = None;
    let mut i: usize = 0;
    assert(all.skip(0) =~= all);
    while i < settings.len() && transport.is_none()
        invariant
            i <= settings@.len(),
            all == texts(settings@),
            match transport {
                Some(text) => first_setting(all, "OBSIDIAN_TRANSPORT="@) == Some(text@),
                None => first_setting(all, "OBSIDIAN_TRANSPORT="@) == first_setting(
                    all.skip(i as int),
                    "OBSIDIAN_TRANSPORT="@,
                ),
            },
        decreases settings@.len() - i,
    {
        let ghost rest = all.skip(i as int);
        assert(rest[0] == settings@[i as int]@);
        assert(rest.drop_first() =~= all.skip(i + 1));
        match strip_prefix(settings[i].as_str(), "OBSIDIAN_TRANSPORT=") {
            Some(value) => {
                let ghost setting = settings@[i as int]@;
                assert(setting.skip("OBSIDIAN_TRANSPORT="@.len() as int) =~= value@);
                assert(setting.subrange(0, "OBSIDIAN_TRANSPORT="@.len() as int)
                    =~= "OBSIDIAN_TRANSPORT="@);
                assert("OBSIDIAN_TRANSPORT="@.is_prefix_of(setting));
                transport = Some(value);
            },
            None => {},
        }
        i += 1;
    }
    ProcessCandidate { pid, arguments, transport, listens_tcp: false }
}

/// Whether a resolved executable is the expected one.
pub open spec fn is_executable(resolved: Option<Seq<char>>, expected: Seq<char>) -> bool {
    resolved matches Some(path) && components(path, false) == components(expected, false)
}

/// Whether a resolved executable is the expected one.
pub fn runs_executable(resolved: &Option<String>, expected: &str) -> (runs: bool)
    ensures
        runs == is_executable(opt_text(*resolved), expected@),
{
    match resolved {
        Some(path) => same_path(path.as_str(), expected, false),
        None => false,
    }
}

/// The error of a command that reported a failure.
pub open spec fn command_error(program: Seq<char>, stderr: Seq<u8>) -> UpgradeErrorView {
    UpgradeErrorView::Command { program, message: trimmed(text_of(stderr)) }
}

fn failed_command(program: &str, stderr: &Vec<u8>) -> (error: UpgradeError)
    ensures
        error@ == command_error(program@, stderr@),
{
    let text = lossy_text(stderr.as_slice());
    UpgradeError::Command { program: program.to_owned(), message: trim(text.as_str()) }
}

/// The numbers that lines hold; other lines are skipped.
pub open spec fn line_numbers(list: Seq<Seq<char>>) -> Seq<nat>
    decreases list.len(),
{
    if list.len() == 0 {
        Seq::empty()
    } else {
        let rest = line_numbers(list.drop_last());
        match number_of(trimmed(list.last()), u32::MAX as nat) {
            Some(number) => rest.push(number),
            None => rest,
        }
    }
}

/// Numbers as mathematical values.
pub open spec fn numbers(list: Seq<u32>) -> Seq<nat> {
    list.map_values(|n: u32| n as nat)
}

/// The processes that `pgrep` found; it exits with 1 where there is none.
pub fn pgrep_pids(output: &CommandOutput) -> (result: Result<Vec<u32>, UpgradeError>)
    ensures
        match result {
            Ok(pids) => (output.success || output.code == Some(1i32)) && numbers(pids@)
                == line_numbers(lines(text_of(output.stdout@))),
            Err(error) => !output.success && output.code != Some(1i32) && error@ == command_error(
                "pgrep"@,
                output.stderr@,
            ),
        },
{
    let none_found = match output.code {
        Some(code) => code == 1,
        None => false,
    };
    if !output.success && !none_found {
        return Err(failed_command("pgrep", &output.stderr));
    }
    let text = lossy_text(output.stdout.as_slice());
    let all_lines = split_lines(text.as_str());
    let ghost all = lines(text_of(output.stdout@));
    let mut pids: Vec<u32> = Vec::new();
    let mut i: usize = 0;
    assert(all.take(0) =~= Seq::empty());
    assert(numbers(pids@) =~= Seq::empty());
    while i < all_lines.len()
        invariant
            i <= all_lines@.len(),
            all == texts(all_lines@),
            numbers(pids@) == line_numbers(all.take(i as int)),
        decreases all_lines@.len() - i,
    {
        let ghost before_pids = pids@;
        assert(all.take(i + 1).drop_last() =~= all.take(i as int));
        assert(all.take(i + 1).last() == all_lines@[i as int]@);
        let line = trim(all_lines[i].as_str());
        match parse_number(line.as_str(), u32::MAX as u64) {
            Some(number) => {
                pids.push(number as u32);
                assert(numbers(pids@) =~= numbers(before_pids).push(number as nat));
            },
            None => {},
        }
        i += 1;
    }
    assert(all.take(i as int) =~= all);
    Ok(pids)
}

/// The arguments in a command line of `ps`: its words without the program.
pub fn ps_arguments(stdout: &[u8]) -> (arguments: Vec<String>)
    ensures
        texts(arguments@) == if words(text_of(stdout@)).len() > 0 {
            words(text_of(stdout@)).skip(1)
        } else {
            Seq::empty()
        },
{
    let text = lossy_text(stdout);
    let mut list = split_words(text.as_str());
    let ghost all = words(text_of(stdout@));
    if list.len() > 0 {
        let _program = list.remove(0);
        assert(texts(list@) =~= all.skip(1));
    } else {
        assert(texts(list@) =~= Seq::empty());
    }
    list
}

/// Whether a listing of open files shows a listening socket; it exits with 1
/// where there is none.
pub fn listens_tcp(output: &CommandOutput) -> (result: Result<bool, UpgradeError>)
    ensures
        match result {
            Ok(listens) => listens == output.success && (output.success || output.code == Some(
                1i32,
            )),
            Err(error) => !output.success && output.code != Some(1i32) && error@ == command_error(
                "lsof"@,
                output.stderr@,
            ),
        },
{
    if output.success {
        return Ok(true);
    }
    match output.code {
        Some(code) => {
            if code == 1 {
                return Ok(false);
            }
        },
        None => {},
    }
    Err(failed_command("lsof", &output.stderr))
}

/// Nothing of a manager is reported as unmanaged, nor the upgrading process
/// itself, and every other process that serves HTTP is.
pub proof fn managed_processes_are_not_reported(
    candidates: Seq<ProcessCandidate>,
    managed: Seq<u32>,
    current: u32,
    pids: Seq<u32>,
)
    requires
        forall|pid: u32| #[trigger]
            pids.contains(pid) <==> exists|i: int|
                0 <= i < candidates.len() && (#[trigger] candidates[i]).pid == pid && is_unmanaged(
                    candidates[i],
                    managed,
                    current,
                ),
    ensures
        !pids.contains(current),
        forall|pid: u32| #[trigger] managed.contains(pid) ==> !pids.contains(pid),
        forall|i: int|
            0 <= i < candidates.len() && is_unmanaged(#[trigger] candidates[i], managed, current)
                ==> pids.contains(candidates[i].pid),
{
}

/// A process counts as a stray one exactly where it is not the upgrade itself, belongs to
/// no service, and asks for HTTP or listens.
pub proof fn stray_processes_serve_http(candidate: ProcessCandidate, managed: Seq<u32>, current: u32)
    ensures
        is_unmanaged(candidate, managed, current) <==> candidate.pid != current && !managed.contains(
            candidate.pid,
        ) && (candidate.listens_tcp || texts(candidate.arguments@).contains("--http"@) || (
        opt_text(candidate.transport) is Some && same_ignoring_case(
            opt_text(candidate.transport)->0,
            "http"@,
        ))),
{
}

/// The mark of a deleted program is taken off its path, and nothing else is.
pub proof fn deleted_marks_are_taken_off(path: Seq<char>)
    ensures
        undeleted(path + " (deleted)"@) == path,
        !" (deleted)"@.is_suffix_of(path) ==> undeleted(path) == path,
{
    let marked = path + " (deleted)"@;
    assert(marked.subrange(path.len() as int, marked.len() as int) =~= " (deleted)"@);
    assert(marked.take(path.len() as int) =~= path);
}

/// Paths and numbers are read line by line: a line that starts with `n` names the path
/// behind it, and a line that is a number, but for white space, gives the number; other
/// lines give nothing.
pub proof fn listings_are_read_line_by_line(list: Seq<Seq<char>>, line: Seq<char>)
    ensures
        listed_paths(Seq::<Seq<char>>::empty()).len() == 0,
        listed_paths(list.push(line)) == if line.len() > 0 && line[0] == 'n' {
            listed_paths(list).push(undeleted(line.skip(1)))
        } else {
            listed_paths(list)
        },
        line_numbers(Seq::<Seq<char>>::empty()).len() == 0,
        line_numbers(list.push(line)) == match number_of(trimmed(line), 0xffff_ffff) {
            Some(number) => line_numbers(list).push(number),
            None => line_numbers(list),
        },
{
    assert(list.push(line).drop_last() =~= list);
}

proof fn lemma_nul_shifted(a: Seq<u8>, b: Seq<u8>, n: int, piece: Seq<u8>)
    requires
        0 <= n <= b.len(),
    ensures
        nul_texts_from(a + b, a.len() + n, piece) == nul_texts_from(b, n, piece),
    decreases b.len() - n,
{
    if n < b.len() {
        assert((a + b)[a.len() + n] == b[n]);
        if b[n] == 0 {
            lemma_nul_shifted(a, b, n + 1, Seq::empty());
        } else {
            lemma_nul_shifted(a, b, n + 1, piece.push(b[n]));
        }
    }
}

proof fn lemma_nul_split(a: Seq<u8>, b: Seq<u8>, i: int, piece: Seq<u8>)
    requires
        0 <= i <= a.len(),
    ensures
        nul_texts_from(a + seq![0u8] + b, i, piece) == nul_texts_from(a, i, piece) + nul_texts(b),
    decreases a.len() - i,
{
    let whole = a + seq![0u8] + b;
    if i < a.len() {
        assert(whole[i] == a[i]);
        if a[i] == 0 {
            lemma_nul_split(a, b, i + 1, Seq::empty());
        } else {
            lemma_nul_split(a, b, i + 1, piece.push(a[i]));
        }
        assert(nul_texts_from(whole, i, piece) =~= nul_texts_from(a, i, piece) + nul_texts(b));
    } else {
        assert(whole[i] == 0);
        lemma_nul_shifted(a + seq![0u8], b, 0, Seq::empty());
        assert(nul_texts_from(whole, i, piece) =~= nul_texts_from(a, i, piece) + nul_texts(b));
    }
}

proof fn lemma_nul_piece(a: Seq<u8>, i: int, piece: Seq<u8>)
    requires
        0 <= i <= a.len(),
        piece == a.take(i),
        !a.contains(0u8),
    ensures
        nul_texts_from(a, i, piece) == if a.len() > 0 {
            seq![text_of(a)]
        } else {
            Seq::empty()
        },
    decreases a.len() - i,
{
    if i < a.len() {
        assert(a[i] != 0u8) by {
            if a[i] == 0u8 {
                assert(a.contains(0u8));
            }
        }
        assert(a.take(i).push(a[i]) =~= a.take(i + 1));
        lemma_nul_piece(a, i + 1, a.take(i + 1));
    } else {
        assert(a.take(i) =~= a);
    }
}

/// Texts end at zero bytes: bytes without one are one text unless there are none, and
/// the texts on both sides of one are those of the two sides. The arguments of a process
/// are its texts without the first.
pub proof fn texts_end_at_zero_bytes(a: Seq<u8>, b: Seq<u8>)
    ensures
        nul_texts(a + seq![0u8] + b) == nul_texts(a) + nul_texts(b),
        !a.contains(0u8) ==> nul_texts(a) == if a.len() > 0 {
            seq![text_of(a)]
        } else {
            Seq::empty()
        },
        nul_texts(a).len() > 0 ==> nul_texts(a) == seq![nul_texts(a)[0]] + process_arguments(a),
        nul_texts(a).len() == 0 ==> process_arguments(a).len() == 0,
{
    lemma_nul_split(a, b, 0, Seq::empty());
    if !a.contains(0u8) {
        assert(a.take(0) =~= Seq::empty());
        lemma_nul_piece(a, 0, Seq::empty());
    }
    if nul_texts(a).len() > 0 {
        assert(nul_texts(a) =~= seq![nul_texts(a)[0]] + process_arguments(a));
    }
}

/// A setting is the rest of the first text that starts with its name.
pub proof fn the_first_setting_counts(list: Seq<Seq<char>>, prefix: Seq<char>)
    ensures
        first_setting(list, prefix) is None <==> forall|i: int|
            0 <= i < list.len() ==> !prefix.is_prefix_of(#[trigger] list[i]),
        first_setting(list, prefix) matches Some(value) ==> exists|i: int|
            0 <= i < list.len() && prefix.is_prefix_of(#[trigger] list[i]) && value == list[i].skip(
                prefix.len() as int,
            ) && forall|k: int| 0 <= k < i ==> !prefix.is_prefix_of(#[trigger] list[k]),
    decreases list.len(),
{
    if list.len() > 0 && !prefix.is_prefix_of(list[0]) {
        let rest = list.drop_first();
        the_first_setting_counts(rest, prefix);
        assert forall|i: int| 1 <= i < list.len() implies #[trigger] list[i] == rest[i - 1] by {}
        if first_setting(rest, prefix) is Some {
            let i = choose|i: int|
                0 <= i < rest.len() && prefix.is_prefix_of(#[trigger] rest[i]) && first_setting(
                    rest,
                    prefix,
                )->0 == rest[i].skip(prefix.len() as int) && forall|k: int|
                    0 <= k < i ==> !prefix.is_prefix_of(#[trigger] rest[k]);
            assert(list[i + 1] == rest[i]);
            assert forall|k: int| 0 <= k < i + 1 implies !prefix.is_prefix_of(#[trigger] list[k]) by {
                if k > 0 {
                    assert(list[k] == rest[k - 1]);
                }
            }
        } else {
            assert forall|i: int| 0 <= i < list.len() implies !prefix.is_prefix_of(
                #[trigger] list[i],
            ) by {
                if i > 0 {
                    assert(list[i] == rest[i - 1]);
                }
            }
        }
    }
}

/// A program is recognised by what its path resolves to; a listed one also by its path
/// as it stands. Different spellings of one path are the same.
pub proof fn programs_are_recognised_by_their_path(
    paths: Seq<Seq<char>>,
    resolved: Seq<Option<Seq<char>>>,
    expected: Seq<char>,
    found: Option<Seq<char>>,
    i: int,
)
    requires
        paths.len() == resolved.len(),
        0 <= i < paths.len(),
    ensures
        is_executable(found, expected) <==> found is Some && components(found->0, false) == components(
            expected,
            false,
        ),
        components(paths[i], false) == components(expected, false) || (resolved[i] is Some
            && components(resolved[i]->0, false) == components(expected, false)) ==> lists_executable(
            paths,
            resolved,
            expected,
        ),
        lists_executable(paths, resolved, expected) ==> exists|k: int|
            0 <= k < paths.len() && (components(#[trigger] paths[k], false) == components(
                expected,
                false,
            ) || (resolved[k] is Some && components(resolved[k]->0, false) == components(
                expected,
                false,
            ))),
{
    assert(is_listed_at(paths, resolved, expected, i) <==> components(paths[i], false) == components(
        expected,
        false,
    ) || (resolved[i] is Some && components(resolved[i]->0, false) == components(expected, false)));
    if lists_executable(paths, resolved, expected) {
        let k = choose|k: int| 0 <= k < paths.len() && #[trigger] is_listed_at(paths, resolved, expected, k);
        assert(components(paths[k], false) == components(expected, false) || (resolved[k] is Some
            && components(resolved[k]->0, false) == components(expected, false)));
    }
}

} // verus!
