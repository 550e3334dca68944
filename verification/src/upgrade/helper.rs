//! Replacing the running executable on Windows through a temporary helper.

use crate::number::{decimal, number_of, parse_number, to_decimal};
use crate::text::{
    cat3, cat4, eq_ignoring_case, lines, same_ignoring_case, split_first, split_lines, split_once,
    starts_with, texts, trim_char, without_leading, without_trailing,
};
use crate::upgrade::{UpgradeError, UpgradeErrorView};
use crate::upgrade::processes::{numbers, pid_list, pid_words};
use vstd::prelude::*;

verus! {

/// How long the helper waits for the original process, in milliseconds.
pub const PARENT_EXIT_TIMEOUT: u64 = 30_000;

/// A field of a quoted list without its quotes.
pub open spec fn unquoted(field: Seq<char>) -> Seq<char> {
    without_trailing(without_leading(field, '"'), '"')
}

/// The second field of a line whose first one ends at a separator.
pub open spec fn second_field(rest: Seq<char>) -> Seq<char> {
    match split_first(rest, "\",\""@) {
        Some((field, _)) => field,
        None => rest,
    }
}

/// The process number in a line of the process list, where it is one of the main
/// program.
pub open spec fn task_pid(line: Seq<char>) -> Option<nat> {
    match split_first(line, "\",\""@) {
        None => None,
        Some((image, rest)) => if same_ignoring_case(unquoted(image), "obsidian-mcp.exe"@) {
            number_of(unquoted(second_field(rest)), u32::MAX as nat)
        } else {
            None
        },
    }
}

/// The process numbers in the lines of the process list.
pub open spec fn task_pids(list: Seq<Seq<char>>) -> Seq<nat>
    decreases list.len(),
{
    if list.len() == 0 {
        Seq::empty()
    } else {
        let rest = task_pids(list.drop_last());
        match task_pid(list.last()) {
            Some(pid) => rest.push(pid),
            None => rest,
        }
    }
}

fn pid_in_line(line: &str) -> (pid: Option<u32>)
    ensures
        match pid {
            Some(number) => task_pid(line@) == Some(number as nat),
            None => task_pid(line@) is None,
        },
{
    match split_once(line, "\",\"") {
        None => None,
        Some((image, rest)) => {
            let field = match split_once(rest.as_str(), "\",\"") {
                Some((field, _)) => field,
                None => rest,
            };
            let name = trim_char(image.as_str(), '"');
            if !eq_ignoring_case(name.as_str(), "obsidian-mcp.exe") {
                return None;
            }
            let digits = trim_char(field.as_str(), '"');
            match parse_number(digits.as_str(), u32::MAX as u64) {
                Some(number) => Some(number as u32),
                None => None,
            }
        },
    }
}

/// The numbers of the main program's processes in a process list.
pub fn parse_tasklist_pids(raw: &str) -> (pids: Vec<u32>)
    ensures
        numbers(pids@) == task_pids(lines(raw@)),
{
    let all_lines = split_lines(raw);
    let ghost all = lines(raw@);
    let mut pids: Vec<u32> = Vec::new();
    let mut i: usize = 0;
    assert(all.take(0) =~= Seq::empty());
    assert(numbers(pids@) =~= Seq::empty());
    while i < all_lines.len()
        invariant
            i <= all_lines@.len(),
            all == texts(all_lines@),
            numbers(pids@) == task_pids(all.take(i as int)),
        decreases all_lines@.len() - i,
    {
        let ghost before_pids = pids@;
        assert(all.take(i + 1).drop_last() =~= all.take(i as int));
        assert(all.take(i + 1).last() == all_lines@[i as int]@);
        match pid_in_line(all_lines[i].as_str()) {
            Some(pid) => {
                pids.push(pid);
                assert(numbers(pids@) =~= numbers(before_pids).push(pid as nat));
            },
            None => {},
        }
        i += 1;
    }
    assert(all.take(i as int) =~= all);
    pids
}

/// What the helper does next.
#[derive(Debug, PartialEq, Eq)]
pub enum ReplacementStep {
    /// Nothing holds the executable.
    Proceed,
    /// The original process is still there: look again after a while.
    Wait,
    /// The executable cannot be replaced.
    Refuse(UpgradeError),
}

/// The processes other than the original one.
pub open spec fn other_pids(pids: Seq<u32>, parent: u32) -> Seq<u32>
    decreases pids.len(),
{
    if pids.len() == 0 {
        Seq::empty()
    } else {
        let rest = other_pids(pids.drop_last(), parent);
        if pids.last() != parent {
            rest.push(pids.last())
        } else {
            rest
        }
    }
}

/// What the helper does next: `pids` are the processes of the main program at the
/// time `now`. Any process but the original one stops the replacement; the
/// original one is waited for until `deadline`.
pub fn replacement_step(pids: &Vec<u32>, parent_pid: u32, now: u64, deadline: u64) -> (step:
    ReplacementStep)
    ensures
        if other_pids(pids@, parent_pid).len() > 0 {
            step matches ReplacementStep::Refuse(error) && error@ == UpgradeErrorView::Install(
                "cannot replace obsidian-mcp.exe while other instances are running (PIDs: "@
                    + pid_words(other_pids(pids@, parent_pid)) + ")"@,
            )
        } else if !pids@.contains(parent_pid) {
            step == ReplacementStep::Proceed
        } else if now >= deadline {
            step matches ReplacementStep::Refuse(error) && error@ == UpgradeErrorView::Install(
                "timed out waiting for parent process "@ + decimal(parent_pid as nat)
                    + " to exit"@,
            )
        } else {
            step == ReplacementStep::Wait
        },
{
    let mut others: Vec<u32> = Vec::new();
    let mut parent_alive = false;
    let mut i: usize = 0;
    assert(pids@.take(0) =~= Seq::empty());
    while i < pids.len()
        invariant
            i <= pids@.len(),
            others@ == other_pids(pids@.take(i as int), parent_pid),
            parent_alive == pids@.take(i as int).contains(parent_pid),
        decreases pids@.len() - i,
    {
        let ghost taken = pids@.take(i as int);
        assert(pids@.take(i + 1).drop_last() =~= taken);
        assert(pids@.take(i + 1) =~= taken.push(pids@[i as int]));
        let pid: u32 = pids[i];
        if pid == parent_pid {
            parent_alive = true;
            assert(pids@.take(i + 1)[i as int] == parent_pid);
        } else {
            others.push(pid);
            assert(pids@.take(i + 1).contains(parent_pid) == taken.contains(parent_pid)) by {
                if taken.contains(parent_pid) {
                    let k = choose|k: int| 0 <= k < taken.len() && taken[k] == parent_pid;
                    assert(pids@.take(i + 1)[k] == parent_pid);
                }
                if pids@.take(i + 1).contains(parent_pid) {
                    let next = pids@.take(i + 1);
                    let k = choose|k: int| 0 <= k < next.len() && next[k] == parent_pid;
                    assert(taken[k] == parent_pid);
                }
            }
        }
        i += 1;
    }
    assert(pids@.take(i as int) =~= pids@);
    if others.len() > 0 {
        let list = pid_list(&others);
        return ReplacementStep::Refuse(
            UpgradeError::Install(
                cat3(
                    "cannot replace obsidian-mcp.exe while other instances are running (PIDs: ",
                    list.as_str(),
                    ")",
                ),
            ),
        );
    }
    if !parent_alive {
        return ReplacementStep::Proceed;
    }
    if now >= deadline {
        let number = to_decimal(parent_pid as u64);
        return ReplacementStep::Refuse(
            UpgradeError::Install(
                cat3("timed out waiting for parent process ", number.as_str(), " to exit"),
            ),
        );
    }
    ReplacementStep::Wait
}

/// The name of the directory for a helper.
pub fn helper_directory(process_id: u32, nonce: &str) -> (name: String)
    ensures
        name@ == "obsidian-mcp-upgrade-"@ + decimal(process_id as nat) + "-"@ + nonce@,
{
    let number = to_decimal(process_id as u64);
    cat4("obsidian-mcp-upgrade-", number.as_str(), "-", nonce)
}

/// The arguments for a helper that is to go on with the upgrade.
pub fn helper_arguments(parent_pid: u32, original_exe: &str) -> (arguments: Vec<String>)
    ensures
        texts(arguments@) == seq![
            "__apply-upgrade"@,
            "--parent-pid"@,
            decimal(parent_pid as nat),
            "--original-exe"@,
            original_exe@,
        ],
{
    let mut arguments: Vec<String> = Vec::new();
    arguments.push("__apply-upgrade".to_owned());
    arguments.push("--parent-pid".to_owned());
    let number = to_decimal(parent_pid as u64);
    arguments.push(number);
    arguments.push("--original-exe".to_owned());
    arguments.push(original_exe.to_owned());
    assert(texts(arguments@) =~= seq![
        "__apply-upgrade"@,
        "--parent-pid"@,
        decimal(parent_pid as nat),
        "--original-exe"@,
        original_exe@,
    ]);
    arguments
}

/// Whether a directory is left from an earlier helper: it has the name of one
/// and holds its executable.
pub fn is_stale_helper(name: &str, is_dir: bool, holds_helper: bool) -> (stale: bool)
    ensures
        stale == ("obsidian-mcp-upgrade-"@.is_prefix_of(name@) && is_dir && holds_helper),
{
    starts_with(name, "obsidian-mcp-upgrade-") && is_dir && holds_helper
}

/// What could not be done to start a helper.
#[derive(Debug, PartialEq, Eq)]
pub enum HandoffFailure {
    Directory,
    Copy,
    Start,
}

/// The error when a helper could not be started.
pub fn handoff_error(failure: &HandoffFailure, path: &str, error: &str) -> (result: UpgradeError)
    ensures
        result@ == UpgradeErrorView::Install(
            match failure {
                HandoffFailure::Directory => "cannot create Windows upgrade helper directory '"@,
                HandoffFailure::Copy => "cannot create Windows upgrade helper '"@,
                HandoffFailure::Start => "cannot start Windows upgrade helper '"@,
            } + path@ + "': "@ + error@,
        ),
{
    let head = match failure {
        HandoffFailure::Directory => "cannot create Windows upgrade helper directory '",
        HandoffFailure::Copy => "cannot create Windows upgrade helper '",
        HandoffFailure::Start => "cannot start Windows upgrade helper '",
    };
    UpgradeError::Install(cat4(head, path, "': ", error))
}

/// The executable is replaced only when no process of the main program is left.
pub proof fn replacement_needs_an_idle_program(pids: Seq<u32>, parent: u32)
    requires
        other_pids(pids, parent).len() == 0,
        !pids.contains(parent),
    ensures
        pids.len() == 0,
{
    if pids.len() > 0 {
        assert(pids.last() != parent) by {
            assert(pids[pids.len() - 1] == pids.last());
        }
    }
}

/// Other instances are all listed processes but the one that started the replacement,
/// in their order.
pub proof fn all_but_the_parent_are_others(pids: Seq<u32>, parent: u32, pid: u32)
    ensures
        other_pids(pids, parent).contains(pid) <==> pids.contains(pid) && pid != parent,
        other_pids(pids, parent).len() <= pids.len(),
    decreases pids.len(),
{
    if pids.len() > 0 {
        let front = pids.drop_last();
        let earlier = other_pids(front, parent);
        let all = other_pids(pids, parent);
        all_but_the_parent_are_others(front, parent, pid);
        if front.contains(pid) {
            let k = choose|k: int| 0 <= k < front.len() && front[k] == pid;
            assert(pids[k] == pid);
        }
        if pids.last() == pid {
            assert(pids[pids.len() - 1] == pid);
        }
        if pids.contains(pid) && pids.last() != pid {
            let k = choose|k: int| 0 <= k < pids.len() && pids[k] == pid;
            assert(front[k] == pid);
        }
        if earlier.contains(pid) {
            let k = choose|k: int| 0 <= k < earlier.len() && earlier[k] == pid;
            assert(all[k] == pid);
        }
        if pids.last() != parent {
            assert(all[all.len() - 1] == pids.last());
        }
        if all.contains(pid) && !earlier.contains(pid) {
            let k = choose|k: int| 0 <= k < all.len() && all[k] == pid;
            if k < earlier.len() {
                assert(earlier[k] == pid);
            }
        }
    }
}

/// The processes of a task list are read line by line; a line counts exactly where its
/// first field names the program, in whatever case, and its second is a number.
pub proof fn task_lists_are_read_line_by_line(list: Seq<Seq<char>>, line: Seq<char>)
    ensures
        task_pids(Seq::<Seq<char>>::empty()).len() == 0,
        task_pids(list.push(line)) == match task_pid(line) {
            Some(pid) => task_pids(list).push(pid),
            None => task_pids(list),
        },
        task_pid(line) is Some <==> (split_first(line, "\",\""@) matches Some(fields)
            && same_ignoring_case(unquoted(fields.0), "obsidian-mcp.exe"@) && number_of(
            unquoted(second_field(fields.1)),
            u32::MAX as nat,
        ) is Some),
        task_pid(line) matches Some(pid) ==> (split_first(line, "\",\""@) matches Some(fields)
            && number_of(unquoted(second_field(fields.1)), u32::MAX as nat) == Some(pid)),
{
    assert(list.push(line).drop_last() =~= list);
}

} // verus!
