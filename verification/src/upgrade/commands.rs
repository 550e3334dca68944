//! Commands of the service managers and what they leave behind.

use crate::order::{before, before_is_strict_and_total, before_is_transitive, is_before};
use crate::text::{
    cat3, cat4, join, joined, lossy_text, text_of, opt_str, opt_text, texts, trim, trimmed,
};
use crate::upgrade::{
    target_views, CommandOutput, ServiceTarget, TargetView, UpgradeError, UpgradeErrorView,
};
use vstd::prelude::*;

verus! {

/// How long a manager is given to report a new process, and a service to report
/// its version, in milliseconds.
pub const ACTIVATION_TIMEOUT: u64 = 15_000;

/// A program with its arguments.
#[derive(Debug, PartialEq, Eq)]
pub struct CommandLine {
    pub program: String,
    pub args: Vec<String>,
}

/// A program with its arguments, as characters.
#[verifier::ext_equal]
pub struct CommandView {
    pub program: Seq<char>,
    pub args: Seq<Seq<char>>,
}

impl View for CommandLine {
    type V = CommandView;

    open spec fn view(&self) -> CommandView {
        CommandView { program: self.program@, args: texts(self.args@) }
    }
}

/// An optional command.
pub open spec fn opt_command(command: Option<CommandLine>) -> Option<CommandView> {
    match command {
        Some(c) => Some(c@),
        None => None,
    }
}

/// A command line in words.
pub open spec fn command_words(command: CommandView) -> Seq<char> {
    command.program + " "@ + joined(command.args, " "@)
}

/// A command line in words.
pub fn command_text(command: &CommandLine) -> (text: String)
    ensures
        text@ == command_words(command@),
{
    let args = join(command.args.as_slice(), " ");
    cat3(command.program.as_str(), " ", args.as_str())
}

/// A command with one argument.
pub fn command1(program: &str, a: &str) -> (command: CommandLine)
    ensures
        command@ == (CommandView { program: program@, args: seq![a@] }),
{
    let mut args: Vec<String> = Vec::new();
    args.push(a.to_owned());
    assert(texts(args@) =~= seq![a@]);
    CommandLine { program: program.to_owned(), args }
}

/// A command with two arguments.
pub fn command2(program: &str, a: &str, b: &str) -> (command: CommandLine)
    ensures
        command@ == (CommandView { program: program@, args: seq![a@, b@] }),
{
    let mut command = command1(program, a);
    let ghost first = texts(command.args@);
    command.args.push(b.to_owned());
    assert(texts(command.args@) =~= first.push(b@));
    assert(first.push(b@) =~= seq![a@, b@]);
    command
}

/// A command with three arguments.
pub fn command3(program: &str, a: &str, b: &str, c: &str) -> (command: CommandLine)
    ensures
        command@ == (CommandView { program: program@, args: seq![a@, b@, c@] }),
{
    let mut command = command2(program, a, b);
    let ghost first = texts(command.args@);
    command.args.push(c.to_owned());
    assert(texts(command.args@) =~= first.push(c@));
    assert(first.push(c@) =~= seq![a@, b@, c@]);
    command
}

/// A command with four arguments.
pub fn command4(program: &str, a: &str, b: &str, c: &str, d: &str) -> (command: CommandLine)
    ensures
        command@ == (CommandView { program: program@, args: seq![a@, b@, c@, d@] }),
{
    let mut command = command3(program, a, b, c);
    let ghost first = texts(command.args@);
    command.args.push(d.to_owned());
    assert(texts(command.args@) =~= first.push(d@));
    assert(first.push(d@) =~= seq![a@, b@, c@, d@]);
    command
}

/// The error of a command that reported a failure.
pub open spec fn manager_error(command: Seq<char>, stderr: Seq<u8>) -> UpgradeErrorView {
    let diagnostic = trimmed(text_of(stderr));
    UpgradeErrorView::Activation(
        if diagnostic.len() == 0 {
            "'"@ + command + "' failed"@
        } else {
            "'"@ + command + "' failed: "@ + diagnostic
        },
    )
}

/// The error of a command that reported a failure.
pub fn command_failure(command: &str, stderr: &[u8]) -> (error: UpgradeError)
    ensures
        error@ == manager_error(command@, stderr@),
{
    let text = lossy_text(stderr);
    let diagnostic = trim(text.as_str());
    UpgradeError::Activation(
        if diagnostic.as_str().unicode_len() == 0 {
            cat3("'", command, "' failed")
        } else {
            cat4("'", command, "' failed: ", diagnostic.as_str())
        },
    )
}

/// What a command left behind, as mathematical values.
pub open spec fn output_view(output: Result<CommandOutput, UpgradeError>) -> Result<
    (bool, Seq<u8>, Seq<u8>),
    UpgradeErrorView,
> {
    match output {
        Ok(done) => Ok((done.success, done.stdout@, done.stderr@)),
        Err(error) => Err(error@),
    }
}

/// The time until which something is waited for.
pub open spec fn deadline_after(now: u64) -> u64 {
    if now > u64::MAX - ACTIVATION_TIMEOUT {
        u64::MAX
    } else {
        (now + ACTIVATION_TIMEOUT) as u64
    }
}

/// The time until which something is waited for.
pub fn activation_deadline(now: u64) -> (deadline: u64)
    ensures
        deadline == deadline_after(now),
{
    if now > u64::MAX - ACTIVATION_TIMEOUT {
        u64::MAX
    } else {
        now + ACTIVATION_TIMEOUT
    }
}

/// An optional text as a borrowed one.
pub(crate) fn borrowed(text: &Option<String>) -> (value: Option<&str>)
    ensures
        opt_str(value) == opt_text(*text),
{
    match text {
        Some(value) => Some(value.as_str()),
        None => None,
    }
}

/// The position at which a service goes into a list that is sorted by identifier:
/// after the ones that are not greater.
pub open spec fn slot(list: Seq<TargetView>, id: Seq<char>) -> int
    decreases list.len(),
{
    if list.len() == 0 {
        0
    } else if before(id, list.last().id) {
        slot(list.drop_last(), id)
    } else {
        list.len() as int
    }
}

/// The services sorted by identifier; equal ones keep their order.
pub open spec fn sorted_targets(list: Seq<TargetView>) -> Seq<TargetView>
    decreases list.len(),
{
    if list.len() == 0 {
        Seq::empty()
    } else {
        let rest = sorted_targets(list.drop_last());
        rest.insert(slot(rest, list.last().id), list.last())
    }
}

/// Whether no service stands after one with a greater identifier.
pub open spec fn is_sorted_by_id(list: Seq<TargetView>) -> bool {
    forall|i: int, j: int|
        0 <= i < j < list.len() ==> !before((#[trigger] list[j]).id, (#[trigger] list[i]).id)
}

proof fn lemma_slot(list: Seq<TargetView>, id: Seq<char>)
    ensures
        0 <= slot(list, id) <= list.len(),
        forall|k: int| slot(list, id) <= k < list.len() ==> before(id, (#[trigger] list[k]).id),
        slot(list, id) > 0 ==> !before(id, list[slot(list, id) - 1].id),
    decreases list.len(),
{
    if list.len() > 0 && before(id, list.last().id) {
        lemma_slot(list.drop_last(), id);
        assert forall|k: int| slot(list, id) <= k < list.len() implies before(
            id,
            (#[trigger] list[k]).id,
        ) by {
            if k < list.len() - 1 {
                assert(list.drop_last()[k] == list[k]);
            }
        }
    }
}

/// Sorts services by identifier; equal ones keep their order.
pub fn sort_targets(list: Vec<ServiceTarget>) -> (sorted: Vec<ServiceTarget>)
    ensures
        target_views(sorted@) == sorted_targets(target_views(list@)),
{
    let mut source = list;
    let mut sorted: Vec<ServiceTarget> = Vec::new();
    let ghost all = target_views(source@);
    let total: usize = source.len();
    assert(all.take(0) =~= Seq::empty());
    assert(target_views(sorted@) =~= Seq::empty());
    while source.len() > 0
        invariant
            source@.len() <= all.len() == total,
            target_views(source@) == all.skip(total - source@.len()),
            target_views(sorted@) == sorted_targets(all.take(total - source@.len())),
        decreases source@.len(),
    {
        let ghost done = total - source@.len();
        let ghost rest = target_views(source@);
        let ghost before_sorted = target_views(sorted@);
        assert(rest[0] == all[done]);
        let item = source.remove(0);
        assert(item@ == all[done]);
        assert(target_views(source@) =~= rest.skip(1));
        assert(rest.skip(1) =~= all.skip(done + 1));
        let ghost view = item@;
        let mut at: usize = sorted.len();
        assert(before_sorted.take(at as int) =~= before_sorted);
        while at > 0 && is_before(item.id.as_str(), sorted[at - 1].id.as_str())
            invariant
                at <= sorted@.len(),
                before_sorted == target_views(sorted@),
                item@ == view,
                slot(before_sorted, view.id) == slot(before_sorted.take(at as int), view.id),
            decreases at,
        {
            assert(before_sorted.take(at as int).last() == sorted@[at - 1]@);
            assert(before_sorted.take(at as int).drop_last() =~= before_sorted.take(at - 1));
            at -= 1;
        }
        proof {
            if at > 0 {
                assert(before_sorted.take(at as int).last() == sorted@[at - 1]@);
            }
            assert(before_sorted.take(before_sorted.len() as int) =~= before_sorted);
            assert(slot(before_sorted, view.id) == at);
        }
        sorted.insert(at, item);
        assert(target_views(sorted@) =~= before_sorted.insert(at as int, view));
        assert(all.take(done + 1).drop_last() =~= all.take(done));
    }
    assert(all.take(total as int) =~= all);
    sorted
}

/// Sorting orders the services by identifier and neither adds nor drops one.
pub proof fn sorting_orders_and_keeps_all(list: Seq<TargetView>)
    ensures
        is_sorted_by_id(sorted_targets(list)),
        sorted_targets(list).to_multiset() == list.to_multiset(),
        sorted_targets(list).len() == list.len(),
    decreases list.len(),
{
    if list.len() == 0 {
        assert(list =~= sorted_targets(list));
    } else {
        let rest = sorted_targets(list.drop_last());
        let item = list.last();
        let at = slot(rest, item.id);
        sorting_orders_and_keeps_all(list.drop_last());
        lemma_slot(rest, item.id);
        let sorted = rest.insert(at, item);
        assert forall|i: int, j: int| 0 <= i < j < sorted.len() implies !before(
            (#[trigger] sorted[j]).id,
            (#[trigger] sorted[i]).id,
        ) by {
            before_is_strict_and_total(sorted[j].id, sorted[i].id);
            if j < at {
                assert(sorted[i] == rest[i] && sorted[j] == rest[j]);
            } else if i > at {
                assert(sorted[i] == rest[i - 1] && sorted[j] == rest[j - 1]);
            } else if i == at {
                assert(sorted[j] == rest[j - 1]);
                assert(before(item.id, rest[j - 1].id));
            } else if j == at {
                assert(sorted[i] == rest[i]);
                if before(item.id, rest[i].id) {
                    // The last service that is not greater stands at or after `i`.
                    if i < at - 1 {
                        assert(!before(rest[at - 1].id, rest[i].id));
                        lemma_not_before(item.id, rest[i].id, rest[at - 1].id);
                    }
                }
            } else {
                assert(sorted[i] == rest[i] && sorted[j] == rest[j - 1]);
            }
        }
        assert(list =~= list.drop_last().push(item));
        vstd::seq_lib::to_multiset_build(list.drop_last(), item);
        vstd::seq_lib::to_multiset_insert(rest, at, item);
    }
}

proof fn lemma_not_before(a: Seq<char>, b: Seq<char>, c: Seq<char>)
    requires
        before(a, b),
        !before(c, b),
    ensures
        before(a, c),
{
    before_is_strict_and_total(b, c);
    if b == c {
    } else {
        before_is_transitive(a, b, c);
    }
}

/// An activation is given fifteen seconds.
pub proof fn activations_have_fifteen_seconds(now: u64)
    ensures
        now + 15_000 <= u64::MAX ==> deadline_after(now) == now + 15_000,
        deadline_after(now) >= now,
{
}

} // verus!
