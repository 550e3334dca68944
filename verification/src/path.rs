//! Paths as texts. On Windows both slashes separate components, and a path may
//! start with a prefix: a drive, a share, a device, or a verbatim prefix.

use crate::error::{VaultError, VaultErrorView};
use crate::order::{before, before_is_strict_and_total, before_is_transitive, is_before};
use crate::text::{
    ascii_lower, chars_of, find_char, find_char_is_first, join, joined, joined_list_splits_back,
    lower, opt_text, pieces_hold_no_separator, same, slice_text, split, split_at_char, split_from,
    texts,
};
use vstd::prelude::*;

verus! {

/// The separator that the system writes.
pub open spec fn separator(windows: bool) -> char {
    if windows {
        '\\'
    } else {
        '/'
    }
}

/// Whether a path starts with the prefix under which Windows takes every
/// character but the backslash as it is.
pub open spec fn is_verbatim(path: Seq<char>, windows: bool) -> bool {
    windows && path.len() >= 4 && path[0] == '\\' && path[1] == '\\' && path[2] == '?' && path[3]
        == '\\'
}

/// The backslash in place of a slash.
pub open spec fn turned(c: char) -> char {
    if c == '/' {
        '\\'
    } else {
        c
    }
}

/// The path with the separator of the system wherever one stands.
pub open spec fn unified(path: Seq<char>, windows: bool) -> Seq<char> {
    if windows && !is_verbatim(path, windows) {
        path.map_values(|c: char| turned(c))
    } else {
        path
    }
}

/// The position of the next backslash at or after `i`, or the end.
pub open spec fn piece_end(s: Seq<char>, i: int) -> int
    decreases s.len() - i,
{
    if i < 0 || i >= s.len() {
        s.len() as int
    } else if s[i] == '\\' {
        i
    } else {
        piece_end(s, i + 1)
    }
}

/// Whether a drive, that is, a letter with a colon, stands at `i`.
pub open spec fn is_drive(s: Seq<char>, i: int) -> bool {
    0 <= i && i + 1 < s.len() && 'a' <= ascii_lower(s[i]) <= 'z' && s[i + 1] == ':'
}

/// The end of the share behind a server that starts at `i`: the end of the server
/// where no share follows.
pub open spec fn share_end(s: Seq<char>, i: int) -> int {
    let server = piece_end(s, i);
    if server < s.len() && piece_end(s, server + 1) > server + 1 {
        piece_end(s, server + 1)
    } else {
        server
    }
}

/// The length of the prefix of a path on Windows whose separators are unified:
/// `\\?\UNC\server\share`, `\\?\C:`, `\\?\name`, `\\.\device`, `\\server\share`,
/// `C:`, or none.
pub open spec fn prefix_end(s: Seq<char>, verbatim: bool) -> int {
    if verbatim {
        if s.len() >= 8 && s[4] == 'U' && s[5] == 'N' && s[6] == 'C' && s[7] == '\\' {
            share_end(s, 8)
        } else if is_drive(s, 4) && (s.len() == 6 || s[6] == '\\' || s[6] == '/') {
            6
        } else {
            piece_end(s, 4)
        }
    } else if s.len() >= 2 && s[0] == '\\' && s[1] == '\\' {
        if s.len() >= 4 && s[2] == '.' && s[3] == '\\' {
            piece_end(s, 4)
        } else if piece_end(s, 2) > 2 && share_end(s, 2) > piece_end(s, 2) {
            share_end(s, 2)
        } else {
            0
        }
    } else if is_drive(s, 0) {
        2
    } else {
        0
    }
}

/// The prefix of a path.
pub open spec fn prefix_of(path: Seq<char>, windows: bool) -> Seq<char> {
    if windows {
        unified(path, windows).take(
            prefix_end(unified(path, windows), is_verbatim(path, windows)),
        )
    } else {
        Seq::empty()
    }
}

/// The path behind its prefix.
pub open spec fn body_of(path: Seq<char>, windows: bool) -> Seq<char> {
    unified(path, windows).skip(prefix_of(path, windows).len() as int)
}

/// Whether the path starts at a root, of its prefix where it has one. A share and
/// a device have their root even where no separator follows.
pub open spec fn has_root(path: Seq<char>, windows: bool) -> bool {
    ||| body_of(path, windows).len() > 0 && body_of(path, windows)[0] == separator(windows)
    ||| prefix_of(path, windows).len() > 2 && !is_verbatim(path, windows)
}

/// Whether the path does not depend on a current directory. On Windows this takes
/// a prefix, and a root behind a drive.
pub open spec fn is_absolute(path: Seq<char>, windows: bool) -> bool {
    if windows {
        prefix_of(path, windows).len() > 2 || (prefix_of(path, windows).len() > 0 && has_root(
            path,
            windows,
        ))
    } else {
        has_root(path, windows)
    }
}

/// The pieces that name something: not empty, and not a single dot unless dots
/// are kept.
pub open spec fn kept_pieces(pieces: Seq<Seq<char>>, keep_dots: bool) -> Seq<Seq<char>>
    decreases pieces.len(),
{
    if pieces.len() == 0 {
        Seq::empty()
    } else {
        let rest = kept_pieces(pieces.drop_last(), keep_dots);
        if pieces.last().len() == 0 || (!keep_dots && pieces.last() == seq!['.']) {
            rest
        } else {
            rest.push(pieces.last())
        }
    }
}

/// The components of a path that are not the prefix, the root or a leading dot.
pub open spec fn parts(path: Seq<char>, windows: bool) -> Seq<Seq<char>> {
    kept_pieces(split(body_of(path, windows), separator(windows)), is_verbatim(path, windows))
}

/// Whether the path starts with a dot as a component of its own.
pub open spec fn is_dotted(path: Seq<char>, windows: bool) -> bool {
    prefix_of(path, windows).len() == 0 && split(body_of(path, windows), separator(windows))[0]
        == seq!['.']
}

/// What the prefix is compared by: the case of a drive does not count.
pub open spec fn prefix_key(prefix: Seq<char>) -> Seq<char> {
    if is_drive(prefix, 0) || (prefix.len() == 6 && is_drive(prefix, 4)) {
        prefix.map_values(|c: char| ascii_lower(c))
    } else {
        prefix
    }
}

/// What stands before the named components: the prefix, the root, a leading dot,
/// or nothing.
pub open spec fn anchor(path: Seq<char>, windows: bool) -> Seq<Seq<char>> {
    (if prefix_of(path, windows).len() > 0 {
        seq![prefix_key(prefix_of(path, windows))]
    } else {
        Seq::empty()
    }) + (if has_root(path, windows) {
        seq![seq![separator(windows)]]
    } else if is_dotted(path, windows) {
        seq![seq!['.']]
    } else {
        Seq::empty()
    })
}

/// The components of a path. Repeated separators, and dots that do not lead, do
/// not count.
pub open spec fn components(path: Seq<char>, windows: bool) -> Seq<Seq<char>> {
    anchor(path, windows) + parts(path, windows)
}

/// The path that a list of components without a prefix spells.
pub open spec fn render(list: Seq<Seq<char>>, windows: bool) -> Seq<char> {
    let sep = seq![separator(windows)];
    if list.len() > 0 && list[0] == sep {
        sep + joined(list.subrange(1, list.len() as int), sep)
    } else {
        joined(list, sep)
    }
}

/// The path that a prefix, a root and named components spell.
pub open spec fn spelled(
    prefix: Seq<char>,
    rooted: bool,
    list: Seq<Seq<char>>,
    windows: bool,
) -> Seq<char> {
    let sep = seq![separator(windows)];
    prefix + (if rooted {
        sep + joined(list, sep)
    } else {
        joined(list, sep)
    })
}

/// Whether a component leads to the parent directory.
pub open spec fn is_parent(component: Seq<char>) -> bool {
    component == seq!['.', '.']
}

/// Whether a component is a name: not a dot or two dots.
pub open spec fn is_name(component: Seq<char>) -> bool {
    component != seq!['.'] && !is_parent(component)
}

/// Whether some component leads to the parent directory.
pub open spec fn has_parent(list: Seq<Seq<char>>) -> bool {
    exists|i: int| 0 <= i < list.len() && is_parent(#[trigger] list[i])
}

/// Whether some component is hidden, that is, starts with a dot.
pub open spec fn has_hidden(list: Seq<Seq<char>>) -> bool {
    exists|i: int|
        0 <= i < list.len() && (#[trigger] list[i]).len() > 0 && list[i][0] == '.'
}

/// The rank of a component: root, dot, two dots, name.
pub open spec fn component_rank(component: Seq<char>, windows: bool) -> int {
    if component == seq![separator(windows)] {
        0
    } else if component == seq!['.'] {
        1
    } else if is_parent(component) {
        2
    } else {
        3
    }
}

/// The order of components: by rank, names by text.
pub open spec fn component_before(left: Seq<char>, right: Seq<char>, windows: bool) -> bool {
    component_rank(left, windows) < component_rank(right, windows) || (component_rank(left, windows)
        == component_rank(right, windows) && before(left, right))
}

/// Lexicographic order of component lists.
pub open spec fn list_before(left: Seq<Seq<char>>, right: Seq<Seq<char>>, windows: bool) -> bool
    decreases left.len(),
{
    if right.len() == 0 {
        false
    } else if left.len() == 0 {
        true
    } else if left[0] != right[0] {
        component_before(left[0], right[0], windows)
    } else {
        list_before(left.drop_first(), right.drop_first(), windows)
    }
}

/// The order of vault-relative paths: component by component.
pub open spec fn path_before(left: Seq<char>, right: Seq<char>, windows: bool) -> bool {
    list_before(components(left, windows), components(right, windows), windows)
}

/// Whether the path ends with a separator.
pub open spec fn ends_separated(path: Seq<char>, windows: bool) -> bool {
    unified(path, windows).len() > 0 && unified(path, windows).last() == separator(windows)
}

/// The components that `rest` leads to from the components `list`: two dots take
/// back a name.
pub open spec fn followed(list: Seq<Seq<char>>, rest: Seq<Seq<char>>) -> Seq<Seq<char>>
    decreases rest.len(),
{
    if rest.len() == 0 {
        list
    } else {
        let done = followed(list, rest.drop_last());
        if !is_parent(rest.last()) {
            done.push(rest.last())
        } else if done.len() > 0 && is_name(done.last()) {
            done.drop_last()
        } else {
            done
        }
    }
}

/// `rest` inside the directory `base`, which has a verbatim prefix: nothing would
/// resolve dots there later.
pub open spec fn joined_verbatim(base: Seq<char>, rest: Seq<char>, windows: bool) -> Seq<char> {
    let list = followed(
        if has_root(rest, windows) {
            Seq::empty()
        } else {
            parts(base, windows)
        },
        parts(rest, windows),
    );
    spelled(
        prefix_of(base, windows),
        has_root(base, windows) || has_root(rest, windows) || list.len() > 0,
        list,
        windows,
    )
}

/// `rest` inside the directory `base`. A `rest` with a prefix, or with a root where
/// there are no prefixes, stands alone; one with a root replaces all but the prefix
/// of `base`; nothing separates a bare drive from what follows it.
pub open spec fn joined_path(base: Seq<char>, rest: Seq<char>, windows: bool) -> Seq<char> {
    if prefix_of(rest, windows).len() > 0 || base.len() == 0 {
        rest
    } else if is_verbatim(base, windows) && rest.len() > 0 {
        joined_verbatim(base, rest, windows)
    } else if has_root(rest, windows) {
        prefix_of(base, windows) + rest
    } else if ends_separated(base, windows) || (base.len() == 2 && prefix_of(base, windows).len()
        == 2) {
        base + rest
    } else {
        base.push(separator(windows)) + rest
    }
}

/// The last component, where it is a name.
pub open spec fn file_name_of(path: Seq<char>, windows: bool) -> Option<Seq<char>> {
    let list = parts(path, windows);
    if list.len() > 0 && is_name(list.last()) {
        Some(list.last())
    } else {
        None
    }
}

/// The position of the last dot of a name, or -1.
pub open spec fn last_dot(name: Seq<char>) -> int
    decreases name.len(),
{
    if name.len() == 0 {
        -1
    } else if name.last() == '.' {
        name.len() - 1
    } else {
        last_dot(name.drop_last())
    }
}

/// What follows the last dot of the file name, where something precedes that dot.
pub open spec fn extension_of(path: Seq<char>, windows: bool) -> Option<Seq<char>> {
    match file_name_of(path, windows) {
        Some(name) => {
            let dot = last_dot(name);
            if dot > 0 {
                Some(name.subrange(dot + 1, name.len() as int))
            } else {
                None
            }
        },
        None => None,
    }
}

/// The start of the piece of `s[lo..]` that ends at `hi`.
pub open spec fn piece_start(s: Seq<char>, lo: int, hi: int, sep: char) -> int
    decreases hi - lo,
{
    if 0 <= lo < hi <= s.len() && s[hi - 1] != sep {
        piece_start(s, lo, hi - 1, sep)
    } else {
        hi
    }
}

/// The end of `s[lo..hi]` without its last `n` named pieces and what separates and
/// follows them: separators, and single dots unless dots are kept.
pub open spec fn kept_end(
    s: Seq<char>,
    lo: int,
    hi: int,
    n: nat,
    sep: char,
    keep_dots: bool,
) -> int
    decreases hi - lo,
{
    let start = piece_start(s, lo, hi, sep);
    let before_piece = if start > lo {
        start - 1
    } else {
        lo
    };
    if !(0 <= lo < hi <= s.len()) || !(lo <= before_piece < hi) {
        hi
    } else if start == hi || (!keep_dots && start + 1 == hi && s[start] == '.') {
        kept_end(s, lo, before_piece, n, sep, keep_dots)
    } else if n == 0 {
        hi
    } else {
        kept_end(s, lo, before_piece, (n - 1) as nat, sep, keep_dots)
    }
}

/// The length of what stands before the named components: the prefix, the separator
/// of the root, a leading dot.
pub open spec fn anchor_end(path: Seq<char>, windows: bool) -> int {
    let body = body_of(path, windows);
    prefix_of(path, windows).len() + if body.len() > 0 && body[0] == separator(windows) {
        1int
    } else if is_dotted(path, windows) {
        1int
    } else {
        0int
    }
}

/// The path without its last `n` named components, and what is left as it is
/// spelled.
pub open spec fn ancestor(path: Seq<char>, n: nat, windows: bool) -> Seq<char> {
    let kept = kept_end(
        unified(path, windows),
        prefix_of(path, windows).len() as int,
        path.len() as int,
        n,
        separator(windows),
        is_verbatim(path, windows),
    );
    path.take(
        if kept < anchor_end(path, windows) {
            anchor_end(path, windows)
        } else {
            kept
        },
    )
}

/// The path without its last component; a prefix, a root and the empty path have
/// no parent.
pub open spec fn parent_of(path: Seq<char>, windows: bool) -> Option<Seq<char>> {
    if parts(path, windows).len() > 0 {
        Some(ancestor(path, 1, windows))
    } else if is_dotted(path, windows) {
        Some(Seq::empty())
    } else {
        None
    }
}

/// Whether the first components of `path` are those of `base`.
pub open spec fn is_within(path: Seq<char>, base: Seq<char>, windows: bool) -> bool {
    components(base, windows).is_prefix_of(components(path, windows))
}

/// What is left of `path` below `base`.
pub open spec fn below(path: Seq<char>, base: Seq<char>, windows: bool) -> Option<Seq<char>> {
    let n = components(base, windows).len();
    if !is_within(path, base, windows) {
        None
    } else if n == 0 {
        Some(ancestor(path, 0, windows))
    } else {
        Some(render(components(path, windows).skip(n as int), windows))
    }
}

/// The normal form of a vault-relative path: its names joined by single slashes, on
/// every system. Paths with a prefix or a root, and paths that lead to a parent
/// directory, have none.
pub open spec fn normal_relative(path: Seq<char>, windows: bool) -> Option<Seq<char>> {
    if prefix_of(path, windows).len() > 0 || has_root(path, windows) || has_parent(
        parts(path, windows),
    ) {
        None
    } else {
        Some(joined(parts(path, windows), seq!['/']))
    }
}

/// The text under which a path is kept: its components joined by slashes, on every
/// system.
pub open spec fn path_key(path: Seq<char>, windows: bool) -> Seq<char> {
    let list = components(path, windows);
    if list.len() > 0 && list[0] == seq![separator(windows)] {
        seq!['/'] + joined(list.subrange(1, list.len() as int), seq!['/'])
    } else {
        joined(list, seq!['/'])
    }
}

fn is_one(text: &str, c: char) -> (yes: bool)
    ensures
        yes == (text@ == seq![c]),
{
    let chars = chars_of(text);
    let yes = chars.len() == 1 && chars[0] == c;
    assert(yes ==> text@ =~= seq![c]);
    assert(text@ == seq![c] ==> text@.len() == 1 && text@[0] == c);
    yes
}

fn is_dots(text: &str) -> (yes: bool)
    ensures
        yes == is_parent(text@),
{
    let chars = chars_of(text);
    let yes = chars.len() == 2 && chars[0] == '.' && chars[1] == '.';
    assert(yes ==> text@ =~= seq!['.', '.']);
    assert(is_parent(text@) ==> text@.len() == 2 && text@[0] == '.' && text@[1] == '.');
    yes
}

fn is_empty_text(text: &str) -> (yes: bool)
    ensures
        yes == (text@.len() == 0),
{
    let chars = chars_of(text);
    chars.len() == 0
}

fn native(windows: bool) -> (c: char)
    ensures
        c == separator(windows),
{
    if windows {
        '\\'
    } else {
        '/'
    }
}

fn starts_verbatim(chars: &Vec<char>, windows: bool) -> (yes: bool)
    ensures
        yes == is_verbatim(chars@, windows),
{
    windows && chars.len() >= 4 && chars[0] == '\\' && chars[1] == '\\' && chars[2] == '?'
        && chars[3] == '\\'
}

fn unify(chars: Vec<char>, windows: bool) -> (turned_chars: Vec<char>)
    ensures
        turned_chars@ == unified(chars@, windows),
{
    if !windows || starts_verbatim(&chars, windows) {
        return chars;
    }
    let mut list: Vec<char> = Vec::new();
    let mut i: usize = 0;
    while i < chars.len()
        invariant
            i <= chars@.len(),
            list@.len() == i,
            forall|k: int| 0 <= k < i ==> #[trigger] list@[k] == turned(chars@[k]),
        decreases chars@.len() - i,
    {
        let c = chars[i];
        list.push(
            if c == '/' {
                '\\'
            } else {
                c
            },
        );
        i += 1;
    }
    assert(list@ =~= unified(chars@, windows));
    list
}

proof fn lemma_piece_end(s: Seq<char>, i: int)
    requires
        0 <= i <= s.len(),
    ensures
        i <= piece_end(s, i) <= s.len(),
    decreases s.len() - i,
{
    if i < s.len() && s[i] != '\\' {
        lemma_piece_end(s, i + 1);
    }
}

fn end_of_piece(chars: &Vec<char>, from: usize) -> (end: usize)
    requires
        from <= chars@.len(),
    ensures
        end == piece_end(chars@, from as int),
        from <= end <= chars@.len(),
{
    let mut end: usize = from;
    while end < chars.len() && chars[end] != '\\'
        invariant
            from <= end <= chars@.len(),
            piece_end(chars@, from as int) == piece_end(chars@, end as int),
        decreases chars@.len() - end,
    {
        end += 1;
    }
    end
}

fn end_of_share(chars: &Vec<char>, from: usize) -> (end: usize)
    requires
        from <= chars@.len(),
    ensures
        end == share_end(chars@, from as int),
        from <= end <= chars@.len(),
{
    let server = end_of_piece(chars, from);
    if server < chars.len() {
        let share = end_of_piece(chars, server + 1);
        if share > server + 1 {
            return share;
        }
    }
    server
}

fn has_drive(chars: &Vec<char>, at: usize) -> (yes: bool)
    requires
        at <= 4,
    ensures
        yes == is_drive(chars@, at as int),
{
    if at + 1 >= chars.len() {
        return false;
    }
    let letter = lower(chars[at]);
    'a' <= letter && letter <= 'z' && chars[at + 1] == ':'
}

fn prefix_length(chars: &Vec<char>, verbatim: bool) -> (end: usize)
    requires
        verbatim ==> chars@.len() >= 4,
    ensures
        end == prefix_end(chars@, verbatim),
        end <= chars@.len(),
{
    if verbatim {
        if chars.len() >= 8 && chars[4] == 'U' && chars[5] == 'N' && chars[6] == 'C' && chars[7]
            == '\\' {
            end_of_share(chars, 8)
        } else if has_drive(chars, 4) && (chars.len() == 6 || chars[6] == '\\' || chars[6] == '/') {
            6
        } else {
            end_of_piece(chars, 4)
        }
    } else if chars.len() >= 2 && chars[0] == '\\' && chars[1] == '\\' {
        if chars.len() >= 4 && chars[2] == '.' && chars[3] == '\\' {
            end_of_piece(chars, 4)
        } else {
            let server = end_of_piece(chars, 2);
            let share = end_of_share(chars, 2);
            if server > 2 && share > server {
                share
            } else {
                0
            }
        }
    } else if has_drive(chars, 0) {
        2
    } else {
        0
    }
}

/// A path taken apart.
struct Pieces {
    prefix: String,
    rooted: bool,
    dotted: bool,
    parts: Vec<String>,
}

proof fn lemma_split_nonempty(s: Seq<char>, sep: char, i: int)
    requires
        0 <= i <= s.len(),
    ensures
        split_from(s, sep, i).len() > 0,
    decreases s.len() - i,
{
}

fn keep_pieces(pieces: &Vec<String>, keep_dots: bool) -> (list: Vec<String>)
    ensures
        texts(list@) == kept_pieces(texts(pieces@), keep_dots),
{
    let mut list: Vec<String> = Vec::new();
    let mut i: usize = 0;
    let ghost all = texts(pieces@);
    assert(all.take(0) =~= Seq::empty());
    assert(texts(list@) =~= Seq::empty());
    while i < pieces.len()
        invariant
            i <= pieces@.len(),
            texts(pieces@) == all,
            texts(list@) == kept_pieces(all.take(i as int), keep_dots),
        decreases pieces@.len() - i,
    {
        assert(all.take(i + 1).drop_last() =~= all.take(i as int));
        assert(all.take(i + 1).last() == pieces@[i as int]@);
        let ghost before_list = list@;
        let piece = pieces[i].clone();
        if !is_empty_text(piece.as_str()) && (keep_dots || !is_one(piece.as_str(), '.')) {
            list.push(piece);
            assert(texts(list@) =~= texts(before_list).push(pieces@[i as int]@));
        }
        i += 1;
    }
    assert(all.take(i as int) =~= all);
    list
}

fn take_apart(path: &str, windows: bool) -> (pieces: Pieces)
    ensures
        pieces.prefix@ == prefix_of(path@, windows),
        pieces.rooted == has_root(path@, windows),
        pieces.dotted == is_dotted(path@, windows),
        texts(pieces.parts@) == parts(path@, windows),
        pieces.prefix@.len() <= path@.len(),
{
    let chars = chars_of(path);
    let verbatim = starts_verbatim(&chars, windows);
    let chars = unify(chars, windows);
    let end: usize = if windows {
        prefix_length(&chars, verbatim)
    } else {
        0
    };
    let prefix = slice_text(&chars, 0, end);
    let body = slice_text(&chars, end, chars.len());
    assert(prefix@ =~= prefix_of(path@, windows));
    assert(body@ =~= body_of(path@, windows));
    let rooted = (end < chars.len() && chars[end] == native(windows)) || (end > 2 && !verbatim);
    let list = split_at_char(body.as_str(), native(windows));
    proof {
        lemma_split_nonempty(body@, separator(windows), 0);
        assert(texts(list@).len() > 0);
        assert(texts(list@)[0] == list@[0]@);
    }
    let dotted = end == 0 && is_one(list[0].as_str(), '.');
    let parts = keep_pieces(&list, verbatim);
    Pieces { prefix, rooted, dotted, parts }
}

fn key_of_prefix(prefix: &str) -> (key: String)
    ensures
        key@ == prefix_key(prefix@),
{
    let chars = chars_of(prefix);
    if !has_drive(&chars, 0) && !(chars.len() == 6 && has_drive(&chars, 4)) {
        return prefix.to_owned();
    }
    let mut key = String::new();
    let mut i: usize = 0;
    while i < chars.len()
        invariant
            i <= chars@.len(),
            key@.len() == i,
            forall|k: int| 0 <= k < i ==> #[trigger] key@[k] == ascii_lower(chars@[k]),
        decreases chars@.len() - i,
    {
        key.push(lower(chars[i]));
        i += 1;
    }
    assert(key@ =~= prefix@.map_values(|c: char| ascii_lower(c)));
    key
}

/// Whether a path does not depend on a current directory.
pub fn is_absolute_path(path: &str, windows: bool) -> (yes: bool)
    ensures
        yes == is_absolute(path@, windows),
{
    let pieces = take_apart(path, windows);
    let length = pieces.prefix.as_str().unicode_len();
    if windows {
        length > 2 || (length > 0 && pieces.rooted)
    } else {
        pieces.rooted
    }
}

/// The components of a path.
pub fn components_of(path: &str, windows: bool) -> (list: Vec<String>)
    ensures
        texts(list@) == components(path@, windows),
{
    let pieces = take_apart(path, windows);
    let mut list: Vec<String> = Vec::new();
    assert(texts(list@) =~= Seq::<Seq<char>>::empty());
    if pieces.prefix.as_str().unicode_len() > 0 {
        list.push(key_of_prefix(pieces.prefix.as_str()));
        assert(texts(list@) =~= seq![prefix_key(prefix_of(path@, windows))]);
    }
    let ghost before_list = texts(list@);
    if pieces.rooted {
        let mut root = String::new();
        root.push(native(windows));
        list.push(root);
        assert(texts(list@) =~= before_list + seq![seq![separator(windows)]]);
    } else if pieces.dotted {
        let mut dot = String::new();
        dot.push('.');
        list.push(dot);
        assert(texts(list@) =~= before_list + seq![seq!['.']]);
    } else {
        assert(texts(list@) =~= before_list + Seq::<Seq<char>>::empty());
    }
    let ghost head = texts(list@);
    assert(head =~= anchor(path@, windows));
    let mut rest = pieces.parts;
    let ghost tail = texts(rest@);
    let ghost whole = list@ + rest@;
    list.append(&mut rest);
    assert(texts(whole) =~= head + tail);
    list
}

fn join_native(list: &Vec<String>, windows: bool) -> (path: String)
    ensures
        path@ == joined(texts(list@), seq![separator(windows)]),
{
    let mut sep = String::new();
    sep.push(native(windows));
    assert(sep@ =~= seq![separator(windows)]);
    join(list.as_slice(), sep.as_str())
}

fn join_slash(list: &Vec<String>) -> (path: String)
    ensures
        path@ == joined(texts(list@), seq!['/']),
{
    join_native(list, false)
}

/// The path that a list of components without a prefix spells.
pub fn render_path(list: &Vec<String>, windows: bool) -> (path: String)
    ensures
        path@ == render(texts(list@), windows),
{
    if list.len() > 0 && is_one(list[0].as_str(), native(windows)) {
        assert(texts(list@)[0] == list@[0]@);
        let mut rest: Vec<String> = Vec::new();
        let mut i: usize = 1;
        while i < list.len()
            invariant
                1 <= i <= list@.len(),
                texts(rest@) == texts(list@).subrange(1, i as int),
            decreases list@.len() - i,
        {
            let ghost before_rest = rest@;
            rest.push(list[i].clone());
            i += 1;
            assert(texts(rest@) =~= texts(before_rest).push(list@[i - 1]@));
            assert(texts(rest@) =~= texts(list@).subrange(1, i as int));
        }
        let mut path = String::new();
        path.push(native(windows));
        let tail = join_native(&rest, windows);
        path.append(tail.as_str());
        assert(path@ =~= render(texts(list@), windows));
        path
    } else {
        proof {
            if list@.len() > 0 {
                assert(texts(list@)[0] == list@[0]@);
            }
        }
        join_native(list, windows)
    }
}

fn spell(prefix: &str, rooted: bool, list: &Vec<String>, windows: bool) -> (path: String)
    ensures
        path@ == spelled(prefix@, rooted, texts(list@), windows),
{
    let mut path = prefix.to_owned();
    if rooted {
        path.push(native(windows));
    }
    let tail = join_native(list, windows);
    path.append(tail.as_str());
    assert(path@ =~= spelled(prefix@, rooted, texts(list@), windows));
    path
}

fn follow(start: Vec<String>, rest: &Vec<String>) -> (list: Vec<String>)
    ensures
        texts(list@) == followed(texts(start@), texts(rest@)),
{
    let mut list = start;
    let ghost first = texts(list@);
    let ghost all = texts(rest@);
    let mut i: usize = 0;
    assert(all.take(0) =~= Seq::empty());
    while i < rest.len()
        invariant
            i <= rest@.len(),
            all == texts(rest@),
            texts(list@) == followed(first, all.take(i as int)),
        decreases rest@.len() - i,
    {
        let ghost before_list = list@;
        assert(all.take(i + 1).drop_last() =~= all.take(i as int));
        assert(all.take(i + 1).last() == rest@[i as int]@);
        if !is_dots(rest[i].as_str()) {
            list.push(rest[i].clone());
            assert(texts(list@) =~= texts(before_list).push(rest@[i as int]@));
        } else if list.len() > 0 {
            assert(texts(list@).last() == list@.last()@);
            let last = list[list.len() - 1].as_str();
            if !is_one(last, '.') && !is_dots(last) {
                let _ = list.pop();
                assert(texts(list@) =~= texts(before_list).drop_last());
            }
        }
        i += 1;
    }
    assert(all.take(i as int) =~= all);
    list
}

/// `rest` inside the directory `base`.
pub fn join_path(base: &str, rest: &str, windows: bool) -> (path: String)
    ensures
        path@ == joined_path(base@, rest@, windows),
{
    let inner = take_apart(rest, windows);
    let plain = chars_of(base);
    let verbatim = starts_verbatim(&plain, windows);
    let chars = unify(plain, windows);
    if inner.prefix.as_str().unicode_len() > 0 || chars.len() == 0 {
        return rest.to_owned();
    }
    let outer = take_apart(base, windows);
    if verbatim && rest.unicode_len() > 0 {
        let start = if inner.rooted {
            Vec::new()
        } else {
            outer.parts
        };
        assert(inner.rooted ==> texts(start@) =~= Seq::empty());
        let list = follow(start, &inner.parts);
        let rooted = outer.rooted || inner.rooted || list.len() > 0;
        return spell(outer.prefix.as_str(), rooted, &list, windows);
    }
    if inner.rooted {
        let mut path = outer.prefix;
        path.append(rest);
        return path;
    }
    let mut path = base.to_owned();
    let bare = chars.len() == 2 && outer.prefix.as_str().unicode_len() == 2;
    if chars[chars.len() - 1] != native(windows) && !bare {
        path.push(native(windows));
    }
    path.append(rest);
    path
}

/// The last component, where it is a name.
pub fn file_name(path: &str, windows: bool) -> (name: Option<String>)
    ensures
        opt_text(name) == file_name_of(path@, windows),
{
    let mut list = take_apart(path, windows).parts;
    let ghost all = texts(list@);
    match list.pop() {
        Some(last) => {
            assert(all.last() == last@);
            if is_one(last.as_str(), '.') || is_dots(last.as_str()) {
                None
            } else {
                Some(last)
            }
        },
        None => None,
    }
}

/// The named components of a path.
pub fn parts_of(path: &str, windows: bool) -> (list: Vec<String>)
    ensures
        texts(list@) == parts(path@, windows),
{
    take_apart(path, windows).parts
}

/// The piece that ends at `hi` starts right behind the separator before it.
pub proof fn piece_starts_behind_separator(s: Seq<char>, lo: int, start: int, hi: int, sep: char)
    requires
        0 <= lo <= start <= hi <= s.len(),
        forall|k: int| start <= k < hi ==> s[k] != sep,
        start == lo || s[start - 1] == sep,
    ensures
        piece_start(s, lo, hi, sep) == start,
    decreases hi - start,
{
    if start < hi {
        piece_starts_behind_separator(s, lo, start, hi - 1, sep);
    }
}

/// A piece reaches from behind a separator, or from the start, to its end.
pub proof fn piece_holds_no_separator(s: Seq<char>, lo: int, hi: int, sep: char)
    requires
        0 <= lo <= hi <= s.len(),
    ensures
        lo <= piece_start(s, lo, hi, sep) <= hi,
        piece_start(s, lo, hi, sep) > lo ==> s[piece_start(s, lo, hi, sep) - 1] == sep,
        forall|k: int| piece_start(s, lo, hi, sep) <= k < hi ==> s[k] != sep,
    decreases hi - lo,
{
    if lo < hi && s[hi - 1] != sep {
        piece_holds_no_separator(s, lo, hi - 1, sep);
    }
}

fn start_of_piece(chars: &Vec<char>, lo: usize, hi: usize, sep: char) -> (start: usize)
    requires
        lo <= hi <= chars@.len(),
    ensures
        start == piece_start(chars@, lo as int, hi as int, sep),
        lo <= start <= hi,
{
    let mut start: usize = hi;
    while start > lo && chars[start - 1] != sep
        invariant
            lo <= start <= hi <= chars@.len(),
            piece_start(chars@, lo as int, hi as int, sep) == piece_start(
                chars@,
                lo as int,
                start as int,
                sep,
            ),
        decreases start - lo,
    {
        start -= 1;
    }
    start
}

fn end_of_kept(
    chars: &Vec<char>,
    lo: usize,
    hi: usize,
    n: usize,
    sep: char,
    keep_dots: bool,
) -> (end: usize)
    requires
        lo <= hi <= chars@.len(),
    ensures
        end == kept_end(chars@, lo as int, hi as int, n as nat, sep, keep_dots),
        lo <= end <= hi,
{
    let mut end: usize = hi;
    let mut left: usize = n;
    while end > lo
        invariant
            lo <= end <= hi <= chars@.len(),
            kept_end(chars@, lo as int, hi as int, n as nat, sep, keep_dots) == kept_end(
                chars@,
                lo as int,
                end as int,
                left as nat,
                sep,
                keep_dots,
            ),
        decreases end,
    {
        let start = start_of_piece(chars, lo, end, sep);
        proof {
            piece_holds_no_separator(chars@, lo as int, end as int, sep);
        }
        let before_piece: usize = if start > lo {
            start - 1
        } else {
            lo
        };
        let noise = start == end || (!keep_dots && end - start == 1 && chars[start] == '.');
        if !noise {
            if left == 0 {
                return end;
            }
            left -= 1;
        }
        end = before_piece;
    }
    end
}

/// The path without its last `n` named components, and what is left as it is
/// spelled.
pub fn ancestor_path(path: &str, n: usize, windows: bool) -> (up: String)
    ensures
        up@ == ancestor(path@, n as nat, windows),
{
    let pieces = take_apart(path, windows);
    let plain = chars_of(path);
    let verbatim = starts_verbatim(&plain, windows);
    let chars = unify(chars_of(path), windows);
    let lo: usize = pieces.prefix.as_str().unicode_len();
    let ghost body = body_of(path@, windows);
    proof {
        assert(lo == prefix_of(path@, windows).len());
        assert(chars@ == unified(path@, windows));
        assert(body =~= chars@.skip(lo as int));
        if is_dotted(path@, windows) {
            find_char_is_first(body, separator(windows), 0);
            let e = find_char(body, separator(windows), 0);
            assert(split(body, separator(windows))[0].len() == e);
        }
    }
    let kept = end_of_kept(&chars, lo, chars.len(), n, native(windows), verbatim);
    let anchored: usize = if (lo < chars.len() && chars[lo] == native(windows)) || pieces.dotted {
        lo + 1
    } else {
        lo
    };
    let end: usize = if kept < anchored {
        anchored
    } else {
        kept
    };
    let up = slice_text(&plain, 0, end);
    assert(up@ =~= path@.take(end as int));
    up
}

proof fn lemma_last_dot(name: Seq<char>)
    ensures
        -1 <= last_dot(name) < name.len(),
        last_dot(name) >= 0 ==> name[last_dot(name)] == '.',
    decreases name.len(),
{
    if name.len() > 0 && name.last() != '.' {
        lemma_last_dot(name.drop_last());
    }
}

/// What follows the last dot of the file name, where something precedes that dot.
pub fn extension(path: &str, windows: bool) -> (ext: Option<String>)
    ensures
        opt_text(ext) == extension_of(path@, windows),
{
    match file_name(path, windows) {
        Some(name) => {
            let chars = chars_of(name.as_str());
            let mut end: usize = chars.len();
            assert(name@.take(end as int) =~= name@);
            while end > 0 && chars[end - 1] != '.'
                invariant
                    chars@ == name@,
                    end <= chars@.len(),
                    last_dot(name@) == last_dot(name@.take(end as int)),
                decreases end,
            {
                assert(name@.take(end as int).drop_last() =~= name@.take(end - 1));
                end -= 1;
            }
            if end > 1 {
                Some(slice_text(&chars, end, chars.len()))
            } else {
                None
            }
        },
        None => None,
    }
}

/// The path without its last component.
pub fn parent(path: &str, windows: bool) -> (up: Option<String>)
    ensures
        opt_text(up) == parent_of(path@, windows),
{
    let pieces = take_apart(path, windows);
    assert(texts(pieces.parts@).len() == pieces.parts@.len());
    if pieces.parts.len() > 0 {
        Some(ancestor_path(path, 1, windows))
    } else if pieces.dotted {
        let up = String::new();
        assert(up@ =~= Seq::<char>::empty());
        Some(up)
    } else {
        None
    }
}

fn is_list_prefix(prefix: &Vec<String>, list: &Vec<String>) -> (yes: bool)
    ensures
        yes == texts(prefix@).is_prefix_of(texts(list@)),
{
    if prefix.len() > list.len() {
        return false;
    }
    let mut i: usize = 0;
    while i < prefix.len()
        invariant
            i <= prefix@.len() <= list@.len(),
            forall|k: int| 0 <= k < i ==> (#[trigger] prefix@[k])@ == list@[k]@,
        decreases prefix@.len() - i,
    {
        if !same(prefix[i].as_str(), list[i].as_str()) {
            assert(texts(prefix@)[i as int] != texts(list@)[i as int]);
            return false;
        }
        i += 1;
    }
    assert(texts(prefix@) =~= texts(list@).subrange(0, prefix@.len() as int));
    true
}

/// Whether the first components of `path` are those of `base`.
pub fn is_inside(path: &str, base: &str, windows: bool) -> (yes: bool)
    ensures
        yes == is_within(path@, base@, windows),
{
    let list = components_of(path, windows);
    let prefix = components_of(base, windows);
    is_list_prefix(&prefix, &list)
}

/// What is left of `path` below `base`.
pub fn strip_base(path: &str, base: &str, windows: bool) -> (rest: Option<String>)
    ensures
        opt_text(rest) == below(path@, base@, windows),
{
    let list = components_of(path, windows);
    let prefix = components_of(base, windows);
    if !is_list_prefix(&prefix, &list) {
        return None;
    }
    assert(texts(prefix@).len() == prefix@.len());
    if prefix.len() == 0 {
        return Some(ancestor_path(path, 0, windows));
    }
    let mut tail: Vec<String> = Vec::new();
    let mut i: usize = prefix.len();
    while i < list.len()
        invariant
            prefix@.len() <= i <= list@.len(),
            texts(tail@) == texts(list@).subrange(prefix@.len() as int, i as int),
        decreases list@.len() - i,
    {
        let ghost before_tail = tail@;
        tail.push(list[i].clone());
        i += 1;
        assert(texts(tail@) =~= texts(before_tail).push(list@[i - 1]@));
        assert(texts(tail@) =~= texts(list@).subrange(prefix@.len() as int, i as int));
    }
    assert(texts(tail@) =~= texts(list@).skip(prefix@.len() as int));
    Some(render_path(&tail, windows))
}

/// Whether two paths have the same components.
pub fn same_path(left: &str, right: &str, windows: bool) -> (yes: bool)
    ensures
        yes == (components(left@, windows) == components(right@, windows)),
{
    let a = components_of(left, windows);
    let b = components_of(right, windows);
    let yes = a.len() == b.len() && is_list_prefix(&a, &b);
    assert(texts(a@).len() == a@.len() && texts(b@).len() == b@.len());
    assert(texts(b@).subrange(0, b@.len() as int) =~= texts(b@));
    yes
}

/// Whether no component of the path is hidden.
pub fn is_visible_path(path: &str, windows: bool) -> (yes: bool)
    ensures
        yes == !has_hidden(components(path@, windows)),
{
    let list = components_of(path, windows);
    let mut i: usize = 0;
    while i < list.len()
        invariant
            i <= list@.len(),
            texts(list@) == components(path@, windows),
            forall|k: int|
                0 <= k < i ==> !((#[trigger] texts(list@)[k]).len() > 0 && texts(list@)[k][0] == '.'),
        decreases list@.len() - i,
    {
        let chars = chars_of(list[i].as_str());
        assert(texts(list@)[i as int] == list@[i as int]@);
        if chars.len() > 0 && chars[0] == '.' {
            return false;
        }
        i += 1;
    }
    true
}

/// The number of components.
pub fn component_count(path: &str, windows: bool) -> (n: usize)
    ensures
        n == components(path@, windows).len(),
{
    let list = components_of(path, windows);
    assert(texts(list@).len() == list@.len());
    list.len()
}

/// What is said of a path that has no normal form.
pub open spec fn invalid_relative_text(path: Seq<char>) -> Seq<char> {
    "path must stay inside the vault: "@ + path
}

/// The normal form of a vault-relative path.
pub fn normalize_relative(path: &str, windows: bool) -> (result: Result<String, VaultError>)
    ensures
        match result {
            Ok(normal) => normal_relative(path@, windows) == Some(normal@),
            Err(error) => normal_relative(path@, windows) is None && error@
                == VaultErrorView::InvalidPath(invalid_relative_text(path@)),
        },
{
    let pieces = take_apart(path, windows);
    let list = pieces.parts;
    let mut bad = pieces.prefix.as_str().unicode_len() > 0 || pieces.rooted;
    let ghost anchored = bad;
    let mut i: usize = 0;
    while i < list.len()
        invariant
            i <= list@.len(),
            texts(list@) == parts(path@, windows),
            bad == (anchored || exists|k: int|
                0 <= k < i && is_parent(#[trigger] texts(list@)[k])),
        decreases list@.len() - i,
    {
        assert(texts(list@)[i as int] == list@[i as int]@);
        if is_dots(list[i].as_str()) {
            bad = true;
        }
        i += 1;
    }
    assert(texts(list@).len() == list@.len());
    if bad {
        let mut text = "path must stay inside the vault: ".to_owned();
        text.append(path);
        Err(VaultError::InvalidPath(text))
    } else {
        Ok(join_slash(&list))
    }
}

/// The text under which a path is kept.
pub fn key_of_path(path: &str, windows: bool) -> (key: String)
    ensures
        key@ == path_key(path@, windows),
{
    let mut list = components_of(path, windows);
    let ghost all = texts(list@);
    if list.len() > 0 {
        assert(all[0] == list@[0]@);
        if is_one(list[0].as_str(), native(windows)) {
            let _ = list.remove(0);
            assert(texts(list@) =~= all.subrange(1, all.len() as int));
            let mut key = String::new();
            key.push('/');
            let tail = join_slash(&list);
            key.append(tail.as_str());
            assert(key@ =~= path_key(path@, windows));
            return key;
        }
    }
    join_slash(&list)
}

/// The vault-relative form of an absolute path below `root`.
pub open spec fn relative_to_root(root: Seq<char>, path: Seq<char>, windows: bool) -> Option<
    Seq<char>,
> {
    match below(path, root, windows) {
        Some(rest) => normal_relative(rest, windows),
        None => None,
    }
}

/// The vault-relative form of an absolute path below `root`.
pub fn relative_from_absolute(root: &str, path: &str, windows: bool) -> (result: Result<
    String,
    VaultError,
>)
    ensures
        match result {
            Ok(relative) => relative_to_root(root@, path@, windows) == Some(relative@),
            Err(error) => relative_to_root(root@, path@, windows) is None && error@
                == VaultErrorView::InvalidPath(invalid_relative_text(path@)),
        },
{
    let relative = match strip_base(path, root, windows) {
        Some(rest) => match normalize_relative(rest.as_str(), windows) {
            Ok(relative) => Some(relative),
            Err(_) => None,
        },
        None => None,
    };
    match relative {
        Some(relative) => Ok(relative),
        None => {
            let mut text = "path must stay inside the vault: ".to_owned();
            text.append(path);
            Err(VaultError::InvalidPath(text))
        },
    }
}

fn rank_of(component: &str, windows: bool) -> (rank: u8)
    ensures
        rank == component_rank(component@, windows),
{
    if is_one(component, native(windows)) {
        0
    } else if is_one(component, '.') {
        1
    } else if is_dots(component) {
        2
    } else {
        3
    }
}

fn is_component_before(left: &str, right: &str, windows: bool) -> (less: bool)
    ensures
        less == component_before(left@, right@, windows),
{
    let a: u8 = rank_of(left, windows);
    let b: u8 = rank_of(right, windows);
    a < b || (a == b && is_before(left, right))
}

proof fn lemma_list_before_common_prefix(
    left: Seq<Seq<char>>,
    right: Seq<Seq<char>>,
    n: int,
    windows: bool,
)
    requires
        0 <= n <= left.len(),
        n <= right.len(),
        left.take(n) == right.take(n),
    ensures
        list_before(left, right, windows) == list_before(left.skip(n), right.skip(n), windows),
    decreases n,
{
    if n == 0 {
        assert(left.skip(0) =~= left);
        assert(right.skip(0) =~= right);
    } else {
        assert(left[0] == left.take(n)[0]);
        assert(right[0] == right.take(n)[0]);
        let l = left.drop_first();
        let r = right.drop_first();
        assert(l.take(n - 1) =~= left.take(n).drop_first());
        assert(r.take(n - 1) =~= right.take(n).drop_first());
        lemma_list_before_common_prefix(l, r, n - 1, windows);
        assert(l.skip(n - 1) =~= left.skip(n));
        assert(r.skip(n - 1) =~= right.skip(n));
    }
}

/// Whether `left` comes before `right` in path order.
pub fn is_path_before(left: &str, right: &str, windows: bool) -> (less: bool)
    ensures
        less == path_before(left@, right@, windows),
{
    let a = components_of(left, windows);
    let b = components_of(right, windows);
    let ghost ta = texts(a@);
    let ghost tb = texts(b@);
    let mut i: usize = 0;
    while i < a.len() && i < b.len() && same(a[i].as_str(), b[i].as_str())
        invariant
            ta == texts(a@),
            tb == texts(b@),
            i <= a@.len(),
            i <= b@.len(),
            ta.take(i as int) == tb.take(i as int),
        decreases a@.len() - i,
    {
        assert(ta.take(i + 1) =~= ta.take(i as int).push(a@[i as int]@));
        assert(tb.take(i + 1) =~= tb.take(i as int).push(b@[i as int]@));
        i += 1;
    }
    proof {
        lemma_list_before_common_prefix(ta, tb, i as int, windows);
        if i < a@.len() && i < b@.len() {
            assert(ta.skip(i as int)[0] == a@[i as int]@);
            assert(tb.skip(i as int)[0] == b@[i as int]@);
        }
    }
    if i >= b.len() {
        false
    } else if i >= a.len() {
        true
    } else {
        is_component_before(a[i].as_str(), b[i].as_str(), windows)
    }
}

/// Path order is irreflexive, and of two paths with different components
/// exactly one comes before the other.
pub proof fn path_order_is_strict_and_total(left: Seq<char>, right: Seq<char>, windows: bool)
    ensures
        !path_before(left, left, windows),
        !(path_before(left, right, windows) && path_before(right, left, windows)),
        components(left, windows) != components(right, windows) ==> path_before(
            left,
            right,
            windows,
        ) || path_before(
            right,
            left,
            windows,
        ),
{
    lemma_list_strict_and_total(components(left, windows), components(right, windows), windows);
}

proof fn lemma_list_strict_and_total(
    left: Seq<Seq<char>>,
    right: Seq<Seq<char>>,
    windows: bool,
)
    ensures
        !list_before(left, left, windows),
        !(list_before(left, right, windows) && list_before(right, left, windows)),
        left != right ==> list_before(left, right, windows) || list_before(right, left, windows),
    decreases left.len(),
{
    if left.len() > 0 {
        lemma_list_strict_and_total(left.drop_first(), left.drop_first(), windows);
    }
    if left.len() > 0 && right.len() > 0 {
        before_is_strict_and_total(left[0], right[0]);
        lemma_list_strict_and_total(left.drop_first(), right.drop_first(), windows);
        if left[0] == right[0] && left.drop_first() == right.drop_first() {
            assert(left =~= seq![left[0]] + left.drop_first());
            assert(right =~= seq![right[0]] + right.drop_first());
        }
    } else if left.len() == 0 && right.len() == 0 {
        assert(left =~= right);
    }
}

/// Path order is transitive.
pub proof fn path_order_is_transitive(a: Seq<char>, b: Seq<char>, c: Seq<char>, windows: bool)
    requires
        path_before(a, b, windows),
        path_before(b, c, windows),
    ensures
        path_before(a, c, windows),
{
    lemma_list_transitive(
        components(a, windows),
        components(b, windows),
        components(c, windows),
        windows,
    );
}

proof fn lemma_list_transitive(
    a: Seq<Seq<char>>,
    b: Seq<Seq<char>>,
    c: Seq<Seq<char>>,
    windows: bool,
)
    requires
        list_before(a, b, windows),
        list_before(b, c, windows),
    ensures
        list_before(a, c, windows),
    decreases a.len(),
{
    if a.len() > 0 {
        if a[0] == b[0] && b[0] == c[0] {
            lemma_list_transitive(a.drop_first(), b.drop_first(), c.drop_first(), windows);
        } else if a[0] != b[0] && b[0] != c[0] {
            if component_rank(a[0], windows) == component_rank(b[0], windows) && component_rank(b[0], windows)
                == component_rank(c[0], windows) {
                before_is_transitive(a[0], b[0], c[0]);
            }
            before_is_strict_and_total(a[0], b[0]);
            before_is_strict_and_total(b[0], c[0]);
        }
    }
}

/// However a path is spelled, it is kept under the same text.
pub proof fn spellings_share_a_key(left: Seq<char>, right: Seq<char>, windows: bool)
    requires
        components(left, windows) == components(right, windows),
    ensures
        path_key(left, windows) == path_key(right, windows),
{
}

spec fn is_plain(list: Seq<Seq<char>>, windows: bool) -> bool {
    forall|i: int|
        0 <= i < list.len() ==> (#[trigger] list[i]).len() > 0 && !list[i].contains('/')
            && !list[i].contains(separator(windows))
}

proof fn lemma_joined_first(list: Seq<Seq<char>>)
    requires
        list.len() > 0,
        list[0].len() > 0,
    ensures
        joined(list, seq!['/']).len() > 0,
        joined(list, seq!['/'])[0] == list[0][0],
    decreases list.len(),
{
    if list.len() > 1 {
        lemma_joined_first(list.drop_last());
    }
}

proof fn lemma_joined_determined(left: Seq<Seq<char>>, right: Seq<Seq<char>>, windows: bool)
    requires
        is_plain(left, windows),
        is_plain(right, windows),
        joined(left, seq!['/']) == joined(right, seq!['/']),
    ensures
        left == right,
{
    if left.len() > 0 {
        lemma_joined_first(left);
        joined_list_splits_back(left, '/');
    }
    if right.len() > 0 {
        lemma_joined_first(right);
        joined_list_splits_back(right, '/');
    }
    assert(left =~= right);
}

proof fn lemma_kept_are_pieces(pieces: Seq<Seq<char>>, keep_dots: bool)
    ensures
        forall|i: int|
            0 <= i < kept_pieces(pieces, keep_dots).len() ==> (#[trigger] kept_pieces(
                pieces,
                keep_dots,
            )[i]).len() > 0 && pieces.contains(kept_pieces(pieces, keep_dots)[i]),
    decreases pieces.len(),
{
    if pieces.len() > 0 {
        let front = pieces.drop_last();
        lemma_kept_are_pieces(front, keep_dots);
        let rest = kept_pieces(front, keep_dots);
        let all = kept_pieces(pieces, keep_dots);
        assert forall|i: int| 0 <= i < all.len() implies (#[trigger] all[i]).len() > 0
            && pieces.contains(all[i]) by {
            if i < rest.len() {
                assert(all[i] == rest[i]);
                let k = choose|k: int| 0 <= k < front.len() && front[k] == rest[i];
                assert(pieces[k] == rest[i]);
            } else {
                assert(pieces[pieces.len() - 1] == all[i]);
            }
        }
    }
}

proof fn lemma_verbatim_has_prefix(path: Seq<char>)
    requires
        is_verbatim(path, true),
    ensures
        prefix_of(path, true).len() > 0,
{
    lemma_piece_end(path, 4);
    if path.len() >= 8 {
        lemma_piece_end(path, 8);
        if piece_end(path, 8) < path.len() {
            lemma_piece_end(path, piece_end(path, 8) + 1);
        }
    }
}

proof fn lemma_components_plain(path: Seq<char>, windows: bool)
    requires
        prefix_of(path, windows).len() == 0,
    ensures
        is_plain(parts(path, windows), windows),
{
    let body = body_of(path, windows);
    let pieces = split(body, separator(windows));
    let list = parts(path, windows);
    if is_verbatim(path, windows) {
        lemma_verbatim_has_prefix(path);
    }
    assert(body =~= unified(path, windows));
    pieces_hold_no_separator(body, separator(windows), 0);
    lemma_kept_are_pieces(pieces, is_verbatim(path, windows));
    assert forall|i: int| 0 <= i < list.len() implies (#[trigger] list[i]).len() > 0
        && !list[i].contains('/') && !list[i].contains(separator(windows)) by {
        let k = choose|k: int| 0 <= k < pieces.len() && pieces[k] == list[i];
        assert(!pieces[k].contains(separator(windows)));
        if windows && pieces[k].contains('/') {
            assert(body.contains('/'));
            let m = choose|m: int| 0 <= m < body.len() && body[m] == '/';
            assert(body[m] == turned(path[m]));
        }
    }
}

/// Paths without a prefix that are kept under the same text are the same path.
pub proof fn keys_tell_paths_apart(left: Seq<char>, right: Seq<char>, windows: bool)
    requires
        prefix_of(left, windows).len() == 0,
        prefix_of(right, windows).len() == 0,
        path_key(left, windows) == path_key(right, windows),
    ensures
        components(left, windows) == components(right, windows),
{
    lemma_key_split(left, windows);
    lemma_key_split(right, windows);
    let a = components(left, windows);
    let b = components(right, windows);
    let sep = seq![separator(windows)];
    let k = path_key(left, windows);
    if has_root(left, windows) {
        let x = a.subrange(1, a.len() as int);
        let y = b.subrange(1, b.len() as int);
        assert(k.skip(1) =~= joined(x, seq!['/']));
        assert(k.skip(1) =~= joined(y, seq!['/']));
        lemma_joined_determined(x, y, windows);
        assert(a =~= seq![sep] + x);
        assert(b =~= seq![sep] + y);
    } else {
        lemma_joined_determined(a, b, windows);
    }
}

proof fn lemma_key_split(path: Seq<char>, windows: bool)
    requires
        prefix_of(path, windows).len() == 0,
    ensures
        has_root(path, windows) <==> (path_key(path, windows).len() > 0 && path_key(
            path,
            windows,
        )[0] == '/'),
        has_root(path, windows) ==> {
            let list = components(path, windows);
            list.len() > 0 && list[0] == seq![separator(windows)] && is_plain(
                list.subrange(1, list.len() as int),
                windows,
            ) && path_key(path, windows) == seq!['/'] + joined(
                list.subrange(1, list.len() as int),
                seq!['/'],
            )
        },
        !has_root(path, windows) ==> is_plain(components(path, windows), windows) && path_key(
            path,
            windows,
        ) == joined(components(path, windows), seq!['/']),
{
    lemma_components_plain(path, windows);
    let list = components(path, windows);
    let named = parts(path, windows);
    if has_root(path, windows) {
        assert(list.subrange(1, list.len() as int) =~= named);
        assert(list[0] == seq![separator(windows)]);
    } else {
        assert(is_plain(list, windows)) by {
            let dot = seq!['.'];
            assert forall|i: int| 0 <= i < list.len() implies (#[trigger] list[i]).len() > 0
                && !list[i].contains('/') && !list[i].contains(separator(windows)) by {
                if is_dotted(path, windows) {
                    if i == 0 {
                        assert(list[0] == dot);
                        assert(dot[0] == '.');
                    } else {
                        assert(list[i] == named[i - 1]);
                    }
                } else {
                    assert(list[i] == named[i]);
                }
            }
        }
        if list.len() > 0 {
            lemma_joined_first(list);
            assert(list[0].contains(list[0][0]));
            let sep = seq![separator(windows)];
            assert(sep[0] == separator(windows));
            assert(sep.contains(separator(windows)));
        }
    }
}

proof fn lemma_joined_start(list: Seq<Seq<char>>)
    requires
        list.len() > 0,
    ensures
        joined(list, seq!['/']).len() >= list[0].len(),
        joined(list, seq!['/']).take(list[0].len() as int) == list[0],
        list.len() == 1 ==> joined(list, seq!['/']) == list[0],
        list.len() > 1 ==> joined(list, seq!['/']).len() > list[0].len() && joined(
            list,
            seq!['/'],
        )[list[0].len() as int] == '/',
    decreases list.len(),
{
    if list.len() == 1 {
        assert(list[0].take(list[0].len() as int) =~= list[0]);
    } else {
        let front = list.drop_last();
        lemma_joined_start(front);
        let whole = joined(list, seq!['/']);
        let head = joined(front, seq!['/']);
        assert(whole == head + seq!['/'] + list.last());
        assert(whole.take(list[0].len() as int) =~= head.take(list[0].len() as int));
    }
}

proof fn lemma_kept_hold_no_dot(pieces: Seq<Seq<char>>)
    ensures
        forall|i: int|
            0 <= i < kept_pieces(pieces, false).len() ==> #[trigger] kept_pieces(pieces, false)[i]
                != seq!['.'],
    decreases pieces.len(),
{
    if pieces.len() > 0 {
        lemma_kept_hold_no_dot(pieces.drop_last());
        let rest = kept_pieces(pieces.drop_last(), false);
        let all = kept_pieces(pieces, false);
        assert forall|i: int| 0 <= i < all.len() implies #[trigger] all[i] != seq!['.'] by {
            if i < rest.len() {
                assert(all[i] == rest[i]);
            }
        }
    }
}

/// A path that is spelled as its normal form is kept under that text.
pub proof fn normal_path_is_its_key(path: Seq<char>, windows: bool)
    requires
        normal_relative(path, windows) == Some(path),
    ensures
        path_key(path, windows) == path,
{
    lemma_components_plain(path, windows);
    let list = parts(path, windows);
    if is_verbatim(path, windows) {
        lemma_verbatim_has_prefix(path);
    }
    let body = body_of(path, windows);
    assert(body =~= unified(path, windows));
    let pieces = split(body, separator(windows));
    lemma_kept_hold_no_dot(pieces);
    if is_dotted(path, windows) {
        let e = find_char(body, separator(windows), 0);
        find_char_is_first(body, separator(windows), 0);
        assert(pieces[0] == body.subrange(0, e));
        assert(pieces[0].len() == e);
        assert(e == 1);
        assert(body[0] == pieces[0][0]);
        assert(path[0] == '.');
        assert(list.len() > 0) by {
            if list.len() == 0 {
                assert(joined(list, seq!['/']).len() == 0);
            }
        }
        lemma_joined_start(list);
        let first = list[0];
        assert(path.take(first.len() as int) == first);
        assert(first[0] == path[0]);
        if path.len() > 1 {
            assert(body[1] == separator(windows));
            assert(path[1] == '/' || path[1] == separator(windows));
            if first.len() > 1 {
                assert(first[1] == path[1]);
                assert(first.contains(first[1]));
            }
        }
        assert(first =~= seq!['.']);
        assert(kept_pieces(pieces, false)[0] != seq!['.']);
    }
    assert(components(path, windows) =~= list);
    if list.len() > 0 {
        let sep = seq![separator(windows)];
        assert(sep[0] == separator(windows));
        assert(sep.contains(separator(windows)));
        assert(list[0] != sep);
    }
}

/// A path is inside itself, and what is inside something inside a directory is inside the
/// directory; two paths inside each other are the same.
pub proof fn being_inside_is_an_order(a: Seq<char>, b: Seq<char>, c: Seq<char>, windows: bool)
    ensures
        is_within(a, a, windows),
        is_within(a, b, windows) && is_within(b, c, windows) ==> is_within(a, c, windows),
        is_within(a, b, windows) && is_within(b, a, windows) ==> components(a, windows) == components(
            b,
            windows,
        ),
        is_within(a, b, windows) <==> components(b, windows).len() <= components(a, windows).len()
            && forall|i: int|
            0 <= i < components(b, windows).len() ==> #[trigger] components(b, windows)[i]
                == components(a, windows)[i],
{
    let x = components(a, windows);
    let y = components(b, windows);
    let z = components(c, windows);
    assert(x.subrange(0, x.len() as int) =~= x);
    if y.is_prefix_of(x) && z.is_prefix_of(y) {
        assert(x.subrange(0, z.len() as int) =~= z) by {
            assert forall|i: int| 0 <= i < z.len() implies x[i] == z[i] by {
                assert(y.subrange(0, z.len() as int)[i] == y[i]);
                assert(x.subrange(0, y.len() as int)[i] == x[i]);
            }
        }
    }
    if y.is_prefix_of(x) && x.is_prefix_of(y) {
        assert(x.subrange(0, y.len() as int) =~= x);
    }
    if y.is_prefix_of(x) {
        assert forall|i: int| 0 <= i < y.len() implies #[trigger] y[i] == x[i] by {
            assert(x.subrange(0, y.len() as int)[i] == x[i]);
        }
    }
    if y.len() <= x.len() && forall|i: int| 0 <= i < y.len() ==> #[trigger] y[i] == x[i] {
        assert(x.subrange(0, y.len() as int) =~= y);
    }
}

/// A path relative to a directory exists only for what is inside the directory, without
/// any step to a parent below it.
pub proof fn relative_paths_stay_inside(root: Seq<char>, path: Seq<char>, windows: bool)
    ensures
        relative_to_root(root, path, windows) is Some ==> components(root, windows).is_prefix_of(
            components(path, windows),
        ),
        relative_to_root(root, path, windows) matches Some(relative) ==> (below(path, root, windows)
            matches Some(rest) && normal_relative(rest, windows) == Some(relative)),
        components(root, windows).len() > 0 ==> (below(path, root, windows) matches Some(rest) ==> rest
            == render(
            components(path, windows).skip(components(root, windows).len() as int),
            windows,
        )),
{
}

/// A path has a normal form exactly where it is relative and has no step to a parent.
pub proof fn relative_paths_without_parents_are_normal(path: Seq<char>, windows: bool)
    ensures
        normal_relative(path, windows) is Some <==> prefix_of(path, windows).len() == 0 && !has_root(
            path,
            windows,
        ) && forall|i: int|
            0 <= i < parts(path, windows).len() ==> #[trigger] parts(path, windows)[i] != seq!['.', '.'],
        normal_relative(path, windows) matches Some(normal) ==> normal == joined(
            parts(path, windows),
            seq!['/'],
        ),
{
    let list = parts(path, windows);
    if has_parent(list) {
        let i = choose|i: int| 0 <= i < list.len() && is_parent(#[trigger] list[i]);
        assert(list[i] == seq!['.', '.']);
    } else {
        assert forall|i: int| 0 <= i < list.len() implies #[trigger] list[i] != seq!['.', '.'] by {
            assert(!is_parent(list[i]));
        }
    }
}

/// Empty pieces of a path, and single dots unless they are kept, do not count; all other
/// pieces do, in their order.
pub proof fn empty_pieces_and_dots_do_not_count(
    pieces: Seq<Seq<char>>,
    piece: Seq<char>,
    keep_dots: bool,
)
    ensures
        kept_pieces(Seq::<Seq<char>>::empty(), keep_dots).len() == 0,
        kept_pieces(pieces.push(piece), keep_dots) == if piece.len() == 0 || (piece == seq!['.']
            && !keep_dots) {
            kept_pieces(pieces, keep_dots)
        } else {
            kept_pieces(pieces, keep_dots).push(piece)
        },
{
    assert(pieces.push(piece).drop_last() =~= pieces);
}

proof fn lemma_all_kept(list: Seq<Seq<char>>)
    requires
        forall|i: int| 0 <= i < list.len() ==> (#[trigger] list[i]).len() > 0 && list[i] != seq!['.'],
    ensures
        kept_pieces(list, false) == list,
    decreases list.len(),
{
    if list.len() > 0 {
        let front = list.drop_last();
        assert forall|i: int| 0 <= i < front.len() implies (#[trigger] front[i]).len() > 0 && front[i]
            != seq!['.'] by {
            assert(front[i] == list[i]);
        }
        lemma_all_kept(front);
        assert(list[list.len() - 1].len() > 0);
        assert(kept_pieces(list, false) =~= list);
    } else {
        assert(kept_pieces(list, false) =~= list);
    }
}

/// The normal form of a path has the same parts and is its own normal form, and the parts
/// are what stands between its slashes.
pub proof fn normal_forms_are_normal(path: Seq<char>)
    requires
        normal_relative(path, false) is Some,
    ensures
        ({
            let normal = normal_relative(path, false)->0;
            &&& parts(normal, false) == parts(path, false)
            &&& normal_relative(normal, false) == Some(normal)
            &&& parts(path, false).len() > 0 ==> split(normal, '/') == parts(path, false)
        }),
{
    let list = parts(path, false);
    let normal = joined(list, seq!['/']);
    lemma_components_plain(path, false);
    lemma_kept_hold_no_dot(split(body_of(path, false), '/'));
    assert(body_of(normal, false) =~= normal);
    if list.len() > 0 {
        joined_list_splits_back(list, '/');
        lemma_all_kept(list);
        lemma_joined_first(list);
        assert(list[0].contains(list[0][0]));
    } else {
        assert(normal =~= Seq::<char>::empty());
        assert(find_char(normal, '/', 0) == 0);
        assert(normal.subrange(0, 0) =~= Seq::<char>::empty());
        let one = split(normal, '/');
        assert(one =~= seq![Seq::<char>::empty()]);
        assert(one.drop_last() =~= Seq::<Seq<char>>::empty());
        assert(kept_pieces(one.drop_last(), false) =~= Seq::<Seq<char>>::empty());
        assert(parts(normal, false) =~= list);
    }
}

/// The name of a file is its last part, unless that is a step to a parent or a dot; its
/// extension is what stands behind the last dot of the name, unless that comes first.
pub proof fn extensions_stand_behind_the_last_dot(
    path: Seq<char>,
    stem: Seq<char>,
    ext: Seq<char>,
    windows: bool,
)
    ensures
        file_name_of(path, windows) matches Some(name) ==> parts(path, windows).len() > 0 && name
            == parts(path, windows).last() && name != seq!['.', '.'],
        file_name_of(path, windows) == Some(stem + seq!['.'] + ext) && stem.len() > 0 && !ext.contains(
            '.',
        ) ==> extension_of(path, windows) == Some(ext),
        file_name_of(path, windows) == Some(stem) && !stem.contains('.') ==> extension_of(path, windows)
            is None,
        file_name_of(path, windows) == Some(seq!['.'] + ext) && !ext.contains('.') ==> extension_of(
            path,
            windows,
        ) is None,
        file_name_of(path, windows) is None ==> extension_of(path, windows) is None,
{
    if !ext.contains('.') {
        lemma_dot_before(stem + seq!['.'], ext);
        lemma_dot_before(seq!['.'], ext);
        assert((stem + seq!['.']).last() == '.');
        assert((stem + seq!['.'] + ext).subrange(
            stem.len() + 1int,
            (stem + seq!['.'] + ext).len() as int,
        ) =~= ext);
    }
    if !stem.contains('.') {
        lemma_dot_before(Seq::empty(), stem);
        assert(Seq::<char>::empty() + stem =~= stem);
    }
}

proof fn lemma_dot_before(front: Seq<char>, ext: Seq<char>)
    requires
        !ext.contains('.'),
    ensures
        last_dot(front + ext) == last_dot(front),
    decreases ext.len(),
{
    if ext.len() == 0 {
        assert(front + ext =~= front);
    } else {
        let shorter = ext.drop_last();
        assert((front + ext).drop_last() =~= front + shorter);
        assert(ext[ext.len() - 1] != '.') by {
            if ext[ext.len() - 1] == '.' {
                assert(ext.contains('.'));
            }
        }
        assert(!shorter.contains('.')) by {
            if shorter.contains('.') {
                let k = choose|k: int| 0 <= k < shorter.len() && shorter[k] == '.';
                assert(ext[k] == '.');
            }
        }
        lemma_dot_before(front, shorter);
    }
}

/// A list of components is hidden where one of them starts with a dot.
pub proof fn one_hidden_component_hides(list: Seq<Seq<char>>, more: Seq<Seq<char>>, component: Seq<char>)
    ensures
        !has_hidden(Seq::<Seq<char>>::empty()),
        has_hidden(seq![component]) <==> component.len() > 0 && component[0] == '.',
        has_hidden(list + more) <==> has_hidden(list) || has_hidden(more),
{
    let both = list + more;
    let one = seq![component];
    assert(one[0] == component);
    if has_hidden(list) {
        let i = choose|i: int|
            0 <= i < list.len() && (#[trigger] list[i]).len() > 0 && list[i][0] == '.';
        assert(both[i] == list[i]);
    }
    if has_hidden(more) {
        let i = choose|i: int|
            0 <= i < more.len() && (#[trigger] more[i]).len() > 0 && more[i][0] == '.';
        assert(both[list.len() + i] == more[i]);
    }
    if has_hidden(both) {
        let i = choose|i: int|
            0 <= i < both.len() && (#[trigger] both[i]).len() > 0 && both[i][0] == '.';
        if i < list.len() {
            assert(list[i] == both[i]);
        } else {
            assert(more[i - list.len()] == both[i]);
        }
    }
}

/// Where slashes separate, a relative path is joined behind one slash, and an absolute
/// path replaces what it is joined to.
pub proof fn joining_puts_one_slash_between(base: Seq<char>, rest: Seq<char>)
    ensures
        rest.len() > 0 && rest[0] == '/' ==> joined_path(base, rest, false) == rest,
        base.len() == 0 ==> joined_path(base, rest, false) == rest,
        base.len() > 0 && base.last() == '/' && (rest.len() == 0 || rest[0] != '/') ==> joined_path(
            base,
            rest,
            false,
        ) == base + rest,
        base.len() > 0 && base.last() != '/' && (rest.len() == 0 || rest[0] != '/') ==> joined_path(
            base,
            rest,
            false,
        ) == base + seq!['/'] + rest,
        is_absolute(rest, false) <==> rest.len() > 0 && rest[0] == '/',
{
    assert(body_of(rest, false) =~= rest);
    assert(Seq::<char>::empty() + rest =~= rest);
    assert(base.push('/') =~= base + seq!['/']);
}

/// On Windows a path with a drive is absolute exactly where a slash of either kind
/// follows the drive, and drives are told without regard to case.
pub proof fn drives_on_windows(letter: char, rest: Seq<char>)
    requires
        'a' <= ascii_lower(letter) <= 'z',
    ensures
        prefix_of(seq![letter, ':'] + rest, true) == seq![letter, ':'],
        is_absolute(seq![letter, ':'] + rest, true) <==> rest.len() > 0 && (rest[0] == '\\' || rest[0]
            == '/'),
        prefix_key(seq![letter, ':']) == seq![ascii_lower(letter), ':'],
{
    let path = seq![letter, ':'] + rest;
    assert(path[0] == letter && path[1] == ':');
    assert(letter != '/' && letter != '\\');
    assert(!is_verbatim(path, true));
    let text = unified(path, true);
    assert(text[0] == letter && text[1] == ':');
    assert(is_drive(text, 0));
    assert(text.take(2) =~= seq![letter, ':']);
    let body = body_of(path, true);
    if rest.len() > 0 {
        assert(body[0] == turned(path[2]));
        assert(path[2] == rest[0]);
    }
    let drive = seq![letter, ':'];
    assert(is_drive(drive, 0));
    assert(drive.map_values(|c: char| ascii_lower(c)) =~= seq![ascii_lower(letter), ':']);
}

/// A path that starts with neither a slash nor a drive is relative on every system.
pub proof fn paths_without_slash_or_drive_are_relative(path: Seq<char>, windows: bool)
    requires
        path.len() > 0 ==> path[0] != '/' && path[0] != '\\',
        path.len() > 1 ==> path[1] != ':',
    ensures
        prefix_of(path, windows).len() == 0,
        !has_root(path, windows),
        !is_absolute(path, windows),
        path.len() > 0 ==> !is_verbatim(path, windows),
{
    let text = unified(path, windows);
    if windows {
        assert(!is_verbatim(path, windows));
        if path.len() > 0 {
            assert(text[0] == turned(path[0]));
        }
        if path.len() > 1 {
            assert(text[1] == turned(path[1]));
        }
        assert(!is_drive(text, 0));
        assert(prefix_end(text, false) == 0);
        assert(text.take(0) =~= Seq::empty());
    }
    assert(body_of(path, windows) =~= text);
}

/// A verbatim path is one of Windows that starts with its mark, and it is taken as it is
/// written.
pub proof fn verbatim_paths_bear_their_mark(path: Seq<char>)
    ensures
        is_verbatim(path, true) <==> path.len() >= 4 && path.take(4) == seq!['\\', '\\', '?', '\\'],
        !is_verbatim(path, false),
        is_verbatim(path, true) ==> unified(path, true) == path,
        unified(path, false) == path,
{
    let mark = seq!['\\', '\\', '?', '\\'];
    if path.len() >= 4 {
        let head = path.take(4);
        assert(head[0] == path[0] && head[1] == path[1] && head[2] == path[2] && head[3] == path[3]);
        assert(mark[0] == '\\' && mark[1] == '\\' && mark[2] == '?' && mark[3] == '\\');
        if is_verbatim(path, true) {
            assert(head =~= mark);
        }
    }
}

/// Where slashes separate, a path starts at the current directory exactly where its first
/// piece is a dot.
pub proof fn dotted_paths_start_with_a_dot(path: Seq<char>)
    ensures
        is_dotted(path, false) <==> path.len() > 0 && path[0] == '.' && (path.len() == 1 || path[1] == '/'),
{
    assert(body_of(path, false) =~= path);
    let e = find_char(path, '/', 0);
    find_char_is_first(path, '/', 0);
    let first = split(path, '/')[0];
    assert(first == path.subrange(0, e));
    let dot = seq!['.'];
    if first == dot {
        assert(first.len() == 1);
        assert(first[0] == path[0]);
    }
    if path.len() > 0 && path[0] == '.' && (path.len() == 1 || path[1] == '/') {
        if e > 1 {
            assert(path[1] != '/');
        }
        assert(first =~= dot);
    }
}

/// A directory comes before all that is inside it.
pub proof fn directories_come_before_their_contents(
    dir: Seq<char>,
    path: Seq<char>,
    windows: bool,
)
    requires
        is_within(path, dir, windows),
        components(path, windows) != components(dir, windows),
    ensures
        path_before(dir, path, windows),
{
    lemma_prefix_before(components(dir, windows), components(path, windows), windows);
}

proof fn lemma_prefix_before(left: Seq<Seq<char>>, right: Seq<Seq<char>>, windows: bool)
    requires
        left.is_prefix_of(right),
        left != right,
    ensures
        list_before(left, right, windows),
    decreases left.len(),
{
    if left.len() > 0 {
        assert(right.subrange(0, left.len() as int)[0] == right[0]);
        let a = left.drop_first();
        let b = right.drop_first();
        assert(a =~= b.subrange(0, a.len() as int)) by {
            assert forall|i: int| 0 <= i < a.len() implies a[i] == b[i] by {
                assert(right.subrange(0, left.len() as int)[i + 1] == right[i + 1]);
            }
        }
        if a == b {
            assert(left =~= seq![left[0]] + a);
            assert(right =~= seq![right[0]] + b);
        }
        lemma_prefix_before(a, b, windows);
    } else {
        assert(right.len() > 0) by {
            if right.len() == 0 {
                assert(left =~= right);
            }
        }
    }
}

/// The last part of a path is its file name unless it is a dot or a step to a parent.
pub proof fn last_parts_are_file_names(path: Seq<char>, windows: bool)
    ensures
        file_name_of(path, windows) is Some <==> parts(path, windows).len() > 0 && parts(
            path,
            windows,
        ).last() != seq!['.'] && parts(path, windows).last() != seq!['.', '.'],
        file_name_of(path, windows) is Some ==> file_name_of(path, windows) == Some(
            parts(path, windows).last(),
        ),
{
}

/// Components are written with separators between them and none behind a leading one.
pub proof fn components_are_written_with_separators(list: Seq<Seq<char>>, windows: bool)
    ensures
        render(seq![seq![separator(windows)]] + list, windows) == seq![separator(windows)] + joined(
            list,
            seq![separator(windows)],
        ),
        list.len() == 0 || list[0] != seq![separator(windows)] ==> render(list, windows) == joined(
            list,
            seq![separator(windows)],
        ),
{
    let sep = seq![separator(windows)];
    let rooted = seq![sep] + list;
    assert(rooted[0] == sep);
    assert(rooted.subrange(1, rooted.len() as int) =~= list);
}

} // verus!
