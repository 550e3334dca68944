//! Character-level text operations: searching, splitting, trimming, joining,
//! comparing and reading numbers.
//!
//! A text is modelled by its sequence of characters. Positions in the
//! specifications are character positions.

use vstd::prelude::*;
use vstd::std_specs::iter::IteratorSpec;

verus! {

/// `String::push` appends one character to the end of the text.
pub assume_specification[ String::push ](s: &mut String, c: char)
    ensures
        final(s)@ == old(s)@.push(c),
;

/// The characters of each text of a list.
pub open spec fn texts(list: Seq<String>) -> Seq<Seq<char>> {
    list.map_values(|s: String| s@)
}

/// The text that `String::from_utf8_lossy` gives for bytes.
pub uninterp spec fn lossy(bytes: Seq<u8>) -> Seq<char>;

/// `String::from_utf8_lossy`: a text for any bytes. Bytes that are valid UTF-8
/// give the text that they encode. Which replacement characters stand for other
/// bytes is not said here.
#[verifier::external_body]
pub(crate) fn lossy_text(bytes: &[u8]) -> (text: String)
    ensures
        text@ == lossy(bytes@),
        vstd::utf8::valid_utf8(bytes@) ==> text@ == vstd::utf8::decode_utf8(bytes@),
{
    String::from_utf8_lossy(bytes).into_owned()
}

/// The text of what a program wrote: the text that valid UTF-8 encodes, and the
/// closest text for other bytes.
pub open spec fn text_of(bytes: Seq<u8>) -> Seq<char> {
    if vstd::utf8::valid_utf8(bytes) {
        vstd::utf8::decode_utf8(bytes)
    } else {
        lossy(bytes)
    }
}

/// The characters of an optional text.
pub open spec fn opt_text(text: Option<String>) -> Option<Seq<char>> {
    match text {
        Some(s) => Some(s@),
        None => None,
    }
}

/// The characters of an optional borrowed text.
pub open spec fn opt_str(text: Option<&str>) -> Option<Seq<char>> {
    match text {
        Some(s) => Some(s@),
        None => None,
    }
}

/// Whether `c` has the Unicode `White_Space` property.
pub open spec fn is_space(c: char) -> bool {
    let n = c as u32;
    ||| 0x9 <= n <= 0xd
    ||| n == 0x20
    ||| n == 0x85
    ||| n == 0xa0
    ||| n == 0x1680
    ||| 0x2000 <= n <= 0x200a
    ||| n == 0x2028
    ||| n == 0x2029
    ||| n == 0x202f
    ||| n == 0x205f
    ||| n == 0x3000
}

/// The first position at or after `i` that holds no white space.
pub open spec fn skip_spaces(s: Seq<char>, i: int) -> int
    decreases s.len() - i,
{
    if 0 <= i < s.len() && is_space(s[i]) {
        skip_spaces(s, i + 1)
    } else {
        i
    }
}

/// The first position at or after `i` that holds white space, or the end.
pub open spec fn skip_word(s: Seq<char>, i: int) -> int
    decreases s.len() - i,
{
    if 0 <= i < s.len() && !is_space(s[i]) {
        skip_word(s, i + 1)
    } else {
        i
    }
}

/// The end of `s[lo..hi]` without its trailing white space.
pub open spec fn back_over_spaces(s: Seq<char>, lo: int, hi: int) -> int
    decreases hi - lo,
{
    if 0 <= lo < hi <= s.len() && is_space(s[hi - 1]) {
        back_over_spaces(s, lo, hi - 1)
    } else {
        hi
    }
}

/// `s` without leading and trailing white space.
pub open spec fn trimmed(s: Seq<char>) -> Seq<char> {
    let lo = skip_spaces(s, 0);
    s.subrange(lo, back_over_spaces(s, lo, s.len() as int))
}

/// The words of `s` that start at or after position `i`.
pub open spec fn words_from(s: Seq<char>, i: int) -> Seq<Seq<char>>
    decreases s.len() - i,
{
    let a = skip_spaces(s, i);
    let b = skip_word(s, a);
    if i < 0 || a >= s.len() || b <= i || b > s.len() {
        Seq::empty()
    } else {
        seq![s.subrange(a, b)] + words_from(s, b)
    }
}

/// The maximal runs of `s` without white space, in order.
pub open spec fn words(s: Seq<char>) -> Seq<Seq<char>> {
    words_from(s, 0)
}

/// The first position at or after `i` that holds `c`, or the end.
pub open spec fn find_char(s: Seq<char>, c: char, i: int) -> int
    decreases s.len() - i,
{
    if 0 <= i < s.len() && s[i] != c {
        find_char(s, c, i + 1)
    } else {
        i
    }
}

/// The pieces of `s[i..]` between occurrences of `sep`.
pub open spec fn split_from(s: Seq<char>, sep: char, i: int) -> Seq<Seq<char>>
    decreases s.len() - i,
{
    let e = find_char(s, sep, i);
    if i < 0 || e >= s.len() || e < i {
        seq![s.subrange(i, s.len() as int)]
    } else {
        seq![s.subrange(i, e)] + split_from(s, sep, e + 1)
    }
}

/// The pieces of `s` between occurrences of `sep`.
pub open spec fn split(s: Seq<char>, sep: char) -> Seq<Seq<char>> {
    split_from(s, sep, 0)
}

/// The lines of `s[i..]`: each ends at a line feed, which is dropped together
/// with a carriage return right before it; text after the last line feed is a
/// line of its own unless it is empty.
pub open spec fn lines_from(s: Seq<char>, i: int) -> Seq<Seq<char>>
    decreases s.len() - i,
{
    let e = find_char(s, '\n', i);
    if i < 0 || i >= s.len() || e < i {
        Seq::empty()
    } else if e >= s.len() {
        seq![s.subrange(i, s.len() as int)]
    } else if e > i && s[e - 1] == '\r' {
        seq![s.subrange(i, e - 1)] + lines_from(s, e + 1)
    } else {
        seq![s.subrange(i, e)] + lines_from(s, e + 1)
    }
}

/// The lines of `s`.
pub open spec fn lines(s: Seq<char>) -> Seq<Seq<char>> {
    lines_from(s, 0)
}

/// Whether `pattern` occurs in `s` at position `i`.
pub open spec fn occurs_at(s: Seq<char>, pattern: Seq<char>, i: int) -> bool {
    &&& 0 <= i
    &&& i + pattern.len() <= s.len()
    &&& s.subrange(i, i + pattern.len()) == pattern
}

/// Whether `pattern` occurs anywhere in `s`.
pub open spec fn contains_text(s: Seq<char>, pattern: Seq<char>) -> bool {
    exists|i: int| occurs_at(s, pattern, i)
}

/// Whether `i` is the first position at or after `from` where `pattern` occurs.
pub open spec fn is_first_at(s: Seq<char>, pattern: Seq<char>, from: int, i: int) -> bool {
    &&& from <= i
    &&& occurs_at(s, pattern, i)
    &&& forall|j: int| from <= j < i ==> !occurs_at(s, pattern, j)
}

/// Whether `i` is the last position where `pattern` occurs.
pub open spec fn is_last_at(s: Seq<char>, pattern: Seq<char>, i: int) -> bool {
    &&& occurs_at(s, pattern, i)
    &&& forall|j: int| i < j ==> !occurs_at(s, pattern, j)
}

/// The first position where `pattern` occurs in `s`.
pub open spec fn first_at(s: Seq<char>, pattern: Seq<char>) -> Option<int> {
    if contains_text(s, pattern) {
        Some(choose|i: int| is_first_at(s, pattern, 0, i))
    } else {
        None
    }
}

/// The last position where `pattern` occurs in `s`.
pub open spec fn last_at(s: Seq<char>, pattern: Seq<char>) -> Option<int> {
    if contains_text(s, pattern) {
        Some(choose|i: int| is_last_at(s, pattern, i))
    } else {
        None
    }
}

/// What stands before and after the first occurrence of `sep` in `s`.
pub open spec fn split_first(s: Seq<char>, sep: Seq<char>) -> Option<(Seq<char>, Seq<char>)> {
    match first_at(s, sep) {
        Some(i) => Some((s.take(i), s.skip(i + sep.len()))),
        None => None,
    }
}

/// What stands after the last occurrence of `sep` in `s`.
pub open spec fn after_last(s: Seq<char>, sep: Seq<char>) -> Option<Seq<char>> {
    match last_at(s, sep) {
        Some(i) => Some(s.skip(i + sep.len())),
        None => None,
    }
}

/// `list` with `sep` between consecutive texts.
pub open spec fn joined(list: Seq<Seq<char>>, sep: Seq<char>) -> Seq<char>
    decreases list.len(),
{
    if list.len() == 0 {
        Seq::empty()
    } else if list.len() == 1 {
        list[0]
    } else {
        joined(list.drop_last(), sep) + sep + list.last()
    }
}

/// `c` with the ASCII capital letters mapped to small ones.
pub open spec fn ascii_lower(c: char) -> char {
    if 'A' <= c <= 'Z' {
        ((c as u32) + 32) as char
    } else {
        c
    }
}

/// Equality of texts up to the case of ASCII letters.
pub open spec fn same_ignoring_case(left: Seq<char>, right: Seq<char>) -> bool {
    &&& left.len() == right.len()
    &&& forall|i: int|
        0 <= i < left.len() ==> #[trigger] ascii_lower(left[i]) == ascii_lower(right[i])
}

/// The characters of `s`, in order.
pub fn chars_of(s: &str) -> (chars: Vec<char>)
    ensures
        chars@ == s@,
{
    let mut chars: Vec<char> = Vec::new();
    for c in iter: s.chars()
        invariant
            iter.seq() == s@,
            chars@ == s@.take(iter.index() as int),
    {
        chars.push(c);
    }
    chars
}

/// The text made of `chars[from..to]`.
pub fn slice_text(chars: &Vec<char>, from: usize, to: usize) -> (s: String)
    requires
        from <= to <= chars@.len(),
    ensures
        s@ == chars@.subrange(from as int, to as int),
{
    let mut s = String::new();
    let mut i: usize = from;
    while i < to
        invariant
            from <= i <= to <= chars@.len(),
            s@ == chars@.subrange(from as int, i as int),
        decreases to - i,
    {
        s.push(chars[i]);
        i += 1;
        assert(s@ =~= chars@.subrange(from as int, i as int));
    }
    s
}

/// Whether `left` and `right` hold the same characters.
pub fn same(left: &str, right: &str) -> (equal: bool)
    ensures
        equal == (left@ == right@),
{
    broadcast use vstd::string::next_postcondition;

    let mut a = left.chars();
    let mut b = right.chars();
    loop
        invariant
            (left@ == right@) == (a.remaining() == b.remaining()),
            a.decrease() is Some,
        decreases a.decrease()->0,
    {
        let ghost rest_a = a.remaining();
        let ghost rest_b = b.remaining();
        let c = a.next();
        let d = b.next();
        match (c, d) {
            (None, None) => {
                assert(rest_a =~= rest_b);
                return true;
            },
            (Some(c), Some(d)) => {
                if c != d {
                    return false;
                }
                proof {
                    assert(rest_a =~= seq![c] + rest_a.drop_first());
                    assert(rest_b =~= seq![d] + rest_b.drop_first());
                }
            },
            _ => return false,
        }
    }
}

/// Whether `c` has the Unicode `White_Space` property.
pub fn is_space_char(c: char) -> (space: bool)
    ensures
        space == is_space(c),
{
    let n: u32 = c as u32;
    (0x9 <= n && n <= 0xd) || n == 0x20 || n == 0x85 || n == 0xa0 || n == 0x1680 || (0x2000 <= n
        && n <= 0x200a) || n == 0x2028 || n == 0x2029 || n == 0x202f || n == 0x205f || n == 0x3000
}

proof fn lemma_skip_spaces(s: Seq<char>, i: int)
    requires
        0 <= i <= s.len(),
    ensures
        i <= skip_spaces(s, i) <= s.len(),
        forall|k: int| i <= k < skip_spaces(s, i) ==> is_space(#[trigger] s[k]),
        skip_spaces(s, i) < s.len() ==> !is_space(s[skip_spaces(s, i)]),
    decreases s.len() - i,
{
    if i < s.len() && is_space(s[i]) {
        lemma_skip_spaces(s, i + 1);
    }
}

proof fn lemma_skip_word(s: Seq<char>, i: int)
    requires
        0 <= i <= s.len(),
    ensures
        i <= skip_word(s, i) <= s.len(),
        i < s.len() && !is_space(s[i]) ==> i < skip_word(s, i),
        forall|k: int| i <= k < skip_word(s, i) ==> !is_space(#[trigger] s[k]),
        skip_word(s, i) < s.len() ==> is_space(s[skip_word(s, i)]),
    decreases s.len() - i,
{
    if i < s.len() && !is_space(s[i]) {
        lemma_skip_word(s, i + 1);
    }
}

proof fn lemma_skip_shifted(a: Seq<char>, b: Seq<char>, n: int)
    requires
        0 <= n <= b.len(),
    ensures
        skip_spaces(a + b, a.len() + n) == a.len() + skip_spaces(b, n),
        skip_word(a + b, a.len() + n) == a.len() + skip_word(b, n),
    decreases b.len() - n,
{
    if n < b.len() {
        assert((a + b)[a.len() + n] == b[n]);
        lemma_skip_shifted(a, b, n + 1);
    }
}

proof fn lemma_words_shifted(a: Seq<char>, b: Seq<char>, n: int)
    requires
        0 <= n <= b.len(),
    ensures
        words_from(a + b, a.len() + n) == words_from(b, n),
    decreases b.len() - n,
{
    let x = skip_spaces(b, n);
    lemma_skip_spaces(b, n);
    lemma_skip_shifted(a, b, n);
    if x < b.len() {
        lemma_skip_word(b, x);
        lemma_skip_shifted(a, b, x);
        let y = skip_word(b, x);
        lemma_words_shifted(a, b, y);
        assert((a + b).subrange(a.len() + x, a.len() + y) =~= b.subrange(x, y));
    }
}

proof fn lemma_skip_before(a: Seq<char>, rest: Seq<char>, i: int)
    requires
        0 <= i <= a.len(),
        rest.len() > 0,
        is_space(rest[0]),
    ensures
        skip_word(a + rest, i) == skip_word(a, i),
        skip_spaces(a, i) < a.len() ==> skip_spaces(a + rest, i) == skip_spaces(a, i),
        skip_spaces(a, i) == a.len() ==> skip_spaces(a + rest, i) == a.len() + skip_spaces(rest, 0),
    decreases a.len() - i,
{
    lemma_skip_spaces(a, i);
    if i < a.len() {
        assert((a + rest)[i] == a[i]);
        lemma_skip_before(a, rest, i + 1);
    } else {
        assert((a + rest)[i] == rest[0]);
        lemma_skip_shifted(a, rest, 0);
    }
}

proof fn lemma_words_split(a: Seq<char>, c: char, b: Seq<char>, i: int)
    requires
        0 <= i <= a.len(),
        is_space(c),
    ensures
        words_from(a + seq![c] + b, i) == words_from(a, i) + words(b),
    decreases a.len() - i,
{
    let rest = seq![c] + b;
    let whole = a + seq![c] + b;
    assert(whole =~= a + rest);
    let x = skip_spaces(a, i);
    lemma_skip_spaces(a, i);
    lemma_skip_before(a, rest, i);
    if x < a.len() {
        let y = skip_word(a, x);
        lemma_skip_word(a, x);
        lemma_skip_before(a, rest, x);
        lemma_words_split(a, c, b, y);
        assert(whole.subrange(x, y) =~= a.subrange(x, y));
        assert(words_from(whole, i) =~= words_from(a, i) + words(b));
    } else {
        assert(words_from(a, i) =~= Seq::empty());
        assert(rest[0] == c);
        lemma_skip_shifted(seq![c], b, 0);
        lemma_skip_spaces(b, 0);
        let y = skip_spaces(b, 0);
        assert(skip_spaces(rest, 0) == skip_spaces(rest, 1));
        assert(skip_spaces(whole, i) == a.len() + 1 + y);
        assert(a + seq![c] + b =~= (a + seq![c]) + b);
        if y < b.len() {
            let e = skip_word(b, y);
            lemma_skip_word(b, y);
            lemma_skip_shifted(a + seq![c], b, y);
            lemma_words_shifted(a + seq![c], b, e);
            assert(whole.subrange(a.len() + 1 + y, a.len() + 1 + e) =~= b.subrange(y, e));
        }
        assert(words_from(whole, i) =~= words(b));
    }
}

/// White space separates words: a text without any has no words, a text without
/// white space is one word, and the words on both sides of a white space are those of
/// the two sides.
pub proof fn words_are_separated_by_spaces(a: Seq<char>, c: char, b: Seq<char>)
    requires
        is_space(c),
    ensures
        words(Seq::<char>::empty()).len() == 0,
        a.len() > 0 && (forall|k: int| 0 <= k < a.len() ==> !is_space(#[trigger] a[k])) ==> words(a)
            == seq![a],
        words(a + seq![c] + b) == words(a) + words(b),
{
    lemma_words_split(a, c, b, 0);
    if a.len() > 0 && (forall|k: int| 0 <= k < a.len() ==> !is_space(#[trigger] a[k])) {
        lemma_skip_spaces(a, 0);
        lemma_skip_word(a, 0);
        if skip_word(a, 0) < a.len() {
            assert(is_space(a[skip_word(a, 0)]));
        }
        assert(a.subrange(0, a.len() as int) =~= a);
        assert(words_from(a, a.len() as int) =~= Seq::empty());
        assert(words(a) =~= seq![a]);
    }
}

/// A word is not empty and holds no white space.
pub proof fn words_hold_no_space(s: Seq<char>, from: int)
    requires
        0 <= from <= s.len(),
    ensures
        forall|i: int| 0 <= i < words_from(s, from).len() ==> (#[trigger] words_from(s, from)[i]).len() > 0,
        forall|i: int, k: int|
            0 <= i < words_from(s, from).len() && 0 <= k < words_from(s, from)[i].len() ==> !is_space(
                #[trigger] words_from(s, from)[i][k],
            ),
    decreases s.len() - from,
{
    let x = skip_spaces(s, from);
    lemma_skip_spaces(s, from);
    if x < s.len() {
        let y = skip_word(s, x);
        lemma_skip_word(s, x);
        words_hold_no_space(s, y);
        let list = words_from(s, from);
        let rest = words_from(s, y);
        assert forall|i: int| 0 <= i < list.len() implies (#[trigger] list[i]).len() > 0 by {
            if i > 0 {
                assert(list[i] == rest[i - 1]);
            }
        }
        assert forall|i: int, k: int| 0 <= i < list.len() && 0 <= k < list[i].len() implies !is_space(
            #[trigger] list[i][k],
        ) by {
            if i > 0 {
                assert(list[i] == rest[i - 1]);
                assert(!is_space(rest[i - 1][k]));
            } else {
                assert(list[0][k] == s[x + k]);
            }
        }
    }
}

/// The words of words that are joined by single spaces are those words.
pub proof fn joined_words_split_back(list: Seq<Seq<char>>)
    requires
        forall|i: int| 0 <= i < list.len() ==> (#[trigger] list[i]).len() > 0,
        forall|i: int, k: int|
            0 <= i < list.len() && 0 <= k < list[i].len() ==> !is_space(#[trigger] list[i][k]),
    ensures
        words(joined(list, " "@)) == list,
    decreases list.len(),
{
    reveal_strlit(" ");
    assert(" "@ =~= seq![' ']);
    if list.len() == 0 {
        words_are_separated_by_spaces(Seq::empty(), ' ', Seq::empty());
        assert(words(joined(list, " "@)) =~= list);
    } else {
        let last = list.last();
        assert forall|k: int| 0 <= k < last.len() implies !is_space(#[trigger] last[k]) by {
            assert(last[k] == list[list.len() - 1][k]);
        }
        words_are_separated_by_spaces(last, ' ', Seq::empty());
        if list.len() == 1 {
            assert(list =~= seq![last]);
        } else {
            let front = list.drop_last();
            assert forall|i: int, k: int|
                0 <= i < front.len() && 0 <= k < front[i].len() implies !is_space(
                #[trigger] front[i][k],
            ) by {
                assert(front[i][k] == list[i][k]);
            }
            joined_words_split_back(front);
            words_are_separated_by_spaces(joined(front, " "@), ' ', last);
            assert(front + seq![last] =~= list);
        }
    }
}

/// A search finds the first occurrence at or after its start, or the end.
pub proof fn find_char_is_first(s: Seq<char>, c: char, i: int)
    requires
        0 <= i <= s.len(),
    ensures
        i <= find_char(s, c, i) <= s.len(),
        find_char(s, c, i) < s.len() ==> s[find_char(s, c, i)] == c,
        forall|k: int| i <= k < find_char(s, c, i) ==> s[k] != c,
    decreases s.len() - i,
{
    if i < s.len() && s[i] != c {
        find_char_is_first(s, c, i + 1);
    }
}

proof fn lemma_back_over_spaces(s: Seq<char>, lo: int, hi: int)
    requires
        0 <= lo <= hi <= s.len(),
    ensures
        lo <= back_over_spaces(s, lo, hi) <= hi,
        back_over_spaces(s, lo, hi) > lo ==> !is_space(s[back_over_spaces(s, lo, hi) - 1]),
    decreases hi - lo,
{
    if lo < hi && is_space(s[hi - 1]) {
        lemma_back_over_spaces(s, lo, hi - 1);
    }
}

/// Trimming a trimmed text changes nothing, and trimming adds no characters.
pub proof fn trimming_is_idempotent(s: Seq<char>)
    ensures
        trimmed(trimmed(s)) == trimmed(s),
        forall|c: char| trimmed(s).contains(c) ==> #[trigger] s.contains(c),
{
    lemma_skip_spaces(s, 0);
    let lo = skip_spaces(s, 0);
    lemma_back_over_spaces(s, lo, s.len() as int);
    let hi = back_over_spaces(s, lo, s.len() as int);
    let t = trimmed(s);
    assert(t == s.subrange(lo, hi));
    if t.len() > 0 {
        assert(t[0] == s[lo]);
        assert(t.last() == s[hi - 1]);
        assert(skip_spaces(t, 0) == 0);
        assert(back_over_spaces(t, 0, t.len() as int) == t.len());
    }
    assert(trimmed(t) =~= t);
    assert forall|c: char| t.contains(c) implies #[trigger] s.contains(c) by {
        let k = choose|k: int| 0 <= k < t.len() && t[k] == c;
        assert(s[lo + k] == c);
    }
}

/// Trimming takes off the white space at both ends and nothing else.
pub proof fn trimming_takes_off_the_ends(s: Seq<char>) -> (ends: (int, int))
    ensures
        0 <= ends.0 <= ends.1 <= s.len(),
        trimmed(s) == s.subrange(ends.0, ends.1),
        forall|k: int| 0 <= k < ends.0 ==> is_space(#[trigger] s[k]),
        forall|k: int| ends.1 <= k < s.len() ==> is_space(#[trigger] s[k]),
        trimmed(s).len() > 0 ==> !is_space(trimmed(s)[0]) && !is_space(trimmed(s).last()),
{
    lemma_skip_spaces(s, 0);
    let lo = skip_spaces(s, 0);
    lemma_back_over_spaces(s, lo, s.len() as int);
    lemma_behind_is_space(s, lo, s.len() as int);
    let hi = back_over_spaces(s, lo, s.len() as int);
    if trimmed(s).len() > 0 {
        assert(trimmed(s)[0] == s[lo]);
        assert(trimmed(s).last() == s[hi - 1]);
    }
    (lo, hi)
}

proof fn lemma_behind_is_space(s: Seq<char>, lo: int, hi: int)
    requires
        0 <= lo <= hi <= s.len(),
    ensures
        forall|k: int| back_over_spaces(s, lo, hi) <= k < hi ==> is_space(#[trigger] s[k]),
    decreases hi - lo,
{
    if lo < hi && is_space(s[hi - 1]) {
        lemma_behind_is_space(s, lo, hi - 1);
    }
}

/// Case is ignored letter by letter, for the letters of ASCII only; texts that are the
/// same but for case are so both ways and through a third.
pub proof fn ignoring_case_is_an_equivalence(a: Seq<char>, b: Seq<char>, c: Seq<char>)
    ensures
        same_ignoring_case(a, a),
        same_ignoring_case(a, b) ==> same_ignoring_case(b, a) && a.len() == b.len(),
        same_ignoring_case(a, b) && same_ignoring_case(b, c) ==> same_ignoring_case(a, c),
        same_ignoring_case(a, b) <==> a.len() == b.len() && forall|i: int|
            0 <= i < a.len() ==> #[trigger] a[i] == b[i] || ('A' <= a[i] <= 'Z' && b[i] as u32 == a[i]
                as u32 + 32) || ('A' <= b[i] <= 'Z' && a[i] as u32 == b[i] as u32 + 32),
{
    assert forall|x: char, y: char| #[trigger] ascii_lower(x) == #[trigger] ascii_lower(y) <==> x == y
        || ('A' <= x <= 'Z' && y as u32 == x as u32 + 32) || ('A' <= y <= 'Z' && x as u32 == y as u32
        + 32) by {}
    if same_ignoring_case(a, b) {
        assert forall|i: int| 0 <= i < a.len() implies #[trigger] a[i] == b[i] || ('A' <= a[i] <= 'Z'
            && b[i] as u32 == a[i] as u32 + 32) || ('A' <= b[i] <= 'Z' && a[i] as u32 == b[i] as u32
            + 32) by {
            assert(ascii_lower(a[i]) == ascii_lower(b[i]));
        }
        assert forall|i: int| 0 <= i < b.len() implies #[trigger] ascii_lower(b[i]) == ascii_lower(
            a[i],
        ) by {
            assert(ascii_lower(a[i]) == ascii_lower(b[i]));
        }
        if same_ignoring_case(b, c) {
            assert forall|i: int| 0 <= i < a.len() implies #[trigger] ascii_lower(a[i])
                == ascii_lower(c[i]) by {
                assert(ascii_lower(b[i]) == ascii_lower(c[i]));
            }
        }
    }
}

/// Texts are joined one after the other, with the separator before all but the first.
pub proof fn joining_goes_text_by_text(list: Seq<Seq<char>>, text: Seq<char>, sep: Seq<char>)
    ensures
        joined(Seq::<Seq<char>>::empty(), sep).len() == 0,
        joined(seq![text], sep) == text,
        list.len() > 0 ==> joined(list.push(text), sep) == joined(list, sep) + sep + text,
{
    assert(list.push(text).drop_last() =~= list);
}

/// A text is taken off an end as often as it stands there and not more.
pub proof fn only_the_ends_are_taken_off(s: Seq<char>, c: char)
    ensures
        without_trailing(s.push(c), c) == without_trailing(s, c),
        s.len() == 0 || s.last() != c ==> without_trailing(s, c) == s,
        without_leading(seq![c] + s, c) == without_leading(s, c),
        s.len() == 0 || s[0] != c ==> without_leading(s, c) == s,
{
    assert(s.push(c).drop_last() =~= s);
    assert((seq![c] + s).drop_first() =~= s);
}

/// White space is the blank, the controls from tab to carriage return, and the spaces and
/// separators of Unicode.
pub proof fn white_space_is_listed(c: char)
    ensures
        is_space(c) <==> seq![
            0x9u32, 0xau32, 0xbu32, 0xcu32, 0xdu32, 0x20u32, 0x85u32, 0xa0u32, 0x1680u32, 0x2000u32,
            0x2001u32, 0x2002u32, 0x2003u32, 0x2004u32, 0x2005u32, 0x2006u32, 0x2007u32, 0x2008u32,
            0x2009u32, 0x200au32, 0x2028u32, 0x2029u32, 0x202fu32, 0x205fu32, 0x3000u32,
        ].contains(c as u32),
{
    let all = seq![
        0x9u32, 0xau32, 0xbu32, 0xcu32, 0xdu32, 0x20u32, 0x85u32, 0xa0u32, 0x1680u32, 0x2000u32,
        0x2001u32, 0x2002u32, 0x2003u32, 0x2004u32, 0x2005u32, 0x2006u32, 0x2007u32, 0x2008u32,
        0x2009u32, 0x200au32, 0x2028u32, 0x2029u32, 0x202fu32, 0x205fu32, 0x3000u32,
    ];
    let n = c as u32;
    if is_space(c) {
        let k: int = if n <= 0xd {
            n - 0x9
        } else if n == 0x20 {
            5
        } else if n == 0x85 {
            6
        } else if n == 0xa0 {
            7
        } else if n == 0x1680 {
            8
        } else if n <= 0x200a {
            9 + (n - 0x2000)
        } else if n == 0x2028 {
            20
        } else if n == 0x2029 {
            21
        } else if n == 0x202f {
            22
        } else if n == 0x205f {
            23
        } else {
            24
        };
        assert(all[k] == n);
    }
}

/// A text occurs where it was put.
pub proof fn texts_occur_where_they_stand(a: Seq<char>, pattern: Seq<char>, b: Seq<char>)
    ensures
        occurs_at(a + pattern + b, pattern, a.len() as int),
        contains_text(a + pattern + b, pattern),
{
    let whole = a + pattern + b;
    assert(whole.subrange(a.len() as int, (a.len() + pattern.len()) as int) =~= pattern);
    assert(occurs_at(whole, pattern, a.len() as int));
}

proof fn lemma_find_shifted(a: Seq<char>, b: Seq<char>, c: char, n: int)
    requires
        0 <= n <= b.len(),
    ensures
        find_char(a + b, c, a.len() + n) == a.len() + find_char(b, c, n),
    decreases b.len() - n,
{
    if n < b.len() {
        assert((a + b)[a.len() + n] == b[n]);
        lemma_find_shifted(a, b, c, n + 1);
    }
}

proof fn lemma_lines_shifted(a: Seq<char>, b: Seq<char>, n: int)
    requires
        0 <= n <= b.len(),
    ensures
        lines_from(a + b, a.len() + n) == lines_from(b, n),
    decreases b.len() - n,
{
    let whole = a + b;
    lemma_find_shifted(a, b, '\n', n);
    find_char_is_first(b, '\n', n);
    let e = find_char(b, '\n', n);
    if n < b.len() {
        assert(whole.subrange(a.len() + n, a.len() + e) =~= b.subrange(n, e));
        assert(whole.subrange(a.len() + n, whole.len() as int) =~= b.subrange(n, b.len() as int));
        if e < b.len() {
            if e > n {
                assert(whole[a.len() + e - 1] == b[e - 1]);
                assert(whole.subrange(a.len() + n, a.len() + e - 1) =~= b.subrange(n, e - 1));
            }
            lemma_lines_shifted(a, b, e + 1);
        }
    }
}

/// Lines end at line feeds, which take a carriage return right before them along; text
/// without a line feed is one line unless it is empty.
pub proof fn lines_end_at_line_feeds(line: Seq<char>, rest: Seq<char>)
    requires
        !line.contains('\n'),
    ensures
        lines(line) == if line.len() > 0 {
            seq![line]
        } else {
            Seq::empty()
        },
        line.len() == 0 || line.last() != '\r' ==> lines(line + seq!['\n'] + rest) == seq![line] + lines(
            rest,
        ),
        lines(line + seq!['\r', '\n'] + rest) == seq![line] + lines(rest),
{
    find_char_is_first(line, '\n', 0);
    if find_char(line, '\n', 0) < line.len() {
        assert(line.contains('\n'));
    }
    assert(line.subrange(0, line.len() as int) =~= line);
    assert(lines(line) =~= if line.len() > 0 {
        seq![line]
    } else {
        Seq::empty()
    });
    let whole = line + seq!['\n'] + rest;
    find_char_is_first(whole, '\n', 0);
    assert(whole[line.len() as int] == '\n');
    let e = find_char(whole, '\n', 0);
    if e < line.len() {
        assert(line[e] == '\n');
        assert(line.contains('\n'));
    }
    assert(e == line.len());
    if line.len() > 0 {
        assert(whole[e - 1] == line.last());
    }
    assert(whole.subrange(0, e) =~= line);
    lemma_lines_shifted(line + seq!['\n'], rest, 0);
    let turned = line + seq!['\r', '\n'] + rest;
    find_char_is_first(turned, '\n', 0);
    assert(turned[line.len() as int] == '\r');
    assert(turned[line.len() + 1int] == '\n');
    let f = find_char(turned, '\n', 0);
    if f < line.len() {
        assert(line[f] == '\n');
        assert(line.contains('\n'));
    }
    assert(f == line.len() + 1);
    assert(turned.subrange(0, f - 1) =~= line);
    assert(turned =~= (line + seq!['\r', '\n']) + rest);
    lemma_lines_shifted(line + seq!['\r', '\n'], rest, 0);
}

proof fn lemma_first_exists(s: Seq<char>, pattern: Seq<char>, i: int)
    requires
        occurs_at(s, pattern, i),
    ensures
        exists|k: int| is_first_at(s, pattern, 0, k),
    decreases i,
{
    if exists|j: int| 0 <= j < i && occurs_at(s, pattern, j) {
        let j = choose|j: int| 0 <= j < i && occurs_at(s, pattern, j);
        lemma_first_exists(s, pattern, j);
    } else {
        assert(is_first_at(s, pattern, 0, i));
    }
}

/// A text is split at the first separator: the two sides and the separator make up the
/// text, and no separator starts earlier. It is not split where it holds none.
pub proof fn splitting_is_at_the_first_separator(s: Seq<char>, sep: Seq<char>)
    ensures
        split_first(s, sep) is Some <==> contains_text(s, sep),
        split_first(s, sep) matches Some(parts) ==> parts.0 + sep + parts.1 == s && forall|j: int|
            0 <= j < parts.0.len() ==> !occurs_at(s, sep, j),
{
    if contains_text(s, sep) {
        let i = choose|i: int| occurs_at(s, sep, i);
        lemma_first_exists(s, sep, i);
        let k = choose|k: int| is_first_at(s, sep, 0, k);
        assert(first_at(s, sep) == Some(k));
        assert(s.take(k) + sep + s.skip(k + sep.len()) =~= s) by {
            assert(s.subrange(k, k + sep.len()) == sep);
            assert forall|m: int| k <= m < k + sep.len() implies s[m] == sep[m - k] by {
                assert(s.subrange(k, k + sep.len())[m - k] == s[m]);
            }
        }
    }
}

proof fn lemma_find_before(a: Seq<char>, rest: Seq<char>, sep: char, i: int)
    requires
        0 <= i <= a.len(),
        rest.len() > 0,
        rest[0] == sep,
    ensures
        find_char(a + rest, sep, i) == find_char(a, sep, i),
    decreases a.len() - i,
{
    if i < a.len() && a[i] != sep {
        lemma_find_before(a, rest, sep, i + 1);
    }
}

/// A piece behind a last separator is the last piece.
pub proof fn last_piece_splits_off(a: Seq<char>, b: Seq<char>, sep: char, i: int)
    requires
        0 <= i <= a.len(),
        !b.contains(sep),
    ensures
        split_from(a + seq![sep] + b, sep, i) == split_from(a, sep, i).push(b),
    decreases a.len() - i,
{
    let whole = a + seq![sep] + b;
    let e = find_char(a, sep, i);
    assert(whole =~= a + (seq![sep] + b));
    lemma_find_before(a, seq![sep] + b, sep, i);
    find_char_is_first(a, sep, i);
    assert(whole.subrange(i, e) =~= a.subrange(i, e));
    if e < a.len() {
        last_piece_splits_off(a, b, sep, e + 1);
        assert(split_from(whole, sep, i) =~= split_from(a, sep, i).push(b));
    } else {
        let f = find_char(whole, sep, e + 1);
        find_char_is_first(whole, sep, e + 1);
        if f < whole.len() {
            assert(b[f - e - 1] == sep);
        }
        assert(whole.subrange(e + 1, whole.len() as int) =~= b);
        assert(split_from(whole, sep, e + 1) =~= seq![b]);
        assert(a.subrange(i, e) =~= a.subrange(i, a.len() as int));
        assert(split_from(a, sep, i) =~= seq![a.subrange(i, e)]);
        assert(split_from(whole, sep, i) =~= split_from(a, sep, i).push(b));
    }
}

/// Splitting a joined list at its separator gives the list back, as long as no
/// text of it holds the separator.
pub proof fn joined_list_splits_back(list: Seq<Seq<char>>, sep: char)
    requires
        list.len() > 0,
        forall|i: int| 0 <= i < list.len() ==> !(#[trigger] list[i]).contains(sep),
    ensures
        split(joined(list, seq![sep]), sep) == list,
    decreases list.len(),
{
    if list.len() == 1 {
        let only = list[0];
        find_char_is_first(only, sep, 0);
        if find_char(only, sep, 0) < only.len() {
            assert(only.contains(sep));
        }
        assert(only.subrange(0, only.len() as int) =~= only);
        assert(split(only, sep) =~= list);
    } else {
        let front = list.drop_last();
        assert forall|i: int| 0 <= i < front.len() implies !(#[trigger] front[i]).contains(sep) by {
            assert(front[i] == list[i]);
        }
        joined_list_splits_back(front, sep);
        last_piece_splits_off(joined(front, seq![sep]), list.last(), sep, 0);
        assert(front.push(list.last()) =~= list);
    }
}

/// No piece between separators holds one, and the pieces hold only characters of
/// the text.
pub proof fn pieces_hold_no_separator(s: Seq<char>, sep: char, from: int)
    requires
        0 <= from <= s.len(),
    ensures
        forall|i: int|
            0 <= i < split_from(s, sep, from).len() ==> !(#[trigger] split_from(
                s,
                sep,
                from,
            )[i]).contains(sep),
        forall|i: int, c: char|
            0 <= i < split_from(s, sep, from).len() && #[trigger] split_from(
                s,
                sep,
                from,
            )[i].contains(c) ==> s.contains(c),
    decreases s.len() - from,
{
    let e = find_char(s, sep, from);
    find_char_is_first(s, sep, from);
    let first = s.subrange(from, e);
    assert(!first.contains(sep)) by {
        if first.contains(sep) {
            let k = choose|k: int| 0 <= k < first.len() && first[k] == sep;
            assert(s[from + k] == sep);
        }
    }
    assert forall|c: char| first.contains(c) implies s.contains(c) by {
        let k = choose|k: int| 0 <= k < first.len() && first[k] == c;
        assert(s[from + k] == c);
    }
    if e < s.len() {
        pieces_hold_no_separator(s, sep, e + 1);
        let rest = split_from(s, sep, e + 1);
        let all = split_from(s, sep, from);
        assert(all == seq![first] + rest);
        assert forall|i: int| 0 <= i < all.len() implies !(#[trigger] all[i]).contains(sep) by {
            if i > 0 {
                assert(all[i] == rest[i - 1]);
            }
        }
        assert forall|i: int, c: char| 0 <= i < all.len() && #[trigger] all[i].contains(
            c,
        ) implies s.contains(c) by {
            if i > 0 {
                assert(all[i] == rest[i - 1]);
                assert(rest[i - 1].contains(c));
            }
        }
    }
}

fn skip_spaces_at(chars: &Vec<char>, from: usize) -> (at: usize)
    requires
        from <= chars@.len(),
    ensures
        at == skip_spaces(chars@, from as int),
        from <= at <= chars@.len(),
{
    let mut i: usize = from;
    while i < chars.len() && is_space_char(chars[i])
        invariant
            from <= i <= chars@.len(),
            skip_spaces(chars@, from as int) == skip_spaces(chars@, i as int),
        decreases chars@.len() - i,
    {
        i += 1;
    }
    i
}

fn skip_word_at(chars: &Vec<char>, from: usize) -> (at: usize)
    requires
        from <= chars@.len(),
    ensures
        at == skip_word(chars@, from as int),
        from <= at <= chars@.len(),
{
    let mut i: usize = from;
    while i < chars.len() && !is_space_char(chars[i])
        invariant
            from <= i <= chars@.len(),
            skip_word(chars@, from as int) == skip_word(chars@, i as int),
        decreases chars@.len() - i,
    {
        i += 1;
    }
    i
}

fn find_char_at(chars: &Vec<char>, c: char, from: usize) -> (at: usize)
    requires
        from <= chars@.len(),
    ensures
        at == find_char(chars@, c, from as int),
        from <= at <= chars@.len(),
{
    let mut i: usize = from;
    while i < chars.len() && chars[i] != c
        invariant
            from <= i <= chars@.len(),
            find_char(chars@, c, from as int) == find_char(chars@, c, i as int),
        decreases chars@.len() - i,
    {
        i += 1;
    }
    i
}

/// `s` without leading and trailing white space.
pub fn trim(s: &str) -> (t: String)
    ensures
        t@ == trimmed(s@),
{
    let chars = chars_of(s);
    let lo = skip_spaces_at(&chars, 0);
    let mut hi: usize = chars.len();
    while hi > lo && is_space_char(chars[hi - 1])
        invariant
            lo <= hi <= chars@.len(),
            back_over_spaces(chars@, lo as int, chars@.len() as int) == back_over_spaces(
                chars@,
                lo as int,
                hi as int,
            ),
        decreases hi,
    {
        hi -= 1;
    }
    slice_text(&chars, lo, hi)
}

/// The maximal runs of `s` without white space, in order.
pub fn split_words(s: &str) -> (list: Vec<String>)
    ensures
        texts(list@) == words(s@),
{
    let chars = chars_of(s);
    let mut list: Vec<String> = Vec::new();
    let mut i: usize = 0;
    assert(texts(list@) + words_from(s@, 0) =~= words(s@));
    loop
        invariant
            chars@ == s@,
            i <= chars@.len(),
            texts(list@) + words_from(s@, i as int) == words(s@),
        decreases chars@.len() - i,
    {
        let a = skip_spaces_at(&chars, i);
        let b = skip_word_at(&chars, a);
        proof {
            lemma_skip_spaces(s@, i as int);
            lemma_skip_word(s@, a as int);
        }
        if a >= chars.len() {
            assert(words_from(s@, i as int) =~= Seq::empty());
            assert(texts(list@) =~= words(s@));
            return list;
        }
        let ghost before_list = list@;
        let word = slice_text(&chars, a, b);
        list.push(word);
        assert(texts(list@) =~= texts(before_list) + seq![s@.subrange(a as int, b as int)]);
        assert(texts(list@) + words_from(s@, b as int) =~= texts(before_list) + words_from(
            s@,
            i as int,
        ));
        i = b;
    }
}

/// The pieces of `s` between occurrences of `sep`.
pub fn split_at_char(s: &str, sep: char) -> (list: Vec<String>)
    ensures
        texts(list@) == split(s@, sep),
{
    let chars = chars_of(s);
    let mut list: Vec<String> = Vec::new();
    let mut i: usize = 0;
    assert(texts(list@) + split_from(s@, sep, 0) =~= split(s@, sep));
    loop
        invariant
            chars@ == s@,
            i <= chars@.len(),
            texts(list@) + split_from(s@, sep, i as int) == split(s@, sep),
        decreases chars@.len() - i,
    {
        let e = find_char_at(&chars, sep, i);
        let ghost before_list = list@;
        let piece = slice_text(&chars, i, e);
        list.push(piece);
        assert(texts(list@) =~= texts(before_list) + seq![s@.subrange(i as int, e as int)]);
        if e >= chars.len() {
            assert(texts(list@) =~= split(s@, sep));
            return list;
        }
        assert(texts(list@) + split_from(s@, sep, e + 1) =~= texts(before_list) + split_from(
            s@,
            sep,
            i as int,
        ));
        i = e + 1;
    }
}

/// The lines of `s`.
pub fn split_lines(s: &str) -> (list: Vec<String>)
    ensures
        texts(list@) == lines(s@),
{
    let chars = chars_of(s);
    let mut list: Vec<String> = Vec::new();
    let mut i: usize = 0;
    assert(texts(list@) + lines_from(s@, 0) =~= lines(s@));
    while i < chars.len()
        invariant
            chars@ == s@,
            i <= chars@.len(),
            texts(list@) + lines_from(s@, i as int) == lines(s@),
        decreases chars@.len() - i,
    {
        let e = find_char_at(&chars, '\n', i);
        let ghost before_list = list@;
        let end: usize = if e < chars.len() && e > i && chars[e - 1] == '\r' {
            e - 1
        } else {
            e
        };
        let line = slice_text(&chars, i, end);
        list.push(line);
        assert(texts(list@) =~= texts(before_list) + seq![s@.subrange(i as int, end as int)]);
        let next: usize = if e < chars.len() {
            e + 1
        } else {
            e
        };
        assert(texts(list@) + lines_from(s@, next as int) =~= texts(before_list) + lines_from(
            s@,
            i as int,
        ));
        i = next;
    }
    assert(texts(list@) =~= lines(s@));
    list
}

fn occurs(chars: &Vec<char>, pattern: &Vec<char>, at: usize) -> (found: bool)
    requires
        at <= chars@.len(),
    ensures
        found == occurs_at(chars@, pattern@, at as int),
{
    let total: usize = chars.len();
    if total - at < pattern.len() {
        return false;
    }
    let mut k: usize = 0;
    while k < pattern.len()
        invariant
            k <= pattern@.len(),
            at + pattern@.len() <= total == chars@.len(),
            forall|j: int| 0 <= j < k ==> chars@[at + j] == pattern@[j],
        decreases pattern@.len() - k,
    {
        if chars[at + k] != pattern[k] {
            assert(chars@.subrange(at as int, at + pattern@.len())[k as int] != pattern@[k as int]);
            return false;
        }
        k += 1;
    }
    assert(chars@.subrange(at as int, at + pattern@.len()) =~= pattern@);
    true
}

/// The first position at or after `from` where `pattern` occurs.
pub fn find(chars: &Vec<char>, pattern: &str, from: usize) -> (at: Option<usize>)
    requires
        from <= chars@.len(),
    ensures
        match at {
            Some(i) => is_first_at(chars@, pattern@, from as int, i as int),
            None => forall|j: int| from <= j ==> !occurs_at(chars@, pattern@, j),
        },
{
    let pattern_chars = chars_of(pattern);
    let mut i: usize = from;
    loop
        invariant
            from <= i <= chars@.len(),
            pattern_chars@ == pattern@,
            forall|j: int| from <= j < i ==> !occurs_at(chars@, pattern@, j),
        decreases chars@.len() - i,
    {
        if occurs(chars, &pattern_chars, i) {
            return Some(i);
        }
        if i >= chars.len() {
            assert forall|j: int| from <= j implies !occurs_at(chars@, pattern@, j) by {}
            return None;
        }
        i += 1;
    }
}

/// The last position where `pattern` occurs.
pub fn rfind(chars: &Vec<char>, pattern: &str) -> (at: Option<usize>)
    ensures
        match at {
            Some(i) => is_last_at(chars@, pattern@, i as int),
            None => forall|j: int| !occurs_at(chars@, pattern@, j),
        },
{
    let pattern_chars = chars_of(pattern);
    let mut i: usize = chars.len();
    loop
        invariant
            i <= chars@.len(),
            pattern_chars@ == pattern@,
            forall|j: int| i < j ==> !occurs_at(chars@, pattern@, j),
        decreases i,
    {
        if occurs(chars, &pattern_chars, i) {
            return Some(i);
        }
        if i == 0 {
            return None;
        }
        i -= 1;
    }
}

/// What stands before and after the first occurrence of `sep` in `s`.
pub fn split_once(s: &str, sep: &str) -> (parts: Option<(String, String)>)
    ensures
        match parts {
            Some((head, tail)) => split_first(s@, sep@) == Some((head@, tail@)),
            None => split_first(s@, sep@) is None,
        },
{
    let chars = chars_of(s);
    match find(&chars, sep, 0) {
        Some(i) => {
            let sep_chars = chars_of(sep);
            let width: usize = sep_chars.len();
            let total: usize = chars.len();
            assert(occurs_at(s@, sep@, i as int));
            assert(i + width <= total);
            let ghost k = choose|k: int| is_first_at(s@, sep@, 0, k);
            assert(k == i) by {
                assert(is_first_at(s@, sep@, 0, i as int));
                if k < i {
                    assert(!occurs_at(s@, sep@, k));
                } else if i < k {
                    assert(!occurs_at(s@, sep@, i as int));
                }
            }
            let head = slice_text(&chars, 0, i);
            let tail = slice_text(&chars, i + width, total);
            assert(head@ =~= s@.take(i as int));
            assert(tail@ =~= s@.skip(i + sep@.len()));
            Some((head, tail))
        },
        None => {
            assert forall|j: int| !occurs_at(s@, sep@, j) by {}
            None
        },
    }
}

/// What stands after the last occurrence of `sep` in `s`.
pub fn text_after_last(s: &str, sep: &str) -> (tail: Option<String>)
    ensures
        opt_text(tail) == after_last(s@, sep@),
{
    let chars = chars_of(s);
    match rfind(&chars, sep) {
        Some(i) => {
            let sep_chars = chars_of(sep);
            let width: usize = sep_chars.len();
            let total: usize = chars.len();
            assert(occurs_at(s@, sep@, i as int));
            assert(i + width <= total);
            let ghost k = choose|k: int| is_last_at(s@, sep@, k);
            assert(k == i) by {
                assert(is_last_at(s@, sep@, i as int));
                if k < i {
                    assert(!occurs_at(s@, sep@, i as int));
                } else if i < k {
                    assert(!occurs_at(s@, sep@, k));
                }
            }
            let tail = slice_text(&chars, i + width, total);
            assert(tail@ =~= s@.skip(i + sep@.len()));
            Some(tail)
        },
        None => {
            assert forall|j: int| !occurs_at(s@, sep@, j) by {}
            None
        },
    }
}

/// Whether `pattern` occurs anywhere in `s`.
pub fn contains(s: &str, pattern: &str) -> (found: bool)
    ensures
        found == contains_text(s@, pattern@),
{
    let chars = chars_of(s);
    match find(&chars, pattern, 0) {
        Some(i) => {
            assert(occurs_at(s@, pattern@, i as int));
            true
        },
        None => {
            assert forall|j: int| !occurs_at(s@, pattern@, j) by {}
            false
        },
    }
}

/// Whether `c` occurs in `s`.
pub fn contains_char(s: &str, c: char) -> (found: bool)
    ensures
        found == s@.contains(c),
{
    let chars = chars_of(s);
    let at = find_char_at(&chars, c, 0);
    proof {
        find_char_is_first(s@, c, 0);
    }
    if at < chars.len() {
        assert(s@[at as int] == c);
        true
    } else {
        false
    }
}

/// Whether `s` starts with `prefix`.
pub fn starts_with(s: &str, prefix: &str) -> (found: bool)
    ensures
        found == prefix@.is_prefix_of(s@),
{
    let chars = chars_of(s);
    let prefix_chars = chars_of(prefix);
    let found = occurs(&chars, &prefix_chars, 0);
    assert(s@.len() >= prefix@.len() ==> s@.subrange(0, prefix@.len() as int) == s@.take(
        prefix@.len() as int,
    ));
    found
}

/// What follows `prefix` in `s`, where `s` starts with it.
pub fn strip_prefix(s: &str, prefix: &str) -> (rest: Option<String>)
    ensures
        match rest {
            Some(r) => s@ == prefix@ + r@,
            None => !prefix@.is_prefix_of(s@),
        },
{
    if !starts_with(s, prefix) {
        return None;
    }
    let chars = chars_of(s);
    let prefix_chars = chars_of(prefix);
    let r = slice_text(&chars, prefix_chars.len(), chars.len());
    assert(s@ =~= prefix@ + r@) by {
        assert(prefix@ =~= s@.subrange(0, prefix@.len() as int));
    }
    Some(r)
}

/// What precedes `suffix` in `s`, where `s` ends with it.
pub fn strip_suffix(s: &str, suffix: &str) -> (rest: Option<String>)
    ensures
        match rest {
            Some(r) => s@ == r@ + suffix@,
            None => !suffix@.is_suffix_of(s@),
        },
{
    let chars = chars_of(s);
    let suffix_chars = chars_of(suffix);
    if suffix_chars.len() > chars.len() {
        return None;
    }
    let at = chars.len() - suffix_chars.len();
    if !occurs(&chars, &suffix_chars, at) {
        return None;
    }
    let r = slice_text(&chars, 0, at);
    assert(s@ =~= r@ + suffix@) by {
        assert(suffix@ == s@.subrange(at as int, s@.len() as int));
    }
    Some(r)
}

/// Whether `s` ends with `suffix`.
pub fn ends_with(s: &str, suffix: &str) -> (found: bool)
    ensures
        found == suffix@.is_suffix_of(s@),
{
    match strip_suffix(s, suffix) {
        Some(r) => {
            assert(suffix@ =~= s@.subrange(s@.len() - suffix@.len(), s@.len() as int));
            true
        },
        None => false,
    }
}

/// `s` without any `c` at its end.
pub open spec fn without_trailing(s: Seq<char>, c: char) -> Seq<char>
    decreases s.len(),
{
    if s.len() > 0 && s.last() == c {
        without_trailing(s.drop_last(), c)
    } else {
        s
    }
}

/// `s` without any `c` at its start.
pub open spec fn without_leading(s: Seq<char>, c: char) -> Seq<char>
    decreases s.len(),
{
    if s.len() > 0 && s[0] == c {
        without_leading(s.drop_first(), c)
    } else {
        s
    }
}

/// `s` without any `c` at its end.
pub fn trim_end_char(s: &str, c: char) -> (t: String)
    ensures
        t@ == without_trailing(s@, c),
{
    let chars = chars_of(s);
    let mut hi: usize = chars.len();
    assert(s@.take(hi as int) =~= s@);
    while hi > 0 && chars[hi - 1] == c
        invariant
            chars@ == s@,
            hi <= chars@.len(),
            without_trailing(s@, c) == without_trailing(s@.take(hi as int), c),
        decreases hi,
    {
        assert(s@.take(hi as int).drop_last() =~= s@.take(hi - 1));
        hi -= 1;
    }
    slice_text(&chars, 0, hi)
}

/// `s` without any `c` at its start and at its end.
pub fn trim_char(s: &str, c: char) -> (t: String)
    ensures
        t@ == without_trailing(without_leading(s@, c), c),
{
    let chars = chars_of(s);
    let mut lo: usize = 0;
    assert(s@.skip(0) =~= s@);
    while lo < chars.len() && chars[lo] == c
        invariant
            chars@ == s@,
            lo <= chars@.len(),
            without_leading(s@, c) == without_leading(s@.skip(lo as int), c),
        decreases chars@.len() - lo,
    {
        assert(s@.skip(lo as int).drop_first() =~= s@.skip(lo + 1));
        lo += 1;
    }
    let rest = slice_text(&chars, lo, chars.len());
    assert(rest@ =~= s@.skip(lo as int));
    trim_end_char(rest.as_str(), c)
}

/// `list` with `sep` between consecutive texts.
pub fn join(list: &[String], sep: &str) -> (s: String)
    ensures
        s@ == joined(texts(list@), sep@),
{
    let mut s = String::new();
    let mut i: usize = 0;
    assert(texts(list@).take(0) =~= Seq::empty());
    while i < list.len()
        invariant
            i <= list@.len(),
            s@ == joined(texts(list@).take(i as int), sep@),
        decreases list@.len() - i,
    {
        assert(texts(list@).take(i + 1).drop_last() =~= texts(list@).take(i as int));
        assert(texts(list@).take(i + 1).last() == list@[i as int]@);
        if i > 0 {
            s.append(sep);
            s.append(list[i].as_str());
        } else {
            assert(s@ =~= Seq::empty());
            s.append(list[i].as_str());
            assert(s@ =~= list@[0]@);
        }
        i += 1;
    }
    assert(texts(list@).take(i as int) =~= texts(list@));
    s
}

/// `c` with an ASCII capital letter mapped to the small one.
pub fn lower(c: char) -> (l: char)
    ensures
        l == ascii_lower(c),
{
    match c {
        'A' => 'a',
        'B' => 'b',
        'C' => 'c',
        'D' => 'd',
        'E' => 'e',
        'F' => 'f',
        'G' => 'g',
        'H' => 'h',
        'I' => 'i',
        'J' => 'j',
        'K' => 'k',
        'L' => 'l',
        'M' => 'm',
        'N' => 'n',
        'O' => 'o',
        'P' => 'p',
        'Q' => 'q',
        'R' => 'r',
        'S' => 's',
        'T' => 't',
        'U' => 'u',
        'V' => 'v',
        'W' => 'w',
        'X' => 'x',
        'Y' => 'y',
        'Z' => 'z',
        _ => c,
    }
}

/// Whether the texts are equal up to the case of ASCII letters.
pub fn eq_ignoring_case(left: &str, right: &str) -> (equal: bool)
    ensures
        equal == same_ignoring_case(left@, right@),
{
    let a = chars_of(left);
    let b = chars_of(right);
    if a.len() != b.len() {
        return false;
    }
    let mut i: usize = 0;
    while i < a.len()
        invariant
            a@ == left@,
            b@ == right@,
            i <= a@.len() == b@.len(),
            forall|k: int|
                0 <= k < i ==> #[trigger] ascii_lower(left@[k]) == ascii_lower(right@[k]),
        decreases a@.len() - i,
    {
        if lower(a[i]) != lower(b[i]) {
            assert(ascii_lower(left@[i as int]) != ascii_lower(right@[i as int]));
            return false;
        }
        i += 1;
    }
    true
}

/// Whether `wanted` is one of the texts.
pub fn has_text(list: &[String], wanted: &str) -> (found: bool)
    ensures
        found == texts(list@).contains(wanted@),
{
    let mut i: usize = 0;
    while i < list.len()
        invariant
            i <= list@.len(),
            forall|k: int| 0 <= k < i ==> texts(list@)[k] != wanted@,
        decreases list@.len() - i,
    {
        if same(list[i].as_str(), wanted) {
            assert(texts(list@)[i as int] == wanted@);
            return true;
        }
        i += 1;
    }
    false
}

/// A copy of a list of texts.
pub fn copy_texts(list: &Vec<String>) -> (copy: Vec<String>)
    ensures
        texts(copy@) == texts(list@),
{
    let mut copy: Vec<String> = Vec::new();
    let mut i: usize = 0;
    assert(texts(copy@) =~= texts(list@).take(0));
    while i < list.len()
        invariant
            i <= list@.len(),
            texts(copy@) == texts(list@).take(i as int),
        decreases list@.len() - i,
    {
        let ghost before_copy = copy@;
        copy.push(list[i].clone());
        assert(texts(copy@) =~= texts(before_copy).push(list@[i as int]@));
        assert(texts(list@).take(i + 1) =~= texts(list@).take(i as int).push(list@[i as int]@));
        i += 1;
    }
    assert(texts(list@).take(i as int) =~= texts(list@));
    copy
}

/// A copy of an optional text.
pub fn copy_opt(text: &Option<String>) -> (copy: Option<String>)
    ensures
        opt_text(copy) == opt_text(*text),
{
    match text {
        Some(value) => Some(value.clone()),
        None => None,
    }
}

/// `a` followed by `b`.
pub fn cat2(a: &str, b: &str) -> (s: String)
    ensures
        s@ == a@ + b@,
{
    let mut s = a.to_owned();
    s.append(b);
    s
}

/// `a` followed by `b` and `c`.
pub fn cat3(a: &str, b: &str, c: &str) -> (s: String)
    ensures
        s@ == a@ + b@ + c@,
{
    let mut s = cat2(a, b);
    s.append(c);
    s
}

/// `a` followed by `b`, `c` and `d`.
pub fn cat4(a: &str, b: &str, c: &str, d: &str) -> (s: String)
    ensures
        s@ == a@ + b@ + c@ + d@,
{
    let mut s = cat3(a, b, c);
    s.append(d);
    s
}

/// `a` followed by `b`, `c`, `d` and `e`.
pub fn cat5(a: &str, b: &str, c: &str, d: &str, e: &str) -> (s: String)
    ensures
        s@ == a@ + b@ + c@ + d@ + e@,
{
    let mut s = cat4(a, b, c, d);
    s.append(e);
    s
}

/// `a` followed by `b`, `c`, `d`, `e`, `f` and `g`.
pub fn cat7(a: &str, b: &str, c: &str, d: &str, e: &str, f: &str, g: &str) -> (s: String)
    ensures
        s@ == a@ + b@ + c@ + d@ + e@ + f@ + g@,
{
    let mut s = cat5(a, b, c, d, e);
    s.append(f);
    s.append(g);
    s
}

} // verus!
