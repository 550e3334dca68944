//! The order of texts and sorted lists of distinct texts.

use crate::text::{copy_texts, join, joined, same, texts};
use vstd::prelude::*;
use vstd::std_specs::iter::IteratorSpec;

verus! {

/// Lexicographic order by code point; it agrees with the order of the UTF-8 bytes.
pub open spec fn before(left: Seq<char>, right: Seq<char>) -> bool
    decreases left.len(),
{
    if right.len() == 0 {
        false
    } else if left.len() == 0 {
        true
    } else if left[0] != right[0] {
        left[0] < right[0]
    } else {
        before(left.drop_first(), right.drop_first())
    }
}

/// Whether the texts of `list` are distinct and in ascending order.
pub open spec fn strictly_sorted(list: Seq<Seq<char>>) -> bool {
    forall|i: int, j: int|
        0 <= i < j < list.len() ==> before(#[trigger] list[i], #[trigger] list[j])
}

/// No text is before itself, and of two different texts exactly one is before
/// the other.
pub proof fn before_is_strict_and_total(left: Seq<char>, right: Seq<char>)
    ensures
        !before(left, left),
        !(before(left, right) && before(right, left)),
        left != right ==> before(left, right) || before(right, left),
    decreases left.len(),
{
    if left.len() > 0 {
        before_is_strict_and_total(left.drop_first(), left.drop_first());
    }
    if left.len() > 0 && right.len() > 0 {
        before_is_strict_and_total(left.drop_first(), right.drop_first());
        if left[0] == right[0] && left.drop_first() == right.drop_first() {
            assert(left =~= seq![left[0]] + left.drop_first());
            assert(right =~= seq![right[0]] + right.drop_first());
        }
    } else if left.len() == 0 && right.len() == 0 {
        assert(left =~= right);
    }
}

/// The order is transitive.
pub proof fn before_is_transitive(a: Seq<char>, b: Seq<char>, c: Seq<char>)
    requires
        before(a, b),
        before(b, c),
    ensures
        before(a, c),
    decreases a.len(),
{
    if a.len() > 0 && a[0] == b[0] && b[0] == c[0] {
        before_is_transitive(a.drop_first(), b.drop_first(), c.drop_first());
    }
}

/// Whether `left` is before `right`.
pub fn is_before(left: &str, right: &str) -> (less: bool)
    ensures
        less == before(left@, right@),
{
    broadcast use vstd::string::next_postcondition;

    let mut a = left.chars();
    let mut b = right.chars();
    loop
        invariant
            before(left@, right@) == before(a.remaining(), b.remaining()),
            a.decrease() is Some,
        decreases a.decrease()->0,
    {
        let c = a.next();
        let d = b.next();
        match (c, d) {
            (_, None) => return false,
            (None, Some(_)) => return true,
            (Some(c), Some(d)) => {
                if c != d {
                    return c < d;
                }
            },
        }
    }
}

/// Adds `item` to a sorted list of distinct texts unless it is there already.
pub fn insert_sorted(list: &mut Vec<String>, item: String)
    requires
        strictly_sorted(texts(old(list)@)),
    ensures
        strictly_sorted(texts(final(list)@)),
        texts(final(list)@).to_set() == texts(old(list)@).to_set().insert(item@),
{
    let ghost before_list = texts(list@);
    let mut i: usize = 0;
    while i < list.len() && is_before(list[i].as_str(), item.as_str())
        invariant
            i <= list@.len(),
            before_list == texts(list@),
            forall|k: int| 0 <= k < i ==> before(#[trigger] before_list[k], item@),
        decreases list@.len() - i,
    {
        i += 1;
    }
    if i < list.len() && !is_before(item.as_str(), list[i].as_str()) {
        proof {
            before_is_strict_and_total(before_list[i as int], item@);
            assert(before_list.to_set().contains(before_list[i as int]));
            assert(before_list.to_set() =~= before_list.to_set().insert(item@));
        }
        return;
    }
    let ghost text = item@;
    list.insert(i, item);
    proof {
        let after = texts(list@);
        assert(after =~= before_list.insert(i as int, text));
        assert forall|p: int, q: int| 0 <= p < q < after.len() implies before(
            #[trigger] after[p],
            #[trigger] after[q],
        ) by {
            if p < i && q > i {
                assert(before(before_list[p], before_list[q - 1]));
            } else if p == i {
                if q - 1 > i {
                    assert(before(before_list[i as int], before_list[q - 1]));
                    before_is_transitive(text, before_list[i as int], before_list[q - 1]);
                }
            } else if p > i {
                assert(before(before_list[p - 1], before_list[q - 1]));
            } else if q < i {
                assert(before(before_list[p], before_list[q]));
            }
        }
        assert(after[i as int] == text);
        assert forall|x: Seq<char>| after.to_set().contains(x) implies before_list.to_set().insert(
            text,
        ).contains(x) by {
            let k = choose|k: int| 0 <= k < after.len() && after[k] == x;
            if k < i {
                assert(before_list[k] == x);
            } else if k > i {
                assert(before_list[k - 1] == x);
            }
        }
        assert forall|x: Seq<char>| before_list.to_set().insert(text).contains(
            x,
        ) implies after.to_set().contains(x) by {
            if x != text {
                let k = choose|k: int| 0 <= k < before_list.len() && before_list[k] == x;
                if k < i {
                    assert(after[k] == x);
                } else {
                    assert(after[k + 1] == x);
                }
            }
        }
        assert(after.to_set() =~= before_list.to_set().insert(text));
    }
}

/// A set of texts, kept in ascending order.
#[derive(Debug, PartialEq, Eq)]
pub struct TextSet {
    items: Vec<String>,
}

impl View for TextSet {
    type V = Seq<Seq<char>>;

    /// The texts in ascending order.
    closed spec fn view(&self) -> Seq<Seq<char>> {
        texts(self.items@)
    }
}

impl TextSet {
    #[verifier::type_invariant]
    spec fn sorted(self) -> bool {
        strictly_sorted(texts(self.items@))
    }

    /// The set without texts.
    pub fn new() -> (set: TextSet)
        ensures
            set@ == Seq::<Seq<char>>::empty(),
    {
        let set = TextSet { items: Vec::new() };
        assert(texts(set.items@) =~= Seq::<Seq<char>>::empty());
        set
    }

    /// Adds a text.
    pub fn insert(&mut self, item: String)
        ensures
            strictly_sorted(final(self)@),
            final(self)@.to_set() == old(self)@.to_set().insert(item@),
    {
        proof {
            use_type_invariant(&*self);
        }
        let mut items: Vec<String> = Vec::new();
        assert(texts(items@) =~= Seq::<Seq<char>>::empty());
        std::mem::swap(&mut items, &mut self.items);
        insert_sorted(&mut items, item);
        self.items = items;
    }

    /// The texts in ascending order.
    pub fn items(&self) -> (items: &Vec<String>)
        ensures
            texts(items@) == self@,
            strictly_sorted(self@),
    {
        proof {
            use_type_invariant(self);
        }
        &self.items
    }

    /// A set with the same texts.
    pub fn copied(&self) -> (set: TextSet)
        ensures
            set@ == self@,
    {
        proof {
            use_type_invariant(self);
        }
        let items = copy_texts(&self.items);
        TextSet { items }
    }

    /// Whether a text is in the set.
    pub fn contains(&self, item: &str) -> (found: bool)
        ensures
            found == self@.contains(item@),
    {
        let mut i: usize = 0;
        while i < self.items.len()
            invariant
                i <= self.items@.len(),
                forall|k: int| 0 <= k < i ==> self@[k] != item@,
            decreases self.items@.len() - i,
        {
            if same(self.items[i].as_str(), item) {
                assert(self@[i as int] == item@);
                return true;
            }
            i += 1;
        }
        false
    }

    /// Whether two sets hold the same texts.
    pub fn same_set(&self, other: &TextSet) -> (equal: bool)
        ensures
            equal == (self@ == other@),
    {
        if self.items.len() != other.items.len() {
            assert(self@.len() != other@.len());
            return false;
        }
        let mut i: usize = 0;
        while i < self.items.len()
            invariant
                i <= self.items@.len() == other.items@.len(),
                forall|k: int| 0 <= k < i ==> self@[k] == other@[k],
            decreases self.items@.len() - i,
        {
            if !same(self.items[i].as_str(), other.items[i].as_str()) {
                assert(self@[i as int] != other@[i as int]);
                return false;
            }
            i += 1;
        }
        assert(self@ =~= other@);
        true
    }

    /// The texts in ascending order with `sep` between them.
    pub fn joined_by(&self, sep: &str) -> (text: String)
        ensures
            text@ == joined(self@, sep@),
    {
        join(self.items.as_slice(), sep)
    }
}

/// A set has one ascending list: two ascending lists of distinct texts with the
/// same members are equal.
pub proof fn sorted_list_is_determined(left: Seq<Seq<char>>, right: Seq<Seq<char>>)
    requires
        strictly_sorted(left),
        strictly_sorted(right),
        left.to_set() == right.to_set(),
    ensures
        left == right,
    decreases left.len(),
{
    if left.len() == 0 {
        if right.len() > 0 {
            assert(right.to_set().contains(right[0]));
            assert(left.to_set().contains(right[0]));
        }
        assert(left =~= right);
    } else {
        assert(left.to_set().contains(left.last()));
        assert(right.to_set().contains(left.last()));
        let p = choose|p: int| 0 <= p < right.len() && right[p] == left.last();
        assert(right.to_set().contains(right.last()));
        assert(left.to_set().contains(right.last()));
        let q = choose|q: int| 0 <= q < left.len() && left[q] == right.last();
        if left.last() != right.last() {
            assert(before(right[p], right.last()));
            assert(before(left[q], left.last()));
            before_is_strict_and_total(left.last(), right.last());
        }
        let l = left.drop_last();
        let r = right.drop_last();
        assert forall|x: Seq<char>| l.to_set().contains(x) == r.to_set().contains(x) by {
            if l.to_set().contains(x) {
                let k = choose|k: int| 0 <= k < l.len() && l[k] == x;
                assert(left.to_set().contains(left[k]));
                assert(before(left[k], left.last()));
                before_is_strict_and_total(x, left.last());
                assert(right.to_set().contains(x));
                let m = choose|m: int| 0 <= m < right.len() && right[m] == x;
                assert(r[m] == x);
            }
            if r.to_set().contains(x) {
                let k = choose|k: int| 0 <= k < r.len() && r[k] == x;
                assert(right.to_set().contains(right[k]));
                assert(before(right[k], right.last()));
                before_is_strict_and_total(x, right.last());
                assert(left.to_set().contains(x));
                let m = choose|m: int| 0 <= m < left.len() && left[m] == x;
                assert(l[m] == x);
            }
        }
        assert(l.to_set() =~= r.to_set());
        assert forall|i: int, j: int| 0 <= i < j < l.len() implies before(
            #[trigger] l[i],
            #[trigger] l[j],
        ) by {
            assert(before(left[i], left[j]));
        }
        assert forall|i: int, j: int| 0 <= i < j < r.len() implies before(
            #[trigger] r[i],
            #[trigger] r[j],
        ) by {
            assert(before(right[i], right[j]));
        }
        sorted_list_is_determined(l, r);
        assert(left =~= l.push(left.last()));
        assert(right =~= r.push(right.last()));
    }
}

/// The first character in which two texts differ decides, the smaller one coming first; a
/// text comes before its own continuations.
pub proof fn the_first_difference_decides(
    common: Seq<char>,
    a: char,
    b: char,
    left: Seq<char>,
    right: Seq<char>,
)
    ensures
        before(common, common + seq![a] + left),
        a < b ==> before(common + seq![a] + left, common + seq![b] + right),
    decreases common.len(),
{
    let longer = common + seq![a] + left;
    let x = common + seq![a] + left;
    let y = common + seq![b] + right;
    if common.len() > 0 {
        let rest = common.drop_first();
        the_first_difference_decides(rest, a, b, left, right);
        assert(longer.drop_first() =~= rest + seq![a] + left);
        assert(y.drop_first() =~= rest + seq![b] + right);
        assert(longer[0] == common[0] && y[0] == common[0]);
    } else {
        assert(x[0] == a && y[0] == b);
    }
}

} // verus!
