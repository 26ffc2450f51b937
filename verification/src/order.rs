//! Order among texts and numbers.
use crate::output::{Double, Single};
use crate::text::{chars_of, texts};
#[allow(unused_imports)]
use crate::text::text_le;
use vstd::prelude::*;
#[allow(unused_imports)]
use vstd::seq_lib::to_multiset_insert;

verus! {

/// No text stands behind a greater one.
pub open spec fn texts_in_order(list: Seq<Seq<char>>) -> bool {
    forall|i: int, j: int| 0 <= i <= j < list.len() ==> text_le(#[trigger] list[i], #[trigger] list[j])
}

/// `sorted` holds what `list` holds, each as often, in order.
pub open spec fn is_sorting_of(sorted: Seq<Seq<char>>, list: Seq<Seq<char>>) -> bool {
    texts_in_order(sorted) && sorted.to_multiset() == list.to_multiset()
}

/// A text is equal to itself.
pub proof fn lemma_text_le_reflexive(a: Seq<char>)
    ensures
        text_le(a, a),
    decreases a.len(),
{
    if a.len() > 0 {
        lemma_text_le_reflexive(a.skip(1));
    }
}

/// Of two texts one stands before the other or is equal to it.
pub proof fn lemma_text_le_total(a: Seq<char>, b: Seq<char>)
    ensures
        text_le(a, b) || text_le(b, a),
    decreases a.len(),
{
    if a.len() > 0 && b.len() > 0 && a[0] == b[0] {
        lemma_text_le_total(a.skip(1), b.skip(1));
    }
}

/// What stands before a text stands before all behind that.
pub proof fn lemma_text_le_transitive(a: Seq<char>, b: Seq<char>, c: Seq<char>)
    requires
        text_le(a, b),
        text_le(b, c),
    ensures
        text_le(a, c),
    decreases a.len(),
{
    if a.len() > 0 && a[0] == b[0] && b[0] == c[0] {
        lemma_text_le_transitive(a.skip(1), b.skip(1), c.skip(1));
    }
}

/// Two texts of which neither stands behind the other are equal.
pub proof fn lemma_text_le_antisymmetric(a: Seq<char>, b: Seq<char>)
    requires
        text_le(a, b),
        text_le(b, a),
    ensures
        a == b,
    decreases a.len(),
{
    if a.len() > 0 {
        lemma_text_le_antisymmetric(a.skip(1), b.skip(1));
        assert(a =~= seq![a[0]] + a.skip(1));
        assert(b =~= seq![b[0]] + b.skip(1));
    } else {
        assert(a =~= b);
    }
}

/// There is one sorting of a list only.
pub proof fn law_sorting_is_unique(a: Seq<Seq<char>>, b: Seq<Seq<char>>, list: Seq<Seq<char>>)
    requires
        is_sorting_of(a, list),
        is_sorting_of(b, list),
    ensures
        a == b,
{
    let leq = |x: Seq<char>, y: Seq<char>| text_le(x, y);
    assert(vstd::relations::total_ordering(leq)) by {
        assert forall|x: Seq<char>| #[trigger] leq(x, x) by {
            lemma_text_le_reflexive(x);
        }
        assert forall|x: Seq<char>, y: Seq<char>| #[trigger] leq(x, y) && #[trigger] leq(y, x) implies x == y by {
            lemma_text_le_antisymmetric(x, y);
        }
        assert forall|x: Seq<char>, y: Seq<char>, z: Seq<char>|
            #[trigger] leq(x, y) && #[trigger] leq(y, z) implies leq(x, z) by {
            lemma_text_le_transitive(x, y, z);
        }
        assert forall|x: Seq<char>, y: Seq<char>| #[trigger] leq(x, y) || #[trigger] leq(y, x) by {
            lemma_text_le_total(x, y);
        }
    }
    assert(vstd::relations::sorted_by(a, leq));
    assert(vstd::relations::sorted_by(b, leq));
    vstd::seq_lib::lemma_sorted_unique(a, b, leq);
}

/// Whether `a` stands before `b` or is equal to it.
pub fn text_at_most(a: &str, b: &str) -> (r: bool)
    ensures
        r == text_le(a@, b@),
{
    let x = chars_of(a);
    let y = chars_of(b);
    let mut i: usize = 0;
    assert(x@.skip(0) =~= x@ && y@.skip(0) =~= y@);
    while i < x.len() && i < y.len()
        invariant
            x@ == a@,
            y@ == b@,
            i <= x@.len(),
            i <= y@.len(),
            text_le(a@, b@) == text_le(x@.skip(i as int), y@.skip(i as int)),
        decreases x@.len() - i,
    {
        if x[i] != y[i] {
            return x[i] < y[i];
        }
        assert(x@.skip(i as int).skip(1) =~= x@.skip(i + 1));
        assert(y@.skip(i as int).skip(1) =~= y@.skip(i + 1));
        i = i + 1;
    }
    i == x.len()
}

/// The texts in order.
pub fn sort_texts(list: Vec<String>) -> (r: Vec<String>)
    ensures
        is_sorting_of(texts(r@), texts(list@)),
{
    let ghost all = texts(list@);
    let mut r: Vec<String> = Vec::new();
    let mut i: usize = 0;
    assert(texts(r@) =~= all.take(0));
    while i < list.len()
        invariant
            i <= list@.len(),
            all == texts(list@),
            is_sorting_of(texts(r@), all.take(i as int)),
        decreases list@.len() - i,
    {
        let ghost before = texts(r@);
        let item = list[i].clone();
        let mut at: usize = 0;
        while at < r.len() && text_at_most(r[at].as_str(), item.as_str())
            invariant
                at <= r@.len(),
                before == texts(r@),
                forall|k: int| 0 <= k < at ==> text_le(#[trigger] before[k], item@),
            decreases r@.len() - at,
        {
            assert(before[at as int] == r@[at as int]@);
            at = at + 1;
        }
        r.insert(at, item);
        proof {
            let after = texts(r@);
            assert(after =~= before.insert(at as int, item@));
            to_multiset_insert(before, at as int, item@);
            assert(all.take(i + 1) =~= all.take(i as int).push(item@));
            vstd::seq_lib::to_multiset_build(all.take(i as int), item@);
            lemma_text_le_reflexive(item@);
            assert forall|j: int| at <= j < before.len() implies text_le(
                item@,
                #[trigger] before[j],
            ) by {
                lemma_text_le_total(item@, before[at as int]);
                assert(text_le(before[at as int], before[j]));
                lemma_text_le_transitive(item@, before[at as int], before[j]);
            }
            assert forall|j: int, k: int| 0 <= j <= k < after.len() implies text_le(
                #[trigger] after[j],
                #[trigger] after[k],
            ) by {
                let x = if j < at { j } else { j - 1 };
                let y = if k < at { k } else { k - 1 };
                if j == at {
                    if k > at {
                        assert(after[k] == before[y]);
                    }
                } else if k == at {
                    assert(after[j] == before[x]);
                } else {
                    assert(after[j] == before[x]);
                    assert(after[k] == before[y]);
                }
            }
        }
        i = i + 1;
    }
    assert(all.take(all.len() as int) =~= all);
    r
}

/// Numbers that have an order. All but the NaNs of floating point do.
pub trait Ranked: Copy {
    /// Whether this has a place in the order.
    spec fn has_rank(self) -> bool;

    /// An integer that is ordered as these numbers are.
    spec fn rank(self) -> int;

    /// Whether this is less than `other` or equal to it.
    fn at_most(self, other: Self) -> (r: bool)
        ensures
            r == (self.rank() <= other.rank()),
    ;
}

impl Ranked for u32 {
    open spec fn has_rank(self) -> bool {
        true
    }

    open spec fn rank(self) -> int {
        self as int
    }

    fn at_most(self, other: u32) -> (r: bool) {
        self <= other
    }
}

impl Ranked for Single {
    open spec fn has_rank(self) -> bool {
        self.bits <= 0x7f80_0000 || 0x8000_0000 <= self.bits <= 0xff80_0000
    }

    /// The bits of a positive number grow with it, those of a negative one with its distance
    /// from zero, and both zeros are equal.
    open spec fn rank(self) -> int {
        if self.bits < 0x8000_0000 {
            self.bits as int
        } else {
            0x8000_0000 - self.bits
        }
    }

    fn at_most(self, other: Single) -> (r: bool) {
        if other.bits < 0x8000_0000 {
            self.bits <= other.bits || self.bits >= 0x8000_0000
        } else if self.bits < 0x8000_0000 {
            self.bits == 0 && other.bits == 0x8000_0000
        } else {
            self.bits >= other.bits
        }
    }
}

impl Ranked for Double {
    open spec fn has_rank(self) -> bool {
        self.bits <= 0x7ff0_0000_0000_0000 || 0x8000_0000_0000_0000 <= self.bits
            <= 0xfff0_0000_0000_0000
    }

    /// As for numbers in single precision.
    open spec fn rank(self) -> int {
        if self.bits < 0x8000_0000_0000_0000 {
            self.bits as int
        } else {
            0x8000_0000_0000_0000 - self.bits
        }
    }

    fn at_most(self, other: Double) -> (r: bool) {
        if other.bits < 0x8000_0000_0000_0000 {
            self.bits <= other.bits || self.bits >= 0x8000_0000_0000_0000
        } else if self.bits < 0x8000_0000_0000_0000 {
            self.bits == 0 && other.bits == 0x8000_0000_0000_0000
        } else {
            self.bits >= other.bits
        }
    }
}

/// No number stands behind a greater one.
pub open spec fn in_order<T: Ranked>(list: Seq<T>) -> bool {
    forall|i: int, j: int|
        0 <= i <= j < list.len() ==> (#[trigger] list[i]).rank() <= (#[trigger] list[j]).rank()
}

/// The numbers in order.
pub fn sort_numbers<T: Ranked>(list: &Vec<T>) -> (r: Vec<T>)
    ensures
        in_order(r@),
        r@.to_multiset() == list@.to_multiset(),
{
    let mut r: Vec<T> = Vec::new();
    let mut i: usize = 0;
    assert(r@ =~= list@.take(0));
    while i < list.len()
        invariant
            i <= list@.len(),
            in_order(r@),
            r@.to_multiset() == list@.take(i as int).to_multiset(),
        decreases list@.len() - i,
    {
        let ghost before = r@;
        let item = list[i];
        let mut at: usize = 0;
        while at < r.len() && r[at].at_most(item)
            invariant
                at <= r@.len(),
                before == r@,
                forall|k: int| 0 <= k < at ==> (#[trigger] before[k]).rank() <= item.rank(),
            decreases r@.len() - at,
        {
            at = at + 1;
        }
        r.insert(at, item);
        proof {
            to_multiset_insert(before, at as int, item);
            assert(list@.take(i + 1) =~= list@.take(i as int).push(item));
            vstd::seq_lib::to_multiset_build(list@.take(i as int), item);
            assert forall|j: int| at <= j < before.len() implies item.rank() <= (
            #[trigger] before[j]).rank() by {
                assert(before[at as int].rank() <= before[j].rank());
            }
        }
        i = i + 1;
    }
    assert(list@.take(list@.len() as int) =~= list@);
    r
}

/// Which positions of an ordered list its median comes from.
#[derive(Clone, Copy, PartialEq, Eq, Structural, Debug)]
pub enum Middle {
    /// The list is empty.
    Nowhere,
    /// The value at this position.
    At(usize),
    /// The mean of the values at this position and the next.
    AtAndNext(usize),
}

/// Which positions of an ordered list of the given length its median comes from.
pub open spec fn middle_in(len: nat) -> Middle {
    if len == 0 {
        Middle::Nowhere
    } else if len % 2 == 1 {
        Middle::At(((len - 1) / 2) as usize)
    } else {
        Middle::AtAndNext((len / 2 - 1) as usize)
    }
}

/// Which positions of an ordered list of the given length its median comes from.
pub fn middle_of(len: usize) -> (r: Middle)
    ensures
        r == middle_in(len as nat),
{
    if len == 0 {
        return Middle::Nowhere;
    }
    let mid = len / 2;
    if len % 2 == 0 {
        Middle::AtAndNext(mid - 1)
    } else {
        Middle::At(mid)
    }
}

/// A series of numbers in order, and where its median comes from.
#[derive(Debug, PartialEq, Eq)]
pub struct Series<T> {
    pub sorted: Vec<T>,
    pub middle: Middle,
}

/// `series` holds the given numbers in order. Equal ones may stand in either order.
pub open spec fn is_series_of<T: Ranked>(series: Series<T>, values: Seq<T>) -> bool {
    &&& in_order(series.sorted@)
    &&& series.sorted@.to_multiset() == values.to_multiset()
    &&& series.middle == middle_in(values.len())
}

/// Numbers that can be put in order: where there are two or more, each has a place in it.
pub open spec fn can_be_ordered<T: Ranked>(values: Seq<T>) -> bool {
    values.len() >= 2 ==> forall|i: int|
        0 <= i < values.len() ==> (#[trigger] values[i]).has_rank()
}

/// Puts numbers in order.
pub fn arrange<T: Ranked>(values: &Vec<T>) -> (r: Series<T>)
    requires
        can_be_ordered(values@),
    ensures
        is_series_of(r, values@),
{
    Series { sorted: sort_numbers(values), middle: middle_of(values.len()) }
}

/// As many numbers stand before the place of the median as behind it.
pub proof fn law_median_splits(len: nat)
    requires
        len <= usize::MAX,
    ensures
        match middle_in(len) {
            Middle::Nowhere => len == 0,
            Middle::At(i) => i + 1 + i == len,
            Middle::AtAndNext(i) => i + 2 + i == len,
        },
{
}

/// The least and the greatest number of a series, where it has any.
pub fn ends_of<T: Ranked>(series: &Series<T>) -> (r: Option<(T, T)>)
    ensures
        r is Some <==> series.sorted@.len() > 0,
        r matches Some(ends) ==> ends.0 == series.sorted@.first() && ends.1
            == series.sorted@.last(),
{
    let total = series.sorted.len();
    if total == 0 {
        None
    } else {
        Some((series.sorted[0], series.sorted[total - 1]))
    }
}

/// The ends of a series are numbers of it, and no number lies outside them.
pub open spec fn are_extremes<T: Ranked>(ends: (T, T), values: Seq<T>) -> bool {
    &&& values.contains(ends.0)
    &&& values.contains(ends.1)
    &&& forall|i: int|
        0 <= i < values.len() ==> ends.0.rank() <= (#[trigger] values[i]).rank() <= ends.1.rank()
}

/// The ends of a series are its least and its greatest number.
pub proof fn law_ends_are_extremes<T: Ranked>(series: Series<T>, values: Seq<T>)
    requires
        is_series_of(series, values),
        values.len() > 0,
    ensures
        series.sorted@.len() == values.len(),
        are_extremes((series.sorted@.first(), series.sorted@.last()), values),
{
    let sorted = series.sorted@;
    vstd::seq_lib::to_multiset_len(sorted);
    vstd::seq_lib::to_multiset_len(values);
    assert forall|x: T| values.contains(x) <==> sorted.contains(x) by {
        vstd::seq_lib::to_multiset_contains(sorted, x);
        vstd::seq_lib::to_multiset_contains(values, x);
    }
    assert(sorted.contains(sorted[0]) && sorted.contains(sorted[sorted.len() - 1]));
    assert forall|i: int| 0 <= i < values.len() implies sorted.first().rank() <= (
    #[trigger] values[i]).rank() <= sorted.last().rank() by {
        assert(values.contains(values[i]));
        let k = choose|k: int| 0 <= k < sorted.len() && sorted[k] == values[i];
        assert(sorted[0].rank() <= sorted[k].rank());
        assert(sorted[k].rank() <= sorted[sorted.len() - 1].rank());
    }
}

/// The two numbers in the middle of a series that is not empty; for an odd number of them they
/// are the same.
pub open spec fn middles<T>(series: Series<T>) -> (T, T) {
    match series.middle {
        Middle::At(i) => (series.sorted@[i as int], series.sorted@[i as int]),
        Middle::AtAndNext(i) => (series.sorted@[i as int], series.sorted@[i + 1]),
        Middle::Nowhere => (series.sorted@[0], series.sorted@[0]),
    }
}

/// How many numbers have at most the given rank.
pub open spec fn count_up_to<T: Ranked>(values: Seq<T>, bound: int) -> nat
    decreases values.len(),
{
    if values.len() == 0 {
        0
    } else {
        count_up_to(values.drop_last(), bound) + (if values.last().rank() <= bound {
            1nat
        } else {
            0
        })
    }
}

/// How many numbers have at least the given rank.
pub open spec fn count_from<T: Ranked>(values: Seq<T>, bound: int) -> nat
    decreases values.len(),
{
    if values.len() == 0 {
        0
    } else {
        count_from(values.drop_last(), bound) + (if values.last().rank() >= bound {
            1nat
        } else {
            0
        })
    }
}

proof fn lemma_count_remove<T: Ranked>(values: Seq<T>, bound: int, i: int)
    requires
        0 <= i < values.len(),
    ensures
        count_up_to(values, bound) == count_up_to(values.remove(i), bound) + (if values[i].rank()
            <= bound {
            1nat
        } else {
            0
        }),
        count_from(values, bound) == count_from(values.remove(i), bound) + (if values[i].rank()
            >= bound {
            1nat
        } else {
            0
        }),
    decreases values.len(),
{
    if i == values.len() - 1 {
        assert(values.remove(i) =~= values.drop_last());
    } else {
        lemma_count_remove(values.drop_last(), bound, i);
        assert(values.drop_last().remove(i) =~= values.remove(i).drop_last());
        assert(values.remove(i).last() == values.last());
    }
}

/// Two lists of the same items are still so without the last one of the first.
pub proof fn lemma_take_out<T>(a: Seq<T>, b: Seq<T>) -> (k: int)
    requires
        a.to_multiset() == b.to_multiset(),
        a.len() > 0,
    ensures
        0 <= k < b.len(),
        b[k] == a.last(),
        a.len() == b.len(),
        a.drop_last().to_multiset() == b.remove(k).to_multiset(),
{
    let x = a.last();
    vstd::seq_lib::to_multiset_len(a);
    vstd::seq_lib::to_multiset_len(b);
    vstd::seq_lib::to_multiset_contains(a, x);
    vstd::seq_lib::to_multiset_contains(b, x);
    assert(a[a.len() - 1] == x);
    assert(a.contains(x));
    let k = choose|k: int| 0 <= k < b.len() && b[k] == x;
    vstd::seq_lib::to_multiset_remove(a, a.len() - 1);
    vstd::seq_lib::to_multiset_remove(b, k);
    assert(a.remove(a.len() - 1) =~= a.drop_last());
    k
}

/// The counts do not depend on the order.
proof fn lemma_count_of_permutation<T: Ranked>(a: Seq<T>, b: Seq<T>, bound: int)
    requires
        a.to_multiset() == b.to_multiset(),
    ensures
        count_up_to(a, bound) == count_up_to(b, bound),
        count_from(a, bound) == count_from(b, bound),
    decreases a.len(),
{
    vstd::seq_lib::to_multiset_len(a);
    vstd::seq_lib::to_multiset_len(b);
    if a.len() > 0 {
        let k = lemma_take_out(a, b);
        lemma_count_remove(b, bound, k);
        lemma_count_of_permutation(a.drop_last(), b.remove(k), bound);
    }
}

/// In order, all numbers up to a place count as at most the one there, and all from it on as at
/// least that.
proof fn lemma_count_in_order<T: Ranked>(sorted: Seq<T>, n: int, i: int)
    requires
        in_order(sorted),
        0 <= i < sorted.len(),
        0 <= n <= sorted.len(),
    ensures
        n <= i + 1 ==> count_up_to(sorted.take(n), sorted[i].rank()) == n,
        n > i ==> count_up_to(sorted.take(n), sorted[i].rank()) >= i + 1,
        n >= i ==> count_from(sorted.take(n), sorted[i].rank()) >= n - i,
    decreases n,
{
    if n > 0 {
        lemma_count_in_order(sorted, n - 1, i);
        assert(sorted.take(n).drop_last() =~= sorted.take(n - 1));
        assert(sorted.take(n).last() == sorted[n - 1]);
    }
}

/// The median splits the numbers evenly: at least half of them are no greater than the lower of
/// the two in the middle, at least half no less than the upper one, and both are among them. For
/// an odd number of them the two are the same.
pub proof fn law_median_halves<T: Ranked>(series: Series<T>, values: Seq<T>)
    requires
        is_series_of(series, values),
        values.len() > 0,
    ensures
        values.contains(middles(series).0),
        values.contains(middles(series).1),
        middles(series).0.rank() <= middles(series).1.rank(),
        2 * count_up_to(values, middles(series).0.rank()) >= values.len(),
        2 * count_from(values, middles(series).1.rank()) >= values.len(),
        values.len() % 2 == 1 ==> middles(series).0 == middles(series).1,
{
    let sorted = series.sorted@;
    let n = values.len() as int;
    vstd::seq_lib::to_multiset_len(sorted);
    vstd::seq_lib::to_multiset_len(values);
    assert(n == series.sorted.len());
    let (low, high) = if n % 2 == 1 {
        ((n - 1) / 2, (n - 1) / 2)
    } else {
        (n / 2 - 1, n / 2)
    };
    let (x, y) = middles(series);
    assert(x == sorted[low] && y == sorted[high]);
    lemma_count_in_order(sorted, n, low);
    lemma_count_in_order(sorted, n, high);
    assert(sorted.take(n) =~= sorted);
    lemma_count_of_permutation(sorted, values, x.rank());
    lemma_count_of_permutation(sorted, values, y.rank());
    vstd::seq_lib::to_multiset_contains(sorted, x);
    vstd::seq_lib::to_multiset_contains(values, x);
    vstd::seq_lib::to_multiset_contains(sorted, y);
    vstd::seq_lib::to_multiset_contains(values, y);
    assert(sorted.contains(sorted[low]) && sorted.contains(sorted[high]));
}

/// Two lists of the same items give the same results, item by item.
pub proof fn lemma_map_of_permutation<T, U>(a: Seq<T>, b: Seq<T>, f: spec_fn(T) -> U)
    requires
        a.to_multiset() == b.to_multiset(),
    ensures
        a.map_values(f).to_multiset() == b.map_values(f).to_multiset(),
    decreases a.len(),
{
    vstd::seq_lib::to_multiset_len(a);
    vstd::seq_lib::to_multiset_len(b);
    if a.len() == 0 {
        assert(a.map_values(f) =~= b.map_values(f));
    } else {
        let k = lemma_take_out(a, b);
        let x = f(a.last());
        lemma_map_of_permutation(a.drop_last(), b.remove(k), f);
        assert(a.map_values(f) =~= a.drop_last().map_values(f).push(x));
        assert(b.map_values(f) =~= b.remove(k).map_values(f).insert(k, x));
        vstd::seq_lib::to_multiset_build(a.drop_last().map_values(f), x);
        to_multiset_insert(b.remove(k).map_values(f), k, x);
    }
}

/// Two orderings of the same numbers agree in rank at every place.
pub proof fn lemma_same_ranks<T: Ranked>(a: Seq<T>, b: Seq<T>)
    requires
        in_order(a),
        in_order(b),
        a.to_multiset() == b.to_multiset(),
    ensures
        a.len() == b.len(),
        forall|i: int| 0 <= i < a.len() ==> (#[trigger] a[i]).rank() == b[i].rank(),
    decreases a.len(),
{
    vstd::seq_lib::to_multiset_len(a);
    vstd::seq_lib::to_multiset_len(b);
    if a.len() > 0 {
        let n = a.len() as int;
        let x = a.last();
        let k = lemma_take_out(a, b);
        vstd::seq_lib::to_multiset_contains(b, b.last());
        vstd::seq_lib::to_multiset_contains(a, b.last());
        assert(b[n - 1] == b.last());
        assert(b.contains(b.last()));
        let j = choose|j: int| 0 <= j < a.len() && a[j] == b.last();
        assert(a[j].rank() <= a[n - 1].rank());
        assert(b[k].rank() <= b[n - 1].rank());
        let rest = b.remove(k);
        assert forall|i: int, m: int| 0 <= i <= m < rest.len() implies (#[trigger] rest[i]).rank()
            <= (#[trigger] rest[m]).rank() by {
            let p = if i < k { i } else { i + 1 };
            let q = if m < k { m } else { m + 1 };
            assert(rest[i] == b[p] && rest[m] == b[q]);
        }
        lemma_same_ranks(a.drop_last(), rest);
        assert forall|i: int| 0 <= i < n implies (#[trigger] a[i]).rank() == b[i].rank() by {
            if i >= k {
                assert(b[k].rank() <= b[i].rank() <= b[n - 1].rank());
            }
            if i < n - 1 {
                assert(a.drop_last()[i] == a[i]);
                if i < k {
                    assert(rest[i] == b[i]);
                } else {
                    assert(rest[i] == b[i + 1]);
                    assert(b[k].rank() <= b[i + 1].rank() <= b[n - 1].rank());
                }
            }
        }
    }
}

/// Two series hold equal numbers at every place, and their medians come from the same places.
pub open spec fn same_series<T: Ranked>(a: Series<T>, b: Series<T>) -> bool {
    &&& a.middle == b.middle
    &&& a.sorted@.len() == b.sorted@.len()
    &&& forall|i: int|
        0 <= i < a.sorted@.len() ==> (#[trigger] a.sorted@[i]).rank() == b.sorted@[i].rank()
}

/// It does not matter in which order numbers come: their series are the same, and with them the
/// median and the ends.
pub proof fn law_order_of_numbers_plays_no_part<T: Ranked>(
    x: Series<T>,
    a: Seq<T>,
    y: Series<T>,
    b: Seq<T>,
)
    requires
        is_series_of(x, a),
        is_series_of(y, b),
        a.to_multiset() == b.to_multiset(),
    ensures
        same_series(x, y),
        a.len() > 0 ==> middles(x).0.rank() == middles(y).0.rank() && middles(x).1.rank()
            == middles(y).1.rank(),
{
    vstd::seq_lib::to_multiset_len(a);
    vstd::seq_lib::to_multiset_len(b);
    vstd::seq_lib::to_multiset_len(x.sorted@);
    lemma_same_ranks(x.sorted@, y.sorted@);
    if a.len() > 0 {
        assert(a.len() == x.sorted.len());
        match x.middle {
            Middle::At(i) => {
                assert(x.sorted@[i as int].rank() == y.sorted@[i as int].rank());
            },
            Middle::AtAndNext(i) => {
                assert(x.sorted@[i as int].rank() == y.sorted@[i as int].rank());
                assert(x.sorted@[i + 1].rank() == y.sorted@[i + 1].rank());
            },
            Middle::Nowhere => {},
        }
    }
}

/// Numbers of the same rank are the same number, but that there are two zeros in floating point.
pub proof fn law_rank_tells_numbers_apart(a: Single, b: Single, c: Double, d: Double)
    ensures
        a.rank() == b.rank() ==> a == b || (a.rank() == 0 && a.bits % 0x8000_0000 == 0 && b.bits
            % 0x8000_0000 == 0),
        c.rank() == d.rank() ==> c == d || (c.rank() == 0 && c.bits % 0x8000_0000_0000_0000 == 0
            && d.bits % 0x8000_0000_0000_0000 == 0),
{
}

/// The order of floating-point numbers: all but the NaNs have a place in it; the sign bit turns the
/// rank around, so that negative numbers stand before positive ones; and among numbers of one sign
/// the bits decide.
pub proof fn law_rank_orders_numbers(a: Single, b: Single, c: Double, d: Double)
    ensures
        a.has_rank() <==> a.bits % 0x8000_0000 <= 0x7f80_0000,
        c.has_rank() <==> c.bits % 0x8000_0000_0000_0000 <= 0x7ff0_0000_0000_0000,
        a.bits < 0x8000_0000 && b.bits == a.bits + 0x8000_0000 ==> b.rank() == -a.rank(),
        c.bits < 0x8000_0000_0000_0000 && d.bits == c.bits + 0x8000_0000_0000_0000 ==> d.rank()
            == -c.rank(),
        a.bits < b.bits < 0x8000_0000 ==> a.rank() < b.rank(),
        c.bits < d.bits < 0x8000_0000_0000_0000 ==> c.rank() < d.rank(),
        a.bits < 0x8000_0000 ==> a.rank() >= 0,
        c.bits < 0x8000_0000_0000_0000 ==> c.rank() >= 0,
{
}

/// A sorted list holds every text of the other as often as that does, and no text stands behind a
/// greater one.
pub proof fn law_sorted_texts_stand_in_order(
    sorted: Seq<Seq<char>>,
    list: Seq<Seq<char>>,
    i: int,
    j: int,
)
    requires
        is_sorting_of(sorted, list),
        0 <= i <= j < sorted.len(),
    ensures
        text_le(sorted[i], sorted[j]),
        sorted.len() == list.len(),
        sorted.to_multiset() == list.to_multiset(),
{
    vstd::seq_lib::to_multiset_len(sorted);
    vstd::seq_lib::to_multiset_len(list);
}

/// A series holds every number as often as it came, from the least to the greatest.
pub proof fn law_series_stand_in_order<T: Ranked>(series: Series<T>, values: Seq<T>, i: int, j: int)
    requires
        is_series_of(series, values),
        0 <= i <= j < series.sorted@.len(),
    ensures
        series.sorted@[i].rank() <= series.sorted@[j].rank(),
        series.sorted@.to_multiset() == values.to_multiset(),
        series.sorted@.len() == values.len(),
{
    vstd::seq_lib::to_multiset_len(series.sorted@);
    vstd::seq_lib::to_multiset_len(values);
}

} // verus!
