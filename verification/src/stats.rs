//! Order statistics of small samples.
use vstd::prelude::*;
use vstd::relations::*;
use vstd::seq_lib::*;

verus! {

/// The numbers of a sample.
pub open spec fn ints(values: Seq<i128>) -> Seq<int> {
    values.map_values(|value: i128| value as int)
}

/// Every number of a sample lies within the given distance of zero.
pub open spec fn all_within(values: Seq<i128>, limit: int) -> bool {
    forall|index: int| 0 <= index < values.len() ==> -limit <= #[trigger] values[index] <= limit
}

/// Twice the median: the sum of the two middle values, or the middle value twice.
pub open spec fn twice_median(values: Seq<int>) -> int {
    let ordered = values.sort();
    let middle = values.len() as int / 2;
    if values.len() % 2 == 0 {
        ordered[middle - 1] + ordered[middle]
    } else {
        2 * ordered[middle]
    }
}

/// The value two thirds up the sorted sample.
pub open spec fn upper_tertile_of(values: Seq<int>) -> int {
    values.sort()[(values.len() - 1) * 2 / 3]
}

proof fn insertion_keeps_order(ordered: Seq<i128>, at: int, value: i128)
    requires
        0 <= at <= ordered.len(),
        forall|i: int, j: int| 0 <= i <= j < ordered.len() ==> ordered[i] <= ordered[j],
        forall|i: int| 0 <= i < at ==> ordered[i] <= value,
        at < ordered.len() ==> value < ordered[at],
    ensures
        forall|i: int, j: int|
            0 <= i <= j < ordered.insert(at, value).len() ==> ordered.insert(at, value)[i]
                <= ordered.insert(at, value)[j],
{
    let grown = ordered.insert(at, value);
    assert forall|i: int, j: int| 0 <= i <= j < grown.len() implies grown[i] <= grown[j] by {
        if at < ordered.len() && j > at {
            assert(ordered[at] <= ordered[j - 1]);
        }
    }
}

/// The sample in ascending order.
pub fn sorted(values: &Vec<i128>) -> (ordered: Vec<i128>)
    ensures
        ordered@.len() == values@.len(),
        ints(ordered@) == ints(values@).sort(),
        forall|index: int|
            0 <= index < ordered@.len() ==> values@.contains(#[trigger] ordered@[index]),
{
    broadcast use group_to_multiset_ensures;

    let mut ordered: Vec<i128> = Vec::new();
    let mut index: usize = 0;
    while index < values.len()
        invariant
            index <= values.len(),
            ordered@.len() == index,
            ints(ordered@).to_multiset() =~= ints(values@.take(index as int)).to_multiset(),
            forall|i: int, j: int| 0 <= i <= j < ordered@.len() ==> ordered@[i] <= ordered@[j],
        decreases values.len() - index,
    {
        let value: i128 = values[index];
        let mut at: usize = 0;
        while at < ordered.len() && ordered[at] <= value
            invariant
                at <= ordered.len(),
                forall|i: int| 0 <= i < at ==> ordered@[i] <= value,
            decreases ordered.len() - at,
        {
            at = at + 1;
        }
        proof {
            insertion_keeps_order(ordered@, at as int, value);
            assert(ints(values@.take(index + 1)) =~= ints(values@.take(index as int)).push(
                value as int,
            ));
            assert(ints(ordered@.insert(at as int, value)) =~= ints(ordered@).insert(
                at as int,
                value as int,
            ));
            to_multiset_insert(ints(ordered@), at as int, value as int);
            to_multiset_build(ints(values@.take(index as int)), value as int);
        }
        ordered.insert(at, value);
        index = index + 1;
    }
    proof {
        assert(values@.take(values@.len() as int) =~= values@);
        let leq = |x: int, y: int| x <= y;
        let all = ints(values@);
        let done = ints(ordered@);
        assert forall|i: int| 0 <= i < ordered@.len() implies values@.contains(
            #[trigger] ordered@[i],
        ) by {
            assert(done.contains(done[i]));
            to_multiset_contains(done, done[i]);
            to_multiset_contains(all, done[i]);
            assert(all.contains(done[i]));
            let at = choose|at: int| 0 <= at < all.len() && #[trigger] all[at] == done[i];
            assert(values@[at] == ordered@[i]);
        }
        all.lemma_sort_ensures();
        assert(sorted_by(done, leq));
        assert(total_ordering(leq));
        lemma_sorted_unique(done, all.sort(), leq);
    }
    ordered
}

/// The median of a sample lies between its bounds.
pub proof fn twice_median_between(values: Seq<i128>, low: int, high: int)
    requires
        values.len() > 0,
        forall|index: int| 0 <= index < values.len() ==> low <= #[trigger] values[index] <= high,
    ensures
        2 * low <= twice_median(ints(values)) <= 2 * high,
{
    broadcast use group_to_multiset_ensures;

    let all = ints(values);
    let ordered = all.sort();
    all.lemma_sort_ensures();
    assert(ordered.to_multiset().len() == all.to_multiset().len());
    assert(ordered.len() == all.len());
    assert forall|i: int| 0 <= i < ordered.len() implies low <= #[trigger] ordered[i] <= high by {
        assert(ordered.contains(ordered[i]));
        assert(ordered.to_multiset().count(ordered[i]) > 0);
        assert(all.contains(ordered[i]));
        let at = choose|at: int| 0 <= at < all.len() && #[trigger] all[at] == ordered[i];
        assert(values[at] == ordered[i]);
    }
}

/// Twice the median of a sample, or nothing for an empty one.
pub fn interpolated_median(values: &Vec<i128>) -> (twice: Option<i128>)
    requires
        all_within(values@, 0x1000_0000_0000_0000_0000_0000_0000_0000),
    ensures
        match twice {
            Some(median) => values@.len() > 0 && median == twice_median(ints(values@)),
            None => values@.len() == 0,
        },
{
    if values.len() == 0 {
        return None;
    }
    let ordered = sorted(values);
    let middle: usize = ordered.len() / 2;
    proof {
        let s = ints(ordered@);
        assert(s[middle as int] == ordered@[middle as int]);
        assert(values@.contains(ordered@[middle as int]));
        if ordered@.len() % 2 == 0 {
            assert(s[middle - 1] == ordered@[middle - 1]);
            assert(values@.contains(ordered@[middle - 1]));
        }
    }
    if ordered.len() % 2 == 0 {
        Some(ordered[middle - 1] + ordered[middle])
    } else {
        Some(2 * ordered[middle])
    }
}

/// The value two thirds up the sorted sample.
pub fn upper_tertile(values: &Vec<i128>) -> (value: i128)
    requires
        values@.len() > 0,
    ensures
        value == upper_tertile_of(ints(values@)),
        values@.contains(value),
{
    let ordered = sorted(values);
    let last: usize = ordered.len() - 1;
    let above: usize = if last % 3 == 0 {
        last / 3
    } else {
        last / 3 + 1
    };
    let at: usize = last - above;
    assert(ints(ordered@)[at as int] == ordered@[at as int]);
    ordered[at]
}

/// How many of the numbers are at most `limit`.
pub open spec fn at_most(values: Seq<int>, limit: int) -> nat {
    values.to_multiset().filter(|value: int| value <= limit).len()
}

/// How many of the numbers are at least `limit`.
pub open spec fn at_least(values: Seq<int>, limit: int) -> nat {
    values.to_multiset().filter(|value: int| value >= limit).len()
}

proof fn kept_numbers_are_counted(values: Seq<int>, keep: spec_fn(int) -> bool, count: int)
    requires
        0 <= count <= values.len(),
        forall|at: int| 0 <= at < count ==> keep(#[trigger] values[at]),
    ensures
        values.to_multiset().filter(keep).len() >= count,
    decreases values.len(),
{
    broadcast use {group_to_multiset_ensures, vstd::multiset::group_multiset_axioms};

    if values.len() > 0 {
        let front = values.drop_last();
        let last = values.last();
        assert(values =~= front.push(last));
        to_multiset_build(front, last);
        let some = front.to_multiset();
        assert(values.to_multiset() =~= some.insert(last));
        if keep(last) {
            assert(some.insert(last).filter(keep) =~= some.filter(keep).insert(last));
        } else {
            assert(some.insert(last).filter(keep) =~= some.filter(keep));
        }
        if count == values.len() {
            assert(keep(values[count - 1]));
            kept_numbers_are_counted(front, keep, count - 1);
        } else {
            kept_numbers_are_counted(front, keep, count);
        }
    }
}

proof fn order_counts_the_numbers(values: Seq<int>, at: int)
    requires
        0 <= at < values.len(),
    ensures
        values.sort().len() == values.len(),
        values.contains(values.sort()[at]),
        at_most(values, values.sort()[at]) >= at + 1,
        at_least(values, values.sort()[at]) >= values.len() - at,
{
    broadcast use group_to_multiset_ensures;

    let ordered = values.sort();
    let leq = |x: int, y: int| x <= y;
    values.lemma_sort_ensures();
    assert(ordered.to_multiset().len() == values.to_multiset().len());
    assert(ordered.contains(ordered[at]));
    to_multiset_contains(ordered, ordered[at]);
    to_multiset_contains(values, ordered[at]);
    let limit = ordered[at];
    let low = |value: int| value <= limit;
    let high = |value: int| value >= limit;
    assert forall|i: int| 0 <= i < at + 1 implies low(#[trigger] ordered[i]) by {
        if i < at {
            assert(leq(ordered[i], ordered[at]));
        }
    }
    kept_numbers_are_counted(ordered, low, at + 1);
    let back = ordered.reverse();
    assert(back.to_multiset() =~= ordered.to_multiset()) by {
        reversing_keeps_the_numbers(ordered);
    }
    assert forall|i: int| 0 <= i < ordered.len() - at implies high(#[trigger] back[i]) by {
        let place = ordered.len() - 1 - i;
        assert(back[i] == ordered[place]);
        if place > at {
            assert(leq(ordered[at], ordered[place]));
        }
    }
    kept_numbers_are_counted(back, high, ordered.len() - at);
}

proof fn reversing_keeps_the_numbers(values: Seq<int>)
    ensures
        values.reverse().to_multiset() =~= values.to_multiset(),
    decreases values.len(),
{
    broadcast use group_to_multiset_ensures;

    if values.len() > 0 {
        let front = values.drop_last();
        let last = values.last();
        reversing_keeps_the_numbers(front);
        assert(values =~= front.push(last));
        assert(values.reverse() =~= front.reverse().insert(0, last));
        to_multiset_insert(front.reverse(), 0, last);
        to_multiset_build(front, last);
    } else {
        assert(values.reverse() =~= values);
    }
}

/// The median halves a sample. It is the mean of two of its numbers: at least half are not above
/// the first and more than half not below it; more than half are not above the second and at least
/// half not below it. In a sample of odd length the two are the same.
pub proof fn medians_halve_the_sample(values: Seq<int>)
    requires
        values.len() > 0,
    ensures
        exists|low: int, high: int|
            #![trigger at_most(values, low), at_least(values, high)]
            {
                &&& twice_median(values) == low + high
                &&& values.contains(low) && values.contains(high)
                &&& values.len() % 2 == 1 ==> low == high
                &&& 2 * at_most(values, low) >= values.len()
                &&& 2 * at_least(values, low) > values.len()
                &&& 2 * at_most(values, high) > values.len()
                &&& 2 * at_least(values, high) >= values.len()
            },
{
    let ordered = values.sort();
    let middle = values.len() as int / 2;
    let (low, high) = if values.len() % 2 == 0 {
        (ordered[middle - 1], ordered[middle])
    } else {
        (ordered[middle], ordered[middle])
    };
    order_counts_the_numbers(values, middle);
    if values.len() % 2 == 0 {
        order_counts_the_numbers(values, middle - 1);
    }
    assert(2 * at_most(values, low) >= values.len());
    assert(2 * at_least(values, high) >= values.len());
}

/// The upper tertile is a number of the sample that at least a third of the numbers reach, and that
/// at least two thirds do not exceed but for the rounding to a whole place.
pub proof fn tertiles_part_the_sample(values: Seq<int>)
    requires
        values.len() > 0,
    ensures
        values.contains(upper_tertile_of(values)),
        3 * at_least(values, upper_tertile_of(values)) >= values.len() + 2,
        3 * at_most(values, upper_tertile_of(values)) >= 2 * values.len() - 1,
{
    order_counts_the_numbers(values, (values.len() - 1) * 2 / 3);
}

} // verus!
