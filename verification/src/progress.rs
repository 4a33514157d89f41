//! How much there is to download, and how much has arrived.
use vstd::prelude::*;

verus! {

/// The bytes that have arrived, and the bytes that the started downloads are said to have. Both
/// counters wrap around, as those of a machine do.
#[derive(Debug, Clone, Copy, PartialEq, Eq, Structural)]
pub struct Progress {
    pub current: usize,
    pub total: usize,
}

/// What is shown of the progress.
#[derive(Debug, Clone, Copy, PartialEq, Eq, Structural)]
pub enum Report {
    /// No download was started.
    Complete,
    /// `current` of `total` bytes have arrived.
    Running { current: usize, total: usize },
}

/// The value that a counter shows for `count`.
pub open spec fn wrapped(count: int) -> usize {
    (count % (usize::MAX + 1)) as usize
}

/// The total after a decision about a file of `size` bytes: it grows where the file is fetched.
pub open spec fn total_after(total: usize, fetched: bool, size: usize) -> usize {
    if fetched {
        wrapped(total + size)
    } else {
        total
    }
}

impl Progress {
    /// Nothing to download yet.
    pub fn new() -> (progress: Progress)
        ensures
            progress == (Progress { current: 0, total: 0 }),
    {
        Progress { current: 0, total: 0 }
    }

    /// Counts a download of `size` bytes as started.
    pub fn start_download(&mut self, size: usize)
        ensures
            final(self).total == wrapped(old(self).total + size),
            final(self).current == old(self).current,
    {
        self.total = wrapping_sum(self.total, size);
    }

    /// Counts a piece of `len` bytes as arrived.
    pub fn record_chunk(&mut self, len: usize)
        ensures
            final(self).current == wrapped(old(self).current + len),
            final(self).total == old(self).total,
    {
        self.current = wrapping_sum(self.current, len);
    }

    /// Adds what was counted apart, from zero, in `other`.
    pub fn merge(&mut self, other: &Progress)
        ensures
            final(self).total == wrapped(old(self).total + other.total),
            final(self).current == wrapped(old(self).current + other.current),
    {
        self.start_download(other.total);
        self.record_chunk(other.current);
    }

    /// What to show: that everything is there, where no bytes are to be downloaded, and the two
    /// counters otherwise.
    pub fn report(&self) -> (report: Report)
        ensures
            report == if self.total == 0 {
                Report::Complete
            } else {
                Report::Running { current: self.current, total: self.total }
            },
    {
        if self.total == 0 {
            Report::Complete
        } else {
            Report::Running { current: self.current, total: self.total }
        }
    }
}

fn wrapping_sum(left: usize, right: usize) -> (result: usize)
    ensures
        result == wrapped(left + right),
{
    proof {
        lemma_wrapped_sum(left, right);
    }
    left.wrapping_add(right)
}

proof fn lemma_wrapped_sum(left: usize, right: usize)
    ensures
        wrapped(left + right) == if left + right > usize::MAX {
            left + right - (usize::MAX + 1)
        } else {
            left + right
        },
{
    let m = usize::MAX + 1;
    if left + right > usize::MAX {
        vstd::arithmetic::div_mod::lemma_mod_add_multiples_vanish(left + right - m, m);
        vstd::arithmetic::div_mod::lemma_small_mod((left + right - m) as nat, m as nat);
    } else {
        vstd::arithmetic::div_mod::lemma_small_mod((left + right) as nat, m as nat);
    }
}

/// To count a decision apart, from zero, and add the result is to count it at once.
pub proof fn law_counting_apart_is_counting_at_once(total: usize, fetched: bool, size: usize)
    ensures
        wrapped(total + total_after(0, fetched, size)) == total_after(total, fetched, size),
{
    lemma_wrapped_sum(0, size);
    lemma_wrapped_sum(total, 0);
}

/// The value of a counter that stood at `start`, after each of `amounts` was added to it in turn.
pub open spec fn counted(start: usize, amounts: Seq<usize>) -> usize
    decreases amounts.len(),
{
    if amounts.len() == 0 {
        start
    } else {
        wrapped(counted(start, amounts.drop_last()) + amounts.last())
    }
}

/// The sum of the amounts.
pub open spec fn sum(amounts: Seq<usize>) -> int
    decreases amounts.len(),
{
    if amounts.len() == 0 {
        0
    } else {
        sum(amounts.drop_last()) + amounts.last()
    }
}

/// A counter shows the sum of everything that was added to it, as far as it can hold it.
pub proof fn law_counter_shows_the_sum(start: usize, amounts: Seq<usize>)
    ensures
        counted(start, amounts) == wrapped(start + sum(amounts)),
    decreases amounts.len(),
{
    let m = usize::MAX + 1;
    if amounts.len() == 0 {
        vstd::arithmetic::div_mod::lemma_small_mod(start as nat, m as nat);
    } else {
        let front = amounts.drop_last();
        law_counter_shows_the_sum(start, front);
        vstd::arithmetic::div_mod::lemma_mod_bound(start + sum(front), m);
        vstd::arithmetic::div_mod::lemma_add_mod_noop(
            start + sum(front),
            amounts.last() as int,
            m,
        );
        vstd::arithmetic::div_mod::lemma_add_mod_noop(
            counted(start, front) as int,
            amounts.last() as int,
            m,
        );
        vstd::arithmetic::div_mod::lemma_small_mod(counted(start, front) as nat, m as nat);
    }
}

proof fn lemma_sum_of_removed(amounts: Seq<usize>, k: int)
    requires
        0 <= k < amounts.len(),
    ensures
        sum(amounts) == sum(amounts.remove(k)) + amounts[k],
    decreases amounts.len(),
{
    if k == amounts.len() - 1 {
        assert(amounts.remove(k) =~= amounts.drop_last());
    } else {
        lemma_sum_of_removed(amounts.drop_last(), k);
        assert(amounts.remove(k).drop_last() =~= amounts.drop_last().remove(k));
        assert(amounts.remove(k).last() == amounts.last());
    }
}

/// The sum of amounts does not depend on the order of what they are the amounts of.
proof fn lemma_sum_ignores_order<A>(left: Seq<A>, right: Seq<A>, amount: spec_fn(A) -> usize)
    requires
        left.to_multiset() == right.to_multiset(),
    ensures
        sum(left.map_values(amount)) == sum(right.map_values(amount)),
    decreases left.len(),
{
    broadcast use vstd::seq_lib::group_to_multiset_ensures;

    assert(left.len() == left.to_multiset().len());
    assert(right.len() == right.to_multiset().len());
    if left.len() > 0 {
        let last = left.last();
        assert(left[left.len() - 1] == last);
        assert(left.contains(last));
        assert(right.to_multiset().count(last) > 0);
        assert(right.contains(last));
        let k = right.index_of(last);
        assert(left.remove(left.len() - 1) =~= left.drop_last());
        assert(left.drop_last().to_multiset() =~= right.remove(k).to_multiset());
        lemma_sum_ignores_order(left.drop_last(), right.remove(k), amount);
        lemma_sum_of_removed(right.map_values(amount), k);
        assert(right.map_values(amount).remove(k) =~= right.remove(k).map_values(amount));
        assert(left.map_values(amount).drop_last() =~= left.drop_last().map_values(amount));
    }
}

/// The order in which downloads start, or pieces of them arrive, does not show in the counters.
pub proof fn law_counters_ignore_order(start: usize, left: Seq<usize>, right: Seq<usize>)
    requires
        left.to_multiset() == right.to_multiset(),
    ensures
        counted(start, left) == counted(start, right),
{
    let amount = |amount: usize| amount;
    lemma_sum_ignores_order(left, right, amount);
    assert(left.map_values(amount) =~= left);
    assert(right.map_values(amount) =~= right);
    law_counter_shows_the_sum(start, left);
    law_counter_shows_the_sum(start, right);
}

/// A decision about one file: whether it is fetched, and its size.
pub type Decision = (bool, usize);

/// The bytes that a decision adds to the total.
pub open spec fn amount(decision: Decision) -> usize {
    if decision.0 {
        decision.1
    } else {
        0
    }
}

/// The total after each of `decisions` was taken in turn.
pub open spec fn total_after_all(start: usize, decisions: Seq<Decision>) -> usize
    decreases decisions.len(),
{
    if decisions.len() == 0 {
        start
    } else {
        total_after(
            total_after_all(start, decisions.drop_last()),
            decisions.last().0,
            decisions.last().1,
        )
    }
}

/// The total shows the sum of the sizes of the files that are fetched.
pub proof fn law_total_is_the_sum(start: usize, decisions: Seq<Decision>)
    ensures
        total_after_all(start, decisions) == wrapped(
            start + sum(decisions.map_values(|decision: Decision| amount(decision))),
        ),
    decreases decisions.len(),
{
    let amounts = |decision: Decision| amount(decision);
    law_counter_shows_the_sum(start, decisions.map_values(amounts));
    if decisions.len() > 0 {
        let front = decisions.drop_last();
        law_total_is_the_sum(start, front);
        law_counter_shows_the_sum(start, front.map_values(amounts));
        assert(decisions.map_values(amounts).drop_last() =~= front.map_values(amounts));
        vstd::arithmetic::div_mod::lemma_small_mod(
            total_after_all(start, front) as nat,
            (usize::MAX + 1) as nat,
        );
    }
}

/// The order in which the files are decided about does not show in the total.
pub proof fn law_total_ignores_order(start: usize, left: Seq<Decision>, right: Seq<Decision>)
    requires
        left.to_multiset() == right.to_multiset(),
    ensures
        total_after_all(start, left) == total_after_all(start, right),
{
    law_total_is_the_sum(start, left);
    law_total_is_the_sum(start, right);
    lemma_sum_ignores_order(left, right, |decision: Decision| amount(decision));
}

/// To decide about the files of two lists put together is to decide about the one list and then
/// about the other.
pub proof fn law_total_of_two_lists(start: usize, first: Seq<Decision>, second: Seq<Decision>)
    ensures
        total_after_all(start, first + second) == total_after_all(
            total_after_all(start, first),
            second,
        ),
    decreases second.len(),
{
    if second.len() == 0 {
        assert(first + second =~= first);
    } else {
        law_total_of_two_lists(start, first, second.drop_last());
        assert((first + second).drop_last() =~= first + second.drop_last());
    }
}

/// Where nothing is fetched, the total stays what it was.
pub proof fn law_nothing_fetched_nothing_counted(start: usize, decisions: Seq<Decision>)
    requires
        forall|i: int| 0 <= i < decisions.len() ==> !(#[trigger] decisions[i]).0,
    ensures
        total_after_all(start, decisions) == start,
    decreases decisions.len(),
{
    if decisions.len() > 0 {
        assert(!decisions[decisions.len() - 1].0);
        law_nothing_fetched_nothing_counted(start, decisions.drop_last());
    }
}

/// A counter shows the count itself as long as it can hold it, and starts again from zero where it
/// cannot.
pub proof fn law_counters_wrap_around(count: int)
    ensures
        0 <= count <= usize::MAX ==> wrapped(count) == count,
        wrapped(count + usize::MAX + 1) == wrapped(count),
{
    let m = usize::MAX + 1;
    if 0 <= count <= usize::MAX {
        vstd::arithmetic::div_mod::lemma_small_mod(count as nat, m as nat);
    }
    vstd::arithmetic::div_mod::lemma_mod_add_multiples_vanish(count, m);
}

/// A file that is fetched adds its size to the total, and one that is not adds nothing.
pub proof fn law_only_fetched_files_are_counted(total: usize, size: usize)
    ensures
        total_after(total, false, size) == total,
        total + size <= usize::MAX ==> total_after(total, true, size) == total + size,
        total + size > usize::MAX ==> total_after(total, true, size) == total + size
            - usize::MAX - 1,
{
    lemma_wrapped_sum(total, size);
}

/// The sum of amounts grows by each amount that is put to them.
pub proof fn law_sum_adds_each_amount(amounts: Seq<usize>, amount: usize)
    ensures
        sum(Seq::<usize>::empty()) == 0,
        sum(amounts.push(amount)) == sum(amounts) + amount,
{
    assert(amounts.push(amount).drop_last() =~= amounts);
}

} // verus!
