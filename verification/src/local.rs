use vstd::prelude::*;
use crate::offsets::{
    chain_of, chain_sum, leaf_index, leaves_below, valid_path, OffsetTable,
};

verus! {

/// One thread's tree, as far as counting and flushing go: the shape of the
/// tree, what each leaf holds that the shared metric has not seen, and when
/// the tree was last flushed by itself.
pub struct RootView {
    pub counts: Seq<usize>,
    pub pending: Seq<u64>,
    pub last_flush: u64,
}

/// What happens to a thread's tree: a leaf is touched with an amount at
/// some time, or the thread forces a flush.
pub enum Event {
    Touch { leaf: int, amount: u64, now: u64 },
    Flush,
}

/// `n` leaves that hold nothing.
pub open spec fn zeros(n: nat) -> Seq<u64> {
    Seq::new(n, |i: int| 0u64)
}

/// A tree that was last flushed at `last_flush` flushes itself when touched
/// at `now`: at least `interval` has passed.
pub open spec fn flush_due(last_flush: u64, now: u64, interval: u64) -> bool {
    now >= last_flush && now - last_flush >= interval
}

/// What the leaves hold once `amount` is added to `leaf`.
pub open spec fn added(s: RootView, leaf: int, amount: u64) -> Seq<u64> {
    s.pending.update(leaf, (s.pending[leaf] + amount) as u64)
}

/// The tree after a touch: the amount is added to the leaf, and if the
/// flush is due, everything is handed over and the time is noted.
pub open spec fn touched(s: RootView, leaf: int, amount: u64, now: u64, interval: u64)
    -> RootView {
    if flush_due(s.last_flush, now, interval) {
        RootView { counts: s.counts, pending: zeros(s.pending.len()), last_flush: now }
    } else {
        RootView { counts: s.counts, pending: added(s, leaf, amount), last_flush: s.last_flush }
    }
}

/// What a touch hands over to the shared metric: everything that the
/// leaves hold, if the flush is due, and nothing otherwise.
pub open spec fn touch_batch(s: RootView, leaf: int, amount: u64, now: u64, interval: u64)
    -> Option<Seq<u64>> {
    if flush_due(s.last_flush, now, interval) {
        Some(added(s, leaf, amount))
    } else {
        None
    }
}

/// The tree after a forced flush: no leaf holds anything. The time of the
/// last flush by itself stays.
pub open spec fn flushed(s: RootView) -> RootView {
    RootView { counts: s.counts, pending: zeros(s.pending.len()), last_flush: s.last_flush }
}

/// The tree after one event.
pub open spec fn after(s: RootView, e: Event, interval: u64) -> RootView {
    match e {
        Event::Touch { leaf, amount, now } => touched(s, leaf, amount, now, interval),
        Event::Flush => flushed(s),
    }
}

/// The tree after the events, in their order.
pub open spec fn after_all(s: RootView, events: Seq<Event>, interval: u64) -> RootView
    decreases events.len(),
{
    if events.len() == 0 {
        s
    } else {
        after(after_all(s, events.drop_last(), interval), events.last(), interval)
    }
}

/// What the shared metric shows once a batch is merged into it.
pub open spec fn merged(shared: Seq<int>, batch: Seq<u64>) -> Seq<int> {
    Seq::new(
        shared.len(),
        |i: int|
            if i < batch.len() {
                shared[i] + batch[i]
            } else {
                shared[i]
            },
    )
}

/// One touch of `leaf` by 1 at each of the times `nows`.
pub open spec fn touches(leaf: int, nows: Seq<u64>) -> Seq<Event> {
    Seq::new(nows.len(), |i: int| Event::Touch { leaf, amount: 1, now: nows[i] })
}

/// No flush is due at any of the times.
pub open spec fn none_due(last_flush: u64, nows: Seq<u64>, interval: u64) -> bool {
    forall|i: int| 0 <= i < nows.len() ==> !flush_due(last_flush, #[trigger] nows[i], interval)
}

/// Events change neither the shape of the tree nor the number of its
/// leaves.
pub proof fn lemma_shape_is_kept(s: RootView, events: Seq<Event>, interval: u64)
    requires
        forall|i: int|
            0 <= i < events.len() ==> (#[trigger] events[i] matches Event::Touch { leaf, .. }
                ==> 0 <= leaf < s.pending.len()),
    ensures
        after_all(s, events, interval).counts == s.counts,
        after_all(s, events, interval).pending.len() == s.pending.len(),
    decreases events.len(),
{
    if events.len() > 0 {
        let front = events.drop_last();
        assert forall|i: int| 0 <= i < front.len() implies (#[trigger] front[i] matches Event::Touch {
            leaf,
            ..
        } ==> 0 <= leaf < s.pending.len()) by {
            assert(front[i] == events[i]);
        }
        lemma_shape_is_kept(s, front, interval);
        assert(events.last() == events[events.len() - 1]);
    }
}

/// Repeated resolutions of a label path yield the same leaf: whatever
/// happens to a thread's tree in between, a path is valid afterwards
/// exactly if it was before, has the same offset chain, and leads to the
/// leaf of the same index among as many leaves.
pub proof fn lemma_resolution_is_stable(
    s: RootView,
    events: Seq<Event>,
    interval: u64,
    path: Seq<usize>,
)
    requires
        forall|i: int|
            0 <= i < events.len() ==> (#[trigger] events[i] matches Event::Touch { leaf, .. }
                ==> 0 <= leaf < s.pending.len()),
    ensures
        valid_path(after_all(s, events, interval).counts, path) == valid_path(s.counts, path),
        chain_of(after_all(s, events, interval).counts, path) == chain_of(s.counts, path),
        leaf_index(after_all(s, events, interval).counts, path) == leaf_index(s.counts, path),
        after_all(s, events, interval).pending.len() == s.pending.len(),
{
    lemma_shape_is_kept(s, events, interval);
}

/// While no flush is due, touches of a leaf add up in that leaf, leave the
/// other leaves alone, and do not move the time of the last flush.
pub proof fn lemma_touches_add_up(s: RootView, leaf: int, nows: Seq<u64>, interval: u64)
    requires
        0 <= leaf < s.pending.len(),
        none_due(s.last_flush, nows, interval),
        s.pending[leaf] + nows.len() <= u64::MAX,
    ensures
        after_all(s, touches(leaf, nows), interval).pending == s.pending.update(
            leaf,
            (s.pending[leaf] + nows.len()) as u64,
        ),
        after_all(s, touches(leaf, nows), interval).last_flush == s.last_flush,
        after_all(s, touches(leaf, nows), interval).counts == s.counts,
    decreases nows.len(),
{
    let events = touches(leaf, nows);
    if nows.len() == 0 {
        assert(s.pending.update(leaf, s.pending[leaf]) =~= s.pending);
    } else {
        let front = nows.drop_last();
        assert(events.drop_last() =~= touches(leaf, front));
        assert forall|i: int| 0 <= i < front.len() implies !flush_due(
            s.last_flush,
            #[trigger] front[i],
            interval,
        ) by {
            assert(front[i] == nows[i]);
        }
        lemma_touches_add_up(s, leaf, front, interval);
        let t = after_all(s, touches(leaf, front), interval);
        assert(events.last() == Event::Touch { leaf, amount: 1, now: nows.last() });
        assert(nows.last() == nows[nows.len() - 1]);
        assert(after_all(s, events, interval).pending =~= s.pending.update(
            leaf,
            (s.pending[leaf] + nows.len()) as u64,
        ));
    }
}

/// Incrementing a leaf `n` times and then forcing a flush increases what
/// the shared metric shows for that leaf by exactly `n` (more what the leaf
/// held before), and afterwards no leaf of the thread holds anything.
pub proof fn lemma_flush_hands_over_increments(
    s: RootView,
    shared: Seq<int>,
    leaf: int,
    nows: Seq<u64>,
    interval: u64,
)
    requires
        0 <= leaf < s.pending.len(),
        shared.len() == s.pending.len(),
        none_due(s.last_flush, nows, interval),
        s.pending[leaf] + nows.len() <= u64::MAX,
    ensures
        ({
            let t = after_all(s, touches(leaf, nows), interval);
            &&& merged(shared, t.pending)[leaf] == shared[leaf] + s.pending[leaf] + nows.len()
            &&& forall|other: int|
                0 <= other < shared.len() && other != leaf ==> #[trigger] merged(
                    shared,
                    t.pending,
                )[other] == shared[other] + s.pending[other]
            &&& flushed(t).pending == zeros(s.pending.len())
            &&& after_all(s, touches(leaf, nows).push(Event::Flush), interval) == flushed(t)
        }),
{
    lemma_touches_add_up(s, leaf, nows, interval);
    let events = touches(leaf, nows).push(Event::Flush);
    assert(events.drop_last() =~= touches(leaf, nows));
    assert(events.last() == Event::Flush);
}

/// Without a forced flush and before the flush is due, increments are
/// invisible to readers of the shared metric: none of the touches hands
/// anything over.
pub proof fn lemma_increments_stay_local(
    s: RootView,
    leaf: int,
    nows: Seq<u64>,
    interval: u64,
    i: int,
)
    requires
        0 <= leaf < s.pending.len(),
        none_due(s.last_flush, nows, interval),
        s.pending[leaf] + nows.len() <= u64::MAX,
        0 <= i < nows.len(),
    ensures
        touch_batch(
            after_all(s, touches(leaf, nows.take(i)), interval),
            leaf,
            1,
            nows[i],
            interval,
        ) is None,
{
    let front = nows.take(i);
    assert forall|j: int| 0 <= j < front.len() implies !flush_due(
        s.last_flush,
        #[trigger] front[j],
        interval,
    ) by {
        assert(front[j] == nows[j]);
    }
    lemma_touches_add_up(s, leaf, front, interval);
}

/// The accessor of one leaf: the offsets of the fields that lead to it, one
/// for each depth. It is made once, and resolved at every access.
#[derive(Debug, PartialEq, Eq)]
pub struct Delegator {
    pub offsets: Vec<usize>,
}

impl View for Delegator {
    type V = Seq<usize>;

    open spec fn view(&self) -> Seq<usize> {
        self.offsets@
    }
}

/// The sum of the first `k` offsets.
pub open spec fn offsets_before(chain: Seq<usize>, k: int) -> int
    decreases k,
{
    if k <= 0 {
        0
    } else {
        offsets_before(chain, k - 1) + chain[k - 1]
    }
}

/// Offsets add up to nothing less than nothing.
pub proof fn lemma_chain_sum_nonnegative(chain: Seq<usize>, from: int)
    ensures
        chain_sum(chain, from) >= 0,
    decreases chain.len() - from,
{
    if 0 <= from < chain.len() {
        lemma_chain_sum_nonnegative(chain, from + 1);
    }
}

/// Adding the offsets up from the front gives what adding them up from
/// the back gives.
pub proof fn lemma_offsets_before(chain: Seq<usize>, k: int)
    requires
        0 <= k <= chain.len(),
    ensures
        offsets_before(chain, k) + chain_sum(chain, k) == chain_sum(chain, 0),
    decreases k,
{
    if k > 0 {
        lemma_offsets_before(chain, k - 1);
    }
}

/// Why a touch was refused.
#[derive(Clone, Copy, PartialEq, Eq, Structural, Debug)]
pub enum TouchError {
    /// The tree has no leaf of that index.
    NoSuchLeaf,
    /// The leaf cannot hold the amount on top of what it holds.
    Overflow,
}

/// One thread's tree of pending amounts, laid out as a flat sequence of
/// leaves. It decides when a touch flushes; merging what it hands over into
/// the shared metric is the caller's part.
#[derive(Debug)]
pub struct LocalRoot {
    table: OffsetTable,
    pending: Vec<u64>,
    last_flush: u64,
}

impl View for LocalRoot {
    type V = RootView;

    closed spec fn view(&self) -> RootView {
        RootView { counts: self.table@, pending: self.pending@, last_flush: self.last_flush }
    }
}

impl LocalRoot {
    /// There is one pending amount for each leaf of the tree.
    pub closed spec fn wf(&self) -> bool {
        self.pending@.len() == leaves_below(self.table@, 0)
    }

    /// A tree of the shape of `table` whose leaves hold nothing, flushed
    /// at `now`.
    pub fn new(table: OffsetTable, now: u64) -> (r: LocalRoot)
        ensures
            r.wf(),
            r@ == (RootView {
                counts: table@,
                pending: zeros(leaves_below(table@, 0)),
                last_flush: now,
            }),
    {
        let n = table.leaves();
        let pending = vec![0u64; n];
        assert(pending@ =~= zeros(leaves_below(table@, 0)));
        LocalRoot { table, pending, last_flush: now }
    }

    /// The number of leaves.
    pub fn leaves(&self) -> (r: usize)
        requires
            self.wf(),
        ensures
            r == self@.pending.len(),
            r == leaves_below(self@.counts, 0),
    {
        self.pending.len()
    }

    /// The leaf that `path` leads to, if `path` picks one value at every
    /// depth.
    pub fn resolve(&self, path: &Vec<usize>) -> (r: Option<usize>)
        requires
            self.wf(),
        ensures
            match r {
                Some(leaf) => valid_path(self@.counts, path@) && leaf == leaf_index(
                    self@.counts,
                    path@,
                ) && leaf < self@.pending.len(),
                None => !valid_path(self@.counts, path@),
            },
    {
        self.table.resolve(path)
    }

    /// The accessor of the leaf that `path` leads to, if `path` picks one
    /// value at every depth.
    pub fn delegator(&self, path: &Vec<usize>) -> (r: Option<Delegator>)
        requires
            self.wf(),
        ensures
            match r {
                Some(d) => valid_path(self@.counts, path@) && d@ == chain_of(self@.counts, path@)
                    && chain_sum(d@, 0) == leaf_index(self@.counts, path@),
                None => !valid_path(self@.counts, path@),
            },
    {
        match self.table.offset_chain(path) {
            Some(offsets) => Some(Delegator { offsets }),
            None => None,
        }
    }

    /// Resolves an accessor: adds its offsets up, in depth order. The
    /// result is the leaf that lies at their sum, if the tree has one there.
    pub fn get_counter(&self, delegator: &Delegator) -> (r: Option<usize>)
        requires
            self.wf(),
        ensures
            match r {
                Some(leaf) => leaf == chain_sum(delegator@, 0) && leaf < self@.pending.len(),
                None => chain_sum(delegator@, 0) >= self@.pending.len(),
            },
    {
        let n = self.pending.len();
        let mut sum: usize = 0;
        let mut k: usize = 0;
        while k < delegator.offsets.len()
            invariant
                k <= delegator.offsets.len(),
                n == self.pending.len(),
                sum == offsets_before(delegator@, k as int),
                sum < n || (sum == 0 && n == 0),
            decreases delegator.offsets.len() - k,
        {
            proof {
                lemma_offsets_before(delegator@, k as int);
                lemma_offsets_before(delegator@, k + 1);
                lemma_chain_sum_nonnegative(delegator@, k + 1);
            }
            let offset = delegator.offsets[k];
            if offset >= n - sum {
                return None;
            }
            sum = sum + offset;
            k += 1;
        }
        proof {
            lemma_offsets_before(delegator@, k as int);
        }
        if sum < n {
            Some(sum)
        } else {
            None
        }
    }

    /// What `leaf` holds that the shared metric has not seen.
    pub fn pending(&self, leaf: usize) -> (r: Option<u64>)
        ensures
            match r {
                Some(amount) => leaf < self@.pending.len() && amount == self@.pending[leaf as int],
                None => leaf >= self@.pending.len(),
            },
    {
        if leaf < self.pending.len() {
            Some(self.pending[leaf])
        } else {
            None
        }
    }

    /// Touches `leaf` at the time `now`: adds `amount` to it and, if at
    /// least `interval` has passed since the tree last flushed itself,
    /// hands over what all leaves hold.
    pub fn inc_by(&mut self, leaf: usize, amount: u64, now: u64, interval: u64) -> (r: Result<
        Option<Vec<u64>>,
        TouchError,
    >)
        requires
            old(self).wf(),
        ensures
            final(self).wf(),
            match r {
                Err(TouchError::NoSuchLeaf) => leaf >= old(self)@.pending.len() && final(self)@
                    == old(self)@,
                Err(TouchError::Overflow) => leaf < old(self)@.pending.len() && old(
                    self,
                )@.pending[leaf as int] + amount > u64::MAX && final(self)@ == old(self)@,
                Ok(batch) => {
                    &&& leaf < old(self)@.pending.len()
                    &&& old(self)@.pending[leaf as int] + amount <= u64::MAX
                    &&& final(self)@ == touched(old(self)@, leaf as int, amount, now, interval)
                    &&& match touch_batch(old(self)@, leaf as int, amount, now, interval) {
                        Some(b) => batch matches Some(v) && v@ == b,
                        None => batch is None,
                    }
                },
            },
    {
        if leaf >= self.pending.len() {
            return Err(TouchError::NoSuchLeaf);
        }
        let sum = match self.pending[leaf].checked_add(amount) {
            None => {
                return Err(TouchError::Overflow);
            },
            Some(sum) => sum,
        };
        self.pending.set(leaf, sum);
        if now >= self.last_flush && now - self.last_flush >= interval {
            let n = self.pending.len();
            let mut batch = vec![0u64; n];
            std::mem::swap(&mut self.pending, &mut batch);
            self.last_flush = now;
            assert(self.pending@ =~= zeros(old(self)@.pending.len()));
            Ok(Some(batch))
        } else {
            Ok(None)
        }
    }

    /// Forces a flush: hands over what all leaves hold, whatever the time.
    pub fn flush(&mut self) -> (batch: Vec<u64>)
        requires
            old(self).wf(),
        ensures
            final(self).wf(),
            batch@ == old(self)@.pending,
            final(self)@ == flushed(old(self)@),
    {
        let n = self.pending.len();
        let mut batch = vec![0u64; n];
        std::mem::swap(&mut self.pending, &mut batch);
        assert(self.pending@ =~= zeros(old(self)@.pending.len()));
        batch
    }
}

} // verus!
