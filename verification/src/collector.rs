//! The ordered collector: takes chapter results in the order in which the
//! downloads complete and hands them on strictly by increasing index.

use std::collections::HashMap;
use vstd::prelude::*;
use vstd::std_specs::hash::*;
use crate::extractor::{Chapter, ExtractionError};

verus! {

broadcast use vstd::std_specs::hash::group_hash_axioms;

/// Why one chapter has no content.
#[derive(Debug, Clone, Copy, PartialEq, Eq, Structural)]
pub enum ChapterFailure {
    /// The chapter page could not be retrieved.
    Fetch,
    /// The chapter page lacks a required element.
    Extraction(ExtractionError),
    /// The markup of the chapter could not be normalized.
    Sanitize,
}

/// The outcome for the chapter at position `index` of the chapter list.
#[derive(Debug)]
pub struct IndexedResult {
    pub index: usize,
    pub chapter: Result<Chapter, ChapterFailure>,
}

/// Why the collector refused a result.
#[derive(Debug, Clone, Copy, PartialEq, Eq, Structural)]
pub enum CollectorError {
    /// The index is not below the number of chapters.
    OutOfRange,
    /// A result for this index was taken before.
    Duplicate,
}

/// The mathematical state of a collector: how many chapters there are, the
/// next index to release, and the results that wait for it.
pub struct CollectorState {
    pub total: usize,
    pub next: usize,
    pub pending: Map<usize, Result<Chapter, ChapterFailure>>,
}

/// The state of a collector that has taken nothing yet.
pub open spec fn initial(total: usize) -> CollectorState {
    CollectorState { total, next: 0, pending: Map::empty() }
}

/// The cursor is within bounds and every waiting result lies strictly
/// between the cursor and the end.
pub open spec fn well_formed(s: CollectorState) -> bool {
    &&& s.next <= s.total
    &&& forall|k: usize| #[trigger] s.pending.contains_key(k) ==> s.next < k && k < s.total
}

/// Whether a result for `index` was taken already, released or waiting.
pub open spec fn received(s: CollectorState, index: usize) -> bool {
    index < s.next || s.pending.contains_key(index)
}

/// Why a result for `index` is refused, if it is.
pub open spec fn refusal(s: CollectorState, index: usize) -> Option<CollectorError> {
    if index >= s.total {
        Some(CollectorError::OutOfRange)
    } else if received(s, index) {
        Some(CollectorError::Duplicate)
    } else {
        None
    }
}

/// How many consecutive indices, starting at `from`, have a result in
/// `pending`.
pub open spec fn ready_run(
    pending: Map<usize, Result<Chapter, ChapterFailure>>,
    from: int,
    total: int,
) -> nat
    decreases total - from,
{
    if 0 <= from < total && pending.contains_key(from as usize) {
        1 + ready_run(pending, from + 1, total)
    } else {
        0
    }
}

/// The `count` results of `pending` from index `from` on, by index.
pub open spec fn run_of(
    pending: Map<usize, Result<Chapter, ChapterFailure>>,
    from: int,
    count: nat,
) -> Seq<IndexedResult> {
    Seq::new(
        count,
        |i: int| (IndexedResult { index: (from + i) as usize, chapter: pending[(from + i) as usize] }),
    )
}

/// What of `pending` lies at or after `bound`.
pub open spec fn from_bound(
    pending: Map<usize, Result<Chapter, ChapterFailure>>,
    bound: int,
) -> Map<usize, Result<Chapter, ChapterFailure>> {
    Map::new(|k: usize| pending.contains_key(k) && k >= bound, |k: usize| pending[k])
}

/// The state after an accepted result: it joins the waiting ones, and the
/// cursor moves past every result that is now ready in sequence.
pub open spec fn state_after(
    s: CollectorState,
    index: usize,
    chapter: Result<Chapter, ChapterFailure>,
) -> CollectorState {
    let waiting = s.pending.insert(index, chapter);
    let count = ready_run(waiting, s.next as int, s.total as int);
    CollectorState {
        total: s.total,
        next: (s.next + count) as usize,
        pending: from_bound(waiting, s.next + count),
    }
}

/// What an accepted result releases: the run of ready results that begins
/// at the cursor, by increasing index. Empty unless `index` is the cursor.
pub open spec fn released_by(
    s: CollectorState,
    index: usize,
    chapter: Result<Chapter, ChapterFailure>,
) -> Seq<IndexedResult> {
    let waiting = s.pending.insert(index, chapter);
    run_of(waiting, s.next as int, ready_run(waiting, s.next as int, s.total as int))
}

/// The state after the results `events` arrived in that order; a refused
/// one changes nothing.
pub open spec fn state_after_all(
    total: usize,
    events: Seq<(usize, Result<Chapter, ChapterFailure>)>,
) -> CollectorState
    decreases events.len(),
{
    if events.len() == 0 {
        initial(total)
    } else {
        let before = state_after_all(total, events.drop_last());
        if refusal(before, events.last().0) is None {
            state_after(before, events.last().0, events.last().1)
        } else {
            before
        }
    }
}

/// Everything released, in the order of release, while the results `events`
/// arrived in that order.
pub open spec fn released_by_all(
    total: usize,
    events: Seq<(usize, Result<Chapter, ChapterFailure>)>,
) -> Seq<IndexedResult>
    decreases events.len(),
{
    if events.len() == 0 {
        Seq::empty()
    } else {
        let before = state_after_all(total, events.drop_last());
        let earlier = released_by_all(total, events.drop_last());
        if refusal(before, events.last().0) is None {
            earlier + released_by(before, events.last().0, events.last().1)
        } else {
            earlier
        }
    }
}

/// A run is as long as the distance to the first index without a result.
pub proof fn lemma_ready_run_length(
    pending: Map<usize, Result<Chapter, ChapterFailure>>,
    from: int,
    stop: int,
    total: int,
)
    requires
        0 <= from <= stop <= total <= usize::MAX,
        forall|k: usize| from <= k < stop ==> #[trigger] pending.contains_key(k),
        stop == total || !pending.contains_key(stop as usize),
    ensures
        ready_run(pending, from, total) == stop - from,
    decreases stop - from,
{
    if from < stop {
        assert(pending.contains_key(from as usize));
        lemma_ready_run_length(pending, from + 1, stop, total);
    }
}

/// Every index of a run has a result, the run stays within bounds, and the
/// index after it has none.
pub proof fn lemma_ready_run_holds(
    pending: Map<usize, Result<Chapter, ChapterFailure>>,
    from: int,
    total: int,
)
    requires
        0 <= from <= total <= usize::MAX,
    ensures
        from + ready_run(pending, from, total) <= total,
        forall|k: usize|
            from <= k < from + ready_run(pending, from, total) ==> #[trigger] pending.contains_key(k),
        from + ready_run(pending, from, total) == total || !pending.contains_key(
            (from + ready_run(pending, from, total)) as usize,
        ),
    decreases total - from,
{
    if from < total && pending.contains_key(from as usize) {
        lemma_ready_run_holds(pending, from + 1, total);
    }
}

/// Accepting a result keeps the state well formed, marks exactly that index
/// as received, and releases the indices from the old cursor up to the new
/// one, each with the result that was given for it.
pub proof fn lemma_step(s: CollectorState, index: usize, chapter: Result<Chapter, ChapterFailure>)
    requires
        well_formed(s),
        refusal(s, index) is None,
    ensures
        well_formed(state_after(s, index, chapter)),
        state_after(s, index, chapter).total == s.total,
        state_after(s, index, chapter).next == s.next + released_by(s, index, chapter).len(),
        forall|k: usize|
            received(state_after(s, index, chapter), k) <==> (received(s, k) || k == index),
        forall|k: usize| #[trigger]
            state_after(s, index, chapter).pending.contains_key(k) ==> state_after(
                s,
                index,
                chapter,
            ).pending[k] == s.pending.insert(index, chapter)[k],
        forall|i: int|
            0 <= i < released_by(s, index, chapter).len() ==> (#[trigger] released_by(
                s,
                index,
                chapter,
            )[i]).index == s.next + i && released_by(s, index, chapter)[i].chapter
                == s.pending.insert(index, chapter)[(s.next + i) as usize],
        index != s.next ==> released_by(s, index, chapter).len() == 0,
{
    let waiting = s.pending.insert(index, chapter);
    lemma_ready_run_holds(waiting, s.next as int, s.total as int);
    let count = ready_run(waiting, s.next as int, s.total as int);
    let after = state_after(s, index, chapter);
    assert forall|k: usize| received(after, k) <==> (received(s, k) || k == index) by {
        if k < after.next && k >= s.next {
            assert(waiting.contains_key(k));
        }
    }
}

/// A collector for `total` chapters.
pub struct OrderedCollector {
    total: usize,
    next: usize,
    pending: HashMap<usize, Result<Chapter, ChapterFailure>>,
}

impl View for OrderedCollector {
    type V = CollectorState;

    closed spec fn view(&self) -> CollectorState {
        CollectorState { total: self.total, next: self.next, pending: self.pending@ }
    }
}

impl OrderedCollector {
    /// The invariant of the collector.
    pub open spec fn wf(&self) -> bool {
        well_formed(self@)
    }

    /// A collector that expects the indices `0..total`.
    pub fn new(total: usize) -> (r: Self)
        ensures
            r.wf(),
            r@ == initial(total),
    {
        OrderedCollector { total, next: 0, pending: HashMap::new() }
    }

    /// The number of chapters.
    pub fn total(&self) -> (r: usize)
        ensures
            r == self@.total,
    {
        self.total
    }

    /// The next index to release, which is also the number released so far.
    pub fn next_index(&self) -> (r: usize)
        ensures
            r == self@.next,
    {
        self.next
    }

    /// Whether every index was released.
    pub fn is_complete(&self) -> (r: bool)
        ensures
            r == (self@.next == self@.total),
    {
        self.next == self.total
    }

    /// Takes the result for `index`. A result out of range or given twice is
    /// refused and changes nothing. Otherwise the result is buffered, and the
    /// call returns, by increasing index, the results from the cursor on that
    /// are now ready in sequence: none unless `index` is the cursor.
    pub fn accept(&mut self, index: usize, chapter: Result<Chapter, ChapterFailure>) -> (r: Result<
        Vec<IndexedResult>,
        CollectorError,
    >)
        requires
            old(self).wf(),
        ensures
            final(self).wf(),
            match r {
                Ok(released) => {
                    &&& refusal(old(self)@, index) is None
                    &&& final(self)@ == state_after(old(self)@, index, chapter)
                    &&& released@ == released_by(old(self)@, index, chapter)
                },
                Err(e) => {
                    &&& refusal(old(self)@, index) == Some(e)
                    &&& final(self)@ == old(self)@
                },
            },
    {
        if index >= self.total {
            return Err(CollectorError::OutOfRange);
        }
        if index < self.next || self.pending.contains_key(&index) {
            return Err(CollectorError::Duplicate);
        }
        let ghost start = self@;
        self.pending.insert(index, chapter);
        let ghost waiting = self.pending@;
        let mut released: Vec<IndexedResult> = Vec::new();
        let mut open = true;
        proof {
            assert(self.pending@ =~= from_bound(waiting, self.next as int));
        }
        while open && self.next < self.total
            invariant
                self.total == start.total,
                start.next <= self.next <= self.total,
                waiting == start.pending.insert(index, chapter),
                self.pending@ == from_bound(waiting, self.next as int),
                forall|k: usize| start.next <= k < self.next ==> #[trigger] waiting.contains_key(k),
                !open ==> !waiting.contains_key(self.next),
                released@ == run_of(waiting, start.next as int, (self.next - start.next) as nat),
                forall|k: usize| #[trigger] waiting.contains_key(k) ==> k < self.total,
            decreases self.total - self.next + (if open { 1int } else { 0int }),
        {
            let cursor = self.next;
            let ghost before = released@;
            match self.pending.remove(&cursor) {
                Some(found) => {
                    released.push(IndexedResult { index: cursor, chapter: found });
                    self.next = cursor + 1;
                    proof {
                        assert(self.pending@ =~= from_bound(waiting, self.next as int));
                        assert(released@ =~= run_of(
                            waiting,
                            start.next as int,
                            (self.next - start.next) as nat,
                        ));
                    }
                },
                None => {
                    open = false;
                },
            }
        }
        proof {
            lemma_ready_run_length(
                waiting,
                start.next as int,
                self.next as int,
                self.total as int,
            );
            assert(self@.pending =~= state_after(start, index, chapter).pending);
            assert(self@ == state_after(start, index, chapter));
            lemma_step(start, index, chapter);
        }
        Ok(released)
    }

    /// Called when no more results will arrive: `Ok` where every index was
    /// released, else the first index that is still missing.
    pub fn finish(&self) -> (r: Result<(), usize>)
        requires
            self.wf(),
        ensures
            r is Ok <==> self@.next == self@.total,
            r is Err ==> r->Err_0 == self@.next && !received(self@, r->Err_0),
    {
        if self.next == self.total {
            Ok(())
        } else {
            Err(self.next)
        }
    }
}

/// Whether a result for `index` is among `events`.
pub open spec fn arrived(
    events: Seq<(usize, Result<Chapter, ChapterFailure>)>,
    index: usize,
) -> bool {
    exists|j: int| 0 <= j < events.len() && (#[trigger] events[j]).0 == index
}

/// Whether `chapter` is among `events` as the result for `index`.
pub open spec fn arrived_with(
    events: Seq<(usize, Result<Chapter, ChapterFailure>)>,
    index: usize,
    chapter: Result<Chapter, ChapterFailure>,
) -> bool {
    exists|j: int| 0 <= j < events.len() && #[trigger] events[j] == (index, chapter)
}

/// Every index of `events` is below `total`, and none occurs twice.
pub open spec fn distinct_arrivals(
    total: usize,
    events: Seq<(usize, Result<Chapter, ChapterFailure>)>,
) -> bool {
    &&& forall|j: int| 0 <= j < events.len() ==> (#[trigger] events[j]).0 < total
    &&& forall|j: int, k: int|
        0 <= j < k < events.len() ==> (#[trigger] events[j]).0 != (#[trigger] events[k]).0
}

/// Whatever the order of arrival, the collector releases every chapter
/// exactly once and in index order: where each index below `total` arrives
/// exactly once among `events`, the results released are `total` many, the
/// one at position `i` has index `i` and carries the result that arrived
/// with index `i`, and the cursor ends at `total`.
pub proof fn lemma_released_in_index_order(
    total: usize,
    events: Seq<(usize, Result<Chapter, ChapterFailure>)>,
)
    requires
        distinct_arrivals(total, events),
        forall|i: usize| i < total ==> #[trigger] arrived(events, i),
    ensures
        state_after_all(total, events).next == total,
        released_by_all(total, events).len() == total,
        forall|i: int|
            0 <= i < total ==> (#[trigger] released_by_all(total, events)[i]).index == i
                && arrived_with(events, i as usize, released_by_all(total, events)[i].chapter),
{
    lemma_arrivals(total, events);
    let last = state_after_all(total, events);
    if last.next < total {
        assert(arrived(events, last.next));
        assert(received(last, last.next));
    }
}

/// What holds after any sequence of distinct arrivals within range: the
/// state is well formed, an index is received exactly if it arrived, the
/// waiting results are those that arrived, and the released results are the
/// indices below the cursor in order, each with the result that arrived for
/// it.
pub proof fn lemma_arrivals(total: usize, events: Seq<(usize, Result<Chapter, ChapterFailure>)>)
    requires
        distinct_arrivals(total, events),
    ensures
        well_formed(state_after_all(total, events)),
        state_after_all(total, events).total == total,
        released_by_all(total, events).len() == state_after_all(total, events).next,
        forall|i: usize| received(state_after_all(total, events), i) <==> #[trigger] arrived(events, i),
        forall|i: usize| #[trigger]
            state_after_all(total, events).pending.contains_key(i) ==> arrived_with(
                events,
                i,
                state_after_all(total, events).pending[i],
            ),
        forall|i: int|
            0 <= i < released_by_all(total, events).len() ==> (#[trigger] released_by_all(
                total,
                events,
            )[i]).index == i && arrived_with(
                events,
                i as usize,
                released_by_all(total, events)[i].chapter,
            ),
    decreases events.len(),
{
    if events.len() > 0 {
        let earlier = events.drop_last();
        let n = earlier.len() as int;
        assert(distinct_arrivals(total, earlier)) by {
            assert forall|j: int| 0 <= j < earlier.len() implies (#[trigger] earlier[j]).0 < total by {
                assert(earlier[j] == events[j]);
            }
            assert forall|j: int, k: int| 0 <= j < k < earlier.len() implies (#[trigger] earlier[j]).0
                != (#[trigger] earlier[k]).0 by {
                assert(earlier[j] == events[j]);
                assert(earlier[k] == events[k]);
            }
        }
        lemma_arrivals(total, earlier);
        let before = state_after_all(total, earlier);
        let out_before = released_by_all(total, earlier);
        let index = events.last().0;
        let chapter = events.last().1;
        assert(events[n] == (index, chapter));
        assert forall|i: usize| arrived(earlier, i) implies arrived(events, i) && i != index by {
            let j = choose|j: int| 0 <= j < earlier.len() && (#[trigger] earlier[j]).0 == i;
            assert(earlier[j] == events[j]);
        }
        assert forall|i: usize, c: Result<Chapter, ChapterFailure>|
            arrived_with(earlier, i, c) implies arrived_with(events, i, c) by {
            let j = choose|j: int| 0 <= j < earlier.len() && #[trigger] earlier[j] == (i, c);
            assert(earlier[j] == events[j]);
        }
        assert(arrived(events, index));
        assert(arrived_with(events, index, chapter));
        assert forall|i: usize| arrived(events, i) implies arrived(earlier, i) || i == index by {
            let j = choose|j: int| 0 <= j < events.len() && (#[trigger] events[j]).0 == i;
            if j < n {
                assert(earlier[j] == events[j]);
            }
        }
        assert(!received(before, index));
        assert(refusal(before, index) is None);
        lemma_step(before, index, chapter);
        let after = state_after(before, index, chapter);
        let step = released_by(before, index, chapter);
        let out = released_by_all(total, events);
        assert(out == out_before + step);
        let waiting = before.pending.insert(index, chapter);
        assert forall|i: usize| #[trigger] waiting.contains_key(i) implies arrived_with(
            events,
            i,
            waiting[i],
        ) by {
            if i != index {
                assert(before.pending.contains_key(i));
            }
        }
        assert forall|i: usize| #[trigger] after.pending.contains_key(i) implies arrived_with(
            events,
            i,
            after.pending[i],
        ) by {
            assert(waiting.contains_key(i));
        }
        assert forall|i: int| 0 <= i < out.len() implies (#[trigger] out[i]).index == i
            && arrived_with(events, i as usize, out[i].chapter) by {
            if i < out_before.len() {
                assert(out[i] == out_before[i]);
            } else {
                let d = i - out_before.len();
                assert(out[i] == step[d]);
                assert(step[d].index == before.next + d);
                lemma_ready_run_holds(waiting, before.next as int, before.total as int);
                assert(waiting.contains_key(i as usize));
            }
        }
    }
}

} // verus!
