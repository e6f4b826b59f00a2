//! Debounced watching of a vault: raw filesystem transitions are pushed with caller-supplied
//! millisecond timestamps and fold into one latest-state event per path.
use crate::text::same_text;
use vstd::prelude::*;

verus! {

/// Debounce window default: events within this window collapse into one event per path.
pub const DEFAULT_DEBOUNCE_MILLIS: u64 = 500;

/// The number of raw events that a queue holds at most.
pub const QUEUE_CAPACITY: usize = 4096;

/// A raw filesystem transition on one vault-relative path.
#[derive(Clone, Debug, PartialEq, Eq)]
pub enum VaultEvent {
    Created { relative: String },
    Updated { relative: String },
    Deleted { relative: String },
    Renamed { from: String, to: String },
}

impl VaultEvent {
    /// The path whose content the event's latest state describes.
    pub open spec fn target_path(self) -> Seq<char> {
        match self {
            VaultEvent::Created { relative } => relative@,
            VaultEvent::Updated { relative } => relative@,
            VaultEvent::Deleted { relative } => relative@,
            VaultEvent::Renamed { from, to } => to@,
        }
    }

    /// The event touches `path`; a rename touches both of its ends.
    pub open spec fn touches(self, path: Seq<char>) -> bool {
        ||| self.target_path() == path
        ||| self matches VaultEvent::Renamed { from, to } && from@ == path
    }

    /// The path whose content this event's latest state describes.
    pub fn target(&self) -> (path: &str)
        ensures
            path@ == self.target_path(),
    {
        match self {
            VaultEvent::Created { relative } => relative.as_str(),
            VaultEvent::Updated { relative } => relative.as_str(),
            VaultEvent::Deleted { relative } => relative.as_str(),
            VaultEvent::Renamed { from: _, to } => to.as_str(),
        }
    }

    /// Every path the event touches (rename touches two).
    pub fn touched_paths(&self) -> (paths: Vec<&str>)
        ensures
            forall|path: Seq<char>| #[trigger]
                self.touches(path) <==> exists|i: int|
                    0 <= i < paths@.len() && (#[trigger] paths@[i])@ == path,
            paths@.len() == (if self is Renamed { 2int } else { 1int }),
            paths@.last()@ == self.target_path(),
            paths@[0]@ == (match *self {
                VaultEvent::Renamed { from, to } => from@,
                _ => self.target_path(),
            }),
    {
        let mut paths: Vec<&str> = Vec::new();
        match self {
            VaultEvent::Renamed { from, to: _ } => {
                paths.push(from.as_str());
            },
            _ => {},
        }
        paths.push(self.target());
        proof {
            assert forall|path: Seq<char>| #[trigger] self.touches(path) implies exists|i: int|
                0 <= i < paths@.len() && (#[trigger] paths@[i])@ == path by {
                if self.target_path() == path {
                    assert(paths@[paths@.len() - 1]@ == path);
                } else {
                    assert(paths@[0]@ == path);
                }
            }
        }
        paths
    }

    /// Whether the event touches `path`.
    fn touches_path(&self, path: &str) -> (holds: bool)
        ensures
            holds == self.touches(path@),
    {
        if same_text(self.target(), path) {
            return true;
        }
        match self {
            VaultEvent::Renamed { from, to: _ } => same_text(from.as_str(), path),
            _ => false,
        }
    }
}

/// A coalesced event ready for idempotent application.
#[derive(Clone, Debug, PartialEq, Eq)]
pub struct CoalescedEvent {
    pub event: VaultEvent,
    /// Timestamp of the newest raw event folded into this coalesced event.
    pub observed_at: u64,
}

/// The instant before which a raw event has sat out its debounce window.
pub open spec fn cutoff_at(ready_at: u64, debounce_millis: u64) -> u64 {
    if ready_at >= debounce_millis {
        (ready_at - debounce_millis) as u64
    } else {
        0
    }
}

/// Some event that is not yet before the cutoff touches `path`.
pub open spec fn held_back(raw: Seq<(VaultEvent, u64)>, cutoff: u64, path: Seq<char>) -> bool {
    exists|i: int| 0 <= i < raw.len() && (#[trigger] raw[i]).1 >= cutoff && raw[i].0.touches(path)
}

/// The event is before the cutoff, and so is every event that touches one of its paths.
pub open spec fn settled(raw: Seq<(VaultEvent, u64)>, cutoff: u64, item: (VaultEvent, u64)) -> bool {
    &&& item.1 < cutoff
    &&& forall|path: Seq<char>| #[trigger] item.0.touches(path) ==> !held_back(raw, cutoff, path)
}

/// The raw events that leave the queue, in the order in which they were pushed.
pub open spec fn settled_events(raw: Seq<(VaultEvent, u64)>, cutoff: u64) -> Seq<(VaultEvent, u64)> {
    raw.filter(|item: (VaultEvent, u64)| settled(raw, cutoff, item))
}

/// The raw events that stay pending, in the order in which they were pushed.
pub open spec fn pending_events(raw: Seq<(VaultEvent, u64)>, cutoff: u64) -> Seq<(VaultEvent, u64)> {
    raw.filter(|item: (VaultEvent, u64)| !settled(raw, cutoff, item))
}

/// The position of the first bucket for `path`, or the number of buckets where there is none.
pub open spec fn bucket_of(buckets: Seq<CoalescedEvent>, path: Seq<char>) -> int
    decreases buckets.len(),
{
    if buckets.len() == 0 {
        0
    } else if buckets[0].event.target_path() == path {
        0
    } else {
        1 + bucket_of(buckets.drop_first(), path)
    }
}

/// A bucket after one more event for its path: the latest state wins, a rename is kept.
pub open spec fn merged(bucket: CoalescedEvent, item: (VaultEvent, u64)) -> CoalescedEvent {
    if item.1 < bucket.observed_at {
        bucket
    } else if bucket.event is Renamed {
        CoalescedEvent { event: bucket.event, observed_at: item.1 }
    } else {
        CoalescedEvent { event: item.0, observed_at: item.1 }
    }
}

/// The buckets after one more raw event.
pub open spec fn fold_one(buckets: Seq<CoalescedEvent>, item: (VaultEvent, u64)) -> Seq<
    CoalescedEvent,
> {
    let at = bucket_of(buckets, item.0.target_path());
    if at < buckets.len() {
        buckets.update(at, merged(buckets[at], item))
    } else {
        buckets.push(CoalescedEvent { event: item.0, observed_at: item.1 })
    }
}

/// One latest-state event per target path, in the order in which the paths were first touched.
pub open spec fn coalesced(raw: Seq<(VaultEvent, u64)>) -> Seq<CoalescedEvent>
    decreases raw.len(),
{
    if raw.len() == 0 {
        Seq::empty()
    } else {
        fold_one(coalesced(raw.drop_last()), raw.last())
    }
}

proof fn lemma_bucket_of(buckets: Seq<CoalescedEvent>, path: Seq<char>)
    ensures
        0 <= bucket_of(buckets, path) <= buckets.len(),
        bucket_of(buckets, path) < buckets.len()
            ==> buckets[bucket_of(buckets, path)].event.target_path() == path,
        forall|i: int|
            0 <= i < bucket_of(buckets, path) ==> (#[trigger] buckets[i]).event.target_path() != path,
    decreases buckets.len(),
{
    if buckets.len() > 0 && buckets[0].event.target_path() != path {
        lemma_bucket_of(buckets.drop_first(), path);
        assert forall|i: int| 0 <= i < bucket_of(buckets, path) implies (
        #[trigger] buckets[i]).event.target_path() != path by {
            if i > 0 {
                assert(buckets[i] == buckets.drop_first()[i - 1]);
            }
        }
    }
}

proof fn lemma_bucket_is(buckets: Seq<CoalescedEvent>, path: Seq<char>, at: int)
    requires
        0 <= at <= buckets.len(),
        at < buckets.len() ==> buckets[at].event.target_path() == path,
        forall|i: int| 0 <= i < at ==> (#[trigger] buckets[i]).event.target_path() != path,
    ensures
        bucket_of(buckets, path) == at,
{
    lemma_bucket_of(buckets, path);
    let found = bucket_of(buckets, path);
    if found < at {
        assert(buckets[found].event.target_path() != path);
    } else if at < found {
        assert(buckets[at].event.target_path() != path);
    }
}

/// Bounded, debounced event queue. Events older than the debounce window are folded per path into
/// one latest-state event.
#[derive(Debug)]
pub struct EventQueue {
    debounce_millis: u64,
    pending: Vec<(VaultEvent, u64)>,
}

impl EventQueue {
    /// The raw events in the queue, oldest push first.
    pub closed spec fn raw(self) -> Seq<(VaultEvent, u64)> {
        self.pending@
    }

    /// The debounce window.
    pub closed spec fn debounce(self) -> u64 {
        self.debounce_millis
    }

    /// The queue is bounded.
    pub open spec fn wf(self) -> bool {
        self.raw().len() <= QUEUE_CAPACITY
    }

    /// An empty queue.
    pub fn new(debounce_millis: u64) -> (queue: Self)
        ensures
            queue.wf(),
            queue.raw() == Seq::<(VaultEvent, u64)>::empty(),
            queue.debounce() == debounce_millis,
    {
        EventQueue { debounce_millis, pending: Vec::new() }
    }

    /// Pushes a raw event. The oldest pending event is dropped when capacity is reached (a
    /// reconciliation scan recovers anything missed).
    pub fn push(&mut self, event: VaultEvent, at: u64)
        requires
            old(self).wf(),
        ensures
            final(self).wf(),
            final(self).debounce() == old(self).debounce(),
            final(self).raw() == (if old(self).raw().len() < QUEUE_CAPACITY {
                old(self).raw().push((event, at))
            } else {
                old(self).raw().drop_first().push((event, at))
            }),
    {
        if self.pending.len() >= QUEUE_CAPACITY {
            self.pending.remove(0);
            assert(self.pending@ =~= old(self).pending@.drop_first());
        }
        self.pending.push((event, at));
    }

    /// Whether some event of the queue that is not yet before the cutoff touches `path`.
    fn is_held_back(raw: &Vec<(VaultEvent, u64)>, cutoff: u64, path: &str) -> (holds: bool)
        ensures
            holds == held_back(raw@, cutoff, path@),
    {
        let mut i: usize = 0;
        while i < raw.len()
            invariant
                i <= raw@.len(),
                forall|j: int|
                    0 <= j < i ==> !((#[trigger] raw@[j]).1 >= cutoff && raw@[j].0.touches(path@)),
            decreases raw@.len() - i,
        {
            if raw[i].1 >= cutoff && raw[i].0.touches_path(path) {
                assert(raw@[i as int].1 >= cutoff);
                return true;
            }
            i += 1;
        }
        false
    }

    /// Whether the event at position `at` has settled.
    fn is_settled(raw: &Vec<(VaultEvent, u64)>, cutoff: u64, at: usize) -> (holds: bool)
        requires
            at < raw@.len(),
        ensures
            holds == settled(raw@, cutoff, raw@[at as int]),
    {
        let item = &raw[at];
        if item.1 >= cutoff {
            return false;
        }
        if Self::is_held_back(raw, cutoff, item.0.target()) {
            assert(item.0.touches(item.0.target_path()));
            return false;
        }
        match &item.0 {
            VaultEvent::Renamed { from, to: _ } => {
                let held = Self::is_held_back(raw, cutoff, from.as_str());
                assert(item.0.touches(from@));
                !held
            },
            _ => true,
        }
    }

    /// Folds one raw event into the buckets.
    fn fold_into(buckets: &mut Vec<CoalescedEvent>, event: VaultEvent, at: u64)
        ensures
            final(buckets)@ == fold_one(old(buckets)@, (event, at)),
    {
        let mut i: usize = 0;
        while i < buckets.len() && !same_text(buckets[i].event.target(), event.target())
            invariant
                i <= buckets@.len(),
                buckets@ == old(buckets)@,
                forall|j: int|
                    0 <= j < i ==> (#[trigger] buckets@[j]).event.target_path()
                        != event.target_path(),
            decreases buckets@.len() - i,
        {
            i += 1;
        }
        proof {
            lemma_bucket_is(buckets@, event.target_path(), i as int);
        }
        if i == buckets.len() {
            buckets.push(CoalescedEvent { event, observed_at: at });
            return ;
        }
        let last = CoalescedEvent { event, observed_at: at };
        let bucket = buckets.remove(i);
        let next = if at < bucket.observed_at {
            bucket
        } else {
            match bucket.event {
                VaultEvent::Renamed { from, to } => CoalescedEvent {
                    event: VaultEvent::Renamed { from, to },
                    observed_at: at,
                },
                _ => last,
            }
        };
        buckets.insert(i, next);
        assert(buckets@ =~= fold_one(old(buckets)@, (event, at)));
    }

    /// Folds all settled raw events into one latest-state event per path (first-touched order) and
    /// clears them. An event settles once every event that touches one of its paths is older than
    /// `ready_at` less the debounce window; the rest stay pending for the next drain.
    pub fn drain(&mut self, ready_at: u64) -> (drained: Vec<CoalescedEvent>)
        requires
            old(self).wf(),
        ensures
            final(self).wf(),
            final(self).debounce() == old(self).debounce(),
            drained@ == coalesced(
                settled_events(old(self).raw(), cutoff_at(ready_at, old(self).debounce())),
            ),
            final(self).raw() == pending_events(
                old(self).raw(),
                cutoff_at(ready_at, old(self).debounce()),
            ),
    {
        let cutoff: u64 = if ready_at >= self.debounce_millis {
            ready_at - self.debounce_millis
        } else {
            0
        };
        let ghost raw = self.pending@;
        let ghost leaves = |item: (VaultEvent, u64)| settled(raw, cutoff, item);
        let ghost stays = |item: (VaultEvent, u64)| !settled(raw, cutoff, item);
        let mut verdicts: Vec<bool> = Vec::new();
        let mut i: usize = 0;
        while i < self.pending.len()
            invariant
                self.pending@ == raw,
                self.debounce_millis == old(self).debounce_millis,
                i <= raw.len(),
                verdicts@.len() == i,
                forall|j: int| 0 <= j < i ==> #[trigger] verdicts@[j] == settled(raw, cutoff, raw[j]),
            decreases raw.len() - i,
        {
            verdicts.push(Self::is_settled(&self.pending, cutoff, i));
            i += 1;
        }
        let mut pending: Vec<(VaultEvent, u64)> = Vec::new();
        core::mem::swap(&mut pending, &mut self.pending);
        let mut buckets: Vec<CoalescedEvent> = Vec::new();
        let mut remaining: Vec<(VaultEvent, u64)> = Vec::new();
        let total: usize = verdicts.len();
        let mut next: usize = 0;
        for item in it: pending
            invariant
                it.seq() == raw,
                raw.len() == total,
                next == it.index(),
                verdicts@.len() == raw.len(),
                forall|j: int|
                    0 <= j < raw.len() ==> #[trigger] verdicts@[j] == settled(raw, cutoff, raw[j]),
                leaves == (|item: (VaultEvent, u64)| settled(raw, cutoff, item)),
                stays == (|item: (VaultEvent, u64)| !settled(raw, cutoff, item)),
                buckets@ == coalesced(raw.subrange(0, next as int).filter(leaves)),
                remaining@ == raw.subrange(0, next as int).filter(stays),
        {
            proof {
                assert(raw.subrange(0, next + 1).drop_last() =~= raw.subrange(0, next as int));
                assert(raw.subrange(0, next + 1).last() == item);
                reveal(Seq::filter);
            }
            let ghost before = raw.subrange(0, next as int).filter(leaves);
            if verdicts[next] {
                assert(raw.subrange(0, next + 1).filter(leaves) == before.push(item));
                assert(before.push(item).drop_last() =~= before);
                Self::fold_into(&mut buckets, item.0, item.1);
            } else {
                remaining.push(item);
            }
            next += 1;
        }
        proof {
            assert(raw.subrange(0, raw.len() as int) =~= raw);
            raw.lemma_filter_len(stays);
        }
        self.pending = remaining;
        buckets
    }

    /// The number of raw events that wait.
    pub fn pending_count(&self) -> (count: usize)
        ensures
            count == self.raw().len(),
    {
        self.pending.len()
    }
}

/// The paths without repetition, each where it stood first.
pub open spec fn first_touched(paths: Seq<Seq<char>>) -> Seq<Seq<char>>
    decreases paths.len(),
{
    if paths.len() == 0 {
        Seq::empty()
    } else {
        let earlier = first_touched(paths.drop_last());
        if paths.drop_last().contains(paths.last()) {
            earlier
        } else {
            earlier.push(paths.last())
        }
    }
}

/// The target paths of raw events, in order.
pub open spec fn raw_targets(raw: Seq<(VaultEvent, u64)>) -> Seq<Seq<char>> {
    raw.map_values(|item: (VaultEvent, u64)| item.0.target_path())
}

/// The target paths of coalesced events, in order.
pub open spec fn drained_targets(drained: Seq<CoalescedEvent>) -> Seq<Seq<char>> {
    drained.map_values(|one: CoalescedEvent| one.event.target_path())
}

/// Draining yields exactly one event for each target path among the settled events, in the order in
/// which those paths were first touched.
pub proof fn law_one_event_per_path_in_first_touched_order(raw: Seq<(VaultEvent, u64)>)
    ensures
        drained_targets(coalesced(raw)) == first_touched(raw_targets(raw)),
        drained_targets(coalesced(raw)).no_duplicates(),
        forall|path: Seq<char>| #[trigger]
            drained_targets(coalesced(raw)).contains(path) <==> raw_targets(raw).contains(path),
    decreases raw.len(),
{
    if raw.len() == 0 {
        assert(drained_targets(coalesced(raw)) =~= Seq::<Seq<char>>::empty());
        assert(raw_targets(raw) =~= Seq::<Seq<char>>::empty());
    } else {
        let earlier = raw.drop_last();
        let buckets = coalesced(earlier);
        let item = raw.last();
        let path = item.0.target_path();
        law_one_event_per_path_in_first_touched_order(earlier);
        lemma_bucket_of(buckets, path);
        let at = bucket_of(buckets, path);
        assert(raw_targets(raw).drop_last() =~= raw_targets(earlier));
        assert(raw_targets(raw).last() == path);
        let before = drained_targets(buckets);
        let after = drained_targets(coalesced(raw));
        if at < buckets.len() {
            assert(before[at] == path);
            assert(before.contains(path));
            assert(after =~= before);
        } else {
            assert(!before.contains(path)) by {
                if before.contains(path) {
                    let k = choose|k: int| 0 <= k < before.len() && before[k] == path;
                    assert(buckets[k].event.target_path() == path);
                }
            }
            assert(after =~= before.push(path));
        }
        assert forall|p: Seq<char>| #[trigger] after.contains(p) <==> raw_targets(raw).contains(p) by {
            assert(raw_targets(raw) =~= raw_targets(earlier).push(path));
            if after.contains(p) {
                let k = choose|k: int| 0 <= k < after.len() && after[k] == p;
                if k < before.len() {
                    assert(before[k] == p);
                    assert(before.contains(p));
                    let m = choose|m: int| 0 <= m < raw_targets(earlier).len() && raw_targets(earlier)[m] == p;
                    assert(raw_targets(raw)[m] == p);
                } else {
                    assert(raw_targets(raw)[raw.len() - 1] == p);
                }
            }
            if raw_targets(raw).contains(p) {
                let m = choose|m: int| 0 <= m < raw_targets(raw).len() && raw_targets(raw)[m] == p;
                if m < raw_targets(earlier).len() {
                    assert(raw_targets(earlier)[m] == p);
                    assert(raw_targets(earlier).contains(p));
                    assert(before.contains(p));
                    let k = choose|k: int| 0 <= k < before.len() && before[k] == p;
                    assert(after[k] == p);
                } else {
                    assert(p == path);
                    if at < buckets.len() {
                        assert(after[at] == p);
                    } else {
                        assert(after[after.len() - 1] == p);
                    }
                }
            }
        }
    }
}

/// The timestamp of a drained event is the newest among the settled events for its path.
pub proof fn law_newest_timestamp_wins(raw: Seq<(VaultEvent, u64)>, at: int)
    requires
        0 <= at < coalesced(raw).len(),
    ensures
        forall|i: int|
            0 <= i < raw.len() && (#[trigger] raw[i]).0.target_path()
                == coalesced(raw)[at].event.target_path() ==> raw[i].1
                <= coalesced(raw)[at].observed_at,
        exists|i: int|
            0 <= i < raw.len() && (#[trigger] raw[i]).0.target_path()
                == coalesced(raw)[at].event.target_path() && raw[i].1
                == coalesced(raw)[at].observed_at,
    decreases raw.len(),
{
    let earlier = raw.drop_last();
    let buckets = coalesced(earlier);
    let item = raw.last();
    let path = item.0.target_path();
    let one = coalesced(raw)[at];
    law_one_event_per_path_in_first_touched_order(earlier);
    lemma_bucket_of(buckets, path);
    let hit = bucket_of(buckets, path);
    assert forall|j: int| 0 <= j < earlier.len() implies #[trigger] earlier[j] == raw[j] by {}
    if at < buckets.len() {
        law_newest_timestamp_wins(earlier, at);
        let w = choose|i: int|
            0 <= i < earlier.len() && (#[trigger] earlier[i]).0.target_path()
                == buckets[at].event.target_path() && earlier[i].1 == buckets[at].observed_at;
        assert(raw[w] == earlier[w]);
        assert(raw[raw.len() - 1] == item);
        if at != hit {
            assert(one == buckets[at]);
            assert(buckets[at].event.target_path() != path) by {
                if hit < buckets.len() {
                    let names = drained_targets(buckets);
                    assert(names[at] != names[hit]);
                }
            }
        }
        assert forall|i: int|
            0 <= i < raw.len() && (#[trigger] raw[i]).0.target_path()
                == one.event.target_path() implies raw[i].1 <= one.observed_at by {
            if i < earlier.len() {
                assert(earlier[i] == raw[i]);
            }
        }
    } else {
        assert(raw[raw.len() - 1] == item);
        assert forall|i: int|
            0 <= i < raw.len() && (#[trigger] raw[i]).0.target_path()
                == one.event.target_path() implies raw[i].1 <= one.observed_at by {
            if i < earlier.len() {
                assert(raw_targets(earlier)[i] == path);
                assert(raw_targets(earlier).contains(path));
                assert(drained_targets(buckets).contains(path));
                let k = choose|k: int| 0 <= k < buckets.len() && drained_targets(buckets)[k] == path;
                assert(buckets[k].event.target_path() == path);
            }
        }
    }
}

/// Events pushed in time order: the last one for a path is the one drained, unless a rename is
/// among them.
pub proof fn law_latest_state_wins(raw: Seq<(VaultEvent, u64)>, last: int)
    requires
        0 <= last < raw.len(),
        forall|i: int, j: int| 0 <= i <= j < raw.len() ==> (#[trigger] raw[i]).1 <= (#[trigger] raw[j]).1,
        forall|i: int|
            0 <= i < raw.len() && (#[trigger] raw[i]).0.target_path() == raw[last].0.target_path()
                ==> !(raw[i].0 is Renamed),
        forall|i: int|
            last < i < raw.len() ==> (#[trigger] raw[i]).0.target_path() != raw[last].0.target_path(),
    ensures
        coalesced(raw).contains(CoalescedEvent { event: raw[last].0, observed_at: raw[last].1 }),
    decreases raw.len(),
{
    let earlier = raw.drop_last();
    let buckets = coalesced(earlier);
    let item = raw.last();
    let path = item.0.target_path();
    lemma_bucket_of(buckets, path);
    let hit = bucket_of(buckets, path);
    let wanted = CoalescedEvent { event: raw[last].0, observed_at: raw[last].1 };
    assert forall|j: int| 0 <= j < earlier.len() implies #[trigger] earlier[j] == raw[j] by {}
    if last < earlier.len() {
        law_latest_state_wins(earlier, last);
        let k = choose|k: int| 0 <= k < buckets.len() && buckets[k] == wanted;
        assert(raw[raw.len() - 1].0.target_path() != raw[last].0.target_path());
        assert(k != hit);
        assert(coalesced(raw)[k] == wanted);
    } else if hit < buckets.len() {
        lemma_bucket_came_from(earlier, hit);
        law_newest_timestamp_wins(earlier, hit);
        let w = choose|i: int|
            0 <= i < earlier.len() && (#[trigger] earlier[i]).0.target_path()
                == buckets[hit].event.target_path() && earlier[i].1 == buckets[hit].observed_at;
        assert(raw[w] == earlier[w]);
        assert(raw[w].1 <= raw[last].1);
        let v = choose|i: int|
            0 <= i < earlier.len() && (#[trigger] earlier[i]).0 == buckets[hit].event;
        assert(raw[v] == earlier[v]);
        assert(coalesced(raw)[hit] == wanted);
    } else {
        assert(coalesced(raw)[buckets.len() as int] == wanted);
    }
}

proof fn lemma_bucket_came_from(raw: Seq<(VaultEvent, u64)>, at: int)
    requires
        0 <= at < coalesced(raw).len(),
    ensures
        exists|i: int| 0 <= i < raw.len() && (#[trigger] raw[i]).0 == coalesced(raw)[at].event,
    decreases raw.len(),
{
    let earlier = raw.drop_last();
    let buckets = coalesced(earlier);
    assert(raw[raw.len() - 1] == raw.last());
    lemma_bucket_of(buckets, raw.last().0.target_path());
    if at < buckets.len() {
        lemma_bucket_came_from(earlier, at);
        let k = choose|i: int| 0 <= i < earlier.len() && (#[trigger] earlier[i]).0 == buckets[at].event;
        assert(raw[k] == earlier[k]);
    }
}

proof fn lemma_filter_split<A>(s: Seq<A>, p: spec_fn(A) -> bool, q: spec_fn(A) -> bool)
    requires
        forall|a: A| #[trigger] p(a) == !q(a),
    ensures
        s.filter(p).to_multiset().add(s.filter(q).to_multiset()) == s.to_multiset(),
    decreases s.len(),
{
    broadcast use vstd::seq_lib::group_to_multiset_ensures;

    reveal(Seq::filter);
    if s.len() == 0 {
        assert(s.filter(p).to_multiset().add(s.filter(q).to_multiset()) =~= s.to_multiset());
    } else {
        let front = s.drop_last();
        lemma_filter_split(front, p, q);
        assert(s =~= front.push(s.last()));
        assert(front.push(s.last()).to_multiset() =~= front.to_multiset().insert(s.last()));
        assert(p(s.last()) == !q(s.last()));
        if p(s.last()) {
            assert(front.filter(p).push(s.last()).to_multiset() =~= front.filter(
                p,
            ).to_multiset().insert(s.last()));
        } else {
            assert(front.filter(q).push(s.last()).to_multiset() =~= front.filter(
                q,
            ).to_multiset().insert(s.last()));
        }
        assert(s.filter(p).to_multiset().add(s.filter(q).to_multiset()) =~= s.to_multiset());
    }
}

/// Draining loses nothing and invents nothing: each raw event either leaves or stays.
pub proof fn law_drain_partitions_the_queue(raw: Seq<(VaultEvent, u64)>, cutoff: u64)
    ensures
        settled_events(raw, cutoff).to_multiset().add(pending_events(raw, cutoff).to_multiset())
            == raw.to_multiset(),
{
    lemma_filter_split(
        raw,
        |item: (VaultEvent, u64)| settled(raw, cutoff, item),
        |item: (VaultEvent, u64)| !settled(raw, cutoff, item),
    );
}

/// What leaves is older than the cutoff, and nothing that stays young touches one of its paths: a
/// newer event on a path delays the whole burst.
pub proof fn law_young_event_delays_its_burst(
    raw: Seq<(VaultEvent, u64)>,
    cutoff: u64,
    gone: int,
    path: Seq<char>,
)
    requires
        0 <= gone < settled_events(raw, cutoff).len(),
        settled_events(raw, cutoff)[gone].0.touches(path),
    ensures
        settled_events(raw, cutoff)[gone].1 < cutoff,
        !held_back(raw, cutoff, path),
        !held_back(pending_events(raw, cutoff), cutoff, path),
{
    let leaves = |item: (VaultEvent, u64)| settled(raw, cutoff, item);
    let stays = |item: (VaultEvent, u64)| !settled(raw, cutoff, item);
    raw.lemma_filter_pred(leaves, gone);
    let kept = pending_events(raw, cutoff);
    if held_back(kept, cutoff, path) {
        let i = choose|i: int| 0 <= i < kept.len() && (#[trigger] kept[i]).1 >= cutoff && kept[i].0.touches(path);
        lemma_filter_member(raw, stays, i);
        let k = choose|k: int| 0 <= k < raw.len() && raw[k] == kept[i];
        assert(raw[k].1 >= cutoff && raw[k].0.touches(path));
    }
}

proof fn lemma_filter_member<A>(s: Seq<A>, p: spec_fn(A) -> bool, i: int)
    requires
        0 <= i < s.filter(p).len(),
    ensures
        s.contains(s.filter(p)[i]),
        p(s.filter(p)[i]),
    decreases s.len(),
{
    reveal(Seq::filter);
    if s.len() > 0 {
        let front = s.drop_last();
        if i < front.filter(p).len() {
            lemma_filter_member(front, p, i);
            let k = choose|k: int| 0 <= k < front.len() && front[k] == front.filter(p)[i];
            assert(s[k] == s.filter(p)[i]);
        } else {
            assert(s[s.len() - 1] == s.filter(p)[i]);
        }
    }
}

/// A second drain, at the same instant or an earlier one, finds nothing more and leaves the queue as
/// it is.
pub proof fn law_second_drain_is_empty(raw: Seq<(VaultEvent, u64)>, cutoff: u64, earlier: u64)
    requires
        earlier <= cutoff,
    ensures
        settled_events(pending_events(raw, cutoff), earlier).len() == 0,
        coalesced(settled_events(pending_events(raw, cutoff), earlier)).len() == 0,
        pending_events(pending_events(raw, cutoff), earlier) == pending_events(raw, cutoff),
{
    let stays = |item: (VaultEvent, u64)| !settled(raw, cutoff, item);
    let kept = pending_events(raw, cutoff);
    let again = |item: (VaultEvent, u64)| settled(kept, earlier, item);
    let still = |item: (VaultEvent, u64)| !settled(kept, earlier, item);
    assert forall|k: int| 0 <= k < kept.len() implies still(#[trigger] kept[k]) by {
        let item = kept[k];
        lemma_filter_member(raw, stays, k);
        if settled(kept, earlier, item) {
            assert(!settled(raw, cutoff, item));
            let path = choose|path: Seq<char>| #[trigger]
                item.0.touches(path) && held_back(raw, cutoff, path);
            let i = choose|i: int|
                0 <= i < raw.len() && (#[trigger] raw[i]).1 >= cutoff && raw[i].0.touches(path);
            assert(stays(raw[i]));
            raw.lemma_filter_contains(stays, i);
            let m = choose|m: int| 0 <= m < kept.len() && kept[m] == raw[i];
            assert(kept[m].1 >= earlier && kept[m].0.touches(path));
            assert(held_back(kept, earlier, path));
        }
    }
    if kept.filter(again).len() > 0 {
        lemma_filter_member(kept, again, 0);
        let k = choose|k: int| 0 <= k < kept.len() && kept[k] == kept.filter(again)[0];
        assert(still(kept[k]));
    }
    crate::vault_provider::lemma_filter_keeps_all(kept, still);
}

/// The paths of a raw event, in its own fields: the one path of a creation, an update or a deletion,
/// both ends of a rename.
pub open spec fn named_in(event: VaultEvent, path: Seq<char>) -> bool {
    match event {
        VaultEvent::Created { relative } => relative@ == path,
        VaultEvent::Updated { relative } => relative@ == path,
        VaultEvent::Deleted { relative } => relative@ == path,
        VaultEvent::Renamed { from, to } => from@ == path || to@ == path,
    }
}

proof fn lemma_bucket_at(raw: Seq<(VaultEvent, u64)>, k: int)
    requires
        0 <= k < coalesced(raw).len(),
    ensures
        bucket_of(coalesced(raw), coalesced(raw)[k].event.target_path()) == k,
{
    let buckets = coalesced(raw);
    let path = buckets[k].event.target_path();
    law_one_event_per_path_in_first_touched_order(raw);
    assert forall|i: int| 0 <= i < k implies (#[trigger] buckets[i]).event.target_path() != path by {
        let names = drained_targets(buckets);
        assert(names[i] != names[k]);
    }
    lemma_bucket_is(buckets, path, k);
}

/// A rename is never lost: where events come in time order, the first rename onto a path is what is
/// drained for that path, whatever else happened to the path before or after, and it carries the time
/// of the last event for the path.
pub proof fn law_a_rename_is_never_lost(raw: Seq<(VaultEvent, u64)>, rename: int, last: int)
    requires
        0 <= rename <= last < raw.len(),
        forall|i: int, j: int| 0 <= i <= j < raw.len() ==> (#[trigger] raw[i]).1 <= (#[trigger] raw[j]).1,
        raw[rename].0 is Renamed,
        raw[last].0.target_path() == raw[rename].0.target_path(),
        forall|i: int|
            0 <= i < rename && (#[trigger] raw[i]).0.target_path() == raw[rename].0.target_path()
                ==> !(raw[i].0 is Renamed),
        forall|i: int|
            last < i < raw.len() ==> (#[trigger] raw[i]).0.target_path()
                != raw[rename].0.target_path(),
    ensures
        coalesced(raw).contains(CoalescedEvent { event: raw[rename].0, observed_at: raw[last].1 }),
    decreases raw.len(),
{
    let earlier = raw.drop_last();
    let buckets = coalesced(earlier);
    let item = raw.last();
    let path = raw[rename].0.target_path();
    let here = item.0.target_path();
    let hit = bucket_of(buckets, here);
    lemma_bucket_of(buckets, here);
    assert forall|j: int| 0 <= j < earlier.len() implies #[trigger] earlier[j] == raw[j] by {}
    if last < earlier.len() {
        law_a_rename_is_never_lost(earlier, rename, last);
        let wanted = CoalescedEvent { event: raw[rename].0, observed_at: raw[last].1 };
        let k = choose|k: int| 0 <= k < buckets.len() && buckets[k] == wanted;
        assert(raw[raw.len() - 1].0.target_path() != path);
        assert(coalesced(raw)[k] == wanted);
    } else if rename < earlier.len() {
        let before = lemma_last_on(earlier, rename, path);
        law_a_rename_is_never_lost(earlier, rename, before);
        let kept = CoalescedEvent { event: raw[rename].0, observed_at: raw[before].1 };
        let k = choose|k: int| 0 <= k < buckets.len() && buckets[k] == kept;
        lemma_bucket_at(earlier, k);
        assert(raw[before].1 <= raw[last].1);
        assert(coalesced(raw)[k] == (CoalescedEvent {
            event: raw[rename].0,
            observed_at: raw[last].1,
        }));
    } else if hit < buckets.len() {
        lemma_bucket_came_from(earlier, hit);
        law_newest_timestamp_wins(earlier, hit);
        let w = choose|i: int|
            0 <= i < earlier.len() && (#[trigger] earlier[i]).0.target_path()
                == buckets[hit].event.target_path() && earlier[i].1 == buckets[hit].observed_at;
        assert(raw[w] == earlier[w]);
        assert(raw[w].1 <= raw[last].1);
        let v = choose|i: int|
            0 <= i < earlier.len() && (#[trigger] earlier[i]).0 == buckets[hit].event;
        assert(raw[v] == earlier[v]);
        assert(coalesced(raw)[hit] == (CoalescedEvent { event: item.0, observed_at: item.1 }));
    } else {
        assert(coalesced(raw)[buckets.len() as int] == (CoalescedEvent {
            event: item.0,
            observed_at: item.1,
        }));
    }
}

/// The last event for a path, from one that is for it on.
proof fn lemma_last_on(raw: Seq<(VaultEvent, u64)>, from: int, path: Seq<char>) -> (last: int)
    requires
        0 <= from < raw.len(),
        raw[from].0.target_path() == path,
    ensures
        from <= last < raw.len(),
        raw[last].0.target_path() == path,
        forall|i: int| last < i < raw.len() ==> (#[trigger] raw[i]).0.target_path() != path,
    decreases raw.len() - from,
{
    if exists|i: int| from < i < raw.len() && (#[trigger] raw[i]).0.target_path() == path {
        let i = choose|i: int| from < i < raw.len() && (#[trigger] raw[i]).0.target_path() == path;
        lemma_last_on(raw, i, path)
    } else {
        from
    }
}

/// The target of an event is the path that its latest state describes: the new path of a rename.
pub proof fn law_a_rename_is_addressed_by_its_new_path(event: VaultEvent)
    ensures
        match event {
            VaultEvent::Created { relative } => event.target_path() == relative@,
            VaultEvent::Updated { relative } => event.target_path() == relative@,
            VaultEvent::Deleted { relative } => event.target_path() == relative@,
            VaultEvent::Renamed { from, to } => event.target_path() == to@ && event.touches(from@)
                && event.touches(to@),
        },
        forall|path: Seq<char>| #[trigger] event.touches(path) <==> named_in(event, path),
{
}

/// What leaves the queue at an instant: exactly the events that are older than the debounce window
/// and share no path with an event that is not.
pub proof fn law_an_event_leaves_once_its_burst_is_quiet(
    raw: Seq<(VaultEvent, u64)>,
    ready_at: u64,
    debounce_millis: u64,
    i: int,
)
    requires
        0 <= i < raw.len(),
        ready_at >= debounce_millis,
    ensures
        ({
            let quiet = forall|j: int, path: Seq<char>|
                #![trigger raw[j], named_in(raw[i].0, path)]
                0 <= j < raw.len() && named_in(raw[i].0, path) && named_in(raw[j].0, path)
                    ==> raw[j].1 + debounce_millis < ready_at;
            settled_events(raw, cutoff_at(ready_at, debounce_millis)).contains(raw[i]) <==> quiet
        }),
{
    let cutoff = cutoff_at(ready_at, debounce_millis);
    let leaves = |item: (VaultEvent, u64)| settled(raw, cutoff, item);
    let gone = settled_events(raw, cutoff);
    let quiet = forall|j: int, path: Seq<char>|
        #![trigger raw[j], named_in(raw[i].0, path)]
        0 <= j < raw.len() && named_in(raw[i].0, path) && named_in(raw[j].0, path) ==> raw[j].1
            + debounce_millis < ready_at;
    law_a_rename_is_addressed_by_its_new_path(raw[i].0);
    if gone.contains(raw[i]) {
        let k = choose|k: int| 0 <= k < gone.len() && gone[k] == raw[i];
        lemma_filter_member(raw, leaves, k);
        assert(settled(raw, cutoff, raw[i]));
        assert forall|j: int, path: Seq<char>|
            #![trigger raw[j], named_in(raw[i].0, path)]
            0 <= j < raw.len() && named_in(raw[i].0, path) && named_in(raw[j].0, path) implies raw[j].1
            + debounce_millis < ready_at by {
            law_a_rename_is_addressed_by_its_new_path(raw[j].0);
            assert(raw[i].0.touches(path));
            assert(raw[j].0.touches(path));
            assert(!held_back(raw, cutoff, path));
        }
    }
    if quiet {
        let own = raw[i].0.target_path();
        assert(named_in(raw[i].0, own));
        assert forall|path: Seq<char>| #[trigger] raw[i].0.touches(path) implies !held_back(
            raw,
            cutoff,
            path,
        ) by {
            assert(named_in(raw[i].0, path));
            if held_back(raw, cutoff, path) {
                let j = choose|j: int|
                    0 <= j < raw.len() && (#[trigger] raw[j]).1 >= cutoff && raw[j].0.touches(path);
                law_a_rename_is_addressed_by_its_new_path(raw[j].0);
                assert(named_in(raw[j].0, path));
            }
        }
        assert(leaves(raw[i]));
        raw.lemma_filter_contains(leaves, i);
    }
}

/// Before the debounce window has passed once, nothing leaves the queue.
pub proof fn law_nothing_leaves_before_the_window(
    raw: Seq<(VaultEvent, u64)>,
    ready_at: u64,
    debounce_millis: u64,
)
    requires
        ready_at < debounce_millis,
    ensures
        settled_events(raw, cutoff_at(ready_at, debounce_millis)).len() == 0,
        pending_events(raw, cutoff_at(ready_at, debounce_millis)) == raw,
{
    let cutoff = cutoff_at(ready_at, debounce_millis);
    let leaves = |item: (VaultEvent, u64)| settled(raw, cutoff, item);
    let stays = |item: (VaultEvent, u64)| !settled(raw, cutoff, item);
    if settled_events(raw, cutoff).len() > 0 {
        lemma_filter_member(raw, leaves, 0);
    }
    assert forall|k: int| 0 <= k < raw.len() implies stays(#[trigger] raw[k]) by {}
    crate::vault_provider::lemma_filter_keeps_all(raw, stays);
}

} // verus!
