//! Reconciliation: a complete scan of the authoritative vault converges the derived index to it.
use crate::crypto::sha256_digest;
use crate::ids::{ProviderResourceRef, ResourceModel};
use crate::index::{DerivedVaultIndex, EntryModel, IndexModel};
use crate::reconcile::{
    apply_event, applied, current_in, document_id, filed_under, holds_whole_note, is_live, refreshed, removed, resource_from_text,
    scan_wf, stale_resources, stale_tasks, stamped, AppliedEvent, BoundedRead, EventObservation,
    PathObservation, ReconciliationError, ReconciliationReport, ScanSnapshot,
};
use crate::text::{hex, is_utf8};
use crate::vault_listing::{kind_for, kind_of, VaultScanError};
use crate::vault_provider::{normalized, views, MarkdownVaultProvider};
use crate::vault_watcher::{CoalescedEvent, VaultEvent};
use vstd::prelude::*;

verus! {

/// What a scan makes of one path: the resource it holds, nothing where the file is oversized or does
/// not parse, a failure where it cannot be read to its end.
pub open spec fn scanned_resource(
    provider: MarkdownVaultProvider,
    relative: Seq<char>,
    seen: PathObservation,
) -> Result<Option<ResourceModel>, ReconciliationError> {
    if provider.confine_error(relative, kind_of(relative), seen.ancestors@) is Some {
        Err(ReconciliationError::ScanIncomplete)
    } else {
        match seen.contents {
            BoundedRead::Missing | BoundedRead::Unreadable => Err(
                ReconciliationError::ScanIncomplete,
            ),
            BoundedRead::Oversized => Ok(None),
            BoundedRead::Bytes(bytes) => if vstd::utf8::valid_utf8(bytes@) {
                Ok(provider.resource_in(relative, seen))
            } else {
                Ok(None)
            },
        }
    }
}

/// The resources that the first `n` paths hold, in order, and the number of paths that hold none;
/// or why the scan fails.
pub open spec fn scanned(
    provider: MarkdownVaultProvider,
    paths: Seq<Seq<char>>,
    seen: Seq<PathObservation>,
    n: nat,
) -> Result<(Seq<(Seq<char>, ResourceModel)>, nat), ReconciliationError>
    decreases n,
{
    if n == 0 {
        Ok((Seq::empty(), 0))
    } else {
        match scanned(provider, paths, seen, (n - 1) as nat) {
            Err(error) => Err(error),
            Ok((found, skipped)) => match scanned_resource(provider, paths[n - 1], seen[n - 1]) {
                Err(error) => Err(error),
                Ok(None) => Ok((found, skipped + 1)),
                Ok(Some(resource)) => if exists|i: int|
                    0 <= i < found.len() && (#[trigger] found[i]).1 == resource {
                    Err(ReconciliationError::DuplicateResource)
                } else {
                    Ok((found.push((paths[n - 1], resource)), skipped))
                },
            },
        }
    }
}

/// The snapshot lists these paths with these resources.
pub open spec fn lists_exactly(
    candidates: Seq<(String, ProviderResourceRef)>,
    found: Seq<(Seq<char>, ResourceModel)>,
) -> bool {
    &&& candidates.len() == found.len()
    &&& forall|i: int|
        0 <= i < candidates.len() ==> (#[trigger] candidates[i]).0@ == found[i].0
            && candidates[i].1@ == found[i].1
}

/// Reads one path for a scan.
fn read_indexable_resource(
    provider: &MarkdownVaultProvider,
    relative: &str,
    seen: &PathObservation,
) -> (resource: Result<Option<ProviderResourceRef>, ReconciliationError>)
    ensures
        match resource {
            Ok(Some(resource)) => scanned_resource(*provider, relative@, *seen) == Ok::<
                Option<ResourceModel>,
                ReconciliationError,
            >(Some(resource@)),
            Ok(None) => scanned_resource(*provider, relative@, *seen) == Ok::<
                Option<ResourceModel>,
                ReconciliationError,
            >(None),
            Err(error) => scanned_resource(*provider, relative@, *seen) == Err::<
                Option<ResourceModel>,
                ReconciliationError,
            >(error),
        },
{
    let kind = kind_for(relative);
    let confined = match provider.confine(relative, kind, &seen.ancestors) {
        Ok(confined) => confined,
        Err(_) => {
            return Err(ReconciliationError::ScanIncomplete);
        },
    };
    match &seen.contents {
        BoundedRead::Missing => Err(ReconciliationError::ScanIncomplete),
        BoundedRead::Unreadable => Err(ReconciliationError::ScanIncomplete),
        BoundedRead::Oversized => Ok(None),
        BoundedRead::Bytes(bytes) => if is_utf8(bytes.as_slice()) {
            Ok(resource_from_text(provider, relative, &confined, seen))
        } else {
            Ok(None)
        },
    }
}

/// Scans the indexable paths of the vault, with what was observed at each of them in turn. Two paths
/// that claim one resource make the scan ambiguous.
pub fn scan_indexable_resources(
    provider: &MarkdownVaultProvider,
    paths: Result<Vec<String>, VaultScanError>,
    seen: &Vec<PathObservation>,
) -> (scan: Result<ScanSnapshot, ReconciliationError>)
    requires
        paths matches Ok(paths) ==> paths@.len() == seen@.len(),
    ensures
        scan_wf(scan),
        match (paths, scan) {
            (Err(_), scan) => scan == Err::<ScanSnapshot, ReconciliationError>(
                ReconciliationError::ScanIncomplete,
            ),
            (Ok(paths), Ok(snapshot)) => ({
                &&& scanned(*provider, views(paths@), seen@, paths@.len()) matches Ok(
                    (found, skipped),
                )
                &&& lists_exactly(snapshot.candidates@, found)
                &&& snapshot.skipped == skipped
            }),
            (Ok(paths), Err(error)) => scanned(*provider, views(paths@), seen@, paths@.len())
                == Err::<(Seq<(Seq<char>, ResourceModel)>, nat), ReconciliationError>(error),
        },
{
    let list = match paths {
        Ok(list) => list,
        Err(_) => {
            return Err(ReconciliationError::ScanIncomplete);
        },
    };
    let ghost names = views(list@);
    let mut candidates: Vec<(String, ProviderResourceRef)> = Vec::new();
    let mut skipped: usize = 0;
    let mut i: usize = 0;
    while i < list.len()
        invariant
            i <= list@.len(),
            list@.len() == seen@.len(),
            names == views(list@),
            paths == Ok::<Vec<String>, VaultScanError>(list),
            candidates@.len() + skipped == i,
            scanned(*provider, names, seen@, i as nat) matches Ok((found, count)) && lists_exactly(
                candidates@,
                found,
            ) && count == skipped,
            forall|a: int, b: int|
                0 <= a < b < candidates@.len() ==> (#[trigger] candidates@[a]).1@ != (
                #[trigger] candidates@[b]).1@,
        decreases list@.len() - i,
    {
        let ghost found = scanned(*provider, names, seen@, i as nat)->Ok_0.0;
        match read_indexable_resource(provider, list[i].as_str(), &seen[i]) {
            Err(error) => {
                proof {
                    lemma_scan_fails(*provider, names, seen@, (i + 1) as nat, names.len(), error);
                }
                return Err(error);
            },
            Ok(None) => {
                skipped += 1;
            },
            Ok(Some(resource)) => {
                let known = is_live(&candidates, &resource);
                proof {
                    if known {
                        let k = choose|k: int|
                            0 <= k < candidates@.len() && (#[trigger] candidates@[k]).1@ == resource@;
                        assert(found[k].1 == resource@);
                        lemma_scan_fails(
                            *provider,
                            names,
                            seen@,
                            (i + 1) as nat,
                            names.len(),
                            ReconciliationError::DuplicateResource,
                        );
                    } else if exists|k: int| 0 <= k < found.len() && (#[trigger] found[k]).1 == resource@ {
                        let k = choose|k: int|
                            0 <= k < found.len() && (#[trigger] found[k]).1 == resource@;
                        assert(candidates@[k].1@ == resource@);
                    }
                }
                if known {
                    return Err(ReconciliationError::DuplicateResource);
                }
                let ghost before = candidates@;
                candidates.push((list[i].clone(), resource));
                assert forall|a: int, b: int| 0 <= a < b < candidates@.len() implies (
                #[trigger] candidates@[a]).1@ != (#[trigger] candidates@[b]).1@ by {
                    if b == before.len() {
                        assert(before[a].1@ != resource@);
                    }
                }
            },
        }
        i += 1;
    }
    Ok(ScanSnapshot { candidates, skipped })
}

proof fn lemma_scan_fails(
    provider: MarkdownVaultProvider,
    paths: Seq<Seq<char>>,
    seen: Seq<PathObservation>,
    n: nat,
    total: nat,
    error: ReconciliationError,
)
    requires
        n <= total,
        scanned(provider, paths, seen, n) == Err::<
            (Seq<(Seq<char>, ResourceModel)>, nat),
            ReconciliationError,
        >(error),
    ensures
        scanned(provider, paths, seen, total) == Err::<
            (Seq<(Seq<char>, ResourceModel)>, nat),
            ReconciliationError,
        >(error),
    decreases total,
{
    if n < total {
        lemma_scan_fails(provider, paths, seen, n, (total - 1) as nat, error);
    }
}

/// How many candidates had each outcome.
pub struct Tally {
    pub indexed: nat,
    pub unchanged: nat,
    pub removed: nat,
    pub skipped: nat,
}

/// The tally after one more outcome.
pub open spec fn counted(tally: Tally, outcome: AppliedEvent) -> Tally {
    match outcome {
        AppliedEvent::Indexed => Tally { indexed: tally.indexed + 1, ..tally },
        AppliedEvent::Unchanged => Tally { unchanged: tally.unchanged + 1, ..tally },
        AppliedEvent::Removed => Tally { removed: tally.removed + 1, ..tally },
        AppliedEvent::Skipped => Tally { skipped: tally.skipped + 1, ..tally },
    }
}

/// The index and the tally after bringing the first `n` candidates up to date.
pub open spec fn converged(
    provider: MarkdownVaultProvider,
    contents: IndexModel,
    snapshot: ScanSnapshot,
    seen: Seq<EventObservation>,
    n: nat,
) -> (IndexModel, Tally)
    decreases n,
{
    if n == 0 {
        (contents, Tally { indexed: 0, unchanged: 0, removed: 0, skipped: snapshot.skipped as nat })
    } else {
        let (before, tally) = converged(provider, contents, snapshot, seen, (n - 1) as nat);
        let (after, outcome) = refreshed(
            provider,
            before,
            snapshot.candidates@[n - 1].0@,
            seen[n - 1].target,
            seen[n - 1].scan,
        );
        (after, counted(tally, outcome))
    }
}

/// The index after a reconciliation: every candidate is brought up to date, then the owned resources
/// that the scan did not see leave.
pub open spec fn reconciled(
    provider: MarkdownVaultProvider,
    contents: IndexModel,
    snapshot: ScanSnapshot,
    seen: Seq<EventObservation>,
) -> (IndexModel, Tally) {
    let (after, tally) = converged(provider, contents, snapshot, seen, snapshot.candidates@.len());
    let stale = stale_resources(provider, after, snapshot);
    (after.remove_keys(stale), Tally { removed: tally.removed + stale.len(), ..tally })
}

/// The report shows the tally.
pub open spec fn reports(report: ReconciliationReport, tally: Tally) -> bool {
    &&& report.indexed == tally.indexed
    &&& report.unchanged == tally.unchanged
    &&& report.removed == tally.removed
    &&& report.skipped == tally.skipped
}

proof fn lemma_one_step_grows_by_one(
    provider: MarkdownVaultProvider,
    contents: IndexModel,
    relative: Seq<char>,
    seen: PathObservation,
    scan: Result<ScanSnapshot, ReconciliationError>,
)
    requires
        contents.dom().finite(),
    ensures
        refreshed(provider, contents, relative, seen, scan).0.dom().finite(),
        refreshed(provider, contents, relative, seen, scan).0.dom().len() <= contents.dom().len() + 1,
{
    let after = refreshed(provider, contents, relative, seen, scan).0;
    let grown = match provider.resource_in(relative, seen) {
        Some(resource) => contents.dom().insert(resource),
        None => contents.dom(),
    };
    assert(after.dom().subset_of(grown));
    vstd::set_lib::lemma_len_subset(after.dom(), grown);
}

proof fn lemma_converged_size(
    provider: MarkdownVaultProvider,
    contents: IndexModel,
    snapshot: ScanSnapshot,
    seen: Seq<EventObservation>,
    n: nat,
)
    requires
        contents.dom().finite(),
    ensures
        converged(provider, contents, snapshot, seen, n).0.dom().finite(),
        converged(provider, contents, snapshot, seen, n).0.dom().len() <= contents.dom().len() + n,
        ({
            let tally = converged(provider, contents, snapshot, seen, n).1;
            &&& tally.indexed + tally.unchanged + tally.removed + tally.skipped == n
                + snapshot.skipped
            &&& tally.skipped >= snapshot.skipped
        }),
    decreases n,
{
    if n > 0 {
        lemma_converged_size(provider, contents, snapshot, seen, (n - 1) as nat);
        lemma_one_step_grows_by_one(
            provider,
            converged(provider, contents, snapshot, seen, (n - 1) as nat).0,
            snapshot.candidates@[n - 1].0@,
            seen[n - 1].target,
            seen[n - 1].scan,
        );
    }
}

/// Converges provider-owned derived state to a scan of the authoritative vault. Live paths are applied
/// in the scan's order, each with what was observed at it; indexed resources absent from the scan are
/// removed. State owned by another workspace or provider is left untouched. A failed scan is returned
/// and leaves the index as it is.
pub fn reconcile_vault(
    provider: &MarkdownVaultProvider,
    index: &mut DerivedVaultIndex,
    scan: Result<ScanSnapshot, ReconciliationError>,
    seen: Vec<EventObservation>,
) -> (report: Result<ReconciliationReport, ReconciliationError>)
    requires
        old(index).wf(),
        scan_wf(scan),
        scan matches Ok(snapshot) ==> snapshot.candidates@.len() == seen@.len()
            && old(index)@.dom().len() + 2 * seen@.len() <= usize::MAX,
    ensures
        final(index).wf(),
        match (scan, report) {
            (Err(error), report) => report == Err::<ReconciliationReport, ReconciliationError>(error)
                && final(index)@ == old(index)@,
            (Ok(snapshot), Ok(report)) => ({
                &&& final(index)@ == reconciled(*provider, old(index)@, snapshot, seen@).0
                &&& reports(report, reconciled(*provider, old(index)@, snapshot, seen@).1)
            }),
            (Ok(_), Err(_)) => false,
        },
{
    let snapshot = match scan {
        Ok(snapshot) => snapshot,
        Err(error) => {
            return Err(error);
        },
    };
    let ghost observations = seen@;
    let ghost initial = index@;
    let mut report = ReconciliationReport {
        indexed: 0,
        unchanged: 0,
        removed: 0,
        skipped: snapshot.skipped,
    };
    let mut next: usize = 0;
    for one in it: seen
        invariant
            it.seq() == observations,
            next == it.index(),
            index.wf(),
            snapshot.wf(),
            initial.dom().finite(),
            observations.len() == snapshot.candidates@.len(),
            index@ == converged(*provider, initial, snapshot, observations, next as nat).0,
            reports(
                report,
                converged(*provider, initial, snapshot, observations, next as nat).1,
            ),
    {
        proof {
            lemma_converged_size(*provider, initial, snapshot, observations, next as nat);
        }
        let relative = snapshot.candidates[next].0.clone();
        let event = CoalescedEvent { event: VaultEvent::Updated { relative }, observed_at: 0 };
        match apply_event(provider, index, &event, one) {
            AppliedEvent::Indexed => {
                report.indexed += 1;
            },
            AppliedEvent::Unchanged => {
                report.unchanged += 1;
            },
            AppliedEvent::Removed => {
                report.removed += 1;
            },
            AppliedEvent::Skipped => {
                report.skipped += 1;
            },
        }
        next += 1;
    }
    let ghost after = index@;
    let ghost stale = stale_resources(*provider, after, snapshot);
    let ghost tally = converged(*provider, initial, snapshot, observations, observations.len()).1;
    proof {
        lemma_converged_size(*provider, initial, snapshot, observations, observations.len());
    }
    let all = index.resources();
    let ghost mut gone: Set<ResourceModel> = Set::empty();
    let mut i: usize = 0;
    while i < all.len()
        invariant
            i <= all@.len(),
            index.wf(),
            stale == stale_resources(*provider, after, snapshot),
            index@ == after.remove_keys(gone),
            after.dom().finite(),
            after.dom().len() + snapshot.candidates@.len() <= usize::MAX,
            tally.removed <= snapshot.candidates@.len(),
            gone.finite(),
            gone.subset_of(after.dom()),
            forall|r: ResourceModel| #[trigger]
                after.dom().contains(r) <==> exists|k: int| 0 <= k < all@.len() && (#[trigger] all@[k])@ == r,
            forall|a: int, b: int|
                0 <= a < b < all@.len() ==> (#[trigger] all@[a])@ != (#[trigger] all@[b])@,
            forall|r: ResourceModel| #[trigger]
                gone.contains(r) <==> stale.contains(r) && exists|k: int|
                    0 <= k < i && (#[trigger] all@[k])@ == r,
            report.indexed == tally.indexed,
            report.unchanged == tally.unchanged,
            report.skipped == tally.skipped,
            report.removed == tally.removed + gone.len(),
        decreases all@.len() - i,
    {
        let resource = &all[i];
        let ghost earlier = gone;
        assert(after.dom().contains(all@[i as int]@));
        if provider.is_own(resource) && !is_live(&snapshot.candidates, resource) {
            proof {
                if earlier.contains(resource@) {
                    let k = choose|k: int| 0 <= k < i && (#[trigger] all@[k])@ == resource@;
                    assert(all@[k]@ != all@[i as int]@);
                }
                gone = gone.insert(resource@);
                vstd::set_lib::lemma_len_subset(gone, after.dom());
                assert(stale.contains(resource@));
                assert(after.remove_keys(earlier).remove(resource@) =~= after.remove_keys(gone));
            }
            index.remove_resource(resource);
            report.removed += 1;
        }
        assert forall|r: ResourceModel| #[trigger] gone.contains(r) <==> stale.contains(r) && exists|
            k: int,
        |
            0 <= k < i + 1 && (#[trigger] all@[k])@ == r by {
            if gone.contains(r) {
                if earlier.contains(r) {
                    let k = choose|k: int| 0 <= k < i && (#[trigger] all@[k])@ == r;
                    assert(all@[k]@ == r);
                } else {
                    assert(all@[i as int]@ == r);
                }
            }
            if stale.contains(r) && exists|k: int| 0 <= k < i + 1 && (#[trigger] all@[k])@ == r {
                let k = choose|k: int| 0 <= k < i + 1 && (#[trigger] all@[k])@ == r;
                if k < i {
                    assert(earlier.contains(r));
                } else {
                    assert(r == resource@);
                }
            }
        }
        i += 1;
    }
    proof {
        assert forall|r: ResourceModel| gone.contains(r) <==> stale.contains(r) by {
            if stale.contains(r) {
                assert(after.dom().contains(r));
                let k = choose|k: int| 0 <= k < all@.len() && (#[trigger] all@[k])@ == r;
                assert(all@[k]@ == r);
            }
        }
        assert(gone =~= stale);
    }
    Ok(report)
}

/// Deterministic periodic reconciliation coordinator. The caller owns the clock.
#[derive(Clone, Copy, Debug, PartialEq, Eq)]
pub struct VaultReconciler {
    interval_millis: u64,
    last_run_at: Option<u64>,
}

impl VaultReconciler {
    /// The interval between two runs.
    pub closed spec fn interval(self) -> u64 {
        self.interval_millis
    }

    /// When the last completed run began.
    pub closed spec fn last_run(self) -> Option<u64> {
        self.last_run_at
    }

    /// The first run is due at once, every later one when the interval has elapsed since the last
    /// completed run.
    pub open spec fn due(self, now_millis: u64) -> bool {
        match self.last_run() {
            None => true,
            Some(last) => now_millis - last >= self.interval(),
        }
    }

    /// A coordinator that has not run.
    pub fn new(interval_millis: u64) -> (reconciler: Self)
        requires
            interval_millis > 0,
        ensures
            reconciler.interval() == interval_millis,
            reconciler.last_run() is None,
    {
        VaultReconciler { interval_millis, last_run_at: None }
    }

    /// Whether a run is due.
    pub fn is_due(&self, now_millis: u64) -> (due: bool)
        requires
            self.interval() > 0,
        ensures
            due == self.due(now_millis),
    {
        match self.last_run_at {
            None => true,
            Some(last) => {
                let elapsed: u64 = if now_millis >= last {
                    now_millis - last
                } else {
                    0
                };
                elapsed >= self.interval_millis
            },
        }
    }

    /// Reconciles when a run is due. A failed run does not advance the watermark.
    pub fn reconcile_if_due(
        &mut self,
        provider: &MarkdownVaultProvider,
        index: &mut DerivedVaultIndex,
        now_millis: u64,
        scan: Result<ScanSnapshot, ReconciliationError>,
        seen: Vec<EventObservation>,
    ) -> (report: Result<Option<ReconciliationReport>, ReconciliationError>)
        requires
            old(self).interval() > 0,
            old(index).wf(),
            scan_wf(scan),
            scan matches Ok(snapshot) ==> snapshot.candidates@.len() == seen@.len()
                && old(index)@.dom().len() + 2 * seen@.len() <= usize::MAX,
        ensures
            final(index).wf(),
            final(self).interval() == old(self).interval(),
            if !old(self).due(now_millis) {
                &&& report == Ok::<Option<ReconciliationReport>, ReconciliationError>(None)
                &&& final(index)@ == old(index)@
                &&& final(self).last_run() == old(self).last_run()
            } else {
                match scan {
                    Err(error) => ({
                        &&& report == Err::<Option<ReconciliationReport>, ReconciliationError>(error)
                        &&& final(index)@ == old(index)@
                        &&& final(self).last_run() == old(self).last_run()
                    }),
                    Ok(snapshot) => ({
                        &&& report matches Ok(Some(report))
                        &&& reports(report, reconciled(*provider, old(index)@, snapshot, seen@).1)
                        &&& final(index)@ == reconciled(*provider, old(index)@, snapshot, seen@).0
                        &&& final(self).last_run() == Some(now_millis)
                    }),
                }
            },
    {
        if !self.is_due(now_millis) {
            return Ok(None);
        }
        match reconcile_vault(provider, index, scan, seen) {
            Err(error) => Err(error),
            Ok(report) => {
                self.last_run_at = Some(now_millis);
                Ok(Some(report))
            },
        }
    }
}

/// Reconstructs all derived vault state from a scan and replaces the index only after the complete
/// scan finished.
pub fn rebuild_vault(
    provider: &MarkdownVaultProvider,
    index: &mut DerivedVaultIndex,
    scan: Result<ScanSnapshot, ReconciliationError>,
    seen: Vec<EventObservation>,
) -> (report: Result<ReconciliationReport, ReconciliationError>)
    requires
        old(index).wf(),
        scan_wf(scan),
        scan matches Ok(snapshot) ==> snapshot.candidates@.len() == seen@.len()
            && 2 * seen@.len() <= usize::MAX,
    ensures
        final(index).wf(),
        match (scan, report) {
            (Err(error), report) => report == Err::<ReconciliationReport, ReconciliationError>(error)
                && final(index)@ == old(index)@,
            (Ok(snapshot), Ok(report)) => ({
                &&& final(index)@ == reconciled(*provider, Map::empty(), snapshot, seen@).0
                &&& reports(report, reconciled(*provider, Map::empty(), snapshot, seen@).1)
            }),
            (Ok(_), Err(_)) => false,
        },
{
    let mut replacement = DerivedVaultIndex::new();
    match reconcile_vault(provider, &mut replacement, scan, seen) {
        Err(error) => Err(error),
        Ok(report) => {
            *index = replacement;
            Ok(report)
        },
    }
}

proof fn lemma_refresh_settles(
    provider: MarkdownVaultProvider,
    contents: IndexModel,
    relative: Seq<char>,
    seen: PathObservation,
    scan: Result<ScanSnapshot, ReconciliationError>,
)
    ensures
        ({
            let once = refreshed(provider, contents, relative, seen, scan);
            let twice = refreshed(provider, once.0, relative, seen, scan);
            &&& twice.0 == once.0
            &&& twice.1 != AppliedEvent::Indexed && twice.1 != AppliedEvent::Removed
            &&& once.1 == AppliedEvent::Indexed ==> twice.1 == AppliedEvent::Unchanged
        }),
{
    let once = refreshed(provider, contents, relative, seen, scan);
    let twice = refreshed(provider, once.0, relative, seen, scan);
    lemma_removal_settles(provider, contents, relative, seen, scan);
    if provider.confine_error(relative, kind_of(relative), seen.ancestors@) is None {
        if let BoundedRead::Bytes(bytes) = seen.contents {
            if let Some(resource) = provider.resource_in(relative, seen) {
                if vstd::utf8::valid_utf8(bytes@) && !current_in(contents, resource, bytes@) {
                    if let Some(extraction) = seen.extraction {
                        if extraction.chunks@.len() == 0 {
                            assert(once.0.remove(resource) =~= once.0);
                        } else {
                            let entry = stamped(extraction, bytes@);
                            assert(once.0.insert(resource, entry) =~= once.0);
                        }
                    }
                }
            }
        }
    }
    assert(twice.0 =~= once.0);
}

proof fn lemma_removal_settles(
    provider: MarkdownVaultProvider,
    contents: IndexModel,
    relative: Seq<char>,
    seen: PathObservation,
    scan: Result<ScanSnapshot, ReconciliationError>,
)
    ensures
        ({
            let once = removed(provider, contents, relative, seen, scan);
            let twice = removed(provider, once.0, relative, seen, scan);
            &&& twice.0 == once.0
            &&& twice.1 != AppliedEvent::Indexed && twice.1 != AppliedEvent::Removed
            &&& once.1 != AppliedEvent::Indexed
        }),
{
    let once = removed(provider, contents, relative, seen, scan);
    if let Ok(snapshot) = scan {
        let stale = stale_tasks(provider, contents, snapshot);
        let left = contents.remove_keys(stale);
        assert(stale_tasks(provider, left, snapshot) =~= Set::<ResourceModel>::empty());
    }
}

/// Bringing one path up to date removes, or records one resource.
proof fn lemma_refresh_touches_one(
    provider: MarkdownVaultProvider,
    contents: IndexModel,
    relative: Seq<char>,
    seen: PathObservation,
    scan: Result<ScanSnapshot, ReconciliationError>,
)
    ensures
        ({
            let after = refreshed(provider, contents, relative, seen, scan).0;
            ||| after.dom().subset_of(contents.dom()) && forall|r: ResourceModel|
                after.dom().contains(r) ==> #[trigger] after[r] == contents[r]
            ||| provider.resource_in(relative, seen) matches Some(r) && seen.extraction matches Some(
                extraction,
            ) && seen.contents matches BoundedRead::Bytes(bytes) && after == contents.insert(
                r,
                stamped(extraction, bytes@),
            ) && extraction.chunks@.len() > 0 && vstd::utf8::valid_utf8(bytes@)
                && provider.confine_error(relative, kind_of(relative), seen.ancestors@) is None
        }),
{
}

/// Where a removal found nothing, it finds nothing in a part of the index.
proof fn lemma_removal_of_less(
    provider: MarkdownVaultProvider,
    contents: IndexModel,
    less: IndexModel,
    relative: Seq<char>,
    seen: PathObservation,
    scan: Result<ScanSnapshot, ReconciliationError>,
)
    requires
        removed(provider, contents, relative, seen, scan).0 == contents,
        less.dom().subset_of(contents.dom()),
        forall|r: ResourceModel| less.dom().contains(r) ==> #[trigger] less[r] == contents[r],
    ensures
        removed(provider, less, relative, seen, scan).0 == less,
{
    lemma_unremoved(provider, contents, relative, seen, scan);
    if let Ok(snapshot) = scan {
        let stale = stale_tasks(provider, less, snapshot);
        assert forall|r: ResourceModel| stale.contains(r) implies stale_tasks(
            provider,
            contents,
            snapshot,
        ).contains(r) by {
            assert(less[r] == contents[r]);
        }
        if stale_tasks(provider, contents, snapshot) =~= Set::empty() {
            assert(stale =~= Set::empty());
        }
    }
}

/// What a removal that changes nothing says of the index.
proof fn lemma_unremoved(
    provider: MarkdownVaultProvider,
    contents: IndexModel,
    relative: Seq<char>,
    seen: PathObservation,
    scan: Result<ScanSnapshot, ReconciliationError>,
)
    requires
        removed(provider, contents, relative, seen, scan).0 == contents,
    ensures
        removed(provider, contents, relative, seen, scan).1 == AppliedEvent::Skipped
            || removed(provider, contents, relative, seen, scan).1 == AppliedEvent::Unchanged,
{
    let after = removed(provider, contents, relative, seen, scan);
    if after.1 == AppliedEvent::Removed {
        if kind_of(relative) == crate::ids::ProviderResourceKind::Task {
            let stale = stale_tasks(provider, contents, scan->Ok_0);
            let r = choose|r: ResourceModel| stale.contains(r);
            assert(!(stale =~= Set::empty()));
            assert(exists|r: ResourceModel| stale.contains(r)) by {
                if forall|r: ResourceModel| !stale.contains(r) {
                    assert(stale =~= Set::empty());
                }
            }
            assert(contents.dom().contains(r));
            assert(!after.0.dom().contains(r));
        } else {
            let resource = provider.own(document_id(normalized(relative)), kind_of(relative));
            assert(contents.dom().contains(resource));
            assert(!after.0.dom().contains(resource));
        }
    }
}

/// Where a removal found nothing, it finds at most the one resource that was recorded since.
proof fn lemma_removal_of_one_more(
    provider: MarkdownVaultProvider,
    contents: IndexModel,
    recorded: ResourceModel,
    entry: EntryModel,
    relative: Seq<char>,
    seen: PathObservation,
    scan: Result<ScanSnapshot, ReconciliationError>,
)
    requires
        removed(provider, contents, relative, seen, scan).0 == contents,
    ensures
        ({
            let more = contents.insert(recorded, entry);
            let after = removed(provider, more, relative, seen, scan).0;
            after == more || after == more.remove(recorded)
        }),
{
    lemma_unremoved(provider, contents, relative, seen, scan);
    let more = contents.insert(recorded, entry);
    let after = removed(provider, more, relative, seen, scan).0;
    if let Ok(snapshot) = scan {
        let stale = stale_tasks(provider, more, snapshot);
        assert forall|r: ResourceModel| stale.contains(r) && r != recorded implies stale_tasks(
            provider,
            contents,
            snapshot,
        ).contains(r) by {
            assert(more[r] == contents[r]);
        }
        if stale_tasks(provider, contents, snapshot) =~= Set::empty() {
            if stale.contains(recorded) {
                assert(stale =~= Set::empty().insert(recorded));
                assert(more.remove_keys(stale) =~= more.remove(recorded));
            } else {
                assert(stale =~= Set::empty());
            }
        }
    }
    assert(after =~= more || after =~= more.remove(recorded));
}

/// The scan, where it succeeded, saw the resource that the file at `to` holds.
pub open spec fn scan_saw(
    provider: MarkdownVaultProvider,
    to: Seq<char>,
    seen: EventObservation,
) -> bool {
    match (seen.scan, provider.resource_in(to, seen.target)) {
        (Ok(snapshot), Some(resource)) => snapshot.live(resource),
        _ => true,
    }
}

/// Where a removal found nothing, it finds nothing after a resource was recorded that another path
/// holds and that the scan saw.
proof fn lemma_removal_spares_the_recorded(
    provider: MarkdownVaultProvider,
    contents: IndexModel,
    recorded: ResourceModel,
    entry: EntryModel,
    from: Seq<char>,
    to: Seq<char>,
    seen: EventObservation,
)
    requires
        removed(provider, contents, from, seen.source, seen.scan).0 == contents,
        provider.resource_in(to, seen.target) == Some(recorded),
        scan_saw(provider, to, seen),
        normalized(from) != normalized(to),
    ensures
        removed(provider, contents.insert(recorded, entry), from, seen.source, seen.scan).0
            == contents.insert(recorded, entry),
{
    lemma_unremoved(provider, contents, from, seen.source, seen.scan);
    let more = contents.insert(recorded, entry);
    let own = provider.own(document_id(normalized(from)), kind_of(from));
    if own == recorded {
        let prefix = "path:"@;
        assert(document_id(normalized(from)).subrange(
            prefix.len() as int,
            document_id(normalized(from)).len() as int,
        ) =~= normalized(from));
        assert(document_id(normalized(to)).subrange(
            prefix.len() as int,
            document_id(normalized(to)).len() as int,
        ) =~= normalized(to));
    }
    if let Ok(snapshot) = seen.scan {
        let stale = stale_tasks(provider, more, snapshot);
        assert forall|r: ResourceModel| stale.contains(r) implies stale_tasks(
            provider,
            contents,
            snapshot,
        ).contains(r) by {
            assert(more[r] == contents[r]);
        }
        if stale_tasks(provider, contents, snapshot) =~= Set::empty() {
            assert(stale =~= Set::empty());
        }
    }
}

/// Applying an event a second time, with nothing changed in the vault, changes nothing in the index,
/// and the second application says so: what was indexed is unchanged. A rename says so where its two
/// paths differ and the scan saw what the target holds; else it may find the target anew.
pub proof fn law_applying_twice_is_applying_once(
    provider: MarkdownVaultProvider,
    contents: IndexModel,
    event: VaultEvent,
    seen: EventObservation,
)
    ensures
        ({
            let once = applied(provider, contents, event, seen);
            let twice = applied(provider, once.0, event, seen);
            let told = match event {
                VaultEvent::Renamed { from, to } => normalized(from@) != normalized(to@)
                    && scan_saw(provider, to@, seen),
                _ => true,
            };
            &&& twice.0 == once.0
            &&& told ==> twice.1 != AppliedEvent::Indexed && twice.1 != AppliedEvent::Removed
            &&& told && once.1 == AppliedEvent::Indexed ==> twice.1 == AppliedEvent::Unchanged
        }),
{
    if let VaultEvent::Renamed { from, to } = event {
        let start = removed(provider, contents, from@, seen.source, seen.scan).0;
        let once = refreshed(provider, start, to@, seen.target, seen.scan).0;
        let again = removed(provider, once, from@, seen.source, seen.scan).0;
        let twice = refreshed(provider, again, to@, seen.target, seen.scan).0;
        lemma_removal_settles(provider, contents, from@, seen.source, seen.scan);
        lemma_refresh_settles(provider, start, to@, seen.target, seen.scan);
        lemma_refresh_touches_one(provider, start, to@, seen.target, seen.scan);
        let target = provider.resource_in(to@, seen.target);
        if once.dom().subset_of(start.dom()) && forall|r: ResourceModel|
            once.dom().contains(r) ==> #[trigger] once[r] == start[r] {
            lemma_removal_of_less(provider, start, once, from@, seen.source, seen.scan);
        } else {
            let r = target->0;
            let entry = once[r];
            lemma_removal_of_one_more(provider, start, r, entry, from@, seen.source, seen.scan);
            if normalized(from@) != normalized(to@) && scan_saw(provider, to@, seen) {
                lemma_removal_spares_the_recorded(provider, start, r, entry, from@, to@, seen);
            }
            if again != once {
                assert(again.insert(r, entry) =~= once);
            }
        }
        assert(twice =~= once);
    } else {
        lemma_refresh_settles(provider, contents, event.target_path(), seen.target, seen.scan);
        lemma_removal_settles(provider, contents, event.target_path(), seen.target, seen.scan);
    }
}

/// Applying an event touches nothing that another workspace or provider owns.
pub proof fn law_foreign_state_is_untouched(
    provider: MarkdownVaultProvider,
    contents: IndexModel,
    event: VaultEvent,
    seen: EventObservation,
    foreign: ResourceModel,
)
    requires
        !provider.owns(foreign),
    ensures
        ({
            let after = applied(provider, contents, event, seen).0;
            &&& after.dom().contains(foreign) == contents.dom().contains(foreign)
            &&& contents.dom().contains(foreign) ==> after[foreign] == contents[foreign]
        }),
{
    if let VaultEvent::Renamed { from, to } = event {
        lemma_removed_keeps_foreign(provider, contents, from@, seen.source, seen.scan, foreign);
        let middle = removed(provider, contents, from@, seen.source, seen.scan).0;
        lemma_refreshed_keeps_foreign(provider, middle, to@, seen.target, seen.scan, foreign);
    } else {
        let path = event.target_path();
        lemma_removed_keeps_foreign(provider, contents, path, seen.target, seen.scan, foreign);
        lemma_refreshed_keeps_foreign(provider, contents, path, seen.target, seen.scan, foreign);
    }
}

proof fn lemma_removed_keeps_foreign(
    provider: MarkdownVaultProvider,
    contents: IndexModel,
    relative: Seq<char>,
    seen: PathObservation,
    scan: Result<ScanSnapshot, ReconciliationError>,
    foreign: ResourceModel,
)
    requires
        !provider.owns(foreign),
    ensures
        ({
            let after = removed(provider, contents, relative, seen, scan).0;
            &&& after.dom().contains(foreign) == contents.dom().contains(foreign)
            &&& contents.dom().contains(foreign) ==> after[foreign] == contents[foreign]
        }),
{
    if let Ok(snapshot) = scan {
        assert(!stale_tasks(provider, contents, snapshot).contains(foreign));
    }
}

proof fn lemma_refreshed_keeps_foreign(
    provider: MarkdownVaultProvider,
    contents: IndexModel,
    relative: Seq<char>,
    seen: PathObservation,
    scan: Result<ScanSnapshot, ReconciliationError>,
    foreign: ResourceModel,
)
    requires
        !provider.owns(foreign),
    ensures
        ({
            let after = refreshed(provider, contents, relative, seen, scan).0;
            &&& after.dom().contains(foreign) == contents.dom().contains(foreign)
            &&& contents.dom().contains(foreign) ==> after[foreign] == contents[foreign]
        }),
{
    lemma_removed_keeps_foreign(provider, contents, relative, seen, scan, foreign);
    if let Some(resource) = provider.resource_in(relative, seen) {
        assert(provider.owns(resource));
    }
}

/// A reconciliation touches nothing that another workspace or provider owns.
pub proof fn law_reconciliation_leaves_foreign_state(
    provider: MarkdownVaultProvider,
    contents: IndexModel,
    snapshot: ScanSnapshot,
    seen: Seq<EventObservation>,
    foreign: ResourceModel,
)
    requires
        !provider.owns(foreign),
    ensures
        ({
            let after = reconciled(provider, contents, snapshot, seen).0;
            &&& after.dom().contains(foreign) == contents.dom().contains(foreign)
            &&& contents.dom().contains(foreign) ==> after[foreign] == contents[foreign]
        }),
{
    lemma_converged_keeps_foreign(
        provider,
        contents,
        snapshot,
        seen,
        snapshot.candidates@.len(),
        foreign,
    );
}

proof fn lemma_converged_keeps_foreign(
    provider: MarkdownVaultProvider,
    contents: IndexModel,
    snapshot: ScanSnapshot,
    seen: Seq<EventObservation>,
    n: nat,
    foreign: ResourceModel,
)
    requires
        !provider.owns(foreign),
    ensures
        ({
            let after = converged(provider, contents, snapshot, seen, n).0;
            &&& after.dom().contains(foreign) == contents.dom().contains(foreign)
            &&& contents.dom().contains(foreign) ==> after[foreign] == contents[foreign]
        }),
    decreases n,
{
    if n > 0 {
        lemma_converged_keeps_foreign(provider, contents, snapshot, seen, (n - 1) as nat, foreign);
        let before = converged(provider, contents, snapshot, seen, (n - 1) as nat).0;
        lemma_refreshed_keeps_foreign(
            provider,
            before,
            snapshot.candidates@[n - 1].0@,
            seen[n - 1].target,
            seen[n - 1].scan,
            foreign,
        );
    }
}

/// After a reconciliation the index holds no owned resource that the scan did not see.
pub proof fn law_reconciliation_removes_what_is_gone(
    provider: MarkdownVaultProvider,
    contents: IndexModel,
    snapshot: ScanSnapshot,
    seen: Seq<EventObservation>,
    resource: ResourceModel,
)
    requires
        reconciled(provider, contents, snapshot, seen).0.dom().contains(resource),
        provider.owns(resource),
    ensures
        snapshot.live(resource),
{
    let after = converged(provider, contents, snapshot, seen, snapshot.candidates@.len()).0;
    assert(!stale_resources(provider, after, snapshot).contains(resource));
}

/// The vault did not change between the scan and the reads: at each candidate path the file that the
/// scan saw is still there and holds the same resource.
pub open spec fn stable(
    provider: MarkdownVaultProvider,
    snapshot: ScanSnapshot,
    seen: Seq<EventObservation>,
) -> bool {
    &&& seen.len() == snapshot.candidates@.len()
    &&& forall|i: int|
        0 <= i < seen.len() ==> scanned_resource(
            provider,
            snapshot.candidates@[i].0@,
            (#[trigger] seen[i]).target,
        ) == Ok::<Option<ResourceModel>, ReconciliationError>(Some(snapshot.candidates@[i].1@))
}

/// Bringing the candidate up to date again would change nothing.
spec fn up_to_date(contents: IndexModel, resource: ResourceModel, seen: PathObservation) -> bool {
    ||| current_in(contents, resource, seen.contents->Bytes_0@)
    ||| seen.extraction is None
    ||| seen.extraction->0.chunks@.len() == 0 && !contents.dom().contains(resource)
}

proof fn lemma_up_to_date_is_a_fixpoint(
    provider: MarkdownVaultProvider,
    contents: IndexModel,
    relative: Seq<char>,
    resource: ResourceModel,
    seen: PathObservation,
    scan: Result<ScanSnapshot, ReconciliationError>,
)
    requires
        scanned_resource(provider, relative, seen) == Ok::<
            Option<ResourceModel>,
            ReconciliationError,
        >(Some(resource)),
    ensures
        up_to_date(contents, resource, seen) ==> ({
            let next = refreshed(provider, contents, relative, seen, scan);
            next.0 == contents && next.1 != AppliedEvent::Indexed && next.1 != AppliedEvent::Removed
        }),
        up_to_date(refreshed(provider, contents, relative, seen, scan).0, resource, seen),
        forall|other: ResourceModel|
            other != resource ==> #[trigger] refreshed(
                provider,
                contents,
                relative,
                seen,
                scan,
            ).0.dom().contains(other) == contents.dom().contains(other) && (contents.dom().contains(
                other,
            ) ==> refreshed(provider, contents, relative, seen, scan).0[other] == contents[other]),
{
    if up_to_date(contents, resource, seen) && !contents.dom().contains(resource) {
        assert(contents.remove(resource) =~= contents);
    }
}

proof fn lemma_converged_is_up_to_date(
    provider: MarkdownVaultProvider,
    contents: IndexModel,
    snapshot: ScanSnapshot,
    seen: Seq<EventObservation>,
    n: nat,
    i: int,
)
    requires
        snapshot.wf(),
        stable(provider, snapshot, seen),
        0 <= i < n <= seen.len(),
    ensures
        up_to_date(
            converged(provider, contents, snapshot, seen, n).0,
            snapshot.candidates@[i].1@,
            seen[i].target,
        ),
    decreases n,
{
    let before = converged(provider, contents, snapshot, seen, (n - 1) as nat).0;
    let last = n - 1;
    assert(scanned_resource(provider, snapshot.candidates@[last].0@, seen[last].target) is Ok);
    lemma_up_to_date_is_a_fixpoint(
        provider,
        before,
        snapshot.candidates@[last].0@,
        snapshot.candidates@[last].1@,
        seen[last].target,
        seen[last].scan,
    );
    if i < last {
        lemma_converged_is_up_to_date(provider, contents, snapshot, seen, (n - 1) as nat, i);
        assert(snapshot.candidates@[i].1@ != snapshot.candidates@[last].1@);
        let after = converged(provider, contents, snapshot, seen, n).0;
        let r = snapshot.candidates@[i].1@;
        assert(after.dom().contains(r) == before.dom().contains(r));
    }
}

proof fn lemma_converging_from_a_fixpoint(
    provider: MarkdownVaultProvider,
    contents: IndexModel,
    snapshot: ScanSnapshot,
    seen: Seq<EventObservation>,
    n: nat,
)
    requires
        stable(provider, snapshot, seen),
        n <= seen.len(),
        forall|i: int|
            0 <= i < seen.len() ==> up_to_date(
                contents,
                snapshot.candidates@[i].1@,
                (#[trigger] seen[i]).target,
            ),
    ensures
        converged(provider, contents, snapshot, seen, n).0 == contents,
        converged(provider, contents, snapshot, seen, n).1.indexed == 0,
        converged(provider, contents, snapshot, seen, n).1.removed == 0,
    decreases n,
{
    if n > 0 {
        lemma_converging_from_a_fixpoint(provider, contents, snapshot, seen, (n - 1) as nat);
        let last = n - 1;
        assert(up_to_date(contents, snapshot.candidates@[last].1@, seen[last].target));
        lemma_up_to_date_is_a_fixpoint(
            provider,
            contents,
            snapshot.candidates@[last].0@,
            snapshot.candidates@[last].1@,
            seen[last].target,
            seen[last].scan,
        );
    }
}

/// Both indexes hold the same for the resource.
spec fn agree_on(a: IndexModel, b: IndexModel, resource: ResourceModel) -> bool {
    &&& a.dom().contains(resource) == b.dom().contains(resource)
    &&& a.dom().contains(resource) ==> a[resource] == b[resource]
}

/// Bringing candidates up to date leaves what the index holds for a resource of another candidate,
/// or of one that nothing can be extracted from.
proof fn lemma_converging_leaves_the_others(
    provider: MarkdownVaultProvider,
    contents: IndexModel,
    snapshot: ScanSnapshot,
    seen: Seq<EventObservation>,
    n: nat,
    resource: ResourceModel,
)
    requires
        stable(provider, snapshot, seen),
        n <= seen.len(),
        forall|i: int|
            0 <= i < n ==> snapshot.candidates@[i].1@ != resource || (
            #[trigger] seen[i]).target.extraction is None,
    ensures
        agree_on(converged(provider, contents, snapshot, seen, n).0, contents, resource),
    decreases n,
{
    if n > 0 {
        let last = n - 1;
        let before = converged(provider, contents, snapshot, seen, last as nat).0;
        lemma_converging_leaves_the_others(provider, contents, snapshot, seen, last as nat, resource);
        assert(scanned_resource(provider, snapshot.candidates@[last].0@, seen[last].target) is Ok);
        lemma_up_to_date_is_a_fixpoint(
            provider,
            before,
            snapshot.candidates@[last].0@,
            snapshot.candidates@[last].1@,
            seen[last].target,
            seen[last].scan,
        );
        let after = converged(provider, contents, snapshot, seen, n).0;
        assert(after.dom().contains(resource) == before.dom().contains(resource));
    }
}

/// How many candidates are skipped depends on those that nothing can be extracted from alone.
proof fn lemma_skips_agree(
    provider: MarkdownVaultProvider,
    a: IndexModel,
    b: IndexModel,
    snapshot: ScanSnapshot,
    seen: Seq<EventObservation>,
    n: nat,
)
    requires
        snapshot.wf(),
        stable(provider, snapshot, seen),
        n <= seen.len(),
        forall|i: int|
            0 <= i < seen.len() && (#[trigger] seen[i]).target.extraction is None ==> agree_on(
                a,
                b,
                snapshot.candidates@[i].1@,
            ),
    ensures
        converged(provider, a, snapshot, seen, n).1.skipped == converged(
            provider,
            b,
            snapshot,
            seen,
            n,
        ).1.skipped,
    decreases n,
{
    if n > 0 {
        let last = n - 1;
        lemma_skips_agree(provider, a, b, snapshot, seen, last as nat);
        let resource = snapshot.candidates@[last].1@;
        assert forall|i: int| 0 <= i < last implies snapshot.candidates@[i].1@ != resource || (
        #[trigger] seen[i]).target.extraction is None by {
            assert(snapshot.candidates@[i].1@ != snapshot.candidates@[last].1@);
        }
        lemma_converging_leaves_the_others(provider, a, snapshot, seen, last as nat, resource);
        lemma_converging_leaves_the_others(provider, b, snapshot, seen, last as nat, resource);
        let bytes = seen[last].target.contents->Bytes_0@;
        let from_a = converged(provider, a, snapshot, seen, last as nat).0;
        let from_b = converged(provider, b, snapshot, seen, last as nat).0;
        assert(scanned_resource(provider, snapshot.candidates@[last].0@, seen[last].target) is Ok);
        if seen[last].target.extraction is None {
            assert(agree_on(a, b, resource));
            assert(current_in(from_a, resource, bytes) == current_in(from_b, resource, bytes));
        }
    }
}

/// Convergence is idempotent: while the vault does not change, a second reconciliation finds nothing
/// to index and nothing to remove, skips as many as the first one, and leaves the index as the first
/// one left it.
pub proof fn law_reconciliation_converges(
    provider: MarkdownVaultProvider,
    contents: IndexModel,
    snapshot: ScanSnapshot,
    seen: Seq<EventObservation>,
)
    requires
        snapshot.wf(),
        stable(provider, snapshot, seen),
    ensures
        ({
            let once = reconciled(provider, contents, snapshot, seen);
            let twice = reconciled(provider, once.0, snapshot, seen);
            &&& twice.0 == once.0
            &&& twice.1.indexed == 0
            &&& twice.1.removed == 0
            &&& twice.1.skipped == once.1.skipped
        }),
{
    let n = snapshot.candidates@.len();
    let after = converged(provider, contents, snapshot, seen, n).0;
    let once = reconciled(provider, contents, snapshot, seen).0;
    assert forall|i: int| 0 <= i < seen.len() implies up_to_date(
        once,
        snapshot.candidates@[i].1@,
        (#[trigger] seen[i]).target,
    ) by {
        lemma_converged_is_up_to_date(provider, contents, snapshot, seen, n, i);
        assert(snapshot.candidates@[i].1@ == snapshot.candidates@[i].1@);
        assert(snapshot.live(snapshot.candidates@[i].1@));
        assert(!stale_resources(provider, after, snapshot).contains(snapshot.candidates@[i].1@));
    }
    lemma_converging_from_a_fixpoint(provider, once, snapshot, seen, n);
    let stale = stale_resources(provider, once, snapshot);
    assert(stale =~= Set::empty()) by {
        assert forall|r: ResourceModel| !stale.contains(r) by {
            if stale.contains(r) {
                assert(stale_resources(provider, after, snapshot).contains(r));
            }
        }
    }
    assert(once.remove_keys(stale) =~= once);
    assert forall|i: int| 0 <= i < seen.len() && (
    #[trigger] seen[i]).target.extraction is None implies agree_on(
        contents,
        once,
        snapshot.candidates@[i].1@,
    ) by {
        let resource = snapshot.candidates@[i].1@;
        assert forall|k: int| 0 <= k < n implies snapshot.candidates@[k].1@ != resource || (
        #[trigger] seen[k]).target.extraction is None by {
            if k != i {
                assert(snapshot.candidates@[k].1@ != snapshot.candidates@[i].1@);
            }
        }
        lemma_converging_leaves_the_others(provider, contents, snapshot, seen, n, resource);
        assert(snapshot.live(resource));
        assert(!stale_resources(provider, after, snapshot).contains(resource));
    }
    lemma_skips_agree(provider, contents, once, snapshot, seen, n);
}

/// Each outcome is counted under its own name, and nothing else is.
pub proof fn law_outcomes_are_counted_once(tally: Tally, outcome: AppliedEvent)
    ensures
        ({
            let next = counted(tally, outcome);
            &&& next.indexed == tally.indexed + (if outcome == AppliedEvent::Indexed {
                1int
            } else {
                0
            })
            &&& next.unchanged == tally.unchanged + (if outcome == AppliedEvent::Unchanged {
                1int
            } else {
                0
            })
            &&& next.removed == tally.removed + (if outcome == AppliedEvent::Removed {
                1int
            } else {
                0
            })
            &&& next.skipped == tally.skipped + (if outcome == AppliedEvent::Skipped {
                1int
            } else {
                0
            })
        }),
{
}

/// A report accounts for every candidate and for everything that left: indexed, unchanged, removed
/// and skipped add up to the candidates, the files that the scan itself passed over, and the owned
/// resources that went.
pub proof fn law_the_report_adds_up(
    provider: MarkdownVaultProvider,
    contents: IndexModel,
    snapshot: ScanSnapshot,
    seen: Seq<EventObservation>,
)
    ensures
        ({
            let n = snapshot.candidates@.len();
            let before = converged(provider, contents, snapshot, seen, n).0;
            let (after, tally) = reconciled(provider, contents, snapshot, seen);
            let gone = before.dom().filter(
                |r: ResourceModel| !after.dom().contains(r),
            );
            tally.indexed + tally.unchanged + tally.removed + tally.skipped == n + snapshot.skipped
                + gone.len()
        }),
{
    let n = snapshot.candidates@.len();
    lemma_outcomes_add_up(provider, contents, snapshot, seen, n);
    let before = converged(provider, contents, snapshot, seen, n).0;
    let after = reconciled(provider, contents, snapshot, seen).0;
    let gone = before.dom().filter(|r: ResourceModel| !after.dom().contains(r));
    assert(gone =~= stale_resources(provider, before, snapshot));
}

proof fn lemma_outcomes_add_up(
    provider: MarkdownVaultProvider,
    contents: IndexModel,
    snapshot: ScanSnapshot,
    seen: Seq<EventObservation>,
    n: nat,
)
    ensures
        ({
            let tally = converged(provider, contents, snapshot, seen, n).1;
            tally.indexed + tally.unchanged + tally.removed + tally.skipped == n + snapshot.skipped
        }),
    decreases n,
{
    if n > 0 {
        lemma_outcomes_add_up(provider, contents, snapshot, seen, (n - 1) as nat);
    }
}

/// After a reconciliation every note that the scan saw, that still stands there and that something
/// can be extracted from is in the index, and every piece of it comes from the bytes that were read;
/// where nothing of it was there before, it is there whole.
pub proof fn law_reconciliation_indexes_what_the_scan_saw(
    provider: MarkdownVaultProvider,
    contents: IndexModel,
    snapshot: ScanSnapshot,
    seen: Seq<EventObservation>,
    i: int,
)
    requires
        snapshot.wf(),
        stable(provider, snapshot, seen),
        0 <= i < seen.len(),
        seen[i].target.extraction matches Some(extraction) && extraction.chunks@.len() > 0,
    ensures
        ({
            let resource = snapshot.candidates@[i].1@;
            let bytes = seen[i].target.contents->Bytes_0@;
            let after = reconciled(provider, contents, snapshot, seen).0;
            &&& after.dom().contains(resource)
            &&& after[resource].chunks.len() > 0
            &&& forall|k: int|
                0 <= k < after[resource].chunks.len() ==> (
                #[trigger] after[resource].chunks[k]).hash == sha256_digest(bytes)
                    && after[resource].chunks[k].revision == "rev-"@ + hex(
                    sha256_digest(bytes).subrange(0, 16),
                )
            &&& !contents.dom().contains(resource) ==> holds_whole_note(
                after[resource],
                seen[i].target.extraction->0,
                bytes,
            )
        }),
{
    let n = snapshot.candidates@.len();
    let resource = snapshot.candidates@[i].1@;
    let bytes = seen[i].target.contents->Bytes_0@;
    let whole = converged(provider, contents, snapshot, seen, n).0;
    lemma_converged_is_up_to_date(provider, contents, snapshot, seen, n, i);
    assert(snapshot.live(resource));
    assert(!stale_resources(provider, whole, snapshot).contains(resource));
    assert(current_in(whole, resource, bytes));
    if !contents.dom().contains(resource) {
        lemma_new_note_is_whole(provider, contents, snapshot, seen, n, i);
    }
}

proof fn lemma_new_note_is_whole(
    provider: MarkdownVaultProvider,
    contents: IndexModel,
    snapshot: ScanSnapshot,
    seen: Seq<EventObservation>,
    n: nat,
    i: int,
)
    requires
        snapshot.wf(),
        stable(provider, snapshot, seen),
        0 <= i < n <= seen.len(),
        seen[i].target.extraction matches Some(extraction) && extraction.chunks@.len() > 0,
        !contents.dom().contains(snapshot.candidates@[i].1@),
    ensures
        converged(provider, contents, snapshot, seen, n).0.dom().contains(snapshot.candidates@[i].1@),
        holds_whole_note(
            converged(provider, contents, snapshot, seen, n).0[snapshot.candidates@[i].1@],
            seen[i].target.extraction->0,
            seen[i].target.contents->Bytes_0@,
        ),
    decreases n,
{
    let last = n - 1;
    let resource = snapshot.candidates@[i].1@;
    let before = converged(provider, contents, snapshot, seen, last as nat).0;
    assert(scanned_resource(provider, snapshot.candidates@[last].0@, seen[last].target) is Ok);
    lemma_up_to_date_is_a_fixpoint(
        provider,
        before,
        snapshot.candidates@[last].0@,
        snapshot.candidates@[last].1@,
        seen[last].target,
        seen[last].scan,
    );
    let after = converged(provider, contents, snapshot, seen, n).0;
    if i < last {
        lemma_new_note_is_whole(provider, contents, snapshot, seen, last as nat, i);
        assert(snapshot.candidates@[i].1@ != snapshot.candidates@[last].1@);
        assert(after.dom().contains(resource) == before.dom().contains(resource));
    } else {
        assert forall|k: int| 0 <= k < last implies snapshot.candidates@[k].1@ != resource || (
        #[trigger] seen[k]).target.extraction is None by {
            assert(snapshot.candidates@[k].1@ != snapshot.candidates@[i].1@);
        }
        lemma_converging_leaves_the_others(
            provider,
            contents,
            snapshot,
            seen,
            last as nat,
            resource,
        );
        assert(!before.dom().contains(resource));
    }
}

/// A run is due at once where none was completed, and else from the moment on at which the interval
/// has passed since the last one; a clock that went back makes none due.
pub proof fn law_runs_are_due_after_the_interval(reconciler: VaultReconciler, now_millis: u64)
    requires
        reconciler.interval() > 0,
    ensures
        reconciler.last_run() is None ==> reconciler.due(now_millis),
        reconciler.last_run() matches Some(last) ==> (reconciler.due(now_millis) <==> now_millis
            >= last + reconciler.interval()),
{
}

/// A scan lists exactly the paths that hold a resource, in order and each with its own; it counts the
/// others; and no resource stands in it twice.
pub proof fn law_a_scan_lists_what_holds_a_resource(
    provider: MarkdownVaultProvider,
    paths: Seq<Seq<char>>,
    seen: Seq<PathObservation>,
    n: nat,
)
    requires
        n <= paths.len(),
        n <= seen.len(),
        scanned(provider, paths, seen, n) is Ok,
    ensures
        ({
            let (found, skipped) = scanned(provider, paths, seen, n)->Ok_0;
            &&& found.len() + skipped == n
            &&& forall|a: int, b: int|
                0 <= a < b < found.len() ==> (#[trigger] found[a]).1 != (#[trigger] found[b]).1
            &&& forall|k: int|
                0 <= k < found.len() ==> exists|i: int|
                    0 <= i < n && paths[i] == (#[trigger] found[k]).0 && filed_under(
                        provider,
                        paths[i],
                        #[trigger] seen[i],
                        found[k].1,
                    ) && seen[i].contents is Bytes
        }),
    decreases n,
{
    if n > 0 {
        law_a_scan_lists_what_holds_a_resource(provider, paths, seen, (n - 1) as nat);
        let (earlier, _) = scanned(provider, paths, seen, (n - 1) as nat)->Ok_0;
        let (found, _) = scanned(provider, paths, seen, n)->Ok_0;
        assert forall|k: int| 0 <= k < found.len() implies exists|i: int|
            0 <= i < n && paths[i] == (#[trigger] found[k]).0 && filed_under(
                provider,
                paths[i],
                #[trigger] seen[i],
                found[k].1,
            ) && seen[i].contents is Bytes by {
            if k < earlier.len() {
                assert(found[k] == earlier[k]);
                let i = choose|i: int|
                    0 <= i < n - 1 && paths[i] == earlier[k].0 && filed_under(
                        provider,
                        paths[i],
                        #[trigger] seen[i],
                        earlier[k].1,
                    ) && seen[i].contents is Bytes;
                assert(seen[i].contents is Bytes);
            } else {
                assert(filed_under(provider, paths[n - 1], seen[n - 1], found[k].1));
            }
        }
    }
}

/// Two readable notes that claim one resource make a scan ambiguous, and one that cannot be read to
/// its end makes it incomplete: neither passes for a complete scan.
pub proof fn law_an_unsure_scan_is_refused(
    provider: MarkdownVaultProvider,
    paths: Seq<Seq<char>>,
    seen: Seq<PathObservation>,
    i: int,
)
    requires
        0 <= i < paths.len(),
        paths.len() == seen.len(),
        seen[i].contents is Missing || seen[i].contents is Unreadable,
    ensures
        scanned(provider, paths, seen, paths.len()) is Err,
{
    let n = (i + 1) as nat;
    assert(scanned(provider, paths, seen, n) is Err);
    lemma_scan_fails(
        provider,
        paths,
        seen,
        n,
        paths.len(),
        scanned(provider, paths, seen, n)->Err_0,
    );
}

/// Two paths that hold the same resource never both pass in one scan.
pub proof fn law_duplicates_are_refused(
    provider: MarkdownVaultProvider,
    paths: Seq<Seq<char>>,
    seen: Seq<PathObservation>,
    i: int,
    j: int,
)
    requires
        0 <= i < j < paths.len(),
        paths.len() == seen.len(),
        scanned_resource(provider, paths[i], seen[i]) matches Ok(Some(_)),
        scanned_resource(provider, paths[i], seen[i]) == scanned_resource(
            provider,
            paths[j],
            seen[j],
        ),
    ensures
        scanned(provider, paths, seen, paths.len()) is Err,
{
    let resource = scanned_resource(provider, paths[i], seen[i])->Ok_0->0;
    if scanned(provider, paths, seen, paths.len()) is Ok {
        lemma_scan_keeps(provider, paths, seen, (i + 1) as nat, j as nat, resource);
        lemma_scan_prefix(provider, paths, seen, (j + 1) as nat, paths.len());
        let found = scanned(provider, paths, seen, j as nat)->Ok_0.0;
        let k = choose|k: int| 0 <= k < found.len() && (#[trigger] found[k]).1 == resource;
        assert(found[k].1 == resource);
    }
}

proof fn lemma_scan_prefix(
    provider: MarkdownVaultProvider,
    paths: Seq<Seq<char>>,
    seen: Seq<PathObservation>,
    n: nat,
    total: nat,
)
    requires
        n <= total,
        scanned(provider, paths, seen, total) is Ok,
    ensures
        scanned(provider, paths, seen, n) is Ok,
    decreases total,
{
    if n < total {
        lemma_scan_prefix(provider, paths, seen, n, (total - 1) as nat);
    }
}

proof fn lemma_scan_keeps(
    provider: MarkdownVaultProvider,
    paths: Seq<Seq<char>>,
    seen: Seq<PathObservation>,
    from: nat,
    n: nat,
    resource: ResourceModel,
)
    requires
        0 < from <= n <= paths.len(),
        scanned(provider, paths, seen, paths.len()) is Ok,
        scanned_resource(provider, paths[from - 1], seen[from - 1]) == Ok::<
            Option<ResourceModel>,
            ReconciliationError,
        >(Some(resource)),
    ensures
        scanned(provider, paths, seen, n) is Ok,
        exists|k: int|
            0 <= k < scanned(provider, paths, seen, n)->Ok_0.0.len() && (#[trigger] scanned(
                provider,
                paths,
                seen,
                n,
            )->Ok_0.0[k]).1 == resource,
    decreases n,
{
    lemma_scan_prefix(provider, paths, seen, n, paths.len());
    let found = scanned(provider, paths, seen, n)->Ok_0.0;
    if n == from {
        assert(found[found.len() - 1].1 == resource);
    } else {
        lemma_scan_keeps(provider, paths, seen, from, (n - 1) as nat, resource);
        let earlier = scanned(provider, paths, seen, (n - 1) as nat)->Ok_0.0;
        let k = choose|k: int| 0 <= k < earlier.len() && (#[trigger] earlier[k]).1 == resource;
        assert(found[k].1 == resource);
    }
}

/// A scan that read every path, and met no resource twice, succeeds, and leaves out no path that holds
/// a resource.
pub proof fn law_a_clear_scan_is_complete(
    provider: MarkdownVaultProvider,
    paths: Seq<Seq<char>>,
    seen: Seq<PathObservation>,
    n: nat,
)
    requires
        n <= paths.len(),
        n <= seen.len(),
        forall|i: int|
            0 <= i < n ==> scanned_resource(provider, paths[i], #[trigger] seen[i]) is Ok,
        forall|i: int, j: int|
            0 <= i < j < n && scanned_resource(provider, paths[i], seen[i])->Ok_0 is Some
                ==> scanned_resource(provider, paths[i], #[trigger] seen[i])->Ok_0
                != scanned_resource(provider, paths[j], #[trigger] seen[j])->Ok_0,
    ensures
        scanned(provider, paths, seen, n) is Ok,
        forall|i: int|
            0 <= i < n && scanned_resource(provider, paths[i], #[trigger] seen[i])->Ok_0 is Some
                ==> scanned(provider, paths, seen, n)->Ok_0.0.contains(
                (paths[i], scanned_resource(provider, paths[i], seen[i])->Ok_0->0),
            ),
        forall|k: int|
            0 <= k < scanned(provider, paths, seen, n)->Ok_0.0.len() ==> exists|i: int|
                0 <= i < n && scanned_resource(provider, paths[i], #[trigger] seen[i])->Ok_0 == Some(
                    (#[trigger] scanned(provider, paths, seen, n)->Ok_0.0[k]).1,
                ),
    decreases n,
{
    if n > 0 {
        let m = (n - 1) as nat;
        law_a_clear_scan_is_complete(provider, paths, seen, m);
        let earlier = scanned(provider, paths, seen, m)->Ok_0.0;
        let one = scanned_resource(provider, paths[n - 1], seen[n - 1])->Ok_0;
        assert(scanned_resource(provider, paths[n - 1], seen[n - 1]) is Ok);
        if let Some(resource) = one {
            assert forall|k: int| 0 <= k < earlier.len() implies (#[trigger] earlier[k]).1
                != resource by {
                let i = choose|i: int|
                    0 <= i < m && scanned_resource(provider, paths[i], #[trigger] seen[i])->Ok_0
                        == Some(earlier[k].1);
                assert(scanned_resource(provider, paths[i], seen[i])->Ok_0 != scanned_resource(
                    provider,
                    paths[n - 1],
                    seen[n - 1],
                )->Ok_0);
            }
        }
        let found = scanned(provider, paths, seen, n)->Ok_0.0;
        assert forall|i: int|
            0 <= i < n && scanned_resource(
                provider,
                paths[i],
                #[trigger] seen[i],
            )->Ok_0 is Some implies found.contains(
            (paths[i], scanned_resource(provider, paths[i], seen[i])->Ok_0->0),
        ) by {
            let entry = (paths[i], scanned_resource(provider, paths[i], seen[i])->Ok_0->0);
            if i == n - 1 {
                assert(found[found.len() - 1] == entry);
            } else {
                let k = choose|k: int| 0 <= k < earlier.len() && earlier[k] == entry;
                assert(found[k] == entry);
            }
        }
        assert forall|k: int| 0 <= k < found.len() implies exists|i: int|
            0 <= i < n && scanned_resource(provider, paths[i], #[trigger] seen[i])->Ok_0 == Some(
                (#[trigger] found[k]).1,
            ) by {
            if k < earlier.len() {
                assert(found[k] == earlier[k]);
                let i = choose|i: int|
                    0 <= i < m && scanned_resource(provider, paths[i], #[trigger] seen[i])->Ok_0
                        == Some(earlier[k].1);
                assert(scanned_resource(provider, paths[i], seen[i])->Ok_0 == Some(found[k].1));
            } else {
                assert(scanned_resource(provider, paths[n - 1], seen[n - 1])->Ok_0 == Some(
                    found[k].1,
                ));
            }
        }
    }
}

/// A snapshot says of each path what the scan found there, position by position; and a report says of
/// each outcome how often it came, under its own name.
pub proof fn law_snapshots_and_reports_are_faithful(
    candidates: Seq<(String, ProviderResourceRef)>,
    found: Seq<(Seq<char>, ResourceModel)>,
    report: ReconciliationReport,
    tally: Tally,
)
    ensures
        lists_exactly(candidates, found) ==> candidates.len() == found.len() && forall|i: int|
            0 <= i < found.len() ==> (#[trigger] found[i]).0 == candidates[i].0@ && found[i].1
                == candidates[i].1@,
        reports(report, tally) ==> report.indexed == tally.indexed && report.unchanged
            == tally.unchanged && report.removed == tally.removed && report.skipped == tally.skipped,
{
    if lists_exactly(candidates, found) {
        assert forall|i: int| 0 <= i < found.len() implies (#[trigger] found[i]).0
            == candidates[i].0@ && found[i].1 == candidates[i].1@ by {
            assert(candidates[i].0@ == found[i].0);
        }
    }
}

} // verus!
