//! Debounced, idempotent vault watching, and the reconciliation that heals missed events.

use std::collections::BTreeMap;

use cortexd::ids::{ProviderResourceKind, ProviderResourceRef, WorkspaceId};
use cortexd::index::{DerivedVaultIndex, DocumentEntry, IndexedChunk};
use cortexd::reconcile::{
    apply_event, is_not_found, read_bounded, read_to_limit, revision_of, AppliedEvent, BoundedRead,
    ChunkDraft, EventObservation, Extraction, FileFacts, MarkdownParse, PathObservation,
    ReadFailure, ReconciliationError, ReconciliationReport, ScanSnapshot, MAX_WATCHED_FILE_BYTES,
};
use cortexd::vault::{
    PathNotation, VaultExclusion, VaultProviderConfig, VaultProviderMode, VaultScope,
};
use cortexd::vault_listing::{DirectoryEntry, VaultListing};
use cortexd::vault_provider::MarkdownVaultProvider;
use cortexd::vault_scan::{
    rebuild_vault, reconcile_vault, scan_indexable_resources, VaultReconciler,
};
use cortexd::vault_watcher::{CoalescedEvent, EventQueue, VaultEvent};

const TASK_ID: &str = "01926c8f-88f9-7d33-9a1b-2c7d33bd0a12";

fn workspace(value: u128) -> WorkspaceId {
    WorkspaceId { value }
}

fn provider_with(exclusions: Vec<VaultExclusion>) -> MarkdownVaultProvider {
    let config = VaultProviderConfig::new(
        "markdown-vault",
        true,
        "/vault".to_owned(),
        VaultProviderMode::ReadWrite,
        vec![
            VaultScope::new("knowledge").expect("valid"),
            VaultScope::new("task").expect("valid"),
        ],
        exclusions,
    )
    .expect("valid config");
    MarkdownVaultProvider::open(
        config,
        workspace(1),
        Some(vec!["vault".to_owned()]),
        PathNotation::Unix,
    )
    .expect("vault opens")
}

fn provider() -> MarkdownVaultProvider {
    provider_with(Vec::new())
}

/// The files of a vault, by relative path.
#[derive(Clone, Default)]
struct Disk {
    files: BTreeMap<String, Vec<u8>>,
}

impl Disk {
    fn write(&mut self, relative: &str, text: &str) {
        self.files.insert(relative.to_owned(), text.as_bytes().to_vec());
    }

    fn remove(&mut self, relative: &str) {
        self.files.remove(relative).expect("file is there");
    }

    fn rename(&mut self, from: &str, to: &str) {
        let bytes = self.files.remove(from).expect("file is there");
        self.files.insert(to.to_owned(), bytes);
    }

    fn contents(&self, relative: &str) -> BoundedRead {
        match self.files.get(relative) {
            None => read_bounded(Err(ReadFailure::NotFound), Err(ReadFailure::NotFound)),
            Some(bytes) => read_bounded(
                Ok(FileFacts {
                    is_file: true,
                    length: u64::try_from(bytes.len()).expect("bounded"),
                }),
                Ok(Ok(bytes.clone())),
            ),
        }
    }

    fn observe(&self, relative: &str) -> PathObservation {
        let text = self
            .files
            .get(relative)
            .and_then(|bytes| String::from_utf8(bytes.clone()).ok())
            .unwrap_or_default();
        PathObservation {
            ancestors: Vec::new(),
            is_file: self.files.contains_key(relative),
            contents: self.contents(relative),
            representable: relative.len() <= 500,
            markdown: parse(relative, &text),
            extraction: Some(extract(&text)),
        }
    }

    fn paths(&self) -> Vec<DirectoryEntry> {
        self.files
            .keys()
            .map(|relative| DirectoryEntry {
                relative: Some(relative.clone()),
                is_directory: false,
                extension: relative.rsplit_once('.').map(|(_, e)| e.to_owned()),
                representable: relative.len() <= 500,
                ancestors: Vec::new(),
            })
            .collect()
    }

    fn scan(&self, provider: &MarkdownVaultProvider) -> Result<ScanSnapshot, ReconciliationError> {
        let paths = provider.indexable_paths(&VaultListing {
            entries: self.paths(),
            complete: true,
        });
        let seen: Vec<PathObservation> = match &paths {
            Ok(paths) => paths.iter().map(|path| self.observe(path)).collect(),
            Err(_) => Vec::new(),
        };
        scan_indexable_resources(provider, paths, &seen)
    }

    fn seen(
        &self,
        provider: &MarkdownVaultProvider,
        source: &str,
        target: &str,
    ) -> EventObservation {
        EventObservation {
            source: self.observe(source),
            target: self.observe(target),
            scan: self.scan(provider),
        }
    }

    fn candidates(&self, provider: &MarkdownVaultProvider) -> Vec<EventObservation> {
        match self.scan(provider) {
            Ok(snapshot) => snapshot
                .candidates
                .iter()
                .map(|(relative, _)| self.seen(provider, relative, relative))
                .collect(),
            Err(_) => Vec::new(),
        }
    }

    fn reconcile(
        &self,
        provider: &MarkdownVaultProvider,
        index: &mut DerivedVaultIndex,
    ) -> Result<ReconciliationReport, ReconciliationError> {
        reconcile_vault(provider, index, self.scan(provider), self.candidates(provider))
    }

    fn rebuild(
        &self,
        provider: &MarkdownVaultProvider,
        index: &mut DerivedVaultIndex,
    ) -> Result<ReconciliationReport, ReconciliationError> {
        rebuild_vault(provider, index, self.scan(provider), self.candidates(provider))
    }

    fn apply(
        &self,
        provider: &MarkdownVaultProvider,
        index: &mut DerivedVaultIndex,
        event: &CoalescedEvent,
    ) -> AppliedEvent {
        let source = match &event.event {
            VaultEvent::Renamed { from, .. } => from.clone(),
            other => other.target().to_owned(),
        };
        apply_event(
            provider,
            index,
            event,
            self.seen(provider, &source, event.event.target()),
        )
    }
}

/// A front matter is opened and closed by a fence; a task file needs its identity in it.
fn parse(relative: &str, text: &str) -> MarkdownParse {
    let matter = match text.strip_prefix("---\n") {
        Some(rest) => match rest.split_once("\n---\n") {
            Some((matter, _)) => matter.to_owned(),
            None => return MarkdownParse::Rejected,
        },
        None => String::new(),
    };
    if !relative.starts_with("Tasks/") {
        return MarkdownParse::Parsed { task_id: None };
    }
    match matter.lines().find_map(|line| line.strip_prefix("brain_id: ")) {
        Some(id) => MarkdownParse::Parsed { task_id: Some(id.to_owned()) },
        None => MarkdownParse::Rejected,
    }
}

fn extract(text: &str) -> Extraction {
    let body = match text.strip_prefix("---\n").and_then(|rest| rest.split_once("\n---\n")) {
        Some((_, body)) => body,
        None => text,
    };
    let chunks = body
        .as_bytes()
        .chunks(1024)
        .filter(|piece| !piece.is_empty())
        .zip(1u64..)
        .map(|(piece, ordinal)| ChunkDraft {
            ordinal,
            text: String::from_utf8_lossy(piece).into_owned(),
        })
        .collect();
    Extraction {
        document: Some(DocumentEntry {
            title: "title".to_owned(),
            task_status: None,
            task_priority: None,
        }),
        chunks,
    }
}

fn chunk_count(index: &DerivedVaultIndex) -> usize {
    index
        .resources()
        .iter()
        .map(|resource| index.chunks_for_resource(resource).len())
        .sum()
}

fn matching(index: &DerivedVaultIndex, word: &str) -> Vec<String> {
    index
        .resources()
        .iter()
        .filter(|resource| {
            index
                .chunks_for_resource(resource)
                .iter()
                .any(|chunk| chunk.text.contains(word))
        })
        .map(|resource| resource.resource_id.clone())
        .collect()
}

fn documents(index: &DerivedVaultIndex) -> Vec<String> {
    index
        .documents()
        .into_iter()
        .map(|resource| resource.resource_id)
        .collect()
}

fn counts(report: ReconciliationReport) -> (usize, usize, usize, usize) {
    (report.indexed, report.unchanged, report.removed, report.skipped)
}

fn updated(relative: &str) -> CoalescedEvent {
    CoalescedEvent {
        event: VaultEvent::Updated { relative: relative.to_owned() },
        observed_at: 1,
    }
}

fn deleted(relative: &str) -> CoalescedEvent {
    CoalescedEvent {
        event: VaultEvent::Deleted { relative: relative.to_owned() },
        observed_at: 2,
    }
}

fn renamed(from: &str, to: &str) -> CoalescedEvent {
    CoalescedEvent {
        event: VaultEvent::Renamed { from: from.to_owned(), to: to.to_owned() },
        observed_at: 2,
    }
}

fn task(body: &str) -> String {
    format!("---\ntype: task\nbrain_id: {TASK_ID}\nstatus: todo\npriority: high\n---\n\n{body}\n")
}

fn foreign() -> ProviderResourceRef {
    ProviderResourceRef::new(
        workspace(99),
        "other-provider".to_owned(),
        "foreign-document".to_owned(),
        ProviderResourceKind::Knowledge,
    )
}

fn index_foreign(index: &mut DerivedVaultIndex) {
    index.insert_resource(
        foreign(),
        Some(DocumentEntry {
            title: "foreign".to_owned(),
            task_status: None,
            task_priority: None,
        }),
        vec![IndexedChunk {
            ordinal: 1,
            text: "foreign token\n".to_owned(),
            content_hash: [7; 32],
            revision: "rev-foreign".to_owned(),
        }],
    );
}

#[test]
fn read_limit_rejects_growth_after_metadata_check() {
    let length = usize::try_from(MAX_WATCHED_FILE_BYTES + 1).expect("static bound");
    assert!(read_to_limit(vec![b'x'; length]).is_none());
    assert!(read_to_limit(vec![b'x'; length - 1]).is_some());
}

#[test]
fn not_found_during_open_is_classified_as_missing() {
    assert!(is_not_found(&ReadFailure::NotFound));
    assert!(!is_not_found(&ReadFailure::Other));
    let facts = FileFacts { is_file: true, length: 3 };
    assert!(matches!(
        read_bounded(Ok(facts), Err(ReadFailure::NotFound)),
        BoundedRead::Missing
    ));
    assert!(matches!(
        read_bounded(Ok(facts), Err(ReadFailure::Other)),
        BoundedRead::Unreadable
    ));
}

#[test]
fn bursts_coalesce_into_one_latest_state_event_per_path() {
    let mut queue = EventQueue::new(500);
    queue.push(VaultEvent::Updated { relative: "notes/a.md".to_owned() }, 100);
    queue.push(VaultEvent::Updated { relative: "notes/a.md".to_owned() }, 200);
    queue.push(VaultEvent::Updated { relative: "notes/a.md".to_owned() }, 300);

    // Within the debounce window of 500ms measured at 400: nothing ready.
    let drained = queue.drain(400);
    assert!(drained.is_empty());
    assert_eq!(queue.pending_count(), 3);

    // At 801 the full window after the last hint has elapsed.
    let drained = queue.drain(801);
    assert_eq!(drained.len(), 1);
    assert_eq!(
        drained[0].event,
        VaultEvent::Updated { relative: "notes/a.md".to_owned() }
    );
    assert_eq!(drained[0].observed_at, 300, "newest raw timestamp wins");
}

#[test]
fn newer_same_path_event_delays_the_entire_burst() {
    let mut queue = EventQueue::new(500);
    queue.push(VaultEvent::Updated { relative: "notes/a.md".to_owned() }, 100);
    queue.push(VaultEvent::Deleted { relative: "notes/a.md".to_owned() }, 600);

    // The first hint is individually old at 700, but it belongs to a burst
    // whose latest event has not yet crossed the debounce window.
    assert!(queue.drain(700).is_empty());
    assert_eq!(queue.pending_count(), 2);

    let drained = queue.drain(1_101);
    assert_eq!(drained.len(), 1);
    assert_eq!(
        drained[0].event,
        VaultEvent::Deleted { relative: "notes/a.md".to_owned() }
    );
}

#[test]
fn time_zero_event_waits_through_its_full_debounce_window() {
    let mut queue = EventQueue::new(500);
    queue.push(VaultEvent::Created { relative: "zero.md".to_owned() }, 0);

    assert!(queue.drain(500).is_empty());
    assert_eq!(queue.drain(501).len(), 1);
}

#[test]
fn distinct_paths_coalesce_independently_in_first_touched_order() {
    let mut queue = EventQueue::new(100);
    queue.push(VaultEvent::Created { relative: "a.md".to_owned() }, 10);
    queue.push(VaultEvent::Created { relative: "b.md".to_owned() }, 20);
    queue.push(VaultEvent::Updated { relative: "a.md".to_owned() }, 30);

    let drained = queue.drain(200);
    assert_eq!(drained.len(), 2);
    assert_eq!(drained[0].event.target(), "a.md");
    assert_eq!(drained[1].event.target(), "b.md");
}

#[test]
fn rename_collapses_to_its_final_location() {
    let mut queue = EventQueue::new(100);
    queue.push(VaultEvent::Deleted { relative: "old.md".to_owned() }, 10);
    queue.push(VaultEvent::Created { relative: "new.md".to_owned() }, 20);

    // Modeled as a rename: both paths coalesce independently (delete of the
    // old path, create of the new).
    let drained = queue.drain(200);
    assert_eq!(drained.len(), 2);

    // A true rename event coalesces onto its final location.
    let mut queue = EventQueue::new(100);
    queue.push(
        VaultEvent::Renamed { from: "old.md".to_owned(), to: "new.md".to_owned() },
        10,
    );
    let drained = queue.drain(200);
    assert_eq!(drained.len(), 1);
    assert_eq!(drained[0].event.target(), "new.md");
}

#[test]
fn a_second_drain_finds_nothing_new() {
    let mut queue = EventQueue::new(10);
    queue.push(VaultEvent::Created { relative: "a.md".to_owned() }, 1);
    queue.push(VaultEvent::Created { relative: "b.md".to_owned() }, 100);
    assert_eq!(queue.drain(50).len(), 1);
    assert!(queue.drain(50).is_empty());
    assert_eq!(queue.pending_count(), 1);
}

#[test]
fn touched_paths_name_both_ends_of_a_rename() {
    let event = VaultEvent::Renamed { from: "old.md".to_owned(), to: "new.md".to_owned() };
    assert_eq!(event.touched_paths(), vec!["old.md", "new.md"]);
    let event = VaultEvent::Created { relative: "a.md".to_owned() };
    assert_eq!(event.touched_paths(), vec!["a.md"]);
}

#[test]
fn deterministic_scan_lists_each_confined_markdown_path_once_in_lexical_order() {
    let mut disk = Disk::default();
    disk.write("z.md", "zeta\n");
    disk.write("a.md", "alpha\n");
    disk.write(&format!("Tasks/{TASK_ID}.md"), &task("Task"));
    disk.write("ignored.txt", "ignored\n");
    disk.write("Private/secret.md", "secret\n");
    let provider = provider_with(vec![VaultExclusion::new("Private", PathNotation::Unix).expect("valid exclusion")]);
    let mut entries = disk.paths();
    entries.reverse();
    assert_eq!(
        provider
            .indexable_paths(&VaultListing { entries, complete: true })
            .expect("complete scan"),
        vec![
            format!("Tasks/{TASK_ID}.md"),
            "a.md".to_owned(),
            "z.md".to_owned(),
        ]
    );
}

#[test]
fn reconciliation_recovers_missed_additions_updates_and_unchanged_files() {
    let provider = provider();
    let mut index = DerivedVaultIndex::new();
    let mut disk = Disk::default();
    disk.write("note.md", "first token\n");

    let added = disk.reconcile(&provider, &mut index).expect("complete reconciliation");
    assert_eq!(counts(added), (1, 0, 0, 0));
    assert_eq!(documents(&index).len(), 1);

    let unchanged = disk.reconcile(&provider, &mut index).expect("complete reconciliation");
    assert_eq!(counts(unchanged), (0, 1, 0, 0));

    disk.write("note.md", "second token\n");
    let updated = disk.reconcile(&provider, &mut index).expect("complete reconciliation");
    assert_eq!(counts(updated), (1, 0, 0, 0));
    assert!(matching(&index, "first token").is_empty());
    assert_eq!(matching(&index, "second token").len(), 1);
}

#[test]
fn reconciliation_recovers_missed_delete_and_move() {
    let provider = provider();
    let mut index = DerivedVaultIndex::new();
    let mut disk = Disk::default();
    disk.write("old.md", "move token\n");
    disk.reconcile(&provider, &mut index).expect("complete reconciliation");

    disk.rename("old.md", "new.md");
    let moved = disk.reconcile(&provider, &mut index).expect("complete reconciliation");
    assert_eq!(counts(moved), (1, 0, 1, 0));
    assert_eq!(documents(&index), vec!["path:new.md".to_owned()]);

    disk.remove("new.md");
    let gone = disk.reconcile(&provider, &mut index).expect("complete reconciliation");
    assert_eq!(counts(gone), (0, 0, 1, 0));
    assert_eq!(documents(&index).len(), 0);
}

#[test]
fn reconciliation_preserves_unrelated_provider_state() {
    let provider = provider();
    let mut index = DerivedVaultIndex::new();
    index_foreign(&mut index);
    let report = Disk::default()
        .reconcile(&provider, &mut index)
        .expect("complete reconciliation");
    assert_eq!(counts(report), (0, 0, 0, 0));
    assert!(index.document(&foreign()).is_some());
}

#[test]
fn reconciliation_uses_stable_task_identity_across_moves() {
    let provider = provider();
    let mut index = DerivedVaultIndex::new();
    let mut disk = Disk::default();
    disk.write("Tasks/original.md", &task("Stable task token"));

    let first = disk.reconcile(&provider, &mut index).expect("complete reconciliation");
    assert_eq!((first.indexed, first.skipped), (1, 0));
    assert_eq!(documents(&index), vec![TASK_ID.to_owned()]);

    disk.rename("Tasks/original.md", "Tasks/moved.md");
    let moved = disk.reconcile(&provider, &mut index).expect("complete reconciliation");
    assert_eq!((moved.indexed, moved.unchanged, moved.removed), (0, 1, 0));
    assert_eq!(documents(&index), vec![TASK_ID.to_owned()]);
}

#[test]
fn reconciliation_skips_malformed_task_schema() {
    let provider = provider();
    let mut index = DerivedVaultIndex::new();
    let mut disk = Disk::default();
    disk.write(
        "Tasks/malformed.md",
        "---\ntype: task\nstatus: todo\npriority: high\n---\n\nMissing identity\n",
    );
    let report = disk.reconcile(&provider, &mut index).expect("complete reconciliation");
    assert_eq!((report.indexed, report.skipped), (0, 1));
    assert_eq!(documents(&index).len(), 0);
}

#[test]
fn reconciliation_rejects_duplicate_task_identity_before_mutating_index() {
    let provider = provider();
    let mut index = DerivedVaultIndex::new();
    let mut disk = Disk::default();
    disk.write("keep.md", "keep token\n");
    disk.reconcile(&provider, &mut index).expect("complete reconciliation");
    disk.write("Tasks/one.md", &task("Duplicate task"));
    disk.write("Tasks/two.md", &task("Duplicate task"));

    let error = disk
        .reconcile(&provider, &mut index)
        .expect_err("duplicate identity rejected");
    assert_eq!(error, ReconciliationError::DuplicateResource);
    assert_eq!(documents(&index).len(), 1);
    assert_eq!(matching(&index, "keep token").len(), 1);
}

#[test]
fn incomplete_bounded_scan_preserves_existing_index_state() {
    let provider = provider();
    let mut index = DerivedVaultIndex::new();
    let mut disk = Disk::default();
    disk.write("keep.md", "keep token\n");
    disk.reconcile(&provider, &mut index).expect("complete reconciliation");
    for ordinal in 0..10_001_u32 {
        disk.write(&format!("overflow/{ordinal:05}.txt"), "");
    }

    let error = disk
        .reconcile(&provider, &mut index)
        .expect_err("partial scan rejected");
    assert_eq!(error, ReconciliationError::ScanIncomplete);
    assert_eq!(documents(&index).len(), 1);
    assert_eq!(matching(&index, "keep token").len(), 1);
}

#[test]
fn a_directory_that_was_not_read_to_its_end_makes_the_scan_incomplete() {
    let provider = provider();
    let listing = VaultListing { entries: Disk::default().paths(), complete: false };
    let scan = scan_indexable_resources(&provider, provider.indexable_paths(&listing), &Vec::new());
    assert!(matches!(scan, Err(ReconciliationError::ScanIncomplete)));
    assert!(!ReconciliationError::ScanIncomplete.message().is_empty());
}

#[test]
fn periodic_reconciliation_runs_immediately_then_only_when_due() {
    let provider = provider();
    let mut disk = Disk::default();
    disk.write("note.md", "periodic token\n");
    let mut index = DerivedVaultIndex::new();
    let mut reconciler = VaultReconciler::new(1_000);
    let mut run = |now: u64, index: &mut DerivedVaultIndex| {
        reconciler
            .reconcile_if_due(
                &provider,
                index,
                now,
                disk.scan(&provider),
                disk.candidates(&provider),
            )
            .expect("complete reconciliation")
    };

    let first = run(100, &mut index).expect("first call runs");
    assert_eq!((first.indexed, first.unchanged), (1, 0));
    assert!(run(1_099, &mut index).is_none());
    let boundary = run(1_100, &mut index).expect("interval boundary runs");
    assert_eq!((boundary.indexed, boundary.unchanged), (0, 1));
}

#[test]
fn rebuild_replaces_all_derived_state_with_deterministic_vault_state() {
    let provider = provider();
    let mut disk = Disk::default();
    disk.write("b.md", "bravo token\n");
    disk.write("a.md", "alpha token\n");

    let mut expected = DerivedVaultIndex::new();
    let expected_report = disk.rebuild(&provider, &mut expected).expect("complete rebuild");
    assert_eq!(counts(expected_report), (2, 0, 0, 0));

    let mut actual = DerivedVaultIndex::new();
    disk.write("stale.md", "stale token\n");
    disk.reconcile(&provider, &mut actual).expect("complete reconciliation");
    disk.remove("stale.md");
    index_foreign(&mut actual);

    let report = disk.rebuild(&provider, &mut actual).expect("complete rebuild");
    assert_eq!(counts(report), (2, 0, 0, 0));
    assert_eq!(documents(&actual), documents(&expected));
    for resource in expected.resources() {
        assert_eq!(
            actual.chunks_for_resource(&resource),
            expected.chunks_for_resource(&resource)
        );
    }
    assert!(actual.document(&foreign()).is_none());
}

#[test]
fn applying_created_and_updated_events_is_idempotent() {
    let provider = provider();
    let mut disk = Disk::default();
    disk.write("notes/a.md", "---\ntitle: A\n---\n\nbody a\n");
    let mut index = DerivedVaultIndex::new();
    let event = updated("notes/a.md");
    assert_eq!(disk.apply(&provider, &mut index, &event), AppliedEvent::Indexed);
    let before = (documents(&index).len(), chunk_count(&index));
    assert!(before.0 >= 1);
    assert_eq!(disk.apply(&provider, &mut index, &event), AppliedEvent::Unchanged);
    assert_eq!((documents(&index).len(), chunk_count(&index)), before);
}

#[test]
fn content_changes_are_indexed_unchanged_files_are_skipped() {
    let provider = provider();
    let mut disk = Disk::default();
    disk.write("doc.md", "v1\n");
    let mut index = DerivedVaultIndex::new();
    let event = updated("doc.md");
    assert_eq!(disk.apply(&provider, &mut index, &event), AppliedEvent::Indexed);
    assert_eq!(disk.apply(&provider, &mut index, &event), AppliedEvent::Unchanged);
    disk.write("doc.md", "v2 with novel words\n");
    assert_eq!(disk.apply(&provider, &mut index, &event), AppliedEvent::Indexed);
    assert_eq!(matching(&index, "novel").len(), 1);
}

#[test]
fn changed_content_replaces_all_prior_resource_chunks() {
    let provider = provider();
    let mut disk = Disk::default();
    disk.write("doc.md", &"stale-token ".repeat(2_000));
    let mut index = DerivedVaultIndex::new();
    let event = updated("doc.md");
    assert_eq!(disk.apply(&provider, &mut index, &event), AppliedEvent::Indexed);
    assert!(chunk_count(&index) > 1);
    disk.write("doc.md", "fresh-token\n");
    assert_eq!(disk.apply(&provider, &mut index, &event), AppliedEvent::Indexed);
    assert!(matching(&index, "stale-token").is_empty());
}

#[test]
fn failed_replacement_parse_preserves_prior_index_state() {
    let provider = provider();
    let mut disk = Disk::default();
    disk.write("doc.md", "stable-token\n");
    let mut index = DerivedVaultIndex::new();
    let event = updated("doc.md");
    assert_eq!(disk.apply(&provider, &mut index, &event), AppliedEvent::Indexed);
    disk.write("doc.md", "---\ntitle: broken\n\nbody without close\n");
    assert_eq!(disk.apply(&provider, &mut index, &event), AppliedEvent::Skipped);
    assert_eq!(matching(&index, "stable-token").len(), 1);
}

#[test]
fn parsed_empty_content_clears_prior_index_state() {
    let provider = provider();
    let mut disk = Disk::default();
    disk.write("doc.md", "previous content\n");
    let mut index = DerivedVaultIndex::new();
    let event = updated("doc.md");
    assert_eq!(disk.apply(&provider, &mut index, &event), AppliedEvent::Indexed);
    disk.write("doc.md", "");
    assert_ne!(disk.apply(&provider, &mut index, &event), AppliedEvent::Skipped);
    assert_eq!(chunk_count(&index), 0);
    assert_eq!(documents(&index).len(), 0);
}

#[test]
fn missing_created_hint_removes_existing_index_resource() {
    let provider = provider();
    let mut disk = Disk::default();
    disk.write("doc.md", "present\n");
    let mut index = DerivedVaultIndex::new();
    let event = updated("doc.md");
    assert_eq!(disk.apply(&provider, &mut index, &event), AppliedEvent::Indexed);
    disk.remove("doc.md");
    assert_eq!(disk.apply(&provider, &mut index, &event), AppliedEvent::Removed);
    assert_eq!(chunk_count(&index), 0);
}

#[test]
fn deleted_events_only_remove_what_exists() {
    let provider = provider();
    let mut disk = Disk::default();
    disk.write("doc.md", "content\n");
    let mut index = DerivedVaultIndex::new();
    disk.apply(&provider, &mut index, &updated("doc.md"));
    disk.remove("doc.md");
    assert_eq!(
        disk.apply(&provider, &mut index, &deleted("doc.md")),
        AppliedEvent::Removed
    );
    assert_eq!(chunk_count(&index), 0);
    assert_eq!(
        disk.apply(&provider, &mut index, &deleted("doc.md")),
        AppliedEvent::Unchanged
    );
}

#[test]
fn task_delete_event_removes_the_stable_task_resource() {
    let provider = provider();
    let mut disk = Disk::default();
    disk.write("Tasks/deleted.md", &task("Deleted task token"));
    let mut index = DerivedVaultIndex::new();
    assert_eq!(
        disk.apply(&provider, &mut index, &updated("Tasks/deleted.md")),
        AppliedEvent::Indexed
    );
    assert_eq!(documents(&index), vec![TASK_ID.to_owned()]);
    disk.remove("Tasks/deleted.md");
    assert_eq!(
        disk.apply(&provider, &mut index, &deleted("Tasks/deleted.md")),
        AppliedEvent::Removed
    );
    assert_eq!(documents(&index).len(), 0);
    assert_eq!(chunk_count(&index), 0);
}

#[test]
fn stale_delete_hint_indexes_the_current_confined_file_state() {
    let provider = provider();
    let mut disk = Disk::default();
    disk.write("doc.md", "still present\n");
    let mut index = DerivedVaultIndex::new();
    assert_eq!(
        disk.apply(&provider, &mut index, &deleted("doc.md")),
        AppliedEvent::Indexed
    );
    assert!(chunk_count(&index) > 0);
}

#[test]
fn unconfined_delete_hints_are_skipped_before_resource_identity_is_derived() {
    let provider = provider();
    let mut index = DerivedVaultIndex::new();
    assert_eq!(
        Disk::default().apply(&provider, &mut index, &deleted("../outside.md")),
        AppliedEvent::Skipped
    );
    assert_eq!(documents(&index).len(), 0);
    assert_eq!(chunk_count(&index), 0);
}

#[test]
fn excluded_delete_hints_are_skipped() {
    let provider = provider_with(vec![VaultExclusion::new(".obsidian", PathNotation::Unix).expect("valid")]);
    let mut index = DerivedVaultIndex::new();
    assert_eq!(
        Disk::default().apply(&provider, &mut index, &deleted(".obsidian/state.md")),
        AppliedEvent::Skipped
    );
}

#[test]
fn accepted_but_unrepresentable_long_path_is_skipped_without_aliasing() {
    let provider = provider();
    let mut index = DerivedVaultIndex::new();
    let relative = format!("{}.md", "a".repeat(600));
    assert_eq!(
        Disk::default().apply(&provider, &mut index, &deleted(&relative)),
        AppliedEvent::Skipped
    );
    assert_eq!(documents(&index).len(), 0);
}

#[test]
fn excluded_and_oversized_paths_are_skipped_without_error() {
    let provider = provider_with(vec![VaultExclusion::new(".obsidian", PathNotation::Unix).expect("valid")]);
    let mut index = DerivedVaultIndex::new();
    let mut disk = Disk::default();
    disk.write(".obsidian/plugins.md", "secret plugin config\n");
    assert_eq!(
        disk.apply(&provider, &mut index, &updated(".obsidian/plugins.md")),
        AppliedEvent::Skipped
    );
    assert_eq!(chunk_count(&index), 0);

    disk.write("huge.md", &"x".repeat(2 * 1024 * 1024));
    assert_eq!(
        disk.apply(&provider, &mut index, &updated("huge.md")),
        AppliedEvent::Skipped
    );

    disk.files.insert("binary.md".to_owned(), vec![0xFF, 0xFE, 0x00]);
    assert_eq!(
        disk.apply(&provider, &mut index, &updated("binary.md")),
        AppliedEvent::Skipped
    );
}

#[test]
fn rename_applies_as_delete_plus_create() {
    let provider = provider();
    let mut disk = Disk::default();
    disk.write("old.md", "moved content\n");
    let mut index = DerivedVaultIndex::new();
    disk.apply(&provider, &mut index, &updated("old.md"));
    assert!(chunk_count(&index) > 0);
    disk.rename("old.md", "new.md");
    assert_eq!(
        disk.apply(&provider, &mut index, &renamed("old.md", "new.md")),
        AppliedEvent::Indexed
    );
    assert_eq!(matching(&index, "moved content"), vec!["path:new.md".to_owned()]);
}

#[test]
fn task_rename_event_preserves_the_stable_task_resource() {
    let provider = provider();
    let mut disk = Disk::default();
    disk.write("Tasks/original.md", &task("Renamed task token"));
    let mut index = DerivedVaultIndex::new();
    assert_eq!(
        disk.apply(&provider, &mut index, &updated("Tasks/original.md")),
        AppliedEvent::Indexed
    );
    disk.rename("Tasks/original.md", "Tasks/moved.md");
    assert_eq!(
        disk.apply(
            &provider,
            &mut index,
            &renamed("Tasks/original.md", "Tasks/moved.md")
        ),
        AppliedEvent::Unchanged
    );
    assert_eq!(documents(&index), vec![TASK_ID.to_owned()]);
}

#[test]
fn queued_rename_followed_by_update_removes_old_resource() {
    let provider = provider();
    let mut disk = Disk::default();
    disk.write("old.md", "old unique token\n");
    let mut index = DerivedVaultIndex::new();
    assert_eq!(
        disk.apply(&provider, &mut index, &updated("old.md")),
        AppliedEvent::Indexed
    );
    disk.rename("old.md", "new.md");
    disk.write("new.md", "new unique token\n");
    let mut queue = EventQueue::new(10);
    queue.push(
        VaultEvent::Renamed { from: "old.md".to_owned(), to: "new.md".to_owned() },
        1,
    );
    queue.push(VaultEvent::Updated { relative: "new.md".to_owned() }, 2);
    let drained = queue.drain(13);
    assert_eq!(drained.len(), 1);
    assert_eq!(
        drained[0].event,
        VaultEvent::Renamed { from: "old.md".to_owned(), to: "new.md".to_owned() }
    );
    assert_eq!(drained[0].observed_at, 2);
    assert_eq!(
        disk.apply(&provider, &mut index, &drained[0]),
        AppliedEvent::Indexed
    );
    assert!(matching(&index, "old unique").is_empty());
}

#[test]
fn missed_add_update_delete_bursts_are_recovered_by_a_single_reconcile() {
    let provider = provider();
    let mut disk = Disk::default();
    let mut index = DerivedVaultIndex::new();
    disk.write("added.md", "added-token\n");
    disk.write("rewritten.md", "rewritten-token\n");
    disk.write("renamed.md", "renamed-token\n");
    disk.write("deleted.md", "deleted-token\n");
    assert_eq!(disk.reconcile(&provider, &mut index).expect("baseline reconcile").indexed, 4);
    // A burst that the watcher never saw: one file rewritten, one renamed away, one deleted.
    disk.write("rewritten.md", "rewritten-token-v2\n");
    disk.rename("renamed.md", "moved.md");
    disk.remove("deleted.md");
    let report = disk.reconcile(&provider, &mut index).expect("recovery reconcile");
    // The rewrite and the rename target are reindexed, the rename's old resource and the deleted
    // file leave, and the untouched file is unchanged.
    assert_eq!(
        report,
        ReconciliationReport { indexed: 2, unchanged: 1, removed: 2, skipped: 0 }
    );
    assert_eq!(matching(&index, "added-token").len(), 1);
    assert_eq!(matching(&index, "rewritten-token-v2").len(), 1);
    assert_eq!(matching(&index, "rewritten-token\n").len(), 0);
    // The rename keeps its content, under the new path only.
    assert_eq!(matching(&index, "renamed-token"), vec!["path:moved.md".to_owned()]);
    assert_eq!(matching(&index, "deleted-token").len(), 0);
    let settled = disk.reconcile(&provider, &mut index).expect("settled reconcile");
    assert_eq!(counts(settled), (0, 3, 0, 0));
}

#[test]
fn every_spelling_of_a_path_is_one_resource() {
    let provider = provider();
    let mut disk = Disk::default();
    for spelling in ["notes/one.md", "notes//one.md", "notes/./one.md"] {
        disk.write(spelling, "spelled-token\n");
    }
    let mut index = DerivedVaultIndex::new();
    assert_eq!(disk.apply(&provider, &mut index, &updated("notes/one.md")), AppliedEvent::Indexed);
    assert_eq!(
        disk.apply(&provider, &mut index, &updated("notes//one.md")),
        AppliedEvent::Unchanged
    );
    assert_eq!(
        disk.apply(&provider, &mut index, &updated("notes/./one.md")),
        AppliedEvent::Unchanged
    );
    assert_eq!(matching(&index, "spelled-token"), vec!["path:notes/one.md".to_owned()]);
    disk.remove("notes//one.md");
    assert_eq!(
        disk.apply(&provider, &mut index, &deleted("notes//one.md")),
        AppliedEvent::Removed
    );
    assert!(documents(&index).is_empty());
}

#[test]
fn a_repeated_rename_finds_the_target_unchanged() {
    let provider = provider();
    let mut disk = Disk::default();
    disk.write("old.md", "moving-token\n");
    let mut index = DerivedVaultIndex::new();
    assert_eq!(disk.apply(&provider, &mut index, &updated("old.md")), AppliedEvent::Indexed);
    disk.rename("old.md", "new.md");
    let event = renamed("old.md", "new.md");
    assert_eq!(disk.apply(&provider, &mut index, &event), AppliedEvent::Indexed);
    assert_eq!(disk.apply(&provider, &mut index, &event), AppliedEvent::Unchanged);
    assert_eq!(matching(&index, "moving-token"), vec!["path:new.md".to_owned()]);
}

#[test]
fn revisions_are_the_first_half_of_the_digest() {
    assert_eq!(revision_of(b""), "rev-e3b0c44298fc1c149afbf4c8996fb924");
    assert_eq!(revision_of(b"abc"), "rev-ba7816bf8f01cfea414140de5dae2223");
}

#[test]
fn rewritten_between_scan_and_apply_the_index_converges_to_current_disk_state() {
    let provider = provider();
    let mut disk = Disk::default();
    disk.write("racy.md", "generation-one\n");
    let mut index = DerivedVaultIndex::new();
    let pass = |disk: &Disk, index: &mut DerivedVaultIndex| {
        counts(disk.reconcile(&provider, index).expect("reconcile"))
    };
    assert_eq!(pass(&disk, &mut index), (1, 0, 0, 0));
    disk.write("racy.md", "generation-two\n");
    assert_eq!(pass(&disk, &mut index), (1, 0, 0, 0));
    // No stale chunks of the earlier read survive, and the new content is there once.
    assert_eq!(matching(&index, "generation-one").len(), 0);
    assert_eq!(matching(&index, "generation-two").len(), 1);
    // Convergence is idempotent: a third pass finds nothing to do.
    assert_eq!(pass(&disk, &mut index), (0, 1, 0, 0));
}

#[test]
fn deletion_racing_a_reconcile_scan_leaves_no_stale_or_duplicated_state() {
    let provider = provider();
    let mut disk = Disk::default();
    disk.write("doomed.md", "soon-gone-token\n");
    let mut index = DerivedVaultIndex::new();
    assert_eq!(disk.reconcile(&provider, &mut index).expect("initial reconcile").indexed, 1);
    disk.remove("doomed.md");
    assert_eq!(
        disk.apply(&provider, &mut index, &updated("doomed.md")),
        AppliedEvent::Removed
    );
    assert_eq!(chunk_count(&index), 0);
    assert_eq!(
        disk.reconcile(&provider, &mut index).expect("reconcile after delete"),
        ReconciliationReport::default()
    );
    assert_eq!(matching(&index, "soon-gone-token").len(), 0);
}

#[test]
fn shortened_document_during_a_reconcile_never_keeps_trailing_chunks() {
    let provider = provider();
    let mut disk = Disk::default();
    disk.write(
        "shrinking.md",
        &format!("{}tail-token\n", "filler paragraph\n\n".repeat(120)),
    );
    let mut index = DerivedVaultIndex::new();
    assert_eq!(chunk_count(&index), 0);
    assert_eq!(disk.reconcile(&provider, &mut index).expect("long reconcile").indexed, 1);
    assert!(chunk_count(&index) > 1, "seed must span multiple chunks");
    disk.write("shrinking.md", "short now\n");
    assert_eq!(disk.reconcile(&provider, &mut index).expect("short reconcile").indexed, 1);
    assert_eq!(chunk_count(&index), 1);
    assert_eq!(matching(&index, "tail-token").len(), 0);
    assert_eq!(matching(&index, "short now").len(), 1);
}

#[test]
fn duplicate_stable_identity_during_a_racy_rename_is_rejected_without_mutating_the_index() {
    let provider = provider();
    let mut disk = Disk::default();
    disk.write("Tasks/one.md", &task("dup token"));
    let mut index = DerivedVaultIndex::new();
    assert_eq!(disk.reconcile(&provider, &mut index).expect("initial reconcile").indexed, 1);
    disk.write("Tasks/two.md", &task("dup token"));
    assert_eq!(
        disk.reconcile(&provider, &mut index),
        Err(ReconciliationError::DuplicateResource)
    );
    assert_eq!(matching(&index, "dup token").len(), 1);
    assert_eq!(documents(&index).len(), 1);
}
