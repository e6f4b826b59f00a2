//! The Markdown vault: confinement, reads, revisions, writes and governance.

use cortexd::governed::{
    capability_for, policy_target, AuditResult, GovernedStep, GovernedVaultProvider,
    PolicyDecision, PolicyDeny, ResourceTarget, VaultCapability, VaultOperation,
};
use cortexd::ids::{
    OperationId, PrincipalId, ProviderResourceKind, ProviderResourceRef, TaskId, WorkspaceId,
};
use cortexd::memory_vault::InMemoryVaultProvider;
use cortexd::provider::{
    ProviderError, ProviderFreshness, ProviderMutation, ProviderQuery, TaskScheduling,
};
use cortexd::time::Instant;
use cortexd::vault::{
    PathNotation, VaultExclusion, VaultProviderConfig, VaultProviderMode, VaultScope,
};
use cortexd::vault_listing::DirectoryEntry;
use cortexd::vault_provider::{
    is_within, path_components, validate_relative, MarkdownVaultProvider, VaultPathError,
};
use cortexd::vault_reads::{DocumentParse, FileRead, KnowledgeObservation, ParsedTask, TaskFile};
use cortexd::vault_writes::{
    allocate_path, render_document, render_task, restate, settle_delete, settle_write, slug_text,
};

const KNOWLEDGE: ProviderResourceKind = ProviderResourceKind::Knowledge;
const TASK: ProviderResourceKind = ProviderResourceKind::Task;
const TASK_ID: u128 = 0x0192_6c8f_88f9_7d33_9a1b_2c7d_33bd_0a12;

fn workspace() -> WorkspaceId {
    WorkspaceId { value: 1 }
}

fn scopes(kinds: &[ProviderResourceKind]) -> Vec<VaultScope> {
    kinds
        .iter()
        .map(|kind| match kind {
            ProviderResourceKind::Knowledge => VaultScope::new("knowledge").expect("valid"),
            ProviderResourceKind::Task => VaultScope::new("task").expect("valid"),
        })
        .collect()
}

fn config(
    mode: VaultProviderMode,
    kinds: &[ProviderResourceKind],
    exclusions: &[&str],
) -> VaultProviderConfig {
    VaultProviderConfig::new(
        "markdown-vault",
        true,
        "/vault".to_owned(),
        mode,
        scopes(kinds),
        exclusions
            .iter()
            .map(|pattern| VaultExclusion::new(pattern, PathNotation::Unix).expect("valid"))
            .collect(),
    )
    .expect("valid config")
}

fn components(path: &str) -> Vec<String> {
    path.split('/').map(str::to_owned).collect()
}

fn opened(config: VaultProviderConfig) -> MarkdownVaultProvider {
    MarkdownVaultProvider::open(
        config,
        workspace(),
        Some(components("vault")),
        PathNotation::Unix,
    )
    .expect("opens")
}

fn open_vault() -> MarkdownVaultProvider {
    opened(config(VaultProviderMode::ReadWrite, &[KNOWLEDGE, TASK], &[]))
}

fn own(id: &str, kind: ProviderResourceKind) -> ProviderResourceRef {
    ProviderResourceRef::new(workspace(), "markdown-vault".to_owned(), id.to_owned(), kind)
}

fn bytes(text: &str) -> FileRead {
    FileRead::Bytes(text.as_bytes().to_vec())
}

/// The title stands in the front matter, everything behind the closing fence is the body.
fn parsed(text: &str) -> DocumentParse {
    match text.strip_prefix("---\ntitle: ").and_then(|rest| rest.split_once("\n---\n")) {
        Some((title, body)) => DocumentParse::Parsed {
            title: title.to_owned(),
            body: body.to_owned(),
        },
        None => DocumentParse::Parsed { title: "untitled".to_owned(), body: text.to_owned() },
    }
}

fn steady(text: &str) -> KnowledgeObservation {
    KnowledgeObservation {
        ancestors: Vec::new(),
        first: bytes(text),
        first_parse: parsed(text),
        check: bytes(text),
        reread: bytes(text),
        reread_parse: parsed(text),
    }
}

fn missing() -> KnowledgeObservation {
    KnowledgeObservation {
        ancestors: Vec::new(),
        first: FileRead::Missing,
        first_parse: DocumentParse::Rejected,
        check: FileRead::Missing,
        reread: FileRead::Missing,
        reread_parse: DocumentParse::Rejected,
    }
}

fn file(relative: &str) -> DirectoryEntry {
    DirectoryEntry {
        relative: Some(relative.to_owned()),
        is_directory: false,
        extension: relative.rsplit_once('.').map(|(_, e)| e.to_owned()),
        representable: true,
        ancestors: Vec::new(),
    }
}

fn revision(text: &str) -> String {
    cortexd::reconcile::revision_of(text.as_bytes())
}

#[test]
fn open_canonicalizes_the_root_and_requires_a_directory() {
    let provider = open_vault();
    assert_eq!(provider.canonical_root(), &components("vault"));
    assert!(matches!(
        MarkdownVaultProvider::open(
            config(VaultProviderMode::ReadWrite, &[KNOWLEDGE], &[]),
            workspace(),
            None,
            PathNotation::Unix
        ),
        Err(VaultPathError::InvalidRoot)
    ));
}

#[test]
fn confinement_accepts_ordinary_relative_paths() {
    let provider = open_vault();
    let confined = provider
        .confine("notes/project/atlas.md", KNOWLEDGE, &Vec::new())
        .expect("confined");
    assert_eq!(confined.relative(), "notes/project/atlas.md");
    assert!(confined.absolute().starts_with(provider.canonical_root()));
    assert_eq!(confined.absolute(), &components("vault/notes/project/atlas.md"));
    assert!(provider.confine("notes/2026/new-file.md", KNOWLEDGE, &Vec::new()).is_ok());
}

#[test]
fn traversal_and_absolute_paths_are_rejected() {
    let provider = open_vault();
    for invalid in [
        "../outside.md",
        "notes/../../../outside.md",
        "/etc/passwd",
        "C:\\outside.md",
        "notes\\atlas.md",
        "",
        "   ",
        "\u{0}bad",
    ] {
        let error = provider.confine(invalid, KNOWLEDGE, &Vec::new()).err();
        assert!(
            matches!(error, Some(VaultPathError::InvalidPath | VaultPathError::Traversal)),
            "path {invalid:?} must be rejected, got {error:?}"
        );
    }
}

#[test]
fn symlink_escape_is_rejected() {
    let provider = open_vault();
    let outside = vec![
        Some(components("elsewhere/secret.md")),
        Some(components("elsewhere")),
    ];
    assert!(matches!(
        provider.confine("escape/secret.md", KNOWLEDGE, &outside),
        Err(VaultPathError::SymlinkEscape)
    ));
    // Even a create target beneath a symlinked directory is rejected.
    let beneath = vec![None, Some(components("elsewhere"))];
    assert!(matches!(
        provider.confine("escape/new.md", KNOWLEDGE, &beneath),
        Err(VaultPathError::SymlinkEscape)
    ));
    // A symlink that stays inside the vault is allowed.
    let inside = vec![Some(components("vault/real.md"))];
    assert!(
        provider.confine("alias.md", KNOWLEDGE, &inside).is_ok(),
        "in-root symlinks are not escapes"
    );
    assert!(is_within(&components("vault"), &components("vault/a")));
    assert!(!is_within(&components("vault"), &components("vaulted/a")));
}

#[test]
fn configured_exclusions_are_enforced() {
    let provider = opened(config(
        VaultProviderMode::ReadWrite,
        &[KNOWLEDGE],
        &[".obsidian", "archive/old"],
    ));
    let confine = |path: &str| provider.confine(path, KNOWLEDGE, &Vec::new());
    assert!(matches!(confine(".obsidian/app.json"), Err(VaultPathError::Excluded)));
    assert!(matches!(confine("archive/old/2020.md"), Err(VaultPathError::Excluded)));
    // The exclusion matches its exact path and beneath it only.
    assert!(confine("archive").is_ok());
    assert!(confine("archive/new/2026.md").is_ok());
    assert!(confine("notes/active.md").is_ok());
}

#[test]
fn paths_are_normalized() {
    let normalized = |path: &str| validate_relative(path, PathNotation::Unix);
    assert_eq!(normalized("a//b/./c.md"), Ok("a/b/c.md".to_owned()));
    assert_eq!(normalized("a/b/"), Ok("a/b".to_owned()));
    assert_eq!(normalized("a/b/."), Ok("a/b".to_owned()));
    assert_eq!(normalized("./a.md"), Err(VaultPathError::Traversal));
    assert_eq!(normalized("a/.."), Err(VaultPathError::Traversal));
    assert_eq!(normalized("a/..b"), Ok("a/..b".to_owned()));
    let confined = open_vault()
        .confine("notes//deep/./one.md", KNOWLEDGE, &Vec::new())
        .expect("confined");
    assert_eq!(confined.relative(), "notes/deep/one.md");
    assert_eq!(confined.absolute(), &components("vault/notes/deep/one.md"));
    // A normalized path is confined as it is, and names the same file.
    let again = open_vault()
        .confine(confined.relative(), KNOWLEDGE, &Vec::new())
        .expect("confined again");
    assert_eq!(again, confined);
}

#[test]
fn drive_letters_mean_something_in_one_notation_only() {
    let on = |path: &str, notation: PathNotation| validate_relative(path, notation);
    assert_eq!(on("a:b.md", PathNotation::Unix), Ok("a:b.md".to_owned()));
    assert_eq!(on("a:b.md", PathNotation::Windows), Err(VaultPathError::Traversal));
    assert_eq!(on("notes/a:b.md", PathNotation::Windows), Ok("notes/a:b.md".to_owned()));
    assert_eq!(on("a\\b.md", PathNotation::Unix), Err(VaultPathError::InvalidPath));
    assert_eq!(on("a\\b.md", PathNotation::Windows), Err(VaultPathError::InvalidPath));
}

#[test]
fn exclusions_hold_however_a_path_is_spelled() {
    let excluded = |pattern: &str, notation: PathNotation, path: &str| {
        let config = VaultProviderConfig::new(
            "markdown-vault",
            true,
            "/vault".to_owned(),
            VaultProviderMode::ReadWrite,
            scopes(&[KNOWLEDGE]),
            vec![VaultExclusion::new(pattern, notation).expect("valid")],
        )
        .expect("valid config");
        let provider = MarkdownVaultProvider::open(
            config,
            workspace(),
            Some(components("vault")),
            notation,
        )
        .expect("opens");
        match provider.confine(path, KNOWLEDGE, &Vec::new()) {
            Err(VaultPathError::Excluded) => true,
            Ok(_) => false,
            Err(other) => panic!("expected an exclusion or a path, got {other:?}"),
        }
    };
    for pattern in ["archive/old", "archive//old", "./archive/old/", "archive/./old"] {
        for path in ["archive/old", "archive//old/a.md", "archive/./old/a.md"] {
            assert!(excluded(pattern, PathNotation::Unix, path), "{pattern} covers {path}");
        }
        assert!(!excluded(pattern, PathNotation::Unix, "archive/older/a.md"));
        assert!(!excluded(pattern, PathNotation::Unix, "archive"));
    }
    assert!(excluded("archive\\old", PathNotation::Windows, "archive/old/a.md"));
    assert!(!excluded("archive\\old", PathNotation::Unix, "archive/old/a.md"));
    assert!(excluded(".", PathNotation::Unix, "anything.md"), "the root itself is excluded");
}

#[test]
fn resource_kinds_outside_the_configured_scopes_are_rejected() {
    let provider = opened(config(VaultProviderMode::ReadWrite, &[KNOWLEDGE], &[]));
    assert!(provider.confine("Tasks/one.md", KNOWLEDGE, &Vec::new()).is_ok());
    assert!(matches!(
        provider.confine("Tasks/one.md", TASK, &Vec::new()),
        Err(VaultPathError::OutOfScope)
    ));
}

#[test]
fn read_only_mode_is_visible_for_future_policy() {
    let provider = opened(config(VaultProviderMode::ReadOnly, &[KNOWLEDGE], &[]));
    assert_eq!(provider.config().mode(), VaultProviderMode::ReadOnly);
}

#[test]
fn path_bound_is_enforced() {
    let provider = open_vault();
    let oversized = format!("{}\n", "x".repeat(1100));
    assert!(matches!(
        provider.confine(&oversized, KNOWLEDGE, &Vec::new()),
        Err(VaultPathError::InvalidPath)
    ));
    assert_eq!(validate_relative("a/b.md", PathNotation::Unix), Ok("a/b.md".to_owned()));
    assert_eq!(path_components("a//./b.md"), components("a/b.md"));
    assert!(!VaultPathError::InvalidPath.message().is_empty());
}

#[test]
fn empty_vault_enumerates_to_an_empty_page() {
    let page = open_vault().enumerate_knowledge(10, &Vec::new());
    assert!(page.items.is_empty());
}

#[test]
fn enumeration_is_bounded_confined_and_workspace_scoped() {
    let provider = opened(config(
        VaultProviderMode::ReadWrite,
        &[KNOWLEDGE, TASK],
        &[".obsidian"],
    ));
    let entries = vec![
        file("notes/atlas.md"),
        file("notes/plain.md"),
        file("Tasks/one.md"),
        file("Tasks/two.md"),
        file(".obsidian/hidden.md"),
        file("partial.tmp-1"),
    ];
    let page = provider.enumerate_knowledge(10, &entries);
    assert_eq!(page.items.len(), 2, "excluded .obsidian must not enumerate");
    for reference in &page.items {
        assert_eq!(reference.workspace_id, workspace());
        assert_eq!(reference.kind, KNOWLEDGE);
        assert!(reference.resource_id.starts_with("path:"));
    }
    assert_eq!(provider.enumerate_knowledge(1, &entries).items.len(), 1);
}

#[test]
fn knowledge_get_returns_parsed_document_with_provenance() {
    let provider = open_vault();
    let reference = own("path:notes/atlas.md", KNOWLEDGE);
    let read = provider
        .get_knowledge(&reference, steady("---\ntitle: Atlas\n---\n\nAtlas migration body\n"))
        .expect("get succeeds")
        .expect("document found");
    assert_eq!(read.item.title, "Atlas");
    assert!(read.item.body.contains("Atlas migration body"));
    assert_eq!(read.item.provenance.resource, reference);
    assert!(read.item.provenance.observed_revision.starts_with("rev-"));
    assert_eq!(read.freshness, ProviderFreshness::Current);
}

#[test]
fn knowledge_get_for_a_missing_resource_is_typed_not_found() {
    let result = open_vault().get_knowledge(&own("path:notes/ghost.md", KNOWLEDGE), missing());
    assert_eq!(result, Ok(None));
}

#[test]
fn wrong_workspace_references_are_rejected() {
    let mut resource = own("path:notes/plain.md", KNOWLEDGE);
    resource.workspace_id = WorkspaceId { value: 2 };
    assert!(matches!(
        open_vault().get_knowledge(&resource, steady("x")),
        Err(ProviderError::Validation { field: "resource_kind" })
    ));
}

#[test]
fn unreadable_documents_fail_with_their_field() {
    let provider = open_vault();
    let reference = own("path:a.md", KNOWLEDGE);
    let mut seen = steady("text");
    seen.first = FileRead::Bytes(vec![0xff, 0xfe]);
    assert!(matches!(
        provider.read_knowledge(&reference, seen),
        Err(ProviderError::Validation { field: "encoding" })
    ));
    let mut seen = steady("text");
    seen.first_parse = DocumentParse::Rejected;
    assert!(matches!(
        provider.read_knowledge(&reference, seen),
        Err(ProviderError::Validation { field: "markdown" })
    ));
    let mut seen = steady("text");
    seen.first = FileRead::Failed;
    assert!(matches!(
        provider.read_knowledge(&reference, seen),
        Err(ProviderError::Unavailable)
    ));
    assert!(matches!(
        provider.read_knowledge(&own("task-1", KNOWLEDGE), steady("text")),
        Err(ProviderError::Validation { field: "resource_id" })
    ));
}

#[test]
fn knowledge_search_filters_by_text_and_stays_bounded() {
    let provider = open_vault();
    let reads = || {
        vec![
            provider.read_knowledge(
                &own("path:notes/atlas.md", KNOWLEDGE),
                steady("---\ntitle: Atlas\n---\n\nbody\n"),
            ),
            provider.read_knowledge(
                &own("path:notes/plain.md", KNOWLEDGE),
                steady("---\ntitle: Plain Heading\n---\n\nMentions a ZEBRA.\n"),
            ),
        ]
    };
    let query = |text: Option<&str>, limit: usize| ProviderQuery {
        workspace_id: workspace(),
        text: text.map(str::to_owned),
        limit,
    };
    let matches = provider
        .search_knowledge(&query(Some("zebra"), 5), reads())
        .expect("search succeeds");
    assert_eq!(matches.items.len(), 1);
    assert_eq!(matches.items[0].title, "Plain Heading");
    let limited = provider
        .search_knowledge(&query(None, 1), reads())
        .expect("search succeeds");
    assert_eq!(limited.items.len(), 1);
}

fn task_file(id: u128, body: &str, status: &str) -> TaskFile {
    TaskFile {
        bytes: Some(body.as_bytes().to_vec()),
        task: Some(ParsedTask {
            brain_id: format!("{id:032x}"),
            representable: true,
            task_id: TaskId { value: id },
            title: "title".to_owned(),
            body: body.to_owned(),
            status: status.to_owned(),
            priority: "High".to_owned(),
            scheduling: TaskScheduling {
                due_at: Instant::parse("2026-08-01T10:00:00Z"),
                rest: 0,
            },
            refusal: None,
        }),
    }
}

#[test]
fn tasks_enumerate_by_brain_id_and_read_into_the_contract() {
    let provider = open_vault();
    let files = || {
        vec![
            task_file(TASK_ID, "First task body", "Todo"),
            task_file(TASK_ID + 1, "Second task mentioning zebra.", "Completed"),
        ]
    };
    let query = |text: Option<&str>| ProviderQuery {
        workspace_id: workspace(),
        text: text.map(str::to_owned),
        limit: 10,
    };
    let page = provider.search_tasks(&query(None), files()).expect("task search succeeds");
    assert_eq!(page.items.len(), 2);
    let todo = page.items.iter().find(|task| task.status == "Todo").expect("todo task present");
    assert_eq!(todo.priority, "High");
    assert!(todo.scheduling.due_at.is_some());
    assert!(todo.body.contains("First task body"));
    let resource = todo.provenance.resource.clone();
    let read = provider
        .get_task(&resource, files())
        .expect("get succeeds")
        .expect("task found");
    assert_eq!(&read.item, todo);

    let matches = provider
        .search_tasks(&query(Some("zebra")), files())
        .expect("search succeeds");
    assert_eq!(matches.items.len(), 1);
    assert_eq!(matches.items[0].status, "Completed");
}

#[test]
fn identical_content_yields_identical_revisions() {
    let provider = open_vault();
    let confined = provider.confine("note.md", KNOWLEDGE, &Vec::new()).expect("confined");
    let first = provider.current_revision(&confined, true, &bytes("body")).expect("observed");
    let second = provider.current_revision(&confined, true, &bytes("body")).expect("observed");
    assert_eq!(first, second);
    assert!(first.starts_with("rev-"));
}

#[test]
fn external_edits_change_the_observed_revision() {
    let provider = open_vault();
    let confined = provider.confine("note.md", KNOWLEDGE, &Vec::new()).expect("confined");
    let before = provider.current_revision(&confined, true, &bytes("version one\n"));
    let after = provider.current_revision(&confined, true, &bytes("version two\n"));
    assert_ne!(before.expect("revision"), after.expect("revision"));
}

#[test]
fn verify_revision_accepts_unchanged_files_and_rejects_stale_ones() {
    let provider = open_vault();
    let confined = provider.confine("note.md", KNOWLEDGE, &Vec::new()).expect("confined");
    let observed = provider
        .current_revision(&confined, true, &bytes("original\n"))
        .expect("revision");
    assert!(provider.verify_revision(&confined, &observed, true, &bytes("original\n")).is_ok());
    let edited = bytes("externally rewritten\n");
    match provider.verify_revision(&confined, &observed, true, &edited) {
        Err(ProviderError::Conflict { current }) => {
            assert_ne!(current.observed_revision, observed);
            assert!(current.observed_revision.starts_with("rev-"));
        }
        other => panic!("expected conflict with current provenance, got {other:?}"),
    }
    let reconciled = provider.current_revision(&confined, true, &edited).expect("revision");
    assert!(provider.verify_revision(&confined, &reconciled, true, &edited).is_ok());
}

#[test]
fn verify_revision_of_a_deleted_file_is_not_found() {
    let provider = open_vault();
    let confined = provider.confine("note.md", KNOWLEDGE, &Vec::new()).expect("confined");
    assert!(matches!(
        provider.current_revision(&confined, true, &FileRead::Missing),
        Err(ProviderError::NotFound { .. })
    ));
}

#[test]
fn reads_report_stale_freshness_when_the_file_changed_mid_parse() {
    let provider = open_vault();
    let reference = own("path:note.md", KNOWLEDGE);
    let edited = "---\ntitle: Original\n---\n\nexternally edited body\n";
    let mut seen = steady("---\ntitle: Original\n---\n\noriginal body\n");
    seen.check = bytes(edited);
    seen.reread = bytes(edited);
    seen.reread_parse = parsed(edited);
    let read = provider
        .get_knowledge(&reference, seen)
        .expect("get succeeds")
        .expect("found");
    assert_eq!(read.freshness, ProviderFreshness::Stale);
    assert!(read.item.body.contains("externally edited"));
    assert_eq!(read.item.provenance.observed_revision, revision(edited));
}

#[test]
fn unique_path_allocation_never_overwrites_an_existing_file() {
    let provider = open_vault();
    let plan = |taken: Vec<String>| {
        provider
            .plan_create(
                KNOWLEDGE,
                "Same Title",
                render_document("Same Title", "body"),
                &taken,
                &Vec::new(),
            )
            .expect("create is planned")
    };
    let first = plan(Vec::new());
    assert_eq!(first.path.relative(), "Documents/same-title.md");
    let second = plan(vec![first.path.relative().to_owned()]);
    assert_eq!(second.path.relative(), "Documents/same-title-2.md");
    assert_eq!(
        allocate_path(
            "Documents",
            "Same Title",
            &vec![
                "Documents/same-title-2.md".to_owned(),
                "Documents/same-title.md".to_owned()
            ]
        ),
        "Documents/same-title-3.md"
    );
    assert_eq!(slug_text("  Ä -- Hello, World! 2 "), "hello-world-2");
    assert_eq!(slug_text("???"), "untitled");
}

#[test]
fn atomic_create_writes_a_parseable_document_in_a_dedicated_directory() {
    let provider = open_vault();
    let planned = provider
        .plan_create(
            KNOWLEDGE,
            "Atlas Plan",
            render_document("Atlas Plan", "created body"),
            &Vec::new(),
            &Vec::new(),
        )
        .expect("create is planned");
    let resource = own(&format!("path:{}", planned.path.relative()), KNOWLEDGE);
    assert!(resource.resource_id.starts_with("path:Documents/"));
    let created =
        settle_write(resource.clone(), None, &planned.content, true).expect("create succeeds");
    let read = provider
        .get_knowledge(&resource, steady(&planned.content))
        .expect("get succeeds")
        .expect("created document found");
    assert_eq!(read.item.title, "Atlas Plan");
    assert_eq!(read.item.body, "\ncreated body\n");
    assert_eq!(created.current, Some(read.item.provenance));
}

#[test]
fn knowledge_create_update_delete_round_trip_atomically() {
    let provider = open_vault();
    let resource = own("path:Documents/round-trip.md", KNOWLEDGE);
    let original = render_document("Round Trip", "original body");
    let external = "---\ntitle: Round Trip\n---\n\nexternally edited body\n";
    let guard = |expected: &str, read: FileRead| {
        provider.guard(&resource, "Documents/round-trip.md", expected, &read, &Vec::new())
    };

    // An external edit lands first; the caller's revision is now stale.
    match guard(&revision(&original), bytes(external)) {
        Err(ProviderError::Conflict { current }) => {
            assert_eq!(current.observed_revision, revision(external));
            assert_ne!(current.observed_revision, revision(&original));
        }
        other => panic!("expected conflict, got {:?}", other.err()),
    }

    // With the fresh revision the update succeeds.
    let (path, previous) = guard(&revision(external), bytes(external)).ok().expect("passes");
    assert_eq!(path.relative(), "Documents/round-trip.md");
    let content = render_document("Round Trip 2", "externally edited body\nreconciled update");
    let updated =
        settle_write(resource.clone(), Some(previous), &content, true).expect("update succeeds");
    let current = updated.current.expect("current");
    assert_ne!(current.observed_revision, revision(external));
    assert_eq!(updated.previous.expect("previous").observed_revision, revision(external));

    // Delete with the fresh revision succeeds.
    let (_, previous) = guard(&current.observed_revision, bytes(&content)).ok().expect("passes");
    let deleted = settle_delete(previous, true).expect("delete succeeds");
    assert!(deleted.current.is_none());
    assert_eq!(provider.get_knowledge(&resource, missing()), Ok(None));
}

#[test]
fn external_delete_between_read_and_update_is_typed_not_found_without_resurrection() {
    let provider = open_vault();
    let resource = own("path:Documents/doomed.md", KNOWLEDGE);
    assert!(matches!(
        provider.guard(
            &resource,
            "Documents/doomed.md",
            &revision("body"),
            &FileRead::Missing,
            &Vec::new()
        ),
        Err(ProviderError::NotFound { .. })
    ));
}

#[test]
fn permission_failures_leave_the_original_intact() {
    let resource = own("path:Documents/locked.md", KNOWLEDGE);
    assert!(matches!(
        settle_write(resource, None, "must not land", false),
        Err(ProviderError::Unavailable)
    ));
    let provider = opened(config(VaultProviderMode::ReadOnly, &[KNOWLEDGE], &[]));
    assert!(matches!(
        provider.plan_create(KNOWLEDGE, "T", "x".to_owned(), &Vec::new(), &Vec::new()),
        Err(ProviderError::Unavailable)
    ));
    assert!(matches!(
        provider.guard(
            &own("path:a.md", KNOWLEDGE),
            "a.md",
            &revision("x"),
            &bytes("x"),
            &Vec::new()
        ),
        Err(ProviderError::Unavailable)
    ));
}

#[test]
fn concurrent_updates_with_the_same_expected_revision_produce_one_winner() {
    let provider = open_vault();
    let resource = own("path:Documents/contested.md", KNOWLEDGE);
    let base = render_document("Contested", "base body");
    let winner = render_document("Writer A", "body a");
    let attempt = |read: FileRead| {
        provider.guard(
            &resource,
            "Documents/contested.md",
            &revision(&base),
            &read,
            &Vec::new(),
        )
    };
    // Both writers saw the same revision; the first one's content lands.
    let (path, previous) = attempt(bytes(&base)).expect("first writer wins");
    assert_eq!(path.absolute(), &components("vault/Documents/contested.md"));
    let landed = settle_write(resource.clone(), Some(previous), &winner, true)
        .expect("first writer's content is stored");
    // The second one is refused with what is there now.
    match attempt(bytes(&winner)) {
        Err(ProviderError::Conflict { current }) => assert_eq!(Some(current), landed.current),
        other => panic!("expected a conflict, got {other:?}"),
    }
    let read = provider
        .get_knowledge(&resource, steady(&winner))
        .expect("get succeeds")
        .expect("document found");
    assert_eq!(read.item.title, "Writer A");
    assert!(read.item.body.contains("body a"));
    assert!(!read.item.body.contains("body b"));
}

#[test]
fn task_create_complete_delete_preserves_identity_and_unknowns() {
    let on_disk = render_task(TaskId { value: TASK_ID }, "High", "due: 2026-08-01\n", "report body");
    assert!(on_disk.contains("type: task"));
    assert!(on_disk.contains("status: todo"));
    assert!(on_disk.contains("priority: high"));
    assert!(on_disk.contains("brain_id: 01926c8f-88f9-7d33-9a1b-2c7d33bd0a12"));
    assert!(on_disk.contains("due: 2026-08-01"));
    let after = restate(&on_disk, "done").expect("front matter");
    assert!(after.contains("status: done"));
    assert!(!after.contains("status: todo"));
    assert!(after.contains("report body"));
    assert_eq!(after, on_disk.replace("status: todo", "status: done"));

    // Prose that looks like a field is not touched, nor are unknown fields.
    let text = "---\nextra: 1\nstatus: todo\n---\nstatus: todo\n";
    assert_eq!(
        restate(text, "done").as_deref(),
        Some("---\nextra: 1\nstatus: done\n---\nstatus: todo\n")
    );
    assert_eq!(restate("no front matter", "done"), None);
    assert_eq!(restate("---\nstatus: todo\n", "done"), None);
}

#[test]
fn stale_task_revision_completing_is_a_conflict_not_an_overwrite() {
    let provider = open_vault();
    let resource = own("task-1", TASK);
    // An external device edits the file first.
    let external = render_task(TaskId { value: TASK_ID }, "Normal", "", "body").replace(
        "priority: normal",
        "priority: urgent\nexternal_note: changed elsewhere",
    );
    assert!(external.contains("external_note: changed elsewhere"));
    assert!(external.contains("priority: urgent"));
    assert!(external.contains("status: todo"));
    // Completing with a stale revision is a conflict that shows the external change; no path to
    // write to is handed out.
    match provider.guard(
        &resource,
        "Tasks/one.md",
        "rev-0000000000000000",
        &bytes(&external),
        &Vec::new(),
    ) {
        Err(ProviderError::Conflict { current }) => {
            assert_eq!(current.observed_revision, revision(&external));
        }
        other => panic!("expected a conflict, got {other:?}"),
    }
}

#[test]
fn rename_never_clobbers_an_existing_target() {
    let provider = open_vault();
    let rename = |to: &str, exists: bool| {
        provider.rename("a.md", to, KNOWLEDGE, &Vec::new(), &Vec::new(), exists)
    };
    assert!(matches!(rename("b.md", true), Err(VaultPathError::TargetExists)));
    let (source, target) = rename("b.md", false).ok().expect("rename goes ahead");
    assert_eq!(source.relative(), "a.md");
    assert_eq!(target.relative(), "b.md");
    assert_eq!(source.absolute(), &components("vault/a.md"));
    assert_eq!(target.absolute(), &components("vault/b.md"));
    assert!(matches!(rename("../b.md", false), Err(VaultPathError::Traversal)));
}

#[test]
fn a_crashed_write_leaves_only_an_ignored_temporary_leftover() {
    let provider = open_vault();
    let written = provider
        .plan_create(
            KNOWLEDGE,
            "Survivor",
            render_document("Survivor", "authoritative body"),
            &Vec::new(),
            &Vec::new(),
        )
        .expect("create is planned");
    assert_eq!(written.path.absolute(), &components("vault/Documents/survivor.md"));
    // A crash left a temporary file with partial content beside the document.
    let entries = vec![file(written.path.relative()), file("Documents/partial.tmp-0192")];
    let page = provider.enumerate_knowledge(10, &entries);
    assert_eq!(page.items.len(), 1, "temp leftovers must not enumerate");
    let read = provider
        .get_knowledge(&page.items[0], steady(&written.content))
        .expect("get succeeds")
        .expect("authoritative file found");
    assert!(read.item.body.contains("authoritative body"));
}

fn governed() -> GovernedVaultProvider {
    GovernedVaultProvider::new(workspace(), PrincipalId { value: 5 })
}

#[test]
fn denied_create_is_rejected_audited_and_never_dispatched() {
    let target = policy_target(VaultOperation::CreateKnowledge, workspace(), None);
    let step = governed().authorize(
        VaultOperation::CreateKnowledge,
        target,
        OperationId { value: 9 },
        PolicyDecision::Deny(PolicyDeny::MissingGrant),
    );
    match step {
        GovernedStep::Reject { audit, error } => {
            assert_eq!(error, ProviderError::Unauthorized);
            assert_eq!(audit.result, AuditResult::Rejected);
            assert_eq!(
                audit.policy_decision,
                PolicyDecision::Deny(PolicyDeny::MissingGrant)
            );
            assert_eq!(audit.capability, VaultCapability::KnowledgeCreate);
            assert_eq!(audit.principal_id, PrincipalId { value: 5 });
        }
        GovernedStep::Dispatch => panic!("a denied create must not be dispatched"),
    }
    let target = policy_target(VaultOperation::CreateKnowledge, workspace(), None);
    assert!(matches!(
        governed().authorize(
            VaultOperation::CreateKnowledge,
            target,
            OperationId { value: 9 },
            PolicyDecision::Allow
        ),
        GovernedStep::Dispatch
    ));
}

#[test]
fn allowed_mutations_are_audited_with_their_revisions() {
    let mut memory = InMemoryVaultProvider::new();
    let created = memory.create_knowledge(workspace(), "Audited".to_owned(), "body".to_owned());
    let after = created.current.as_ref().expect("current").observed_revision.clone();
    let target = policy_target(VaultOperation::CreateKnowledge, workspace(), None);
    let audit = governed().audit_mutation(
        VaultOperation::CreateKnowledge,
        target,
        OperationId { value: 9 },
        &created,
    );
    assert_eq!(audit.result, AuditResult::Succeeded);
    assert_eq!(audit.revisions, Some((None, Some(after))));

    let resource = created.current.expect("current");
    let deleted: ProviderMutation = memory
        .delete_knowledge(&resource.resource, &resource.observed_revision)
        .expect("delete succeeds");
    let target = policy_target(
        VaultOperation::DeleteKnowledge,
        workspace(),
        Some(&resource.resource),
    );
    let audit = governed().audit_mutation(
        VaultOperation::DeleteKnowledge,
        target,
        OperationId { value: 10 },
        &deleted,
    );
    assert_eq!(audit.capability, VaultCapability::KnowledgeDelete);
    assert_eq!(audit.revisions, Some((Some(resource.observed_revision), None)));
    assert_eq!(
        capability_for(VaultOperation::CompleteTask),
        VaultCapability::TaskComplete
    );
}

#[test]
fn policy_is_asked_about_the_resource_or_its_scope() {
    let resource = own("r", KNOWLEDGE);
    assert_eq!(
        policy_target(VaultOperation::GetKnowledge, workspace(), Some(&resource)),
        ResourceTarget::ProviderResource(resource)
    );
    assert!(matches!(
        policy_target(VaultOperation::SearchTasks, workspace(), None),
        ResourceTarget::ProviderScope { resource_kind: ProviderResourceKind::Task, .. }
    ));
}

#[test]
fn fake_provider_starts_and_serves_through_the_composition_boundary() {
    let mut provider = InMemoryVaultProvider::new();
    let created = provider.create_knowledge(
        workspace(),
        "Composed".to_owned(),
        "fake provider body".to_owned(),
    );
    let resource = created.current.expect("created").resource;
    let read = provider
        .get_knowledge(&resource)
        .expect("get succeeds")
        .expect("created document found");
    assert_eq!(read.item.title, "Composed");
    let query = ProviderQuery { workspace_id: workspace(), text: None, limit: 10 };
    assert_eq!(provider.search_knowledge(&query).items.len(), 1);
    let task = provider.create_task(
        workspace(),
        TaskId { value: TASK_ID },
        "Composed task".to_owned(),
        "task body".to_owned(),
        "Normal".to_owned(),
        TaskScheduling { due_at: None, rest: 0 },
    );
    let task_resource = task.current.expect("created").resource;
    let listed = provider.search_tasks(&query);
    assert_eq!(listed.items.len(), 1);
    assert_eq!(listed.items[0].provenance.resource, task_resource);
    assert!(matches!(
        provider.get_knowledge(&task_resource),
        Err(ProviderError::Validation { field: "resource_kind" })
    ));
}

#[test]
fn writes_to_the_fake_provider_supersede_older_revisions() {
    let mut provider = InMemoryVaultProvider::new();
    let created = provider.create_knowledge(workspace(), "A".to_owned(), "one".to_owned());
    let first = created.current.expect("created");
    let updated = provider
        .update_knowledge(
            &first.resource,
            &first.observed_revision,
            "B".to_owned(),
            "two".to_owned(),
        )
        .expect("update succeeds");
    let second = updated.current.expect("updated");
    assert_ne!(second.observed_revision, first.observed_revision);
    assert!(matches!(
        provider.update_knowledge(
            &first.resource,
            &first.observed_revision,
            "C".to_owned(),
            "three".to_owned()
        ),
        Err(ProviderError::Conflict { .. })
    ));
    assert!(matches!(
        provider.delete_knowledge(&own("ghost", KNOWLEDGE), "rev-1"),
        Err(ProviderError::NotFound { .. })
    ));
    let task = provider
        .create_task(
            workspace(),
            TaskId { value: 7 },
            "T".to_owned(),
            "b".to_owned(),
            "Low".to_owned(),
            TaskScheduling { due_at: None, rest: 0 },
        )
        .current
        .expect("created");
    provider
        .complete_task(&task.resource, &task.observed_revision)
        .expect("complete succeeds");
    let read = provider.get_task(&task.resource).expect("get").expect("found");
    assert_eq!(read.item.status, "Completed");
}

#[test]
fn tasks_are_found_by_identity_in_the_first_file_that_holds_it() {
    let provider = open_vault();
    let files = || {
        vec![
            task_file(TASK_ID, "one", "Todo"),
            task_file(TASK_ID, "two", "Todo"),
        ]
    };
    let page = provider
        .search_tasks(
            &ProviderQuery { workspace_id: workspace(), text: None, limit: 10 },
            vec![task_file(TASK_ID, "one", "Todo")],
        )
        .expect("search succeeds");
    let resource = page.items[0].provenance.resource.clone();
    let read = provider
        .get_task(&resource, files())
        .expect("get succeeds")
        .expect("task found");
    assert_eq!(read.item.body, "one");
    // The path plays no part: after a move the same identity is read.
    let moved = provider
        .rename("Tasks/one.md", "Tasks/archived/moved.md", TASK, &Vec::new(), &Vec::new(), false)
        .ok()
        .expect("rename goes ahead");
    assert_eq!(moved.1.relative(), "Tasks/archived/moved.md");
    assert!(matches!(
        provider.get_task(&resource, Vec::new()),
        Err(ProviderError::NotFound { .. })
    ));
}

#[test]
fn settled_operations_are_audited_only_where_they_changed_something() {
    let mut memory = InMemoryVaultProvider::new();
    let created = memory.create_knowledge(workspace(), "A".to_owned(), "b".to_owned());
    let target = || policy_target(VaultOperation::CreateKnowledge, workspace(), None);
    let operation = OperationId { value: 4 };
    let audit = governed()
        .settle(VaultOperation::CreateKnowledge, target(), operation, &Ok(created))
        .expect("a success is audited");
    assert_eq!(audit.result, AuditResult::Succeeded);
    assert_eq!(
        governed().settle(
            VaultOperation::CreateKnowledge,
            target(),
            operation,
            &Err(ProviderError::Unavailable)
        ),
        None
    );
}

#[test]
fn tasks_of_the_fake_provider_are_rewritten_and_deleted() {
    let mut provider = InMemoryVaultProvider::new();
    let scheduling = TaskScheduling { due_at: None, rest: 0 };
    let task = provider
        .create_task(
            workspace(),
            TaskId { value: 7 },
            "T".to_owned(),
            "b".to_owned(),
            "Low".to_owned(),
            scheduling,
        )
        .current
        .expect("created");
    let updated = provider
        .update_task(
            &task.resource,
            &task.observed_revision,
            "U".to_owned(),
            "c".to_owned(),
            "Todo".to_owned(),
            "High".to_owned(),
            scheduling,
        )
        .expect("update succeeds")
        .current
        .expect("updated");
    let read = provider.get_task(&task.resource).expect("get").expect("found");
    assert_eq!((read.item.title.as_str(), read.item.priority.as_str()), ("U", "High"));
    assert!(matches!(
        provider.delete_task(&task.resource, &task.observed_revision),
        Err(ProviderError::Conflict { .. })
    ));
    assert!(provider.delete_task(&task.resource, &updated.observed_revision).is_ok());
}

#[test]
fn observed_reads_carry_their_provenance() {
    let provider = open_vault();
    let confined = provider.confine("note.md", KNOWLEDGE, &Vec::new()).expect("confined");
    let (resource, content, provenance) = provider
        .read_observed(&confined, KNOWLEDGE, true, bytes("body"))
        .expect("read");
    assert_eq!(resource.resource_id, "path:note.md");
    assert_eq!(content, b"body".to_vec());
    assert_eq!(provenance.observed_revision, revision("body"));
    assert!(matches!(
        provider.read_observed(&confined, KNOWLEDGE, true, FileRead::Missing),
        Err(ProviderError::NotFound { .. })
    ));
    assert_eq!(
        VaultPathError::from_config(cortexd::vault::VaultConfigError::RootInaccessible),
        VaultPathError::InvalidRoot
    );
}
