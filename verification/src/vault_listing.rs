//! Bounded enumeration of the vault: which of the directory entries that a walk over the root met
//! are listed, and in what order.
use crate::ids::ProviderResourceKind;
use crate::text::{
    begins_with, characters, increasing, is_before, lemma_precedes_total,
    lemma_precedes_transitive, precedes, same_text, starts_with, text_of,
};
use crate::vault_provider::{normalized, views, MarkdownVaultProvider};
use vstd::prelude::*;

verus! {

pub const MAX_ENUMERATED_FILES: usize = 10_000;

/// One directory entry that a walk over the vault root met.
pub struct DirectoryEntry {
    /// The path relative to the root, where it is text.
    pub relative: Option<String>,
    /// The entry is a directory.
    pub is_directory: bool,
    /// The extension of the file name, where it has one.
    pub extension: Option<String>,
    /// The identity port can represent the identifier of a document at this path.
    pub representable: bool,
    /// What resolving the symlinks of the path and of its parents gave, the path itself first.
    pub ancestors: Vec<Option<Vec<String>>>,
}

/// A path that passed enumeration, normalized.
#[derive(Debug, PartialEq, Eq)]
pub struct ListedPath {
    pub relative: String,
    pub representable: bool,
}

/// A complete authoritative scan could not be proven.
#[derive(Clone, Copy, Debug, PartialEq, Eq, Structural)]
pub enum VaultScanError {
    Incomplete,
}

/// Everything a walk over the vault root met.
pub struct VaultListing {
    pub entries: Vec<DirectoryEntry>,
    /// Every directory was read to its end.
    pub complete: bool,
}

/// `Tasks/` is the managed task directory; everything else is knowledge.
pub open spec fn kind_of(relative: Seq<char>) -> ProviderResourceKind {
    if begins_with(relative, "Tasks/"@) {
        ProviderResourceKind::Task
    } else {
        ProviderResourceKind::Knowledge
    }
}

/// The format uses `/` separators regardless of platform.
pub open spec fn slashed(path: Seq<char>) -> Seq<char> {
    path.map_values(
        |c: char|
            if c == '\\' {
                '/'
            } else {
                c
            },
    )
}

impl DirectoryEntry {
    /// The entry is a Markdown file whose path is text.
    pub open spec fn is_markdown(self) -> bool {
        &&& !self.is_directory
        &&& self.extension matches Some(extension) && extension@ == "md"@
        &&& self.relative is Some
    }

    /// The path of the entry in the vault's notation.
    pub open spec fn path(self) -> Seq<char> {
        slashed(self.relative->0@)
    }
}

impl MarkdownVaultProvider {
    /// The entry is a confined Markdown file of the kind. Files of the task directory are never
    /// knowledge documents.
    pub open spec fn lists(self, kind: ProviderResourceKind, entry: DirectoryEntry) -> bool {
        &&& entry.is_markdown()
        &&& !(kind == ProviderResourceKind::Knowledge && begins_with(entry.path(), "Tasks/"@))
        &&& self.confine_error(entry.path(), kind, entry.ancestors@) is None
    }

    /// The entries of the kind among the first ones, as many as may be visited.
    pub open spec fn listed(self, kind: ProviderResourceKind, entries: Seq<DirectoryEntry>) -> Seq<
        DirectoryEntry,
    > {
        visited(entries).filter(|entry: DirectoryEntry| self.lists(kind, entry))
    }

    /// The entry is a confined Markdown file of the kind that its path says.
    pub open spec fn indexes(self, entry: DirectoryEntry) -> bool {
        &&& entry.is_markdown()
        &&& self.confine_error(entry.path(), kind_of(entry.path()), entry.ancestors@) is None
    }

    /// Some entry whose path normalizes to `path` is indexed.
    pub open spec fn indexed_at(self, entries: Seq<DirectoryEntry>, path: Seq<char>) -> bool {
        exists|i: int|
            0 <= i < entries.len() && self.indexes(#[trigger] entries[i]) && normalized(
                entries[i].path(),
            ) == path
    }
}

/// The entries that enumeration visits before it gives up.
pub open spec fn visited(entries: Seq<DirectoryEntry>) -> Seq<DirectoryEntry> {
    if entries.len() <= MAX_ENUMERATED_FILES {
        entries
    } else {
        entries.subrange(0, MAX_ENUMERATED_FILES as int)
    }
}

/// The kind that a vault-relative path says.
pub fn kind_for(relative: &str) -> (kind: ProviderResourceKind)
    ensures
        kind == kind_of(relative@),
{
    if starts_with(relative, "Tasks/") {
        ProviderResourceKind::Task
    } else {
        ProviderResourceKind::Knowledge
    }
}

/// The path in the vault's notation.
fn with_slashes(path: &str) -> (written: String)
    ensures
        written@ == slashed(path@),
{
    let chars = characters(path);
    let mut written: Vec<char> = Vec::new();
    let mut i: usize = 0;
    while i < chars.len()
        invariant
            i <= chars@.len(),
            chars@ == path@,
            written@ == slashed(path@.subrange(0, i as int)),
        decreases chars@.len() - i,
    {
        let c = if chars[i] == '\\' {
            '/'
        } else {
            chars[i]
        };
        written.push(c);
        assert(written@ =~= slashed(path@.subrange(0, i + 1)));
        i += 1;
    }
    assert(path@.subrange(0, i as int) =~= path@);
    text_of(written.as_slice())
}

impl DirectoryEntry {
    /// The path of a Markdown file in the vault's notation; nothing for any other entry.
    fn markdown_path(&self) -> (path: Option<String>)
        ensures
            path is Some <==> self.is_markdown(),
            path matches Some(text) ==> text@ == self.path(),
    {
        if self.is_directory {
            return None;
        }
        match &self.extension {
            Some(extension) => if !same_text(extension.as_str(), "md") {
                return None;
            },
            None => {
                return None;
            },
        }
        match &self.relative {
            Some(relative) => Some(with_slashes(relative.as_str())),
            None => None,
        }
    }
}

impl MarkdownVaultProvider {
    /// Bounded enumeration of the Markdown files that pass confinement for the given kind, by their
    /// normalized paths. Other entries are skipped, never fatal.
    pub fn enumerate_paths(
        &self,
        kind: ProviderResourceKind,
        limit: usize,
        entries: &Vec<DirectoryEntry>,
    ) -> (listed: Vec<ListedPath>)
        ensures
            listed@.len() == (if self.listed(kind, entries@).len() <= limit {
                self.listed(kind, entries@).len() as int
            } else {
                limit as int
            }),
            forall|k: int|
                0 <= k < listed@.len() ==> (#[trigger] listed@[k]).relative@ == normalized(
                    self.listed(kind, entries@)[k].path(),
                ) && listed@[k].representable == self.listed(kind, entries@)[k].representable,
    {
        let ghost p = |entry: DirectoryEntry| self.lists(kind, entry);
        let ghost all = visited(entries@);
        let mut listed: Vec<ListedPath> = Vec::new();
        let mut i: usize = 0;
        proof {
            reveal(Seq::filter);
        }
        while i < entries.len() && i < MAX_ENUMERATED_FILES && listed.len() < limit
            invariant
                i <= all.len(),
                all == visited(entries@),
                p == (|entry: DirectoryEntry| self.lists(kind, entry)),
                listed@.len() <= limit,
                listed@.len() == all.subrange(0, i as int).filter(p).len(),
                forall|k: int|
                    0 <= k < listed@.len() ==> (#[trigger] listed@[k]).relative@ == normalized(
                        all.subrange(0, i as int).filter(p)[k].path(),
                    ) && listed@[k].representable == all.subrange(
                        0,
                        i as int,
                    ).filter(p)[k].representable,
            decreases entries@.len() - i,
        {
            let entry = &entries[i];
            proof {
                reveal(Seq::filter);
                assert(all.subrange(0, i + 1).drop_last() =~= all.subrange(0, i as int));
                assert(all.subrange(0, i + 1).last() == *entry);
            }
            match entry.markdown_path() {
                Some(path) => {
                    let task_file = starts_with(path.as_str(), "Tasks/");
                    let hidden = kind == ProviderResourceKind::Knowledge && task_file;
                    if !hidden {
                        match self.confine(path.as_str(), kind, &entry.ancestors) {
                            Ok(confined) => listed.push(
                                ListedPath {
                                    relative: confined.relative().to_owned(),
                                    representable: entry.representable,
                                },
                            ),
                            Err(_) => {},
                        }
                    }
                },
                None => {},
            }
            i += 1;
        }
        proof {
            let seen = all.subrange(0, i as int);
            let rest = all.subrange(i as int, all.len() as int);
            assert(all =~= seen + rest);
            Seq::filter_distributes_over_add(seen, rest, p);
            if i == all.len() {
                assert(seen =~= all);
            }
        }
        listed
    }

    /// Lists each indexable path of the vault once, normalized, in lexical order.
    pub fn indexable_paths(&self, listing: &VaultListing) -> (paths: Result<
        Vec<String>,
        VaultScanError,
    >)
        ensures
            match paths {
                Ok(paths) => ({
                    &&& listing.complete && listing.entries@.len() <= MAX_ENUMERATED_FILES
                    &&& increasing(views(paths@))
                    &&& forall|path: Seq<char>| #[trigger]
                        views(paths@).contains(path) <==> self.indexed_at(listing.entries@, path)
                }),
                Err(error) => ({
                    &&& !listing.complete || listing.entries@.len() > MAX_ENUMERATED_FILES
                    &&& error == VaultScanError::Incomplete
                }),
            },
    {
        if !listing.complete || listing.entries.len() > MAX_ENUMERATED_FILES {
            return Err(VaultScanError::Incomplete);
        }
        let entries = &listing.entries;
        let mut paths: Vec<String> = Vec::new();
        let mut i: usize = 0;
        while i < entries.len()
            invariant
                i <= entries@.len(),
                increasing(views(paths@)),
                forall|path: Seq<char>| #[trigger]
                    views(paths@).contains(path) <==> self.indexed_at(
                        entries@.subrange(0, i as int),
                        path,
                    ),
            decreases entries@.len() - i,
        {
            let entry = &entries[i];
            let ghost before = views(paths@);
            let ghost seen = entries@.subrange(0, i as int);
            let ghost now = entries@.subrange(0, i + 1);
            match entry.markdown_path() {
                Some(path) => {
                    let kind = kind_for(path.as_str());
                    match self.confine(path.as_str(), kind, &entry.ancestors) {
                        Ok(confined) => insert_sorted(&mut paths, confined.relative().to_owned()),
                        Err(_) => {},
                    }
                },
                None => {},
            }
            assert forall|path: Seq<char>| #[trigger]
                views(paths@).contains(path) <==> self.indexed_at(now, path) by {
                assert(before.contains(path) <==> self.indexed_at(seen, path));
                assert(now =~= seen.push(*entry));
                if self.indexed_at(seen, path) {
                    let k = choose|k: int|
                        0 <= k < seen.len() && self.indexes(#[trigger] seen[k]) && normalized(
                            seen[k].path(),
                        ) == path;
                    assert(now[k] == seen[k]);
                }
                if self.indexed_at(now, path) {
                    let k = choose|k: int|
                        0 <= k < now.len() && self.indexes(#[trigger] now[k]) && normalized(
                            now[k].path(),
                        ) == path;
                    if k < seen.len() {
                        assert(now[k] == seen[k]);
                    }
                }
                assert(now[i as int] == *entry);
            }
            i += 1;
        }
        assert(entries@.subrange(0, i as int) =~= entries@);
        Ok(paths)
    }
}

/// Inserts a text where it belongs, unless it is there.
fn insert_sorted(list: &mut Vec<String>, item: String)
    requires
        increasing(views(old(list)@)),
    ensures
        increasing(views(final(list)@)),
        forall|text: Seq<char>| #[trigger]
            views(final(list)@).contains(text) <==> text == item@ || views(old(list)@).contains(text),
{
    let ghost before = views(list@);
    let mut at: usize = 0;
    while at < list.len() && is_before(list[at].as_str(), item.as_str())
        invariant
            at <= list@.len(),
            views(list@) == before,
            list@ == old(list)@,
            forall|j: int| 0 <= j < at ==> precedes(#[trigger] before[j], item@),
        decreases list@.len() - at,
    {
        at += 1;
    }
    if at < list.len() && same_text(list[at].as_str(), item.as_str()) {
        assert(before[at as int] == item@);
        return ;
    }
    proof {
        if at < list@.len() {
            assert(before[at as int] == list@[at as int]@);
            lemma_precedes_total(before[at as int], item@);
        }
    }
    let ghost text = item@;
    list.insert(at, item);
    proof {
        let after = views(list@);
        assert(after =~= before.insert(at as int, text));
        assert forall|i: int, j: int| 0 <= i < j < after.len() implies precedes(
            #[trigger] after[i],
            #[trigger] after[j],
        ) by {
            if i < at && j > at {
                assert(after[i] == before[i] && after[j] == before[j - 1]);
            } else if j < at {
                assert(after[i] == before[i] && after[j] == before[j]);
            } else if i > at {
                assert(after[i] == before[i - 1] && after[j] == before[j - 1]);
            } else if j == at {
                assert(after[i] == before[i]);
            } else {
                assert(after[j] == before[j - 1]);
                assert(precedes(text, before[at as int]));
                if j - 1 > at {
                    assert(precedes(before[at as int], before[j - 1]));
                    lemma_precedes_transitive(text, before[at as int], before[j - 1]);
                }
            }
        }
        assert forall|one: Seq<char>| #[trigger]
            after.contains(one) <==> one == text || before.contains(one) by {
            if after.contains(one) {
                let k = choose|k: int| 0 <= k < after.len() && after[k] == one;
                if k < at {
                    assert(before[k] == one);
                } else if k > at {
                    assert(before[k - 1] == one);
                }
            }
            if before.contains(one) {
                let k = choose|k: int| 0 <= k < before.len() && before[k] == one;
                if k < at {
                    assert(after[k] == one);
                } else {
                    assert(after[k + 1] == one);
                }
            }
            assert(after[at as int] == text);
        }
    }
}

/// An increasing list is determined by its members, so a scan of the same entries lists the same
/// paths whatever the order in which a walk met them.
pub proof fn law_scan_order_is_deterministic(a: Seq<Seq<char>>, b: Seq<Seq<char>>)
    requires
        increasing(a),
        increasing(b),
        forall|path: Seq<char>| #[trigger] a.contains(path) <==> b.contains(path),
    ensures
        a == b,
    decreases a.len(),
{
    if a.len() == 0 {
        if b.len() > 0 {
            assert(b.contains(b[0]));
            assert(a.contains(b[0]));
        }
        assert(a =~= b);
    } else if b.len() == 0 {
        assert(a.contains(a[0]));
    } else {
        let x = a[a.len() - 1];
        let y = b[b.len() - 1];
        assert(a.contains(x) && b.contains(y));
        assert(a.contains(y) && b.contains(x));
        let i = choose|i: int| 0 <= i < a.len() && a[i] == y;
        let j = choose|j: int| 0 <= j < b.len() && b[j] == x;
        lemma_precedes_total(x, y);
        if x != y {
            assert(precedes(a[i], a[a.len() - 1]));
            assert(precedes(b[j], b[b.len() - 1]));
        }
        let c = a.drop_last();
        let d = b.drop_last();
        assert forall|path: Seq<char>| #[trigger] c.contains(path) <==> d.contains(path) by {
            if c.contains(path) {
                let k = choose|k: int| 0 <= k < c.len() && c[k] == path;
                assert(a[k] == path);
                assert(precedes(a[k], a[a.len() - 1]));
                lemma_precedes_total(path, x);
                assert(a.contains(path));
                let m = choose|m: int| 0 <= m < b.len() && b[m] == path;
                assert(m < d.len());
                assert(d[m] == path);
            }
            if d.contains(path) {
                let k = choose|k: int| 0 <= k < d.len() && d[k] == path;
                assert(b[k] == path);
                assert(precedes(b[k], b[b.len() - 1]));
                lemma_precedes_total(path, y);
                assert(b.contains(path));
                assert(a.contains(path));
                let m = choose|m: int| 0 <= m < a.len() && a[m] == path;
                assert(m < c.len());
                assert(c[m] == path);
            }
        }
        law_scan_order_is_deterministic(c, d);
        assert(a =~= c.push(x));
        assert(b =~= d.push(y));
    }
}

/// What lies in the task directory is a task, and nothing else is.
pub proof fn law_the_task_directory_holds_the_tasks(rest: Seq<char>, path: Seq<char>)
    ensures
        kind_of("Tasks/"@ + rest) == ProviderResourceKind::Task,
        kind_of(path) == ProviderResourceKind::Task ==> exists|rest: Seq<char>| path == #[trigger] (
            "Tasks/"@ + rest),
{
    let whole = "Tasks/"@ + rest;
    assert(whole.subrange(0, "Tasks/"@.len() as int) =~= "Tasks/"@);
    if kind_of(path) == ProviderResourceKind::Task {
        let tail = path.subrange("Tasks/"@.len() as int, path.len() as int);
        assert(path =~= "Tasks/"@ + tail);
    }
}

/// An entry that is listed is a Markdown file, by its extension, that is confined for the kind; a
/// file of the task directory is never listed as knowledge; and every such file is listed.
pub proof fn law_listings_hold_the_confined_markdown_files(
    provider: MarkdownVaultProvider,
    kind: ProviderResourceKind,
    entry: DirectoryEntry,
)
    ensures
        provider.lists(kind, entry) <==> {
            &&& !entry.is_directory
            &&& entry.extension is Some && entry.extension->0@ == "md"@
            &&& entry.relative is Some
            &&& provider.confine_error(entry.path(), kind, entry.ancestors@) is None
            &&& kind == ProviderResourceKind::Task || kind_of(entry.path())
                == ProviderResourceKind::Knowledge
        },
        provider.indexes(entry) <==> {
            &&& !entry.is_directory
            &&& entry.extension is Some && entry.extension->0@ == "md"@
            &&& entry.relative is Some
            &&& provider.confine_error(
                entry.path(),
                kind_of(entry.path()),
                entry.ancestors@,
            ) is None
        },
        entry.path().len() == entry.relative->0@.len(),
        forall|i: int|
            0 <= i < entry.path().len() ==> #[trigger] entry.path()[i] == (
            if entry.relative->0@[i] == '\\' {
                '/'
            } else {
                entry.relative->0@[i]
            }),
{
}

/// Enumeration visits the entries in order, ten thousand at most.
pub proof fn law_enumeration_is_bounded(entries: Seq<DirectoryEntry>)
    ensures
        visited(entries).len() <= 10000,
        entries.len() <= 10000 ==> visited(entries) == entries,
        forall|i: int| 0 <= i < visited(entries).len() ==> #[trigger] visited(entries)[i] == entries[i],
        entries.len() > 10000 ==> visited(entries).len() == 10000,
{
}

/// Every Markdown file that may be indexed is, under its own path, and no path is indexed but those of
/// such files.
pub proof fn law_every_indexable_file_is_indexed(
    provider: MarkdownVaultProvider,
    entries: Seq<DirectoryEntry>,
    path: Seq<char>,
    i: int,
)
    ensures
        0 <= i < entries.len() && provider.indexes(entries[i]) ==> provider.indexed_at(
            entries,
            normalized(entries[i].path()),
        ),
        (forall|k: int|
            0 <= k < entries.len() ==> !provider.indexes(#[trigger] entries[k]) || normalized(
                entries[k].path(),
            ) != path) ==> !provider.indexed_at(entries, path),
{
}

} // verus!
