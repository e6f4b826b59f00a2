//! Writes to the Markdown vault: where a new file goes, what it holds, how a task's front matter is
//! rewritten, and the revision that every change has to name. Nothing here overwrites what it has
//! not seen.
use crate::crypto::sha256_digest;
use crate::ids::{
    uuid_text, uuid_to_text, ProviderProvenance, ProviderResourceKind, ProviderResourceRef,
    ResourceModel, TaskId,
};
use crate::provider::{ProviderError, ProviderErrorModel, ProviderMutation};
use crate::reconcile::revision_of_content;
use crate::text::{
    ascii_lower, ascii_lowered, begins_with, characters, decimal, decimal_text, digit, hex,
    join2, same_text, starts_with, text_of, to_ascii_lowercase,
};
use crate::vault::VaultProviderMode;
use crate::vault_provider::{
    components, lemma_file_in_directory, normalized, views, ConfinedPath, MarkdownVaultProvider,
    VaultPathError,
};
use crate::vault_reads::{content_provenance, FileRead};
use vstd::prelude::*;

verus! {

/// The directory of new documents.
pub open spec fn documents_directory() -> Seq<char> {
    "Documents"@
}

/// The directory of new tasks.
pub open spec fn tasks_directory() -> Seq<char> {
    "Tasks"@
}

/// The character goes into a file name as it is.
pub open spec fn plain(c: char) -> bool {
    ||| 'a' <= c && c <= 'z'
    ||| 'A' <= c && c <= 'Z'
    ||| '0' <= c && c <= '9'
}

/// What one more character of a title adds to a file name: a letter or a digit itself, in lower
/// case; anything else one hyphen between them.
pub open spec fn slug_step(so_far: Seq<char>, c: char) -> Seq<char> {
    if plain(c) {
        so_far.push(ascii_lower(c))
    } else if so_far.len() > 0 && so_far.last() != '-' {
        so_far.push('-')
    } else {
        so_far
    }
}

/// What the characters of a title add up to.
pub open spec fn slug_body(title: Seq<char>) -> Seq<char>
    decreases title.len(),
{
    if title.len() == 0 {
        Seq::empty()
    } else {
        slug_step(slug_body(title.drop_last()), title.last())
    }
}

/// The file name, without its extension, that a title gives.
pub open spec fn slug(title: Seq<char>) -> Seq<char> {
    let body = slug_body(title);
    let trimmed = if body.len() > 0 && body.last() == '-' {
        body.drop_last()
    } else {
        body
    };
    if trimmed.len() == 0 {
        "untitled"@
    } else {
        trimmed
    }
}

/// The file name, without its extension, that a title gives.
pub fn slug_text(title: &str) -> (name: String)
    ensures
        name@ == slug(title@),
{
    let chars = characters(title);
    let mut body: Vec<char> = Vec::new();
    let mut i: usize = 0;
    while i < chars.len()
        invariant
            i <= chars@.len(),
            chars@ == title@,
            body@ == slug_body(title@.subrange(0, i as int)),
        decreases chars@.len() - i,
    {
        let ghost longer = title@.subrange(0, i + 1);
        assert(longer.drop_last() =~= title@.subrange(0, i as int));
        let c = chars[i];
        let is_upper = 'A' <= c && c <= 'Z';
        if is_upper {
            let code: u32 = c as u32;
            body.push((code as u8 + 32) as char);
        } else if ('a' <= c && c <= 'z') || ('0' <= c && c <= '9') {
            body.push(c);
        } else if body.len() > 0 && body[body.len() - 1] != '-' {
            body.push('-');
        }
        assert(body@ == slug_body(longer));
        i += 1;
    }
    assert(title@.subrange(0, i as int) =~= title@);
    if body.len() > 0 && body[body.len() - 1] == '-' {
        body.pop();
    }
    if body.len() == 0 {
        "untitled".to_owned()
    } else {
        text_of(body.as_slice())
    }
}

/// The `n`-th path that a file name may get in a directory: the name itself, then the name with a
/// number behind it.
pub open spec fn candidate(directory: Seq<char>, name: Seq<char>, n: nat) -> Seq<char> {
    if n <= 1 {
        directory + "/"@ + name + ".md"@
    } else {
        directory + "/"@ + name + "-"@ + decimal(n) + ".md"@
    }
}

/// The first path that is not taken.
pub open spec fn first_free(
    directory: Seq<char>,
    name: Seq<char>,
    taken: Seq<Seq<char>>,
    path: Seq<char>,
) -> bool {
    exists|n: nat|
        #![trigger candidate(directory, name, n)]
        {
            &&& n >= 1
            &&& path == candidate(directory, name, n)
            &&& !taken.contains(path)
            &&& forall|m: nat|
                1 <= m < n ==> taken.contains(#[trigger] candidate(directory, name, m))
        }
}

proof fn lemma_decimal_injective(a: nat, b: nat)
    requires
        decimal(a) == decimal(b),
    ensures
        a == b,
    decreases a,
{
    if a < 10 && b < 10 {
        assert(decimal(a)[0] == digit(a));
        assert(decimal(b)[0] == digit(b));
    } else if a < 10 {
        lemma_decimal_nonempty(b / 10);
        assert(decimal(a).len() == 1);
        assert(decimal(b).len() >= 2);
    } else if b < 10 {
        lemma_decimal_nonempty(a / 10);
        assert(decimal(b).len() == 1);
        assert(decimal(a).len() >= 2);
    } else {
        assert(decimal(a).last() == digit(a % 10));
        assert(decimal(b).last() == digit(b % 10));
        assert(decimal(a).drop_last() =~= decimal(a / 10));
        assert(decimal(b).drop_last() =~= decimal(b / 10));
        lemma_decimal_injective(a / 10, b / 10);
    }
}

proof fn lemma_decimal_nonempty(n: nat)
    ensures
        decimal(n).len() >= 1,
    decreases n,
{
    if n >= 10 {
        lemma_decimal_nonempty(n / 10);
    }
}

proof fn lemma_candidates_differ(directory: Seq<char>, name: Seq<char>, m: nat, n: nat)
    requires
        1 <= m < n,
    ensures
        candidate(directory, name, m) != candidate(directory, name, n),
{
    let head = directory + "/"@ + name;
    let a = candidate(directory, name, m);
    let b = candidate(directory, name, n);
    reveal_strlit("-");
    lemma_decimal_nonempty(n);
    if a == b {
        if m == 1 {
            assert(a.len() == head.len() + ".md"@.len());
            assert(b.len() == head.len() + 1 + decimal(n).len() + ".md"@.len());
        } else {
            let start = (head + "-"@).len() as int;
            assert(a.len() == start + decimal(m).len() + ".md"@.len());
            assert(b.len() == start + decimal(n).len() + ".md"@.len());
            assert(a.subrange(start, start + decimal(m).len()) =~= decimal(m));
            assert(b.subrange(start, start + decimal(n).len()) =~= decimal(n));
            lemma_decimal_injective(m, n);
        }
    }
}

/// Different paths that are all taken are no more than the taken ones.
proof fn lemma_pigeonhole(directory: Seq<char>, name: Seq<char>, taken: Seq<Seq<char>>, n: nat)
    requires
        forall|m: nat| 1 <= m <= n ==> taken.contains(#[trigger] candidate(directory, name, m)),
    ensures
        n <= taken.len(),
    decreases n,
{
    if n > 0 {
        let last = candidate(directory, name, n);
        assert(taken.contains(last));
        let j = choose|j: int| 0 <= j < taken.len() && taken[j] == last;
        let fewer = taken.remove(j);
        assert forall|m: nat| 1 <= m <= (n - 1) as nat implies fewer.contains(
            #[trigger] candidate(directory, name, m),
        ) by {
            lemma_candidates_differ(directory, name, m, n);
            let path = candidate(directory, name, m);
            assert(taken.contains(path));
            let p = choose|p: int| 0 <= p < taken.len() && taken[p] == path;
            if p < j {
                assert(fewer[p] == path);
            } else {
                assert(fewer[p - 1] == path);
            }
        }
        lemma_pigeonhole(directory, name, fewer, (n - 1) as nat);
    }
}

fn is_taken(taken: &Vec<String>, path: &str) -> (found: bool)
    ensures
        found == views(taken@).contains(path@),
{
    let mut i: usize = 0;
    while i < taken.len()
        invariant
            i <= taken@.len(),
            forall|j: int| 0 <= j < i ==> (#[trigger] views(taken@)[j]) != path@,
        decreases taken@.len() - i,
    {
        if same_text(taken[i].as_str(), path) {
            assert(views(taken@)[i as int] == path@);
            return true;
        }
        assert(views(taken@)[i as int] != path@);
        i += 1;
    }
    false
}

fn candidate_path(directory: &str, name: &str, n: u64) -> (path: String)
    ensures
        path@ == candidate(directory@, name@, n as nat),
{
    let head = join2(directory, "/");
    let head = join2(head.as_str(), name);
    if n <= 1 {
        join2(head.as_str(), ".md")
    } else {
        let head = join2(head.as_str(), "-");
        let head = join2(head.as_str(), decimal_text(n).as_str());
        join2(head.as_str(), ".md")
    }
}

/// Of a title, letters, digits and hyphens go into a file name.
proof fn lemma_slug_holds_no_slash(title: Seq<char>)
    ensures
        forall|i: int| 0 <= i < slug_body(title).len() ==> #[trigger] slug_body(title)[i] != '/',
        !slug(title).contains('/'),
        slug(title).len() > 0,
    decreases title.len(),
{
    reveal_strlit("untitled");
    if title.len() > 0 {
        lemma_slug_holds_no_slash(title.drop_last());
    }
}

proof fn lemma_decimal_holds_no_slash(n: nat)
    ensures
        forall|i: int| 0 <= i < decimal(n).len() ==> #[trigger] decimal(n)[i] != '/',
    decreases n,
{
    if n >= 10 {
        let front = decimal(n / 10);
        lemma_decimal_holds_no_slash(n / 10);
        assert(digit(n % 10) as nat == 0x30 + n % 10);
        assert forall|i: int| 0 <= i < decimal(n).len() implies #[trigger] decimal(n)[i] != '/' by {
            if i < front.len() {
                assert(front[i] != '/');
            }
        }
    } else {
        assert(digit(n) as nat == 0x30 + n);
    }
}

/// The paths of new files are spelled in the one way.
proof fn lemma_candidates_are_normal(kind: ProviderResourceKind, title: Seq<char>, n: nat)
    ensures
        normalized(candidate(directory_of(kind), slug(title), n)) == candidate(
            directory_of(kind),
            slug(title),
            n,
        ),
{
    reveal_strlit("Documents");
    reveal_strlit("Tasks");
    reveal_strlit("/");
    reveal_strlit("-");
    reveal_strlit(".md");
    let directory = directory_of(kind);
    let name = slug(title);
    lemma_slug_holds_no_slash(title);
    lemma_decimal_holds_no_slash(n);
    let file = if n <= 1 {
        name + ".md"@
    } else {
        name + "-"@ + decimal(n) + ".md"@
    };
    assert forall|i: int| 0 <= i < file.len() implies file[i] != '/' by {
        if i < name.len() {
            assert(name.contains(name[i]));
        }
    }
    assert(directory.len() > 1 && file.len() > 1);
    assert forall|i: int| 0 <= i < directory.len() implies directory[i] != '/' by {}
    lemma_file_in_directory(directory, file);
    assert(candidate(directory, name, n) =~= directory + seq!['/'] + file);
}

/// Allocates a path for a title: the first one that is not taken.
pub fn allocate_path(directory: &str, title: &str, taken: &Vec<String>) -> (path: String)
    requires
        taken@.len() < u64::MAX,
    ensures
        first_free(directory@, slug(title@), views(taken@), path@),
{
    let name = slug_text(title);
    let mut n: u64 = 1;
    loop
        invariant
            n >= 1,
            taken@.len() < u64::MAX,
            name@ == slug(title@),
            n <= taken@.len() + 1,
            forall|m: nat|
                1 <= m < n ==> views(taken@).contains(
                    #[trigger] candidate(directory@, name@, m),
                ),
        decreases taken@.len() + 1 - n,
    {
        let path = candidate_path(directory, name.as_str(), n);
        if !is_taken(taken, path.as_str()) {
            assert(path@ == candidate(directory@, name@, n as nat));
            return path;
        }
        proof {
            assert forall|m: nat| 1 <= m <= n as nat implies views(taken@).contains(
                #[trigger] candidate(directory@, name@, m),
            ) by {}
            lemma_pigeonhole(directory@, name@, views(taken@), n as nat);
        }
        n += 1;
    }
}

/// The text of a document: its title in the front matter, its body behind it.
pub open spec fn document_text(title: Seq<char>, body: Seq<char>) -> Seq<char> {
    "---\ntitle: "@ + title + "\n---\n\n"@ + body + "\n"@
}

/// Renders a document.
pub fn render_document(title: &str, body: &str) -> (text: String)
    ensures
        text@ == document_text(title@, body@),
{
    let text = join2("---\ntitle: ", title);
    let text = join2(text.as_str(), "\n---\n\n");
    let text = join2(text.as_str(), body);
    join2(text.as_str(), "\n")
}

/// The text of a new task: its identity, its status and its priority in the front matter, then the
/// lines that the task port writes for its schedule, then the body.
pub open spec fn task_text(
    task_id: TaskId,
    priority: Seq<char>,
    schedule: Seq<char>,
    body: Seq<char>,
) -> Seq<char> {
    "---\ntype: task\nbrain_id: "@ + uuid_text(task_id.value) + "\nstatus: todo\npriority: "@
        + ascii_lowered(priority) + "\n"@ + schedule + "---\n\n"@ + body + "\n"@
}

/// Renders a new task.
pub fn render_task(task_id: TaskId, priority: &str, schedule: &str, body: &str) -> (text: String)
    ensures
        text@ == task_text(task_id, priority@, schedule@, body@),
{
    let text = join2("---\ntype: task\nbrain_id: ", uuid_to_text(task_id.value).as_str());
    let text = join2(text.as_str(), "\nstatus: todo\npriority: ");
    let text = join2(text.as_str(), to_ascii_lowercase(priority).as_str());
    let text = join2(text.as_str(), "\n");
    let text = join2(text.as_str(), schedule);
    let text = join2(text.as_str(), "---\n\n");
    let text = join2(text.as_str(), body);
    join2(text.as_str(), "\n")
}

/// The lines of a text: the pieces between its newlines.
pub open spec fn lines(text: Seq<char>) -> Seq<Seq<char>>
    decreases text.len(),
{
    if text.len() == 0 {
        seq![Seq::<char>::empty()]
    } else {
        let before = lines(text.drop_last());
        if text.last() == '\n' {
            before.push(Seq::empty())
        } else {
            before.update(before.len() - 1, before.last().push(text.last()))
        }
    }
}

/// The text with the lines.
pub open spec fn joined(lines: Seq<Seq<char>>) -> Seq<char>
    decreases lines.len(),
{
    if lines.len() == 0 {
        Seq::empty()
    } else if lines.len() == 1 {
        lines[0]
    } else {
        joined(lines.drop_last()).push('\n') + lines.last()
    }
}

/// No line holds a newline.
pub open spec fn whole_lines(lines: Seq<Seq<char>>) -> bool {
    forall|i: int| 0 <= i < lines.len() ==> !(#[trigger] lines[i]).contains('\n')
}

proof fn lemma_lines_nonempty(text: Seq<char>)
    ensures
        lines(text).len() >= 1,
        whole_lines(lines(text)),
    decreases text.len(),
{
    if text.len() > 0 {
        lemma_lines_nonempty(text.drop_last());
        let before = lines(text.drop_last());
        let after = lines(text);
        assert forall|i: int| 0 <= i < after.len() implies !(#[trigger] after[i]).contains('\n') by {
            if text.last() == '\n' {
                if i < before.len() {
                    assert(after[i] == before[i]);
                }
            } else if i == before.len() - 1 {
                assert(!before[i].contains('\n'));
                let line = before[i].push(text.last());
                assert(after[i] == line);
                assert forall|k: int| 0 <= k < line.len() implies line[k] != '\n' by {
                    if k < before[i].len() {
                        assert(before[i].contains(before[i][k]));
                        assert(line[k] == before[i][k]);
                    }
                }
            } else {
                assert(after[i] == before[i]);
            }
        }
    } else {
        assert(lines(text)[0] =~= Seq::<char>::empty());
    }
}

proof fn lemma_joined_grows(list: Seq<Seq<char>>, c: char)
    requires
        list.len() >= 1,
    ensures
        joined(list.update(list.len() - 1, list.last().push(c))) == joined(list).push(c),
{
    let longer = list.update(list.len() - 1, list.last().push(c));
    if list.len() == 1 {
        assert(longer[0] == list[0].push(c));
    } else {
        assert(longer.drop_last() =~= list.drop_last());
        assert(longer.last() == list.last().push(c));
        assert(joined(longer) =~= joined(list).push(c));
    }
}

/// A text is its lines put together again.
pub proof fn law_lines_join_up(text: Seq<char>)
    ensures
        joined(lines(text)) == text,
    decreases text.len(),
{
    if text.len() > 0 {
        let before = lines(text.drop_last());
        law_lines_join_up(text.drop_last());
        lemma_lines_nonempty(text.drop_last());
        if text.last() == '\n' {
            let after = before.push(Seq::<char>::empty());
            assert(after.drop_last() =~= before);
            assert(joined(after) =~= joined(before).push('\n'));
            assert(joined(before).push('\n') =~= text);
        } else {
            lemma_joined_grows(before, text.last());
            assert(joined(before).push(text.last()) =~= text);
        }
    } else {
        assert(joined(lines(text)) =~= text);
    }
}

proof fn lemma_lines_of_push(text: Seq<char>, line: Seq<char>)
    requires
        !line.contains('\n'),
    ensures
        lines(text + line) == lines(text).update(
            lines(text).len() - 1,
            lines(text).last() + line,
        ),
    decreases line.len(),
{
    lemma_lines_nonempty(text);
    if line.len() == 0 {
        assert(text + line =~= text);
        assert(lines(text).last() + line =~= lines(text).last());
        assert(lines(text).update(lines(text).len() - 1, lines(text).last()) =~= lines(text));
    } else {
        let shorter = line.drop_last();
        assert forall|k: int| 0 <= k < shorter.len() implies shorter[k] != '\n' by {
            assert(line.contains(line[k]));
        }
        lemma_lines_of_push(text, shorter);
        assert((text + line).drop_last() =~= text + shorter);
        assert(line.contains(line.last()));
        let before = lines(text + shorter);
        assert(before.last() == lines(text).last() + shorter);
        assert(before.last().push(line.last()) =~= lines(text).last() + line);
        assert(lines(text + line) =~= lines(text).update(
            lines(text).len() - 1,
            lines(text).last() + line,
        ));
    }
}

proof fn lemma_lines_of_joined(list: Seq<Seq<char>>)
    requires
        list.len() >= 1,
        whole_lines(list),
    ensures
        lines(joined(list)) == list,
    decreases list.len(),
{
    if list.len() == 1 {
        let empty = Seq::<char>::empty();
        lemma_lines_of_push(empty, list[0]);
        assert(empty + list[0] =~= list[0]);
        assert(lines(empty) == seq![empty]);
        assert(lines(joined(list)) =~= list);
    } else {
        let shorter = list.drop_last();
        assert forall|i: int| 0 <= i < shorter.len() implies !(#[trigger] shorter[i]).contains(
            '\n',
        ) by {
            assert(shorter[i] == list[i]);
        }
        lemma_lines_of_joined(shorter);
        let opened = joined(shorter).push('\n');
        assert(opened.drop_last() =~= joined(shorter));
        assert(lines(opened) == shorter.push(Seq::<char>::empty()));
        assert(!list.last().contains('\n')) by {
            assert(list[list.len() - 1] == list.last());
        }
        lemma_lines_of_push(opened, list.last());
        assert(Seq::<char>::empty() + list.last() =~= list.last());
        assert(lines(joined(list)) =~= list);
    }
}

/// Line `k` closes the front matter: it is the first fence behind the one that opens the text.
pub open spec fn closes(list: Seq<Seq<char>>, k: int) -> bool {
    &&& 0 < k < list.len()
    &&& list[0] == "---"@
    &&& list[k] == "---"@
    &&& forall|i: int| 0 < i < k ==> #[trigger] list[i] != "---"@
}

/// The lines with every status in the front matter replaced.
pub open spec fn restated(list: Seq<Seq<char>>, k: int, status: Seq<char>) -> Seq<Seq<char>> {
    Seq::new(
        list.len(),
        |i: int|
            if 0 < i < k && begins_with(list[i], "status:"@) {
                "status: "@ + status
            } else {
                list[i]
            },
    )
}

/// The text with the status in its front matter replaced.
pub open spec fn with_status(text: Seq<char>, status: Seq<char>, result: Seq<char>) -> bool {
    exists|k: int|
        #[trigger] closes(lines(text), k) && result == joined(restated(lines(text), k, status))
}

fn split_lines(text: &str) -> (list: Vec<String>)
    ensures
        views(list@) == lines(text@),
{
    let chars = characters(text);
    let mut list: Vec<String> = Vec::new();
    let mut current: Vec<char> = Vec::new();
    let mut i: usize = 0;
    assert(views(list@).push(current@) =~= lines(text@.subrange(0, 0)));
    while i < chars.len()
        invariant
            i <= chars@.len(),
            chars@ == text@,
            views(list@).push(current@) == lines(text@.subrange(0, i as int)),
        decreases chars@.len() - i,
    {
        let ghost longer = text@.subrange(0, i + 1);
        assert(longer.drop_last() =~= text@.subrange(0, i as int));
        let ghost before = views(list@).push(current@);
        let c = chars[i];
        if c == '\n' {
            let ghost earlier = list@;
            list.push(text_of(current.as_slice()));
            current = Vec::new();
            assert(views(list@) =~= before);
            assert(views(list@).push(current@) =~= lines(longer));
        } else {
            current.push(c);
            assert(views(list@).push(current@) =~= before.update(
                before.len() - 1,
                before.last().push(c),
            ));
        }
        i += 1;
    }
    assert(text@.subrange(0, i as int) =~= text@);
    let ghost before = views(list@).push(current@);
    list.push(text_of(current.as_slice()));
    assert(views(list@) =~= before);
    list
}

fn join_lines(list: &Vec<String>) -> (text: String)
    ensures
        text@ == joined(views(list@)),
{
    let ghost all = views(list@);
    if list.len() == 0 {
        return String::new();
    }
    let mut text = list[0].clone();
    let mut i: usize = 1;
    assert(all.subrange(0, 1) =~= seq![all[0]]);
    assert(all[0] == list@[0]@);
    while i < list.len()
        invariant
            1 <= i <= list@.len(),
            all == views(list@),
            text@ == joined(all.subrange(0, i as int)),
        decreases list@.len() - i,
    {
        let ghost longer = all.subrange(0, i + 1);
        assert(longer.drop_last() =~= all.subrange(0, i as int));
        assert(longer.last() == list@[i as int]@);
        text.push('\n');
        text = join2(text.as_str(), list[i].as_str());
        i += 1;
    }
    assert(all.subrange(0, i as int) =~= all);
    text
}

/// Replaces the status in the front matter of a task. Nothing where the text has no front matter.
pub fn restate(text: &str, status: &str) -> (result: Option<String>)
    ensures
        match result {
            Some(result) => with_status(text@, status@, result@),
            None => forall|k: int| !closes(lines(text@), k),
        },
{
    let list = split_lines(text);
    let ghost all = views(list@);
    if list.len() == 0 || !same_text(list[0].as_str(), "---") {
        assert(all.len() == list@.len());
        if list.len() > 0 {
            assert(all[0] == list@[0]@);
        }
        return None;
    }
    assert(all[0] == list@[0]@);
    let mut close: usize = 1;
    while close < list.len() && !same_text(list[close].as_str(), "---")
        invariant
            1 <= close <= list@.len(),
            all == views(list@),
            forall|i: int| 0 < i < close ==> #[trigger] all[i] != "---"@,
        decreases list@.len() - close,
    {
        assert(all[close as int] == list@[close as int]@);
        close += 1;
    }
    if close == list.len() {
        assert forall|k: int| !closes(lines(text@), k) by {
            if closes(all, k) {
                assert(all[k] != "---"@);
            }
        }
        return None;
    }
    assert(all[close as int] == list@[close as int]@);
    let mut result: Vec<String> = Vec::new();
    let mut i: usize = 0;
    while i < list.len()
        invariant
            i <= list@.len(),
            all == views(list@),
            0 < close < list@.len(),
            views(result@) == restated(all, close as int, status@).subrange(0, i as int),
        decreases list@.len() - i,
    {
        let ghost before = views(result@);
        assert(all[i as int] == list@[i as int]@);
        let line = if 0 < i && i < close && starts_with(list[i].as_str(), "status:") {
            join2("status: ", status)
        } else {
            list[i].clone()
        };
        let ghost line_view = line@;
        result.push(line);
        assert(views(result@) =~= before.push(line_view));
        assert(views(result@) =~= restated(all, close as int, status@).subrange(0, i + 1));
        i += 1;
    }
    assert(views(result@) =~= restated(all, close as int, status@));
    assert(closes(lines(text@), close as int));
    Some(join_lines(&result))
}

/// Restating a status touches the status alone: the text keeps its number of lines, and every line
/// but those that state a status inside the front matter, the body among them.
pub proof fn law_restating_touches_the_status_alone(
    text: Seq<char>,
    status: Seq<char>,
    result: Seq<char>,
    i: int,
)
    requires
        with_status(text, status, result),
        !status.contains('\n'),
        0 <= i < lines(text).len(),
    ensures
        lines(result).len() == lines(text).len(),
        lines(result)[i] != lines(text)[i] ==> {
            &&& lines(result)[i] == "status: "@ + status
            &&& begins_with(lines(text)[i], "status:"@)
            &&& exists|k: int| i < k && #[trigger] closes(lines(text), k)
        },
{
    let list = lines(text);
    let k = choose|k: int|
        #[trigger] closes(list, k) && result == joined(restated(list, k, status));
    let after = restated(list, k, status);
    lemma_lines_nonempty(text);
    reveal_strlit("status: ");
    assert forall|j: int| 0 <= j < after.len() implies !(#[trigger] after[j]).contains('\n') by {
        if 0 < j < k && begins_with(list[j], "status:"@) {
            let line = "status: "@ + status;
            assert forall|c: int| 0 <= c < line.len() implies line[c] != '\n' by {
                if c >= "status: "@.len() {
                    assert(status.contains(status[c - "status: "@.len()]));
                }
            }
        } else {
            assert(!list[j].contains('\n'));
        }
    }
    lemma_lines_of_joined(after);
}

/// A write that may go ahead: where it goes, and what it leaves there.
pub struct PlannedWrite {
    pub path: ConfinedPath,
    pub content: String,
}

impl MarkdownVaultProvider {
    /// The provider may write at all.
    pub open spec fn writable(self) -> bool {
        self.configuration().posture() == VaultProviderMode::ReadWrite
    }

    /// Plans a new file for a title. `taken` lists the paths that exist in the directory, so that
    /// nothing is overwritten.
    pub fn plan_create(
        &self,
        kind: ProviderResourceKind,
        title: &str,
        content: String,
        taken: &Vec<String>,
        ancestors: &Vec<Option<Vec<String>>>,
    ) -> (planned: Result<PlannedWrite, ProviderError>)
        requires
            taken@.len() < u64::MAX,
        ensures
            match planned {
                Ok(planned) => ({
                    &&& self.writable()
                    &&& first_free(
                        directory_of(kind),
                        slug(title@),
                        views(taken@),
                        planned.path.relative_text(),
                    )
                    &&& self.confine_error(planned.path.relative_text(), kind, ancestors@) is None
                    &&& planned.path.absolute_components() == self.root() + components(
                        planned.path.relative_text(),
                    )
                    &&& planned.content == content
                }),
                Err(error) => ({
                    &&& error@ == ProviderErrorModel::Unavailable
                    &&& {
                        ||| !self.writable()
                        ||| exists|path: Seq<char>|
                            #[trigger] first_free(
                                directory_of(kind),
                                slug(title@),
                                views(taken@),
                                path,
                            ) && self.confine_error(path, kind, ancestors@) is Some
                    }
                }),
            },
    {
        if self.config().mode() != VaultProviderMode::ReadWrite {
            return Err(ProviderError::Unavailable);
        }
        let directory = directory_for(kind);
        assert(directory@ == directory_of(kind));
        let free = allocate_path(directory, title, taken);
        assert(first_free(directory_of(kind), slug(title@), views(taken@), free@));
        match self.confine(free.as_str(), kind, ancestors) {
            Ok(path) => {
                proof {
                    let n = choose|n: nat|
                        #![trigger candidate(directory_of(kind), slug(title@), n)]
                        n >= 1 && free@ == candidate(directory_of(kind), slug(title@), n);
                    lemma_candidates_are_normal(kind, title@, n);
                }
                assert(path.relative_text() == free@);
                Ok(PlannedWrite { path, content })
            },
            Err(_) => Err(ProviderError::Unavailable),
        }
    }

    /// What every change of an existing file has to meet: the provider may write, the path is
    /// confined, and the file has the revision that the caller expects. A file that is gone stays
    /// gone; a file that changed is reported with what it holds now.
    pub open spec fn guard_error(
        self,
        resource: ResourceModel,
        relative: Seq<char>,
        expected: Seq<char>,
        read: FileRead,
        ancestors: Seq<Option<Vec<String>>>,
    ) -> Option<ProviderErrorModel> {
        if !self.writable() {
            Some(ProviderErrorModel::Unavailable)
        } else if self.confine_error(relative, resource.kind, ancestors) is Some {
            Some(ProviderErrorModel::NotFound { resource })
        } else {
            match read {
                FileRead::Missing => Some(ProviderErrorModel::NotFound { resource }),
                FileRead::Failed => Some(ProviderErrorModel::Unavailable),
                FileRead::Bytes(bytes) => if revision_of_content(bytes@) != expected {
                    Some(
                        ProviderErrorModel::Conflict {
                            current: content_provenance(resource, bytes@),
                        },
                    )
                } else {
                    None
                },
            }
        }
    }

    /// Decides on a change of an existing file. `relative` is where the file was found.
    pub fn guard(
        &self,
        resource: &ProviderResourceRef,
        relative: &str,
        expected: &str,
        read: &FileRead,
        ancestors: &Vec<Option<Vec<String>>>,
    ) -> (passed: Result<(ConfinedPath, ProviderProvenance), ProviderError>)
        ensures
            match passed {
                Ok((path, previous)) => ({
                    &&& self.guard_error(resource@, relative@, expected@, *read, ancestors@) is None
                    &&& path.relative_text() == normalized(relative@)
                    &&& path.absolute_components() == self.root() + components(path.relative_text())
                    &&& read matches FileRead::Bytes(bytes)
                    &&& previous@ == content_provenance(resource@, bytes@)
                }),
                Err(error) => self.guard_error(
                    resource@,
                    relative@,
                    expected@,
                    *read,
                    ancestors@,
                ) == Some(error@),
            },
    {
        if self.config().mode() != VaultProviderMode::ReadWrite {
            return Err(ProviderError::Unavailable);
        }
        let path = match self.confine(relative, resource.kind, ancestors) {
            Ok(path) => path,
            Err(_) => {
                return Err(ProviderError::NotFound { resource: resource.clone() });
            },
        };
        match read {
            FileRead::Missing => Err(ProviderError::NotFound { resource: resource.clone() }),
            FileRead::Failed => Err(ProviderError::Unavailable),
            FileRead::Bytes(bytes) => {
                let current = crate::vault_reads::provenance(resource.clone(), bytes.as_slice());
                if same_text(current.observed_revision.as_str(), expected) {
                    Ok((path, current))
                } else {
                    Err(ProviderError::Conflict { current })
                }
            },
        }
    }

    /// Decides on a rename. A target that exists is never written over.
    pub fn rename(
        &self,
        from: &str,
        to: &str,
        kind: ProviderResourceKind,
        from_ancestors: &Vec<Option<Vec<String>>>,
        to_ancestors: &Vec<Option<Vec<String>>>,
        target_exists: bool,
    ) -> (decided: Result<(ConfinedPath, ConfinedPath), VaultPathError>)
        ensures
            match decided {
                Ok((source, target)) => ({
                    &&& self.confine_error(from@, kind, from_ancestors@) is None
                    &&& self.confine_error(to@, kind, to_ancestors@) is None
                    &&& !target_exists
                    &&& source.relative_text() == normalized(from@)
                    &&& source.absolute_components() == self.root() + components(
                        source.relative_text(),
                    )
                    &&& target.relative_text() == normalized(to@)
                    &&& target.absolute_components() == self.root() + components(
                        target.relative_text(),
                    )
                }),
                Err(error) => if self.confine_error(from@, kind, from_ancestors@) is Some {
                    self.confine_error(from@, kind, from_ancestors@) == Some(error)
                } else if self.confine_error(to@, kind, to_ancestors@) is Some {
                    self.confine_error(to@, kind, to_ancestors@) == Some(error)
                } else {
                    target_exists && error == VaultPathError::TargetExists
                },
            },
    {
        let source = match self.confine(from, kind, from_ancestors) {
            Ok(source) => source,
            Err(error) => {
                return Err(error);
            },
        };
        let target = match self.confine(to, kind, to_ancestors) {
            Ok(target) => target,
            Err(error) => {
                return Err(error);
            },
        };
        if target_exists {
            return Err(VaultPathError::TargetExists);
        }
        Ok((source, target))
    }
}

/// The directory of new files of the kind.
pub open spec fn directory_of(kind: ProviderResourceKind) -> Seq<char> {
    match kind {
        ProviderResourceKind::Knowledge => documents_directory(),
        ProviderResourceKind::Task => tasks_directory(),
    }
}

/// The directory of new resources of a kind.
pub fn directory_for(kind: ProviderResourceKind) -> (directory: &'static str)
    ensures
        directory@ == directory_of(kind),
{
    match kind {
        ProviderResourceKind::Knowledge => "Documents",
        ProviderResourceKind::Task => "Tasks",
    }
}

/// What a finished write says: where the resource stood, and where the new content leaves it. A write
/// that could not be stored left the file as it was.
pub fn settle_write(
    resource: ProviderResourceRef,
    previous: Option<ProviderProvenance>,
    content: &str,
    stored: bool,
) -> (mutation: Result<ProviderMutation, ProviderError>)
    ensures
        match mutation {
            Ok(mutation) => ({
                &&& stored
                &&& mutation.previous == previous
                &&& mutation.current matches Some(current)
                &&& current@ == content_provenance(
                    resource@,
                    vstd::utf8::encode_utf8(content@),
                )
            }),
            Err(error) => !stored && error@ == ProviderErrorModel::Unavailable,
        },
{
    if !stored {
        return Err(ProviderError::Unavailable);
    }
    let current = crate::vault_reads::provenance(resource, content.as_bytes());
    Ok(ProviderMutation { previous, current: Some(current) })
}

/// What a finished deletion says.
pub fn settle_delete(previous: ProviderProvenance, removed: bool) -> (mutation: Result<
    ProviderMutation,
    ProviderError,
>)
    ensures
        match mutation {
            Ok(mutation) => removed && mutation.previous == Some(previous) && mutation.current is None,
            Err(error) => !removed && error@ == ProviderErrorModel::Unavailable,
        },
{
    if !removed {
        return Err(ProviderError::Unavailable);
    }
    Ok(ProviderMutation { previous: Some(previous), current: None })
}

/// Of two writers that saw the same revision one wins: once the first one's content is there, and
/// has a revision of its own, the second one is refused with what is there now.
pub proof fn law_one_of_two_writers_wins(
    provider: MarkdownVaultProvider,
    resource: ResourceModel,
    relative: Seq<char>,
    seen: Seq<u8>,
    written: FileRead,
    ancestors: Seq<Option<Vec<String>>>,
)
    requires
        provider.writable(),
        provider.confine_error(relative, resource.kind, ancestors) is None,
        written matches FileRead::Bytes(bytes) && revision_of_content(bytes@)
            != revision_of_content(seen),
    ensures
        provider.guard_error(
            resource,
            relative,
            revision_of_content(seen),
            written,
            ancestors,
        ) == Some(
            ProviderErrorModel::Conflict {
                current: content_provenance(resource, written->Bytes_0@),
            },
        ),
{
}

/// A file that was deleted in the meantime is not brought back: the change is refused.
pub proof fn law_deleted_files_stay_deleted(
    provider: MarkdownVaultProvider,
    resource: ResourceModel,
    relative: Seq<char>,
    expected: Seq<char>,
    ancestors: Seq<Option<Vec<String>>>,
)
    requires
        provider.writable(),
    ensures
        provider.guard_error(resource, relative, expected, FileRead::Missing, ancestors) == Some(
            ProviderErrorModel::NotFound { resource },
        ),
{
}

/// Restating a status leaves no other one behind: every line between the fences that stated a status
/// states the new one.
pub proof fn law_restating_leaves_no_other_status(
    text: Seq<char>,
    status: Seq<char>,
    result: Seq<char>,
    close: int,
    i: int,
)
    requires
        with_status(text, status, result),
        !status.contains('\n'),
        closes(lines(text), close),
        0 < i < close,
        begins_with(lines(text)[i], "status:"@),
    ensures
        lines(result)[i] == "status: "@ + status,
{
    let list = lines(text);
    let k = choose|k: int|
        #[trigger] closes(list, k) && result == joined(restated(list, k, status));
    assert(k == close) by {
        if k < close {
            assert(list[k] != "---"@);
        } else if close < k {
            assert(list[close] != "---"@);
        }
    }
    let after = restated(list, k, status);
    lemma_lines_nonempty(text);
    reveal_strlit("status: ");
    assert forall|j: int| 0 <= j < after.len() implies !(#[trigger] after[j]).contains('\n') by {
        if 0 < j < k && begins_with(list[j], "status:"@) {
            let line = "status: "@ + status;
            assert forall|c: int| 0 <= c < line.len() implies line[c] != '\n' by {
                if c >= "status: "@.len() {
                    assert(status.contains(status[c - "status: "@.len()]));
                }
            }
        } else {
            assert(!list[j].contains('\n'));
        }
    }
    lemma_lines_of_joined(after);
}

/// The text ends in `ending`.
pub open spec fn ends_with(text: Seq<char>, ending: Seq<char>) -> bool {
    ending.len() <= text.len() && text.subrange(text.len() - ending.len(), text.len() as int) == ending
}

/// A rendered document opens with its title in the front matter and ends in its body.
pub proof fn law_documents_keep_title_and_body(title: Seq<char>, body: Seq<char>)
    ensures
        begins_with(document_text(title, body), "---\ntitle: "@ + title + "\n---\n\n"@),
        ends_with(document_text(title, body), body + "\n"@),
        document_text(title, body).len() == "---\ntitle: "@.len() + title.len() + "\n---\n\n"@.len()
            + body.len() + "\n"@.len(),
{
    let text = document_text(title, body);
    let opening = "---\ntitle: "@ + title + "\n---\n\n"@;
    let ending = body + "\n"@;
    assert(text.subrange(0, opening.len() as int) =~= opening);
    assert(text.subrange(text.len() - ending.len(), text.len() as int) =~= ending);
}

/// A rendered task carries its identity, starts out to do, and says its priority in lower case; then
/// come its schedule and its body.
pub proof fn law_new_tasks_start_out_to_do(
    task_id: TaskId,
    priority: Seq<char>,
    schedule: Seq<char>,
    body: Seq<char>,
)
    ensures
        ({
            let text = task_text(task_id, priority, schedule, body);
            let opening = "---\ntype: task\nbrain_id: "@ + uuid_text(task_id.value)
                + "\nstatus: todo\npriority: "@;
            let ending = "\n"@ + schedule + "---\n\n"@ + body + "\n"@;
            &&& begins_with(text, opening)
            &&& ends_with(text, ending)
            &&& text.len() == opening.len() + priority.len() + ending.len()
            &&& forall|i: int|
                0 <= i < priority.len() ==> #[trigger] text[opening.len() + i]
                    == crate::text::ascii_lower(priority[i])
        }),
{
    let text = task_text(task_id, priority, schedule, body);
    let opening = "---\ntype: task\nbrain_id: "@ + uuid_text(task_id.value)
        + "\nstatus: todo\npriority: "@;
    let ending = "\n"@ + schedule + "---\n\n"@ + body + "\n"@;
    assert(text =~= opening + ascii_lowered(priority) + ending);
    assert(text.subrange(0, opening.len() as int) =~= opening);
    assert(text.subrange(text.len() - ending.len(), text.len() as int) =~= ending);
    assert forall|i: int| 0 <= i < priority.len() implies #[trigger] text[opening.len() + i]
        == crate::text::ascii_lower(priority[i]) by {
        assert(text[opening.len() + i] == ascii_lowered(priority)[i]);
    }
}

/// A letter or a digit.
pub open spec fn alphanumeric(c: char) -> bool {
    ('a' <= c && c <= 'z') || ('A' <= c && c <= 'Z') || ('0' <= c && c <= '9')
}

/// A file name keeps the letters and digits of the title, in order and in lower case, with single
/// hyphens between them and none at its ends; a title without any is untitled.
pub proof fn law_file_names_keep_letters_and_digits(title: Seq<char>)
    ensures
        ({
            let kept = title.filter(|c: char| alphanumeric(c));
            let name = slug(title);
            &&& name.len() > 0
            &&& kept.len() == 0 ==> name == "untitled"@
            &&& kept.len() > 0 ==> {
                &&& name.filter(|c: char| c != '-') == kept.map_values(
                    |c: char| crate::text::ascii_lower(c),
                )
                &&& name[0] != '-' && name.last() != '-'
                &&& forall|i: int|
                    0 <= i < name.len() - 1 ==> !(#[trigger] name[i] == '-' && name[i + 1] == '-')
            }
        }),
{
    let kept = title.filter(|c: char| alphanumeric(c));
    let p = |c: char| c != '-';
    let body = slug_body(title);
    lemma_slug_body(title);
    reveal_strlit("untitled");
    reveal(Seq::filter);
    if body.len() > 0 && body.last() == '-' {
        let front = body.drop_last();
        assert(front.filter(p) == body.filter(p));
        assert(front.len() > 0);
        assert(body[front.len() - 1] != '-' || body[front.len() - 1 + 1] != '-');
    }
    if kept.len() == 0 {
        if body.len() > 0 {
            assert(body[0] != '-');
            lemma_filter_holds(body, p, 0);
        }
    } else if body.len() == 0 {
        assert(body.filter(p) =~= Seq::empty());
    }
}

proof fn lemma_filter_holds<A>(s: Seq<A>, p: spec_fn(A) -> bool, i: int)
    requires
        0 <= i < s.len(),
        p(s[i]),
    ensures
        s.filter(p).len() > 0,
    decreases s.len(),
{
    reveal(Seq::filter);
    if i < s.len() - 1 {
        lemma_filter_holds(s.drop_last(), p, i);
    }
}

proof fn lemma_slug_body(title: Seq<char>)
    ensures
        slug_body(title).filter(|c: char| c != '-') == title.filter(
            |c: char| alphanumeric(c),
        ).map_values(|c: char| crate::text::ascii_lower(c)),
        slug_body(title).len() > 0 ==> slug_body(title)[0] != '-',
        forall|i: int|
            0 <= i < slug_body(title).len() - 1 ==> !(#[trigger] slug_body(title)[i] == '-'
                && slug_body(title)[i + 1] == '-'),
    decreases title.len(),
{
    let p = |c: char| c != '-';
    let q = |c: char| alphanumeric(c);
    let f = |c: char| crate::text::ascii_lower(c);
    reveal(Seq::filter);
    if title.len() == 0 {
        assert(slug_body(title).filter(p) =~= title.filter(q).map_values(f));
    } else {
        let front = title.drop_last();
        let c = title.last();
        lemma_slug_body(front);
        let before = slug_body(front);
        let after = slug_body(title);
        if plain(c) {
            assert(after.drop_last() =~= before);
            assert(after.last() == f(c));
            assert(f(c) != '-');
            assert(title.filter(q) == front.filter(q).push(c));
            assert(front.filter(q).push(c).map_values(f) =~= front.filter(q).map_values(f).push(f(c)));
            assert(after.filter(p) == before.filter(p).push(f(c)));
        } else if before.len() > 0 && before.last() != '-' {
            assert(after.drop_last() =~= before);
            assert(after.last() == '-');
            assert(after.filter(p) == before.filter(p));
        }
        assert forall|i: int| 0 <= i < after.len() - 1 implies !(#[trigger] after[i] == '-' && after[i
            + 1] == '-') by {
            if i < before.len() - 1 {
                assert(after[i] == before[i] && after[i + 1] == before[i + 1]);
            }
        }
    }
}

/// A new file goes where nothing stands: into its directory, under a name that ends in `.md` and is
/// not taken; the plain name where that is free; and there is one such path.
pub proof fn law_new_files_overwrite_nothing(
    directory: Seq<char>,
    name: Seq<char>,
    taken: Seq<Seq<char>>,
    path: Seq<char>,
    other: Seq<char>,
)
    requires
        first_free(directory, name, taken, path),
    ensures
        !taken.contains(path),
        begins_with(path, directory + "/"@ + name),
        ends_with(path, ".md"@),
        !taken.contains(directory + "/"@ + name + ".md"@) ==> path == directory + "/"@ + name + ".md"@,
        first_free(directory, name, taken, other) ==> other == path,
{
    let n = choose|n: nat|
        #![trigger candidate(directory, name, n)]
        {
            &&& n >= 1
            &&& path == candidate(directory, name, n)
            &&& !taken.contains(path)
            &&& forall|m: nat|
                1 <= m < n ==> taken.contains(#[trigger] candidate(directory, name, m))
        };
    let head = directory + "/"@ + name;
    assert(path.subrange(0, head.len() as int) =~= head);
    assert(path.subrange(path.len() - ".md"@.len(), path.len() as int) =~= ".md"@);
    assert(candidate(directory, name, 1) == directory + "/"@ + name + ".md"@);
    if n > 1 {
        assert(taken.contains(candidate(directory, name, 1)));
    }
    if first_free(directory, name, taken, other) {
        let m = choose|m: nat|
            #![trigger candidate(directory, name, m)]
            {
                &&& m >= 1
                &&& other == candidate(directory, name, m)
                &&& !taken.contains(other)
                &&& forall|l: nat|
                    1 <= l < m ==> taken.contains(#[trigger] candidate(directory, name, l))
            };
        if m < n {
            assert(taken.contains(candidate(directory, name, m)));
        } else if n < m {
            assert(taken.contains(candidate(directory, name, n)));
        }
    }
}

/// Tasks are filed in the task directory, where they are read as tasks, and documents outside of it.
pub proof fn law_new_files_are_of_their_kind(kind: ProviderResourceKind, name: Seq<char>, n: nat)
    ensures
        crate::vault_listing::kind_of(candidate(directory_of(kind), name, n)) == kind,
{
    reveal_strlit("Documents");
    reveal_strlit("Tasks");
    reveal_strlit("Tasks/");
    reveal_strlit("/");
    let path = candidate(directory_of(kind), name, n);
    assert(path[0] == directory_of(kind)[0]);
    if kind == ProviderResourceKind::Task {
        assert(path.subrange(0, "Tasks/"@.len() as int) =~= "Tasks/"@);
    } else {
        assert("Documents"@[0] != "Tasks/"@[0]);
        if path.len() >= "Tasks/"@.len() {
            assert(path.subrange(0, "Tasks/"@.len() as int)[0] == 'D');
        }
    }
}

/// A change of a stored file goes through exactly where the vault may be written, the path is
/// confined, and the file reads now as the caller saw it; else the caller is told which of these is
/// missing, and of a file that changed, what it holds now.
pub proof fn law_a_change_needs_what_the_caller_saw(
    provider: MarkdownVaultProvider,
    resource: ResourceModel,
    relative: Seq<char>,
    expected: Seq<char>,
    read: FileRead,
    ancestors: Seq<Option<Vec<String>>>,
)
    ensures
        ({
            let error = provider.guard_error(resource, relative, expected, read, ancestors);
            let may_write = provider.configuration().posture() == VaultProviderMode::ReadWrite;
            let confined = provider.confine_error(relative, resource.kind, ancestors) is None;
            let current = "rev-"@ + hex(sha256_digest(read->Bytes_0@).subrange(0, 16));
            &&& error is None <==> may_write && confined && read is Bytes && current == expected
            &&& !may_write ==> error == Some(ProviderErrorModel::Unavailable)
            &&& may_write && !confined ==> error == Some(ProviderErrorModel::NotFound { resource })
            &&& may_write && confined && read is Missing ==> error == Some(
                ProviderErrorModel::NotFound { resource },
            )
            &&& may_write && confined && read is Failed ==> error == Some(
                ProviderErrorModel::Unavailable,
            )
            &&& may_write && confined && read is Bytes && current != expected ==> (error matches Some(
                ProviderErrorModel::Conflict { current: now },
            ) && now.revision == current && now.resource == resource && now.hash == sha256_digest(
                read->Bytes_0@,
            ))
        }),
{
}

} // verus!
