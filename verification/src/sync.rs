//! Pipeline synchronisation: which merged changes of the source branch are
//! still to be promoted to the target branch, and how a refresh updates the
//! stored checklist.

pub mod local;

use vstd::prelude::*;

use crate::git::CherryMap;
use crate::git::runner::{opt_text, strs};
use crate::sync::local::{first_ticket, parse_ticket_ref, LogicalUnit};
use crate::text::{chars_eq_str, chars_of, words};

verus! {

/// The outcome of a refresh.
#[derive(Debug)]
pub struct SyncSummary {
    pub pipeline_id: i64,
    pub source_head: String,
    pub target_head: String,
    pub units_found: usize,
    pub pending_count: usize,
    pub promoted_count: usize,
    pub synced_at: i64,
}

/// What is stored about a pipeline and its repository.
pub struct PipelineContext {
    pub repo_id: i64,
    pub source_branch: String,
    pub target_branch: String,
    pub local_path: Option<String>,
    pub kind: String,
}

/// A pipeline can be refreshed when it exists and belongs to a local
/// repository with a folder; the folder is returned.
pub fn sync_target(ctx: &Option<PipelineContext>) -> (r: Result<String, String>)
    ensures
        match *ctx {
            None => r matches Err(e) && e@ == "Pipeline not found"@,
            Some(c) => if c.kind@ != "local"@ {
                r matches Err(e) && e@ == "Only local repositories can be synced right now"@
            } else {
                match c.local_path {
                    None => r matches Err(e) && e@ == "Repository has no local path"@,
                    Some(p) => r matches Ok(x) && x@ == p@,
                }
            },
        },
{
    match ctx {
        None => Err(String::from_str("Pipeline not found")),
        Some(c) => {
            let k = chars_of(c.kind.as_str());
            if !chars_eq_str(k.as_slice(), "local") {
                return Err(String::from_str("Only local repositories can be synced right now"));
            }
            match &c.local_path {
                None => Err(String::from_str("Repository has no local path")),
                Some(p) => Ok(p.clone()),
            }
        },
    }
}

/// Whether Git reports the unit's patch as already on the target branch.
pub open spec fn on_target(cherry: Map<Seq<char>, bool>, u: LogicalUnit) -> bool {
    cherry.contains_key(u.merge_commit_sha@) && cherry[u.merge_commit_sha@]
}

pub open spec fn count_true(s: Seq<bool>) -> nat
    decreases s.len(),
{
    if s.len() == 0 {
        0
    } else {
        count_true(s.drop_last()) + if s.last() {
            1nat
        } else {
            0nat
        }
    }
}

/// Which units are on the target already, and how many are pending or promoted.
pub struct SyncPlan {
    pub on_target: Vec<bool>,
    pub pending_count: usize,
    pub promoted_count: usize,
}

pub fn plan_sync(units: &Vec<LogicalUnit>, cherry: &CherryMap) -> (p: SyncPlan)
    ensures
        p.on_target@.len() == units@.len(),
        forall|i: int| 0 <= i < units@.len() ==> p.on_target@[i] == on_target(cherry@, #[trigger] units@[i]),
        p.promoted_count == count_true(p.on_target@),
        p.pending_count + p.promoted_count == units@.len(),
{
    let mut flags: Vec<bool> = Vec::new();
    let mut pending: usize = 0;
    let mut promoted: usize = 0;
    let mut i: usize = 0;
    while i < units.len()
        invariant
            i <= units.len(),
            flags@.len() == i,
            forall|j: int| 0 <= j < i ==> flags@[j] == on_target(cherry@, #[trigger] units@[j]),
            promoted == count_true(flags@),
            pending + promoted == i,
        decreases units.len() - i,
    {
        let flag = match cherry.get(units[i].merge_commit_sha.as_str()) {
            Some(b) => b,
            None => false,
        };
        let ghost before = flags@;
        flags.push(flag);
        assert(flags@.drop_last() =~= before);
        if flag {
            promoted += 1;
        } else {
            pending += 1;
        }
        i += 1;
    }
    SyncPlan { on_target: flags, pending_count: pending, promoted_count: promoted }
}

/// Statuses that a refresh leaves alone: chosen for a run, being applied, in
/// conflict, or promoted.
pub open spec fn is_settled(status: Seq<char>) -> bool {
    status == "selected"@ || status == "promoting"@ || status == "conflict"@ || status
        == "promoted"@
}

/// What a refresh does to a change's promotion status.
#[derive(PartialEq, Eq, Structural, Clone, Copy, Debug)]
pub enum PromotionUpsert {
    /// Leave it as it is.
    Keep,
    /// Record it as promoted at this time.
    Promoted { promoted_at: i64 },
    /// Record it as pending.
    Pending,
}

/// What a refresh does to a change's stored promotion, given its stored
/// status and promotion time (if any), whether its merge commit is on the
/// target, and the time now: a settled status is kept; else the change is
/// promoted when on the target, at its earlier promotion time if it has
/// one, and pending otherwise.
pub fn promotion_upsert(existing: Option<&str>, existing_promoted_at: Option<i64>, on_target: bool, now: i64) -> (r:
    PromotionUpsert)
    ensures
        (existing matches Some(s) && is_settled(s@)) ==> r == PromotionUpsert::Keep,
        !(existing matches Some(s) && is_settled(s@)) ==> r == (if on_target {
            PromotionUpsert::Promoted {
                promoted_at: match existing_promoted_at {
                    Some(t) => t,
                    None => now,
                },
            }
        } else {
            PromotionUpsert::Pending
        }),
{
    match existing {
        Some(s) => {
            let c = chars_of(s);
            if chars_eq_str(c.as_slice(), "selected") || chars_eq_str(c.as_slice(), "promoting")
                || chars_eq_str(c.as_slice(), "conflict") || chars_eq_str(c.as_slice(), "promoted") {
                return PromotionUpsert::Keep;
            }
        },
        None => {},
    }
    if on_target {
        let promoted_at = match existing_promoted_at {
            Some(t) => t,
            None => now,
        };
        PromotionUpsert::Promoted { promoted_at }
    } else {
        PromotionUpsert::Pending
    }
}

pub open spec fn unit_shas(units: Seq<LogicalUnit>) -> Seq<Seq<char>> {
    units.map_values(|u: LogicalUnit| u.merge_commit_sha@)
}

/// A pending change row: the change and its merge commit.
pub struct PendingRow {
    pub pr_id: i64,
    pub merge_commit_sha: String,
}

/// The pending changes whose commit is no longer among the source branch's
/// units; a refresh marks them skipped.
pub open spec fn stale_ids(rows: Seq<PendingRow>, shas: Seq<Seq<char>>) -> Seq<i64>
    decreases rows.len(),
{
    if rows.len() == 0 {
        seq![]
    } else if shas.contains(rows.last().merge_commit_sha@) {
        stale_ids(rows.drop_last(), shas)
    } else {
        stale_ids(rows.drop_last(), shas).push(rows.last().pr_id)
    }
}

fn sha_among(units: &Vec<LogicalUnit>, sha: &String) -> (r: bool)
    ensures
        r == unit_shas(units@).contains(sha@),
{
    let mut i: usize = 0;
    while i < units.len()
        invariant
            i <= units.len(),
            forall|j: int| 0 <= j < i ==> units@[j].merge_commit_sha@ != sha@,
        decreases units.len() - i,
    {
        if units[i].merge_commit_sha == *sha {
            assert(unit_shas(units@)[i as int] == sha@);
            return true;
        }
        i += 1;
    }
    assert forall|j: int| 0 <= j < units@.len() implies unit_shas(units@)[j] != sha@ by {
        assert(unit_shas(units@)[j] == units@[j].merge_commit_sha@);
    }
    false
}

pub fn stale_pending(rows: &Vec<PendingRow>, units: &Vec<LogicalUnit>) -> (ids: Vec<i64>)
    ensures
        ids@ == stale_ids(rows@, unit_shas(units@)),
{
    let mut ids: Vec<i64> = Vec::new();
    let mut i: usize = 0;
    assert(ids@ =~= stale_ids(rows@.take(0), unit_shas(units@)));
    while i < rows.len()
        invariant
            i <= rows.len(),
            ids@ == stale_ids(rows@.take(i as int), unit_shas(units@)),
        decreases rows.len() - i,
    {
        assert(rows@.take(i + 1).drop_last() =~= rows@.take(i as int));
        assert(rows@.take(i + 1).last() == rows@[i as int]);
        if !sha_among(units, &rows[i].merge_commit_sha) {
            ids.push(rows[i].pr_id);
        }
        i += 1;
    }
    assert(rows@.take(i as int) =~= rows@);
    ids
}

/// A hexadecimal digit, in lower case.
pub open spec fn hex_digit(n: u32) -> char {
    if n == 0 { '0' } else if n == 1 { '1' } else if n == 2 { '2' } else if n == 3 { '3' }
    else if n == 4 { '4' } else if n == 5 { '5' } else if n == 6 { '6' } else if n == 7 { '7' }
    else if n == 8 { '8' } else if n == 9 { '9' } else if n == 10 { 'a' } else if n == 11 { 'b' }
    else if n == 12 { 'c' } else if n == 13 { 'd' } else if n == 14 { 'e' } else { 'f' }
}

/// How one character stands inside a JSON string: a quote and a backslash
/// behind a backslash, the usual short escapes for backspace, tab, line
/// feed, form feed and carriage return, `\u00` and two hex digits for the
/// other control characters, and any other character as itself.
pub open spec fn json_char(c: char) -> Seq<char> {
    if c == '"' {
        seq!['\\', '"']
    } else if c == '\\' {
        seq!['\\', '\\']
    } else if c == '\u{8}' {
        seq!['\\', 'b']
    } else if c == '\t' {
        seq!['\\', 't']
    } else if c == '\n' {
        seq!['\\', 'n']
    } else if c == '\u{c}' {
        seq!['\\', 'f']
    } else if c == '\r' {
        seq!['\\', 'r']
    } else if (c as u32) < 32 {
        seq!['\\', 'u', '0', '0', hex_digit((c as u32) / 16), hex_digit((c as u32) % 16)]
    } else {
        seq![c]
    }
}

/// The characters of a text, each as it stands inside a JSON string.
pub open spec fn json_escaped(s: Seq<char>) -> Seq<char>
    decreases s.len(),
{
    if s.len() == 0 {
        seq![]
    } else {
        json_escaped(s.drop_last()) + json_char(s.last())
    }
}

/// A text as a JSON string.
pub open spec fn json_string(s: Seq<char>) -> Seq<char> {
    seq!['"'] + json_escaped(s) + seq!['"']
}

/// The JSON strings of the texts, separated by commas.
pub open spec fn json_elements(items: Seq<Seq<char>>) -> Seq<char>
    decreases items.len(),
{
    if items.len() == 0 {
        seq![]
    } else if items.len() == 1 {
        json_string(items[0])
    } else {
        json_elements(items.drop_last()) + seq![','] + json_string(items.last())
    }
}

/// A list of texts as compact JSON: its strings inside `[` and `]`.
pub open spec fn json_list(items: Seq<Seq<char>>) -> Seq<char> {
    seq!['['] + json_elements(items) + seq![']']
}

/// The list of texts that `serde_json` reads from a JSON text, if it reads one.
pub uninterp spec fn texts_of_json(text: Seq<char>) -> Option<Seq<Seq<char>>>;

/// Writes a list of texts as JSON with `serde_json::to_string`. Claimed: for
/// a list of strings it never fails, and writes the compact form
/// [`json_list`], escaping as its string escape table does.
#[verifier::external_body]
fn texts_to_json(items: &Vec<String>) -> (r: Option<String>)
    ensures
        r is Some,
        r->0@ == json_list(strs(items@)),
{
    serde_json::to_string(items).ok()
}

/// Reads a list of texts from JSON with `serde_json::from_str::<Vec<String>>`;
/// `None` when it reports an error. Claimed: the outcome is a function of
/// the text alone ([`texts_of_json`]); which texts are read, is left to
/// `serde_json`.
#[verifier::external_body]
fn json_to_texts(text: &str) -> (r: Option<Vec<String>>)
    ensures
        match r {
            Some(v) => texts_of_json(text@) == Some(strs(v@)),
            None => texts_of_json(text@) is None,
        },
{
    serde_json::from_str::<Vec<String>>(text).ok()
}

/// The stored record of a unit's pull request.
#[derive(Debug)]
pub struct PullRequestRecord {
    pub ticket_ref: Option<String>,
    pub changed_files_json: String,
    pub files_changed: i64,
    pub insertions: i64,
    pub deletions: i64,
}

/// The stored record of a unit's pull request, with its changed files
/// written as JSON by `serde_json`.
pub fn pull_request_record(unit: &LogicalUnit) -> (r: PullRequestRecord)
    ensures
        opt_text(r.ticket_ref) == first_ticket(words(unit.title@)),
        r.changed_files_json@ == json_list(strs(unit._diff.changed_files@)),
        r.files_changed == unit._diff.files_changed as i64,
        r.insertions == unit._diff.insertions as i64,
        r.deletions == unit._diff.deletions as i64,
{
    let ticket_ref = parse_ticket_ref(unit.title.as_str());
    let changed_files_json = match texts_to_json(&unit._diff.changed_files) {
        Some(j) => j,
        None => String::from_str("[]"),
    };
    PullRequestRecord {
        ticket_ref,
        changed_files_json,
        files_changed: unit._diff.files_changed as i64,
        insertions: unit._diff.insertions as i64,
        deletions: unit._diff.deletions as i64,
    }
}

/// The commits of a unit paired with their patch identities, as far as both go.
pub fn pr_commit_rows(unit: &LogicalUnit) -> (rows: Vec<(String, String)>)
    ensures
        rows@.len() == if unit.commit_shas@.len() < unit.patch_ids@.len() {
            unit.commit_shas@.len()
        } else {
            unit.patch_ids@.len()
        },
        forall|i: int|
            0 <= i < rows@.len() ==> (#[trigger] rows@[i]).0@ == unit.commit_shas@[i]@ && rows@[i].1@
                == unit.patch_ids@[i]@,
{
    let n = if unit.commit_shas.len() < unit.patch_ids.len() {
        unit.commit_shas.len()
    } else {
        unit.patch_ids.len()
    };
    let mut rows: Vec<(String, String)> = Vec::new();
    let mut i: usize = 0;
    while i < n
        invariant
            i <= n,
            n <= unit.commit_shas@.len(),
            n <= unit.patch_ids@.len(),
            rows@.len() == i,
            forall|j: int|
                0 <= j < i ==> (#[trigger] rows@[j]).0@ == unit.commit_shas@[j]@ && rows@[j].1@
                    == unit.patch_ids@[j]@,
        decreases n - i,
    {
        rows.push((unit.commit_shas[i].clone(), unit.patch_ids[i].clone()));
        i += 1;
    }
    rows
}

/// A checklist entry as stored.
pub struct ChecklistRow {
    pub pr_id: i64,
    pub merge_commit_sha: String,
    pub title: String,
    pub author: Option<String>,
    pub ticket_ref: Option<String>,
    pub merge_strategy: Option<String>,
    pub merged_at: Option<i64>,
    pub status: String,
    pub files_changed: i64,
    pub insertions: i64,
    pub deletions: i64,
    pub changed_files_json: String,
}

/// A checklist entry as shown.
#[derive(Debug)]
pub struct ChecklistItem {
    pub pr_id: i64,
    pub merge_commit_sha: String,
    pub title: String,
    pub author: Option<String>,
    pub ticket_ref: Option<String>,
    pub merge_strategy: Option<String>,
    pub merged_at: Option<i64>,
    pub status: String,
    pub files_changed: u32,
    pub insertions: u32,
    pub deletions: u32,
    pub changed_files: Vec<String>,
}

/// A stored count as shown: negative counts show as 0, and the count is
/// taken modulo 2^32.
pub open spec fn shown_count(v: i64) -> u32 {
    if v < 0 {
        0
    } else {
        v as u32
    }
}

fn count(v: i64) -> (c: u32)
    ensures
        c == shown_count(v),
{
    if v < 0 {
        0
    } else {
        v as u32
    }
}

/// A checklist entry from its stored row and the changed files read back
/// from it (none when they could not be read).
pub fn checklist_item_with(row: ChecklistRow, changed_files: Option<Vec<String>>) -> (item: ChecklistItem)
    ensures
        item.pr_id == row.pr_id,
        item.merge_commit_sha == row.merge_commit_sha,
        item.title == row.title,
        item.author == row.author,
        item.ticket_ref == row.ticket_ref,
        item.merge_strategy == row.merge_strategy,
        item.merged_at == row.merged_at,
        item.status == row.status,
        item.files_changed == shown_count(row.files_changed),
        item.insertions == shown_count(row.insertions),
        item.deletions == shown_count(row.deletions),
        strs(item.changed_files@) == (match changed_files {
            Some(v) => strs(v@),
            None => seq![],
        }),
{
    let changed_files = match changed_files {
        Some(v) => v,
        None => {
            let v: Vec<String> = Vec::new();
            assert(strs(v@) =~= seq![]);
            v
        },
    };
    ChecklistItem {
        pr_id: row.pr_id,
        merge_commit_sha: row.merge_commit_sha,
        title: row.title,
        author: row.author,
        ticket_ref: row.ticket_ref,
        merge_strategy: row.merge_strategy,
        merged_at: row.merged_at,
        status: row.status,
        files_changed: count(row.files_changed),
        insertions: count(row.insertions),
        deletions: count(row.deletions),
        changed_files,
    }
}

/// A checklist entry from its stored row, its changed files read back from
/// their JSON by `serde_json`; files that cannot be read back show as none.
pub fn checklist_item(row: ChecklistRow) -> (item: ChecklistItem)
    ensures
        item.pr_id == row.pr_id,
        item.merge_commit_sha == row.merge_commit_sha,
        item.title == row.title,
        item.author == row.author,
        item.ticket_ref == row.ticket_ref,
        item.merge_strategy == row.merge_strategy,
        item.merged_at == row.merged_at,
        item.status == row.status,
        item.files_changed == shown_count(row.files_changed),
        item.insertions == shown_count(row.insertions),
        item.deletions == shown_count(row.deletions),
        strs(item.changed_files@) == (match texts_of_json(row.changed_files_json@) {
            Some(v) => v,
            None => seq![],
        }),
{
    let files = json_to_texts(row.changed_files_json.as_str());
    checklist_item_with(row, files)
}

/// Whether a pipeline needs a refresh, and the heads and counts shown for it.
#[derive(Debug)]
pub struct PipelineSyncStatus {
    pub needs_sync: bool,
    pub synced_at: Option<i64>,
    pub source_head: Option<String>,
    pub target_head: Option<String>,
    pub pending_count: i64,
    pub promoted_count: i64,
}

/// The stored counts of pending and promoted changes (absent when there are none).
pub struct StatusCounts {
    pub pending_count: Option<i64>,
    pub promoted_count: Option<i64>,
}

/// The heads recorded by the last refresh.
pub struct SyncStateRow {
    pub source_head_sha: Option<String>,
    pub target_head_sha: Option<String>,
    pub last_synced_at: Option<i64>,
}

/// A pipeline needs a refresh unless the last refresh recorded exactly the
/// current heads. The current heads (`live`) count only for a local
/// repository; without them the recorded heads are shown and a refresh is due.
pub fn sync_status(
    kind: &str,
    counts: &StatusCounts,
    state: Option<SyncStateRow>,
    live: Option<(String, String)>,
) -> (r: PipelineSyncStatus)
    ensures
        r.pending_count == (match counts.pending_count {
            Some(c) => c,
            None => 0,
        }),
        r.promoted_count == (match counts.promoted_count {
            Some(c) => c,
            None => 0,
        }),
        r.synced_at == (match state {
            Some(s) => s.last_synced_at,
            None => None,
        }),
        (kind@ == "local"@ && live is Some) ==> {
            let (s, t) = live->0;
            &&& opt_text(r.source_head) == Some(s@)
            &&& opt_text(r.target_head) == Some(t@)
            &&& r.needs_sync == (match state {
                None => true,
                Some(st) => opt_text(st.source_head_sha) != Some(s@) || opt_text(
                    st.target_head_sha,
                ) != Some(t@),
            })
        },
        !(kind@ == "local"@ && live is Some) ==> {
            &&& r.needs_sync
            &&& r.source_head == (match state {
                Some(s) => s.source_head_sha,
                None => None,
            })
            &&& r.target_head == (match state {
                Some(s) => s.target_head_sha,
                None => None,
            })
        },
{
    let pending_count = match counts.pending_count {
        Some(c) => c,
        None => 0,
    };
    let promoted_count = match counts.promoted_count {
        Some(c) => c,
        None => 0,
    };
    let k = chars_of(kind);
    let local = chars_eq_str(k.as_slice(), "local");
    let present = state.is_some();
    let (synced_at, stored_source, stored_target) = match state {
        Some(s) => (s.last_synced_at, s.source_head_sha, s.target_head_sha),
        None => (None, None, None),
    };
    match live {
        Some((source_head, target_head)) => if local {
            let same_source = match &stored_source {
                Some(x) => *x == source_head,
                None => false,
            };
            let same_target = match &stored_target {
                Some(x) => *x == target_head,
                None => false,
            };
            return PipelineSyncStatus {
                needs_sync: !present || !same_source || !same_target,
                synced_at,
                source_head: Some(source_head),
                target_head: Some(target_head),
                pending_count,
                promoted_count,
            };
        },
        None => {},
    }
    PipelineSyncStatus {
        needs_sync: true,
        synced_at,
        source_head: stored_source,
        target_head: stored_target,
        pending_count,
        promoted_count,
    }
}

/// A refresh retires exactly the pending changes whose commit has left the
/// source branch: every such change is listed, and every listed change is
/// one of them.
pub proof fn stale_pending_are_exactly_the_vanished(rows: Seq<PendingRow>, shas: Seq<Seq<char>>)
    ensures
        forall|i: int|
            0 <= i < rows.len() && !shas.contains(rows[i].merge_commit_sha@) ==> stale_ids(
                rows,
                shas,
            ).contains(#[trigger] rows[i].pr_id),
        forall|j: int|
            #![trigger stale_ids(rows, shas)[j]]
            0 <= j < stale_ids(rows, shas).len() ==> exists|i: int|
                0 <= i < rows.len() && !shas.contains(rows[i].merge_commit_sha@) && #[trigger] rows[i].pr_id
                    == stale_ids(rows, shas)[j],
    decreases rows.len(),
{
    if rows.len() > 0 {
        let front = rows.drop_last();
        stale_pending_are_exactly_the_vanished(front, shas);
        let prev = stale_ids(front, shas);
        let cur = stale_ids(rows, shas);
        assert forall|i: int|
            0 <= i < rows.len() && !shas.contains(rows[i].merge_commit_sha@) implies cur.contains(
            #[trigger] rows[i].pr_id,
        ) by {
            if i < rows.len() - 1 {
                assert(rows[i] == front[i]);
                let k = choose|k: int| 0 <= k < prev.len() && prev[k] == front[i].pr_id;
                if shas.contains(rows.last().merge_commit_sha@) {
                    assert(cur == prev);
                } else {
                    assert(cur == prev.push(rows.last().pr_id));
                    assert(cur[k] == prev[k]);
                }
            } else {
                assert(cur == prev.push(rows.last().pr_id));
                assert(cur[cur.len() - 1] == rows[i].pr_id);
            }
        }
        assert forall|j: int| #![trigger cur[j]] 0 <= j < cur.len() implies exists|i: int|
            0 <= i < rows.len() && !shas.contains(rows[i].merge_commit_sha@) && #[trigger] rows[i].pr_id
                == cur[j] by {
            if j < prev.len() {
                assert(cur[j] == prev[j]);
                let i = choose|i: int|
                    0 <= i < front.len() && !shas.contains(front[i].merge_commit_sha@) && #[trigger] front[i].pr_id
                        == prev[j];
                assert(rows[i] == front[i]);
            } else {
                assert(rows[rows.len() - 1].pr_id == cur[j]);
            }
        }
    }
}

} // verus!
