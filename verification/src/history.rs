//! The history of finished promotion runs.

use vstd::prelude::*;

use crate::text::{chars_eq_str, chars_of};

verus! {

/// One change of a past run, with its status as the history shows it.
#[derive(Debug)]
pub struct HistoryRunItem {
    pub pr_id: i64,
    pub title: String,
    pub status: String,
}

/// A finished run (merged, failed or closed).
#[derive(Debug)]
pub struct HistoryRun {
    pub run_id: i64,
    pub pipeline_id: i64,
    pub pipeline_name: String,
    pub source_branch: String,
    pub target_branch: String,
    pub branch_name: String,
    pub status: String,
    pub conflict_phase: Option<String>,
    pub created_at: i64,
    pub completed_at: Option<i64>,
    pub item_count: usize,
    pub items: Vec<HistoryRunItem>,
}

/// A stored run, joined with its pipeline.
pub struct RunRow {
    pub run_id: i64,
    pub pipeline_id: i64,
    pub pipeline_name: String,
    pub source_branch: String,
    pub target_branch: String,
    pub branch_name: String,
    pub status: String,
    pub conflict_phase: Option<String>,
    pub created_at: i64,
    pub completed_at: Option<i64>,
}

/// A stored change of a run, with its promotion status in the run's pipeline.
pub struct ItemRow {
    pub pr_id: i64,
    pub title: String,
    pub status: String,
}

/// How a promotion status reads in the history: applied changes are done,
/// waiting ones are queued, conflicts stay conflicts, anything else is shown
/// as stored.
pub open spec fn item_status_spec(status: Seq<char>) -> Seq<char> {
    if status == "promoted"@ || status == "promoting"@ {
        "done"@
    } else if status == "conflict"@ {
        "conflict"@
    } else if status == "pending"@ || status == "selected"@ || status == "skipped"@ {
        "queued"@
    } else {
        status
    }
}

pub fn map_item_status(status: &str) -> (r: String)
    ensures
        r@ == item_status_spec(status@),
{
    let s = chars_of(status);
    if chars_eq_str(s.as_slice(), "promoted") || chars_eq_str(s.as_slice(), "promoting") {
        String::from_str("done")
    } else if chars_eq_str(s.as_slice(), "conflict") {
        String::from_str("conflict")
    } else if chars_eq_str(s.as_slice(), "pending") || chars_eq_str(s.as_slice(), "selected")
        || chars_eq_str(s.as_slice(), "skipped") {
        String::from_str("queued")
    } else {
        String::from_str(status)
    }
}

/// The history entry of a run: its stored fields, and its changes in the
/// order given, each with its history status.
pub fn history_run(row: RunRow, items: Vec<ItemRow>) -> (run: HistoryRun)
    ensures
        run.run_id == row.run_id,
        run.pipeline_id == row.pipeline_id,
        run.pipeline_name == row.pipeline_name,
        run.source_branch == row.source_branch,
        run.target_branch == row.target_branch,
        run.branch_name == row.branch_name,
        run.status == row.status,
        run.conflict_phase == row.conflict_phase,
        run.created_at == row.created_at,
        run.completed_at == row.completed_at,
        run.item_count == items@.len(),
        run.items@.len() == items@.len(),
        forall|i: int|
            0 <= i < items@.len() ==> {
                &&& (#[trigger] run.items@[i]).pr_id == items@[i].pr_id
                &&& run.items@[i].title == items@[i].title
                &&& run.items@[i].status@ == item_status_spec(items@[i].status@)
            },
{
    let ghost rows = items@;
    let mut out: Vec<HistoryRunItem> = Vec::new();
    for it in iter: items
        invariant
            rows == iter.seq(),
            out@.len() == iter.index(),
            forall|i: int|
                0 <= i < out@.len() ==> {
                    &&& (#[trigger] out@[i]).pr_id == rows[i].pr_id
                    &&& out@[i].title == rows[i].title
                    &&& out@[i].status@ == item_status_spec(rows[i].status@)
                },
    {
        let status = map_item_status(it.status.as_str());
        out.push(HistoryRunItem { pr_id: it.pr_id, title: it.title, status });
    }
    let item_count = out.len();
    HistoryRun {
        run_id: row.run_id,
        pipeline_id: row.pipeline_id,
        pipeline_name: row.pipeline_name,
        source_branch: row.source_branch,
        target_branch: row.target_branch,
        branch_name: row.branch_name,
        status: row.status,
        conflict_phase: row.conflict_phase,
        created_at: row.created_at,
        completed_at: row.completed_at,
        item_count,
        items: out,
    }
}

} // verus!
