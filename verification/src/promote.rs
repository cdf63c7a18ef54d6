//! Promotion runs: the selected changes are cherry-picked, oldest first, onto
//! a new branch made from the target branch; each change that applies is
//! recorded as promoted at the commit it became. The branch is left ready to
//! merge and the target is not touched. A run stops at the first change that
//! does not apply and can be resumed once its conflicts are resolved, or
//! aborted.

use vstd::prelude::*;

use crate::git::promote::CherryPickOutcome;
use crate::git::runner::{opt_text, strs};
use crate::text::{decimal, int_text};

verus! {

/// A selected change, as the run applies it.
pub struct PromotePr {
    pub pr_id: i64,
    pub title: String,
    pub merge_commit_sha: String,
    pub merge_strategy: Option<String>,
}

/// A change of a run, with how far it got.
#[derive(Debug)]
pub struct PromotionRunItem {
    pub pr_id: i64,
    pub title: String,
    pub merge_commit_sha: String,
    pub status: String,
    pub error_message: Option<String>,
    pub conflict_files: Vec<String>,
}

/// The state of a run as shown to the user.
#[derive(Debug)]
pub struct PromotionRunResult {
    pub run_id: i64,
    pub branch_name: String,
    pub target_branch: String,
    pub conflict_phase: Option<String>,
    pub status: String,
    pub items: Vec<PromotionRunItem>,
    pub preferred_editor: Option<String>,
    pub can_continue: bool,
    pub recoverable: bool,
}

pub struct ItemView {
    pub pr_id: i64,
    pub title: Seq<char>,
    pub merge_commit_sha: Seq<char>,
    pub status: Seq<char>,
    pub error_message: Option<Seq<char>>,
    pub conflict_files: Seq<Seq<char>>,
}

impl View for PromotionRunItem {
    type V = ItemView;

    open spec fn view(&self) -> ItemView {
        ItemView {
            pr_id: self.pr_id,
            title: self.title@,
            merge_commit_sha: self.merge_commit_sha@,
            status: self.status@,
            error_message: opt_text(self.error_message),
            conflict_files: strs(self.conflict_files@),
        }
    }
}

pub open spec fn item_views(v: Seq<PromotionRunItem>) -> Seq<ItemView> {
    v.map_values(|i: PromotionRunItem| i@)
}

/// Whether a change is cherry-picked against its first parent: it was
/// merged with a merge commit.
pub open spec fn is_merge_strategy(s: Option<String>) -> bool {
    s matches Some(v) && v@ == "merge"@
}

fn merge_commit(s: &Option<String>) -> (b: bool)
    ensures
        b == is_merge_strategy(*s),
{
    match s {
        Some(v) => {
            let c = crate::text::chars_of(v.as_str());
            crate::text::chars_eq_str(c.as_slice(), "merge")
        },
        None => false,
    }
}

/// Where a run stopped on a conflict.
#[derive(PartialEq, Eq, Structural, Clone, Copy, Debug)]
pub enum ConflictPhase {
    CherryPick,
}

pub open spec fn phase_text(p: ConflictPhase) -> Seq<char> {
    match p {
        ConflictPhase::CherryPick => "cherry_pick"@,
    }
}

pub open spec fn opt_phase_text(p: Option<ConflictPhase>) -> Option<Seq<char>> {
    match p {
        Some(x) => Some(phase_text(x)),
        None => None,
    }
}

pub fn phase_name(p: ConflictPhase) -> (s: String)
    ensures
        s@ == phase_text(p),
{
    match p {
        ConflictPhase::CherryPick => String::from_str("cherry_pick"),
    }
}

/// The status of a run. A run that applied every change is stored as
/// `merged`: its branch holds them all, ready to be merged.
#[derive(PartialEq, Eq, Structural, Clone, Copy, Debug)]
pub enum RunStatus {
    Running,
    Failed,
    Merged,
}

pub open spec fn status_text(s: RunStatus) -> Seq<char> {
    match s {
        RunStatus::Running => "running"@,
        RunStatus::Failed => "failed"@,
        RunStatus::Merged => "merged"@,
    }
}

/// A change to the stored state that a run makes; the run, its pipeline and
/// the time are implied.
pub enum RunWrite {
    /// The change is being applied.
    MarkPromoting { pr_id: i64 },
    /// A file in conflict, recorded open for the change.
    OpenConflict { pr_id: i64, file_path: String },
    /// The change stopped on a conflict or failure, with Git's message.
    MarkConflict { pr_id: i64, error: String },
    /// The change is on the promotion branch, whose head is this commit.
    MarkPromoted { pr_id: i64, commit_sha: String },
    /// The run finished with every change applied.
    CompleteRun,
    /// The run stopped; resumable when it stopped on a conflict.
    FailRun { conflict_phase: Option<ConflictPhase> },
}

/// The Git work that a run asks for next.
pub enum RunAction {
    /// Cherry-pick a change onto the promotion branch.
    CherryPick { sha: String, merge_commit: bool },
    /// Read the head of the promotion branch, which is checked out; a failure
    /// ends the run with its error.
    ReadHead,
    /// Switch back to the branch that was checked out before the run; its
    /// outcome does not matter.
    RestoreBranch { branch: String },
    /// Nothing more to do.
    Finish,
}

/// What the requested Git work gave.
pub enum RunEvent {
    Picked(CherryPickOutcome),
    Head(String),
    /// The work finished; its outcome is not looked at.
    Done,
}

/// Where a run stands.
#[derive(PartialEq, Eq, Structural, Clone, Copy, Debug)]
pub enum RunStage {
    Picking,
    ReadingHead,
    Restoring,
    Finished,
}

/// A promotion run in progress.
pub struct PromotionRun {
    /// The selected changes, oldest first.
    pub prs: Vec<PromotePr>,
    pub target_branch: String,
    pub branch_name: String,
    pub original_branch: String,
    pub stage: RunStage,
    /// The change being, or next to be, cherry-picked.
    pub next: usize,
    pub items: Vec<PromotionRunItem>,
    pub cherry_picked: Vec<i64>,
    pub status: RunStatus,
    pub conflict_phase: Option<ConflictPhase>,
}


/// The abstract value of a [`RunWrite`].
pub enum WriteView {
    MarkPromoting(i64),
    OpenConflict(i64, Seq<char>),
    MarkConflict(i64, Seq<char>),
    MarkPromoted(i64, Seq<char>),
    CompleteRun,
    FailRun(Option<ConflictPhase>),
}

impl View for RunWrite {
    type V = WriteView;

    open spec fn view(&self) -> WriteView {
        match self {
            RunWrite::MarkPromoting { pr_id } => WriteView::MarkPromoting(*pr_id),
            RunWrite::OpenConflict { pr_id, file_path } => WriteView::OpenConflict(*pr_id, file_path@),
            RunWrite::MarkConflict { pr_id, error } => WriteView::MarkConflict(*pr_id, error@),
            RunWrite::MarkPromoted { pr_id, commit_sha } => WriteView::MarkPromoted(*pr_id, commit_sha@),
            RunWrite::CompleteRun => WriteView::CompleteRun,
            RunWrite::FailRun { conflict_phase } => WriteView::FailRun(*conflict_phase),
        }
    }
}

pub open spec fn write_views(ws: Seq<RunWrite>) -> Seq<WriteView> {
    ws.map_values(|w: RunWrite| w@)
}

/// The abstract value of a [`RunAction`].
pub enum ActionView {
    CherryPick(Seq<char>, bool),
    ReadHead,
    RestoreBranch(Seq<char>),
    Finish,
}

impl View for RunAction {
    type V = ActionView;

    open spec fn view(&self) -> ActionView {
        match self {
            RunAction::CherryPick { sha, merge_commit } => ActionView::CherryPick(sha@, *merge_commit),
            RunAction::ReadHead => ActionView::ReadHead,
            RunAction::RestoreBranch { branch } => ActionView::RestoreBranch(branch@),
            RunAction::Finish => ActionView::Finish,
        }
    }
}

pub open spec fn pr_ids(prs: Seq<PromotePr>) -> Seq<i64> {
    prs.map_values(|p: PromotePr| p.pr_id)
}

/// Cherry-picking a change.
pub open spec fn pick_action(pr: PromotePr) -> ActionView {
    ActionView::CherryPick(pr.merge_commit_sha@, is_merge_strategy(pr.merge_strategy))
}

/// A change that applied.
pub open spec fn done_item(pr: PromotePr) -> ItemView {
    ItemView {
        pr_id: pr.pr_id,
        title: pr.title@,
        merge_commit_sha: pr.merge_commit_sha@,
        status: "done"@,
        error_message: None,
        conflict_files: seq![],
    }
}

/// A change whose cherry-pick stopped: in conflict when Git left conflicted
/// files, else failed; Git's message, or a default one.
pub open spec fn stopped_item(pr: PromotePr, o: CherryPickOutcome) -> ItemView {
    let has = o.conflict_files@.len() > 0;
    ItemView {
        pr_id: pr.pr_id,
        title: pr.title@,
        merge_commit_sha: pr.merge_commit_sha@,
        status: if has {
            "conflict"@
        } else {
            "failed"@
        },
        error_message: Some(
            if o.stderr@.len() == 0 {
                if has {
                    "Cherry-pick conflict"@
                } else {
                    "Cherry-pick failed"@
                }
            } else {
                o.stderr@
            },
        ),
        conflict_files: strs(o.conflict_files@),
    }
}

/// One open conflict per file, for one change.
pub open spec fn conflict_writes(pr_id: i64, files: Seq<Seq<char>>) -> Seq<WriteView> {
    files.map_values(|f: Seq<char>| WriteView::OpenConflict(pr_id, f))
}

/// The event that answers the work a stage asked for.
pub open spec fn event_fits(stage: RunStage, ev: RunEvent) -> bool {
    match stage {
        RunStage::Picking => ev is Picked,
        RunStage::ReadingHead => ev is Head,
        RunStage::Restoring => ev is Done,
        RunStage::Finished => true,
    }
}

impl PromotionRun {
    /// The bookkeeping that holds at every stage: changes are applied in
    /// order, every change before the one in progress applied, and the run
    /// is still running until it fails or completes.
    pub open spec fn wf(&self) -> bool {
        let n = self.prs@.len();
        &&& self.next <= n
        &&& self.items@.len() <= n
        &&& forall|i: int| 0 <= i < self.items@.len() ==> (#[trigger] self.items@[i]).pr_id == self.prs@[i].pr_id
        &&& self.cherry_picked@ == pr_ids(self.prs@).take(self.cherry_picked@.len() as int)
        &&& match self.stage {
            RunStage::Picking => {
                &&& self.status == RunStatus::Running
                &&& self.next < n
                &&& self.items@.len() == self.next
                &&& self.cherry_picked@.len() == self.next
                &&& self.conflict_phase is None
                &&& forall|i: int| 0 <= i < self.items@.len() ==> (#[trigger] self.items@[i])@ == done_item(self.prs@[i])
            },
            RunStage::ReadingHead => {
                &&& self.status == RunStatus::Running
                &&& 0 < self.next
                &&& self.items@.len() == self.next
                &&& self.cherry_picked@.len() == self.next
                &&& self.conflict_phase is None
                &&& forall|i: int| 0 <= i < self.items@.len() ==> (#[trigger] self.items@[i])@ == done_item(self.prs@[i])
            },
            RunStage::Restoring => {
                &&& self.status == RunStatus::Merged
                &&& self.items@.len() == n
                &&& self.cherry_picked@.len() == n
            },
            RunStage::Finished => true,
        }
    }

    /// The fields that no step changes.
    pub open spec fn same_run(&self, other: &PromotionRun) -> bool {
        &&& self.prs == other.prs
        &&& self.target_branch == other.target_branch
        &&& self.branch_name == other.branch_name
        &&& self.original_branch == other.original_branch
    }
}

/// How a run moves on what its Git work gave: `ws` are the changes to the
/// stored state, in order, and `act` the next Git work.
pub open spec fn run_moves(
    old: PromotionRun,
    ev: RunEvent,
    new: PromotionRun,
    ws: Seq<RunWrite>,
    act: RunAction,
) -> bool {
    &&& new.same_run(&old)
    &&& match old.stage {
        RunStage::Picking => match ev {
            RunEvent::Picked(o) => {
                let pr = old.prs@[old.next as int];
                if o.success {
                    let n = old.next + 1;
                    &&& item_views(new.items@) == item_views(old.items@).push(done_item(pr))
                    &&& new.cherry_picked@ == old.cherry_picked@.push(pr.pr_id)
                    &&& new.next == n
                    &&& new.status == RunStatus::Running
                    &&& new.conflict_phase is None
                    &&& new.stage == RunStage::ReadingHead
                    &&& ws.len() == 0
                    &&& act@ == ActionView::ReadHead
                } else {
                    let phase = if o.conflict_files@.len() > 0 {
                        Some(ConflictPhase::CherryPick)
                    } else {
                        None
                    };
                    &&& item_views(new.items@) == item_views(old.items@).push(stopped_item(pr, o))
                    &&& new.cherry_picked == old.cherry_picked
                    &&& new.status == RunStatus::Failed
                    &&& new.conflict_phase == phase
                    &&& new.stage == RunStage::Finished
                    &&& write_views(ws) == conflict_writes(pr.pr_id, strs(o.conflict_files@)) + seq![
                        WriteView::MarkConflict(pr.pr_id, o.stderr@),
                        WriteView::FailRun(phase),
                    ]
                    &&& act@ == ActionView::Finish
                }
            },
            _ => false,
        },
        RunStage::ReadingHead => match ev {
            RunEvent::Head(h) => {
                let done = old.prs@[old.next - 1].pr_id;
                &&& new.items == old.items
                &&& new.cherry_picked == old.cherry_picked
                &&& new.next == old.next
                &&& new.conflict_phase == old.conflict_phase
                &&& if old.next < old.prs@.len() {
                    &&& new.stage == RunStage::Picking
                    &&& new.status == RunStatus::Running
                    &&& write_views(ws) == seq![
                        WriteView::MarkPromoted(done, h@),
                        WriteView::MarkPromoting(old.prs@[old.next as int].pr_id),
                    ]
                    &&& act@ == pick_action(old.prs@[old.next as int])
                } else {
                    &&& new.stage == RunStage::Restoring
                    &&& new.status == RunStatus::Merged
                    &&& write_views(ws) == seq![WriteView::MarkPromoted(done, h@), WriteView::CompleteRun]
                    &&& act@ == ActionView::RestoreBranch(old.original_branch@)
                }
            },
            _ => false,
        },
        RunStage::Restoring => {
            &&& new.stage == RunStage::Finished
            &&& new.status == old.status
            &&& new.items == old.items
            &&& new.cherry_picked == old.cherry_picked
            &&& new.conflict_phase == old.conflict_phase
            &&& ws.len() == 0
            &&& act@ == ActionView::Finish
        },
        RunStage::Finished => {
            &&& new.stage == RunStage::Finished
            &&& new.status == old.status
            &&& new.items == old.items
            &&& new.cherry_picked == old.cherry_picked
            &&& new.conflict_phase == old.conflict_phase
            &&& ws.len() == 0
            &&& act@ == ActionView::Finish
        },
    }
}

fn copy_text(s: &String) -> (t: String)
    ensures
        t@ == s@,
{
    s.clone()
}

fn pick_of(pr: &PromotePr) -> (a: RunAction)
    ensures
        a@ == pick_action(*pr),
{
    RunAction::CherryPick { sha: copy_text(&pr.merge_commit_sha), merge_commit: merge_commit(&pr.merge_strategy) }
}

fn push_write(ws: &mut Vec<RunWrite>, w: RunWrite)
    ensures
        write_views(final(ws)@) == write_views(old(ws)@).push(w@),
{
    let ghost before = write_views(ws@);
    let ghost wv = w@;
    ws.push(w);
    assert(write_views(ws@) =~= before.push(wv));
}

fn push_conflicts(ws: &mut Vec<RunWrite>, pr_id: i64, files: &Vec<String>)
    ensures
        write_views(final(ws)@) == write_views(old(ws)@) + conflict_writes(pr_id, strs(files@)),
{
    let ghost start = write_views(ws@);
    let mut i: usize = 0;
    assert(start =~= start + conflict_writes(pr_id, strs(files@).take(0)));
    while i < files.len()
        invariant
            i <= files.len(),
            write_views(ws@) == start + conflict_writes(pr_id, strs(files@).take(i as int)),
        decreases files.len() - i,
    {
        push_write(ws, RunWrite::OpenConflict { pr_id, file_path: files[i].clone() });
        i += 1;
        assert(conflict_writes(pr_id, strs(files@).take(i as int)) =~= conflict_writes(
            pr_id,
            strs(files@).take(i - 1),
        ).push(WriteView::OpenConflict(pr_id, files@[i - 1]@)));
        assert(write_views(ws@) =~= start + conflict_writes(pr_id, strs(files@).take(i as int)));
    }
    assert(strs(files@).take(i as int) =~= strs(files@));
}

impl PromotionRun {
    /// A run over the selected changes (oldest first) on the new branch
    /// `branch_name`, made from `target_branch` while `original_branch` was
    /// checked out. Its first move marks the first change and picks it.
    pub fn start(
        prs: Vec<PromotePr>,
        target_branch: String,
        branch_name: String,
        original_branch: String,
    ) -> (r: (PromotionRun, Vec<RunWrite>, RunAction))
        ensures
            r.0.wf(),
            r.0.prs == prs,
            r.0.target_branch == target_branch,
            r.0.branch_name == branch_name,
            r.0.original_branch == original_branch,
            r.0.status == RunStatus::Running,
            r.0.items@.len() == 0,
            r.0.conflict_phase is None,
            prs@.len() > 0 ==> {
                &&& r.0.stage == RunStage::Picking
                &&& r.0.next == 0
                &&& write_views(r.1@) == seq![WriteView::MarkPromoting(prs@[0].pr_id)]
                &&& r.2@ == pick_action(prs@[0])
            },
            prs@.len() == 0 ==> r.0.stage == RunStage::Finished && r.1@.len() == 0 && r.2@
                == ActionView::Finish,
    {
        let mut ws: Vec<RunWrite> = Vec::new();
        let act;
        let stage;
        if prs.len() > 0 {
            assert(write_views(ws@) =~= seq![]);
            push_write(&mut ws, RunWrite::MarkPromoting { pr_id: prs[0].pr_id });
            act = pick_of(&prs[0]);
            stage = RunStage::Picking;
        } else {
            act = RunAction::Finish;
            stage = RunStage::Finished;
        }
        let run = PromotionRun {
            prs,
            target_branch,
            branch_name,
            original_branch,
            stage,
            next: 0,
            items: Vec::new(),
            cherry_picked: Vec::new(),
            status: RunStatus::Running,
            conflict_phase: None,
        };
        assert(run.cherry_picked@ =~= pr_ids(run.prs@).take(0));
        (run, ws, act)
    }

    /// One move of the run on what the Git work it asked for gave.
    pub fn advance(&mut self, ev: RunEvent) -> (r: (Vec<RunWrite>, RunAction))
        requires
            old(self).wf(),
            event_fits(old(self).stage, ev),
        ensures
            final(self).wf(),
            run_moves(*old(self), ev, *final(self), r.0@, r.1),
    {
        let mut ws: Vec<RunWrite> = Vec::new();
        assert(write_views(ws@) =~= seq![]);
        match self.stage {
            RunStage::Picking => {
                let o = match ev {
                    RunEvent::Picked(o) => o,
                    _ => {
                        return (ws, RunAction::Finish);
                    },
                };
                let i = self.next;
                assert(i < self.prs.len());
                let pr_id = self.prs[i].pr_id;
                let ghost old_items = item_views(self.items@);
                if o.success {
                    let item = PromotionRunItem {
                        pr_id,
                        title: copy_text(&self.prs[i].title),
                        merge_commit_sha: copy_text(&self.prs[i].merge_commit_sha),
                        status: String::from_str("done"),
                        error_message: None,
                        conflict_files: Vec::new(),
                    };
                    assert(item@ == done_item(self.prs@[i as int])) by {
                        assert(strs(item.conflict_files@) =~= seq![]);
                    }
                    self.items.push(item);
                    assert(item_views(self.items@) =~= old_items.push(done_item(self.prs@[i as int])));
                    proof {
                        assert(pr_ids(self.prs@)[i as int] == pr_id);
                    }
                    self.cherry_picked.push(pr_id);
                    assert(self.cherry_picked@ =~= pr_ids(self.prs@).take(i + 1));
                    self.next = i + 1;
                    self.stage = RunStage::ReadingHead;
                    (ws, RunAction::ReadHead)
                } else {
                    let has = o.conflict_files.len() > 0;
                    let phase = if has {
                        Some(ConflictPhase::CherryPick)
                    } else {
                        None
                    };
                    push_conflicts(&mut ws, pr_id, &o.conflict_files);
                    push_write(&mut ws, RunWrite::MarkConflict { pr_id, error: copy_text(&o.stderr) });
                    push_write(&mut ws, RunWrite::FailRun { conflict_phase: phase });
                    assert(write_views(ws@) =~= conflict_writes(pr_id, strs(o.conflict_files@)) + seq![
                        WriteView::MarkConflict(pr_id, o.stderr@),
                        WriteView::FailRun(phase),
                    ]);
                    let message = if o.stderr.as_str().unicode_len() == 0 {
                        if has {
                            String::from_str("Cherry-pick conflict")
                        } else {
                            String::from_str("Cherry-pick failed")
                        }
                    } else {
                        copy_text(&o.stderr)
                    };
                    let item = PromotionRunItem {
                        pr_id,
                        title: copy_text(&self.prs[i].title),
                        merge_commit_sha: copy_text(&self.prs[i].merge_commit_sha),
                        status: if has {
                            String::from_str("conflict")
                        } else {
                            String::from_str("failed")
                        },
                        error_message: Some(message),
                        conflict_files: o.conflict_files,
                    };
                    self.items.push(item);
                    assert(item_views(self.items@) =~= old_items.push(stopped_item(self.prs@[i as int], o)));
                    self.status = RunStatus::Failed;
                    self.conflict_phase = phase;
                    self.stage = RunStage::Finished;
                    (ws, RunAction::Finish)
                }
            },
            RunStage::ReadingHead => {
                let h = match ev {
                    RunEvent::Head(h) => h,
                    _ => {
                        return (ws, RunAction::Finish);
                    },
                };
                let done = self.prs[self.next - 1].pr_id;
                let ghost hv = h@;
                push_write(&mut ws, RunWrite::MarkPromoted { pr_id: done, commit_sha: h });
                if self.next < self.prs.len() {
                    push_write(&mut ws, RunWrite::MarkPromoting { pr_id: self.prs[self.next].pr_id });
                    assert(write_views(ws@) =~= seq![
                        WriteView::MarkPromoted(done, hv),
                        WriteView::MarkPromoting(self.prs@[self.next as int].pr_id),
                    ]);
                    let act = pick_of(&self.prs[self.next]);
                    self.stage = RunStage::Picking;
                    (ws, act)
                } else {
                    push_write(&mut ws, RunWrite::CompleteRun);
                    assert(write_views(ws@) =~= seq![WriteView::MarkPromoted(done, hv), WriteView::CompleteRun]);
                    self.status = RunStatus::Merged;
                    self.stage = RunStage::Restoring;
                    (ws, RunAction::RestoreBranch { branch: copy_text(&self.original_branch) })
                }
            },
            RunStage::Restoring => {
                self.stage = RunStage::Finished;
                (ws, RunAction::Finish)
            },
            RunStage::Finished => (ws, RunAction::Finish),
        }
    }

    /// What the user sees of the run: it can be resumed exactly when it
    /// stopped on a conflict.
    pub fn into_result(self, run_id: i64, preferred_editor: Option<String>) -> (r: PromotionRunResult)
        ensures
            r.run_id == run_id,
            r.branch_name == self.branch_name,
            r.target_branch == self.target_branch,
            opt_text(r.conflict_phase) == opt_phase_text(self.conflict_phase),
            r.status@ == status_text(self.status),
            r.items == self.items,
            r.preferred_editor == preferred_editor,
            !r.can_continue,
            r.recoverable == (self.conflict_phase is Some),
    {
        let status = match self.status {
            RunStatus::Running => String::from_str("running"),
            RunStatus::Failed => String::from_str("failed"),
            RunStatus::Merged => String::from_str("merged"),
        };
        PromotionRunResult {
            run_id,
            branch_name: self.branch_name,
            target_branch: self.target_branch,
            conflict_phase: match self.conflict_phase {
                Some(p) => Some(phase_name(p)),
                None => None,
            },
            status,
            items: self.items,
            preferred_editor,
            can_continue: false,
            recoverable: self.conflict_phase.is_some(),
        }
    }
}


/// What is stored about a stopped run that is to be continued.
pub struct ContinueContext {
    pub pipeline_id: i64,
    pub branch_name: String,
    pub target_branch: String,
    pub conflict_phase: Option<String>,
    pub local_path: Option<String>,
    pub original_branch: Option<String>,
}

/// The work that continuing a run asks for next.
pub enum ContinueAction {
    /// Check that the folder is a Git working tree; an error ends the call.
    CheckRepo,
    /// Read the checked-out branch; an error ends the call.
    ReadBranch,
    /// Bring the stored conflicts in line with Git; answers with the files
    /// still in conflict. An error ends the call.
    Reconcile,
    /// End: show the run as it now stands.
    ShowRun,
    /// End with this error.
    Fail { message: String },
    /// Ask whether a cherry-pick is in progress.
    CheckCherryPick,
    /// `git cherry-pick --continue`; an error ends the call.
    ContinueCherryPick,
    /// Ask whether HEAD already carries the conflicted change's patch.
    CheckManualPick,
    /// Record the run's changes in conflict as promoted at this commit, the
    /// one the resolved change became, then load the run's changes that are
    /// still waiting, oldest first.
    ResumeQueued { commit_sha: String },
    /// Mark the change as being applied, then cherry-pick it.
    Pick { pr_id: i64, sha: String, merge_commit: bool },
    /// Record where the run stopped, reconcile, then end showing the run.
    PersistConflict { pr_id: i64, phase: ConflictPhase, files: Vec<String>, error: String },
    /// Read the head of the promotion branch; an error ends the call.
    ReadHead,
    /// Record the change as promoted at this commit, the one it became.
    MarkPromoted { pr_id: i64, commit_sha: String },
    /// Apply the plan's stored changes, in order, then run its Git commands,
    /// whose outcomes do not matter; an error in the stored changes ends the
    /// call.
    Finalize { plan: FinalizePlan },
    /// End: show the finished run.
    ShowMerged,
}

/// What the requested work gave.
pub enum ContinueEvent {
    Done,
    Branch(String),
    Files(Vec<String>),
    Flag(bool),
    Queued(Vec<PromotePr>),
    Picked(CherryPickOutcome),
    Head(String),
}

#[derive(PartialEq, Eq, Structural, Clone, Copy, Debug)]
pub enum ContinueStage {
    CheckRepo,
    ReadBranch,
    Reconcile,
    CheckCherryPick,
    ContinueCherryPick,
    CheckManualPick,
    ReadingResolvedHead,
    LoadQueued,
    Picking,
    ReadingPickHead,
    Recording,
    Finalizing,
    Ended,
}

/// Continuing a run that stopped on a conflict, once the user has resolved it.
pub struct ContinueRun {
    pub pipeline_id: i64,
    pub branch_name: String,
    pub target_branch: String,
    pub phase: String,
    pub local_path: String,
    pub original_branch: Option<String>,
    pub stage: ContinueStage,
    pub queue: Vec<PromotePr>,
    pub next: usize,
}

/// A change to the stored state that finishing a continued run makes; the
/// run and its pipeline are implied.
pub enum FinalizeWrite {
    /// Every conflict still open for the run is resolved.
    ResolveOpenConflicts,
    /// The run is complete, with no conflict phase left.
    CompleteRun,
}

/// The abstract value of a [`FinalizeWrite`].
pub enum FinalizeWriteView {
    ResolveOpenConflicts,
    CompleteRun,
}

impl View for FinalizeWrite {
    type V = FinalizeWriteView;

    open spec fn view(&self) -> FinalizeWriteView {
        match self {
            FinalizeWrite::ResolveOpenConflicts => FinalizeWriteView::ResolveOpenConflicts,
            FinalizeWrite::CompleteRun => FinalizeWriteView::CompleteRun,
        }
    }
}

/// How a continued run finishes: the stored changes, in order, then the Git
/// commands, whose outcomes do not matter.
pub struct FinalizePlan {
    pub writes: Vec<FinalizeWrite>,
    pub git_steps: Vec<Vec<String>>,
}

pub open spec fn finalize_write_views(ws: Seq<FinalizeWrite>) -> Seq<FinalizeWriteView> {
    ws.map_values(|w: FinalizeWrite| w@)
}

/// The open conflicts resolved, then the run complete; its changes were
/// each recorded as promoted when they applied.
pub open spec fn finalize_writes() -> Seq<FinalizeWriteView> {
    seq![FinalizeWriteView::ResolveOpenConflicts, FinalizeWriteView::CompleteRun]
}

/// Back to the branch that was checked out before the run, when there was
/// one and it is not the one checked out now; no other branch is touched.
pub open spec fn finalize_steps(original_branch: Option<Seq<char>>, current_branch: Seq<char>) -> Seq<
    Seq<Seq<char>>,
> {
    match original_branch {
        Some(o) => if o != current_branch {
            seq![seq!["switch"@, o]]
        } else {
            seq![]
        },
        None => seq![],
    }
}

/// Plans finishing a continued run once every change is on the promotion
/// branch; `current_branch` is checked out.
pub fn finalize_plan(original_branch: Option<&str>, current_branch: &str) -> (p: FinalizePlan)
    ensures
        finalize_write_views(p.writes@) == finalize_writes(),
        crate::git::promote::arg_lists(p.git_steps@) == finalize_steps(
            match original_branch {
                Some(o) => Some(o@),
                None => None,
            },
            current_branch@,
        ),
{
    let mut writes: Vec<FinalizeWrite> = Vec::new();
    writes.push(FinalizeWrite::ResolveOpenConflicts);
    writes.push(FinalizeWrite::CompleteRun);
    assert(finalize_write_views(writes@) =~= finalize_writes());
    let mut git_steps: Vec<Vec<String>> = Vec::new();
    match original_branch {
        Some(o) => {
            let oc = crate::text::chars_of(o);
            if !crate::text::chars_eq_str(oc.as_slice(), current_branch) {
                git_steps.push(crate::git::str_vec2("switch", o));
            }
        },
        None => {},
    }
    assert(crate::git::promote::arg_lists(git_steps@) =~= finalize_steps(
        match original_branch {
            Some(o) => Some(o@),
            None => None,
        },
        current_branch@,
    ));
    FinalizePlan { writes, git_steps }
}

pub open spec fn wrong_branch_message(current: Seq<char>, expected: Seq<char>) -> Seq<char> {
    "Repository is on '"@ + current + "'. Switch back to '"@ + expected
        + "' before continuing."@
}

pub open spec fn lost_cherry_pick_message() -> Seq<char> {
    "Git is no longer in the expected cherry-pick. Return the repository to the promotion branch\u{2019}s conflict state, or abort this run."@
}

/// The abstract value of a [`ContinueAction`], as far as contracts look at it.
pub enum ContinueActionView {
    CheckRepo,
    ReadBranch,
    Reconcile,
    ShowRun,
    Fail(Seq<char>),
    CheckCherryPick,
    ContinueCherryPick,
    CheckManualPick,
    ResumeQueued(Seq<char>),
    Pick(i64, Seq<char>, bool),
    PersistConflict(i64, ConflictPhase, Seq<Seq<char>>, Seq<char>),
    ReadHead,
    MarkPromoted(i64, Seq<char>),
    Finalize(Seq<FinalizeWriteView>, Seq<Seq<Seq<char>>>),
    ShowMerged,
}

impl View for ContinueAction {
    type V = ContinueActionView;

    open spec fn view(&self) -> ContinueActionView {
        match self {
            ContinueAction::CheckRepo => ContinueActionView::CheckRepo,
            ContinueAction::ReadBranch => ContinueActionView::ReadBranch,
            ContinueAction::Reconcile => ContinueActionView::Reconcile,
            ContinueAction::ShowRun => ContinueActionView::ShowRun,
            ContinueAction::Fail { message } => ContinueActionView::Fail(message@),
            ContinueAction::CheckCherryPick => ContinueActionView::CheckCherryPick,
            ContinueAction::ContinueCherryPick => ContinueActionView::ContinueCherryPick,
            ContinueAction::CheckManualPick => ContinueActionView::CheckManualPick,
            ContinueAction::ResumeQueued { commit_sha } => ContinueActionView::ResumeQueued(commit_sha@),
            ContinueAction::Pick { pr_id, sha, merge_commit } => ContinueActionView::Pick(
                *pr_id,
                sha@,
                *merge_commit,
            ),
            ContinueAction::PersistConflict { pr_id, phase, files, error } =>
                ContinueActionView::PersistConflict(*pr_id, *phase, strs(files@), error@),
            ContinueAction::ReadHead => ContinueActionView::ReadHead,
            ContinueAction::MarkPromoted { pr_id, commit_sha } => ContinueActionView::MarkPromoted(
                *pr_id,
                commit_sha@,
            ),
            ContinueAction::Finalize { plan } => ContinueActionView::Finalize(
                finalize_write_views(plan.writes@),
                crate::git::promote::arg_lists(plan.git_steps@),
            ),
            ContinueAction::ShowMerged => ContinueActionView::ShowMerged,
        }
    }
}

pub open spec fn continue_pick(pr: PromotePr) -> ContinueActionView {
    ContinueActionView::Pick(pr.pr_id, pr.merge_commit_sha@, is_merge_strategy(pr.merge_strategy))
}

impl ContinueRun {
    pub open spec fn wf(&self) -> bool {
        &&& self.next <= self.queue@.len()
        &&& (self.stage == ContinueStage::Picking || self.stage == ContinueStage::ReadingPickHead || self.stage
            == ContinueStage::Recording ==> self.next < self.queue@.len())
    }

    pub open spec fn same_run(&self, other: &ContinueRun) -> bool {
        &&& self.pipeline_id == other.pipeline_id
        &&& self.branch_name == other.branch_name
        &&& self.target_branch == other.target_branch
        &&& self.phase == other.phase
        &&& self.local_path == other.local_path
        &&& self.original_branch == other.original_branch
    }
}

pub open spec fn continue_event_fits(stage: ContinueStage, ev: ContinueEvent) -> bool {
    match stage {
        ContinueStage::ReadBranch => ev is Branch,
        ContinueStage::Reconcile => ev is Files,
        ContinueStage::CheckCherryPick | ContinueStage::CheckManualPick => ev is Flag,
        ContinueStage::LoadQueued => ev is Queued,
        ContinueStage::Picking => ev is Picked,
        ContinueStage::ReadingResolvedHead | ContinueStage::ReadingPickHead => ev is Head,
        _ => true,
    }
}

/// Finishing: the plan that resolves the open conflicts, completes the run
/// and goes back to the branch it started from.
pub open spec fn finalize_action(run: ContinueRun) -> ContinueActionView {
    ContinueActionView::Finalize(finalize_writes(), finalize_steps(opt_text(run.original_branch), run.branch_name@))
}

/// The next pick, or finishing once every queued change applied.
pub open spec fn after_pick(new: ContinueRun, act: ContinueActionView, n: int) -> bool {
    if n < new.queue@.len() {
        new.stage == ContinueStage::Picking && new.next == n && act == continue_pick(new.queue@[n])
    } else {
        new.stage == ContinueStage::Finalizing && act == finalize_action(new)
    }
}

/// How continuing a run moves on what the requested work gave.
pub open spec fn continue_moves(
    old: ContinueRun,
    ev: ContinueEvent,
    new: ContinueRun,
    act: ContinueActionView,
) -> bool {
    &&& new.same_run(&old)
    &&& match old.stage {
        ContinueStage::CheckRepo => new.stage == ContinueStage::ReadBranch && act
            == ContinueActionView::ReadBranch,
        ContinueStage::ReadBranch => match ev {
            ContinueEvent::Branch(cur) => if cur@ != old.branch_name@ {
                new.stage == ContinueStage::Ended && act == ContinueActionView::Fail(
                    wrong_branch_message(cur@, old.branch_name@),
                )
            } else {
                new.stage == ContinueStage::Reconcile && act == ContinueActionView::Reconcile
            },
            _ => false,
        },
        ContinueStage::Reconcile => match ev {
            ContinueEvent::Files(f) => if f@.len() > 0 {
                new.stage == ContinueStage::Ended && act == ContinueActionView::ShowRun
            } else if old.phase@ == "cherry_pick"@ {
                new.stage == ContinueStage::CheckCherryPick && act
                    == ContinueActionView::CheckCherryPick
            } else {
                new.stage == ContinueStage::Finalizing && act == finalize_action(old)
            },
            _ => false,
        },
        ContinueStage::CheckCherryPick => match ev {
            ContinueEvent::Flag(b) => if b {
                new.stage == ContinueStage::ContinueCherryPick && act
                    == ContinueActionView::ContinueCherryPick
            } else {
                new.stage == ContinueStage::CheckManualPick && act
                    == ContinueActionView::CheckManualPick
            },
            _ => false,
        },
        ContinueStage::ContinueCherryPick => new.stage == ContinueStage::ReadingResolvedHead && act
            == ContinueActionView::ReadHead,
        ContinueStage::CheckManualPick => match ev {
            ContinueEvent::Flag(b) => if b {
                new.stage == ContinueStage::ReadingResolvedHead && act == ContinueActionView::ReadHead
            } else {
                new.stage == ContinueStage::Ended && act == ContinueActionView::Fail(
                    lost_cherry_pick_message(),
                )
            },
            _ => false,
        },
        ContinueStage::ReadingResolvedHead => match ev {
            ContinueEvent::Head(h) => new.stage == ContinueStage::LoadQueued && act
                == ContinueActionView::ResumeQueued(h@),
            _ => false,
        },
        ContinueStage::LoadQueued => match ev {
            ContinueEvent::Queued(q) => new.queue == q && after_pick(new, act, 0),
            _ => false,
        },
        ContinueStage::Picking => match ev {
            ContinueEvent::Picked(o) => {
                let pr = old.queue@[old.next as int];
                &&& new.queue == old.queue
                &&& if o.success {
                    new.stage == ContinueStage::ReadingPickHead && new.next == old.next && act
                        == ContinueActionView::ReadHead
                } else {
                    new.stage == ContinueStage::Ended && act == ContinueActionView::PersistConflict(
                        pr.pr_id,
                        ConflictPhase::CherryPick,
                        strs(o.conflict_files@),
                        o.stderr@,
                    )
                }
            },
            _ => false,
        },
        ContinueStage::ReadingPickHead => match ev {
            ContinueEvent::Head(h) => {
                &&& new.stage == ContinueStage::Recording
                &&& new.queue == old.queue
                &&& new.next == old.next
                &&& act == ContinueActionView::MarkPromoted(old.queue@[old.next as int].pr_id, h@)
            },
            _ => false,
        },
        ContinueStage::Recording => new.queue == old.queue && after_pick(new, act, old.next + 1),
        ContinueStage::Finalizing => new.stage == ContinueStage::Ended && act
            == ContinueActionView::ShowMerged,
        ContinueStage::Ended => new.stage == ContinueStage::Ended && act
            == ContinueActionView::ShowRun,
    }
}

fn continue_pick_of(pr: &PromotePr) -> (a: ContinueAction)
    ensures
        a@ == continue_pick(*pr),
{
    ContinueAction::Pick {
        pr_id: pr.pr_id,
        sha: copy_text(&pr.merge_commit_sha),
        merge_commit: merge_commit(&pr.merge_strategy),
    }
}

fn text_is(s: &String, lit: &str) -> (b: bool)
    ensures
        b == (s@ == lit@),
{
    let c = crate::text::chars_of(s.as_str());
    crate::text::chars_eq_str(c.as_slice(), lit)
}

impl ContinueRun {
    /// Starts continuing a stopped run: only a failed run that stopped on a
    /// conflict, in a repository with a local path, can be continued.
    pub fn start(ctx: Option<ContinueContext>) -> (r: Result<(ContinueRun, ContinueAction), String>)
        ensures
            match ctx {
                None => r matches Err(e) && e@ == "Promotion run not found or already closed"@,
                Some(c) => if c.conflict_phase is None {
                    r matches Err(e) && e@
                        == "This promotion stopped because Git could not apply a change. Abort it, refresh the pipeline, and try again."@
                } else if c.local_path is None {
                    r matches Err(e) && e@ == "Repository has no local path"@
                } else {
                    &&& r is Ok
                    &&& r->Ok_0.0.wf()
                    &&& r->Ok_0.0.stage == ContinueStage::CheckRepo
                    &&& r->Ok_0.1@ == ContinueActionView::CheckRepo
                    &&& r->Ok_0.0.pipeline_id == c.pipeline_id
                    &&& r->Ok_0.0.branch_name == c.branch_name
                    &&& r->Ok_0.0.target_branch == c.target_branch
                    &&& Some(r->Ok_0.0.phase) == c.conflict_phase
                    &&& Some(r->Ok_0.0.local_path) == c.local_path
                    &&& r->Ok_0.0.original_branch == c.original_branch
                },
            },
    {
        let c = match ctx {
            None => {
                return Err(String::from_str("Promotion run not found or already closed"));
            },
            Some(c) => c,
        };
        let phase = match c.conflict_phase {
            None => {
                return Err(
                    String::from_str(
                        "This promotion stopped because Git could not apply a change. Abort it, refresh the pipeline, and try again.",
                    ),
                );
            },
            Some(p) => p,
        };
        let local_path = match c.local_path {
            None => {
                return Err(String::from_str("Repository has no local path"));
            },
            Some(p) => p,
        };
        let run = ContinueRun {
            pipeline_id: c.pipeline_id,
            branch_name: c.branch_name,
            target_branch: c.target_branch,
            phase,
            local_path,
            original_branch: c.original_branch,
            stage: ContinueStage::CheckRepo,
            queue: Vec::new(),
            next: 0,
        };
        Ok((run, ContinueAction::CheckRepo))
    }

    /// The plan that finishes the run.
    fn finalize(&self) -> (act: ContinueAction)
        ensures
            act@ == finalize_action(*self),
    {
        let original = match &self.original_branch {
            Some(o) => Some(o.as_str()),
            None => None,
        };
        ContinueAction::Finalize { plan: finalize_plan(original, self.branch_name.as_str()) }
    }

    /// One move on what the requested work gave.
    pub fn advance(&mut self, ev: ContinueEvent) -> (act: ContinueAction)
        requires
            old(self).wf(),
            continue_event_fits(old(self).stage, ev),
        ensures
            final(self).wf(),
            continue_moves(*old(self), ev, *final(self), act@),
    {
        match self.stage {
            ContinueStage::CheckRepo => {
                self.stage = ContinueStage::ReadBranch;
                ContinueAction::ReadBranch
            },
            ContinueStage::ReadBranch => {
                let cur = match ev {
                    ContinueEvent::Branch(b) => b,
                    _ => {
                        return ContinueAction::ShowRun;
                    },
                };
                let expected = copy_text(&self.branch_name);
                if cur != expected {
                    let mut m = crate::text::concat3("Repository is on '", cur.as_str(), "'. Switch back to '");
                    m.append(expected.as_str());
                    m.append("' before continuing.");
                    self.stage = ContinueStage::Ended;
                    ContinueAction::Fail { message: m }
                } else {
                    self.stage = ContinueStage::Reconcile;
                    ContinueAction::Reconcile
                }
            },
            ContinueStage::Reconcile => {
                let f = match ev {
                    ContinueEvent::Files(f) => f,
                    _ => {
                        return ContinueAction::ShowRun;
                    },
                };
                if f.len() > 0 {
                    self.stage = ContinueStage::Ended;
                    ContinueAction::ShowRun
                } else if text_is(&self.phase, "cherry_pick") {
                    self.stage = ContinueStage::CheckCherryPick;
                    ContinueAction::CheckCherryPick
                } else {
                    self.stage = ContinueStage::Finalizing;
                    self.finalize()
                }
            },
            ContinueStage::CheckCherryPick => {
                let b = match ev {
                    ContinueEvent::Flag(b) => b,
                    _ => false,
                };
                if b {
                    self.stage = ContinueStage::ContinueCherryPick;
                    ContinueAction::ContinueCherryPick
                } else {
                    self.stage = ContinueStage::CheckManualPick;
                    ContinueAction::CheckManualPick
                }
            },
            ContinueStage::ContinueCherryPick => {
                self.stage = ContinueStage::ReadingResolvedHead;
                ContinueAction::ReadHead
            },
            ContinueStage::CheckManualPick => {
                let b = match ev {
                    ContinueEvent::Flag(b) => b,
                    _ => false,
                };
                if b {
                    self.stage = ContinueStage::ReadingResolvedHead;
                    ContinueAction::ReadHead
                } else {
                    self.stage = ContinueStage::Ended;
                    ContinueAction::Fail {
                        message: String::from_str(
                            "Git is no longer in the expected cherry-pick. Return the repository to the promotion branch\u{2019}s conflict state, or abort this run.",
                        ),
                    }
                }
            },
            ContinueStage::ReadingResolvedHead => {
                let h = match ev {
                    ContinueEvent::Head(h) => h,
                    _ => {
                        return ContinueAction::ShowRun;
                    },
                };
                self.stage = ContinueStage::LoadQueued;
                ContinueAction::ResumeQueued { commit_sha: h }
            },
            ContinueStage::LoadQueued => {
                let q = match ev {
                    ContinueEvent::Queued(q) => q,
                    _ => {
                        return ContinueAction::ShowRun;
                    },
                };
                self.queue = q;
                self.next = 0;
                if self.queue.len() > 0 {
                    self.stage = ContinueStage::Picking;
                    continue_pick_of(&self.queue[0])
                } else {
                    self.stage = ContinueStage::Finalizing;
                    self.finalize()
                }
            },
            ContinueStage::Picking => {
                let o = match ev {
                    ContinueEvent::Picked(o) => o,
                    _ => {
                        return ContinueAction::ShowRun;
                    },
                };
                let i = self.next;
                assert(i < self.queue.len());
                if o.success {
                    self.stage = ContinueStage::ReadingPickHead;
                    ContinueAction::ReadHead
                } else {
                    self.stage = ContinueStage::Ended;
                    ContinueAction::PersistConflict {
                        pr_id: self.queue[i].pr_id,
                        phase: ConflictPhase::CherryPick,
                        files: o.conflict_files,
                        error: o.stderr,
                    }
                }
            },
            ContinueStage::ReadingPickHead => {
                let h = match ev {
                    ContinueEvent::Head(h) => h,
                    _ => {
                        return ContinueAction::ShowRun;
                    },
                };
                self.stage = ContinueStage::Recording;
                ContinueAction::MarkPromoted { pr_id: self.queue[self.next].pr_id, commit_sha: h }
            },
            ContinueStage::Recording => {
                let len = self.queue.len();
                assert(self.next < len);
                self.next = self.next + 1;
                if self.next < self.queue.len() {
                    self.stage = ContinueStage::Picking;
                    continue_pick_of(&self.queue[self.next])
                } else {
                    self.stage = ContinueStage::Finalizing;
                    self.finalize()
                }
            },
            ContinueStage::Finalizing => {
                self.stage = ContinueStage::Ended;
                ContinueAction::ShowMerged
            },
            ContinueStage::Ended => ContinueAction::ShowRun,
        }
    }
}


/// A stored run, joined with its pipeline's target branch.
pub struct ActiveRunRow {
    pub run_id: i64,
    pub branch_name: String,
    pub target_branch: String,
    pub conflict_phase: Option<String>,
    pub status: String,
}

/// A stored change of a run with its promotion status.
pub struct RunPrRow {
    pub pr_id: i64,
    pub title: String,
    pub merge_commit_sha: String,
    pub status: String,
    pub error_message: Option<String>,
}

/// An open conflict of a run: the change it belongs to and the file.
pub struct ConflictRow {
    pub pr_id: i64,
    pub file_path: String,
}

/// The open conflict files of one change, in stored order.
pub open spec fn files_of(rows: Seq<ConflictRow>, pr_id: i64) -> Seq<Seq<char>>
    decreases rows.len(),
{
    if rows.len() == 0 {
        seq![]
    } else if rows.last().pr_id == pr_id {
        files_of(rows.drop_last(), pr_id).push(rows.last().file_path@)
    } else {
        files_of(rows.drop_last(), pr_id)
    }
}

/// How a stored promotion status shows in a run: a conflict is shown as a
/// conflict while the run can be resumed and as a failure otherwise;
/// applied changes are done; the rest wait.
pub open spec fn shown_status(status: Seq<char>, resumable: bool) -> Seq<char> {
    if status == "conflict"@ {
        if resumable {
            "conflict"@
        } else {
            "failed"@
        }
    } else if status == "promoted"@ || status == "promoting"@ {
        "done"@
    } else {
        "queued"@
    }
}

pub open spec fn shown_item(row: RunPrRow, conflicts: Seq<ConflictRow>, resumable: bool) -> ItemView {
    ItemView {
        pr_id: row.pr_id,
        title: row.title@,
        merge_commit_sha: row.merge_commit_sha@,
        status: shown_status(row.status@, resumable),
        error_message: opt_text(row.error_message),
        conflict_files: files_of(conflicts, row.pr_id),
    }
}

pub open spec fn shown_items(rows: Seq<RunPrRow>, conflicts: Seq<ConflictRow>, resumable: bool) -> Seq<ItemView> {
    rows.map_values(|p: RunPrRow| shown_item(p, conflicts, resumable))
}

fn files_for(conflicts: &Vec<ConflictRow>, pr_id: i64) -> (files: Vec<String>)
    ensures
        strs(files@) == files_of(conflicts@, pr_id),
{
    let mut files: Vec<String> = Vec::new();
    let mut i: usize = 0;
    assert(strs(files@) =~= files_of(conflicts@.take(0), pr_id));
    while i < conflicts.len()
        invariant
            i <= conflicts.len(),
            strs(files@) == files_of(conflicts@.take(i as int), pr_id),
        decreases conflicts.len() - i,
    {
        assert(conflicts@.take(i + 1).drop_last() =~= conflicts@.take(i as int));
        assert(conflicts@.take(i + 1).last() == conflicts@[i as int]);
        if conflicts[i].pr_id == pr_id {
            crate::git::runner::push_owned(&mut files, conflicts[i].file_path.clone());
        }
        i += 1;
    }
    assert(conflicts@.take(i as int) =~= conflicts@);
    files
}

/// A run as stored: its changes in order, each with its open conflict files;
/// it can be continued when it failed and has no open conflict left, and
/// resumed when it stopped on a conflict.
pub fn build_run_result(
    row: ActiveRunRow,
    pr_rows: Vec<RunPrRow>,
    conflicts: Vec<ConflictRow>,
    preferred_editor: Option<String>,
) -> (r: PromotionRunResult)
    ensures
        r.run_id == row.run_id,
        r.branch_name == row.branch_name,
        r.target_branch == row.target_branch,
        r.conflict_phase == row.conflict_phase,
        r.status == row.status,
        item_views(r.items@) == shown_items(pr_rows@, conflicts@, row.conflict_phase is Some),
        r.preferred_editor == preferred_editor,
        r.can_continue == (row.status@ == "failed"@ && conflicts@.len() == 0),
        r.recoverable == (row.conflict_phase is Some),
{
    let resumable = row.conflict_phase.is_some();
    let ghost rows = pr_rows@;
    let mut items: Vec<PromotionRunItem> = Vec::new();
    for p in it: pr_rows
        invariant
            rows == it.seq(),
            resumable == (row.conflict_phase is Some),
            item_views(items@) == shown_items(rows.take(it.index()), conflicts@, resumable),
    {
        let ghost k = it.index();
        let ghost before = item_views(items@);
        let ghost pv = p;
        let status = if text_is(&p.status, "conflict") {
            if resumable {
                String::from_str("conflict")
            } else {
                String::from_str("failed")
            }
        } else if text_is(&p.status, "promoted") || text_is(&p.status, "promoting") {
            String::from_str("done")
        } else {
            String::from_str("queued")
        };
        let files = files_for(&conflicts, p.pr_id);
        let item = PromotionRunItem {
            pr_id: p.pr_id,
            title: p.title,
            merge_commit_sha: p.merge_commit_sha,
            status,
            error_message: p.error_message,
            conflict_files: files,
        };
        assert(item@ == shown_item(pv, conflicts@, resumable));
        items.push(item);
        assert(rows.take(k + 1) =~= rows.take(k).push(pv));
        assert(item_views(items@) =~= before.push(shown_item(pv, conflicts@, resumable)));
        assert(shown_items(rows.take(k + 1), conflicts@, resumable) =~= shown_items(rows.take(k), conflicts@, resumable).push(shown_item(pv, conflicts@, resumable)));
    }
    assert(rows.take(rows.len() as int) =~= rows);
    let can_continue = text_is(&row.status, "failed") && conflicts.len() == 0;
    PromotionRunResult {
        run_id: row.run_id,
        branch_name: row.branch_name,
        target_branch: row.target_branch,
        conflict_phase: row.conflict_phase,
        status: row.status,
        items,
        preferred_editor,
        can_continue,
        recoverable: resumable,
    }
}

/// The message recorded for a change where a run stopped: Git's trimmed
/// message, or one that says whether Git stopped on a conflict.
pub open spec fn stop_message(phase: ConflictPhase, has_files: bool, error: Seq<char>) -> Seq<char> {
    if crate::text::trim(error).len() == 0 {
        if has_files {
            "Git "@ + phase_text(phase) + " stopped on a conflict"@
        } else {
            "Git "@ + phase_text(phase) + " failed before applying the change"@
        }
    } else {
        crate::text::trim(error)
    }
}

/// What is recorded when a continued run stops again: the run failed (and
/// resumable only when Git left conflicted files), the change in conflict
/// with the message, and one open conflict per file.
pub fn persist_conflict(pr_id: i64, phase: ConflictPhase, files: &Vec<String>, error: &str) -> (ws: Vec<RunWrite>)
    ensures
        write_views(ws@) == seq![
            WriteView::FailRun(if files@.len() > 0 { Some(phase) } else { None }),
            WriteView::MarkConflict(pr_id, stop_message(phase, files@.len() > 0, error@)),
        ] + conflict_writes(pr_id, strs(files@)),
{
    let t = crate::text::trim_str(error);
    let message = if t.len() == 0 {
        let mut m = String::from_str("Git ");
        m.append(phase_name(phase).as_str());
        if files.len() == 0 {
            m.append(" failed before applying the change");
        } else {
            m.append(" stopped on a conflict");
        }
        m
    } else {
        crate::text::string_of(t.as_slice())
    };
    let mut ws: Vec<RunWrite> = Vec::new();
    assert(write_views(ws@) =~= seq![]);
    push_write(&mut ws, RunWrite::FailRun { conflict_phase: if files.len() > 0 { Some(phase) } else { None } });
    push_write(&mut ws, RunWrite::MarkConflict { pr_id, error: message });
    push_conflicts(&mut ws, pr_id, files);
    ws
}

/// Where deciding whether a stopped run can be continued stands: the next
/// thing to ask Git, or the answer.
#[derive(PartialEq, Eq, Structural, Clone, Copy, Debug)]
pub enum ResolutionStep {
    /// Ask whether a cherry-pick is in progress.
    AskCherryPickInProgress,
    /// Ask whether the stopped change was applied by hand.
    AskAppliedByHand,
    /// Decided: whether the run can be continued.
    Resumable(bool),
}

/// A stopped run can be continued when no file is left in conflict and Git
/// is still in the cherry-pick that stopped it, or the change was applied
/// by hand.
pub open spec fn resumable_spec(live_empty: bool, in_progress: bool, by_hand: bool) -> bool {
    live_empty && (in_progress || by_hand)
}

/// The next step in deciding whether a stopped run can be continued, given
/// the files still in conflict and the answers Git has given so far (`None`
/// where not yet asked). Git is asked only what the answer still depends on.
pub fn resolution_step(live_files: &Vec<String>, in_progress: Option<bool>, by_hand: Option<bool>) -> (r:
    ResolutionStep)
    ensures
        r == (if live_files@.len() > 0 {
            ResolutionStep::Resumable(false)
        } else {
            match in_progress {
                None => ResolutionStep::AskCherryPickInProgress,
                Some(true) => ResolutionStep::Resumable(true),
                Some(false) => match by_hand {
                    None => ResolutionStep::AskAppliedByHand,
                    Some(b) => ResolutionStep::Resumable(b),
                },
            }
        }),
        in_progress is Some && by_hand is Some ==> r == ResolutionStep::Resumable(
            resumable_spec(live_files@.len() == 0, in_progress->0, by_hand->0),
        ),
{
    if live_files.len() > 0 {
        return ResolutionStep::Resumable(false);
    }
    match in_progress {
        None => ResolutionStep::AskCherryPickInProgress,
        Some(true) => ResolutionStep::Resumable(true),
        Some(false) => match by_hand {
            None => ResolutionStep::AskAppliedByHand,
            Some(b) => ResolutionStep::Resumable(b),
        },
    }
}

/// The run as offered for resolution: it can be continued when nothing is
/// left in conflict and Git is where the run stopped (`resumable`). A run
/// that has nothing left in conflict but cannot be continued is no longer
/// resumable; the boolean tells whether its stored phase is to be cleared.
pub fn finish_resolution(result: PromotionRunResult, unresolved: bool, resumable: bool) -> (r: (
    PromotionRunResult,
    bool,
))
    ensures
        r.0.can_continue == (!unresolved && resumable),
        r.1 == (!unresolved && !resumable && result.conflict_phase is Some),
        r.1 ==> r.0.conflict_phase is None && !r.0.recoverable,
        !r.1 ==> r.0.conflict_phase == result.conflict_phase && r.0.recoverable == result.recoverable,
        r.0.run_id == result.run_id,
        r.0.branch_name == result.branch_name,
        r.0.target_branch == result.target_branch,
        r.0.status == result.status,
        r.0.items == result.items,
        r.0.preferred_editor == result.preferred_editor,
{
    let mut result = result;
    result.can_continue = !unresolved && resumable;
    let clear = !unresolved && !result.can_continue && result.conflict_phase.is_some();
    if clear {
        result.conflict_phase = None;
        result.recoverable = false;
    }
    (result, clear)
}

/// Whether the change that stopped a run on a cherry-pick conflict was
/// applied by hand: there is such a change, and the patch ID of its commit
/// and that of HEAD came out alike (both absent counts as alike).
pub fn applied_by_hand(stopped_change: bool, change_patch: Option<String>, head_patch: Option<String>) -> (b: bool)
    ensures
        b == (stopped_change && opt_text(change_patch) == opt_text(head_patch)),
{
    if !stopped_change {
        return false;
    }
    match (change_patch, head_patch) {
        (Some(a), Some(h)) => {
            let c = crate::text::chars_of(a.as_str());
            crate::text::chars_eq_str(c.as_slice(), h.as_str())
        },
        (None, None) => true,
        _ => false,
    }
}

/// A change to the stored conflicts of a stopped run when it is looked at
/// again.
pub enum ConflictWrite {
    /// Every open conflict of the run is marked resolved.
    ResolveOpen,
    /// A conflict recorded before is open again, for this change.
    Reopen { id: i64, pr_id: i64 },
    /// A new open conflict on this file, for this change.
    Insert { pr_id: i64, file_path: String },
}

/// The abstract value of a [`ConflictWrite`].
pub enum ConflictWriteView {
    ResolveOpen,
    Reopen(i64, i64),
    Insert(i64, Seq<char>),
}

impl View for ConflictWrite {
    type V = ConflictWriteView;

    open spec fn view(&self) -> ConflictWriteView {
        match self {
            ConflictWrite::ResolveOpen => ConflictWriteView::ResolveOpen,
            ConflictWrite::Reopen { id, pr_id } => ConflictWriteView::Reopen(*id, *pr_id),
            ConflictWrite::Insert { pr_id, file_path } => ConflictWriteView::Insert(*pr_id, file_path@),
        }
    }
}

pub open spec fn conflict_write_views(ws: Seq<ConflictWrite>) -> Seq<ConflictWriteView> {
    ws.map_values(|w: ConflictWrite| w@)
}

/// The record of one file still in conflict: the latest earlier record of
/// the file reopened, else a new one.
pub open spec fn file_conflict(pr_id: i64, file: Seq<char>, existing: Option<i64>) -> ConflictWriteView {
    match existing {
        Some(id) => ConflictWriteView::Reopen(id, pr_id),
        None => ConflictWriteView::Insert(pr_id, file),
    }
}

/// All open conflicts resolved, then each file still in conflict recorded
/// open for `pr_id`, in order.
pub open spec fn reconcile_spec(files: Seq<Seq<char>>, pr_id: i64, existing: Seq<Option<i64>>) -> Seq<
    ConflictWriteView,
> {
    seq![ConflictWriteView::ResolveOpen] + Seq::new(
        files.len(),
        |i: int| file_conflict(pr_id, files[i], existing[i]),
    )
}

/// Brings the stored conflicts of a stopped run in line with the files that
/// Git still reports in conflict; `existing[i]` is the latest earlier record
/// of `live_files[i]`, and `pr_id` the change the conflicts belong to.
pub fn reconcile_writes(live_files: &Vec<String>, pr_id: i64, existing: &Vec<Option<i64>>) -> (ws: Vec<
    ConflictWrite,
>)
    requires
        existing@.len() == live_files@.len(),
    ensures
        conflict_write_views(ws@) == reconcile_spec(strs(live_files@), pr_id, existing@),
{
    let mut ws: Vec<ConflictWrite> = Vec::new();
    ws.push(ConflictWrite::ResolveOpen);
    let mut i: usize = 0;
    while i < live_files.len()
        invariant
            i <= live_files@.len(),
            existing@.len() == live_files@.len(),
            ws@.len() == i + 1,
            ws@[0]@ == ConflictWriteView::ResolveOpen,
            forall|k: int| 0 <= k < i ==> #[trigger] ws@[k + 1]@ == file_conflict(
                pr_id,
                live_files@[k]@,
                existing@[k],
            ),
        decreases live_files@.len() - i,
    {
        let w = match existing[i] {
            Some(id) => ConflictWrite::Reopen { id, pr_id },
            None => ConflictWrite::Insert { pr_id, file_path: live_files[i].clone() },
        };
        ws.push(w);
        i += 1;
    }
    assert(conflict_write_views(ws@) =~= reconcile_spec(strs(live_files@), pr_id, existing@)) by {
        assert forall|k: int| 0 <= k < ws@.len() implies #[trigger] conflict_write_views(ws@)[k]
            == reconcile_spec(strs(live_files@), pr_id, existing@)[k] by {
            if k > 0 {
                assert(ws@[(k - 1) + 1]@ == file_conflict(pr_id, live_files@[k - 1]@, existing@[k - 1]));
            }
        }
    }
    ws
}

/// The preferred editor's stored row; there must be one.
pub fn preferred_editor<T>(row: Option<T>) -> (r: Result<T, String>)
    ensures
        row matches Some(t) ==> r == Ok::<T, String>(t),
        row is None ==> (r matches Err(e) && e@ == "No preferred editor \u{2014} set one in Settings"@),
{
    match row {
        Some(t) => Ok(t),
        None => Err(String::from_str("No preferred editor \u{2014} set one in Settings")),
    }
}

/// The checks before a promotion starts.
pub fn check_selection_given(pr_ids: &Vec<i64>) -> (r: Result<(), String>)
    ensures
        r is Ok <==> pr_ids@.len() > 0,
        r matches Err(e) ==> e@ == "Select at least one change to promote"@,
{
    if pr_ids.len() == 0 {
        Err(String::from_str("Select at least one change to promote"))
    } else {
        Ok(())
    }
}

/// The repository folder of a pipeline, which must have one.
pub fn repo_path(local_path: Option<String>) -> (r: Result<String, String>)
    ensures
        local_path matches Some(p) ==> r == Ok::<String, String>(p),
        local_path is None ==> (r matches Err(e) && e@ == "Repository has no local path"@),
{
    match local_path {
        Some(p) => Ok(p),
        None => Err(String::from_str("Repository has no local path")),
    }
}

/// A pipeline takes one promotion at a time.
pub fn check_no_active_run(active_count: i64) -> (r: Result<(), String>)
    ensures
        r is Ok <==> active_count <= 0,
        r matches Err(e) ==> e@
            == "This pipeline already has a promotion in progress. Continue or abort it first."@,
{
    if active_count > 0 {
        Err(
            String::from_str(
                "This pipeline already has a promotion in progress. Continue or abort it first.",
            ),
        )
    } else {
        Ok(())
    }
}

/// Every selected change must still be waiting to be promoted.
pub fn check_promotable(found: usize, requested: usize) -> (r: Result<(), String>)
    ensures
        r is Ok <==> (found > 0 && found == requested),
        found == 0 ==> (r matches Err(e) && e@
            == "No promotable changes found for the current selection"@),
        found > 0 && found != requested ==> (r matches Err(e) && e@
            == "Some selected changes are no longer pending \u{2014} refresh and try again"@),
{
    if found == 0 {
        return Err(String::from_str("No promotable changes found for the current selection"));
    }
    if found != requested {
        return Err(
            String::from_str(
                "Some selected changes are no longer pending \u{2014} refresh and try again",
            ),
        );
    }
    Ok(())
}

/// `<n> selected change(s) no longer exist(s) in this repository. ...`
pub open spec fn missing_message(n: nat) -> Seq<char> {
    decimal(n) + " selected change"@ + (if n == 1 {
        ""@
    } else {
        "s"@
    }) + " no longer exist"@ + (if n == 1 {
        "s"@
    } else {
        ""@
    }) + " in this repository. Refresh the pipeline and select the current changes."@
}

/// Every selected change's commit must still exist; `missing` are the
/// titles of those whose commit is gone.
pub fn check_commits_exist(missing: &Vec<String>) -> (r: Result<(), String>)
    ensures
        r is Ok <==> missing@.len() == 0,
        r matches Err(e) ==> e@ == missing_message(missing@.len()),
{
    if missing.len() == 0 {
        return Ok(());
    }
    let n = missing.len() as u64;
    let mut m = crate::text::u64_text(n);
    m.append(" selected change");
    if n == 1 {
        m.append("");
    } else {
        m.append("s");
    }
    m.append(" no longer exist");
    if n == 1 {
        m.append("s");
    } else {
        m.append("");
    }
    m.append(" in this repository. Refresh the pipeline and select the current changes.");
    Err(m)
}

/// A run that may be abandoned (running or failed), with its pipeline and
/// repository.
pub struct AbortContext {
    pub pipeline_id: i64,
    pub branch_name: String,
    pub target_branch: String,
    pub local_path: Option<String>,
    pub original_branch: Option<String>,
}

/// A change to the stored state that abandoning a run makes.
#[derive(PartialEq, Eq, Structural, Clone, Copy, Debug)]
pub enum AbortWrite {
    /// The change of the run is selected again, as before the run, with no
    /// promotion recorded.
    RestoreSelected { pr_id: i64 },
    /// The run is closed.
    CloseRun,
    /// Every conflict recorded for the run is abandoned.
    AbandonConflicts,
}

/// How to abandon a run: where, the Git commands (whose outcomes do not
/// matter), and the stored changes.
pub struct AbortPlan {
    pub path: String,
    pub git_steps: Vec<Vec<String>>,
    pub writes: Vec<AbortWrite>,
}

/// Every change of the run back to its pre-run status, selected, then the
/// run closed and its conflicts abandoned.
pub open spec fn abort_writes(pr_ids: Seq<i64>) -> Seq<AbortWrite> {
    pr_ids.map_values(|id: i64| AbortWrite::RestoreSelected { pr_id: id }) + seq![
        AbortWrite::CloseRun,
        AbortWrite::AbandonConflicts,
    ]
}

/// Plans abandoning a run; `ctx` is the run if it is running or failed,
/// `pr_ids` the changes it holds.
pub fn abort_plan(ctx: Option<AbortContext>, pr_ids: &Vec<i64>) -> (r: Result<AbortPlan, String>)
    ensures
        ctx is None ==> (r matches Err(e) && e@ == "Promotion run not found"@),
        ctx matches Some(c) ==> (c.local_path is None ==> (r matches Err(e) && e@
            == "Repository has no local path"@)),
        ctx matches Some(c) ==> (c.local_path matches Some(p) ==> (r matches Ok(plan) && {
            &&& plan.path@ == p@
            &&& crate::git::promote::arg_lists(plan.git_steps@)
                == crate::git::promote::abort_steps_spec(
                c.branch_name@,
                c.target_branch@,
                opt_text(c.original_branch),
            )
            &&& plan.writes@ == abort_writes(pr_ids@)
        })),
{
    let c = match ctx {
        Some(c) => c,
        None => {
            return Err(String::from_str("Promotion run not found"));
        },
    };
    let path = repo_path(c.local_path)?;
    let original = match &c.original_branch {
        Some(o) => Some(o.as_str()),
        None => None,
    };
    let git_steps = crate::git::promote::abort_steps(
        c.branch_name.as_str(),
        c.target_branch.as_str(),
        original,
    );
    let mut writes: Vec<AbortWrite> = Vec::new();
    let mut i: usize = 0;
    while i < pr_ids.len()
        invariant
            i <= pr_ids@.len(),
            writes@ =~= pr_ids@.take(i as int).map_values(
                |id: i64| AbortWrite::RestoreSelected { pr_id: id },
            ),
        decreases pr_ids@.len() - i,
    {
        writes.push(AbortWrite::RestoreSelected { pr_id: pr_ids[i] });
        proof {
            assert(pr_ids@.take(i + 1) =~= pr_ids@.take(i as int).push(pr_ids@[i as int]));
        }
        i = i + 1;
    }
    writes.push(AbortWrite::CloseRun);
    writes.push(AbortWrite::AbandonConflicts);
    proof {
        assert(pr_ids@.take(i as int) =~= pr_ids@);
        assert(writes@ =~= abort_writes(pr_ids@));
    }
    Ok(AbortPlan { path, git_steps, writes })
}

/// The current time in milliseconds since the Unix epoch: the system clock
/// (`std::time::SystemTime::now`) converted with chrono's
/// `DateTime::<Utc>::from` and read with `timestamp_millis`. That conversion
/// also takes a clock set before 1970. Nothing is claimed of the value: it
/// depends on the clock.
#[verifier::external_body]
fn now_millis() -> (ms: i64) {
    chrono::DateTime::<chrono::Utc>::from(std::time::SystemTime::now()).timestamp_millis()
}

/// The name of a promotion branch made at `ms` milliseconds since the
/// Unix epoch.
pub fn promotion_branch_name_at(ms: i64) -> (name: String)
    ensures
        name@ == "branchgate/promote-"@ + int_text(ms as int),
{
    let t = crate::text::i64_text(ms);
    crate::text::concat2("branchgate/promote-", t.as_str())
}

/// The name of a new promotion branch, from the current time.
pub fn promotion_branch_name() -> (name: String)
    ensures
        exists|ms: i64| name@ == "branchgate/promote-"@ + int_text(ms as int),
{
    promotion_branch_name_at(now_millis())
}


/// A path separator: `/`, and on Windows `\` too.
pub open spec fn is_separator(c: char, windows: bool) -> bool {
    c == '/' || (windows && c == '\\')
}

/// A `..` component starts at `i`.
pub open spec fn parent_at(s: Seq<char>, i: int, windows: bool) -> bool {
    &&& 0 <= i
    &&& i + 1 < s.len()
    &&& s[i] == '.'
    &&& s[i + 1] == '.'
    &&& (i == 0 || is_separator(s[i - 1], windows))
    &&& (i + 2 == s.len() || is_separator(s[i + 2], windows))
}

/// A path, taken relative to the repository, leads out of it: it starts at
/// a root, climbs with a `..` component, or (on Windows) names a drive.
pub open spec fn escapes_spec(s: Seq<char>, windows: bool) -> bool {
    ||| (s.len() > 0 && is_separator(s[0], windows))
    ||| (exists|i: int| parent_at(s, i, windows))
    ||| (windows && s.len() >= 2 && (('a' <= s[0] && s[0] <= 'z') || ('A' <= s[0] && s[0] <= 'Z'))
        && s[1] == ':')
}

fn separator(c: char, windows: bool) -> (b: bool)
    ensures
        b == is_separator(c, windows),
{
    c == '/' || (windows && c == '\\')
}

/// Whether a conflict file's path, which is to be opened inside the
/// repository, would lead out of it; `windows` selects Windows path rules.
pub fn escapes_repository(file_path: &str, windows: bool) -> (b: bool)
    ensures
        b == escapes_spec(file_path@, windows),
{
    let s = crate::text::chars_of(file_path);
    let n = s.len();
    if n > 0 && separator(s[0], windows) {
        return true;
    }
    if windows && n >= 2 && (('a' <= s[0] && s[0] <= 'z') || ('A' <= s[0] && s[0] <= 'Z')) && s[1] == ':' {
        return true;
    }
    let mut i: usize = 0;
    while i < n && i + 1 < n
        invariant
            i <= n,
            s@ == file_path@,
            n == s@.len(),
            forall|j: int| 0 <= j < i ==> !parent_at(s@, j, windows),
        decreases n - i,
    {
        if s[i] == '.' && s[i + 1] == '.' && (i == 0 || separator(s[i - 1], windows)) && (i + 2 == n
            || separator(s[i + 2], windows)) {
            assert(parent_at(s@, i as int, windows));
            return true;
        }
        i += 1;
    }
    assert forall|j: int| !parent_at(s@, j, windows) by {
        if 0 <= j && j < i {
        }
    }
    false
}

/// Whether some change is recorded as promoted.
pub open spec fn records_promotion(ws: Seq<WriteView>) -> bool {
    exists|i: int| 0 <= i < ws.len() && (#[trigger] ws[i]) is MarkPromoted
}

proof fn lemma_no_promotion_in(a: Seq<WriteView>, b: Seq<WriteView>)
    requires
        forall|i: int| 0 <= i < a.len() ==> !((#[trigger] a[i]) is MarkPromoted),
        forall|i: int| 0 <= i < b.len() ==> !((#[trigger] b[i]) is MarkPromoted),
    ensures
        !records_promotion(a + b),
{
    assert forall|i: int| 0 <= i < (a + b).len() implies !((#[trigger] (a + b)[i]) is MarkPromoted) by {
        if i < a.len() {
            assert((a + b)[i] == a[i]);
        } else {
            assert((a + b)[i] == b[i - a.len()]);
        }
    }
}

/// A run records a change as promoted only right after that change was
/// cherry-picked, and at the commit the promotion branch then points to:
/// one change per move, the one picked last.
pub proof fn promoted_at_its_own_commit(
    old: PromotionRun,
    ev: RunEvent,
    new: PromotionRun,
    ws: Seq<RunWrite>,
    act: RunAction,
)
    requires
        old.wf(),
        run_moves(old, ev, new, ws, act),
        records_promotion(write_views(ws)),
    ensures
        old.stage == RunStage::ReadingHead,
        old.cherry_picked@.len() > 0,
        old.cherry_picked@.last() == old.prs@[old.next - 1].pr_id,
        ev matches RunEvent::Head(h) && write_views(ws)[0] == WriteView::MarkPromoted(old.cherry_picked@.last(), h@),
        forall|i: int| 0 < i < write_views(ws).len() ==> !((#[trigger] write_views(ws)[i]) is MarkPromoted),
{
    let wv = write_views(ws);
    match old.stage {
        RunStage::Picking => {
            match ev {
                RunEvent::Picked(o) => {
                    if !o.success {
                        let pr = old.prs@[old.next as int];
                        let phase = if o.conflict_files@.len() > 0 {
                            Some(ConflictPhase::CherryPick)
                        } else {
                            None
                        };
                        let a = conflict_writes(pr.pr_id, strs(o.conflict_files@));
                        let b = seq![WriteView::MarkConflict(pr.pr_id, o.stderr@), WriteView::FailRun(phase)];
                        assert forall|i: int| 0 <= i < b.len() implies !((#[trigger] b[i]) is MarkPromoted) by {
                            if i == 0 {
                                assert(b[0] is MarkConflict);
                            } else {
                                assert(b[1] is FailRun);
                            }
                        }
                        lemma_no_promotion_in(a, b);
                    }
                },
                _ => {},
            }
        },
        RunStage::ReadingHead => {
            let k = old.next - 1;
            assert(old.cherry_picked@[k as int] == pr_ids(old.prs@).take(old.cherry_picked@.len() as int)[k as int]);
            assert(pr_ids(old.prs@)[k as int] == old.prs@[k as int].pr_id);
        },
        _ => {},
    }
}

/// A cherry-pick that does not apply ends the run: nothing after it is
/// picked, and the run is recorded as failed.
pub proof fn failed_pick_ends_run(
    old: PromotionRun,
    o: CherryPickOutcome,
    new: PromotionRun,
    ws: Seq<RunWrite>,
    act: RunAction,
)
    requires
        old.wf(),
        old.stage == RunStage::Picking,
        !o.success,
        run_moves(old, RunEvent::Picked(o), new, ws, act),
    ensures
        new.stage == RunStage::Finished,
        new.status == RunStatus::Failed,
        act@ == ActionView::Finish,
        write_views(ws).last() == WriteView::FailRun(new.conflict_phase),
{
}

/// A finished run asks for nothing more and changes nothing.
pub proof fn finished_run_stays_finished(
    old: PromotionRun,
    ev: RunEvent,
    new: PromotionRun,
    ws: Seq<RunWrite>,
    act: RunAction,
)
    requires
        old.stage == RunStage::Finished,
        run_moves(old, ev, new, ws, act),
    ensures
        new.stage == RunStage::Finished,
        new.status == old.status,
        ws.len() == 0,
        act@ == ActionView::Finish,
{
}

/// Changes are cherry-picked in the order given (oldest first): every pick
/// that a run asks for is of the change right after those already applied.
pub proof fn picks_follow_merge_order(
    old: PromotionRun,
    ev: RunEvent,
    new: PromotionRun,
    ws: Seq<RunWrite>,
    act: RunAction,
)
    requires
        old.wf(),
        run_moves(old, ev, new, ws, act),
        act@ is CherryPick,
    ensures
        new.stage == RunStage::Picking,
        new.next < new.prs@.len(),
        act@ == pick_action(new.prs@[new.next as int]),
        new.cherry_picked@ == pr_ids(new.prs@).take(new.next as int),
{
    assert(old.cherry_picked@.push(old.prs@[old.next as int].pr_id) =~= pr_ids(old.prs@).take(
        old.next + 1,
    ));
}

/// The change that a write is about, if any.
pub open spec fn write_change(w: WriteView) -> Option<i64> {
    match w {
        WriteView::MarkPromoting(id) => Some(id),
        WriteView::OpenConflict(id, _) => Some(id),
        WriteView::MarkConflict(id, _) => Some(id),
        WriteView::MarkPromoted(id, _) => Some(id),
        _ => None,
    }
}

/// Every write of `ws` that is about a change is about one of `ids`.
pub open spec fn writes_within(ws: Seq<WriteView>, ids: Seq<i64>) -> bool {
    forall|i: int| 0 <= i < ws.len() ==> (write_change(#[trigger] ws[i]) matches Some(id) ==> ids.contains(id))
}

proof fn lemma_writes_within_concat(a: Seq<WriteView>, b: Seq<WriteView>, ids: Seq<i64>)
    requires
        writes_within(a, ids),
        writes_within(b, ids),
    ensures
        writes_within(a + b, ids),
{
    assert forall|i: int| 0 <= i < (a + b).len() implies (write_change(#[trigger] (a + b)[i]) matches Some(
        id,
    ) ==> ids.contains(id)) by {
        if i < a.len() {
            assert((a + b)[i] == a[i]);
        } else {
            assert((a + b)[i] == b[i - a.len()]);
        }
    }
}

proof fn lemma_picked_are_selected(run: PromotionRun)
    requires
        run.wf(),
        run.cherry_picked@.len() <= run.prs@.len(),
    ensures
        forall|k: int| 0 <= k < run.cherry_picked@.len() ==> pr_ids(run.prs@).contains(
            #[trigger] run.cherry_picked@[k],
        ),
{
    assert forall|k: int| 0 <= k < run.cherry_picked@.len() implies pr_ids(run.prs@).contains(
        #[trigger] run.cherry_picked@[k],
    ) by {
        assert(pr_ids(run.prs@).len() == run.prs@.len());
        assert(run.cherry_picked@[k] == pr_ids(run.prs@).take(run.cherry_picked@.len() as int)[k]);
        assert(run.cherry_picked@[k] == pr_ids(run.prs@)[k]);
    }
}

/// A run records nothing about a change that was not selected for it: every
/// change it marks, opens a conflict for, or promotes is one of its own.
pub proof fn run_touches_only_selected_changes(
    old: PromotionRun,
    ev: RunEvent,
    new: PromotionRun,
    ws: Seq<RunWrite>,
    act: RunAction,
)
    requires
        old.wf(),
        run_moves(old, ev, new, ws, act),
    ensures
        writes_within(write_views(ws), pr_ids(old.prs@)),
{
    let ids = pr_ids(old.prs@);
    match old.stage {
        RunStage::Picking => {
            match ev {
                RunEvent::Picked(o) => {
                    let pr = old.prs@[old.next as int];
                    assert(ids[old.next as int] == pr.pr_id);
                    if o.success {
                        if old.next + 1 < old.prs@.len() {
                            assert(ids[old.next + 1] == old.prs@[old.next + 1].pr_id);
                        }
                    } else {
                        let phase = if o.conflict_files@.len() > 0 {
                            Some(ConflictPhase::CherryPick)
                        } else {
                            None
                        };
                        let a = conflict_writes(pr.pr_id, strs(o.conflict_files@));
                        let b = seq![WriteView::MarkConflict(pr.pr_id, o.stderr@), WriteView::FailRun(phase)];
                        assert(writes_within(a, ids));
                        assert(writes_within(b, ids));
                        lemma_writes_within_concat(a, b, ids);
                    }
                },
                _ => {},
            }
        },
        RunStage::ReadingHead => {
            let k = old.next - 1;
            assert(ids[k as int] == old.prs@[k as int].pr_id);
            if old.next < old.prs@.len() {
                assert(ids[old.next as int] == old.prs@[old.next as int].pr_id);
            }
        },
        _ => {},
    }
}

/// A run becomes resumable only when Git left files in conflict: a failed
/// Git command that did not is recorded as a plain failure.
pub proof fn resumable_only_on_conflict_files(
    old: PromotionRun,
    ev: RunEvent,
    new: PromotionRun,
    ws: Seq<RunWrite>,
    act: RunAction,
)
    requires
        old.wf(),
        run_moves(old, ev, new, ws, act),
        old.conflict_phase is None,
        new.conflict_phase is Some,
    ensures
        ev matches RunEvent::Picked(o) && o.conflict_files@.len() > 0,
        new.conflict_phase == Some(ConflictPhase::CherryPick),
{
}

/// Once the last change applied and was recorded, a run completes and
/// checks out again the branch that was checked out when it
/// started; it touches no other branch.
pub proof fn completed_run_restores_original_branch(
    old: PromotionRun,
    ev: RunEvent,
    new: PromotionRun,
    ws: Seq<RunWrite>,
    act: RunAction,
)
    requires
        old.wf(),
        old.stage == RunStage::ReadingHead,
        old.next == old.prs@.len(),
        run_moves(old, ev, new, ws, act),
    ensures
        new.status == RunStatus::Merged,
        write_views(ws).last() == WriteView::CompleteRun,
        act@ == ActionView::RestoreBranch(old.original_branch@),
{
}

/// The only Git work a run asks for besides picks onto the promotion branch
/// and reading its head is checking out the branch it started from: it
/// never asks to switch to, merge into, or delete any other branch.
pub proof fn run_switches_only_to_original_branch(
    old: PromotionRun,
    ev: RunEvent,
    new: PromotionRun,
    ws: Seq<RunWrite>,
    act: RunAction,
)
    requires
        old.wf(),
        run_moves(old, ev, new, ws, act),
    ensures
        act@ is CherryPick || act@ is ReadHead || act@ is Finish || act@ == ActionView::RestoreBranch(
            old.original_branch@,
        ),
{
}

/// When a continued run records a change as promoted, it is the queued
/// change it has just cherry-picked, at the commit the promotion branch
/// then points to; a run is finished only after every queued change went
/// through that.
pub proof fn continued_pick_promoted_at_its_commit(
    old: ContinueRun,
    ev: ContinueEvent,
    new: ContinueRun,
    act: ContinueActionView,
)
    requires
        old.wf(),
        continue_moves(old, ev, new, act),
    ensures
        act matches ContinueActionView::MarkPromoted(id, c) ==> {
            &&& old.stage == ContinueStage::ReadingPickHead
            &&& id == old.queue@[old.next as int].pr_id
            &&& ev matches ContinueEvent::Head(h) && h@ == c
        },
        (act is Finalize && old.stage == ContinueStage::Recording) ==> old.next + 1 == old.queue@.len(),
{
}

/// The status a write of a run stores for its change, if it stores one.
pub open spec fn stored_status(w: WriteView) -> Option<Seq<char>> {
    match w {
        WriteView::MarkPromoting(_) => Some("promoting"@),
        WriteView::MarkConflict(_, _) => Some("conflict"@),
        WriteView::MarkPromoted(_, _) => Some("promoted"@),
        _ => None,
    }
}

/// A refresh of the pipeline leaves alone every status that a run stores
/// for a change (being applied, in conflict, promoted), and the selected
/// status that starting or abandoning a run gives it: a refresh never
/// undoes a run's bookkeeping, whatever the change's place on the target.
pub proof fn refresh_keeps_what_runs_record(w: WriteView)
    ensures
        stored_status(w) matches Some(s) ==> crate::sync::is_settled(s),
        crate::sync::is_settled("selected"@),
        crate::sync::is_settled("promoting"@),
{
}

/// A continued run whose conflicted change was finished by hand goes on:
/// once HEAD is found to carry the change, the run reads HEAD to record it
/// and never fails; the run gives up on the lost cherry-pick only when
/// neither a cherry-pick is in progress nor the change was applied by hand.
pub proof fn hand_finished_pick_continues(
    old: ContinueRun,
    ev: ContinueEvent,
    new: ContinueRun,
    act: ContinueActionView,
)
    requires
        old.wf(),
        continue_moves(old, ev, new, act),
    ensures
        (old.stage == ContinueStage::CheckManualPick && ev == ContinueEvent::Flag(true)) ==> {
            &&& act == ContinueActionView::ReadHead
            &&& new.stage == ContinueStage::ReadingResolvedHead
        },
        (old.stage == ContinueStage::CheckCherryPick && ev == ContinueEvent::Flag(true)) ==> act
            == ContinueActionView::ContinueCherryPick,
        act == ContinueActionView::Fail(lost_cherry_pick_message()) ==> (old.stage
            == ContinueStage::CheckManualPick && ev == ContinueEvent::Flag(false)),
{
    if old.stage == ContinueStage::ReadBranch {
        if let ContinueEvent::Branch(cur) = ev {
            if cur@ != old.branch_name@ {
                reveal_strlit("Repository is on '");
                reveal_strlit(
                    "Git is no longer in the expected cherry-pick. Return the repository to the promotion branch\u{2019}s conflict state, or abort this run.",
                );
                let w = wrong_branch_message(cur@, old.branch_name@);
                assert(w[0] == 'R');
                assert(lost_cherry_pick_message()[0] == 'G');
            }
        }
    }
}

} // verus!
