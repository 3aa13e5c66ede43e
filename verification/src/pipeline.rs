//! The issue pipeline and the batch driver.
//!
//! One issue's pipeline is a state machine. The tool layer repeatedly asks
//! for the pending action (`next_action`), performs it — a collaborator
//! call, a provenance write, or one supervised run — and reports what
//! happened (`apply`). The machine decides everything: whether the issue is
//! skipped, when it is abandoned after a collaborator failure, and which
//! run comes next. The batch driver iterates the ordered records; an
//! issue's failure never touches the issues after it.

use vstd::prelude::*;
use vstd::string::StrSliceExecFns;
use vstd::string::StringSliceAdditionalSpecFns;

use crate::bytes::copy_bytes;
use crate::bytes::push_all;
use crate::record::HarnessConfig;
use crate::record::IssueRecord;
use crate::record::resolve_commit;
use crate::record::resolved_commit;
use crate::record::run_command;
use crate::record::run_command_bytes;
use crate::store::issue_dir;
use crate::store::issue_dir_path;
use crate::store::run_dir;
use crate::store::run_dir_path;

verus! {

/// How one issue ended.
#[derive(Debug, Clone, Copy, PartialEq, Eq, Structural)]
pub enum IssueStatus {
    /// The record's revision was missing or blank; nothing was done.
    Skipped,
    /// The checkout collaborator failed; the issue was abandoned whole.
    CheckoutFailed,
    /// The cache-reset collaborator failed after provenance was written.
    CacheResetFailed,
    /// Every run was attempted.
    Completed,
}

/// Where one issue's pipeline stands.
#[derive(Debug, Clone, Copy, PartialEq, Eq, Structural)]
pub enum IssuePhase {
    /// The revision must be checked out next.
    AwaitingCheckout,
    /// The issue directory and its provenance file must be written next.
    AwaitingProvenance,
    /// The cache-reset collaborator must run next.
    AwaitingCacheReset,
    /// Run number `next_run` must be supervised next.
    AwaitingRun { next_run: u64 },
    /// Nothing is left to do.
    Finished { status: IssueStatus },
}

/// What the tool layer reports back after performing an action.
#[derive(Debug, Clone, Copy, PartialEq, Eq, Structural)]
pub enum PipelineEvent {
    /// The checkout collaborator finished, successfully or not.
    CheckoutFinished { ok: bool },
    /// The issue directory exists and the provenance file is written.
    ProvenanceWritten,
    /// The cache-reset collaborator finished, successfully or not.
    CacheResetFinished { ok: bool },
    /// One supervised run finished; its outcome, whatever it was, was
    /// recorded as artifacts and does not steer the pipeline.
    RunFinished,
}

/// The pending piece of outside work of one issue.
#[derive(Debug, Clone, PartialEq, Eq)]
pub enum PipelineAction {
    /// Nothing is left; log how the issue ended.
    Report { status: IssueStatus },
    /// Check out this revision.
    Checkout { revision: Vec<u8> },
    /// Create the issue directory and persist the resolved revision.
    WriteProvenance { dir: Vec<u8>, content: Vec<u8> },
    /// Reset the workload's build cache.
    ResetCache,
    /// Supervise one run of `command` under `time_limit_secs`, writing the
    /// three artifacts into `run_dir`.
    RunSimulation { run_dir: Vec<u8>, command: Vec<u8>, run_index: u64, time_limit_secs: u64 },
}

/// Bytes of the provenance file: the resolved revision and a newline.
pub open spec fn provenance_bytes(commit: Seq<u8>) -> Seq<u8> {
    commit + "\n".spec_bytes()
}

/// The phase an issue record starts in: finished immediately when its
/// revision is missing or blank, otherwise awaiting checkout.
pub open spec fn start_phase(r: IssueRecord) -> IssuePhase {
    if resolved_commit(r) is None {
        IssuePhase::Finished { status: IssueStatus::Skipped }
    } else {
        IssuePhase::AwaitingCheckout
    }
}

/// The phase after one reported event. An event that does not answer the
/// pending action leaves the phase unchanged, and a finished phase absorbs
/// every event.
pub open spec fn step_phase(ph: IssuePhase, ev: PipelineEvent, runs: u64) -> IssuePhase {
    match (ph, ev) {
        (IssuePhase::AwaitingCheckout, PipelineEvent::CheckoutFinished { ok }) => if ok {
            IssuePhase::AwaitingProvenance
        } else {
            IssuePhase::Finished { status: IssueStatus::CheckoutFailed }
        },
        (IssuePhase::AwaitingProvenance, PipelineEvent::ProvenanceWritten) => {
            IssuePhase::AwaitingCacheReset
        },
        (IssuePhase::AwaitingCacheReset, PipelineEvent::CacheResetFinished { ok }) => if !ok {
            IssuePhase::Finished { status: IssueStatus::CacheResetFailed }
        } else if runs == 0 {
            IssuePhase::Finished { status: IssueStatus::Completed }
        } else {
            IssuePhase::AwaitingRun { next_run: 1 }
        },
        (IssuePhase::AwaitingRun { next_run }, PipelineEvent::RunFinished) => if next_run < runs {
            IssuePhase::AwaitingRun { next_run: (next_run + 1) as u64 }
        } else {
            IssuePhase::Finished { status: IssueStatus::Completed }
        },
        _ => ph,
    }
}

/// The phase after a whole sequence of reported events.
pub open spec fn phase_after(ph: IssuePhase, evs: Seq<PipelineEvent>, runs: u64) -> IssuePhase
    decreases evs.len(),
{
    if evs.len() == 0 {
        ph
    } else {
        phase_after(step_phase(ph, evs[0], runs), evs.skip(1), runs)
    }
}

/// The phases whose pending action writes into the result store.
pub open spec fn writes_to_store(ph: IssuePhase) -> bool {
    ph matches IssuePhase::AwaitingProvenance || ph matches IssuePhase::AwaitingRun { .. }
}

/// One issue's pipeline: the record's resolved pieces and the phase.
#[derive(Debug, Clone, PartialEq, Eq)]
pub struct IssuePipeline {
    /// Id of the issue this pipeline works for.
    pub issue_id: u64,
    /// The resolved revision (empty for a skipped record).
    pub commit: Vec<u8>,
    /// The record's option string.
    pub opts: Vec<u8>,
    /// The process-wide configuration.
    pub config: HarnessConfig,
    /// Where the pipeline stands.
    pub phase: IssuePhase,
}

impl IssuePipeline {
    /// Run numbers stay within 1..=runs_per_issue.
    pub open spec fn wf(self) -> bool {
        match self.phase {
            IssuePhase::AwaitingRun { next_run } => 1 <= next_run
                <= self.config.runs_per_issue,
            _ => true,
        }
    }

    /// Starts the pipeline of one record: skipped outright when the
    /// revision is missing or blank, otherwise awaiting checkout of the
    /// resolved revision.
    pub fn new(r: &IssueRecord, config: &HarnessConfig) -> (p: IssuePipeline)
        ensures
            p.wf(),
            p.issue_id == r.issue_id,
            p.opts@ == r.opts@,
            p.config == *config,
            p.phase == start_phase(*r),
            resolved_commit(*r) matches Some(c) ==> p.commit@ == c,
    {
        let opts = copy_bytes(r.opts.as_slice());
        match resolve_commit(r) {
            None => IssuePipeline {
                issue_id: r.issue_id,
                commit: Vec::new(),
                opts,
                config: *config,
                phase: IssuePhase::Finished { status: IssueStatus::Skipped },
            },
            Some(commit) => IssuePipeline {
                issue_id: r.issue_id,
                commit,
                opts,
                config: *config,
                phase: IssuePhase::AwaitingCheckout,
            },
        }
    }

    /// The pending action of the current phase.
    pub fn next_action(&self) -> (a: PipelineAction)
        requires
            self.wf(),
        ensures
            match self.phase {
                IssuePhase::AwaitingCheckout => a matches PipelineAction::Checkout { revision }
                    && revision@ == self.commit@,
                IssuePhase::AwaitingProvenance => a matches PipelineAction::WriteProvenance {
                    dir,
                    content,
                } && dir@ == issue_dir_path(self.issue_id) && content@ == provenance_bytes(
                    self.commit@,
                ),
                IssuePhase::AwaitingCacheReset => a == PipelineAction::ResetCache,
                IssuePhase::AwaitingRun { next_run } => a
                    matches PipelineAction::RunSimulation {
                    run_dir,
                    command,
                    run_index,
                    time_limit_secs,
                } && run_dir@ == run_dir_path(self.issue_id, next_run) && command@
                    == run_command_bytes(self.opts@) && run_index == next_run && time_limit_secs
                    == self.config.time_limit_secs,
                IssuePhase::Finished { status } => a == (PipelineAction::Report { status }),
            },
    {
        match self.phase {
            IssuePhase::AwaitingCheckout => PipelineAction::Checkout {
                revision: copy_bytes(self.commit.as_slice()),
            },
            IssuePhase::AwaitingProvenance => {
                let dir = issue_dir(self.issue_id);
                let mut content = copy_bytes(self.commit.as_slice());
                let newline = "\n".as_bytes_vec();
                push_all(&mut content, newline.as_slice());
                PipelineAction::WriteProvenance { dir, content }
            },
            IssuePhase::AwaitingCacheReset => PipelineAction::ResetCache,
            IssuePhase::AwaitingRun { next_run } => PipelineAction::RunSimulation {
                run_dir: run_dir(self.issue_id, next_run),
                command: run_command(&self.opts),
                run_index: next_run,
                time_limit_secs: self.config.time_limit_secs,
            },
            IssuePhase::Finished { status } => PipelineAction::Report { status },
        }
    }

    /// Advances the phase by one reported event.
    pub fn apply(&mut self, ev: PipelineEvent)
        requires
            old(self).wf(),
        ensures
            final(self).wf(),
            final(self).phase == step_phase(
                old(self).phase,
                ev,
                old(self).config.runs_per_issue,
            ),
            final(self).issue_id == old(self).issue_id,
            final(self).commit == old(self).commit,
            final(self).opts == old(self).opts,
            final(self).config == old(self).config,
    {
        let runs = self.config.runs_per_issue;
        match (self.phase, ev) {
            (IssuePhase::AwaitingCheckout, PipelineEvent::CheckoutFinished { ok }) => {
                self.phase = if ok {
                    IssuePhase::AwaitingProvenance
                } else {
                    IssuePhase::Finished { status: IssueStatus::CheckoutFailed }
                };
            },
            (IssuePhase::AwaitingProvenance, PipelineEvent::ProvenanceWritten) => {
                self.phase = IssuePhase::AwaitingCacheReset;
            },
            (IssuePhase::AwaitingCacheReset, PipelineEvent::CacheResetFinished { ok }) => {
                self.phase = if !ok {
                    IssuePhase::Finished { status: IssueStatus::CacheResetFailed }
                } else if runs == 0 {
                    IssuePhase::Finished { status: IssueStatus::Completed }
                } else {
                    IssuePhase::AwaitingRun { next_run: 1 }
                };
            },
            (IssuePhase::AwaitingRun { next_run }, PipelineEvent::RunFinished) => {
                self.phase = if next_run < runs {
                    IssuePhase::AwaitingRun { next_run: next_run + 1 }
                } else {
                    IssuePhase::Finished { status: IssueStatus::Completed }
                };
            },
            _ => {},
        }
    }
}

/// A finished pipeline stays finished: no sequence of events moves it.
pub proof fn lemma_finished_is_terminal(st: IssueStatus, evs: Seq<PipelineEvent>, runs: u64)
    ensures
        phase_after(IssuePhase::Finished { status: st }, evs, runs) == (IssuePhase::Finished {
            status: st,
        }),
    decreases evs.len(),
{
    if evs.len() > 0 {
        lemma_finished_is_terminal(st, evs.skip(1), runs);
    }
}

/// A record whose revision is missing or blank produces nothing: its
/// pipeline starts finished as skipped, stays there under every sequence of
/// events, and so never reaches a phase that writes into the result store.
pub proof fn lemma_skipped_issue_writes_nothing(
    r: IssueRecord,
    evs: Seq<PipelineEvent>,
    runs: u64,
)
    requires
        resolved_commit(r) is None,
    ensures
        forall|i: int|
            0 <= i <= evs.len() ==> !writes_to_store(
                phase_after(start_phase(r), #[trigger] evs.take(i), runs),
            ),
        phase_after(start_phase(r), evs, runs) == (IssuePhase::Finished {
            status: IssueStatus::Skipped,
        }),
{
    assert forall|i: int| 0 <= i <= evs.len() implies !writes_to_store(
        phase_after(start_phase(r), #[trigger] evs.take(i), runs),
    ) by {
        lemma_finished_is_terminal(IssueStatus::Skipped, evs.take(i), runs);
    }
    lemma_finished_is_terminal(IssueStatus::Skipped, evs, runs);
}

/// A checkout failure abandons the issue whole: when the first reported
/// event is a failed checkout, no phase the pipeline ever passes through
/// writes into the result store, and it finishes as checkout-failed.
pub proof fn lemma_checkout_failure_writes_nothing(
    r: IssueRecord,
    evs: Seq<PipelineEvent>,
    runs: u64,
)
    requires
        resolved_commit(r) is Some,
        evs.len() >= 1,
        evs[0] == (PipelineEvent::CheckoutFinished { ok: false }),
    ensures
        forall|i: int|
            0 <= i <= evs.len() ==> !writes_to_store(
                phase_after(start_phase(r), #[trigger] evs.take(i), runs),
            ),
        phase_after(start_phase(r), evs, runs) == (IssuePhase::Finished {
            status: IssueStatus::CheckoutFailed,
        }),
{
    let failed = IssuePhase::Finished { status: IssueStatus::CheckoutFailed };
    assert forall|i: int| 0 <= i <= evs.len() implies !writes_to_store(
        phase_after(start_phase(r), #[trigger] evs.take(i), runs),
    ) by {
        let pre = evs.take(i);
        if i == 0 {
            assert(pre.len() == 0);
        } else {
            assert(pre[0] == evs[0]);
            assert(step_phase(start_phase(r), pre[0], runs) == failed);
            lemma_finished_is_terminal(IssueStatus::CheckoutFailed, pre.skip(1), runs);
        }
    }
    assert(step_phase(start_phase(r), evs[0], runs) == failed);
    lemma_finished_is_terminal(IssueStatus::CheckoutFailed, evs.skip(1), runs);
}

/// A cache-reset failure stops the issue before its first run: when the
/// checkout succeeded and provenance was written but the reset then
/// failed, the pipeline finishes as cache-reset-failed and never passes
/// through a phase that performs a run.
pub proof fn lemma_cache_failure_stops_runs(r: IssueRecord, evs: Seq<PipelineEvent>, runs: u64)
    requires
        resolved_commit(r) is Some,
        evs.len() >= 3,
        evs[0] == (PipelineEvent::CheckoutFinished { ok: true }),
        evs[1] == PipelineEvent::ProvenanceWritten,
        evs[2] == (PipelineEvent::CacheResetFinished { ok: false }),
    ensures
        forall|i: int|
            0 <= i <= evs.len() ==> !(phase_after(start_phase(r), #[trigger] evs.take(i), runs)
                matches IssuePhase::AwaitingRun { .. }),
        phase_after(start_phase(r), evs, runs) == (IssuePhase::Finished {
            status: IssueStatus::CacheResetFailed,
        }),
{
    let p0 = start_phase(r);
    let p1 = IssuePhase::AwaitingProvenance;
    let p2 = IssuePhase::AwaitingCacheReset;
    let p3 = IssuePhase::Finished { status: IssueStatus::CacheResetFailed };
    assert(phase_after(p0, evs.take(3), runs) == p3) by {
        let t = evs.take(3);
        assert(t[0] == evs[0]);
        assert(step_phase(p0, t[0], runs) == p1);
        let t1 = t.skip(1);
        assert(t1[0] == evs[1]);
        assert(step_phase(p1, t1[0], runs) == p2);
        let t2 = t1.skip(1);
        assert(t2[0] == evs[2]);
        assert(step_phase(p2, t2[0], runs) == p3);
        let t3 = t2.skip(1);
        assert(t3.len() == 0);
        assert(phase_after(p3, t3, runs) == p3);
        assert(phase_after(p2, t2, runs) == p3);
        assert(phase_after(p1, t1, runs) == p3);
    }
    assert forall|i: int| 0 <= i <= evs.len() implies !(phase_after(
        p0,
        #[trigger] evs.take(i),
        runs,
    ) matches IssuePhase::AwaitingRun { .. }) by {
        let t = evs.take(i);
        if i == 0 {
            assert(t.len() == 0);
        } else if i == 1 {
            assert(t[0] == evs[0]);
            assert(step_phase(p0, t[0], runs) == p1);
            assert(t.skip(1).len() == 0);
            assert(phase_after(p1, t.skip(1), runs) == p1);
        } else if i == 2 {
            assert(t[0] == evs[0]);
            assert(step_phase(p0, t[0], runs) == p1);
            let t1 = t.skip(1);
            assert(t1[0] == evs[1]);
            assert(step_phase(p1, t1[0], runs) == p2);
            assert(t1.skip(1).len() == 0);
            assert(phase_after(p2, t1.skip(1), runs) == p2);
        } else {
            let rest = evs.subrange(3, i);
            assert(t =~= evs.take(3) + rest);
            lemma_phase_after_concat(p0, evs.take(3), rest, runs);
            lemma_finished_is_terminal(IssueStatus::CacheResetFailed, rest, runs);
        }
    }
    let rest = evs.subrange(3, evs.len() as int);
    assert(evs =~= evs.take(3) + rest);
    lemma_phase_after_concat(p0, evs.take(3), rest, runs);
    lemma_finished_is_terminal(IssueStatus::CacheResetFailed, rest, runs);
}

/// Running the machine over concatenated event sequences composes.
pub proof fn lemma_phase_after_concat(
    ph: IssuePhase,
    evs1: Seq<PipelineEvent>,
    evs2: Seq<PipelineEvent>,
    runs: u64,
)
    ensures
        phase_after(ph, evs1 + evs2, runs) == phase_after(phase_after(ph, evs1, runs), evs2, runs),
    decreases evs1.len(),
{
    if evs1.len() == 0 {
        assert(evs1 + evs2 =~= evs2);
    } else {
        assert((evs1 + evs2)[0] == evs1[0]);
        assert((evs1 + evs2).skip(1) =~= evs1.skip(1) + evs2);
        lemma_phase_after_concat(step_phase(ph, evs1[0], runs), evs1.skip(1), evs2, runs);
    }
}

proof fn lemma_runs_progress(k: u64, j: nat, runs: u64)
    requires
        1 <= k,
        k + j <= runs,
    ensures
        phase_after(
            IssuePhase::AwaitingRun { next_run: k },
            Seq::new(j, |i: int| PipelineEvent::RunFinished),
            runs,
        ) == (IssuePhase::AwaitingRun { next_run: (k + j) as u64 }),
    decreases j,
{
    let evs = Seq::new(j, |i: int| PipelineEvent::RunFinished);
    if j > 0 {
        assert(evs[0] == PipelineEvent::RunFinished);
        assert(k < runs);
        assert(step_phase(IssuePhase::AwaitingRun { next_run: k }, evs[0], runs)
            == (IssuePhase::AwaitingRun { next_run: (k + 1) as u64 }));
        assert(evs.skip(1) =~= Seq::new((j - 1) as nat, |i: int| PipelineEvent::RunFinished));
        lemma_runs_progress((k + 1) as u64, (j - 1) as nat, runs);
    }
}

/// The event sequence of an issue whose collaborators both succeed and
/// whose every run is carried out.
pub open spec fn success_events(runs: u64) -> Seq<PipelineEvent> {
    seq![
        PipelineEvent::CheckoutFinished { ok: true },
        PipelineEvent::ProvenanceWritten,
        PipelineEvent::CacheResetFinished { ok: true },
    ] + Seq::new(runs as nat, |i: int| PipelineEvent::RunFinished)
}

/// A successfully checked-out issue performs exactly `runs` supervised
/// runs, numbered contiguously from 1, and then finishes completed: before
/// run `k` the pipeline stands in the phase whose action is run `k`, and
/// after the last run nothing is pending.
pub proof fn lemma_successful_issue_runs_all(r: IssueRecord, runs: u64)
    requires
        resolved_commit(r) is Some,
        runs >= 1,
    ensures
        forall|k: u64|
            1 <= k <= runs ==> phase_after(
                start_phase(r),
                #[trigger] success_events(runs).take(2 + k),
                runs,
            ) == (IssuePhase::AwaitingRun { next_run: k }),
        phase_after(start_phase(r), success_events(runs), runs) == (IssuePhase::Finished {
            status: IssueStatus::Completed,
        }),
{
    let evs = success_events(runs);
    let head = seq![
        PipelineEvent::CheckoutFinished { ok: true },
        PipelineEvent::ProvenanceWritten,
        PipelineEvent::CacheResetFinished { ok: true },
    ];
    assert(phase_after(start_phase(r), head, runs) == (IssuePhase::AwaitingRun { next_run: 1 }))
        by {
        let ph1 = step_phase(start_phase(r), head[0], runs);
        assert(ph1 == IssuePhase::AwaitingProvenance);
        let t1 = head.skip(1);
        assert(t1[0] == PipelineEvent::ProvenanceWritten);
        let ph2 = step_phase(ph1, t1[0], runs);
        assert(ph2 == IssuePhase::AwaitingCacheReset);
        let t2 = t1.skip(1);
        assert(t2[0] == PipelineEvent::CacheResetFinished { ok: true });
        let ph3 = step_phase(ph2, t2[0], runs);
        assert(ph3 == IssuePhase::AwaitingRun { next_run: 1 });
        let t3 = t2.skip(1);
        assert(t3.len() == 0);
        assert(phase_after(ph3, t3, runs) == ph3);
        assert(phase_after(ph2, t2, runs) == ph3);
        assert(phase_after(ph1, t1, runs) == ph3);
        assert(phase_after(start_phase(r), head, runs) == ph3);
    }
    assert forall|k: u64|
        1 <= k <= runs implies phase_after(start_phase(r), #[trigger] evs.take(2 + k), runs)
        == (IssuePhase::AwaitingRun { next_run: k }) by {
        let j = (k - 1) as nat;
        let tail = Seq::new(j, |i: int| PipelineEvent::RunFinished);
        assert(evs.take(2 + k) =~= head + tail);
        lemma_phase_after_concat(start_phase(r), head, tail, runs);
        lemma_runs_progress(1, j, runs);
    }
    let all_runs = Seq::new(runs as nat, |i: int| PipelineEvent::RunFinished);
    let most_runs = Seq::new((runs - 1) as nat, |i: int| PipelineEvent::RunFinished);
    let last = seq![PipelineEvent::RunFinished];
    assert(evs =~= head + all_runs);
    lemma_phase_after_concat(start_phase(r), head, all_runs, runs);
    assert(all_runs =~= most_runs + last);
    lemma_phase_after_concat(
        IssuePhase::AwaitingRun { next_run: 1 },
        most_runs,
        last,
        runs,
    );
    lemma_runs_progress(1, (runs - 1) as nat, runs);
    assert(last[0] == PipelineEvent::RunFinished);
    let done = IssuePhase::Finished { status: IssueStatus::Completed };
    assert(step_phase(IssuePhase::AwaitingRun { next_run: runs }, last[0], runs) == done);
    assert(last.skip(1).len() == 0);
    assert(phase_after(done, last.skip(1), runs) == done);
    assert(phase_after(IssuePhase::AwaitingRun { next_run: runs }, last, runs) == done);
    assert(phase_after(IssuePhase::AwaitingRun { next_run: 1 }, most_runs, runs)
        == (IssuePhase::AwaitingRun { next_run: runs }));
    assert(phase_after(IssuePhase::AwaitingRun { next_run: 1 }, all_runs, runs) == done);
    assert(phase_after(start_phase(r), evs, runs) == done);
}

/// The batch driver: hands the ordered issue records out one by one.
#[derive(Debug, Clone, PartialEq, Eq)]
pub struct BatchDriver {
    /// The records of the batch, in source order.
    pub records: Vec<IssueRecord>,
    /// The process-wide configuration.
    pub config: HarnessConfig,
    /// Index of the next record to hand out.
    pub next_index: usize,
}

impl BatchDriver {
    /// Starts a batch at its first record.
    pub fn new(records: Vec<IssueRecord>, config: HarnessConfig) -> (d: BatchDriver)
        ensures
            d.records == records,
            d.config == config,
            d.next_index == 0,
    {
        BatchDriver { records, config, next_index: 0 }
    }

    /// Hands out the pipeline of the next record, in source order. The
    /// driver advances unconditionally: how an earlier issue ended has no
    /// bearing on the ones after it.
    pub fn next_issue(&mut self) -> (p: Option<IssuePipeline>)
        ensures
            final(self).records == old(self).records,
            final(self).config == old(self).config,
            old(self).next_index >= old(self).records.len() ==> p is None && final(self).next_index
                == old(self).next_index,
            old(self).next_index < old(self).records.len() ==> {
                &&& final(self).next_index == old(self).next_index + 1
                &&& p matches Some(pl)
                &&& pl.wf()
                &&& pl.issue_id == old(self).records[old(self).next_index as int].issue_id
                &&& pl.opts@ == old(self).records[old(self).next_index as int].opts@
                &&& pl.config == old(self).config
                &&& pl.phase == start_phase(old(self).records[old(self).next_index as int])
                &&& (resolved_commit(old(self).records[old(self).next_index as int]) matches Some(
                    c,
                ) ==> pl.commit@ == c)
            },
    {
        if self.next_index >= self.records.len() {
            return None;
        }
        let r: &IssueRecord = &self.records[self.next_index];
        let pl = IssuePipeline::new(r, &self.config);
        self.next_index = self.next_index + 1;
        Some(pl)
    }
}

} // verus!
