//! Carrying out a job, one step at a time. The caller connects to the
//! printer and sends it the directives; the session decides, from how each
//! step went, what is done next, so that a step that fails is the last one.

use crate::printer::{cut_comes_last, Directive, DirectiveView, PrintJob, PrintJobView};
use vstd::prelude::*;

verus! {

/// How far a job has been carried out.
#[derive(Clone, Copy, Debug, PartialEq, Eq, Structural)]
pub enum Stage {
    /// Nothing is done yet: the printer is to be connected to.
    Connecting,
    /// The connection stands, the directives before this one went well, and
    /// this one is to be sent.
    Sending(usize),
    /// The connection and every directive went well.
    Completed,
    /// A step failed. Nothing was done after it.
    Failed,
}

/// What the caller is to do next.
#[derive(Debug, PartialEq, Eq)]
pub enum Step<'a> {
    /// Connect to the printer at this host and port.
    Connect { address: &'a str, port: u16 },
    /// Send this directive.
    Issue(&'a Directive),
    /// Report that the job is printed.
    Finish,
    /// Report the failure of the step that failed.
    Abort,
}

/// What a `Step` holds.
pub enum StepView {
    Connect { address: Seq<char>, port: u16 },
    Issue(DirectiveView),
    Finish,
    Abort,
}

impl<'a> View for Step<'a> {
    type V = StepView;

    open spec fn view(&self) -> StepView {
        match self {
            Step::Connect { address, port } => StepView::Connect { address: address@, port: *port },
            Step::Issue(directive) => StepView::Issue(directive@),
            Step::Finish => StepView::Finish,
            Step::Abort => StepView::Abort,
        }
    }
}

/// The step that is due in `stage`.
pub open spec fn step_in(job: PrintJobView, stage: Stage) -> StepView {
    match stage {
        Stage::Connecting => StepView::Connect { address: job.address, port: job.port },
        Stage::Sending(i) => StepView::Issue(job.directives[i as int]),
        Stage::Completed => StepView::Finish,
        Stage::Failed => StepView::Abort,
    }
}

/// The stage that follows `stage` in a job of `count` directives, once the
/// step that was due in `stage` went well (`ok`) or failed.
pub open spec fn stage_after(count: nat, stage: Stage, ok: bool) -> Stage {
    match stage {
        Stage::Connecting => if !ok {
            Stage::Failed
        } else if count == 0 {
            Stage::Completed
        } else {
            Stage::Sending(0)
        },
        Stage::Sending(i) => if !ok {
            Stage::Failed
        } else if i + 1 < count {
            Stage::Sending((i + 1) as usize)
        } else {
            Stage::Completed
        },
        Stage::Completed => Stage::Completed,
        Stage::Failed => Stage::Failed,
    }
}

/// The stage of a job of `count` directives once its steps went as
/// `outcomes` says, the first outcome being that of the connection.
pub open spec fn stage_reached(count: nat, outcomes: Seq<bool>) -> Stage
    decreases outcomes.len(),
{
    if outcomes.len() == 0 {
        Stage::Connecting
    } else {
        stage_after(count, stage_reached(count, outcomes.drop_last()), outcomes.last())
    }
}

/// A directive is due only after the connection and every directive before
/// it went well, and each directive is due once they did.
pub proof fn lemma_sending(count: nat, outcomes: Seq<bool>, i: usize)
    requires
        count <= usize::MAX,
    ensures
        stage_reached(count, outcomes) == Stage::Sending(i) <==> {
            &&& i < count
            &&& outcomes.len() == i + 1
            &&& forall|k: int| 0 <= k < outcomes.len() ==> outcomes[k]
        },
    decreases outcomes.len(),
{
    if outcomes.len() > 0 {
        let before = outcomes.drop_last();
        if i > 0 {
            lemma_sending(count, before, (i - 1) as usize);
        }
        match stage_reached(count, before) {
            Stage::Sending(j) => {
                lemma_sending(count, before, j);
            },
            Stage::Connecting => {
                lemma_connecting(count, before);
            },
            _ => {},
        }
        if outcomes.len() == i + 1 && i < count && (forall|k: int|
            0 <= k < outcomes.len() ==> outcomes[k]) {
            assert(outcomes.last());
            assert forall|k: int| 0 <= k < before.len() implies before[k] by {
                assert(before[k] == outcomes[k]);
            }
            if i == 0 {
                assert(before.len() == 0);
            }
        }
        if stage_reached(count, outcomes) == Stage::Sending(i) {
            assert forall|k: int| 0 <= k < outcomes.len() implies outcomes[k] by {
                if k < before.len() {
                    assert(before[k] == outcomes[k]);
                }
            }
        }
    }
}

/// Only a job of which no step has been taken is still to connect.
pub proof fn lemma_connecting(count: nat, outcomes: Seq<bool>)
    ensures
        stage_reached(count, outcomes) == Stage::Connecting <==> outcomes.len() == 0,
    decreases outcomes.len(),
{
}

/// A job fails exactly if one of its steps failed: the connection, or a
/// directive that was sent.
pub proof fn lemma_failed(count: nat, outcomes: Seq<bool>)
    requires
        count <= usize::MAX,
    ensures
        stage_reached(count, outcomes) == Stage::Failed <==> exists|k: int|
            0 <= k < outcomes.len() && k <= count && !outcomes[k],
    decreases outcomes.len(),
{
    if outcomes.len() > 0 {
        let before = outcomes.drop_last();
        lemma_failed(count, before);
        lemma_connecting(count, before);
        match stage_reached(count, before) {
            Stage::Sending(j) => {
                lemma_sending(count, before, j);
            },
            Stage::Completed => {
                lemma_completed(count, before);
            },
            _ => {},
        }
        let failed = exists|k: int| 0 <= k < outcomes.len() && k <= count && !outcomes[k];
        let failed_before = exists|k: int| 0 <= k < before.len() && k <= count && !before[k];
        if failed_before {
            let k = choose|k: int| 0 <= k < before.len() && k <= count && !before[k];
            assert(!outcomes[k]);
        }
        if failed && !failed_before {
            let k = choose|k: int| 0 <= k < outcomes.len() && k <= count && !outcomes[k];
            if k < before.len() {
                assert(!before[k]);
            }
            assert(k == outcomes.len() - 1);
            assert forall|j: int| 0 <= j < before.len() implies before[j] by {
                assert(j <= count);
            }
        }
        if stage_reached(count, outcomes) == Stage::Failed && !failed_before {
            assert(!outcomes.last());
            assert(!outcomes[outcomes.len() - 1]);
        }
    }
}

/// A job is completed exactly if the connection and all of its directives
/// went well.
pub proof fn lemma_completed(count: nat, outcomes: Seq<bool>)
    requires
        count <= usize::MAX,
    ensures
        stage_reached(count, outcomes) == Stage::Completed <==> {
            &&& outcomes.len() > count
            &&& forall|k: int| 0 <= k <= count ==> outcomes[k]
        },
    decreases outcomes.len(),
{
    if outcomes.len() > 0 {
        let before = outcomes.drop_last();
        lemma_completed(count, before);
        lemma_connecting(count, before);
        match stage_reached(count, before) {
            Stage::Sending(j) => {
                lemma_sending(count, before, j);
            },
            _ => {},
        }
        if count > 0 {
            lemma_sending(count, before, (count - 1) as usize);
        }
        if outcomes.len() > count && (forall|k: int| 0 <= k <= count ==> outcomes[k]) {
            assert forall|k: int| 0 <= k < before.len() && k <= count implies before[k] by {
                assert(before[k] == outcomes[k]);
            }
            if before.len() == count {
                assert(outcomes[count as int]);
                assert(outcomes.last());
            }
        }
        if stage_reached(count, outcomes) == Stage::Completed {
            assert forall|k: int| 0 <= k <= count implies outcomes[k] by {
                if k < before.len() {
                    assert(before[k] == outcomes[k]);
                }
            }
        }
    }
}

/// When the connection fails, no directive is ever due: whatever is
/// reported afterwards, the job has failed and stays so.
pub proof fn lemma_failed_connection_sends_nothing(job: PrintJobView, outcomes: Seq<bool>)
    requires
        job.directives.len() <= usize::MAX,
        outcomes.len() > 0,
        !outcomes[0],
    ensures
        stage_reached(job.directives.len(), outcomes) == Stage::Failed,
        step_in(job, stage_reached(job.directives.len(), outcomes)) == StepView::Abort,
{
    lemma_failed(job.directives.len(), outcomes);
}

/// In a job that ends with the cut and cuts nowhere else, the cut is due
/// only after the connection and every other directive went well.
pub proof fn lemma_cut_is_due_last(job: PrintJobView, outcomes: Seq<bool>)
    requires
        job.directives.len() <= usize::MAX,
        cut_comes_last(job.directives),
        step_in(job, stage_reached(job.directives.len(), outcomes)) == StepView::Issue(
            DirectiveView::Cut,
        ),
    ensures
        outcomes.len() == job.directives.len(),
        forall|k: int| 0 <= k < outcomes.len() ==> outcomes[k],
{
    match stage_reached(job.directives.len(), outcomes) {
        Stage::Sending(i) => {
            lemma_sending(job.directives.len(), outcomes, i);
        },
        _ => {},
    }
}

/// A job that is being carried out.
pub struct Session {
    job: PrintJob,
    stage: Stage,
}

impl Session {
    #[verifier::type_invariant]
    spec fn well_formed(self) -> bool {
        match self.stage {
            Stage::Sending(i) => i < self.job.directives.len(),
            _ => true,
        }
    }

    /// The job that is carried out.
    pub closed spec fn job(&self) -> PrintJobView {
        self.job@
    }

    /// How far the job has been carried out.
    pub closed spec fn stage(&self) -> Stage {
        self.stage
    }

    /// A session for `job` of which no step has been taken.
    pub fn start(job: PrintJob) -> (session: Session)
        ensures
            session.job() == job@,
            session.stage() == Stage::Connecting,
    {
        Session { job, stage: Stage::Connecting }
    }

    /// How far the job has been carried out.
    pub fn progress(&self) -> (stage: Stage)
        ensures
            stage == self.stage(),
    {
        self.stage
    }

    /// The step that is due.
    pub fn next(&self) -> (step: Step<'_>)
        ensures
            step@ == step_in(self.job(), self.stage()),
    {
        proof {
            use_type_invariant(self);
        }
        match self.stage {
            Stage::Connecting => Step::Connect {
                address: self.job.address.as_str(),
                port: self.job.port,
            },
            Stage::Sending(i) => Step::Issue(&self.job.directives[i]),
            Stage::Completed => Step::Finish,
            Stage::Failed => Step::Abort,
        }
    }

    /// Takes note of how the step that was due went, and moves on: to the
    /// next step where it went well, to failure where it did not.
    pub fn record(&mut self, ok: bool)
        ensures
            final(self).job() == old(self).job(),
            final(self).stage() == stage_after(
                old(self).job().directives.len(),
                old(self).stage(),
                ok,
            ),
    {
        proof {
            use_type_invariant(&*self);
        }
        let count = self.job.directives.len();
        let stage = match self.stage {
            Stage::Connecting => if !ok {
                Stage::Failed
            } else if count == 0 {
                Stage::Completed
            } else {
                Stage::Sending(0)
            },
            Stage::Sending(i) => if !ok {
                Stage::Failed
            } else if i + 1 < count {
                Stage::Sending(i + 1)
            } else {
                Stage::Completed
            },
            Stage::Completed => Stage::Completed,
            Stage::Failed => Stage::Failed,
        };
        self.stage = stage;
    }
}

} // verus!
