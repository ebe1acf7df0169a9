//! The apply loop, as a verified state machine.
//!
//! Applying intents alternates outside work (asking the operator, calling
//! the remote mutation endpoint) with decisions. The decisions live here:
//! an `ApplyRun` walks the intents in order, skips `NoOp`s without asking
//! anything, hands out a prompt for every other intent, hands out the
//! mutation call only after an explicit confirmation, and aborts the whole
//! run on the first failed mutation. The driver performs the outside work
//! and reports each answer back; the transition contracts pin down every
//! step, so a driver that follows the protocol gets the decline-is-skip and
//! fail-fast guarantees by construction.

use vstd::prelude::*;

use crate::diff::Intent;
use crate::model::ObjectType;
use crate::model::PermissionType;

verus! {

/// What became of one intent during a run.
#[derive(Debug, Clone, Copy, PartialEq, Eq, Structural)]
pub enum Outcome {
    /// The intent was a `NoOp`: nothing was asked and nothing was sent.
    SkippedNoOp,
    /// The operator declined the prompt: nothing was sent.
    Declined,
    /// The mutation was dispatched and succeeded.
    Applied,
    /// The mutation was dispatched and failed; the run aborted here.
    Failed,
}

/// Where a run stands between two protocol calls.
#[derive(Debug, Clone, Copy, PartialEq, Eq, Structural)]
pub enum Phase {
    /// The next step is `next_action`.
    Ready,
    /// A prompt was handed out; the next step is `confirmed`.
    AwaitConfirm,
    /// A mutation call was handed out; the next step is `mutation_result`.
    AwaitMutation,
    /// Every intent has an outcome.
    Finished,
    /// A mutation failed; the run takes no further step.
    Aborted,
}

/// The remote call one confirmed intent dispatches: an idempotent upsert of
/// a level for `Add` and `Update`, a delete for `Remove`.
#[derive(Debug, PartialEq, Eq)]
pub enum MutationCall {
    Upsert { object_type: ObjectType, id: String, level: PermissionType },
    Delete { object_type: ObjectType, id: String },
}

/// What a confirmation prompt describes: the principal, its current level
/// if it has one, and the level the source wants, if any.
#[derive(Debug, PartialEq, Eq)]
pub struct PromptInfo {
    pub object_type: ObjectType,
    pub id: String,
    pub alias: String,
    pub current_level: Option<PermissionType>,
    pub target_level: Option<PermissionType>,
}

/// What the driver must do next.
#[derive(Debug, PartialEq, Eq)]
pub enum StepAction {
    AskConfirm(PromptInfo),
    Finished,
}

/// The prompt an intent produces; `NoOp`s prompt nothing.
pub open spec fn prompt_for(t: Intent) -> Option<PromptInfo> {
    match t {
        Intent::Add { permission } => Some(
            PromptInfo {
                object_type: permission.object_type,
                id: permission.id,
                alias: permission.alias,
                current_level: None,
                target_level: Some(permission.permission),
            },
        ),
        Intent::Update { object_type, id, alias, from_level, to_level } => Some(
            PromptInfo {
                object_type,
                id,
                alias,
                current_level: Some(from_level),
                target_level: Some(to_level),
            },
        ),
        Intent::NoOp { id } => None,
        Intent::Remove { permission } => Some(
            PromptInfo {
                object_type: permission.object_type,
                id: permission.id,
                alias: permission.alias,
                current_level: Some(permission.permission),
                target_level: None,
            },
        ),
    }
}

/// The mutation an intent dispatches once confirmed; `NoOp`s dispatch
/// nothing.
pub open spec fn mutation_for(t: Intent) -> Option<MutationCall> {
    match t {
        Intent::Add { permission } => Some(
            MutationCall::Upsert {
                object_type: permission.object_type,
                id: permission.id,
                level: permission.permission,
            },
        ),
        Intent::Update { object_type, id, alias: _, from_level: _, to_level } => Some(
            MutationCall::Upsert { object_type, id, level: to_level },
        ),
        Intent::NoOp { id } => None,
        Intent::Remove { permission } => Some(
            MutationCall::Delete { object_type: permission.object_type, id: permission.id },
        ),
    }
}

/// How many outcomes record a successful mutation.
pub open spec fn count_applied(os: Seq<Outcome>) -> nat
    decreases os.len(),
{
    if os.len() == 0 {
        0
    } else {
        count_applied(os.drop_last()) + (if os.last() is Applied {
            1nat
        } else {
            0nat
        })
    }
}

/// How many outcomes record a dispatched mutation, successful or not.
pub open spec fn count_dispatched(os: Seq<Outcome>) -> nat
    decreases os.len(),
{
    if os.len() == 0 {
        0
    } else {
        count_dispatched(os.drop_last()) + (if os.last() is Applied || os.last() is Failed {
            1nat
        } else {
            0nat
        })
    }
}

pub proof fn lemma_count_applied_le_len(os: Seq<Outcome>)
    ensures
        count_applied(os) <= os.len(),
    decreases os.len(),
{
    if os.len() > 0 {
        lemma_count_applied_le_len(os.drop_last());
    }
}

proof fn lemma_count_dispatched_split(os: Seq<Outcome>)
    ensures
        count_dispatched(os) == count_applied(os) + count_failed(os),
    decreases os.len(),
{
    if os.len() > 0 {
        lemma_count_dispatched_split(os.drop_last());
    }
}

/// How many outcomes record a failed mutation.
pub open spec fn count_failed(os: Seq<Outcome>) -> nat
    decreases os.len(),
{
    if os.len() == 0 {
        0
    } else {
        count_failed(os.drop_last()) + (if os.last() is Failed {
            1nat
        } else {
            0nat
        })
    }
}

proof fn lemma_count_failed_zero(os: Seq<Outcome>)
    requires
        forall|i: int| 0 <= i < os.len() ==> !((#[trigger] os[i]) is Failed),
    ensures
        count_failed(os) == 0,
    decreases os.len(),
{
    if os.len() > 0 {
        assert(forall|i: int| 0 <= i < os.len() - 1 ==> os.drop_last()[i] == os[i]);
        lemma_count_failed_zero(os.drop_last());
    }
}

/// An outcome is `SkippedNoOp` exactly for a `NoOp` intent.
pub open spec fn outcome_matches(t: Intent, o: Outcome) -> bool {
    (o is SkippedNoOp) <==> (t is NoOp)
}

/// The position of the first intent at or after `from` that is not a
/// `NoOp`, or the length when every remaining intent is one.
pub open spec fn next_live(intents: Seq<Intent>, from: int) -> int
    decreases intents.len() - from,
{
    if from < 0 || from >= intents.len() {
        intents.len() as int
    } else if !(intents[from] is NoOp) {
        from
    } else {
        next_live(intents, from + 1)
    }
}

/// One reconciliation run over a fixed intent sequence.
pub struct ApplyRun {
    intents: Vec<Intent>,
    outcomes: Vec<Outcome>,
    applied: usize,
    phase: Phase,
}

impl ApplyRun {
    /// The intents the run was created with; they never change.
    pub closed spec fn intents_view(self) -> Seq<Intent> {
        self.intents@
    }

    /// The outcomes decided so far, aligned with the intents.
    pub closed spec fn outcomes_view(self) -> Seq<Outcome> {
        self.outcomes@
    }

    pub closed spec fn phase_view(self) -> Phase {
        self.phase
    }

    pub closed spec fn applied_view(self) -> nat {
        self.applied as nat
    }

    /// The position of the first intent without an outcome yet.
    pub open spec fn cursor(self) -> int {
        self.outcomes_view().len() as int
    }

    /// Well-formedness of a run: outcomes align with intents one by one,
    /// the applied counter counts the successful dispatches, a `Failed`
    /// outcome is always the last one and exactly marks an aborted run,
    /// and an outstanding prompt or mutation always points at a pending
    /// non-`NoOp` intent.
    pub open spec fn wf(self) -> bool {
        &&& self.outcomes_view().len() <= self.intents_view().len()
        &&& forall|i: int|
            0 <= i < self.outcomes_view().len() ==> outcome_matches(
                self.intents_view()[i],
                #[trigger] self.outcomes_view()[i],
            )
        &&& self.applied_view() == count_applied(self.outcomes_view())
        &&& forall|i: int|
            0 <= i < self.outcomes_view().len() && (#[trigger] self.outcomes_view()[i]) is Failed
                ==> i == self.outcomes_view().len() - 1
        &&& (self.phase_view() is Aborted <==> (self.outcomes_view().len() > 0
            && self.outcomes_view().last() is Failed))
        &&& ((self.phase_view() is AwaitConfirm || self.phase_view() is AwaitMutation) ==> (
        self.cursor() < self.intents_view().len() && !(self.intents_view()[self.cursor()] is NoOp)))
        &&& (self.phase_view() is Finished ==> self.cursor() == self.intents_view().len())
    }

    /// Starts a run over `intents`; nothing is decided yet.
    pub fn new(intents: Vec<Intent>) -> (r: ApplyRun)
        ensures
            r.wf(),
            r.intents_view() == intents@,
            r.outcomes_view().len() == 0,
            r.applied_view() == 0,
            r.phase_view() is Ready,
    {
        ApplyRun { intents, outcomes: Vec::new(), applied: 0, phase: Phase::Ready }
    }

    pub fn phase(&self) -> (p: Phase)
        ensures
            p == self.phase_view(),
    {
        self.phase
    }

    /// How many mutations have succeeded so far.
    pub fn applied_count(&self) -> (n: usize)
        ensures
            n as nat == self.applied_view(),
    {
        self.applied
    }

    pub fn outcomes(&self) -> (o: &Vec<Outcome>)
        ensures
            o@ == self.outcomes_view(),
    {
        &self.outcomes
    }

    pub fn intents(&self) -> (t: &Vec<Intent>)
        ensures
            t@ == self.intents_view(),
    {
        &self.intents
    }

    fn should_skip(&self) -> (b: bool)
        ensures
            b == (self.cursor() < self.intents_view().len() && self.intents_view()[self.cursor()]
                is NoOp),
    {
        if self.outcomes.len() < self.intents.len() {
            match &self.intents[self.outcomes.len()] {
                Intent::NoOp { id: _ } => true,
                _ => false,
            }
        } else {
            false
        }
    }

    /// Advances to the next intent that needs a decision. Every `NoOp` on
    /// the way is recorded as skipped — no prompt and no mutation call is
    /// ever produced for one. The result either carries the prompt for the
    /// pending intent or reports the run finished.
    pub fn next_action(&mut self) -> (a: StepAction)
        requires
            old(self).wf(),
            old(self).phase_view() is Ready,
        ensures
            final(self).wf(),
            final(self).intents_view() == old(self).intents_view(),
            final(self).applied_view() == old(self).applied_view(),
            final(self).cursor() == next_live(old(self).intents_view(), old(self).cursor()),
            forall|i: int|
                0 <= i < old(self).cursor() ==> final(self).outcomes_view()[i]
                    == old(self).outcomes_view()[i],
            forall|i: int|
                old(self).cursor() <= i < final(self).cursor()
                    ==> (#[trigger] final(self).outcomes_view()[i]) is SkippedNoOp,
            match a {
                StepAction::Finished => {
                    &&& final(self).cursor() == final(self).intents_view().len()
                    &&& final(self).phase_view() is Finished
                },
                StepAction::AskConfirm(p) => {
                    &&& final(self).cursor() < final(self).intents_view().len()
                    &&& !(final(self).intents_view()[final(self).cursor()] is NoOp)
                    &&& final(self).phase_view() is AwaitConfirm
                    &&& Some(p) == prompt_for(final(self).intents_view()[final(self).cursor()])
                },
            },
    {
        while self.should_skip()
            invariant
                self.wf(),
                self.phase_view() is Ready,
                self.intents_view() == old(self).intents_view(),
                self.applied_view() == old(self).applied_view(),
                old(self).cursor() <= self.cursor(),
                next_live(self.intents_view(), self.cursor()) == next_live(
                    old(self).intents_view(),
                    old(self).cursor(),
                ),
                forall|i: int|
                    0 <= i < old(self).cursor() ==> self.outcomes_view()[i]
                        == old(self).outcomes_view()[i],
                forall|i: int|
                    old(self).cursor() <= i < self.cursor() ==> (#[trigger] self.outcomes_view()[i])
                        is SkippedNoOp,
            decreases self.intents_view().len() - self.cursor(),
        {
            let ghost pre = self.outcomes@;
            self.outcomes.push(Outcome::SkippedNoOp);
            proof {
                assert(self.outcomes@.drop_last() =~= pre);
                assert(count_applied(self.outcomes@) == count_applied(pre));
            }
        }
        if self.outcomes.len() == self.intents.len() {
            self.phase = Phase::Finished;
            StepAction::Finished
        } else {
            self.phase = Phase::AwaitConfirm;
            let p = build_prompt(&self.intents[self.outcomes.len()]);
            StepAction::AskConfirm(p)
        }
    }

    /// Records the operator's answer to the pending prompt. Declining skips
    /// exactly this intent: nothing is dispatched for it, nothing is
    /// applied, and the run goes on with the next intent — a decline never
    /// aborts the run. Confirming hands out the mutation call for the
    /// pending intent, to be reported back through `mutation_result`.
    pub fn confirmed(&mut self, yes: bool) -> (m: Option<MutationCall>)
        requires
            old(self).wf(),
            old(self).phase_view() is AwaitConfirm,
        ensures
            final(self).wf(),
            final(self).intents_view() == old(self).intents_view(),
            final(self).applied_view() == old(self).applied_view(),
            yes ==> {
                &&& final(self).phase_view() is AwaitMutation
                &&& final(self).outcomes_view() == old(self).outcomes_view()
                &&& m == mutation_for(old(self).intents_view()[old(self).cursor()])
                &&& m is Some
            },
            !yes ==> {
                &&& final(self).phase_view() is Ready
                &&& final(self).outcomes_view() == old(self).outcomes_view().push(Outcome::Declined)
                &&& m is None
            },
    {
        if yes {
            self.phase = Phase::AwaitMutation;
            let call = build_mutation(&self.intents[self.outcomes.len()]);
            Some(call)
        } else {
            let ghost pre = self.outcomes@;
            self.outcomes.push(Outcome::Declined);
            self.phase = Phase::Ready;
            proof {
                assert(self.outcomes@.drop_last() =~= pre);
                assert(count_applied(self.outcomes@) == count_applied(pre));
            }
            None
        }
    }

    /// Records whether the dispatched mutation succeeded. On success the
    /// run counts it and goes on. On failure the run aborts at once: the
    /// failure is recorded for exactly this intent, the later intents keep
    /// no outcome, and no protocol step accepts an aborted run, so nothing
    /// after the failed dispatch is ever evaluated.
    pub fn mutation_result(&mut self, ok: bool)
        requires
            old(self).wf(),
            old(self).phase_view() is AwaitMutation,
        ensures
            final(self).wf(),
            final(self).intents_view() == old(self).intents_view(),
            ok ==> {
                &&& final(self).phase_view() is Ready
                &&& final(self).outcomes_view() == old(self).outcomes_view().push(Outcome::Applied)
                &&& final(self).applied_view() == old(self).applied_view() + 1
            },
            !ok ==> {
                &&& final(self).phase_view() is Aborted
                &&& final(self).outcomes_view() == old(self).outcomes_view().push(Outcome::Failed)
                &&& final(self).applied_view() == old(self).applied_view()
            },
    {
        let ghost pre = self.outcomes@;
        if ok {
            let n: usize = self.intents.len();
            proof {
                lemma_count_applied_le_len(pre);
                assert(old(self).applied_view() < n as nat);
            }
            self.outcomes.push(Outcome::Applied);
            self.applied = self.applied + 1;
            self.phase = Phase::Ready;
        } else {
            self.outcomes.push(Outcome::Failed);
            self.phase = Phase::Aborted;
        }
        proof {
            assert(self.outcomes@.drop_last() =~= pre);
        }
    }
}

fn build_prompt(t: &Intent) -> (r: PromptInfo)
    requires
        !((*t) is NoOp),
    ensures
        Some(r) == prompt_for(*t),
{
    match t {
        Intent::Add { permission } => PromptInfo {
            object_type: permission.object_type,
            id: permission.id.clone(),
            alias: permission.alias.clone(),
            current_level: None,
            target_level: Some(permission.permission),
        },
        Intent::Update { object_type, id, alias, from_level, to_level } => PromptInfo {
            object_type: *object_type,
            id: id.clone(),
            alias: alias.clone(),
            current_level: Some(*from_level),
            target_level: Some(*to_level),
        },
        Intent::NoOp { id: _ } => unreached(),
        Intent::Remove { permission } => PromptInfo {
            object_type: permission.object_type,
            id: permission.id.clone(),
            alias: permission.alias.clone(),
            current_level: Some(permission.permission),
            target_level: None,
        },
    }
}

fn build_mutation(t: &Intent) -> (r: MutationCall)
    requires
        !((*t) is NoOp),
    ensures
        Some(r) == mutation_for(*t),
{
    match t {
        Intent::Add { permission } => MutationCall::Upsert {
            object_type: permission.object_type,
            id: permission.id.clone(),
            level: permission.permission,
        },
        Intent::Update { object_type, id, alias: _, from_level: _, to_level } => MutationCall::Upsert {
            object_type: *object_type,
            id: id.clone(),
            level: *to_level,
        },
        Intent::NoOp { id: _ } => unreached(),
        Intent::Remove { permission } => MutationCall::Delete {
            object_type: permission.object_type,
            id: permission.id.clone(),
        },
    }
}

/// No-op idempotence, the applying half: in a well-formed run a `NoOp`
/// intent is only ever recorded as skipped — never declined, applied or
/// failed, so no mutation was dispatched for it.
pub proof fn lemma_noop_never_dispatched(run: ApplyRun, i: int)
    requires
        run.wf(),
        0 <= i < run.outcomes_view().len(),
        run.intents_view()[i] is NoOp,
    ensures
        run.outcomes_view()[i] is SkippedNoOp,
{
}

/// Fail-fast abort: an aborted run records outcomes only up to and
/// including the one failed dispatch — the failure is the last outcome,
/// no earlier outcome is a failure, the dispatch count is exactly the
/// applied count plus the one failure, and every later intent is left
/// without an outcome.
pub proof fn lemma_fail_fast(run: ApplyRun)
    requires
        run.wf(),
        run.phase_view() is Aborted,
    ensures
        run.outcomes_view().len() > 0,
        run.outcomes_view().last() is Failed,
        forall|i: int|
            0 <= i < run.outcomes_view().len() - 1 ==> !((#[trigger] run.outcomes_view()[i])
                is Failed),
        count_dispatched(run.outcomes_view()) == run.applied_view() + 1,
        run.outcomes_view().len() <= run.intents_view().len(),
{
    let os = run.outcomes_view();
    lemma_count_dispatched_split(os);
    assert(forall|i: int| 0 <= i < os.len() - 1 ==> os.drop_last()[i] == os[i]);
    lemma_count_failed_zero(os.drop_last());
    assert(count_failed(os) == 1);
}

} // verus!
