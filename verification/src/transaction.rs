use vstd::prelude::*;
use crate::registry::{spec_effective_mode, spec_plan, GpuMode, PlannedValue};

verus! {

/// The `HRESULT` of a Win32 `ERROR_FILE_NOT_FOUND`: what opening a missing key reports.
pub const FILE_NOT_FOUND: i32 = -2147024894i32;

/// The next thing to do to the registry, in a transaction on
/// `HKEY_CURRENT_USER\Software\Microsoft\DirectX\UserGpuPreferences`.
#[derive(PartialEq, Eq, Structural, Clone, Copy, Debug)]
pub enum WriteStep {
    /// Create the kernel transaction that the whole write runs in.
    CreateTransaction,
    /// Open the preferences key in the transaction.
    OpenKey,
    /// Delete the values and subkeys of the opened key.
    DeleteTree,
    /// Close the opened key before it is created afresh.
    CloseStaleKey,
    /// Create (or open) the preferences key in the transaction.
    CreateKey,
    /// Write the value of one planned program.
    SetValue { value: PlannedValue },
    /// Close the key after the values are written.
    CloseKey,
    /// Commit the transaction.
    Commit,
    /// Roll the transaction back.
    Rollback,
    /// The write is over: it succeeded when `failure` is none, else it failed with that code.
    Finish { failure: Option<i32> },
}

/// How the step last asked for went.
#[derive(PartialEq, Eq, Structural, Clone, Copy, Debug)]
pub enum StepOutcome {
    Succeeded,
    /// It failed with this `HRESULT`.
    Failed { code: i32 },
}

/// Where a registry write stands.
#[derive(PartialEq, Eq, Structural, Clone, Copy, Debug)]
pub enum Phase {
    CreatingTransaction,
    OpeningKey,
    ClearingKey,
    ClosingStaleKey,
    CreatingKey,
    /// Writing the value at this position of the plan.
    SettingValue { index: usize },
    ClosingKey,
    Committing,
    /// Rolling back after the failure with this code.
    RollingBack { code: i32 },
    Finished { failure: Option<i32> },
}

/// The step that writes the value at position `i` of the plan, or closes the key once
/// every value is written.
pub open spec fn value_or_close(plan: Seq<PlannedValue>, i: int) -> (Phase, WriteStep) {
    if 0 <= i < plan.len() {
        (Phase::SettingValue { index: i as usize }, WriteStep::SetValue { value: plan[i] })
    } else {
        (Phase::ClosingKey, WriteStep::CloseKey)
    }
}

/// Given where the write stands and how the last step went, where it stands next and
/// which step comes next. Inside the transaction every failure leads to a rollback,
/// except that a missing key, when it is opened, is created instead; the write then
/// reports the failure that caused the rollback, or the rollback's own failure.
pub open spec fn spec_advance(plan: Seq<PlannedValue>, phase: Phase, outcome: StepOutcome) -> (
    Phase,
    WriteStep,
) {
    let rollback = |code: i32| (Phase::RollingBack { code }, WriteStep::Rollback);
    match (phase, outcome) {
        (Phase::CreatingTransaction, StepOutcome::Succeeded) => (Phase::OpeningKey, WriteStep::OpenKey),
        (Phase::CreatingTransaction, StepOutcome::Failed { code }) => (
            Phase::Finished { failure: Some(code) },
            WriteStep::Finish { failure: Some(code) },
        ),
        (Phase::OpeningKey, StepOutcome::Succeeded) => (Phase::ClearingKey, WriteStep::DeleteTree),
        (Phase::OpeningKey, StepOutcome::Failed { code }) => if code == FILE_NOT_FOUND {
            (Phase::CreatingKey, WriteStep::CreateKey)
        } else {
            rollback(code)
        },
        (Phase::ClearingKey, StepOutcome::Succeeded) => (
            Phase::ClosingStaleKey,
            WriteStep::CloseStaleKey,
        ),
        (Phase::ClosingStaleKey, StepOutcome::Succeeded) => (Phase::CreatingKey, WriteStep::CreateKey),
        (Phase::CreatingKey, StepOutcome::Succeeded) => value_or_close(plan, 0),
        (Phase::SettingValue { index }, StepOutcome::Succeeded) => value_or_close(plan, index + 1),
        (Phase::ClosingKey, StepOutcome::Succeeded) => (Phase::Committing, WriteStep::Commit),
        (Phase::Committing, StepOutcome::Succeeded) => (
            Phase::Finished { failure: None },
            WriteStep::Finish { failure: None },
        ),
        (Phase::Committing, StepOutcome::Failed { code }) => (
            Phase::Finished { failure: Some(code) },
            WriteStep::Finish { failure: Some(code) },
        ),
        (Phase::RollingBack { code }, StepOutcome::Succeeded) => (
            Phase::Finished { failure: Some(code) },
            WriteStep::Finish { failure: Some(code) },
        ),
        (Phase::RollingBack { .. }, StepOutcome::Failed { code }) => (
            Phase::Finished { failure: Some(code) },
            WriteStep::Finish { failure: Some(code) },
        ),
        (Phase::Finished { failure }, _) => (Phase::Finished { failure }, WriteStep::Finish { failure }),
        (_, StepOutcome::Failed { code }) => rollback(code),
    }
}

/// A write of GPU preferences to the registry, driven one step at a time: the caller
/// performs each step it is given and reports how it went.
pub struct RegistryWrite {
    plan: Vec<PlannedValue>,
    phase: Phase,
}

impl RegistryWrite {
    #[verifier::type_invariant]
    spec fn well_formed(self) -> bool {
        self.phase matches Phase::SettingValue { index } ==> index < self.plan.len()
    }

    /// The values that the write puts in the key, in order.
    pub closed spec fn plan_view(self) -> Seq<PlannedValue> {
        self.plan@
    }

    /// Where the write stands.
    pub closed spec fn phase_view(self) -> Phase {
        self.phase
    }

    /// A write of the values of `plan`, and its first step: creating the transaction.
    pub fn begin(plan: Vec<PlannedValue>) -> (r: (RegistryWrite, WriteStep))
        ensures
            r.0.plan_view() == plan@,
            r.0.phase_view() == Phase::CreatingTransaction,
            r.1 == WriteStep::CreateTransaction,
    {
        (RegistryWrite { plan, phase: Phase::CreatingTransaction }, WriteStep::CreateTransaction)
    }

    /// Where the write stands.
    pub fn phase(&self) -> (p: Phase)
        ensures
            p == self.phase_view(),
    {
        self.phase
    }

    /// Takes in how the last step went and gives the next step.
    pub fn advance(&mut self, outcome: StepOutcome) -> (step: WriteStep)
        ensures
            final(self).plan_view() == old(self).plan_view(),
            (final(self).phase_view(), step) == spec_advance(
                old(self).plan_view(),
                old(self).phase_view(),
                outcome,
            ),
    {
        proof {
            use_type_invariant(&*self);
        }
        let (phase, step) = match (self.phase, outcome) {
            (Phase::CreatingTransaction, StepOutcome::Succeeded) => (Phase::OpeningKey, WriteStep::OpenKey),
            (Phase::CreatingTransaction, StepOutcome::Failed { code }) => (
                Phase::Finished { failure: Some(code) },
                WriteStep::Finish { failure: Some(code) },
            ),
            (Phase::OpeningKey, StepOutcome::Succeeded) => (Phase::ClearingKey, WriteStep::DeleteTree),
            (Phase::OpeningKey, StepOutcome::Failed { code }) => if code == FILE_NOT_FOUND {
                (Phase::CreatingKey, WriteStep::CreateKey)
            } else {
                (Phase::RollingBack { code }, WriteStep::Rollback)
            },
            (Phase::ClearingKey, StepOutcome::Succeeded) => (
                Phase::ClosingStaleKey,
                WriteStep::CloseStaleKey,
            ),
            (Phase::ClosingStaleKey, StepOutcome::Succeeded) => (
                Phase::CreatingKey,
                WriteStep::CreateKey,
            ),
            (Phase::CreatingKey, StepOutcome::Succeeded) => self.value_or_close(0),
            (Phase::SettingValue { index }, StepOutcome::Succeeded) => self.value_or_close(index + 1),
            (Phase::ClosingKey, StepOutcome::Succeeded) => (Phase::Committing, WriteStep::Commit),
            (Phase::Committing, StepOutcome::Succeeded) => (
                Phase::Finished { failure: None },
                WriteStep::Finish { failure: None },
            ),
            (Phase::Committing, StepOutcome::Failed { code }) => (
                Phase::Finished { failure: Some(code) },
                WriteStep::Finish { failure: Some(code) },
            ),
            (Phase::RollingBack { code }, StepOutcome::Succeeded) => (
                Phase::Finished { failure: Some(code) },
                WriteStep::Finish { failure: Some(code) },
            ),
            (Phase::RollingBack { .. }, StepOutcome::Failed { code }) => (
                Phase::Finished { failure: Some(code) },
                WriteStep::Finish { failure: Some(code) },
            ),
            (Phase::Finished { failure }, _) => (
                Phase::Finished { failure },
                WriteStep::Finish { failure },
            ),
            (_, StepOutcome::Failed { code }) => (Phase::RollingBack { code }, WriteStep::Rollback),
        };
        self.phase = phase;
        step
    }

    fn value_or_close(&self, i: usize) -> (r: (Phase, WriteStep))
        requires
            i <= self.plan.len(),
        ensures
            r == value_or_close(self.plan@, i as int),
            r.0 matches Phase::SettingValue { index } ==> index < self.plan.len(),
    {
        if i < self.plan.len() {
            (Phase::SettingValue { index: i }, WriteStep::SetValue { value: self.plan[i] })
        } else {
            (Phase::ClosingKey, WriteStep::CloseKey)
        }
    }
}

// ---------------------------------------------------------------------------
// Runs of a write
// ---------------------------------------------------------------------------

/// The steps that a write at `phase` gives when the outcomes `outcomes` are reported
/// to it one after the other.
pub open spec fn run(plan: Seq<PlannedValue>, phase: Phase, outcomes: Seq<StepOutcome>) -> Seq<
    WriteStep,
>
    decreases outcomes.len(),
{
    if outcomes.len() == 0 {
        seq![]
    } else {
        let (next, step) = spec_advance(plan, phase, outcomes[0]);
        seq![step] + run(plan, next, outcomes.drop_first())
    }
}

/// Where a write at `phase` stands after the outcomes `outcomes`.
pub open spec fn run_phase(plan: Seq<PlannedValue>, phase: Phase, outcomes: Seq<StepOutcome>) -> Phase
    decreases outcomes.len(),
{
    if outcomes.len() == 0 {
        phase
    } else {
        run_phase(plan, spec_advance(plan, phase, outcomes[0]).0, outcomes.drop_first())
    }
}

/// The steps that write the planned values from position `from` on.
pub open spec fn value_steps(plan: Seq<PlannedValue>, from: int) -> Seq<WriteStep> {
    plan.subrange(from, plan.len() as int).map_values(|v: PlannedValue| WriteStep::SetValue { value: v })
}

/// The steps that end a write whose values are all written.
pub open spec fn closing_steps() -> Seq<WriteStep> {
    seq![WriteStep::CloseKey, WriteStep::Commit, WriteStep::Finish { failure: None }]
}

/// The steps of a write that succeeds, after the transaction is asked for: the key is
/// opened, and cleared if it existed; then created, filled with every planned value in
/// order, closed, and the transaction committed.
pub open spec fn success_steps(plan: Seq<PlannedValue>, key_existed: bool) -> Seq<WriteStep> {
    (if key_existed {
        seq![
            WriteStep::OpenKey,
            WriteStep::DeleteTree,
            WriteStep::CloseStaleKey,
            WriteStep::CreateKey,
        ]
    } else {
        seq![WriteStep::OpenKey, WriteStep::CreateKey]
    }) + value_steps(plan, 0) + closing_steps()
}

/// The outcomes that make a write succeed: every step succeeds, except that opening
/// the key reports it missing when it did not exist.
pub open spec fn success_outcomes(plan: Seq<PlannedValue>, key_existed: bool) -> Seq<StepOutcome> {
    Seq::new(
        success_steps(plan, key_existed).len(),
        |k: int|
            if !key_existed && k == 1 {
                StepOutcome::Failed { code: FILE_NOT_FOUND }
            } else {
                StepOutcome::Succeeded
            },
    )
}

/// `n` reports of success.
pub open spec fn all_succeeded(n: nat) -> Seq<StepOutcome> {
    Seq::new(n, |k: int| StepOutcome::Succeeded)
}

/// The phase from which the next value to write is the one at position `j`.
pub open spec fn phase_before_value(j: int) -> Phase {
    if j == 0 {
        Phase::CreatingKey
    } else {
        Phase::SettingValue { index: (j - 1) as usize }
    }
}

proof fn lemma_run_unfold(plan: Seq<PlannedValue>, phase: Phase, outcomes: Seq<StepOutcome>)
    requires
        outcomes.len() > 0,
    ensures
        run(plan, phase, outcomes) == seq![spec_advance(plan, phase, outcomes[0]).1] + run(
            plan,
            spec_advance(plan, phase, outcomes[0]).0,
            outcomes.drop_first(),
        ),
        run_phase(plan, phase, outcomes) == run_phase(
            plan,
            spec_advance(plan, phase, outcomes[0]).0,
            outcomes.drop_first(),
        ),
{
}

/// Once a write has failed, or is rolling back, it never ends in success.
proof fn lemma_failed_stays_failed(plan: Seq<PlannedValue>, phase: Phase, outcomes: Seq<StepOutcome>)
    requires
        phase is RollingBack || phase matches Phase::Finished { failure: Some(_) },
    ensures
        run_phase(plan, phase, outcomes) is RollingBack || run_phase(plan, phase, outcomes) matches Phase::Finished { failure: Some(_) },
    decreases outcomes.len(),
{
    if outcomes.len() > 0 {
        lemma_failed_stays_failed(plan, spec_advance(plan, phase, outcomes[0]).0, outcomes.drop_first());
    }
}

/// From the phase before the value at position `j`, reports of success write the
/// remaining values, close the key and commit.
proof fn lemma_values_succeed(plan: Seq<PlannedValue>, j: int)
    requires
        0 <= j <= plan.len(),
        plan.len() <= usize::MAX,
    ensures
        run(plan, phase_before_value(j), all_succeeded((plan.len() - j + 3) as nat))
            == value_steps(plan, j) + closing_steps(),
        run_phase(plan, phase_before_value(j), all_succeeded((plan.len() - j + 3) as nat))
            == (Phase::Finished { failure: None }),
    decreases plan.len() - j,
{
    let outs = all_succeeded((plan.len() - j + 3) as nat);
    lemma_run_unfold(plan, phase_before_value(j), outs);
    assert(outs.drop_first() =~= all_succeeded((plan.len() - j + 2) as nat));
    if j < plan.len() {
        assert(spec_advance(plan, phase_before_value(j), outs[0]).0 == phase_before_value(j + 1));
        lemma_values_succeed(plan, j + 1);
        assert(value_steps(plan, j) =~= seq![WriteStep::SetValue { value: plan[j] }] + value_steps(
            plan,
            j + 1,
        ));
    } else {
        let o2 = outs.drop_first();
        lemma_run_unfold(plan, Phase::ClosingKey, o2);
        let o3 = o2.drop_first();
        lemma_run_unfold(plan, Phase::Committing, o3);
        assert(o3.drop_first() =~= Seq::<StepOutcome>::empty());
        assert(value_steps(plan, j) =~= Seq::<WriteStep>::empty());
    }
}

/// A write that meets no failure, except for a missing key when it opens the key,
/// succeeds, taking exactly the steps of a successful write.
pub proof fn law_success_run(plan: Seq<PlannedValue>, key_existed: bool)
    requires
        plan.len() <= usize::MAX,
    ensures
        run(plan, Phase::CreatingTransaction, success_outcomes(plan, key_existed))
            == success_steps(plan, key_existed),
        run_phase(plan, Phase::CreatingTransaction, success_outcomes(plan, key_existed))
            == (Phase::Finished { failure: None }),
{
    let outs = success_outcomes(plan, key_existed);
    let tail = all_succeeded((plan.len() + 3) as nat);
    lemma_values_succeed(plan, 0);
    lemma_run_unfold(plan, Phase::CreatingTransaction, outs);
    let o1 = outs.drop_first();
    lemma_run_unfold(plan, Phase::OpeningKey, o1);
    let o2 = o1.drop_first();
    if key_existed {
        lemma_run_unfold(plan, Phase::ClearingKey, o2);
        let o3 = o2.drop_first();
        lemma_run_unfold(plan, Phase::ClosingStaleKey, o3);
        assert(o3.drop_first() =~= tail);
    } else {
        assert(o2 =~= tail);
    }
    assert(run(plan, Phase::CreatingTransaction, outs) =~= success_steps(plan, key_existed));
}

/// The steps given for a prefix of the outcomes are a prefix of the steps.
proof fn lemma_run_prefix(plan: Seq<PlannedValue>, phase: Phase, outcomes: Seq<StepOutcome>, n: int)
    requires
        0 <= n <= outcomes.len(),
    ensures
        run(plan, phase, outcomes.take(n)) == run(plan, phase, outcomes).take(n),
        run(plan, phase, outcomes).len() == outcomes.len(),
    decreases outcomes.len(),
{
    if outcomes.len() > 0 {
        let next = spec_advance(plan, phase, outcomes[0]).0;
        if n > 0 {
            lemma_run_prefix(plan, next, outcomes.drop_first(), n - 1);
            assert(outcomes.take(n).drop_first() =~= outcomes.drop_first().take(n - 1));
            lemma_run_unfold(plan, phase, outcomes.take(n));
            assert(run(plan, phase, outcomes.take(n)) =~= run(plan, phase, outcomes).take(n));
        } else {
            lemma_run_prefix(plan, next, outcomes.drop_first(), 0);
            assert(outcomes.take(0) =~= Seq::<StepOutcome>::empty());
        }
    }
}

/// From the phase before the value at position `j`, a write succeeds only if the next
/// outcomes all report success: one for each remaining value, the close and the commit.
proof fn lemma_values_needed(plan: Seq<PlannedValue>, j: int, outcomes: Seq<StepOutcome>)
    requires
        0 <= j <= plan.len(),
        plan.len() <= usize::MAX,
        run_phase(plan, phase_before_value(j), outcomes) == (Phase::Finished { failure: None }),
    ensures
        outcomes.len() >= plan.len() - j + 3,
        outcomes.take(plan.len() - j + 3) == all_succeeded((plan.len() - j + 3) as nat),
    decreases plan.len() - j,
{
    let p = phase_before_value(j);
    if outcomes.len() == 0 {
        assert(run_phase(plan, p, outcomes) == p);
    }
    let next = spec_advance(plan, p, outcomes[0]).0;
    let rest = outcomes.drop_first();
    if outcomes[0] is Failed {
        lemma_failed_stays_failed(plan, next, rest);
    }
    assert(outcomes[0] == StepOutcome::Succeeded);
    if j < plan.len() {
        assert(next == phase_before_value(j + 1));
        lemma_values_needed(plan, j + 1, rest);
        let m: int = plan.len() - j + 3;
        assert forall|k: int| 1 <= k < m implies outcomes[k] == StepOutcome::Succeeded by {
            assert(outcomes[k] == rest[k - 1]);
            assert(rest.take(m - 1)[k - 1] == rest[k - 1]);
        }
        assert(outcomes.take(m) =~= all_succeeded(m as nat));
    } else {
        assert(next == Phase::ClosingKey);
        if rest.len() == 0 {
            assert(run_phase(plan, next, rest) == next);
        }
        let next2 = spec_advance(plan, next, rest[0]).0;
        let rest2 = rest.drop_first();
        if rest[0] is Failed {
            lemma_failed_stays_failed(plan, next2, rest2);
        }
        assert(next2 == Phase::Committing);
        if rest2.len() == 0 {
            assert(run_phase(plan, next2, rest2) == next2);
        }
        let next3 = spec_advance(plan, next2, rest2[0]).0;
        if rest2[0] is Failed {
            lemma_failed_stays_failed(plan, next3, rest2.drop_first());
        }
        assert(outcomes.take(3) =~= all_succeeded(3));
    }
}

/// The only way a write succeeds: every step up to the commit succeeded (opening the key
/// may report it missing), so every planned value was written, in order, before the
/// transaction was committed. The steps were then exactly those of a successful write.
pub proof fn law_success_only_after_every_value(plan: Seq<PlannedValue>, outcomes: Seq<StepOutcome>)
    requires
        plan.len() <= usize::MAX,
        run_phase(plan, Phase::CreatingTransaction, outcomes) == (Phase::Finished { failure: None }),
    ensures
        exists|key_existed: bool|
            {
                &&& outcomes.len() >= success_outcomes(plan, key_existed).len()
                &&& outcomes.take(success_outcomes(plan, key_existed).len() as int)
                    == success_outcomes(plan, key_existed)
                &&& run(plan, Phase::CreatingTransaction, outcomes).take(
                    success_steps(plan, key_existed).len() as int,
                ) == success_steps(plan, key_existed)
            },
{
    let p0 = Phase::CreatingTransaction;
    if outcomes.len() == 0 {
        assert(run_phase(plan, p0, outcomes) == p0);
    }
    let o1 = outcomes.drop_first();
    let p1 = spec_advance(plan, p0, outcomes[0]).0;
    if outcomes[0] is Failed {
        lemma_failed_stays_failed(plan, p1, o1);
    }
    assert(p1 == Phase::OpeningKey);
    if o1.len() == 0 {
        assert(run_phase(plan, p1, o1) == p1);
    }
    let o2 = o1.drop_first();
    let p2 = spec_advance(plan, p1, o1[0]).0;
    let n: int = plan.len() as int + 3;
    let key_existed = o1[0] == StepOutcome::Succeeded;
    if key_existed {
        assert(p2 == Phase::ClearingKey);
        if o2.len() == 0 {
            assert(run_phase(plan, p2, o2) == p2);
        }
        let o3 = o2.drop_first();
        let p3 = spec_advance(plan, p2, o2[0]).0;
        if o2[0] is Failed {
            lemma_failed_stays_failed(plan, p3, o3);
        }
        assert(p3 == Phase::ClosingStaleKey);
        if o3.len() == 0 {
            assert(run_phase(plan, p3, o3) == p3);
        }
        let o4 = o3.drop_first();
        let p4 = spec_advance(plan, p3, o3[0]).0;
        if o3[0] is Failed {
            lemma_failed_stays_failed(plan, p4, o4);
        }
        assert(p4 == phase_before_value(0));
        lemma_values_needed(plan, 0, o4);
        assert(outcomes.take(success_outcomes(plan, true).len() as int) =~= success_outcomes(
            plan,
            true,
        )) by {
            assert(o4.take(n) == all_succeeded(n as nat));
            assert forall|k: int| 4 <= k < n + 4 implies outcomes[k] == StepOutcome::Succeeded by {
                assert(outcomes[k] == o4[k - 4]);
                assert(o4.take(n)[k - 4] == o4[k - 4]);
            }
        }
    } else {
        if o1[0] != (StepOutcome::Failed { code: FILE_NOT_FOUND }) {
            lemma_failed_stays_failed(plan, p2, o2);
        }
        assert(p2 == phase_before_value(0));
        lemma_values_needed(plan, 0, o2);
        assert(outcomes.take(success_outcomes(plan, false).len() as int) =~= success_outcomes(
            plan,
            false,
        )) by {
            assert(o2.take(n) == all_succeeded(n as nat));
            assert forall|k: int| 2 <= k < n + 2 implies outcomes[k] == StepOutcome::Succeeded by {
                assert(outcomes[k] == o2[k - 2]);
                assert(o2.take(n)[k - 2] == o2[k - 2]);
            }
        }
    }
    let m = success_outcomes(plan, key_existed).len() as int;
    lemma_run_prefix(plan, p0, outcomes, m);
    law_success_run(plan, key_existed);
    assert(success_steps(plan, key_existed).len() == m);
}

/// Inside the transaction a failed step is answered with a rollback (a missing key found
/// when opening it is created instead), and the write then ends reporting that failure,
/// or the rollback's own failure if the rollback fails too.
pub proof fn law_failure_rolls_back(plan: Seq<PlannedValue>, phase: Phase, code: i32, rollback: StepOutcome)
    requires
        phase is OpeningKey || phase is ClearingKey || phase is ClosingStaleKey || phase is CreatingKey
            || phase is SettingValue || phase is ClosingKey,
        phase is OpeningKey ==> code != FILE_NOT_FOUND,
    ensures
        spec_advance(plan, phase, StepOutcome::Failed { code }) == (
            Phase::RollingBack { code },
            WriteStep::Rollback,
        ),
        run(plan, phase, seq![StepOutcome::Failed { code }, rollback]) == seq![
            WriteStep::Rollback,
            WriteStep::Finish {
                failure: Some(
                    match rollback {
                        StepOutcome::Succeeded => code,
                        StepOutcome::Failed { code: c } => c,
                    },
                ),
            },
        ],
{
    let outs = seq![StepOutcome::Failed { code }, rollback];
    lemma_run_unfold(plan, phase, outs);
    lemma_run_unfold(plan, Phase::RollingBack { code }, outs.drop_first());
    assert(outs.drop_first().drop_first() =~= Seq::<StepOutcome>::empty());
    assert(run(plan, phase, outs) =~= seq![
        WriteStep::Rollback,
        WriteStep::Finish {
            failure: Some(
                match rollback {
                    StepOutcome::Succeeded => code,
                    StepOutcome::Failed { code: c } => c,
                },
            ),
        },
    ]);
}

/// A transaction that cannot be created ends the write at once with that failure; nothing
/// is rolled back, as nothing was done.
pub proof fn law_no_transaction_no_steps(plan: Seq<PlannedValue>, code: i32)
    ensures
        spec_advance(plan, Phase::CreatingTransaction, StepOutcome::Failed { code }) == (
            Phase::Finished { failure: Some(code) },
            WriteStep::Finish { failure: Some(code) },
        ),
{
}

// ---------------------------------------------------------------------------
// The key's values, as the steps describe them
// ---------------------------------------------------------------------------

/// The values of the preferences key after `step`, by value name (the program's path):
/// clearing the key removes them all, writing a value sets the program's entry, and the
/// other steps leave the values as they are.
pub open spec fn apply_step(
    key: Map<Seq<u16>, GpuMode>,
    programs: Seq<Seq<u16>>,
    step: WriteStep,
) -> Map<Seq<u16>, GpuMode> {
    match step {
        WriteStep::DeleteTree => Map::empty(),
        WriteStep::SetValue { value } => key.insert(programs[value.program as int], value.mode),
        _ => key,
    }
}

/// The values of the key after the steps `steps`, in order.
pub open spec fn apply_steps(
    key: Map<Seq<u16>, GpuMode>,
    programs: Seq<Seq<u16>>,
    steps: Seq<WriteStep>,
) -> Map<Seq<u16>, GpuMode>
    decreases steps.len(),
{
    if steps.len() == 0 {
        key
    } else {
        apply_steps(apply_step(key, programs, steps[0]), programs, steps.drop_first())
    }
}

/// The values that the plan gives the key, starting from an empty key.
pub open spec fn planned_key(programs: Seq<Seq<u16>>, plan: Seq<PlannedValue>) -> Map<
    Seq<u16>,
    GpuMode,
> {
    apply_steps(Map::empty(), programs, value_steps(plan, 0))
}

proof fn lemma_apply_steps_append(
    key: Map<Seq<u16>, GpuMode>,
    programs: Seq<Seq<u16>>,
    a: Seq<WriteStep>,
    b: Seq<WriteStep>,
)
    ensures
        apply_steps(key, programs, a + b) == apply_steps(apply_steps(key, programs, a), programs, b),
    decreases a.len(),
{
    if a.len() > 0 {
        assert((a + b).drop_first() =~= a.drop_first() + b);
        assert((a + b)[0] == a[0]);
        lemma_apply_steps_append(apply_step(key, programs, a[0]), programs, a.drop_first(), b);
    } else {
        assert(a + b =~= b);
    }
}

/// A successful write leaves the key holding exactly the planned values, whatever it held
/// before (a missing key holds nothing): so a write repeated with the same plan leaves the
/// same key, and after a second write nothing of the first remains but what the second
/// plans too.
pub proof fn law_successful_write_replaces_key(
    plan: Seq<PlannedValue>,
    programs: Seq<Seq<u16>>,
    prior: Map<Seq<u16>, GpuMode>,
    key_existed: bool,
)
    requires
        key_existed || prior == Map::<Seq<u16>, GpuMode>::empty(),
    ensures
        apply_steps(prior, programs, success_steps(plan, key_existed)) == planned_key(programs, plan),
{
    let opening = if key_existed {
        seq![
            WriteStep::OpenKey,
            WriteStep::DeleteTree,
            WriteStep::CloseStaleKey,
            WriteStep::CreateKey,
        ]
    } else {
        seq![WriteStep::OpenKey, WriteStep::CreateKey]
    };
    let values = value_steps(plan, 0);
    let closing = closing_steps();
    lemma_apply_steps_append(prior, programs, opening + values, closing);
    lemma_apply_steps_append(prior, programs, opening, values);
    let empty = Map::<Seq<u16>, GpuMode>::empty();
    if key_existed {
        let o1 = opening.drop_first();
        let o2 = o1.drop_first();
        let o3 = o2.drop_first();
        assert(o3.drop_first() =~= Seq::<WriteStep>::empty());
        assert(apply_steps(prior, programs, opening) == apply_steps(prior, programs, o1));
        assert(o1[0] == WriteStep::DeleteTree);
        assert(apply_steps(prior, programs, o1) == apply_steps(empty, programs, o2));
        assert(o2[0] == WriteStep::CloseStaleKey);
        assert(apply_steps(empty, programs, o2) == apply_steps(empty, programs, o3));
        assert(o3[0] == WriteStep::CreateKey);
        assert(apply_steps(empty, programs, o3) == apply_steps(
            empty,
            programs,
            o3.drop_first(),
        ));
    } else {
        let o1 = opening.drop_first();
        assert(o1.drop_first() =~= Seq::<WriteStep>::empty());
        assert(apply_steps(prior, programs, opening) == apply_steps(prior, programs, o1));
        assert(o1[0] == WriteStep::CreateKey);
        assert(apply_steps(prior, programs, o1) == apply_steps(prior, programs, o1.drop_first()));
    }
    let after = apply_steps(empty, programs, values);
    let c1 = closing.drop_first();
    let c2 = c1.drop_first();
    assert(c2.drop_first() =~= Seq::<WriteStep>::empty());
    assert(apply_steps(after, programs, closing) == apply_steps(after, programs, c1));
    assert(c1[0] == WriteStep::Commit);
    assert(apply_steps(after, programs, c1) == apply_steps(after, programs, c2));
    assert(c2[0] == (WriteStep::Finish { failure: None }));
    assert(apply_steps(after, programs, c2) == apply_steps(after, programs, c2.drop_first()));
    assert(success_steps(plan, key_existed) == opening + values + closing);
}

/// The key that the programs of `paths` get when the file name of each path is
/// `name_of` of it: each path whose file name gets a preference holds that preference.
pub open spec fn key_for_paths(
    paths: Set<Seq<u16>>,
    name_of: spec_fn(Seq<u16>) -> Option<Seq<char>>,
    global: GpuMode,
    dedicated: Set<Seq<char>>,
    integrated: Set<Seq<char>>,
    excluded: Set<Seq<char>>,
) -> Map<Seq<u16>, GpuMode> {
    Map::new(
        |p: Seq<u16>|
            paths.contains(p) && spec_effective_mode(
                name_of(p),
                global,
                dedicated,
                integrated,
                excluded,
            ) is Some,
        |p: Seq<u16>|
            match spec_effective_mode(name_of(p), global, dedicated, integrated, excluded) {
                Some(m) => m,
                None => GpuMode::NoPreference,
            },
    )
}

proof fn lemma_planned_key_prefix(
    programs: Seq<Seq<u16>>,
    names: Seq<Option<Seq<char>>>,
    name_of: spec_fn(Seq<u16>) -> Option<Seq<char>>,
    global: GpuMode,
    dedicated: Set<Seq<char>>,
    integrated: Set<Seq<char>>,
    excluded: Set<Seq<char>>,
    n: nat,
)
    requires
        programs.len() == names.len(),
        programs.len() <= usize::MAX,
        n <= programs.len(),
        forall|k: int| 0 <= k < names.len() ==> #[trigger] names[k] == name_of(programs[k]),
    ensures
        planned_key(programs, spec_plan(names, global, dedicated, integrated, excluded, n))
            == key_for_paths(
            programs.take(n as int).to_set(),
            name_of,
            global,
            dedicated,
            integrated,
            excluded,
        ),
    decreases n,
{
    let plan = spec_plan(names, global, dedicated, integrated, excluded, n);
    let target = key_for_paths(
        programs.take(n as int).to_set(),
        name_of,
        global,
        dedicated,
        integrated,
        excluded,
    );
    if n == 0 {
        assert(value_steps(plan, 0) =~= Seq::<WriteStep>::empty());
        assert(programs.take(0).to_set() =~= Set::<Seq<u16>>::empty());
        assert(planned_key(programs, plan) =~= target);
    } else {
        lemma_planned_key_prefix(
            programs,
            names,
            name_of,
            global,
            dedicated,
            integrated,
            excluded,
            (n - 1) as nat,
        );
        let prev_plan = spec_plan(names, global, dedicated, integrated, excluded, (n - 1) as nat);
        let prev = planned_key(programs, prev_plan);
        let k = n - 1;
        let p = programs[k];
        assert(names[k] == name_of(p));
        assert forall|q: Seq<u16>|
            programs.take(n as int).to_set().contains(q) <==> (programs.take(k).to_set().contains(q)
                || q == p) by {
            if programs.take(n as int).to_set().contains(q) {
                assert(programs.take(n as int).contains(q));
                let j = choose|j: int| 0 <= j < n && programs.take(n as int)[j] == q;
                if j < k {
                    assert(programs.take(k)[j] == q);
                    assert(programs.take(k).contains(q));
                }
            }
            if programs.take(k).to_set().contains(q) {
                assert(programs.take(k).contains(q));
                let j = choose|j: int| 0 <= j < k && programs.take(k)[j] == q;
                assert(programs.take(n as int)[j] == q);
                assert(programs.take(n as int).contains(q));
            }
            if q == p {
                assert(programs.take(n as int)[k] == q);
                assert(programs.take(n as int).contains(q));
            }
        }
        match spec_effective_mode(names[k], global, dedicated, integrated, excluded) {
            Some(m) => {
                let v = PlannedValue { program: k as usize, mode: m };
                assert(plan == prev_plan.push(v));
                assert(value_steps(plan, 0) =~= value_steps(prev_plan, 0) + seq![
                    WriteStep::SetValue { value: v },
                ]);
                lemma_apply_steps_append(
                    Map::empty(),
                    programs,
                    value_steps(prev_plan, 0),
                    seq![WriteStep::SetValue { value: v }],
                );
                let one = seq![WriteStep::SetValue { value: v }];
                assert(one.drop_first() =~= Seq::<WriteStep>::empty());
                assert(apply_steps(prev, programs, one) == apply_steps(
                    prev.insert(p, m),
                    programs,
                    one.drop_first(),
                ));
                assert(planned_key(programs, plan) =~= target);
            },
            None => {
                assert(plan == prev_plan);
                assert(planned_key(programs, plan) =~= target);
            },
        }
    }
}

/// The staged key depends only on which programs there are, not on their order nor on how
/// often one occurs: when the file name of each program is a function `name_of` of its path,
/// the planned values give exactly the paths whose file name gets a preference, each with
/// that preference.
pub proof fn law_key_depends_only_on_programs(
    programs: Seq<Seq<u16>>,
    names: Seq<Option<Seq<char>>>,
    name_of: spec_fn(Seq<u16>) -> Option<Seq<char>>,
    global: GpuMode,
    dedicated: Set<Seq<char>>,
    integrated: Set<Seq<char>>,
    excluded: Set<Seq<char>>,
)
    requires
        programs.len() == names.len(),
        programs.len() <= usize::MAX,
        forall|k: int| 0 <= k < names.len() ==> #[trigger] names[k] == name_of(programs[k]),
    ensures
        planned_key(
            programs,
            spec_plan(names, global, dedicated, integrated, excluded, names.len() as nat),
        ) == key_for_paths(programs.to_set(), name_of, global, dedicated, integrated, excluded),
{
    lemma_planned_key_prefix(
        programs,
        names,
        name_of,
        global,
        dedicated,
        integrated,
        excluded,
        names.len() as nat,
    );
    assert(programs.take(programs.len() as int) =~= programs);
}

/// Two program lists with the same paths, in any order and with any repetition, stage
/// the same key when a path's file name does not depend on the list it is in.
pub proof fn law_same_programs_same_key(
    programs1: Seq<Seq<u16>>,
    names1: Seq<Option<Seq<char>>>,
    programs2: Seq<Seq<u16>>,
    names2: Seq<Option<Seq<char>>>,
    name_of: spec_fn(Seq<u16>) -> Option<Seq<char>>,
    global: GpuMode,
    dedicated: Set<Seq<char>>,
    integrated: Set<Seq<char>>,
    excluded: Set<Seq<char>>,
)
    requires
        programs1.len() == names1.len(),
        programs2.len() == names2.len(),
        programs1.len() <= usize::MAX,
        programs2.len() <= usize::MAX,
        forall|k: int| 0 <= k < names1.len() ==> #[trigger] names1[k] == name_of(programs1[k]),
        forall|k: int| 0 <= k < names2.len() ==> #[trigger] names2[k] == name_of(programs2[k]),
        programs1.to_set() == programs2.to_set(),
    ensures
        planned_key(
            programs1,
            spec_plan(names1, global, dedicated, integrated, excluded, names1.len() as nat),
        ) == planned_key(
            programs2,
            spec_plan(names2, global, dedicated, integrated, excluded, names2.len() as nat),
        ),
{
    law_key_depends_only_on_programs(programs1, names1, name_of, global, dedicated, integrated, excluded);
    law_key_depends_only_on_programs(programs2, names2, name_of, global, dedicated, integrated, excluded);
}

} // verus!
