use win_global_gpu::registry::{GpuMode, PlannedValue};
use win_global_gpu::transaction::{Phase, RegistryWrite, StepOutcome, WriteStep, FILE_NOT_FOUND};

fn plan() -> Vec<PlannedValue> {
    vec![
        PlannedValue { program: 0, mode: GpuMode::Dedicated },
        PlannedValue { program: 2, mode: GpuMode::Integrated },
    ]
}

fn drive(plan: Vec<PlannedValue>, outcomes: &[StepOutcome]) -> Vec<WriteStep> {
    let (mut w, first) = RegistryWrite::begin(plan);
    let mut steps = vec![first];
    for o in outcomes {
        steps.push(w.advance(*o));
    }
    steps
}

const OK: StepOutcome = StepOutcome::Succeeded;

#[test]
fn existing_key_is_cleared_then_filled_and_committed() {
    let steps = drive(plan(), &[OK; 8]);
    assert_eq!(
        steps,
        vec![
            WriteStep::CreateTransaction,
            WriteStep::OpenKey,
            WriteStep::DeleteTree,
            WriteStep::CloseStaleKey,
            WriteStep::CreateKey,
            WriteStep::SetValue { value: plan()[0] },
            WriteStep::SetValue { value: plan()[1] },
            WriteStep::CloseKey,
            WriteStep::Commit,
        ]
    );
    let steps = drive(plan(), &[OK; 9]);
    assert_eq!(steps.last(), Some(&WriteStep::Finish { failure: None }));
}

#[test]
fn missing_key_is_created() {
    let nf = StepOutcome::Failed { code: FILE_NOT_FOUND };
    let steps = drive(plan(), &[OK, nf, OK, OK, OK, OK, OK]);
    assert_eq!(
        steps,
        vec![
            WriteStep::CreateTransaction,
            WriteStep::OpenKey,
            WriteStep::CreateKey,
            WriteStep::SetValue { value: plan()[0] },
            WriteStep::SetValue { value: plan()[1] },
            WriteStep::CloseKey,
            WriteStep::Commit,
            WriteStep::Finish { failure: None },
        ]
    );
}

#[test]
fn empty_plan_clears_the_key() {
    let steps = drive(vec![], &[OK; 7]);
    assert_eq!(
        steps,
        vec![
            WriteStep::CreateTransaction,
            WriteStep::OpenKey,
            WriteStep::DeleteTree,
            WriteStep::CloseStaleKey,
            WriteStep::CreateKey,
            WriteStep::CloseKey,
            WriteStep::Commit,
            WriteStep::Finish { failure: None },
        ]
    );
}

#[test]
fn failed_value_rolls_back_and_reports_it() {
    let bad = StepOutcome::Failed { code: 5 };
    let steps = drive(plan(), &[OK, OK, OK, OK, OK, bad, OK]);
    assert_eq!(&steps[6..], &[WriteStep::Rollback, WriteStep::Finish { failure: Some(5) }]);
}

#[test]
fn failed_rollback_reports_its_own_failure() {
    let steps = drive(plan(), &[OK, StepOutcome::Failed { code: 5 }, StepOutcome::Failed { code: 7 }]);
    assert_eq!(&steps[2..], &[WriteStep::Rollback, WriteStep::Finish { failure: Some(7) }]);
}

#[test]
fn failed_transaction_ends_at_once() {
    let steps = drive(plan(), &[StepOutcome::Failed { code: 9 }, OK]);
    assert_eq!(
        &steps[1..],
        &[WriteStep::Finish { failure: Some(9) }, WriteStep::Finish { failure: Some(9) }]
    );
}

#[test]
fn failed_commit_is_reported() {
    let mut outcomes = vec![OK; 8];
    outcomes.push(StepOutcome::Failed { code: 3 });
    let steps = drive(plan(), &outcomes);
    assert_eq!(steps.last(), Some(&WriteStep::Finish { failure: Some(3) }));
}

#[test]
fn phase_follows_the_steps() {
    let (mut w, _) = RegistryWrite::begin(plan());
    assert_eq!(w.phase(), Phase::CreatingTransaction);
    w.advance(OK);
    assert_eq!(w.phase(), Phase::OpeningKey);
    w.advance(StepOutcome::Failed { code: 1 });
    assert_eq!(w.phase(), Phase::RollingBack { code: 1 });
}

#[test]
fn every_successful_write_clears_an_existing_key_first() {
    let first = drive(plan(), &[OK; 9]);
    let second = drive(vec![plan()[1]], &[OK; 8]);
    assert_eq!(first[2], WriteStep::DeleteTree);
    assert_eq!(second[2], WriteStep::DeleteTree);
    assert_eq!(second[5], WriteStep::SetValue { value: plan()[1] });
    assert_eq!(second.last(), Some(&WriteStep::Finish { failure: None }));
}
