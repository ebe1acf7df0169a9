use bbdan::apply::ApplyRun;
use bbdan::apply::MutationCall;
use bbdan::apply::Outcome;
use bbdan::apply::Phase;
use bbdan::apply::StepAction;
use bbdan::diff::Intent;
use bbdan::model::ObjectType;
use bbdan::model::Permission;
use bbdan::model::PermissionType;

fn perm(object_type: ObjectType, alias: &str, id: &str, level: PermissionType) -> Permission {
    Permission {
        object_type,
        alias: alias.to_owned(),
        id: id.to_owned(),
        permission: level,
    }
}

fn add(alias: &str, id: &str, level: PermissionType) -> Intent {
    Intent::Add { permission: perm(ObjectType::User, alias, id, level) }
}

/// Drives a run with scripted confirmation answers and mutation results,
/// consumed in protocol order; returns the dispatched calls.
fn drive(run: &mut ApplyRun, answers: &[bool], results: &[bool]) -> Vec<MutationCall> {
    let mut dispatched = Vec::new();
    let mut next_answer = 0;
    let mut next_result = 0;
    loop {
        if run.phase() == Phase::Aborted {
            break;
        }
        match run.next_action() {
            StepAction::Finished => break,
            StepAction::AskConfirm(_) => {
                let yes = answers[next_answer];
                next_answer += 1;
                match run.confirmed(yes) {
                    Some(call) => {
                        dispatched.push(call);
                        let ok = results[next_result];
                        next_result += 1;
                        run.mutation_result(ok);
                    }
                    None => {}
                }
            }
        }
    }
    dispatched
}

#[test]
fn noop_is_never_dispatched() {
    let intents = vec![Intent::NoOp { id: "g1".to_owned() }];
    let mut run = ApplyRun::new(intents);
    let dispatched = drive(&mut run, &[], &[]);
    assert!(dispatched.is_empty());
    assert_eq!(run.outcomes(), &vec![Outcome::SkippedNoOp]);
    assert_eq!(run.applied_count(), 0);
    assert_eq!(run.phase(), Phase::Finished);
}

#[test]
fn decline_skips_without_aborting() {
    let intents = vec![
        add("alice", "a", PermissionType::Read),
        add("bob", "b", PermissionType::Write),
    ];
    let mut run = ApplyRun::new(intents);
    let dispatched = drive(&mut run, &[false, true], &[true]);
    assert_eq!(dispatched.len(), 1);
    assert_eq!(
        dispatched[0],
        MutationCall::Upsert {
            object_type: ObjectType::User,
            id: "b".to_owned(),
            level: PermissionType::Write,
        }
    );
    assert_eq!(run.outcomes(), &vec![Outcome::Declined, Outcome::Applied]);
    assert_eq!(run.applied_count(), 1);
    assert_eq!(run.phase(), Phase::Finished);
}

#[test]
fn declining_everything_finishes_cleanly() {
    let intents = vec![
        add("alice", "a", PermissionType::Read),
        add("bob", "b", PermissionType::Write),
    ];
    let mut run = ApplyRun::new(intents);
    let dispatched = drive(&mut run, &[false, false], &[]);
    assert!(dispatched.is_empty());
    assert_eq!(run.outcomes(), &vec![Outcome::Declined, Outcome::Declined]);
    assert_eq!(run.applied_count(), 0);
    assert_eq!(run.phase(), Phase::Finished);
}

#[test]
fn failed_mutation_aborts_at_once() {
    let intents = vec![
        add("alice", "a", PermissionType::Read),
        add("bob", "b", PermissionType::Write),
        add("carol", "c", PermissionType::Admin),
    ];
    let mut run = ApplyRun::new(intents);
    let dispatched = drive(&mut run, &[true, true], &[true, false]);
    // Exactly two dispatches: the second failed, the third intent was
    // never even presented for confirmation.
    assert_eq!(dispatched.len(), 2);
    assert_eq!(run.outcomes(), &vec![Outcome::Applied, Outcome::Failed]);
    assert_eq!(run.applied_count(), 1);
    assert_eq!(run.phase(), Phase::Aborted);
}

#[test]
fn noops_between_dispatches_are_skipped() {
    let intents = vec![
        Intent::NoOp { id: "x".to_owned() },
        add("alice", "a", PermissionType::Read),
        Intent::NoOp { id: "y".to_owned() },
        Intent::Remove { permission: perm(ObjectType::Group, "group one", "g1", PermissionType::Write) },
        Intent::NoOp { id: "z".to_owned() },
    ];
    let mut run = ApplyRun::new(intents);
    let dispatched = drive(&mut run, &[true, true], &[true, true]);
    assert_eq!(dispatched.len(), 2);
    assert_eq!(
        dispatched[1],
        MutationCall::Delete { object_type: ObjectType::Group, id: "g1".to_owned() }
    );
    assert_eq!(
        run.outcomes(),
        &vec![
            Outcome::SkippedNoOp,
            Outcome::Applied,
            Outcome::SkippedNoOp,
            Outcome::Applied,
            Outcome::SkippedNoOp,
        ]
    );
    assert_eq!(run.applied_count(), 2);
    assert_eq!(run.phase(), Phase::Finished);
}

#[test]
fn update_prompt_labels_destination_as_current_and_source_as_target() {
    let intents = vec![Intent::Update {
        object_type: ObjectType::Group,
        id: "g1".to_owned(),
        alias: "group one".to_owned(),
        from_level: PermissionType::Write,
        to_level: PermissionType::Admin,
    }];
    let mut run = ApplyRun::new(intents);
    match run.next_action() {
        StepAction::AskConfirm(p) => {
            assert_eq!(p.object_type, ObjectType::Group);
            assert_eq!(p.id, "g1");
            assert_eq!(p.alias, "group one");
            assert_eq!(p.current_level, Some(PermissionType::Write));
            assert_eq!(p.target_level, Some(PermissionType::Admin));
        }
        StepAction::Finished => panic!("expected a prompt"),
    }
    // The dispatched upsert carries the source's (target) level.
    let call = run.confirmed(true).expect("confirmed intents dispatch");
    assert_eq!(
        call,
        MutationCall::Upsert {
            object_type: ObjectType::Group,
            id: "g1".to_owned(),
            level: PermissionType::Admin,
        }
    );
}

#[test]
fn add_prompt_has_no_current_level() {
    let intents = vec![add("alice", "a", PermissionType::Read)];
    let mut run = ApplyRun::new(intents);
    match run.next_action() {
        StepAction::AskConfirm(p) => {
            assert_eq!(p.current_level, None);
            assert_eq!(p.target_level, Some(PermissionType::Read));
        }
        StepAction::Finished => panic!("expected a prompt"),
    }
}

#[test]
fn remove_prompt_has_no_target_level() {
    let intents = vec![Intent::Remove {
        permission: perm(ObjectType::User, "alice", "a", PermissionType::Write),
    }];
    let mut run = ApplyRun::new(intents);
    match run.next_action() {
        StepAction::AskConfirm(p) => {
            assert_eq!(p.current_level, Some(PermissionType::Write));
            assert_eq!(p.target_level, None);
        }
        StepAction::Finished => panic!("expected a prompt"),
    }
    let call = run.confirmed(true).expect("confirmed intents dispatch");
    assert_eq!(
        call,
        MutationCall::Delete { object_type: ObjectType::User, id: "a".to_owned() }
    );
}

#[test]
fn empty_run_finishes_immediately() {
    let mut run = ApplyRun::new(Vec::new());
    assert_eq!(run.next_action(), StepAction::Finished);
    assert_eq!(run.applied_count(), 0);
    assert_eq!(run.phase(), Phase::Finished);
}
