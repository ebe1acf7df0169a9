use bbdan::diff::Intent;
use bbdan::diff::diff;
use bbdan::model::ObjectType;
use bbdan::model::Permission;
use bbdan::model::PermissionType;

fn perm(object_type: ObjectType, alias: &str, id: &str, level: PermissionType) -> Permission {
    Permission {
        object_type,
        alias: alias.to_owned(),
        id: id.to_owned(),
        permission: level,
    }
}

#[test]
fn diff_pure_add() {
    let src = vec![perm(ObjectType::User, "user one", "u1", PermissionType::Read)];
    let dst: Vec<Permission> = vec![];
    let r = diff(&src, &dst);
    assert_eq!(
        r,
        vec![Intent::Add {
            permission: perm(ObjectType::User, "user one", "u1", PermissionType::Read),
        }]
    );
}

#[test]
fn diff_pure_update() {
    let src = vec![perm(ObjectType::Group, "group one", "g1", PermissionType::Admin)];
    let dst = vec![perm(ObjectType::Group, "group one", "g1", PermissionType::Write)];
    let r = diff(&src, &dst);
    assert_eq!(
        r,
        vec![Intent::Update {
            object_type: ObjectType::Group,
            id: "g1".to_owned(),
            alias: "group one".to_owned(),
            from_level: PermissionType::Write,
            to_level: PermissionType::Admin,
        }]
    );
}

#[test]
fn diff_pure_remove() {
    let src: Vec<Permission> = vec![];
    let dst = vec![perm(ObjectType::User, "user two", "u2", PermissionType::Read)];
    let r = diff(&src, &dst);
    assert_eq!(
        r,
        vec![Intent::Remove {
            permission: perm(ObjectType::User, "user two", "u2", PermissionType::Read),
        }]
    );
}

#[test]
fn diff_mixed() {
    let src = vec![
        perm(ObjectType::User, "alice", "a", PermissionType::Read),
        perm(ObjectType::User, "bob", "b", PermissionType::Write),
    ];
    let dst = vec![
        perm(ObjectType::User, "bob", "b", PermissionType::Admin),
        perm(ObjectType::User, "carol", "c", PermissionType::Read),
    ];
    let r = diff(&src, &dst);
    assert_eq!(
        r,
        vec![
            Intent::Add {
                permission: perm(ObjectType::User, "alice", "a", PermissionType::Read),
            },
            Intent::Update {
                object_type: ObjectType::User,
                id: "b".to_owned(),
                alias: "bob".to_owned(),
                from_level: PermissionType::Admin,
                to_level: PermissionType::Write,
            },
            Intent::Remove {
                permission: perm(ObjectType::User, "carol", "c", PermissionType::Read),
            },
        ]
    );
}

#[test]
fn diff_noop_for_equal_level() {
    let src = vec![perm(ObjectType::Group, "group one", "g1", PermissionType::Write)];
    let dst = vec![perm(ObjectType::Group, "group one", "g1", PermissionType::Write)];
    let r = diff(&src, &dst);
    assert_eq!(r, vec![Intent::NoOp { id: "g1".to_owned() }]);
}

#[test]
fn diff_is_deterministic() {
    let src = vec![
        perm(ObjectType::User, "alice", "a", PermissionType::Read),
        perm(ObjectType::Group, "group one", "g1", PermissionType::Admin),
    ];
    let dst = vec![
        perm(ObjectType::Group, "group one", "g1", PermissionType::Read),
        perm(ObjectType::User, "dave", "d", PermissionType::Write),
    ];
    let first = diff(&src, &dst);
    let second = diff(&src, &dst);
    assert_eq!(first, second);
}

#[test]
fn diff_does_not_touch_inputs() {
    let src = vec![perm(ObjectType::User, "alice", "a", PermissionType::Read)];
    let dst = vec![perm(ObjectType::User, "bob", "b", PermissionType::Write)];
    let _ = diff(&src, &dst);
    assert_eq!(src, vec![perm(ObjectType::User, "alice", "a", PermissionType::Read)]);
    assert_eq!(dst, vec![perm(ObjectType::User, "bob", "b", PermissionType::Write)]);
}

#[test]
fn diff_orders_source_pass_before_removals() {
    let src = vec![
        perm(ObjectType::User, "alice", "a", PermissionType::Read),
        perm(ObjectType::User, "bob", "b", PermissionType::Write),
    ];
    let dst = vec![
        perm(ObjectType::User, "carol", "c", PermissionType::Read),
        perm(ObjectType::User, "bob", "b", PermissionType::Write),
        perm(ObjectType::User, "dave", "d", PermissionType::Admin),
    ];
    let r = diff(&src, &dst);
    assert_eq!(r.len(), 4);
    assert!(matches!(r[0], Intent::Add { .. }));
    assert!(matches!(r[1], Intent::NoOp { .. }));
    // Removals come after the whole source pass, in destination order.
    match &r[2] {
        Intent::Remove { permission } => assert_eq!(permission.id, "c"),
        other => panic!("expected a removal, got {:?}", other),
    }
    match &r[3] {
        Intent::Remove { permission } => assert_eq!(permission.id, "d"),
        other => panic!("expected a removal, got {:?}", other),
    }
}

#[test]
fn diff_destination_lookup_is_last_write_wins() {
    let src = vec![perm(ObjectType::User, "alice", "a", PermissionType::Admin)];
    let dst = vec![
        perm(ObjectType::User, "alice", "a", PermissionType::Read),
        perm(ObjectType::User, "alice", "a", PermissionType::Admin),
    ];
    let r = diff(&src, &dst);
    // The later destination grant decides: same level, so no change.
    assert_eq!(r[0], Intent::NoOp { id: "a".to_owned() });
}
