use bbdan::model::ObjectType;
use bbdan::model::Permission;
use bbdan::model::PermissionType;
use bbdan::reader::RemoteGrant;
use bbdan::reader::SubFetch;
use bbdan::reader::assemble_directory;
use bbdan::reader::normalize_grants;

fn grant(permission: &str, principal_type: &str, display_name: &str, id: &str) -> RemoteGrant {
    RemoteGrant {
        permission: permission.to_owned(),
        principal_type: principal_type.to_owned(),
        display_name: display_name.to_owned(),
        id: id.to_owned(),
    }
}

fn perm(object_type: ObjectType, alias: &str, id: &str, level: PermissionType) -> Permission {
    Permission {
        object_type,
        alias: alias.to_owned(),
        id: id.to_owned(),
        permission: level,
    }
}

#[test]
fn normalization_maps_each_record() {
    let grants = vec![
        grant("admin", "group", "devs", "devs-slug"),
        grant("write", "user", "alice", "{uuid-a}"),
    ];
    let r = normalize_grants(&grants);
    assert_eq!(
        r,
        vec![
            perm(ObjectType::Group, "devs", "devs-slug", PermissionType::Admin),
            perm(ObjectType::User, "alice", "{uuid-a}", PermissionType::Write),
        ]
    );
}

#[test]
fn normalization_applies_lenient_defaults() {
    let grants = vec![grant("owner", "robot", "mystery", "m1")];
    let r = normalize_grants(&grants);
    assert_eq!(r, vec![perm(ObjectType::User, "mystery", "m1", PermissionType::Read)]);
}

#[test]
fn directory_concatenates_groups_before_users() {
    let groups = SubFetch::Completed(vec![grant("read", "group", "devs", "devs-slug")]);
    let users = SubFetch::Completed(vec![grant("admin", "user", "alice", "{uuid-a}")]);
    let dir = assemble_directory(groups, users);
    assert_eq!(
        dir,
        vec![
            perm(ObjectType::Group, "devs", "devs-slug", PermissionType::Read),
            perm(ObjectType::User, "alice", "{uuid-a}", PermissionType::Admin),
        ]
    );
}

#[test]
fn rejected_group_read_contributes_nothing() {
    let users = SubFetch::Completed(vec![grant("write", "user", "alice", "{uuid-a}")]);
    let dir = assemble_directory(SubFetch::Rejected, users);
    assert_eq!(dir, vec![perm(ObjectType::User, "alice", "{uuid-a}", PermissionType::Write)]);
}

#[test]
fn rejected_user_read_keeps_group_contribution() {
    let groups = SubFetch::Completed(vec![grant("read", "group", "devs", "devs-slug")]);
    let dir = assemble_directory(groups, SubFetch::Rejected);
    assert_eq!(dir, vec![perm(ObjectType::Group, "devs", "devs-slug", PermissionType::Read)]);
}

#[test]
fn two_rejected_reads_give_an_empty_directory() {
    let dir = assemble_directory(SubFetch::Rejected, SubFetch::Rejected);
    assert!(dir.is_empty());
}
