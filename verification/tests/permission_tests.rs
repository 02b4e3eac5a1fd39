use merco_auth::error::AuthError;
use merco_auth::permission::Permission;
use merco_auth::role::{effective_permissions, effective_permissions_for, Role, RoleStore, UserRoleStore};

#[test]
fn test_permission_creation() {
    let perm = Permission::new("posts".to_string(), "read".to_string());
    assert_eq!(perm.resource, "posts");
    assert_eq!(perm.action, "read");
}

#[test]
fn test_permission_string() {
    let perm = Permission::new("posts".to_string(), "write".to_string());
    assert_eq!(perm.to_string(), "posts:write");
}

#[test]
fn test_permission_from_string() {
    let perm = Permission::from_string("posts:delete").unwrap();
    assert_eq!(perm.resource, "posts");
    assert_eq!(perm.action, "delete");
}

#[test]
fn test_permission_wildcard_match() {
    let perm = Permission::new("posts".to_string(), "read".to_string());
    assert!(perm.matches("*"));
    assert!(perm.matches("*:*"));
    assert!(perm.matches("posts:*"));
    assert!(perm.matches("*:read"));
    assert!(perm.matches("posts:read"));
    assert!(!perm.matches("users:read"));
}

#[test]
fn test_role_permissions() {
    let mut role = Role::new(7, "editor".to_string(), 1_700_000_000);
    role.add_permission(Permission::new("posts".to_string(), "read".to_string()));
    role.add_permission(Permission::new("posts".to_string(), "write".to_string()));

    assert!(role.has_permission(&Permission::new("posts".to_string(), "read".to_string())));
    assert!(role.has_permission(&Permission::new("posts".to_string(), "write".to_string())));
    assert!(!role.has_permission(&Permission::new("posts".to_string(), "delete".to_string())));
}

#[test]
fn test_permission_from_string_rejects_other_shapes() {
    assert!(Permission::from_string("noseparator").is_none());
    assert!(Permission::from_string("a:b:c").is_none());
    assert!(Permission::from_string("").is_none());
    let edge = Permission::from_string(":").unwrap();
    assert_eq!(edge.resource, "");
    assert_eq!(edge.action, "");
}

#[test]
fn test_role_with_permissions_deduplicates() {
    let perms = vec![
        Permission::new("posts".to_string(), "read".to_string()),
        Permission::new("posts".to_string(), "read".to_string()),
        Permission::new("posts".to_string(), "write".to_string()),
    ];
    let role = Role::new(1, "editor".to_string(), 0).with_permissions(perms);
    assert_eq!(role.permissions.len(), 2);
}

#[test]
fn test_role_remove_permission() {
    let mut role = Role::new(1, "editor".to_string(), 0);
    role.add_permission(Permission::new("posts".to_string(), "read".to_string()));
    role.add_permission(Permission::new("posts".to_string(), "read".to_string()));
    assert_eq!(role.permissions.len(), 1);
    role.remove_permission(&Permission::new("posts".to_string(), "read".to_string()));
    assert_eq!(role.permissions.len(), 0);
}

#[test]
fn test_effective_permissions_union() {
    let mut editor = Role::new(1, "editor".to_string(), 0);
    editor.add_permission(Permission::new("posts".to_string(), "read".to_string()));
    editor.add_permission(Permission::new("posts".to_string(), "write".to_string()));
    let mut viewer = Role::new(1, "viewer".to_string(), 0);
    viewer.add_permission(Permission::new("posts".to_string(), "read".to_string()));
    viewer.add_permission(Permission::new("users".to_string(), "read".to_string()));

    let all = effective_permissions(&vec![editor, viewer]);
    assert_eq!(all.len(), 3);
}

#[test]
fn test_role_store_unique_names_per_tenant() {
    let mut store = RoleStore::new();
    let editor = Role::new(1, "editor".to_string(), 0);
    store.create(&editor).unwrap();

    let clash = Role::new(1, "editor".to_string(), 1);
    assert_eq!(store.create(&clash).unwrap_err(), AuthError::Database);

    // The same name in another tenant is free.
    let other = Role::new(2, "editor".to_string(), 2);
    store.create(&other).unwrap();

    assert!(store.find_by_name(1, "editor").is_some());
    assert!(store.find_by_name(1, "viewer").is_none());
    assert_eq!(store.list(1).len(), 1);
}

#[test]
fn test_user_role_assignments() {
    let mut roles = RoleStore::new();
    let editor = Role::new(1, "editor".to_string(), 0)
        .with_permissions(vec![
            Permission::new("posts".to_string(), "read".to_string()),
            Permission::new("posts".to_string(), "write".to_string()),
        ]);
    let viewer = Role::new(1, "viewer".to_string(), 0)
        .with_permissions(vec![Permission::new("posts".to_string(), "read".to_string())]);
    let editor_id = editor.id;
    let viewer_id = viewer.id;
    roles.create(&editor).unwrap();
    roles.create(&viewer).unwrap();

    let mut edges = UserRoleStore::new();
    edges.assign_role(42, editor_id);
    edges.assign_role(42, editor_id); // duplicate grant is a no-op
    edges.assign_role(42, viewer_id);
    assert_eq!(edges.assignments.len(), 2);

    assert!(edges.has_role(&roles, 42, "editor"));
    assert!(!edges.has_role(&roles, 42, "admin"));
    assert!(!edges.has_role(&roles, 7, "editor"));

    let perms = effective_permissions_for(&edges, &roles, 42);
    assert_eq!(perms.len(), 2);

    edges.remove_role(42, editor_id);
    assert!(!edges.has_role(&roles, 42, "editor"));
    assert_eq!(effective_permissions_for(&edges, &roles, 42).len(), 1);
}

#[test]
fn test_granted_wildcard_satisfies_concrete_query() {
    // A wildcard stored as a granted permission satisfies any concrete
    // query in that position.
    let all = Permission::new("*".to_string(), "*".to_string());
    assert!(all.matches("posts:read"));

    let any_action = Permission::new("posts".to_string(), "*".to_string());
    assert!(any_action.matches("posts:read"));
    assert!(!any_action.matches("users:read"));

    let any_resource = Permission::new("*".to_string(), "read".to_string());
    assert!(any_resource.matches("posts:read"));
    assert!(!any_resource.matches("posts:write"));

    let mut admin = Role::new(1, "admin".to_string(), 0);
    admin.add_permission(Permission::new("*".to_string(), "*".to_string()));
    assert!(admin.has_permission(&Permission::new("posts".to_string(), "read".to_string())));
}
