use tauri_acl::{
    CommandKey, ExecutionContext, Manifest, Origin, Pattern, Permission, PermissionSet, Resolved,
    ResolvedCommand, ResolvedCommandReference, RuntimeAuthority,
};

fn reference(capability: &str, permission: &str) -> ResolvedCommandReference {
    ResolvedCommandReference {
        capability: capability.into(),
        permission: permission.into(),
    }
}

fn entry(windows: &[&str], refs: Vec<ResolvedCommandReference>) -> ResolvedCommand {
    ResolvedCommand {
        referenced_by: refs,
        windows: windows.iter().map(|w| Pattern::new(w).unwrap()).collect(),
        scope: None,
    }
}

fn key(context: ExecutionContext) -> CommandKey {
    CommandKey {
        name: "plugin:fs|read".into(),
        context,
    }
}

fn set(id: &str, perms: &[&str]) -> PermissionSet {
    PermissionSet {
        identifier: id.into(),
        permissions: perms.iter().map(|p| p.to_string()).collect(),
    }
}

fn permission(id: &str, allow: &[&str]) -> Permission {
    Permission {
        identifier: id.into(),
        allow: allow.iter().map(|p| p.to_string()).collect(),
    }
}

fn manifest() -> Manifest {
    Manifest {
        default_permission: Some(set("default", &["allow-read", "default"])),
        permission_sets: vec![
            ("read-all".into(), set("read-all", &["default", "read-all"])),
            ("write-all".into(), set("write-all", &["allow-write"])),
            ("z-cycle".into(), set("z-cycle", &["a-cycle"])),
            ("a-cycle".into(), set("a-cycle", &["z-cycle"])),
        ],
        permissions: vec![
            ("allow-read".into(), permission("allow-read", &["read"])),
            ("allow-write".into(), permission("allow-write", &["write"])),
        ],
    }
}

#[test]
fn denied_message_lists_references() {
    let a = RuntimeAuthority::new(Resolved {
        denied_commands: vec![(
            key(ExecutionContext::Local),
            entry(&["main"], vec![reference("cap", "deny-read"), reference("cap2", "deny-all")]),
        )],
        ..Default::default()
    });
    assert_eq!(
        a.resolve_access_message("fs", "read", "main", &Origin::Local),
        "fs.read denied on origin local, referenced by: capability: cap, permission: deny-read || capability: cap2, permission: deny-all"
    );
}

#[test]
fn allowed_message() {
    let a = RuntimeAuthority::new(Resolved {
        allowed_commands: vec![(key(ExecutionContext::Local), entry(&["main"], vec![]))],
        ..Default::default()
    });
    assert_eq!(
        a.resolve_access_message("fs", "read", "main", &Origin::Local),
        "allowed"
    );
}

#[test]
fn window_mismatch_message() {
    let a = RuntimeAuthority::new(Resolved {
        allowed_commands: vec![(
            key(ExecutionContext::Local),
            entry(&["main", "settings-*"], vec![reference("cap", "allow-read")]),
        )],
        ..Default::default()
    });
    assert_eq!(
        a.resolve_access_message("fs", "read", "other", &Origin::Local),
        "fs.read not allowed on window other, expected one of main, settings-*, referenced by capability: cap, permission: allow-read"
    );
}

#[test]
fn origin_mismatch_message_lists_matches_and_permissions() {
    let a = RuntimeAuthority::new(Resolved {
        acl: vec![("fs".into(), manifest())],
        allowed_commands: vec![(
            key(ExecutionContext::Remote {
                domain: Pattern::new("tauri.app").unwrap(),
            }),
            entry(&["main"], vec![reference("cap", "allow-read")]),
        )],
        ..Default::default()
    });
    assert_eq!(
        a.resolve_access_message("fs", "read", "main", &Origin::Local),
        "fs.read not allowed on origin [local]. Please create a capability that has this origin on the context field.\n\nFound matches for: - context: [remote: tauri.app], referenced by: capability: cap, permission: allow-read\n\nPermissions associated with this command: fs:allow-read, fs:default, fs:read-all"
    );
}

#[test]
fn unknown_command_message_with_manifest() {
    let a = RuntimeAuthority::new(Resolved {
        acl: vec![("fs".into(), manifest())],
        ..Default::default()
    });
    assert_eq!(
        a.resolve_access_message("fs", "write", "main", &Origin::Local),
        "fs.write not allowed. Permissions associated with this command: fs:allow-write, fs:write-all"
    );
    assert_eq!(
        a.resolve_access_message("fs", "delete", "main", &Origin::Local),
        "fs.delete not allowed. Permissions associated with this command: "
    );
}

#[test]
fn unknown_command_message_without_manifest() {
    let a = RuntimeAuthority::new(Resolved::default());
    assert_eq!(
        a.resolve_access_message("fs", "read", "main", &Origin::Local),
        "fs.read not allowed. Plugin did not define its manifest"
    );
}

#[test]
fn matches_are_listed_in_key_order() {
    let a = RuntimeAuthority::new(Resolved {
        allowed_commands: vec![
            (
                key(ExecutionContext::Remote {
                    domain: Pattern::new("tauri.app").unwrap(),
                }),
                entry(&["main"], vec![reference("web", "allow-read")]),
            ),
            (
                key(ExecutionContext::Local),
                entry(&["settings"], vec![reference("local", "allow-read")]),
            ),
        ],
        ..Default::default()
    });
    assert_eq!(
        a.resolve_access_message(
            "fs",
            "read",
            "main",
            &Origin::Remote {
                domain: "evil.com".into()
            }
        ),
        "fs.read not allowed on origin [remote: evil.com]. Please create a capability that has this origin on the context field.\n\nFound matches for: - context: [local], referenced by: capability: local, permission: allow-read\n- context: [remote: tauri.app], referenced by: capability: web, permission: allow-read\n\nPlugin did not define its manifest"
    );
}
