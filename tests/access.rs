use tauri_acl::{
    CommandKey, ExecutionContext, Origin, Pattern, Resolved, ResolvedCommand, RuntimeAuthority,
};

fn local_key(name: &str) -> CommandKey {
    CommandKey {
        name: name.to_string(),
        context: ExecutionContext::Local,
    }
}

fn remote_key(name: &str, domain: &str) -> CommandKey {
    CommandKey {
        name: name.to_string(),
        context: ExecutionContext::Remote {
            domain: Pattern::new(domain).unwrap(),
        },
    }
}

fn on_windows(windows: &[&str]) -> ResolvedCommand {
    ResolvedCommand {
        windows: windows.iter().map(|w| Pattern::new(w).unwrap()).collect(),
        ..ResolvedCommand::new()
    }
}

fn authority(
    allowed: Vec<(CommandKey, ResolvedCommand)>,
    denied: Vec<(CommandKey, ResolvedCommand)>,
) -> RuntimeAuthority {
    RuntimeAuthority::new(Resolved {
        allowed_commands: allowed,
        denied_commands: denied,
        ..Default::default()
    })
}

#[test]
fn pattern_matches_glob() {
    let p = Pattern::new("main-*").unwrap();
    assert!(p.matches("main-something"));
    assert!(!p.matches("other"));
    assert_eq!(p.as_str(), "main-*");
    assert!(Pattern::new("c?t").unwrap().matches("cat"));
    assert!(!Pattern::new("c?t").unwrap().matches("cart"));
}

#[test]
fn invalid_pattern_is_rejected() {
    let e = Pattern::new("main-[").unwrap_err();
    assert_eq!(e.pattern, "main-[");
    assert!(Pattern::new("a***b").is_err());
}

#[test]
fn local_origin_matches_only_local() {
    let local = ExecutionContext::Local;
    let remote = ExecutionContext::Remote {
        domain: Pattern::new("*").unwrap(),
    };
    assert!(Origin::Local.matches(&local));
    assert!(!Origin::Local.matches(&remote));
    let r = Origin::Remote {
        domain: "tauri.app".into(),
    };
    assert!(!r.matches(&local));
    assert!(r.matches(&remote));
}

#[test]
fn remote_domain_pattern_matches_by_glob() {
    let ctx = ExecutionContext::Remote {
        domain: Pattern::new("tauri.*").unwrap(),
    };
    for d in ["tauri.app", "tauri.studio"] {
        assert!(Origin::Remote { domain: d.into() }.matches(&ctx));
    }
    assert!(!Origin::Remote {
        domain: "evil.com".into()
    }
    .matches(&ctx));
    assert!(!Origin::Local.matches(&ctx));
}

#[test]
fn window_pattern_scenario() {
    let entry = on_windows(&["main-*"]);
    let a = authority(vec![(local_key("my-command"), entry.clone())], vec![]);
    assert_eq!(
        a.resolve_access("my-command", "main-1", &Origin::Local),
        Some(&entry)
    );
    assert_eq!(a.resolve_access("my-command", "other", &Origin::Local), None);
}

#[test]
fn remote_domain_scenario() {
    let entry = on_windows(&["main"]);
    let a = authority(vec![(remote_key("my-command", "tauri.app"), entry.clone())], vec![]);
    assert_eq!(
        a.resolve_access(
            "my-command",
            "main",
            &Origin::Remote {
                domain: "tauri.app".into()
            }
        ),
        Some(&entry)
    );
    assert_eq!(
        a.resolve_access(
            "my-command",
            "main",
            &Origin::Remote {
                domain: "evil.com".into()
            }
        ),
        None
    );
    assert_eq!(a.resolve_access("my-command", "main", &Origin::Local), None);
}

#[test]
fn deny_and_allow_same_key_scenario() {
    let entry = on_windows(&["main"]);
    let a = authority(
        vec![(local_key("my-command"), entry.clone())],
        vec![(local_key("my-command"), entry.clone())],
    );
    assert_eq!(a.resolve_access("my-command", "main", &Origin::Local), None);
}

#[test]
fn deny_for_other_origin_does_not_block() {
    let entry = on_windows(&["main"]);
    let a = authority(
        vec![(local_key("my-command"), entry.clone())],
        vec![(remote_key("my-command", "evil.com"), on_windows(&["*"]))],
    );
    assert_eq!(
        a.resolve_access("my-command", "main", &Origin::Local),
        Some(&entry)
    );
    assert_eq!(
        a.resolve_access(
            "my-command",
            "main",
            &Origin::Remote {
                domain: "evil.com".into()
            }
        ),
        None
    );
}

#[test]
fn unknown_command_is_refused() {
    let a = authority(vec![(local_key("my-command"), on_windows(&["*"]))], vec![]);
    assert_eq!(a.resolve_access("other-command", "main", &Origin::Local), None);
}

#[test]
fn first_matching_context_in_key_order_decides() {
    let glob = on_windows(&["settings"]);
    let exact = on_windows(&["main"]);
    // "tauri.*" orders before "tauri.app", whatever the order given
    let a = authority(
        vec![
            (remote_key("cmd", "tauri.app"), exact),
            (remote_key("cmd", "tauri.*"), glob),
        ],
        vec![],
    );
    let origin = Origin::Remote {
        domain: "tauri.app".into(),
    };
    assert_eq!(a.resolve_access("cmd", "main", &origin), None);
    assert!(a.resolve_access("cmd", "settings", &origin).is_some());
}

#[test]
fn resolving_twice_gives_the_same_answer() {
    let entry = on_windows(&["main-*"]);
    let a = authority(vec![(local_key("my-command"), entry.clone())], vec![]);
    for (window, origin) in [("main-1", Origin::Local), ("other", Origin::Local)] {
        let first = a.resolve_access("my-command", window, &origin).cloned();
        let second = a.resolve_access("my-command", window, &origin).cloned();
        assert_eq!(first, second);
    }
}

#[test]
fn origin_text() {
    assert_eq!(Origin::Local.to_string(), "local");
    assert_eq!(
        Origin::Remote {
            domain: "tauri.app".into()
        }
        .to_string(),
        "remote: tauri.app"
    );
}

#[test]
fn later_entry_of_same_key_replaces_earlier() {
    let old = on_windows(&["main"]);
    let new = on_windows(&["settings"]);
    let a = authority(
        vec![
            (local_key("cmd"), old),
            (local_key("cmd"), new.clone()),
        ],
        vec![],
    );
    assert_eq!(a.resolve_access("cmd", "main", &Origin::Local), None);
    assert_eq!(a.resolve_access("cmd", "settings", &Origin::Local), Some(&new));
}
