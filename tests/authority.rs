use tauri_acl::{
    CommandKey, ExecutionContext, Origin, Pattern, Resolved, ResolvedCommand, RuntimeAuthority,
};

#[test]
fn window_glob_pattern_matches() {
    let command = CommandKey {
        name: "my-command".into(),
        context: ExecutionContext::Local,
    };
    let window = "main-*";

    let resolved_cmd = ResolvedCommand {
        windows: vec![Pattern::new(window).unwrap()],
        ..ResolvedCommand::new()
    };
    let allowed_commands = vec![(command.clone(), resolved_cmd.clone())];

    let authority = RuntimeAuthority::new(Resolved {
        allowed_commands,
        ..Default::default()
    });

    assert_eq!(
        authority.resolve_access(
            &command.name,
            &window.replace('*', "something"),
            &Origin::Local
        ),
        Some(&resolved_cmd)
    );
}

#[test]
fn remote_domain_matches() {
    let domain = "tauri.app";
    let command = CommandKey {
        name: "my-command".into(),
        context: ExecutionContext::Remote {
            domain: Pattern::new(domain).unwrap(),
        },
    };
    let window = "main";

    let resolved_cmd = ResolvedCommand {
        windows: vec![Pattern::new(window).unwrap()],
        scope: None,
        ..ResolvedCommand::new()
    };
    let allowed_commands = vec![(command.clone(), resolved_cmd.clone())];

    let authority = RuntimeAuthority::new(Resolved {
        allowed_commands,
        ..Default::default()
    });

    assert_eq!(
        authority.resolve_access(
            &command.name,
            window,
            &Origin::Remote {
                domain: domain.into()
            }
        ),
        Some(&resolved_cmd)
    );
}

#[test]
fn remote_domain_glob_pattern_matches() {
    let domain = "tauri.*";
    let command = CommandKey {
        name: "my-command".into(),
        context: ExecutionContext::Remote {
            domain: Pattern::new(domain).unwrap(),
        },
    };
    let window = "main";

    let resolved_cmd = ResolvedCommand {
        windows: vec![Pattern::new(window).unwrap()],
        scope: None,
        ..ResolvedCommand::new()
    };
    let allowed_commands = vec![(command.clone(), resolved_cmd.clone())];

    let authority = RuntimeAuthority::new(Resolved {
        allowed_commands,
        ..Default::default()
    });

    assert_eq!(
        authority.resolve_access(
            &command.name,
            window,
            &Origin::Remote {
                domain: domain.replace('*', "studio")
            }
        ),
        Some(&resolved_cmd)
    );
}

#[test]
fn remote_context_denied() {
    let command = CommandKey {
        name: "my-command".into(),
        context: ExecutionContext::Local,
    };
    let window = "main";

    let resolved_cmd = ResolvedCommand {
        windows: vec![Pattern::new(window).unwrap()],
        scope: None,
        ..ResolvedCommand::new()
    };
    let allowed_commands = vec![(command.clone(), resolved_cmd.clone())];

    let authority = RuntimeAuthority::new(Resolved {
        allowed_commands,
        ..Default::default()
    });

    assert!(authority
        .resolve_access(
            &command.name,
            window,
            &Origin::Remote {
                domain: "tauri.app".into()
            }
        )
        .is_none());
}

#[test]
fn denied_command_takes_precendence() {
    let command = CommandKey {
        name: "my-command".into(),
        context: ExecutionContext::Local,
    };
    let window = "main";
    let windows = vec![Pattern::new(window).unwrap()];
    let allowed_commands = vec![(
        command.clone(),
        ResolvedCommand {
            windows: windows.clone(),
            ..ResolvedCommand::new()
        },
    )];
    let denied_commands = vec![(
        command.clone(),
        ResolvedCommand {
            windows: windows.clone(),
            ..ResolvedCommand::new()
        },
    )];

    let authority = RuntimeAuthority::new(Resolved {
        allowed_commands,
        denied_commands,
        ..Default::default()
    });

    assert!(authority
        .resolve_access(&command.name, window, &Origin::Local)
        .is_none());
}
