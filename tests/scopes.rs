use std::cell::Cell;

use serde_json::Value;
use tauri_acl::{
    CommandScope, GlobalScope, Resolved, ResolvedCommand, ResolvedScope, RuntimeAuthority,
    ScopeCache, ScopeError, ScopeManager,
};

fn as_text(v: &Value) -> Result<String, String> {
    v.as_str()
        .map(|s| s.to_string())
        .ok_or_else(|| format!("not a string: {v}"))
}

fn manager() -> ScopeManager {
    ScopeManager::new(
        vec![(
            7,
            ResolvedScope {
                allow: vec![Value::String("$HOME/*".into())],
                deny: vec![Value::String("$HOME/secret".into())],
            },
        )],
        vec![(
            "fs".to_string(),
            ResolvedScope {
                allow: vec![Value::String("a".into()), Value::String("b".into())],
                deny: vec![],
            },
        )],
    )
}

#[test]
fn command_scope_is_typed_and_cached_once() {
    let m = manager();
    let calls = Cell::new(0u32);
    let convert = |v: &Value| {
        calls.set(calls.get() + 1);
        as_text(v)
    };
    let mut cache: ScopeCache<String> = ScopeCache::new();
    {
        let first = cache.get_command_scope_typed(&m, 7, &convert).unwrap();
        assert_eq!(first.allows(), &vec!["$HOME/*".to_string()]);
        assert_eq!(first.denies(), &vec!["$HOME/secret".to_string()]);
    }
    assert_eq!(calls.get(), 2);
    let second = cache.get_command_scope_typed(&m, 7, &convert).unwrap();
    assert_eq!(second.allows(), &vec!["$HOME/*".to_string()]);
    assert_eq!(calls.get(), 2);
}

#[test]
fn failed_conversion_is_not_cached() {
    let m = ScopeManager::new(
        vec![(
            1,
            ResolvedScope {
                allow: vec![Value::from(5)],
                deny: vec![],
            },
        )],
        vec![],
    );
    let mut cache: ScopeCache<String> = ScopeCache::new();
    let err = cache.get_command_scope_typed(&m, 1, &as_text).unwrap_err();
    assert_eq!(err, "not a string: 5");
    let lenient = |v: &Value| Ok::<String, String>(v.to_string());
    let ok = cache.get_command_scope_typed(&m, 1, &lenient).unwrap();
    assert_eq!(ok.allows(), &vec!["5".to_string()]);
}

#[test]
fn failure_in_denied_values_fails_the_request() {
    let m = ScopeManager::new(
        vec![(
            2,
            ResolvedScope {
                allow: vec![Value::String("ok".into())],
                deny: vec![Value::Bool(true)],
            },
        )],
        vec![],
    );
    let mut cache: ScopeCache<String> = ScopeCache::new();
    assert_eq!(
        cache.get_command_scope_typed(&m, 2, &as_text).unwrap_err(),
        "not a string: true"
    );
}

#[test]
fn unknown_scope_key_and_plugin_are_empty() {
    let m = manager();
    let mut cache: ScopeCache<String> = ScopeCache::new();
    {
        let v = cache.get_command_scope_typed(&m, 99, &as_text).unwrap();
        assert!(v.allows().is_empty());
        assert!(v.denies().is_empty());
    }
    let g = cache.get_global_scope_typed(&m, "unknown", &as_text).unwrap();
    assert!(g.allows().is_empty());
    assert!(g.denies().is_empty());
}

#[test]
fn global_scope_by_plugin() {
    let m = manager();
    let mut cache: ScopeCache<String> = ScopeCache::new();
    let g = cache.get_global_scope_typed(&m, "fs", &as_text).unwrap();
    assert_eq!(g.allows(), &vec!["a".to_string(), "b".to_string()]);
    assert!(g.denies().is_empty());
}

#[test]
fn command_without_scope_key_gets_empty_scope() {
    let m = manager();
    let mut cache: ScopeCache<String> = ScopeCache::new();
    let resolved = ResolvedCommand::new();
    let scope = CommandScope::from_command(Some(&resolved), &m, &mut cache, &as_text).unwrap();
    assert!(scope.allows().is_empty());
    assert!(scope.denies().is_empty());
    let none = CommandScope::from_command(None, &m, &mut cache, &as_text).unwrap();
    assert!(none.allows().is_empty());
}

#[test]
fn command_with_scope_key_gets_its_scope() {
    let m = manager();
    let mut cache: ScopeCache<String> = ScopeCache::new();
    let resolved = ResolvedCommand {
        scope: Some(7),
        ..ResolvedCommand::new()
    };
    let scope = CommandScope::from_command(Some(&resolved), &m, &mut cache, &as_text).unwrap();
    assert_eq!(scope.allows(), &vec!["$HOME/*".to_string()]);
    assert_eq!(scope.denies(), &vec!["$HOME/secret".to_string()]);
}

#[test]
fn command_scope_conversion_error() {
    let m = manager();
    let mut cache: ScopeCache<u64> = ScopeCache::new();
    let resolved = ResolvedCommand {
        scope: Some(7),
        ..ResolvedCommand::new()
    };
    let as_number = |v: &Value| v.as_u64().ok_or("not a number");
    let r = CommandScope::from_command(Some(&resolved), &m, &mut cache, &as_number);
    assert!(matches!(
        r,
        Err(ScopeError::CannotDeserializeScope("not a number"))
    ));
}

#[test]
fn global_scope_for_app_command_is_misuse() {
    let m = manager();
    let mut cache: ScopeCache<String> = ScopeCache::new();
    let r = GlobalScope::from_command(None, &m, &mut cache, &as_text);
    assert!(matches!(r, Err(ScopeError::GlobalScopeForAppCommand)));
}

#[test]
fn global_scope_for_plugin_command() {
    let m = manager();
    let mut cache: ScopeCache<String> = ScopeCache::new();
    let g = GlobalScope::from_command(Some("fs"), &m, &mut cache, &as_text).unwrap();
    assert_eq!(g.allows(), &vec!["a".to_string(), "b".to_string()]);
    assert!(g.denies().is_empty());
}

#[test]
fn authority_hands_out_its_scopes() {
    let authority = RuntimeAuthority::new(Resolved {
        command_scope: vec![(
            3,
            ResolvedScope {
                allow: vec![Value::String("x".into())],
                deny: vec![],
            },
        )],
        ..Default::default()
    });
    let mut cache: ScopeCache<String> = ScopeCache::new();
    let v = cache
        .get_command_scope_typed(authority.scope_manager(), 3, &as_text)
        .unwrap();
    assert_eq!(v.allows(), &vec!["x".to_string()]);
}

#[test]
fn last_raw_scope_of_a_key_stands() {
    let m = ScopeManager::new(
        vec![
            (
                4,
                ResolvedScope {
                    allow: vec![Value::String("old".into())],
                    deny: vec![],
                },
            ),
            (
                4,
                ResolvedScope {
                    allow: vec![Value::String("new".into())],
                    deny: vec![],
                },
            ),
        ],
        vec![],
    );
    let mut cache: ScopeCache<String> = ScopeCache::new();
    let v = cache.get_command_scope_typed(&m, 4, &as_text).unwrap();
    assert_eq!(v.allows(), &vec!["new".to_string()]);
}
