//! Runtime access control for inter-process commands: origin and window
//! matching, command resolution with deny precedence, typed scope caches,
//! diagnostics, and a submenu description builder.

mod acl;
mod authority;
mod diagnostics;
mod manifest;
mod menu;
mod order;
mod pattern;
mod scope;
mod text;

pub use acl::{
    local_and_remote_are_disjoint, origin_matches, remote_matches_by_glob, CommandKey,
    ExecutionContext, Origin, ResolvedCommand, ResolvedCommandReference, ResolvedScope, ScopeKey,
};
pub use authority::{
    denied_entry_takes_precedence, resolve_access_is_deterministic, Resolved, RuntimeAuthority,
};
pub use manifest::{Manifest, Permission, PermissionSet};
pub use menu::{
    AboutMetadata, Icon, MenuId, MenuItemKind, NativeIcon, PredefinedMenuItem, Submenu,
    SubmenuBuilder,
};
pub use pattern::{Pattern, PatternError};
pub use scope::{
    command_scope_converted_once, failed_conversion_not_cached, unknown_plugin_is_empty,
    unknown_scope_key_is_empty, CommandScope, GlobalScope, ScopeCache, ScopeError, ScopeManager,
    ScopeValue,
};
