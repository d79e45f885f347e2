use vstd::prelude::*;

use crate::acl::{origin_matches, CommandKey, Origin, ResolvedCommand, ResolvedScope, ScopeKey};
use crate::diagnostics::{
    access_message, push_matches, push_origin, push_permissions, push_references, push_windows,
    sorted_permutation,
};
use crate::manifest::{permissions_referencing, referencing_permissions, Manifest};
use crate::order::{sorted_entries, sorted_table, table_of};
use crate::pattern::{glob_matches, Pattern};
use crate::scope::{find_name, lookup_name, ScopeManager};
use crate::text::{push_str, sort_strings, text_le, texts};

verus! {

/// A fully resolved access control list.
#[derive(Debug, Clone)]
pub struct Resolved {
    /// Plugin manifests by plugin name, for diagnostics.
    pub acl: Vec<(String, Manifest)>,
    /// Allowed command entries.
    pub allowed_commands: Vec<(CommandKey, ResolvedCommand)>,
    /// Denied command entries.
    pub denied_commands: Vec<(CommandKey, ResolvedCommand)>,
    /// Command scopes by scope key.
    pub command_scope: Vec<(ScopeKey, ResolvedScope)>,
    /// Plugin global scopes by plugin name.
    pub global_scope: Vec<(String, ResolvedScope)>,
}

impl Default for Resolved {
    fn default() -> (r: Resolved)
        ensures
            r.acl@.len() == 0,
            r.allowed_commands@.len() == 0,
            r.denied_commands@.len() == 0,
            r.command_scope@.len() == 0,
            r.global_scope@.len() == 0,
    {
        Resolved {
            acl: Vec::new(),
            allowed_commands: Vec::new(),
            denied_commands: Vec::new(),
            command_scope: Vec::new(),
            global_scope: Vec::new(),
        }
    }
}

/// Whether an entry key names the command and its context admits the origin.
pub open spec fn key_applies(key: CommandKey, command: Seq<char>, origin: Origin) -> bool {
    key.name@ == command && origin_matches(origin, key.context)
}

/// Whether one of the window patterns matches the window label.
pub open spec fn window_allowed(windows: Seq<Pattern>, window: Seq<char>) -> bool {
    exists|i: int| 0 <= i < windows.len() && glob_matches(#[trigger] windows[i]@, window)
}

/// Whether some entry of the table applies to the command and origin.
pub open spec fn any_applies(
    table: Seq<(CommandKey, ResolvedCommand)>,
    command: Seq<char>,
    origin: Origin,
) -> bool {
    exists|i: int| 0 <= i < table.len() && key_applies(#[trigger] table[i].0, command, origin)
}

/// Whether entry `i` is the first of the table that applies.
pub open spec fn first_applies(
    table: Seq<(CommandKey, ResolvedCommand)>,
    i: int,
    command: Seq<char>,
    origin: Origin,
) -> bool {
    &&& 0 <= i < table.len()
    &&& key_applies(table[i].0, command, origin)
    &&& forall|j: int| 0 <= j < i ==> !key_applies(#[trigger] table[j].0, command, origin)
}

/// The outcome of an access check: nothing where a denied entry applies;
/// else the first applicable allowed entry, provided one of its window
/// patterns matches the window; else nothing.
pub open spec fn resolve_in(
    allowed: Seq<(CommandKey, ResolvedCommand)>,
    denied: Seq<(CommandKey, ResolvedCommand)>,
    command: Seq<char>,
    window: Seq<char>,
    origin: Origin,
) -> Option<ResolvedCommand> {
    if any_applies(denied, command, origin) {
        None
    } else if exists|i: int| first_applies(allowed, i, command, origin) {
        let i = choose|i: int| first_applies(allowed, i, command, origin);
        if window_allowed(allowed[i].1.windows@, window) {
            Some(allowed[i].1)
        } else {
            None
        }
    } else {
        None
    }
}

/// Only one entry can be the first that applies.
pub(crate) proof fn first_applies_unique(
    table: Seq<(CommandKey, ResolvedCommand)>,
    i: int,
    k: int,
    command: Seq<char>,
    origin: Origin,
)
    requires
        first_applies(table, i, command, origin),
        first_applies(table, k, command, origin),
    ensures
        i == k,
{
    if i < k {
        assert(!key_applies(table[i].0, command, origin));
    } else if k < i {
        assert(!key_applies(table[k].0, command, origin));
    }
}

/// The runtime authority used to authorize IPC execution based on the
/// access control list.
pub struct RuntimeAuthority {
    acl: Vec<(String, Manifest)>,
    allowed_commands: Vec<(CommandKey, ResolvedCommand)>,
    denied_commands: Vec<(CommandKey, ResolvedCommand)>,
    scope_manager: ScopeManager,
}

/// Whether a window pattern of the list matches the label.
fn any_window_matches(windows: &Vec<Pattern>, window: &str) -> (r: bool)
    ensures
        r == window_allowed(windows@, window@),
{
    let mut i: usize = 0;
    while i < windows.len()
        invariant
            i <= windows@.len(),
            forall|j: int| 0 <= j < i ==> !glob_matches(#[trigger] windows@[j]@, window@),
        decreases windows.len() - i,
    {
        if windows[i].matches(window) {
            return true;
        }
        i += 1;
    }
    false
}

/// The index of the first entry of the table that applies, if any.
pub(crate) fn find_applicable(table: &Vec<(CommandKey, ResolvedCommand)>, command: &String, origin: &Origin) -> (r:
    Option<usize>)
    ensures
        match r {
            Some(i) => first_applies(table@, i as int, command@, *origin),
            None => !any_applies(table@, command@, *origin),
        },
{
    let mut i: usize = 0;
    while i < table.len()
        invariant
            i <= table@.len(),
            forall|j: int| 0 <= j < i ==> !key_applies(#[trigger] table@[j].0, command@, *origin),
        decreases table.len() - i,
    {
        let entry = &table[i];
        if entry.0.name == *command && origin.matches(&entry.0.context) {
            return Some(i);
        }
        i += 1;
    }
    None
}

impl RuntimeAuthority {
    /// Allowed command entries, in key order.
    pub closed spec fn allowed(&self) -> Seq<(CommandKey, ResolvedCommand)> {
        self.allowed_commands@
    }

    /// Denied command entries, in key order.
    pub closed spec fn denied(&self) -> Seq<(CommandKey, ResolvedCommand)> {
        self.denied_commands@
    }

    /// Plugin manifests by plugin name.
    pub closed spec fn manifests(&self) -> Seq<(String, Manifest)> {
        self.acl@
    }

    /// The raw scope store.
    pub closed spec fn scopes(&self) -> ScopeManager {
        self.scope_manager
    }

    /// The raw scope store.
    pub fn scope_manager(&self) -> (r: &ScopeManager)
        ensures
            *r == self.scopes(),
    {
        &self.scope_manager
    }

    /// What `resolve_access` returns.
    pub open spec fn spec_resolve_access(
        &self,
        command: Seq<char>,
        window: Seq<char>,
        origin: Origin,
    ) -> Option<ResolvedCommand> {
        resolve_in(self.allowed(), self.denied(), command, window, origin)
    }

    /// Builds the authority from a resolved access control list. The command
    /// tables are kept in key order (by name, then local before remote,
    /// remote by domain pattern); of entries with the same key, the last
    /// one given stands.
    pub fn new(resolved_acl: Resolved) -> (r: RuntimeAuthority)
        ensures
            r.allowed() == table_of(resolved_acl.allowed_commands@),
            r.denied() == table_of(resolved_acl.denied_commands@),
            sorted_table(r.allowed()),
            sorted_table(r.denied()),
            r.manifests() == resolved_acl.acl@,
            r.scopes().command_scopes() == resolved_acl.command_scope@,
            r.scopes().global_scopes() == resolved_acl.global_scope@,
    {
        RuntimeAuthority {
            acl: resolved_acl.acl,
            allowed_commands: sorted_entries(resolved_acl.allowed_commands),
            denied_commands: sorted_entries(resolved_acl.denied_commands),
            scope_manager: ScopeManager::new(resolved_acl.command_scope, resolved_acl.global_scope),
        }
    }

    /// Explains, for a developer, why a plugin command is or is not allowed
    /// on the window for the origin: denied (with the denying entry's
    /// references), allowed, allowed on other windows (with the expected
    /// patterns), or allowed for no matching origin (with the entries for
    /// other origins and the plugin's permissions that allow the command).
    pub fn resolve_access_message(
        &self,
        plugin: &str,
        command_name: &str,
        window: &str,
        origin: &Origin,
    ) -> (r: String)
        requires
            forall|i: int|
                0 <= i < self.manifests().len() ==> (#[trigger] self.manifests()[i]).1.permission_sets@.len()
                    + 1 <= usize::MAX,
        ensures
            exists|perms: Seq<Seq<char>>|
                {
                    &&& lookup_name(self.manifests(), plugin@) matches Some(m) ==> sorted_permutation(
                        perms,
                        permissions_referencing(m, command_name@),
                    )
                    &&& r@ == #[trigger] access_message(
                        self.allowed(),
                        self.denied(),
                        lookup_name(self.manifests(), plugin@) is Some,
                        plugin@,
                        command_name@,
                        window@,
                        *origin,
                        perms,
                    )
                },
    {
        let mut full = "plugin:".to_owned();
        push_str(&mut full, plugin);
        push_str(&mut full, "|");
        push_str(&mut full, command_name);
        let mut head = plugin.to_owned();
        push_str(&mut head, ".");
        push_str(&mut head, command_name);
        let ghost fullv = "plugin:"@ + plugin@ + "|"@ + command_name@;
        let ghost headv = plugin@ + "."@ + command_name@;
        proof {
            assert(full@ =~= fullv);
            assert(head@ =~= headv);
        }
        let ghost has_manifest = lookup_name(self.manifests(), plugin@) is Some;
        let ghost mut perms_witness: Seq<Seq<char>> = Seq::empty();
        let mut detail = String::new();
        let plugin_name = plugin.to_owned();
        match find_name(&self.acl, &plugin_name) {
            Some(j) => {
                proof {
                    assert(self.manifests()[j as int].1.permission_sets@.len() + 1 <= usize::MAX);
                }
                let mut perms = referencing_permissions(&self.acl[j].1, &command_name.to_owned());
                sort_strings(&mut perms);
                proof {
                    perms_witness = texts(perms@);
                    assert forall|a: int, b: int|
                        0 <= a < b < texts(perms@).len() implies text_le(
                        #[trigger] texts(perms@)[a],
                        #[trigger] texts(perms@)[b],
                    ) by {
                        assert(text_le(perms@[a]@, perms@[b]@));
                    }
                }
                push_str(&mut detail, "Permissions associated with this command: ");
                push_permissions(&mut detail, plugin, &perms);
            },
            None => push_str(&mut detail, "Plugin did not define its manifest"),
        }
        let mut out = head;
        if let Some(i) = find_applicable(&self.denied_commands, &full, origin) {
            proof {
                let k = choose|k: int| first_applies(self.denied(), k, fullv, *origin);
                first_applies_unique(self.denied(), i as int, k, fullv, *origin);
            }
            push_str(&mut out, " denied on origin ");
            push_origin(&mut out, origin);
            push_str(&mut out, ", referenced by: ");
            push_references(&mut out, &self.denied_commands[i].1.referenced_by);
        } else if let Some(i) = find_applicable(&self.allowed_commands, &full, origin) {
            proof {
                let k = choose|k: int| first_applies(self.allowed(), k, fullv, *origin);
                first_applies_unique(self.allowed(), i as int, k, fullv, *origin);
            }
            let resolved = &self.allowed_commands[i].1;
            if any_window_matches(&resolved.windows, window) {
                out = "allowed".to_owned();
            } else {
                push_str(&mut out, " not allowed on window ");
                push_str(&mut out, window);
                push_str(&mut out, ", expected one of ");
                push_windows(&mut out, &resolved.windows);
                push_str(&mut out, ", referenced by ");
                push_references(&mut out, &resolved.referenced_by);
            }
        } else {
            proof {
                if exists|k: int| first_applies(self.allowed(), k, fullv, *origin) {
                    let k = choose|k: int| first_applies(self.allowed(), k, fullv, *origin);
                    assert(key_applies(self.allowed()[k].0, fullv, *origin));
                }
            }
            let mut listing = String::new();
            let any = push_matches(&mut listing, &self.allowed_commands, &full);
            if !any {
                push_str(&mut out, " not allowed. ");
                push_str(&mut out, detail.as_str());
            } else {
                push_str(&mut out, " not allowed on origin [");
                push_origin(&mut out, origin);
                push_str(
                    &mut out,
                    "]. Please create a capability that has this origin on the context field.\n\nFound matches for: ",
                );
                push_str(&mut out, listing.as_str());
                push_str(&mut out, "\n\n");
                push_str(&mut out, detail.as_str());
            }
        }
        proof {
            assert(out@ =~= access_message(
                self.allowed(),
                self.denied(),
                has_manifest,
                plugin@,
                command_name@,
                window@,
                *origin,
                perms_witness,
            ));
            if has_manifest {
                let m = lookup_name(self.manifests(), plugin@)->Some_0;
                assert(sorted_permutation(perms_witness, permissions_referencing(m, command_name@)));
            }
        }
        out
    }

    /// Checks if the given IPC execution is allowed and returns the
    /// [`ResolvedCommand`] if it is.
    pub fn resolve_access(&self, command: &str, window: &str, origin: &Origin) -> (r: Option<
        &ResolvedCommand,
    >)
        ensures
            match r {
                Some(resolved) => self.spec_resolve_access(command@, window@, *origin) == Some(
                    *resolved,
                ),
                None => self.spec_resolve_access(command@, window@, *origin) is None,
            },
    {
        let name = command.to_owned();
        if find_applicable(&self.denied_commands, &name, origin).is_some() {
            return None;
        }
        match find_applicable(&self.allowed_commands, &name, origin) {
            Some(i) => {
                proof {
                    let k = choose|k: int|
                        first_applies(self.allowed(), k, command@, *origin);
                    first_applies_unique(self.allowed(), i as int, k, command@, *origin);
                }
                let resolved = &self.allowed_commands[i].1;
                if any_window_matches(&resolved.windows, window) {
                    Some(resolved)
                } else {
                    None
                }
            },
            None => {
                proof {
                    if exists|k: int| first_applies(self.allowed(), k, command@, *origin) {
                        let k = choose|k: int|
                            first_applies(self.allowed(), k, command@, *origin);
                        assert(key_applies(self.allowed()[k].0, command@, *origin));
                    }
                }
                None
            },
        }
    }
}

/// Deny precedence: where a denied entry names the command and admits the
/// origin, access is refused, whatever the allowed entries and their window
/// patterns hold.
pub proof fn denied_entry_takes_precedence(
    authority: &RuntimeAuthority,
    i: int,
    command: Seq<char>,
    window: Seq<char>,
    origin: Origin,
)
    requires
        0 <= i < authority.denied().len(),
        authority.denied()[i].0.name@ == command,
        origin_matches(origin, authority.denied()[i].0.context),
    ensures
        authority.spec_resolve_access(command, window, origin) is None,
{
    assert(key_applies(authority.denied()[i].0, command, origin));
}

/// An access check is a function of the command tables and its arguments:
/// authorities with the same tables, or one authority asked twice, give the
/// same answer.
pub proof fn resolve_access_is_deterministic(
    a: &RuntimeAuthority,
    b: &RuntimeAuthority,
    command: Seq<char>,
    window: Seq<char>,
    origin: Origin,
)
    requires
        a.allowed() == b.allowed(),
        a.denied() == b.denied(),
    ensures
        a.spec_resolve_access(command, window, origin) == b.spec_resolve_access(
            command,
            window,
            origin,
        ),
{
}

} // verus!
