use vstd::prelude::*;

use crate::acl::{ResolvedCommand, ResolvedScope, ScopeKey};

verus! {

/// Holds the raw command scopes and plugin global scopes.
#[derive(Debug)]
pub struct ScopeManager {
    command_scope: Vec<(ScopeKey, ResolvedScope)>,
    global_scope: Vec<(String, ResolvedScope)>,
}

/// Entry `i` is the last with key `k`.
pub open spec fn last_key<V>(table: Seq<(ScopeKey, V)>, k: ScopeKey, i: int) -> bool {
    0 <= i < table.len() && table[i].0 == k && forall|j: int|
        i < j < table.len() ==> (#[trigger] table[j]).0 != k
}

/// Entry `i` is the last named `name`.
pub open spec fn last_name<V>(table: Seq<(String, V)>, name: Seq<char>, i: int) -> bool {
    0 <= i < table.len() && table[i].0@ == name && forall|j: int|
        i < j < table.len() ==> (#[trigger] table[j]).0@ != name
}

/// The value of key `k`: that of its last entry, as in a map built from the
/// entries in order.
pub open spec fn lookup_key<V>(table: Seq<(ScopeKey, V)>, k: ScopeKey) -> Option<V> {
    if exists|i: int| last_key(table, k, i) {
        let i = choose|i: int| last_key(table, k, i);
        Some(table[i].1)
    } else {
        None
    }
}

/// The value of `name`: that of its last entry, as in a map built from the
/// entries in order.
pub open spec fn lookup_name<V>(table: Seq<(String, V)>, name: Seq<char>) -> Option<V> {
    if exists|i: int| last_name(table, name, i) {
        let i = choose|i: int| last_name(table, name, i);
        Some(table[i].1)
    } else {
        None
    }
}

/// The index of the last entry with key `k`.
fn find_key<V>(table: &Vec<(ScopeKey, V)>, k: ScopeKey) -> (r: Option<usize>)
    ensures
        match r {
            Some(i) => i < table@.len() && lookup_key(table@, k) == Some(table@[i as int].1),
            None => lookup_key(table@, k) is None,
        },
{
    let mut i: usize = table.len();
    while i > 0
        invariant
            i <= table@.len(),
            forall|j: int| i <= j < table@.len() ==> (#[trigger] table@[j]).0 != k,
        decreases i,
    {
        if table[i - 1].0 == k {
            proof {
                assert(last_key(table@, k, i - 1));
                let c = choose|c: int| last_key(table@, k, c);
                assert(c == i - 1) by {
                    if c < i - 1 {
                        assert(table@[i - 1].0 != k);
                    }
                }
            }
            return Some(i - 1);
        }
        i -= 1;
    }
    None
}

/// The index of the last entry named `name`.
pub(crate) fn find_name<V>(table: &Vec<(String, V)>, name: &String) -> (r: Option<usize>)
    ensures
        match r {
            Some(i) => i < table@.len() && lookup_name(table@, name@) == Some(table@[i as int].1),
            None => lookup_name(table@, name@) is None,
        },
{
    let mut i: usize = table.len();
    while i > 0
        invariant
            i <= table@.len(),
            forall|j: int| i <= j < table@.len() ==> (#[trigger] table@[j]).0@ != name@,
        decreases i,
    {
        if table[i - 1].0 == *name {
            proof {
                assert(last_name(table@, name@, i - 1));
                let c = choose|c: int| last_name(table@, name@, c);
                assert(c == i - 1) by {
                    if c < i - 1 {
                        assert(table@[i - 1].0@ != name@);
                    }
                }
            }
            return Some(i - 1);
        }
        i -= 1;
    }
    None
}

/// The raw allowed and denied values of an optional scope; none for an
/// absent one.
pub open spec fn raw_values(scope: Option<ResolvedScope>) -> (Seq<serde_json::Value>, Seq<
    serde_json::Value,
>) {
    match scope {
        Some(s) => (s.allow@, s.deny@),
        None => (Seq::empty(), Seq::empty()),
    }
}

impl ScopeManager {
    /// Raw command scopes by scope key.
    pub closed spec fn command_scopes(&self) -> Seq<(ScopeKey, ResolvedScope)> {
        self.command_scope@
    }

    /// Raw global scopes by plugin name.
    pub closed spec fn global_scopes(&self) -> Seq<(String, ResolvedScope)> {
        self.global_scope@
    }

    /// A manager over the given raw scopes.
    pub fn new(
        command_scope: Vec<(ScopeKey, ResolvedScope)>,
        global_scope: Vec<(String, ResolvedScope)>,
    ) -> (r: ScopeManager)
        ensures
            r.command_scopes() == command_scope@,
            r.global_scopes() == global_scope@,
    {
        ScopeManager { command_scope, global_scope }
    }
}

/// Allowed and denied values of one scope, typed.
#[derive(Debug)]
pub struct ScopeValue<T> {
    allow: Vec<T>,
    deny: Vec<T>,
}

impl<T> ScopeValue<T> {
    /// The allowed values, in declaration order.
    pub closed spec fn allowed(&self) -> Seq<T> {
        self.allow@
    }

    /// The denied values, in declaration order.
    pub closed spec fn denied(&self) -> Seq<T> {
        self.deny@
    }

    /// A scope value with nothing allowed and nothing denied.
    pub fn empty() -> (r: ScopeValue<T>)
        ensures
            r.allowed().len() == 0,
            r.denied().len() == 0,
    {
        ScopeValue { allow: Vec::new(), deny: Vec::new() }
    }

    /// What this access scope allows.
    pub fn allows(&self) -> (r: &Vec<T>)
        ensures
            r@ == self.allowed(),
    {
        &self.allow
    }

    /// What this access scope denies.
    pub fn denies(&self) -> (r: &Vec<T>)
        ensures
            r@ == self.denied(),
    {
        &self.deny
    }
}

/// `out` holds one successful conversion of each raw value, in order.
pub open spec fn converts_all<T, E, F: Fn(&serde_json::Value) -> Result<T, E>>(
    convert: F,
    raw: Seq<serde_json::Value>,
    out: Seq<T>,
) -> bool {
    &&& out.len() == raw.len()
    &&& forall|i: int| 0 <= i < raw.len() ==> convert.ensures((&raw[i],), Ok::<T, E>(#[trigger] out[i]))
}

/// The conversion may fail on none of the raw values.
pub open spec fn never_fails_on<T, E, F: Fn(&serde_json::Value) -> Result<T, E>>(
    convert: F,
    raw: Seq<serde_json::Value>,
) -> bool {
    forall|i: int, res: Result<T, E>|
        0 <= i < raw.len() && convert.ensures((&raw[i],), res) ==> res is Ok
}

/// The conversion may fail with `e` on one of the raw values.
pub open spec fn fails_on_one<T, E, F: Fn(&serde_json::Value) -> Result<T, E>>(
    convert: F,
    raw: Seq<serde_json::Value>,
    e: E,
) -> bool {
    exists|i: int| 0 <= i < raw.len() && convert.ensures((&raw[i],), Err::<T, E>(e))
}

/// The typed scope value of a raw scope, with its conversion's outcome:
/// every raw value converted, allowed ones then denied ones, or the error
/// of one that failed.
pub open spec fn typed_scope<T, E, F: Fn(&serde_json::Value) -> Result<T, E>>(
    convert: F,
    raw: (Seq<serde_json::Value>, Seq<serde_json::Value>),
    r: Result<ScopeValue<T>, E>,
) -> bool {
    match r {
        Ok(v) => converts_all(convert, raw.0, v.allowed()) && converts_all(
            convert,
            raw.1,
            v.denied(),
        ),
        Err(e) => fails_on_one(convert, raw.0, e) || fails_on_one(convert, raw.1, e),
    }
}

/// Converts each raw value in order; stops at the first failure.
fn convert_values<T, E, F: Fn(&serde_json::Value) -> Result<T, E>>(
    convert: &F,
    raw: &Vec<serde_json::Value>,
) -> (r: Result<Vec<T>, E>)
    requires
        forall|v: &serde_json::Value| convert.requires((v,)),
    ensures
        r matches Ok(out) ==> converts_all(*convert, raw@, out@),
        r matches Err(e) ==> fails_on_one(*convert, raw@, e),
        never_fails_on(*convert, raw@) ==> r is Ok,
{
    let mut out: Vec<T> = Vec::new();
    let mut i: usize = 0;
    while i < raw.len()
        invariant
            i <= raw@.len(),
            out@.len() == i,
            forall|v: &serde_json::Value| convert.requires((v,)),
            forall|j: int|
                0 <= j < i ==> convert.ensures((&raw@[j],), Ok::<T, E>(#[trigger] out@[j])),
        decreases raw.len() - i,
    {
        match convert(&raw[i]) {
            Ok(t) => out.push(t),
            Err(e) => {
                return Err(e);
            },
        }
        i += 1;
    }
    Ok(out)
}

/// Converts a raw scope into a typed one, allowed values first.
fn convert_scope<T, E, F: Fn(&serde_json::Value) -> Result<T, E>>(
    convert: &F,
    raw: &ResolvedScope,
) -> (r: Result<ScopeValue<T>, E>)
    requires
        forall|v: &serde_json::Value| convert.requires((v,)),
    ensures
        typed_scope(*convert, (raw.allow@, raw.deny@), r),
        never_fails_on(*convert, raw.allow@) && never_fails_on(*convert, raw.deny@) ==> r is Ok,
{
    let allow = match convert_values(convert, &raw.allow) {
        Ok(a) => a,
        Err(e) => {
            return Err(e);
        },
    };
    let deny = match convert_values(convert, &raw.deny) {
        Ok(d) => d,
        Err(e) => {
            return Err(e);
        },
    };
    Ok(ScopeValue { allow, deny })
}

/// Looking a key up after an entry is appended: the new entry for its
/// key; else what it found before.
proof fn lookup_key_after_push<V>(table: Seq<(ScopeKey, V)>, k: ScopeKey, v: V, k2: ScopeKey)
    ensures
        lookup_key(table.push((k, v)), k2) == if k2 == k {
            Some(v)
        } else {
            lookup_key(table, k2)
        },
{
    let t = table.push((k, v));
    let n = table.len() as int;
    assert(forall|i: int| 0 <= i < n ==> t[i] == table[i]);
    if k2 == k {
        assert(last_key(t, k, n));
        let c = choose|c: int| last_key(t, k, c);
        assert(c == n) by {
            if c < n {
                assert(t[n].0 == k);
            }
        }
    } else {
        assert forall|c: int| last_key(t, k2, c) <==> last_key(table, k2, c) by {
            if last_key(table, k2, c) {
                assert forall|j: int| c < j < t.len() implies (#[trigger] t[j]).0 != k2 by {
                    if j < n {
                        assert(t[j] == table[j]);
                    }
                }
            }
        }
    }
}

/// Looking a name up after an entry is appended: the new entry for its
/// name; else what it found before.
proof fn lookup_name_after_push<V>(table: Seq<(String, V)>, name: String, v: V, n2: Seq<char>)
    ensures
        lookup_name(table.push((name, v)), n2) == if n2 == name@ {
            Some(v)
        } else {
            lookup_name(table, n2)
        },
{
    let t = table.push((name, v));
    let n = table.len() as int;
    assert(forall|i: int| 0 <= i < n ==> t[i] == table[i]);
    if n2 == name@ {
        assert(last_name(t, n2, n));
        let c = choose|c: int| last_name(t, n2, c);
        assert(c == n) by {
            if c < n {
                assert(t[n].0@ == n2);
            }
        }
    } else {
        assert forall|c: int| last_name(t, n2, c) <==> last_name(table, n2, c) by {
            if last_name(table, n2, c) {
                assert forall|j: int| c < j < t.len() implies (#[trigger] t[j]).0@ != n2 by {
                    if j < n {
                        assert(t[j] == table[j]);
                    }
                }
            }
        }
    }
}

/// Typed scope values of one element type, materialized on first use and
/// kept: one per command scope key, one per plugin.
#[derive(Debug)]
pub struct ScopeCache<T> {
    commands: Vec<(ScopeKey, ScopeValue<T>)>,
    globals: Vec<(String, ScopeValue<T>)>,
}

impl<T> ScopeCache<T> {
    /// The cached command scope of a key.
    pub closed spec fn cached_command(&self, key: ScopeKey) -> Option<ScopeValue<T>> {
        lookup_key(self.commands@, key)
    }

    /// The cached global scope of a plugin.
    pub closed spec fn cached_global(&self, plugin: Seq<char>) -> Option<ScopeValue<T>> {
        lookup_name(self.globals@, plugin)
    }

    /// One request for the command scope of `key`, from this cache to
    /// `after`, with outcome `r`: a cached value is returned as it is and the
    /// cache stays; else the key's raw scope (none for an unknown key) is
    /// converted, and only a success is cached. Success is owed where the
    /// conversion cannot fail on the raw values.
    pub open spec fn command_step<E, F: Fn(&serde_json::Value) -> Result<T, E>>(
        self,
        after: ScopeCache<T>,
        manager: ScopeManager,
        key: ScopeKey,
        convert: F,
        r: Result<ScopeValue<T>, E>,
    ) -> bool {
        &&& match self.cached_command(key) {
            Some(v) => r == Ok::<ScopeValue<T>, E>(v) && after == self,
            None => {
                let raw = raw_values(lookup_key(manager.command_scopes(), key));
                &&& typed_scope(convert, raw, r)
                &&& match r {
                    Ok(v) => after.cached_command(key) == Some(v),
                    Err(_) => after == self,
                }
                &&& never_fails_on(convert, raw.0) && never_fails_on(convert, raw.1) ==> r is Ok
            },
        }
        &&& forall|k: ScopeKey| k != key ==> after.cached_command(k) == self.cached_command(k)
        &&& forall|p: Seq<char>| after.cached_global(p) == self.cached_global(p)
    }

    /// One request for the global scope of `plugin`, from this cache to
    /// `after`, with outcome `r`; as for command scopes, keyed by plugin name.
    pub open spec fn global_step<E, F: Fn(&serde_json::Value) -> Result<T, E>>(
        self,
        after: ScopeCache<T>,
        manager: ScopeManager,
        plugin: Seq<char>,
        convert: F,
        r: Result<ScopeValue<T>, E>,
    ) -> bool {
        &&& match self.cached_global(plugin) {
            Some(v) => r == Ok::<ScopeValue<T>, E>(v) && after == self,
            None => {
                let raw = raw_values(lookup_name(manager.global_scopes(), plugin));
                &&& typed_scope(convert, raw, r)
                &&& match r {
                    Ok(v) => after.cached_global(plugin) == Some(v),
                    Err(_) => after == self,
                }
                &&& never_fails_on(convert, raw.0) && never_fails_on(convert, raw.1) ==> r is Ok
            },
        }
        &&& forall|k: ScopeKey| after.cached_command(k) == self.cached_command(k)
        &&& forall|p: Seq<char>| p != plugin ==> after.cached_global(p) == self.cached_global(p)
    }

    /// An empty cache.
    pub fn new() -> (r: ScopeCache<T>)
        ensures
            forall|k: ScopeKey| r.cached_command(k) is None,
            forall|p: Seq<char>| r.cached_global(p) is None,
    {
        ScopeCache { commands: Vec::new(), globals: Vec::new() }
    }

    /// The command scope of `key` typed by `convert`: the cached value if
    /// there is one; else the conversion of the key's raw scope (none for an
    /// unknown key), cached on success. A failure is returned and not cached.
    pub fn get_command_scope_typed<E, F: Fn(&serde_json::Value) -> Result<T, E>>(
        &mut self,
        manager: &ScopeManager,
        key: ScopeKey,
        convert: &F,
    ) -> (r: Result<&ScopeValue<T>, E>)
        requires
            forall|v: &serde_json::Value| convert.requires((v,)),
        ensures
            match r {
                Ok(c) => old(self).command_step(*final(self), *manager, key, *convert, Ok(*c)),
                Err(e) => old(self).command_step(*final(self), *manager, key, *convert, Err(e)),
            },
    {
        match find_key(&self.commands, key) {
            Some(i) => Ok(&self.commands[i].1),
            None => {
                let value = match find_key(&manager.command_scope, key) {
                    Some(j) => convert_scope(convert, &manager.command_scope[j].1),
                    None => Ok(ScopeValue::empty()),
                };
                match value {
                    Ok(v) => {
                        proof {
                            assert forall|k2: ScopeKey|
                                lookup_key(self.commands@.push((key, v)), k2) == if k2 == key {
                                    Some(v)
                                } else {
                                    lookup_key(self.commands@, k2)
                                } by {
                                lookup_key_after_push(self.commands@, key, v, k2);
                            }
                        }
                        self.commands.push((key, v));
                        let n = self.commands.len() - 1;
                        Ok(&self.commands[n].1)
                    },
                    Err(e) => Err(e),
                }
            },
        }
    }

    /// The global scope of `plugin` typed by `convert`: the cached value if
    /// there is one; else the conversion of the plugin's raw global scope
    /// (none for an unknown plugin), cached on success. A failure is returned
    /// and not cached.
    pub fn get_global_scope_typed<E, F: Fn(&serde_json::Value) -> Result<T, E>>(
        &mut self,
        manager: &ScopeManager,
        plugin: &str,
        convert: &F,
    ) -> (r: Result<&ScopeValue<T>, E>)
        requires
            forall|v: &serde_json::Value| convert.requires((v,)),
        ensures
            match r {
                Ok(c) => old(self).global_step(*final(self), *manager, plugin@, *convert, Ok(*c)),
                Err(e) => old(self).global_step(*final(self), *manager, plugin@, *convert, Err(e)),
            },
    {
        let name = plugin.to_owned();
        match find_name(&self.globals, &name) {
            Some(i) => Ok(&self.globals[i].1),
            None => {
                let value = match find_name(&manager.global_scope, &name) {
                    Some(j) => convert_scope(convert, &manager.global_scope[j].1),
                    None => Ok(ScopeValue::empty()),
                };
                match value {
                    Ok(v) => {
                        proof {
                            assert forall|n2: Seq<char>|
                                lookup_name(self.globals@.push((name, v)), n2) == if n2 == name@ {
                                    Some(v)
                                } else {
                                    lookup_name(self.globals@, n2)
                                } by {
                                lookup_name_after_push(self.globals@, name, v, n2);
                            }
                        }
                        self.globals.push((name, v));
                        let n = self.globals.len() - 1;
                        Ok(&self.globals[n].1)
                    },
                    Err(e) => Err(e),
                }
            },
        }
    }
}

/// Why a scope could not be handed to a command.
#[derive(Debug, PartialEq, Eq)]
pub enum ScopeError<E> {
    /// A raw scope value did not convert to the requested type.
    CannotDeserializeScope(E),
    /// A global scope was requested for an application command, which
    /// belongs to no plugin.
    GlobalScopeForAppCommand,
}

/// A value held, or borrowed.
#[derive(Debug)]
enum OwnedOrRef<'a, T> {
    Owned(T),
    Ref(&'a T),
}

impl<'a, T> OwnedOrRef<'a, T> {
    spec fn value(&self) -> T {
        match self {
            OwnedOrRef::Owned(t) => *t,
            OwnedOrRef::Ref(r) => **r,
        }
    }

    fn get(&self) -> (r: &T)
        ensures
            *r == self.value(),
    {
        match self {
            OwnedOrRef::Owned(t) => t,
            OwnedOrRef::Ref(r) => r,
        }
    }
}

/// Access scope for a command that can be retrieved directly in the
/// command function.
#[derive(Debug)]
pub struct CommandScope<'a, T>(OwnedOrRef<'a, ScopeValue<T>>);

impl<'a, T> CommandScope<'a, T> {
    /// The scope value.
    pub closed spec fn value(&self) -> ScopeValue<T> {
        self.0.value()
    }

    /// What this access scope allows.
    pub fn allows(&self) -> (r: &Vec<T>)
        ensures
            r@ == self.value().allowed(),
    {
        self.0.get().allows()
    }

    /// What this access scope denies.
    pub fn denies(&self) -> (r: &Vec<T>)
        ensures
            r@ == self.value().denied(),
    {
        self.0.get().denies()
    }

    /// The scope of an authorized command: empty where the command declares
    /// no scope key (the cache untouched); else its typed command scope, as
    /// `ScopeCache::get_command_scope_typed` gives it.
    pub fn from_command<E, F: Fn(&serde_json::Value) -> Result<T, E>>(
        acl: Option<&ResolvedCommand>,
        manager: &ScopeManager,
        cache: &'a mut ScopeCache<T>,
        convert: &F,
    ) -> (r: Result<CommandScope<'a, T>, ScopeError<E>>)
        requires
            forall|v: &serde_json::Value| convert.requires((v,)),
        ensures
            match acl {
                Some(resolved) if resolved.scope is Some => {
                    let key = resolved.scope->Some_0;
                    match r {
                        Ok(c) => old(cache).command_step(
                            *final(cache),
                            *manager,
                            key,
                            *convert,
                            Ok(c.value()),
                        ),
                        Err(ScopeError::CannotDeserializeScope(e)) => old(cache).command_step(
                            *final(cache),
                            *manager,
                            key,
                            *convert,
                            Err(e),
                        ),
                        Err(ScopeError::GlobalScopeForAppCommand) => false,
                    }
                },
                _ => r matches Ok(c) && c.value().allowed().len() == 0 && c.value().denied().len()
                    == 0 && *final(cache) == *old(cache),
            },
    {
        let key = match acl {
            Some(resolved) => resolved.scope,
            None => None,
        };
        match key {
            Some(key) => match cache.get_command_scope_typed(manager, key, convert) {
                Ok(value) => Ok(CommandScope(OwnedOrRef::Ref(value))),
                Err(e) => Err(ScopeError::CannotDeserializeScope(e)),
            },
            None => Ok(CommandScope(OwnedOrRef::Owned(ScopeValue::empty()))),
        }
    }
}

/// Global access scope that can be retrieved directly in the command
/// function.
#[derive(Debug)]
pub struct GlobalScope<'a, T>(&'a ScopeValue<T>);

impl<'a, T> GlobalScope<'a, T> {
    /// The scope value.
    pub closed spec fn value(&self) -> ScopeValue<T> {
        *self.0
    }

    /// What this access scope allows.
    pub fn allows(&self) -> (r: &Vec<T>)
        ensures
            r@ == self.value().allowed(),
    {
        self.0.allows()
    }

    /// What this access scope denies.
    pub fn denies(&self) -> (r: &Vec<T>)
        ensures
            r@ == self.value().denied(),
    {
        self.0.denies()
    }

    /// The global scope of the plugin that owns the command: an error for an
    /// application command (no plugin), the cache untouched; else the
    /// plugin's typed global scope, as `ScopeCache::get_global_scope_typed`
    /// gives it.
    pub fn from_command<E, F: Fn(&serde_json::Value) -> Result<T, E>>(
        plugin: Option<&str>,
        manager: &ScopeManager,
        cache: &'a mut ScopeCache<T>,
        convert: &F,
    ) -> (r: Result<GlobalScope<'a, T>, ScopeError<E>>)
        requires
            forall|v: &serde_json::Value| convert.requires((v,)),
        ensures
            match plugin {
                None => r matches Err(ScopeError::GlobalScopeForAppCommand)
                    && *final(cache) == *old(cache),
                Some(name) => match r {
                    Ok(g) => old(cache).global_step(
                        *final(cache),
                        *manager,
                        name@,
                        *convert,
                        Ok(g.value()),
                    ),
                    Err(ScopeError::CannotDeserializeScope(e)) => old(cache).global_step(
                        *final(cache),
                        *manager,
                        name@,
                        *convert,
                        Err(e),
                    ),
                    Err(ScopeError::GlobalScopeForAppCommand) => false,
                },
            },
    {
        match plugin {
            None => Err(ScopeError::GlobalScopeForAppCommand),
            Some(name) => match cache.get_global_scope_typed(manager, name, convert) {
                Ok(value) => Ok(GlobalScope(value)),
                Err(e) => Err(ScopeError::CannotDeserializeScope(e)),
            },
        }
    }
}

/// A second request for a command scope returns the value that the first,
/// successful one produced and cached, whatever converter it is given: each
/// (scope key, type) pair is converted once.
pub proof fn command_scope_converted_once<T, E, F, G>(
    c0: ScopeCache<T>,
    c1: ScopeCache<T>,
    c2: ScopeCache<T>,
    manager: ScopeManager,
    key: ScopeKey,
    first: F,
    second: G,
    r1: Result<ScopeValue<T>, E>,
    r2: Result<ScopeValue<T>, E>,
)
    where
        F: Fn(&serde_json::Value) -> Result<T, E>,
        G: Fn(&serde_json::Value) -> Result<T, E>,
    requires
        c0.command_step(c1, manager, key, first, r1),
        c1.command_step(c2, manager, key, second, r2),
        r1 is Ok,
    ensures
        r2 == r1,
        c2 == c1,
{
}

/// A failed request leaves the cache as it was, so a later request converts
/// afresh.
pub proof fn failed_conversion_not_cached<T, E, F>(
    c0: ScopeCache<T>,
    c1: ScopeCache<T>,
    manager: ScopeManager,
    key: ScopeKey,
    convert: F,
    r: Result<ScopeValue<T>, E>,
)
    where
        F: Fn(&serde_json::Value) -> Result<T, E>,
    requires
        c0.command_step(c1, manager, key, convert, r),
        r is Err,
    ensures
        c1 == c0,
        c1.cached_command(key) is None,
{
}

/// A key that has no raw command scope yields an empty scope value, never an
/// error, and it is cached.
pub proof fn unknown_scope_key_is_empty<T, E, F>(
    c0: ScopeCache<T>,
    c1: ScopeCache<T>,
    manager: ScopeManager,
    key: ScopeKey,
    convert: F,
    r: Result<ScopeValue<T>, E>,
)
    where
        F: Fn(&serde_json::Value) -> Result<T, E>,
    requires
        c0.command_step(c1, manager, key, convert, r),
        c0.cached_command(key) is None,
        lookup_key(manager.command_scopes(), key) is None,
    ensures
        r matches Ok(v) && v.allowed().len() == 0 && v.denied().len() == 0,
{
}

/// A plugin that has no raw global scope yields an empty scope value, never
/// an error.
pub proof fn unknown_plugin_is_empty<T, E, F>(
    c0: ScopeCache<T>,
    c1: ScopeCache<T>,
    manager: ScopeManager,
    plugin: Seq<char>,
    convert: F,
    r: Result<ScopeValue<T>, E>,
)
    where
        F: Fn(&serde_json::Value) -> Result<T, E>,
    requires
        c0.global_step(c1, manager, plugin, convert, r),
        c0.cached_global(plugin) is None,
        lookup_name(manager.global_scopes(), plugin) is None,
    ensures
        r matches Ok(v) && v.allowed().len() == 0 && v.denied().len() == 0,
{
}

} // verus!
