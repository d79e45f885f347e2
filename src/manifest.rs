use vstd::prelude::*;

use crate::scope::{find_name, lookup_name};
use crate::text::texts;

verus! {

/// A permission: the commands it allows.
#[derive(Debug, Clone, PartialEq, Eq)]
pub struct Permission {
    pub identifier: String,
    /// Names of the commands this permission allows.
    pub allow: Vec<String>,
}

/// A named set of references to permissions, to other sets, or to the
/// plugin's default set (`"default"`).
#[derive(Debug, Clone, PartialEq, Eq)]
pub struct PermissionSet {
    pub identifier: String,
    pub permissions: Vec<String>,
}

/// What a plugin declares about its permissions.
#[derive(Debug, Clone, PartialEq, Eq)]
pub struct Manifest {
    /// The set granted by `"default"`.
    pub default_permission: Option<PermissionSet>,
    /// Permission sets, keyed by identifier, in key order.
    pub permission_sets: Vec<(String, PermissionSet)>,
    /// Permissions, keyed by identifier, in key order.
    pub permissions: Vec<(String, Permission)>,
}

/// Whether a permission allows the command by name.
pub open spec fn permission_allows(p: Permission, command: Seq<char>) -> bool {
    texts(p.allow@).contains(command)
}

/// Whether a reference names a permission (neither the default set nor a
/// permission set) that allows the command.
pub open spec fn ref_direct(m: Manifest, id: Seq<char>, command: Seq<char>) -> bool {
    &&& id != "default"@
    &&& lookup_name(m.permission_sets@, id) is None
    &&& match lookup_name(m.permissions@, id) {
        Some(p) => permission_allows(p, command),
        None => false,
    }
}

/// Whether a reference of the set names a permission that allows the command.
pub open spec fn direct_allows(m: Manifest, set: PermissionSet, command: Seq<char>) -> bool {
    exists|k: int|
        0 <= k < set.permissions@.len() && ref_direct(m, #[trigger] set.permissions@[k]@, command)
}

/// Whether the set allows the command through at most `depth` references to
/// other sets.
pub open spec fn set_reaches(m: Manifest, set: PermissionSet, command: Seq<char>, depth: nat) -> bool
    decreases depth, 0nat,
{
    direct_allows(m, set, command) || (depth > 0 && exists|k: int|
        0 <= k < set.permissions@.len() && ref_reaches(
            m,
            #[trigger] set.permissions@[k]@,
            command,
            (depth - 1) as nat,
        ))
}

/// Whether the set that a reference names (the default set, or a permission
/// set) allows the command through at most `depth` further references.
pub open spec fn ref_reaches(m: Manifest, id: Seq<char>, command: Seq<char>, depth: nat) -> bool
    decreases depth, 1nat,
{
    if id == "default"@ {
        match m.default_permission {
            Some(d) => set_reaches(m, d, command, depth),
            None => false,
        }
    } else {
        match lookup_name(m.permission_sets@, id) {
            Some(s) => set_reaches(m, s, command, depth),
            None => false,
        }
    }
}

/// Whether the set allows the command through any chain of references. A
/// chain that visits no set twice is no longer than the number of sets, so
/// the bound makes cycles harmless.
pub open spec fn set_allows(m: Manifest, set: PermissionSet, command: Seq<char>) -> bool {
    set_reaches(m, set, command, (m.permission_sets@.len() + 1) as nat)
}

/// The set of node `i`: permission set `i`, or the default set after them.
pub open spec fn node_set(m: Manifest, i: int) -> Option<PermissionSet> {
    if 0 <= i < m.permission_sets@.len() {
        Some(m.permission_sets@[i].1)
    } else if i == m.permission_sets@.len() {
        m.default_permission
    } else {
        None
    }
}

/// Whether the set of node `i` reaches the command within `depth`.
pub open spec fn node_reaches(m: Manifest, i: int, command: Seq<char>, depth: nat) -> bool {
    match node_set(m, i) {
        Some(s) => set_reaches(m, s, command, depth),
        None => false,
    }
}

/// Identifiers of the sets of the table that allow the command, in order.
pub open spec fn sets_allowing(m: Manifest, sets: Seq<(String, PermissionSet)>, command: Seq<char>) -> Seq<
    Seq<char>,
>
    decreases sets.len(),
{
    if sets.len() == 0 {
        Seq::empty()
    } else {
        sets_allowing(m, sets.drop_last(), command) + if set_allows(m, sets.last().1, command) {
            seq![sets.last().1.identifier@]
        } else {
            Seq::empty()
        }
    }
}

/// Identifiers of the permissions of the table that allow the command, in
/// order.
pub open spec fn permissions_allowing(perms: Seq<(String, Permission)>, command: Seq<char>) -> Seq<
    Seq<char>,
>
    decreases perms.len(),
{
    if perms.len() == 0 {
        Seq::empty()
    } else {
        permissions_allowing(perms.drop_last(), command) + if permission_allows(
            perms.last().1,
            command,
        ) {
            seq![perms.last().1.identifier@]
        } else {
            Seq::empty()
        }
    }
}

/// The permissions of a manifest that allow the command: `default` where
/// the default set does, then each permission set that does, then each
/// permission that names it.
pub open spec fn permissions_referencing(m: Manifest, command: Seq<char>) -> Seq<Seq<char>> {
    let d = match m.default_permission {
        Some(d) => if set_allows(m, d, command) {
            seq!["default"@]
        } else {
            Seq::empty()
        },
        None => Seq::empty(),
    };
    d + sets_allowing(m, m.permission_sets@, command) + permissions_allowing(
        m.permissions@,
        command,
    )
}

/// The identifiers of the permissions of the manifest that allow the
/// command, as `permissions_referencing` orders them.
pub fn referencing_permissions(m: &Manifest, command: &String) -> (r: Vec<String>)
    requires
        m.permission_sets@.len() + 1 <= usize::MAX,
    ensures
        texts(r@) == permissions_referencing(*m, command@),
{
    let table = reach_table(m, command);
    let n = m.permission_sets.len();
    let mut out: Vec<String> = Vec::new();
    proof {
        assert(table@[n as int] == node_reaches(*m, n as int, command@, (n + 1) as nat));
    }
    if m.default_permission.is_some() && table[n] {
        out.push("default".to_owned());
    }
    let ghost d = texts(out@);
    proof {
        assert(texts(out@) =~= permissions_referencing(*m, command@).take(d.len() as int)) by {
            assert(sets_allowing(*m, m.permission_sets@.take(0), command@) =~= Seq::empty());
        }
    }
    let mut i: usize = 0;
    while i < n
        invariant
            n == m.permission_sets@.len(),
            i <= n,
            table@.len() == n + 1,
            forall|j: int|
                0 <= j < table@.len() ==> table@[j] == node_reaches(*m, j, command@, (n + 1) as nat),
            texts(out@) == d + sets_allowing(*m, m.permission_sets@.take(i as int), command@),
        decreases n - i,
    {
        proof {
            assert(m.permission_sets@.take(i + 1).drop_last() =~= m.permission_sets@.take(i as int));
            assert(table@[i as int] == node_reaches(*m, i as int, command@, (n + 1) as nat));
        }
        let ghost before = out@;
        if table[i] {
            out.push(m.permission_sets[i].1.identifier.clone());
        }
        proof {
            let t1 = m.permission_sets@.take(i + 1);
            assert(t1.last() == m.permission_sets@[i as int]);
            assert(texts(before.push(m.permission_sets@[i as int].1.identifier)) =~= texts(before).push(
                m.permission_sets@[i as int].1.identifier@,
            ));
            assert(texts(out@) =~= d + sets_allowing(*m, m.permission_sets@.take(i + 1), command@));
        }
        i += 1;
    }
    proof {
        assert(m.permission_sets@.take(n as int) =~= m.permission_sets@);
    }
    let ghost ds = texts(out@);
    let mut k: usize = 0;
    while k < m.permissions.len()
        invariant
            k <= m.permissions@.len(),
            texts(out@) == ds + permissions_allowing(m.permissions@.take(k as int), command@),
        decreases m.permissions.len() - k,
    {
        proof {
            assert(m.permissions@.take(k + 1).drop_last() =~= m.permissions@.take(k as int));
        }
        let ghost before = out@;
        if contains_name(&m.permissions[k].1.allow, command) {
            out.push(m.permissions[k].1.identifier.clone());
        }
        proof {
            let t1 = m.permissions@.take(k + 1);
            assert(t1.last() == m.permissions@[k as int]);
            assert(texts(before.push(m.permissions@[k as int].1.identifier)) =~= texts(before).push(
                m.permissions@[k as int].1.identifier@,
            ));
            assert(texts(out@) =~= ds + permissions_allowing(m.permissions@.take(k + 1), command@));
        }
        k += 1;
    }
    proof {
        assert(m.permissions@.take(m.permissions@.len() as int) =~= m.permissions@);
        assert(permissions_allowing(m.permissions@.take(0), command@) =~= Seq::empty());
        assert(sets_allowing(*m, m.permission_sets@.take(0), command@) =~= Seq::empty());
    }
    out
}

/// Whether the list holds the name.
fn contains_name(names: &Vec<String>, name: &String) -> (r: bool)
    ensures
        r == texts(names@).contains(name@),
{
    let mut i: usize = 0;
    while i < names.len()
        invariant
            i <= names@.len(),
            forall|j: int| 0 <= j < i ==> (#[trigger] names@[j])@ != name@,
        decreases names.len() - i,
    {
        if names[i] == *name {
            proof {
                assert(texts(names@)[i as int] == name@);
            }
            return true;
        }
        i += 1;
    }
    proof {
        if texts(names@).contains(name@) {
            let j = choose|j: int| 0 <= j < texts(names@).len() && texts(names@)[j] == name@;
            assert(names@[j]@ == name@);
        }
    }
    false
}

/// Whether a reference names a permission that allows the command.
fn ref_is_direct(m: &Manifest, id: &String, command: &String) -> (r: bool)
    ensures
        r == ref_direct(*m, id@, command@),
{
    let default_id = "default".to_owned();
    if *id == default_id {
        return false;
    }
    if find_name(&m.permission_sets, id).is_some() {
        return false;
    }
    match find_name(&m.permissions, id) {
        Some(j) => contains_name(&m.permissions[j].1.allow, command),
        None => false,
    }
}

/// Whether a reference of the set names a permission that allows the command.
fn set_direct(m: &Manifest, set: &PermissionSet, command: &String) -> (r: bool)
    ensures
        r == direct_allows(*m, *set, command@),
{
    let mut k: usize = 0;
    while k < set.permissions.len()
        invariant
            k <= set.permissions@.len(),
            forall|j: int| 0 <= j < k ==> !ref_direct(*m, (#[trigger] set.permissions@[j])@, command@),
        decreases set.permissions.len() - k,
    {
        if ref_is_direct(m, &set.permissions[k], command) {
            return true;
        }
        k += 1;
    }
    false
}

/// Whether the set named by a reference reaches the command within `depth`,
/// read off the table of the nodes at that depth.
fn ref_in_table(m: &Manifest, id: &String, command: &String, table: &Vec<bool>, Ghost(depth): Ghost<
    nat,
>) -> (r: bool)
    requires
        table@.len() == m.permission_sets@.len() + 1,
        forall|i: int| 0 <= i < table@.len() ==> table@[i] == node_reaches(*m, i, command@, depth),
    ensures
        r == ref_reaches(*m, id@, command@, depth),
{
    let default_id = "default".to_owned();
    if *id == default_id {
        proof {
            assert(table@[m.permission_sets@.len() as int] == node_reaches(
                *m,
                m.permission_sets@.len() as int,
                command@,
                depth,
            ));
        }
        return m.default_permission.is_some() && table[m.permission_sets.len()];
    }
    match find_name(&m.permission_sets, id) {
        Some(i) => {
            proof {
                assert(table@[i as int] == node_reaches(*m, i as int, command@, depth));
            }
            table[i]
        },
        None => false,
    }
}

/// Whether the set reaches the command within one more step than the table.
fn set_step(
    m: &Manifest,
    set: &PermissionSet,
    command: &String,
    table: &Vec<bool>,
    Ghost(depth): Ghost<nat>,
) -> (r: bool)
    requires
        table@.len() == m.permission_sets@.len() + 1,
        forall|i: int| 0 <= i < table@.len() ==> table@[i] == node_reaches(*m, i, command@, depth),
    ensures
        r == set_reaches(*m, *set, command@, depth + 1),
{
    if set_direct(m, set, command) {
        return true;
    }
    let mut k: usize = 0;
    while k < set.permissions.len()
        invariant
            k <= set.permissions@.len(),
            table@.len() == m.permission_sets@.len() + 1,
            forall|i: int| 0 <= i < table@.len() ==> table@[i] == node_reaches(*m, i, command@, depth),
            forall|j: int|
                0 <= j < k ==> !ref_reaches(*m, (#[trigger] set.permissions@[j])@, command@, depth),
        decreases set.permissions.len() - k,
    {
        if ref_in_table(m, &set.permissions[k], command, table, Ghost(depth)) {
            proof {
                assert(ref_reaches(*m, set.permissions@[k as int]@, command@, ((depth + 1) - 1) as nat));
            }
            return true;
        }
        k += 1;
    }
    proof {
        assert(((depth + 1) - 1) as nat == depth);
    }
    false
}

/// For each node (each permission set, then the default set), whether it
/// allows the command through any chain of references.
pub(crate) fn reach_table(m: &Manifest, command: &String) -> (r: Vec<bool>)
    requires
        m.permission_sets@.len() + 1 <= usize::MAX,
    ensures
        r@.len() == m.permission_sets@.len() + 1,
        forall|i: int|
            0 <= i < r@.len() ==> r@[i] == node_reaches(
                *m,
                i,
                command@,
                (m.permission_sets@.len() + 1) as nat,
            ),
{
    let n = m.permission_sets.len();
    let mut table: Vec<bool> = Vec::new();
    let mut i: usize = 0;
    while i <= n
        invariant
            n == m.permission_sets@.len(),
            n + 1 <= usize::MAX,
            i <= n + 1,
            table@.len() == i,
            forall|j: int| 0 <= j < i ==> table@[j] == node_reaches(*m, j, command@, 0),
        decreases n + 1 - i,
    {
        let b = if i < n {
            set_direct(m, &m.permission_sets[i].1, command)
        } else {
            match &m.default_permission {
                Some(d) => set_direct(m, d, command),
                None => false,
            }
        };
        table.push(b);
        i += 1;
    }
    let mut depth: usize = 0;
    while depth <= n
        invariant
            n == m.permission_sets@.len(),
            n + 1 <= usize::MAX,
            depth <= n + 1,
            table@.len() == n + 1,
            forall|j: int| 0 <= j < table@.len() ==> table@[j] == node_reaches(*m, j, command@, depth as nat),
        decreases n + 1 - depth,
    {
        let mut next: Vec<bool> = Vec::new();
        let mut i: usize = 0;
        while i <= n
            invariant
                n == m.permission_sets@.len(),
                n + 1 <= usize::MAX,
                depth <= n,
                i <= n + 1,
                table@.len() == n + 1,
                forall|j: int| 0 <= j < table@.len() ==> table@[j] == node_reaches(*m, j, command@, depth as nat),
                next@.len() == i,
                forall|j: int| 0 <= j < i ==> next@[j] == node_reaches(*m, j, command@, (depth + 1) as nat),
            decreases n + 1 - i,
        {
            let b = if i < n {
                set_step(m, &m.permission_sets[i].1, command, &table, Ghost(depth as nat))
            } else {
                match &m.default_permission {
                    Some(d) => set_step(m, d, command, &table, Ghost(depth as nat)),
                    None => false,
                }
            };
            next.push(b);
            i += 1;
        }
        table = next;
        depth += 1;
    }
    table
}

} // verus!
