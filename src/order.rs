use vstd::prelude::*;

use crate::acl::{CommandKey, ExecutionContext, ResolvedCommand};
use crate::text::text_le;

verus! {

/// Strict lexicographic order of texts.
pub open spec fn text_lt(a: Seq<char>, b: Seq<char>) -> bool {
    text_le(a, b) && a != b
}

proof fn text_le_transitive(a: Seq<char>, b: Seq<char>, c: Seq<char>)
    requires
        text_le(a, b),
        text_le(b, c),
    ensures
        text_le(a, c),
    decreases a.len(),
{
    if a.len() > 0 && b.len() > 0 && c.len() > 0 && a[0] == b[0] && b[0] == c[0] {
        text_le_transitive(a.drop_first(), b.drop_first(), c.drop_first());
    }
}

proof fn text_le_antisymmetric(a: Seq<char>, b: Seq<char>)
    requires
        text_le(a, b),
        text_le(b, a),
    ensures
        a == b,
    decreases a.len(),
{
    if a.len() > 0 && b.len() > 0 {
        if a[0] == b[0] {
            text_le_antisymmetric(a.drop_first(), b.drop_first());
            assert(a =~= seq![a[0]] + a.drop_first());
            assert(b =~= seq![b[0]] + b.drop_first());
        } else {
            vstd::utf8::char_u32_cast(a[0], a[0] as u32);
            vstd::utf8::char_u32_cast(b[0], b[0] as u32);
        }
    } else {
        assert(a =~= b);
    }
}

proof fn text_le_total(a: Seq<char>, b: Seq<char>)
    ensures
        text_le(a, b) || text_le(b, a),
    decreases a.len(),
{
    if a.len() > 0 && b.len() > 0 {
        if a[0] == b[0] {
            text_le_total(a.drop_first(), b.drop_first());
        } else {
            vstd::utf8::char_u32_cast(a[0], a[0] as u32);
            vstd::utf8::char_u32_cast(b[0], b[0] as u32);
        }
    }
}

/// Order of execution contexts: local first, then remote ones by pattern.
pub open spec fn context_lt(a: ExecutionContext, b: ExecutionContext) -> bool {
    match (a, b) {
        (ExecutionContext::Local, ExecutionContext::Remote { .. }) => true,
        (ExecutionContext::Remote { domain: p }, ExecutionContext::Remote { domain: q }) => text_lt(
            p@,
            q@,
        ),
        _ => false,
    }
}

/// Whether two keys have the same name and the same context.
pub open spec fn same_key(a: CommandKey, b: CommandKey) -> bool {
    a.name@ == b.name@ && match (a.context, b.context) {
        (ExecutionContext::Local, ExecutionContext::Local) => true,
        (ExecutionContext::Remote { domain: p }, ExecutionContext::Remote { domain: q }) => p@
            == q@,
        _ => false,
    }
}

/// Order of command keys: by name, then by context.
pub open spec fn key_lt(a: CommandKey, b: CommandKey) -> bool {
    text_lt(a.name@, b.name@) || (a.name@ == b.name@ && context_lt(a.context, b.context))
}

proof fn text_lt_transitive(a: Seq<char>, b: Seq<char>, c: Seq<char>)
    requires
        text_lt(a, b),
        text_lt(b, c),
    ensures
        text_lt(a, c),
{
    text_le_transitive(a, b, c);
    if a == c {
        text_le_antisymmetric(a, b);
    }
}

/// The key order is transitive.
pub proof fn key_lt_transitive(a: CommandKey, b: CommandKey, c: CommandKey)
    requires
        key_lt(a, b),
        key_lt(b, c),
    ensures
        key_lt(a, c),
{
    if text_lt(a.name@, b.name@) && text_lt(b.name@, c.name@) {
        text_lt_transitive(a.name@, b.name@, c.name@);
    }
    match (a.context, b.context, c.context) {
        (
            ExecutionContext::Remote { domain: p },
            ExecutionContext::Remote { domain: q },
            ExecutionContext::Remote { domain: r },
        ) => {
            if text_lt(p@, q@) && text_lt(q@, r@) {
                text_lt_transitive(p@, q@, r@);
            }
        },
        _ => {},
    }
}

/// Of two keys, one is less than the other, or they are the same key.
pub proof fn key_lt_total(a: CommandKey, b: CommandKey)
    ensures
        key_lt(a, b) || key_lt(b, a) || same_key(a, b),
{
    text_le_total(a.name@, b.name@);
    match (a.context, b.context) {
        (ExecutionContext::Remote { domain: p }, ExecutionContext::Remote { domain: q }) => {
            text_le_total(p@, q@);
        },
        _ => {},
    }
}

/// A key is not less than itself, nor than a key that is the same.
pub proof fn key_lt_irreflexive(a: CommandKey, b: CommandKey)
    requires
        same_key(a, b),
    ensures
        !key_lt(a, b),
        !key_lt(b, a),
{
}

/// Relies on `PartialOrd for str` (`<`): lexicographic order of the bytes,
/// which for UTF-8 is the order of the code points.
#[verifier::external_body]
fn text_less(a: &str, b: &str) -> (r: bool)
    ensures
        r == text_lt(a@, b@),
{
    a < b
}

/// Whether two keys are the same.
pub(crate) fn same_key_exec(a: &CommandKey, b: &CommandKey) -> (r: bool)
    ensures
        r == same_key(*a, *b),
{
    if a.name != b.name {
        return false;
    }
    match (&a.context, &b.context) {
        (ExecutionContext::Local, ExecutionContext::Local) => true,
        (ExecutionContext::Remote { domain: p }, ExecutionContext::Remote { domain: q }) => {
            let ps = p.as_str().to_owned();
            let qs = q.as_str().to_owned();
            ps == qs
        },
        _ => false,
    }
}

/// Whether key `a` comes before key `b`.
pub(crate) fn key_less(a: &CommandKey, b: &CommandKey) -> (r: bool)
    ensures
        r == key_lt(*a, *b),
{
    if text_less(a.name.as_str(), b.name.as_str()) {
        return true;
    }
    if a.name != b.name {
        return false;
    }
    match (&a.context, &b.context) {
        (ExecutionContext::Local, ExecutionContext::Remote { .. }) => true,
        (ExecutionContext::Remote { domain: p }, ExecutionContext::Remote { domain: q }) => {
            text_less(p.as_str(), q.as_str())
        },
        _ => false,
    }
}

/// Entries in strictly increasing key order (so no key twice).
pub open spec fn sorted_table(t: Seq<(CommandKey, ResolvedCommand)>) -> bool {
    forall|i: int, j: int| 0 <= i < j < t.len() ==> key_lt(#[trigger] t[i].0, #[trigger] t[j].0)
}

/// The table with the entry put in key order, replacing the entry of the
/// same key.
pub open spec fn insert_entry_spec(
    t: Seq<(CommandKey, ResolvedCommand)>,
    e: (CommandKey, ResolvedCommand),
) -> Seq<(CommandKey, ResolvedCommand)>
    decreases t.len(),
{
    if t.len() == 0 {
        seq![e]
    } else if key_lt(t[0].0, e.0) {
        seq![t[0]] + insert_entry_spec(t.drop_first(), e)
    } else if same_key(t[0].0, e.0) {
        seq![e] + t.drop_first()
    } else {
        seq![e] + t
    }
}

/// The table that the entries make, in key order, a later entry replacing
/// an earlier one of the same key.
pub open spec fn table_of(entries: Seq<(CommandKey, ResolvedCommand)>) -> Seq<
    (CommandKey, ResolvedCommand),
>
    decreases entries.len(),
{
    if entries.len() == 0 {
        Seq::empty()
    } else {
        insert_entry_spec(table_of(entries.drop_last()), entries.last())
    }
}

/// Where the entries before `p` are less than the entry and the one at `p`
/// is not, the insertion puts the entry at `p`.
proof fn insert_at(t: Seq<(CommandKey, ResolvedCommand)>, e: (CommandKey, ResolvedCommand), p: int)
    requires
        0 <= p <= t.len(),
        forall|j: int| 0 <= j < p ==> key_lt(#[trigger] t[j].0, e.0),
        p < t.len() ==> !key_lt(t[p].0, e.0),
    ensures
        insert_entry_spec(t, e) == if p < t.len() && same_key(t[p].0, e.0) {
            t.take(p) + seq![e] + t.skip(p + 1)
        } else {
            t.take(p) + seq![e] + t.skip(p)
        },
    decreases p,
{
    if p == 0 {
        if t.len() == 0 {
            assert(t.take(0) + seq![e] + t.skip(0) =~= seq![e]);
        } else if same_key(t[0].0, e.0) {
            assert(t.take(0) + seq![e] + t.skip(1) =~= seq![e] + t.drop_first());
        } else {
            assert(t.take(0) + seq![e] + t.skip(0) =~= seq![e] + t);
        }
    } else {
        let d = t.drop_first();
        assert(key_lt(t[0].0, e.0));
        assert forall|j: int| 0 <= j < p - 1 implies key_lt(#[trigger] d[j].0, e.0) by {
            assert(d[j] == t[j + 1]);
        }
        if p < t.len() {
            assert(d[p - 1] == t[p]);
        }
        insert_at(d, e, p - 1);
        if p < t.len() && same_key(t[p].0, e.0) {
            assert(seq![t[0]] + (d.take(p - 1) + seq![e] + d.skip(p)) =~= t.take(p) + seq![e]
                + t.skip(p + 1));
        } else {
            assert(seq![t[0]] + (d.take(p - 1) + seq![e] + d.skip(p - 1)) =~= t.take(p) + seq![e]
                + t.skip(p));
        }
    }
}

/// Putting the entry at `p` (in place of the entry there, if it has the
/// same key) keeps the table sorted.
proof fn insert_keeps_sorted(
    t: Seq<(CommandKey, ResolvedCommand)>,
    e: (CommandKey, ResolvedCommand),
    p: int,
    replace: bool,
)
    requires
        sorted_table(t),
        0 <= p <= t.len(),
        forall|j: int| 0 <= j < p ==> key_lt(#[trigger] t[j].0, e.0),
        p < t.len() ==> !key_lt(t[p].0, e.0),
        replace <==> (p < t.len() && same_key(t[p].0, e.0)),
    ensures
        sorted_table(
            if replace {
                t.take(p) + seq![e] + t.skip(p + 1)
            } else {
                t.take(p) + seq![e] + t.skip(p)
            },
        ),
{
    let after = if replace {
        p + 1
    } else {
        p
    };
    let r = t.take(p) + seq![e] + t.skip(after);
    assert(r.len() == t.len() + 1 + p - after);
    assert forall|i: int| 0 <= i < r.len() implies (#[trigger] r[i]) == if i < p {
        t[i]
    } else if i == p {
        e
    } else {
        t[i - p - 1 + after]
    } by {}
    if p < t.len() && !replace {
        key_lt_total(t[p].0, e.0);
        assert(key_lt(e.0, t[p].0));
    }
    assert forall|j: int| after <= j < t.len() implies key_lt(e.0, #[trigger] t[j].0) by {
        if replace {
            if j > p {
                assert(key_lt(t[p].0, t[j].0));
            }
        } else if j > p {
            key_lt_transitive(e.0, t[p].0, t[j].0);
        }
    }
    assert forall|i: int, j: int| 0 <= i < j < r.len() implies key_lt(
        #[trigger] r[i].0,
        #[trigger] r[j].0,
    ) by {
        if j < p {
            assert(key_lt(t[i].0, t[j].0));
        } else if j == p {
            assert(key_lt(t[i].0, e.0));
        } else if i == p {
            assert(key_lt(e.0, t[j - p - 1 + after].0));
        } else if i < p {
            let k = j - p - 1 + after;
            assert(key_lt(t[i].0, t[k].0));
        } else {
            assert(key_lt(t[i - p - 1 + after].0, t[j - p - 1 + after].0));
        }
    }
}

/// Puts the entry in key order into a sorted table, replacing the entry of
/// the same key.
pub(crate) fn insert_entry(
    table: &mut Vec<(CommandKey, ResolvedCommand)>,
    entry: (CommandKey, ResolvedCommand),
)
    requires
        sorted_table(old(table)@),
    ensures
        final(table)@ == insert_entry_spec(old(table)@, entry),
        sorted_table(final(table)@),
{
    let ghost t = table@;
    let mut p: usize = 0;
    while p < table.len() && key_less(&table[p].0, &entry.0)
        invariant
            table@ == t,
            p <= t.len(),
            forall|j: int| 0 <= j < p ==> key_lt(#[trigger] t[j].0, entry.0),
        decreases table.len() - p,
    {
        p += 1;
    }
    proof {
        insert_at(t, entry, p as int);
    }
    let replace = p < table.len() && same_key_exec(&table[p].0, &entry.0);
    let ghost e = entry;
    if replace {
        table.remove(p);
    }
    table.insert(p, entry);
    proof {
        let pi = p as int;
        insert_keeps_sorted(t, e, pi, replace);
        if replace {
            assert(table@ =~= t.take(pi) + seq![e] + t.skip(pi + 1));
        } else {
            assert(table@ =~= t.take(pi) + seq![e] + t.skip(pi));
        }
    }
}

/// The entries in key order, a later entry replacing an earlier one of the
/// same key.
pub(crate) fn sorted_entries(entries: Vec<(CommandKey, ResolvedCommand)>) -> (r: Vec<
    (CommandKey, ResolvedCommand),
>)
    ensures
        r@ == table_of(entries@),
        sorted_table(r@),
{
    let ghost input = entries@;
    let n = entries.len();
    let mut rest = entries;
    let mut table: Vec<(CommandKey, ResolvedCommand)> = Vec::new();
    let mut k: usize = 0;
    proof {
        assert(input.take(0) =~= Seq::<(CommandKey, ResolvedCommand)>::empty());
    }
    while rest.len() > 0
        invariant
            n == input.len(),
            k <= input.len(),
            rest@ == input.skip(k as int),
            table@ == table_of(input.take(k as int)),
            sorted_table(table@),
        decreases rest@.len(),
    {
        let entry = rest.remove(0);
        proof {
            assert(entry == input[k as int]);
            assert(input.take(k + 1).drop_last() =~= input.take(k as int));
            assert(rest@ =~= input.skip(k + 1));
        }
        insert_entry(&mut table, entry);
        k += 1;
    }
    proof {
        assert(input.take(k as int) =~= input);
    }
    table
}

} // verus!
