use vstd::prelude::*;

use crate::authority::{any_applies, first_applies, window_allowed};
use crate::acl::{CommandKey, ExecutionContext, Origin, ResolvedCommand, ResolvedCommandReference};
use crate::pattern::Pattern;
use crate::text::{join, join_push, join_take_next, push_str, text_le};

verus! {

/// How an origin is written: `local`, or `remote: ` and the domain.
pub open spec fn origin_text(o: Origin) -> Seq<char> {
    match o {
        Origin::Local => "local"@,
        Origin::Remote { domain } => "remote: "@ + domain@,
    }
}

/// How an execution context is written in a list of matches.
pub open spec fn context_text(c: ExecutionContext) -> Seq<char> {
    match c {
        ExecutionContext::Local => "[local]"@,
        ExecutionContext::Remote { domain } => "[remote: "@ + domain@ + "]"@,
    }
}

/// How one reference is written.
pub open spec fn reference_text(r: ResolvedCommandReference) -> Seq<char> {
    "capability: "@ + r.capability@ + ", permission: "@ + r.permission@
}

/// The written references, in order.
pub open spec fn reference_parts(refs: Seq<ResolvedCommandReference>) -> Seq<Seq<char>> {
    refs.map_values(|r: ResolvedCommandReference| reference_text(r))
}

/// The references, separated by ` || `.
pub open spec fn references_text(refs: Seq<ResolvedCommandReference>) -> Seq<char> {
    join(reference_parts(refs), " || "@)
}

/// The window patterns' texts, in order.
pub open spec fn window_parts(windows: Seq<Pattern>) -> Seq<Seq<char>> {
    windows.map_values(|w: Pattern| w@)
}

/// The window patterns, separated by `, `.
pub open spec fn windows_text(windows: Seq<Pattern>) -> Seq<char> {
    join(window_parts(windows), ", "@)
}

/// The permissions, each prefixed by the plugin name and `:`, in order.
pub open spec fn permission_parts(plugin: Seq<char>, perms: Seq<Seq<char>>) -> Seq<Seq<char>> {
    perms.map_values(|p: Seq<char>| plugin + ":"@ + p)
}

/// The plugin's permissions, separated by `, `.
pub open spec fn permissions_text(plugin: Seq<char>, perms: Seq<Seq<char>>) -> Seq<char> {
    join(permission_parts(plugin, perms), ", "@)
}

/// One line of a list of matching entries.
pub open spec fn match_line(e: (CommandKey, ResolvedCommand)) -> Seq<char> {
    "- context: "@ + context_text(e.0.context) + ", referenced by: "@ + references_text(
        e.1.referenced_by@,
    )
}

/// The entries of the table that name the command, in order.
pub open spec fn named(table: Seq<(CommandKey, ResolvedCommand)>, command: Seq<char>) -> Seq<
    (CommandKey, ResolvedCommand),
>
    decreases table.len(),
{
    if table.len() == 0 {
        Seq::empty()
    } else {
        named(table.drop_last(), command) + if table.last().0.name@ == command {
            seq![table.last()]
        } else {
            Seq::empty()
        }
    }
}

/// The lines of the entries that name the command, separated by newlines.
pub open spec fn matches_text(table: Seq<(CommandKey, ResolvedCommand)>, command: Seq<char>) -> Seq<
    char,
> {
    join(named(table, command).map_values(|e: (CommandKey, ResolvedCommand)| match_line(e)), "\n"@)
}

/// `s` holds the texts of `of`, each as often, in lexicographic order.
pub open spec fn sorted_permutation(s: Seq<Seq<char>>, of: Seq<Seq<char>>) -> bool {
    &&& s.to_multiset() == of.to_multiset()
    &&& forall|i: int, j: int| 0 <= i < j < s.len() ==> text_le(#[trigger] s[i], #[trigger] s[j])
}

/// Why a command is or is not allowed, as a message: `perms` stands for the
/// sorted identifiers of the plugin's permissions that allow the command.
pub open spec fn access_message(
    allowed: Seq<(CommandKey, ResolvedCommand)>,
    denied: Seq<(CommandKey, ResolvedCommand)>,
    has_manifest: bool,
    plugin: Seq<char>,
    command_name: Seq<char>,
    window: Seq<char>,
    origin: Origin,
    perms: Seq<Seq<char>>,
) -> Seq<char> {
    let full = "plugin:"@ + plugin + "|"@ + command_name;
    let head = plugin + "."@ + command_name;
    if any_applies(denied, full, origin) {
        let i = choose|i: int| first_applies(denied, i, full, origin);
        head + " denied on origin "@ + origin_text(origin) + ", referenced by: "@ + references_text(
            denied[i].1.referenced_by@,
        )
    } else if exists|i: int| first_applies(allowed, i, full, origin) {
        let i = choose|i: int| first_applies(allowed, i, full, origin);
        let resolved = allowed[i].1;
        if window_allowed(resolved.windows@, window) {
            "allowed"@
        } else {
            head + " not allowed on window "@ + window + ", expected one of "@ + windows_text(
                resolved.windows@,
            ) + ", referenced by "@ + references_text(resolved.referenced_by@)
        }
    } else {
        let detail = if has_manifest {
            "Permissions associated with this command: "@ + permissions_text(plugin, perms)
        } else {
            "Plugin did not define its manifest"@
        };
        if named(allowed, full).len() == 0 {
            head + " not allowed. "@ + detail
        } else {
            head + " not allowed on origin ["@ + origin_text(origin)
                + "]. Please create a capability that has this origin on the context field.\n\nFound matches for: "@
                + matches_text(allowed, full) + "\n\n"@ + detail
        }
    }
}

/// Appends how the origin is written.
pub(crate) fn push_origin(out: &mut String, origin: &Origin)
    ensures
        final(out)@ == old(out)@ + origin_text(*origin),
{
    match origin {
        Origin::Local => push_str(out, "local"),
        Origin::Remote { domain } => {
            push_str(out, "remote: ");
            push_str(out, domain.as_str());
            proof {
                assert(final(out)@ =~= old(out)@ + origin_text(*origin));
            }
        },
    }
}

impl Origin {
    /// How the origin is written: `local`, or `remote: ` and the domain.
    pub fn to_string(&self) -> (r: String)
        ensures
            r@ == origin_text(*self),
    {
        let mut out = String::new();
        push_origin(&mut out, self);
        proof {
            assert(out@ =~= origin_text(*self));
        }
        out
    }
}

/// Appends how the execution context is written.
fn push_context(out: &mut String, context: &ExecutionContext)
    ensures
        final(out)@ == old(out)@ + context_text(*context),
{
    match context {
        ExecutionContext::Local => push_str(out, "[local]"),
        ExecutionContext::Remote { domain } => {
            push_str(out, "[remote: ");
            push_str(out, domain.as_str());
            push_str(out, "]");
            proof {
                assert(final(out)@ =~= old(out)@ + context_text(*context));
            }
        },
    }
}

/// Appends the references, separated by ` || `.
pub(crate) fn push_references(out: &mut String, refs: &Vec<ResolvedCommandReference>)
    ensures
        final(out)@ == old(out)@ + references_text(refs@),
{
    let ghost base = out@;
    let ghost parts = reference_parts(refs@);
    let mut i: usize = 0;
    proof {
        assert(join(parts.take(0), " || "@) =~= Seq::<char>::empty());
        assert(out@ =~= base + join(parts.take(0), " || "@));
    }
    while i < refs.len()
        invariant
            i <= refs@.len(),
            parts == reference_parts(refs@),
            out@ == base + join(parts.take(i as int), " || "@),
        decreases refs.len() - i,
    {
        if i > 0 {
            push_str(out, " || ");
        }
        push_str(out, "capability: ");
        push_str(out, refs[i].capability.as_str());
        push_str(out, ", permission: ");
        push_str(out, refs[i].permission.as_str());
        proof {
            join_take_next(parts, " || "@, i as int);
            assert(parts[i as int] == reference_text(refs@[i as int]));
            assert(out@ =~= base + join(parts.take(i + 1), " || "@));
        }
        i += 1;
    }
    proof {
        assert(parts.take(refs@.len() as int) =~= parts);
    }
}

/// Appends the window patterns, separated by `, `.
pub(crate) fn push_windows(out: &mut String, windows: &Vec<Pattern>)
    ensures
        final(out)@ == old(out)@ + windows_text(windows@),
{
    let ghost base = out@;
    let ghost parts = window_parts(windows@);
    let mut i: usize = 0;
    proof {
        assert(join(parts.take(0), ", "@) =~= Seq::<char>::empty());
        assert(out@ =~= base + join(parts.take(0), ", "@));
    }
    while i < windows.len()
        invariant
            i <= windows@.len(),
            parts == window_parts(windows@),
            out@ == base + join(parts.take(i as int), ", "@),
        decreases windows.len() - i,
    {
        if i > 0 {
            push_str(out, ", ");
        }
        push_str(out, windows[i].as_str());
        proof {
            join_take_next(parts, ", "@, i as int);
            assert(out@ =~= base + join(parts.take(i + 1), ", "@));
        }
        i += 1;
    }
    proof {
        assert(parts.take(windows@.len() as int) =~= parts);
    }
}

/// Appends the plugin's permissions, separated by `, `.
pub(crate) fn push_permissions(out: &mut String, plugin: &str, perms: &Vec<String>)
    ensures
        final(out)@ == old(out)@ + permissions_text(plugin@, crate::text::texts(perms@)),
{
    let ghost base = out@;
    let ghost parts = permission_parts(plugin@, crate::text::texts(perms@));
    let mut i: usize = 0;
    proof {
        assert(join(parts.take(0), ", "@) =~= Seq::<char>::empty());
        assert(out@ =~= base + join(parts.take(0), ", "@));
    }
    while i < perms.len()
        invariant
            i <= perms@.len(),
            parts == permission_parts(plugin@, crate::text::texts(perms@)),
            out@ == base + join(parts.take(i as int), ", "@),
        decreases perms.len() - i,
    {
        if i > 0 {
            push_str(out, ", ");
        }
        push_str(out, plugin);
        push_str(out, ":");
        push_str(out, perms[i].as_str());
        proof {
            join_take_next(parts, ", "@, i as int);
            assert(parts[i as int] == plugin@ + ":"@ + perms@[i as int]@);
            assert(out@ =~= base + join(parts.take(i + 1), ", "@));
        }
        i += 1;
    }
    proof {
        assert(parts.take(perms@.len() as int) =~= parts);
    }
}

/// Appends the lines of the entries that name the command; returns whether
/// there was one.
pub(crate) fn push_matches(out: &mut String, table: &Vec<(CommandKey, ResolvedCommand)>, command: &String) -> (r:
    bool)
    ensures
        final(out)@ == old(out)@ + matches_text(table@, command@),
        r == (named(table@, command@).len() > 0),
{
    let ghost base = out@;
    let mut found = false;
    let mut i: usize = 0;
    proof {
        assert(named(table@.take(0), command@) =~= Seq::empty());
        assert(out@ =~= base + matches_text(table@.take(0), command@));
    }
    while i < table.len()
        invariant
            i <= table@.len(),
            out@ == base + matches_text(table@.take(i as int), command@),
            found == (named(table@.take(i as int), command@).len() > 0),
        decreases table.len() - i,
    {
        let ghost prev = named(table@.take(i as int), command@);
        proof {
            assert(table@.take(i + 1).drop_last() =~= table@.take(i as int));
            assert(table@.take(i + 1).last() == table@[i as int]);
        }
        if table[i].0.name == *command {
            if found {
                push_str(out, "\n");
            }
            push_str(out, "- context: ");
            push_context(out, &table[i].0.context);
            push_str(out, ", referenced by: ");
            push_references(out, &table[i].1.referenced_by);
            proof {
                let f = |e: (CommandKey, ResolvedCommand)| match_line(e);
                assert(named(table@.take(i + 1), command@) =~= prev.push(table@[i as int]));
                assert(prev.push(table@[i as int]).map_values(f) =~= prev.map_values(f).push(
                    match_line(table@[i as int]),
                ));
                join_push(prev.map_values(f), match_line(table@[i as int]), "\n"@);
                assert(out@ =~= base + matches_text(table@.take(i + 1), command@));
            }
            found = true;
        } else {
            proof {
                assert(named(table@.take(i + 1), command@) =~= prev);
            }
        }
        i += 1;
    }
    proof {
        assert(table@.take(table@.len() as int) =~= table@);
    }
    found
}

} // verus!
