use vstd::prelude::*;

use crate::pattern::{glob_matches, Pattern};

verus! {

/// Declares `serde_json::Value`, the raw scope data, as an opaque type:
/// values are held and handed to converters as they are, and nothing is
/// assumed of their contents.
#[verifier::external_type_specification]
#[verifier::external_body]
pub struct ExValue(serde_json::Value);

/// Identifier linking a resolved command to its resolved scope.
pub type ScopeKey = u64;

/// The declared origin class that a permission entry applies to.
#[derive(Debug, Clone, PartialEq, Eq)]
pub enum ExecutionContext {
    /// The local application.
    Local,
    /// A remote origin whose domain matches the glob pattern.
    Remote { domain: Pattern },
}

/// A resolved command entry key: command name and execution context.
#[derive(Debug, Clone, PartialEq, Eq)]
pub struct CommandKey {
    pub name: String,
    pub context: ExecutionContext,
}

/// A capability and permission that caused a command entry.
#[derive(Debug, Clone, PartialEq, Eq)]
pub struct ResolvedCommandReference {
    pub capability: String,
    pub permission: String,
}

/// The permission record of one command key.
#[derive(Debug, Clone, PartialEq, Eq)]
pub struct ResolvedCommand {
    /// Where the entry comes from, for diagnostics.
    pub referenced_by: Vec<ResolvedCommandReference>,
    /// Window label patterns the entry is valid on.
    pub windows: Vec<Pattern>,
    /// The command's scope, if it has one.
    pub scope: Option<ScopeKey>,
}

impl ResolvedCommand {
    /// A record with no windows, no references and no scope.
    pub fn new() -> (r: ResolvedCommand)
        ensures
            r.referenced_by@.len() == 0,
            r.windows@.len() == 0,
            r.scope is None,
    {
        ResolvedCommand { referenced_by: Vec::new(), windows: Vec::new(), scope: None }
    }
}

/// Raw allowed and denied scope values, in declaration order.
#[derive(Debug, Clone)]
pub struct ResolvedScope {
    pub allow: Vec<serde_json::Value>,
    pub deny: Vec<serde_json::Value>,
}

/// The origin trying to access the IPC.
#[derive(Debug, Clone, PartialEq, Eq)]
pub enum Origin {
    /// Local app origin.
    Local,
    /// Remote origin.
    Remote {
        /// Remote origin domain.
        domain: String,
    },
}

/// Whether an origin falls under an execution context: local only under
/// local, a remote domain only under a remote pattern that it matches.
pub open spec fn origin_matches(origin: Origin, context: ExecutionContext) -> bool {
    match (origin, context) {
        (Origin::Local, ExecutionContext::Local) => true,
        (Origin::Remote { domain }, ExecutionContext::Remote { domain: pattern }) => glob_matches(
            pattern@,
            domain@,
        ),
        _ => false,
    }
}

impl Origin {
    /// Whether this origin falls under the execution context.
    pub fn matches(&self, context: &ExecutionContext) -> (r: bool)
        ensures
            r == origin_matches(*self, *context),
    {
        match (self, context) {
            (Origin::Local, ExecutionContext::Local) => true,
            (Origin::Remote { domain }, ExecutionContext::Remote { domain: pattern }) => {
                pattern.matches(domain.as_str())
            },
            _ => false,
        }
    }
}

/// A local origin falls under exactly the local context, a remote one never
/// under the local context.
pub proof fn local_and_remote_are_disjoint(origin: Origin, context: ExecutionContext)
    ensures
        origin is Local ==> (origin_matches(origin, context) <==> context is Local),
        origin is Remote ==> (origin_matches(origin, context) ==> context is Remote),
        context is Local ==> (origin_matches(origin, context) <==> origin is Local),
{
}

/// A remote domain falls under a remote context exactly when it matches the
/// context's domain pattern as a glob.
pub proof fn remote_matches_by_glob(domain: String, pattern: Pattern)
    ensures
        origin_matches(Origin::Remote { domain }, ExecutionContext::Remote { domain: pattern })
            == glob_matches(pattern@, domain@),
{
}

} // verus!
