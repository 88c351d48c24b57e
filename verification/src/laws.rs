//! What holds between the resolver and the evaluator.
//!
//! A lookup by name reads the nearest binding up the chain of environments.
//! The resolver sees scopes, the evaluator environments. Where the chain of
//! environments holds the names that the stack of scopes held, the depth
//! that the resolver recorded leads the evaluator to the innermost
//! binding.

use vstd::prelude::*;
use crate::environment::{
    EnvironmentView, ancestor, ancestor_in_range, chained, get_at, holder, lookup,
};
use crate::scoping::{Scope, holds_at, innermost, innermost_is_nearest};

verus! {

/// Whether the environment a number of parent links up from `start` binds
/// a name.
pub open spec fn binds_at(
    environments: Seq<EnvironmentView>,
    start: int,
    depth: int,
    name: Seq<char>,
) -> bool {
    match ancestor(environments, start, depth as nat) {
        Some(at) => 0 <= at < environments.len() && environments[at].values.contains_key(name),
        None => false,
    }
}

/// Whether a chain of environments holds the names of a stack of scopes:
/// the chain is as long as the stack is high, and the environment a number
/// of parent links up from `start` binds exactly the names that the scope
/// that many scopes out from the innermost holds.
pub open spec fn mirrors(
    scopes: Seq<Scope>,
    environments: Seq<EnvironmentView>,
    start: int,
) -> bool {
    &&& forall|depth: int|
        0 <= depth < scopes.len() ==> (#[trigger] ancestor(environments, start, depth as nat))
            is Some
    &&& forall|depth: int, name: Seq<char>|
        0 <= depth < scopes.len() ==> (#[trigger] holds_at(scopes, depth, name) <==> binds_at(
            environments,
            start,
            depth,
            name,
        ))
}

/// The nearest binding of a name that the first `depth` environments of a
/// chain do not bind is the nearest binding as seen from the environment
/// `depth` links up.
proof fn holder_skips(environments: Seq<EnvironmentView>, start: int, name: Seq<char>, depth: nat)
    requires
        chained(environments),
        ancestor(environments, start, depth) is Some,
        forall|nearer: int|
            0 <= nearer < depth ==> !#[trigger] binds_at(environments, start, nearer, name),
    ensures
        holder(environments, start, name) == holder(
            environments,
            ancestor(environments, start, depth)->0,
            name,
        ),
    decreases depth,
{
    if depth > 0 {
        assert(!binds_at(environments, start, 0, name));
        let parent = environments[start].enclosing->0 as int;
        assert forall|nearer: int| 0 <= nearer < depth - 1 implies !#[trigger] binds_at(
            environments,
            parent,
            nearer,
            name,
        ) by {
            assert(!binds_at(environments, start, nearer + 1, name));
            assert(ancestor(environments, start, (nearer + 1) as nat) == ancestor(
                environments,
                parent,
                nearer as nat,
            ));
        }
        holder_skips(environments, parent, name, (depth - 1) as nat);
    }
}

/// A lookup by name reads the nearest binding: where the environment a
/// number of parent links up binds the name and none nearer does, the
/// lookup reads that environment.
pub proof fn lookup_reads_nearest_binding(
    environments: Seq<EnvironmentView>,
    start: int,
    name: Seq<char>,
    depth: nat,
)
    requires
        chained(environments),
        binds_at(environments, start, depth as int, name),
        forall|nearer: int|
            0 <= nearer < depth ==> !#[trigger] binds_at(environments, start, nearer, name),
    ensures
        lookup(environments, start, name) == get_at(environments, start, depth, name),
        lookup(environments, start, name) is Some,
{
    holder_skips(environments, start, name, depth);
    ancestor_in_range(environments, start, depth);
}

/// Lexical scoping, from the resolver to the evaluator. Where the chain of
/// environments holds the names of the scopes, a reference that the
/// resolver gave a depth reads, at that depth, the binding that is nearest
/// to it: the one of the innermost scope that holds its name, and not one
/// further out.
pub proof fn resolved_reference_reads_innermost_binding(
    scopes: Seq<Scope>,
    environments: Seq<EnvironmentView>,
    start: int,
    name: Seq<char>,
    depth: usize,
)
    requires
        scopes.len() <= usize::MAX,
        chained(environments),
        mirrors(scopes, environments, start),
        innermost(scopes, name) == Some(depth),
    ensures
        get_at(environments, start, depth as nat, name) is Some,
        get_at(environments, start, depth as nat, name) == lookup(environments, start, name),
{
    innermost_is_nearest(scopes, name);
    assert(holds_at(scopes, depth as int, name));
    assert(binds_at(environments, start, depth as int, name));
    assert forall|nearer: int| 0 <= nearer < depth implies !#[trigger] binds_at(
        environments,
        start,
        nearer,
        name,
    ) by {
        assert(!holds_at(scopes, nearer, name));
    }
    lookup_reads_nearest_binding(environments, start, name, depth as nat);
}

/// A reference that the resolver gave no depth is bound by none of the
/// scopes: where the chain of environments holds the names of the scopes,
/// none of the environments that stand for them binds the name.
pub proof fn unresolved_reference_is_not_local(
    scopes: Seq<Scope>,
    environments: Seq<EnvironmentView>,
    start: int,
    name: Seq<char>,
    depth: int,
)
    requires
        scopes.len() <= usize::MAX,
        mirrors(scopes, environments, start),
        innermost(scopes, name) is None,
        0 <= depth < scopes.len(),
    ensures
        !binds_at(environments, start, depth, name),
{
    innermost_is_nearest(scopes, name);
    assert(!holds_at(scopes, depth, name));
}

} // verus!
