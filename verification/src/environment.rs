//! Environments: name-to-value maps chained by a parent link.
//!
//! Environments are shared: a closure holds on to the environment it was
//! made in, and every activation of a function hangs a fresh environment
//! below the closure's. They live in one vector and name each other by
//! index; a parent always has a smaller index than its children, so that
//! every chain ends.

use vstd::prelude::*;
use vstd::hash_map::StringHashMap;
use crate::token::Token;
use crate::value::{LiteralValue, ValueView, optional_value_view};
use crate::error::{RuntimeError, RuntimeMessage};

verus! {

/// The index of the global environment.
pub const GLOBALS: usize = 0;

/// One environment: its bindings and the index of its parent.
pub struct Environment {
    pub values: StringHashMap<LiteralValue>,
    pub enclosing: Option<usize>,
}

/// The mathematical view of an environment.
pub struct EnvironmentView {
    pub values: Map<Seq<char>, ValueView>,
    pub enclosing: Option<usize>,
}

impl View for Environment {
    type V = EnvironmentView;

    open spec fn view(&self) -> EnvironmentView {
        EnvironmentView {
            values: Map::new(
                |k: Seq<char>| self.values@.contains_key(k),
                |k: Seq<char>| self.values@[k]@,
            ),
            enclosing: self.enclosing,
        }
    }
}

/// The views of the environments of a vector, in order.
pub open spec fn environments_view(environments: Seq<Environment>) -> Seq<EnvironmentView> {
    Seq::new(environments.len(), |i: int| environments[i]@)
}

/// The invariant of a vector of environments: every parent stands in front
/// of its children.
pub open spec fn chained(environments: Seq<EnvironmentView>) -> bool {
    forall|i: int|
        0 <= i < environments.len() ==> match (#[trigger] environments[i]).enclosing {
            Some(parent) => parent < i,
            None => true,
        }
}

/// The environments after a name was bound in one of them.
pub open spec fn define(
    environments: Seq<EnvironmentView>,
    at: int,
    name: Seq<char>,
    value: ValueView,
) -> Seq<EnvironmentView> {
    environments.update(
        at,
        EnvironmentView {
            values: environments[at].values.insert(name, value),
            enclosing: environments[at].enclosing,
        },
    )
}

/// The environments with one more, empty, below a parent.
pub open spec fn extend(environments: Seq<EnvironmentView>, enclosing: Option<usize>) -> Seq<
    EnvironmentView,
> {
    environments.push(EnvironmentView { values: Map::empty(), enclosing })
}

/// The nearest environment that binds a name, from an environment up its
/// chain of parents.
pub open spec fn holder(
    environments: Seq<EnvironmentView>,
    start: int,
    name: Seq<char>,
) -> Option<int>
    decreases start,
{
    if start < 0 || start >= environments.len() {
        None
    } else if environments[start].values.contains_key(name) {
        Some(start)
    } else {
        match environments[start].enclosing {
            Some(parent) => if parent < start {
                holder(environments, parent as int, name)
            } else {
                None
            },
            None => None,
        }
    }
}

/// The value that a name is bound to, as seen from an environment: that of
/// the nearest binding up the chain of parents.
pub open spec fn lookup(
    environments: Seq<EnvironmentView>,
    start: int,
    name: Seq<char>,
) -> Option<ValueView> {
    match holder(environments, start, name) {
        Some(at) => Some(environments[at].values[name]),
        None => None,
    }
}

/// The environments after an assignment to a name, as seen from an
/// environment: the nearest binding is overwritten. Without a binding
/// there is nothing to assign to.
pub open spec fn assign(
    environments: Seq<EnvironmentView>,
    start: int,
    name: Seq<char>,
    value: ValueView,
) -> Option<Seq<EnvironmentView>> {
    match holder(environments, start, name) {
        Some(at) => Some(define(environments, at, name, value)),
        None => None,
    }
}

/// The environment a number of parent links above another.
pub open spec fn ancestor(
    environments: Seq<EnvironmentView>,
    start: int,
    distance: nat,
) -> Option<int>
    decreases distance,
{
    if start < 0 || start >= environments.len() {
        None
    } else if distance == 0 {
        Some(start)
    } else {
        match environments[start].enclosing {
            Some(parent) => ancestor(environments, parent as int, (distance - 1) as nat),
            None => None,
        }
    }
}

/// The value that a name is bound to in the environment a number of parent
/// links above another. The chain beyond that environment is not asked.
pub open spec fn get_at(
    environments: Seq<EnvironmentView>,
    start: int,
    distance: nat,
    name: Seq<char>,
) -> Option<ValueView> {
    match ancestor(environments, start, distance) {
        Some(at) => if environments[at].values.contains_key(name) {
            Some(environments[at].values[name])
        } else {
            None
        },
        None => None,
    }
}

/// The environments after a name was bound in the environment a number of
/// parent links above another.
pub open spec fn assign_at(
    environments: Seq<EnvironmentView>,
    start: int,
    distance: nat,
    name: Seq<char>,
    value: ValueView,
) -> Option<Seq<EnvironmentView>> {
    match ancestor(environments, start, distance) {
        Some(at) => Some(define(environments, at, name, value)),
        None => None,
    }
}

impl Environment {
    /// An empty environment below a parent.
    pub fn new(enclosing: Option<usize>) -> (r: Environment)
        ensures
            r@ == (EnvironmentView { values: Map::empty(), enclosing }),
    {
        let r = Environment { values: StringHashMap::new(), enclosing };
        assert(r@.values =~= Map::empty());
        r
    }

    /// Bind a name in this environment, whether it was bound before or not.
    pub fn define(&mut self, name: String, value: LiteralValue)
        ensures
            final(self)@ == (EnvironmentView {
                values: old(self)@.values.insert(name@, value@),
                enclosing: old(self)@.enclosing,
            }),
    {
        self.values.insert(name, value);
        assert(self@.values =~= old(self)@.values.insert(name@, value@));
    }

    /// The value that this environment itself binds a name to.
    pub fn own(&self, name: &str) -> (r: Option<&LiteralValue>)
        ensures
            match r {
                Some(v) => self@.values.contains_key(name@) && self@.values[name@] == v@,
                None => !self@.values.contains_key(name@),
            },
    {
        self.values.get(name)
    }

    /// The value that a name is bound to, as seen from the environment at
    /// `start`.
    pub fn get(
        environments: &Vec<Environment>,
        start: usize,
        name: &str,
    ) -> (r: Option<LiteralValue>)
        requires
            chained(environments_view(environments@)),
            start < environments@.len(),
        ensures
            optional_value_view(r) == lookup(environments_view(environments@), start as int, name@),
    {
        let mut at = start;
        loop
            invariant
                at < environments@.len(),
                chained(environments_view(environments@)),
                holder(environments_view(environments@), start as int, name@) == holder(
                    environments_view(environments@),
                    at as int,
                    name@,
                ),
            decreases at,
        {
            match environments[at].own(name) {
                Some(value) => {
                    return Some(value.clone());
                },
                None => {},
            }
            assert(environments_view(environments@)[at as int] == environments@[at as int]@);
            match environments[at].enclosing {
                Some(parent) => {
                    at = parent;
                },
                None => {
                    return None;
                },
            }
        }
    }

    /// The nearest environment that binds a name, from the environment at
    /// `start` up its chain of parents.
    pub fn find(environments: &Vec<Environment>, start: usize, name: &str) -> (r: Option<usize>)
        requires
            chained(environments_view(environments@)),
            start < environments@.len(),
        ensures
            match r {
                Some(at) => holder(environments_view(environments@), start as int, name@) == Some(
                    at as int,
                ) && at < environments@.len(),
                None => holder(environments_view(environments@), start as int, name@) is None,
            },
    {
        let mut at = start;
        loop
            invariant
                at < environments@.len(),
                chained(environments_view(environments@)),
                holder(environments_view(environments@), start as int, name@) == holder(
                    environments_view(environments@),
                    at as int,
                    name@,
                ),
            decreases at,
        {
            if environments[at].own(name).is_some() {
                return Some(at);
            }
            assert(environments_view(environments@)[at as int] == environments@[at as int]@);
            match environments[at].enclosing {
                Some(parent) => {
                    at = parent;
                },
                None => {
                    return None;
                },
            }
        }
    }

    /// Bind a name in the environment at `at`.
    pub fn store(environments: &mut Vec<Environment>, at: usize, name: String, value: LiteralValue)
        requires
            at < old(environments)@.len(),
        ensures
            environments_view(final(environments)@) == define(
                environments_view(old(environments)@),
                at as int,
                name@,
                value@,
            ),
            final(environments)@.len() == old(environments)@.len(),
    {
        environments[at].define(name, value);
        assert(environments_view(environments@) =~= define(
            environments_view(old(environments)@),
            at as int,
            name@,
            value@,
        ));
    }

    /// Assign to a name, as seen from the environment at `start`: the
    /// nearest binding is overwritten. Without a binding the assignment
    /// fails, and nothing changes.
    pub fn assign(
        environments: &mut Vec<Environment>,
        start: usize,
        token: &Token,
        value: LiteralValue,
    ) -> (r: Result<(), RuntimeError>)
        requires
            chained(environments_view(old(environments)@)),
            start < old(environments)@.len(),
        ensures
            final(environments)@.len() == old(environments)@.len(),
            match r {
                Ok(_) => assign(
                    environments_view(old(environments)@),
                    start as int,
                    token.token_value@,
                    value@,
                ) == Some(environments_view(final(environments)@)),
                Err(error) => assign(
                    environments_view(old(environments)@),
                    start as int,
                    token.token_value@,
                    value@,
                ) is None && environments_view(final(environments)@) == environments_view(
                    old(environments)@,
                ) && error == (RuntimeError {
                    message: RuntimeMessage::UndefinedVariable,
                    token: *token,
                }),
            },
    {
        match Environment::find(environments, start, token.token_value.as_str()) {
            Some(at) => {
                Environment::store(environments, at, token.token_value.clone(), value);
                Ok(())
            },
            None => Err(
                RuntimeError { message: RuntimeMessage::UndefinedVariable, token: token.clone() },
            ),
        }
    }
}

/// Access by depth: the operations that skip a known number of parent links
/// and then work on that one environment.
pub trait EnvExt {
    /// The environments that the operations work on.
    spec fn environments(&self) -> Seq<EnvironmentView>;

    /// The environment `distance` parent links above the one at `start`.
    fn ancestor(&self, start: usize, distance: usize) -> (r: Option<usize>)
        requires
            start < self.environments().len(),
        ensures
            match r {
                Some(at) => ancestor(self.environments(), start as int, distance as nat) == Some(
                    at as int,
                ) && at < self.environments().len(),
                None => ancestor(self.environments(), start as int, distance as nat) is None,
            },
    ;

    /// The value of a name in the environment `distance` parent links above
    /// the one at `start`.
    fn get_at(&self, start: usize, distance: usize, name: &str) -> (r: Option<LiteralValue>)
        requires
            start < self.environments().len(),
        ensures
            optional_value_view(r) == get_at(
                self.environments(),
                start as int,
                distance as nat,
                name@,
            ),
    ;

    /// Bind a name in the environment `distance` parent links above the one
    /// at `start`. Where the chain is shorter than that, nothing changes.
    fn assign_at(
        &mut self,
        start: usize,
        distance: usize,
        token: &Token,
        value: LiteralValue,
    ) -> (r: Result<(), RuntimeError>)
        requires
            start < old(self).environments().len(),
        ensures
            final(self).environments().len() == old(self).environments().len(),
            match r {
                Ok(_) => assign_at(
                    old(self).environments(),
                    start as int,
                    distance as nat,
                    token.token_value@,
                    value@,
                ) == Some(final(self).environments()),
                Err(error) => assign_at(
                    old(self).environments(),
                    start as int,
                    distance as nat,
                    token.token_value@,
                    value@,
                ) is None && final(self).environments() == old(self).environments() && error == (
                RuntimeError { message: RuntimeMessage::UndefinedVariable, token: *token }),
            },
    ;
}

impl EnvExt for Vec<Environment> {
    open spec fn environments(&self) -> Seq<EnvironmentView> {
        environments_view(self@)
    }

    fn ancestor(&self, start: usize, distance: usize) -> (r: Option<usize>) {
        let mut at = start;
        let mut left = distance;
        while left > 0
            invariant
                at < self@.len(),
                ancestor(environments_view(self@), start as int, distance as nat) == ancestor(
                    environments_view(self@),
                    at as int,
                    left as nat,
                ),
            decreases left,
        {
            assert(environments_view(self@)[at as int] == self@[at as int]@);
            match self[at].enclosing {
                Some(parent) => {
                    if parent >= self.len() {
                        assert(ancestor(
                            environments_view(self@),
                            parent as int,
                            (left - 1) as nat,
                        ) is None);
                        return None;
                    }
                    at = parent;
                },
                None => {
                    return None;
                },
            }
            left -= 1;
        }
        Some(at)
    }

    fn get_at(&self, start: usize, distance: usize, name: &str) -> (r: Option<LiteralValue>) {
        match self.ancestor(start, distance) {
            Some(at) => match self[at].own(name) {
                Some(value) => Some(value.clone()),
                None => None,
            },
            None => None,
        }
    }

    fn assign_at(
        &mut self,
        start: usize,
        distance: usize,
        token: &Token,
        value: LiteralValue,
    ) -> (r: Result<(), RuntimeError>) {
        match self.ancestor(start, distance) {
            Some(at) => {
                Environment::store(self, at, token.token_value.clone(), value);
                Ok(())
            },
            None => Err(
                RuntimeError { message: RuntimeMessage::UndefinedVariable, token: token.clone() },
            ),
        }
    }
}

/// Binding a name changes no parent link, so it changes no ancestor.
pub proof fn define_keeps_ancestors(
    environments: Seq<EnvironmentView>,
    at: int,
    name: Seq<char>,
    value: ValueView,
    start: int,
    distance: nat,
)
    requires
        0 <= at < environments.len(),
    ensures
        ancestor(define(environments, at, name, value), start, distance) == ancestor(
            environments,
            start,
            distance,
        ),
    decreases distance,
{
    if 0 <= start < environments.len() && distance > 0 {
        match environments[start].enclosing {
            Some(parent) => {
                define_keeps_ancestors(
                    environments,
                    at,
                    name,
                    value,
                    parent as int,
                    (distance - 1) as nat,
                );
            },
            None => {},
        }
    }
}

/// A new environment changes no ancestor of the ones that were there.
pub proof fn extend_keeps_ancestors(
    environments: Seq<EnvironmentView>,
    enclosing: Option<usize>,
    start: int,
    distance: nat,
)
    requires
        chained(environments),
        0 <= start < environments.len(),
    ensures
        ancestor(extend(environments, enclosing), start, distance) == ancestor(
            environments,
            start,
            distance,
        ),
    decreases distance,
{
    if distance > 0 {
        match environments[start].enclosing {
            Some(parent) => {
                extend_keeps_ancestors(environments, enclosing, parent as int, (distance - 1) as nat);
            },
            None => {},
        }
    }
}

/// Lexical scoping. Where a name is bound in two nested environments, a
/// read from the inner one sees the inner binding and a read from the outer
/// one sees the outer binding; and a read from an environment that is later
/// hung below the inner one, as the activation of a closure made there is,
/// sees the inner binding too.
pub proof fn lexical_scoping(
    environments: Seq<EnvironmentView>,
    outer: usize,
    inner: usize,
    name: Seq<char>,
)
    requires
        chained(environments),
        outer < environments.len(),
        inner < environments.len(),
        environments[inner as int].enclosing == Some(outer),
        environments[outer as int].values.contains_key(name),
        environments[inner as int].values.contains_key(name),
    ensures
        lookup(environments, inner as int, name) == Some(environments[inner as int].values[name]),
        lookup(environments, outer as int, name) == Some(environments[outer as int].values[name]),
        lookup(extend(environments, Some(inner)), environments.len() as int, name) == Some(
            environments[inner as int].values[name],
        ),
{
    let extended = extend(environments, Some(inner));
    assert(holder(extended, inner as int, name) == Some(inner as int));
    assert(holder(extended, environments.len() as int, name) == holder(
        extended,
        inner as int,
        name,
    ));
}

/// Resolution stability. A reference that was resolved to a depth reads
/// the environment that many parent links up, and nothing else: binding
/// any name in any other environment, or another name in that one, leaves
/// what the reference reads as it was.
pub proof fn resolution_is_stable(
    environments: Seq<EnvironmentView>,
    start: int,
    distance: nat,
    name: Seq<char>,
    at: int,
    other: Seq<char>,
    value: ValueView,
)
    requires
        0 <= at < environments.len(),
        ancestor(environments, start, distance) != Some(at) || other != name,
    ensures
        get_at(define(environments, at, other, value), start, distance, name) == get_at(
            environments,
            start,
            distance,
            name,
        ),
{
    define_keeps_ancestors(environments, at, other, value, start, distance);
    ancestor_in_range(environments, start, distance);
}

/// Every activation of a closure reads the same bindings: in a fresh
/// environment hung below the closure's, a reference one link deeper reads
/// what it read from the closure's environment itself.
pub proof fn activation_sees_closure(
    environments: Seq<EnvironmentView>,
    closure: usize,
    distance: nat,
    name: Seq<char>,
)
    requires
        chained(environments),
        closure < environments.len(),
    ensures
        get_at(
            extend(environments, Some(closure)),
            environments.len() as int,
            distance + 1,
            name,
        ) == get_at(environments, closure as int, distance, name),
{
    let extended = extend(environments, Some(closure));
    extend_keeps_ancestors(environments, Some(closure), closure as int, distance);
    assert(extended[environments.len() as int].enclosing == Some(closure));
    assert(ancestor(extended, environments.len() as int, distance + 1) == ancestor(
        extended,
        closure as int,
        ((distance + 1) - 1) as nat,
    ));
    ancestor_in_range(environments, closure as int, distance);
}

/// An ancestor is one of the environments.
pub proof fn ancestor_in_range(environments: Seq<EnvironmentView>, start: int, distance: nat)
    ensures
        match ancestor(environments, start, distance) {
            Some(at) => 0 <= at < environments.len(),
            None => true,
        },
    decreases distance,
{
    if 0 <= start < environments.len() && distance > 0 {
        match environments[start].enclosing {
            Some(parent) => {
                ancestor_in_range(environments, parent as int, (distance - 1) as nat);
            },
            None => {},
        }
    }
}

/// The nearest environment that binds a name is one of the environments.
pub proof fn holder_in_range(environments: Seq<EnvironmentView>, start: int, name: Seq<char>)
    ensures
        match holder(environments, start, name) {
            Some(at) => 0 <= at < environments.len() && environments[at].values.contains_key(name),
            None => true,
        },
    decreases start,
{
    if 0 <= start < environments.len() && !environments[start].values.contains_key(name) {
        match environments[start].enclosing {
            Some(parent) => {
                if parent < start {
                    holder_in_range(environments, parent as int, name);
                }
            },
            None => {},
        }
    }
}

} // verus!
