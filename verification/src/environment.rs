//! The scope chain: nested name-to-value stores, innermost first.

use crate::token::Token;
use crate::value::{value_outcome, RuntimeError, SpecRuntimeError, SpecValue, Value};
use vstd::prelude::*;

verus! {

/// One scope as a mathematical map.
pub type Scope = Map<Seq<char>, SpecValue>;

/// A name bound to a value in a scope.
#[derive(Debug)]
pub struct Binding {
    pub name: String,
    pub value: Value,
}

/// A scope and the chain of scopes around it. A scope owns its bindings and
/// the scope that encloses it.
#[derive(Debug)]
pub struct Environment {
    /// The bindings of this scope. The binding of a name is the last one
    /// that carries it.
    pub values: Vec<Binding>,
    pub enclosing: Option<Box<Environment>>,
}

/// The index of the binding of `name` among `bindings`: the last one that
/// carries the name, or -1 where none does.
pub open spec fn position(bindings: Seq<Binding>, name: Seq<char>) -> int
    decreases bindings.len(),
{
    if bindings.len() == 0 {
        -1
    } else if bindings.last().name@ == name {
        bindings.len() - 1
    } else {
        position(bindings.drop_last(), name)
    }
}

/// Whether no two bindings carry the same name.
pub open spec fn distinct_names(bindings: Seq<Binding>) -> bool {
    forall|i: int, j: int|
        0 <= i < j < bindings.len() ==> (#[trigger] bindings[i]).name@ != (
        #[trigger] bindings[j]).name@
}

/// The map that a list of bindings stands for.
pub open spec fn scope_of(bindings: Seq<Binding>) -> Scope {
    Map::new(
        |name: Seq<char>| position(bindings, name) >= 0,
        |name: Seq<char>| bindings[position(bindings, name)].value@,
    )
}

/// The value of `name` in the innermost scope that binds it.
pub open spec fn lookup(scopes: Seq<Scope>, name: Seq<char>) -> Option<SpecValue>
    decreases scopes.len(),
{
    if scopes.len() == 0 {
        None
    } else if scopes[0].contains_key(name) {
        Some(scopes[0][name])
    } else {
        lookup(scopes.drop_first(), name)
    }
}

/// The chain after `name` is defined in its innermost scope.
pub open spec fn define_in(scopes: Seq<Scope>, name: Seq<char>, value: SpecValue) -> Seq<Scope> {
    scopes.update(0, scopes[0].insert(name, value))
}

/// The chain after `name` is rebound in the innermost scope that binds it;
/// `None` where no scope does.
pub open spec fn assign_in(scopes: Seq<Scope>, name: Seq<char>, value: SpecValue) -> Option<
    Seq<Scope>,
>
    decreases scopes.len(),
{
    if scopes.len() == 0 {
        None
    } else if scopes[0].contains_key(name) {
        Some(scopes.update(0, scopes[0].insert(name, value)))
    } else {
        match assign_in(scopes.drop_first(), name, value) {
            Some(rest) => Some(seq![scopes[0]] + rest),
            None => None,
        }
    }
}

/// Defining shadows: afterwards the name reads as the value defined and
/// every other name as before, and no scope but the innermost has changed.
pub proof fn lemma_define_shadows(
    scopes: Seq<Scope>,
    name: Seq<char>,
    value: SpecValue,
    other: Seq<char>,
)
    requires
        scopes.len() > 0,
    ensures
        lookup(define_in(scopes, name, value), name) == Some(value),
        other != name ==> lookup(define_in(scopes, name, value), other) == lookup(scopes, other),
        define_in(scopes, name, value).drop_first() == scopes.drop_first(),
{
    let after = define_in(scopes, name, value);
    assert(after.drop_first() =~= scopes.drop_first());
}

/// Assigning reaches outward: where it succeeds, the name reads afterwards
/// as the value assigned and every other name as before; the scopes inside
/// the one that binds the name have not changed, and none was added.
pub proof fn lemma_assign_reaches_outward(
    scopes: Seq<Scope>,
    name: Seq<char>,
    value: SpecValue,
    other: Seq<char>,
)
    ensures
        assign_in(scopes, name, value) matches Some(after) ==> {
            &&& after.len() == scopes.len()
            &&& lookup(after, name) == Some(value)
            &&& other != name ==> lookup(after, other) == lookup(scopes, other)
            &&& scopes.len() > 0 && !scopes[0].contains_key(name) ==> after[0] == scopes[0]
        },
    decreases scopes.len(),
{
    if scopes.len() > 0 {
        if scopes[0].contains_key(name) {
            let after = scopes.update(0, scopes[0].insert(name, value));
            assert(after.drop_first() =~= scopes.drop_first());
        } else {
            lemma_assign_reaches_outward(scopes.drop_first(), name, value, other);
            if let Some(rest) = assign_in(scopes.drop_first(), name, value) {
                let after = seq![scopes[0]] + rest;
                assert(after.drop_first() =~= rest);
            }
        }
    }
}

/// The position of a name is an index of a binding that carries it, after
/// which no binding carries it; or -1, and then no binding carries it.
pub proof fn lemma_position(bindings: Seq<Binding>, name: Seq<char>)
    ensures
        -1 <= position(bindings, name) < bindings.len(),
        position(bindings, name) >= 0 ==> bindings[position(bindings, name)].name@ == name,
        forall|j: int|
            position(bindings, name) < j < bindings.len() ==> (#[trigger] bindings[j]).name@
                != name,
    decreases bindings.len(),
{
    if bindings.len() > 0 && bindings.last().name@ != name {
        lemma_position(bindings.drop_last(), name);
        assert forall|j: int| position(bindings, name) < j < bindings.len() implies (
        #[trigger] bindings[j]).name@ != name by {
            if j < bindings.len() - 1 {
                assert(bindings[j] == bindings.drop_last()[j]);
            }
        }
    }
}

/// Replacing a binding by one of the same name moves no position.
proof fn lemma_position_after_update(
    bindings: Seq<Binding>,
    i: int,
    binding: Binding,
    name: Seq<char>,
)
    requires
        0 <= i < bindings.len(),
        binding.name@ == bindings[i].name@,
    ensures
        position(bindings.update(i, binding), name) == position(bindings, name),
    decreases bindings.len(),
{
    let updated = bindings.update(i, binding);
    if updated.last().name@ != name {
        if i == bindings.len() - 1 {
            assert(updated.drop_last() =~= bindings.drop_last());
        } else {
            assert(updated.drop_last() =~= bindings.drop_last().update(i, binding));
            lemma_position_after_update(bindings.drop_last(), i, binding, name);
        }
    }
}

/// Replacing the binding of a name rebinds the name in the map.
proof fn lemma_scope_after_update(bindings: Seq<Binding>, i: int, binding: Binding)
    requires
        0 <= i < bindings.len(),
        i == position(bindings, binding.name@),
    ensures
        scope_of(bindings.update(i, binding)) == scope_of(bindings).insert(
            binding.name@,
            binding.value@,
        ),
{
    let updated = bindings.update(i, binding);
    let target = scope_of(bindings).insert(binding.name@, binding.value@);
    lemma_position(bindings, binding.name@);
    assert forall|key: Seq<char>| #[trigger]
        scope_of(updated).dom().contains(key) == target.dom().contains(key) by {
        lemma_position_after_update(bindings, i, binding, key);
    }
    assert forall|key: Seq<char>| scope_of(updated).dom().contains(key) implies #[trigger] scope_of(
        updated,
    )[key] == target[key] by {
        lemma_position_after_update(bindings, i, binding, key);
        lemma_position(bindings, key);
    }
    assert(scope_of(updated) =~= target);
}

/// Appending a binding binds its name in the map.
proof fn lemma_scope_after_push(bindings: Seq<Binding>, binding: Binding)
    ensures
        scope_of(bindings.push(binding)) == scope_of(bindings).insert(
            binding.name@,
            binding.value@,
        ),
{
    let pushed = bindings.push(binding);
    let target = scope_of(bindings).insert(binding.name@, binding.value@);
    assert(pushed.drop_last() =~= bindings);
    assert forall|key: Seq<char>| #[trigger]
        scope_of(pushed).dom().contains(key) == target.dom().contains(key) by {
        lemma_position(bindings, key);
    }
    assert forall|key: Seq<char>| scope_of(pushed).dom().contains(key) implies #[trigger] scope_of(
        pushed,
    )[key] == target[key] by {
        lemma_position(bindings, key);
    }
    assert(scope_of(pushed) =~= target);
}

impl Environment {
    /// The chain of scopes that this environment stands for, innermost first.
    pub open spec fn scopes(&self) -> Seq<Scope>
        decreases self,
    {
        match self.enclosing {
            Some(outer) => seq![scope_of(self.values@)] + outer.scopes(),
            None => seq![scope_of(self.values@)],
        }
    }

    /// Whether every scope of the chain holds each of its names once. The
    /// methods keep it so; none of them needs it.
    pub open spec fn distinct(&self) -> bool
        decreases self,
    {
        distinct_names(self.values@) && match self.enclosing {
            Some(outer) => outer.distinct(),
            None => true,
        }
    }

    /// The chain is this scope followed by the chain around it.
    pub proof fn lemma_scopes(&self)
        ensures
            self@.len() > 0,
            self@[0] == scope_of(self.values@),
            self@.drop_first() == match self.enclosing {
                Some(outer) => outer@,
                None => Seq::<Scope>::empty(),
            },
    {
        match self.enclosing {
            Some(outer) => {
                assert(self@.drop_first() =~= outer@);
            },
            None => {
                assert(self@.drop_first() =~= Seq::<Scope>::empty());
            },
        }
    }

    /// An empty scope inside `enclosing`.
    pub fn new(enclosing: Option<Box<Environment>>) -> (env: Environment)
        ensures
            env.values@.len() == 0,
            env.enclosing == enclosing,
            env@[0] == Map::<Seq<char>, SpecValue>::empty(),
            env.distinct() == match enclosing {
                Some(outer) => outer.distinct(),
                None => true,
            },
    {
        let env = Environment { values: Vec::new(), enclosing };
        proof {
            assert(scope_of(env.values@) =~= Map::<Seq<char>, SpecValue>::empty());
        }
        env
    }

    /// The index of the binding of `name` in this scope.
    fn find(&self, name: &String) -> (r: Option<usize>)
        ensures
            match r {
                Some(i) => i < self.values@.len() && i == position(self.values@, name@),
                None => position(self.values@, name@) == -1,
            },
    {
        let mut i: usize = self.values.len();
        proof {
            assert(self.values@.take(i as int) =~= self.values@);
        }
        while i > 0
            invariant
                i <= self.values@.len(),
                position(self.values@, name@) == position(self.values@.take(i as int), name@),
            decreases i,
        {
            i -= 1;
            proof {
                let upto = self.values@.take(i + 1);
                assert(upto.last() == self.values@[i as int]);
                assert(upto.drop_last() =~= self.values@.take(i as int));
            }
            if self.values[i].name == *name {
                return Some(i);
            }
        }
        None
    }

    /// Binds `name` to `value` in this scope, whether or not the name was
    /// bound here before. Never fails.
    pub fn define(&mut self, name: String, value: Value)
        ensures
            final(self)@ == define_in(old(self)@, name@, value@),
            final(self).enclosing == old(self).enclosing,
            old(self).distinct() ==> final(self).distinct(),
    {
        let ghost before = self.values@;
        let binding = Binding { name, value };
        match self.find(&binding.name) {
            Some(i) => {
                proof {
                    lemma_scope_after_update(before, i as int, binding);
                    lemma_position(before, binding.name@);
                }
                self.values.set(i, binding);
            },
            None => {
                self.values.push(binding);
                proof {
                    lemma_scope_after_push(before, binding);
                    lemma_position(before, binding.name@);
                }
            },
        }
        proof {
            assert(final(self)@ =~= define_in(old(self)@, binding.name@, binding.value@));
        }
    }

    /// Rebinds `name` in the innermost scope that binds it. Where no scope
    /// does, nothing changes and the error carries the name.
    pub fn assign(&mut self, name: Token, value: Value) -> (r: Result<(), RuntimeError>)
        ensures
            match assign_in(old(self)@, name@.lexme, value@) {
                Some(scopes) => r is Ok && final(self)@ == scopes,
                None => r matches Err(error) && error@ == SpecRuntimeError::UndefinedTarget(name@)
                    && final(self)@ == old(self)@,
            },
            old(self).distinct() ==> final(self).distinct(),
        decreases *old(self),
    {
        proof {
            self.lemma_scopes();
        }
        match self.find(&name.lexme) {
            Some(i) => {
                let binding = Binding { name: name.lexme, value };
                proof {
                    lemma_scope_after_update(self.values@, i as int, binding);
                    lemma_position(self.values@, binding.name@);
                }
                self.values.set(i, binding);
                proof {
                    assert(final(self)@ =~= old(self)@.update(
                        0,
                        old(self)@[0].insert(binding.name@, binding.value@),
                    ));
                }
                Ok(())
            },
            None => match &mut self.enclosing {
                Some(outer) => {
                    let r = outer.assign(name, value);
                    proof {
                        final(self).lemma_scopes();
                        assert(final(self)@ =~= seq![final(self)@[0]] + final(self)@.drop_first());
                        assert(old(self)@ =~= seq![old(self)@[0]] + old(self)@.drop_first());
                    }
                    r
                },
                None => Err(RuntimeError::UndefinedTarget(name)),
            },
        }
    }

    /// Reads `name`: the value in the innermost scope that binds it.
    pub fn get(&self, name: Token) -> (r: Result<Value, RuntimeError>)
        ensures
            value_outcome(r) == match lookup(self@, name@.lexme) {
                Some(value) => Ok::<SpecValue, SpecRuntimeError>(value),
                None => Err(SpecRuntimeError::UndefinedVariable(name@)),
            },
        decreases self,
    {
        proof {
            self.lemma_scopes();
        }
        match self.find(&name.lexme) {
            Some(i) => Ok(self.values[i].value.clone()),
            None => match &self.enclosing {
                Some(outer) => outer.get(name),
                None => Err(RuntimeError::UndefinedVariable(name)),
            },
        }
    }
}

impl View for Environment {
    type V = Seq<Scope>;

    open spec fn view(&self) -> Seq<Scope> {
        self.scopes()
    }
}

} // verus!
