use crate::errors::{ErrV, InterpreterError, InterpreterResult};
use crate::value::{Value, ValueV};
use vstd::prelude::*;
use vstd::string::StringExecFns;

verus! {

// The chain of lexical scopes, innermost last.  Lookup and assignment
// walk outward from the innermost scope; definition always goes to the
// innermost one, shadowing any outer binding of the same name.  Within
// one scope the newest binding of a name wins.

/// One scope: name/value pairs, newest last.
pub type ScopeV = Seq<(Seq<char>, ValueV)>;

/// The whole chain, innermost scope last.
pub type EnvV = Seq<ScopeV>;

/// The mathematical shape of one scope.
pub open spec fn scope_view(s: Seq<(String, Value)>) -> ScopeV {
    s.map_values(|p: (String, Value)| (p.0@, p.1@))
}

/// The newest value bound to a name in one scope.
pub open spec fn scope_get(s: ScopeV, name: Seq<char>) -> Option<ValueV>
    decreases s.len(),
{
    if s.len() == 0 {
        None
    } else if s.last().0 == name {
        Some(s.last().1)
    } else {
        scope_get(s.drop_last(), name)
    }
}

/// The value a name resolves to, searching the chain innermost first.
pub open spec fn env_get(env: EnvV, name: Seq<char>) -> Option<ValueV>
    decreases env.len(),
{
    if env.len() == 0 {
        None
    } else {
        match scope_get(env.last(), name) {
            Some(v) => Some(v),
            None => env_get(env.drop_last(), name),
        }
    }
}

/// The chain after defining a name in the innermost scope.
pub open spec fn env_define(env: EnvV, name: Seq<char>, v: ValueV) -> EnvV {
    env.update(env.len() - 1, env.last().push((name, v)))
}

/// The chain after assigning to a name: the innermost scope that
/// already binds the name receives the new value; a name bound
/// nowhere is an undefined-variable error, and nothing is created.
pub open spec fn env_assign(env: EnvV, name: Seq<char>, v: ValueV) -> Result<EnvV, ErrV>
    decreases env.len(),
{
    if env.len() == 0 {
        Err(ErrV::UndefinedVariable { name, line: None })
    } else if scope_get(env.last(), name) is Some {
        Ok(env.update(env.len() - 1, env.last().push((name, v))))
    } else {
        match env_assign(env.drop_last(), name, v) {
            Ok(e) => Ok(e.push(env.last())),
            Err(er) => Err(er),
        }
    }
}

/// A failed assignment always names the undefined variable, with no
/// line yet.
pub proof fn lemma_env_assign_err(env: EnvV, name: Seq<char>, v: ValueV)
    ensures
        env_assign(env, name, v) matches Err(er) ==> er == (ErrV::UndefinedVariable {
            name,
            line: None,
        }),
    decreases env.len(),
{
    if env.len() > 0 {
        lemma_env_assign_err(env.drop_last(), name, v);
    }
}

pub struct Environment {
    scopes: Vec<Vec<(String, Value)>>,
}

impl View for Environment {
    type V = EnvV;

    closed spec fn view(&self) -> EnvV {
        self.scopes@.map_values(|sc: Vec<(String, Value)>| scope_view(sc@))
    }
}

/// The newest value bound to a key in one scope's entries.
fn scope_get_exec(scope: &Vec<(String, Value)>, key: &String) -> (r: Option<Value>)
    ensures
        match r {
            Some(v) => scope_get(scope_view(scope@), key@) == Some(v@),
            None => scope_get(scope_view(scope@), key@) is None,
        },
{
    let ghost sv = scope_view(scope@);
    let mut j = scope.len();
    proof {
        assert(sv.take(j as int) =~= sv);
    }
    while j > 0
        invariant
            j <= scope.len(),
            sv == scope_view(scope@),
            scope_get(sv, key@) == scope_get(sv.take(j as int), key@),
        decreases j,
    {
        j = j - 1;
        proof {
            assert(sv.take(j + 1).last() == sv[j as int]);
            assert(sv.take(j + 1).drop_last() =~= sv.take(j as int));
        }
        let p = &scope[j];
        if p.0 == *key {
            return Some(p.1.dup());
        }
    }
    proof {
        assert(sv.take(0) =~= Seq::<(Seq<char>, ValueV)>::empty());
    }
    None
}

impl Environment {
    /// A well-formed chain holds at least its root scope.
    pub open spec fn wf(&self) -> bool {
        self@.len() >= 1
    }

    /// A fresh chain: one empty root scope.
    pub fn root() -> (r: Self)
        ensures
            r.wf(),
            r@ =~= seq![Seq::<(Seq<char>, ValueV)>::empty()],
    {
        let mut scopes: Vec<Vec<(String, Value)>> = Vec::new();
        let inner: Vec<(String, Value)> = Vec::new();
        scopes.push(inner);
        let e = Environment { scopes };
        proof {
            assert(e@ =~= seq![scope_view(inner@)]);
            assert(scope_view(inner@) =~= Seq::<(Seq<char>, ValueV)>::empty());
        }
        e
    }

    /// Enters a block: pushes a fresh innermost scope.
    pub fn push_scope(&mut self)
        ensures
            final(self)@ =~= old(self)@.push(Seq::<(Seq<char>, ValueV)>::empty()),
            final(self).wf(),
    {
        let inner: Vec<(String, Value)> = Vec::new();
        self.scopes.push(inner);
        proof {
            assert(final(self)@ =~= old(self)@.push(scope_view(inner@)));
            assert(scope_view(inner@) =~= Seq::<(Seq<char>, ValueV)>::empty());
        }
    }

    /// Leaves a block: discards the innermost scope, restoring the
    /// chain around it.
    pub fn pop_scope(&mut self)
        requires
            old(self)@.len() >= 2,
        ensures
            final(self)@ =~= old(self)@.drop_last(),
            final(self).wf(),
    {
        let _ = self.scopes.pop();
        proof {
            assert(final(self)@ =~= old(self)@.drop_last());
        }
    }

    /// Defines a name in the innermost scope, shadowing any outer
    /// binding of the same name.
    pub fn define(&mut self, name: String, value: Value)
        requires
            old(self).wf(),
        ensures
            final(self)@ =~= env_define(old(self)@, name@, value@),
            final(self).wf(),
    {
        let i = self.scopes.len() - 1;
        let ghost oldsc = self.scopes@[i as int]@;
        let scope = &mut self.scopes[i];
        scope.push((name, value));
        proof {
            assert(scope_view(final(scope)@) =~= scope_view(oldsc).push((name@, value@)));
            assert(final(self)@ =~= env_define(old(self)@, name@, value@));
        }
    }

    /// Looks a name up, walking the chain innermost first.
    pub fn get(&self, name: &str) -> (r: InterpreterResult<Value>)
        ensures
            match r {
                Ok(v) => env_get(self@, name@) == Some(v@),
                Err(e) => env_get(self@, name@) is None && e@ == (ErrV::UndefinedVariable {
                    name: name@,
                    line: None,
                }),
            },
    {
        let key = String::from_str(name);
        let ghost env = self@;
        let mut i = self.scopes.len();
        proof {
            assert(env.take(i as int) =~= env);
        }
        while i > 0
            invariant
                i <= self.scopes.len(),
                env == self@,
                key@ == name@,
                env_get(env, name@) == env_get(env.take(i as int), name@),
            decreases i,
        {
            i = i - 1;
            proof {
                assert(env.take(i + 1).last() == env[i as int]);
                assert(env.take(i + 1).drop_last() =~= env.take(i as int));
            }
            match scope_get_exec(&self.scopes[i], &key) {
                Some(v) => {
                    return Ok(v);
                },
                None => {},
            }
        }
        proof {
            assert(env.take(0) =~= Seq::<ScopeV>::empty());
        }
        Err(InterpreterError::undefined_variable_error(key))
    }

    /// Assigns to a name: the innermost scope that already binds it
    /// receives the value; otherwise nothing changes and the error
    /// names the variable.
    pub fn assign(&mut self, name: &str, value: Value) -> (r: InterpreterResult<Value>)
        requires
            old(self).wf(),
        ensures
            final(self).wf(),
            match r {
                Ok(v) => env_assign(old(self)@, name@, value@) == Ok::<EnvV, ErrV>(final(self)@)
                    && v@ == value@,
                Err(e) => final(self)@ == old(self)@ && env_assign(old(self)@, name@, value@)
                    == Err::<EnvV, ErrV>(e@),
            },
    {
        let key = String::from_str(name);
        let ghost env = old(self)@;
        let mut i = self.scopes.len();
        proof {
            assert(env.take(i as int) =~= env);
            assert(env.skip(i as int) =~= Seq::<ScopeV>::empty());
            if env_assign(env, name@, value@) is Ok {
                let p = env_assign(env, name@, value@)->Ok_0;
                assert(p + env.skip(i as int) =~= p);
            }
        }
        while i > 0
            invariant
                i <= self.scopes.len(),
                self == old(self),
                env == self@,
                key@ == name@,
                env_assign(env, name@, value@) == (match env_assign(
                    env.take(i as int),
                    name@,
                    value@,
                ) {
                    Ok(p) => Ok::<EnvV, ErrV>(p + env.skip(i as int)),
                    Err(er) => Err::<EnvV, ErrV>(er),
                }),
            decreases i,
        {
            i = i - 1;
            proof {
                assert(env.take(i + 1).last() == env[i as int]);
                assert(env.take(i + 1).drop_last() =~= env.take(i as int));
                assert(scope_view(self.scopes@[i as int]@) == env[i as int]);
            }
            let has = scope_get_exec(&self.scopes[i], &key).is_some();
            if has {
                let ghost oldsc = self.scopes@[i as int]@;
                let scope = &mut self.scopes[i];
                scope.push((key, value.dup()));
                proof {
                    assert(scope_view(final(scope)@) =~= scope_view(oldsc).push((name@, value@)));
                    let taken = env.take(i + 1).update(i as int, env[i as int].push(
                        (name@, value@),
                    ));
                    assert(env_assign(env.take(i + 1), name@, value@) == Ok::<EnvV, ErrV>(taken));
                    assert(final(self)@ =~= taken + env.skip(i + 1));
                }
                return Ok(value);
            }
            proof {
                assert(scope_get(env[i as int], name@) is None);
                if env_assign(env.take(i as int), name@, value@) is Ok {
                    let p0 = env_assign(env.take(i as int), name@, value@)->Ok_0;
                    assert(env.skip(i as int) =~= seq![env[i as int]] + env.skip(i + 1));
                    assert(p0.push(env[i as int]) + env.skip(i + 1) =~= p0 + env.skip(i as int));
                }
            }
        }
        proof {
            assert(env.take(0) =~= Seq::<ScopeV>::empty());
        }
        Err(InterpreterError::undefined_variable_error(key))
    }
}

} // verus!
