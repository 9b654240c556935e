//! The symbol environment: one flat scope mapping names to expression
//! values.
//!
//! Held as a stack of bindings where the latest binding for a name wins, so
//! that rebinding a name is exactly `Map::insert` on the view. A fresh
//! top-level environment carries the constants `pi` and `e`; a user
//! procedure call works on a copy that is dropped when the call returns.

use vstd::prelude::*;
use vstd::string::StringExecFns;
use crate::ast::{Atom, Exp, ExpV};
use crate::bits::{E_BITS, PI_BITS};

verus! {

/// One name bound to one value.
struct Binding {
    name: String,
    value: Exp,
}

/// The mapping that a binding stack denotes: later bindings win.
spec fn assoc_map(s: Seq<Binding>) -> Map<Seq<char>, ExpV>
    decreases s.len(),
{
    if s.len() == 0 {
        Map::empty()
    } else {
        assoc_map(s.drop_last()).insert(s.last().name@, s.last().value@)
    }
}

/// The symbol environment.
pub struct Env {
    bindings: Vec<Binding>,
}

impl View for Env {
    type V = Map<Seq<char>, ExpV>;

    closed spec fn view(&self) -> Map<Seq<char>, ExpV> {
        assoc_map(self.bindings@)
    }
}

impl Env {
    /// An empty environment.
    pub fn new() -> (r: Env)
        ensures
            r@ == Map::<Seq<char>, ExpV>::empty(),
    {
        Env { bindings: Vec::new() }
    }

    /// Binds a value under a name, overwriting any earlier binding.
    pub fn insert(&mut self, name: String, value: Exp)
        ensures
            final(self)@ == old(self)@.insert(name@, value@),
    {
        self.bindings.push(Binding { name, value });
        proof {
            assert(self.bindings@.drop_last() =~= old(self).bindings@);
        }
    }

    /// A copy of the bound value, or nothing for an unbound name.
    pub fn get(&self, name: &String) -> (r: Option<Exp>)
        ensures
            match r {
                Some(v) => self@.contains_key(name@) && v@ == self@[name@],
                None => !self@.contains_key(name@),
            },
    {
        let ghost s = self.bindings@;
        let ghost k = name@;
        let mut j = self.bindings.len();
        proof {
            assert(s.take(j as int) =~= s);
        }
        while j > 0
            invariant
                j <= self.bindings.len(),
                s == self.bindings@,
                k == name@,
                assoc_map(s).contains_key(k) == assoc_map(s.take(j as int)).contains_key(k),
                assoc_map(s).contains_key(k) ==> assoc_map(s.take(j as int)).contains_key(k)
                    && assoc_map(s)[k] == assoc_map(s.take(j as int))[k],
            decreases j,
        {
            let ghost jj = j as int;
            proof {
                assert(s.take(jj).drop_last() =~= s.take(jj - 1));
                assert(s.take(jj).last() == s[jj - 1]);
            }
            if self.bindings[j - 1].name == *name {
                let v = self.bindings[j - 1].value.deep_copy();
                return Some(v);
            }
            j = j - 1;
        }
        proof {
            assert(s.take(0) =~= Seq::<Binding>::empty());
        }
        None
    }

    /// An environment with the same view; every binding is copied.
    pub fn duplicate(&self) -> (r: Env)
        ensures
            r@ == self@,
    {
        let mut out: Vec<Binding> = Vec::new();
        let mut i: usize = 0;
        while i < self.bindings.len()
            invariant
                i <= self.bindings.len(),
                out@.len() == i as int,
                forall|q: int|
                    0 <= q < i ==> out@[q].name@ == self.bindings@[q].name@ && out@[q].value@
                        == self.bindings@[q].value@,
            decreases self.bindings.len() - i,
        {
            let b = &self.bindings[i];
            out.push(Binding { name: b.name.clone(), value: b.value.deep_copy() });
            i = i + 1;
        }
        proof {
            lemma_assoc_congruent(out@, self.bindings@);
        }
        Env { bindings: out }
    }
}

/// Binding stacks whose names and values agree pairwise denote one mapping.
proof fn lemma_assoc_congruent(a: Seq<Binding>, b: Seq<Binding>)
    requires
        a.len() == b.len(),
        forall|q: int| 0 <= q < a.len() ==> a[q].name@ == b[q].name@ && a[q].value@ == b[q].value@,
    ensures
        assoc_map(a) == assoc_map(b),
    decreases a.len(),
{
    if a.len() > 0 {
        lemma_assoc_congruent(a.drop_last(), b.drop_last());
        assert(assoc_map(a) =~= assoc_map(b));
    }
}

/// A fresh top-level environment, holding the constants `pi` and `e`.
pub fn standard_environment() -> (r: Env)
    ensures
        r@ == Map::<Seq<char>, ExpV>::empty().insert("pi"@, ExpV::Atom(crate::ast::AtomV::Number(PI_BITS))).insert(
            "e"@,
            ExpV::Atom(crate::ast::AtomV::Number(E_BITS)),
        ),
{
    let mut env = Env::new();
    env.insert(String::from_str("pi"), Exp::Atom(Atom::Number(PI_BITS)));
    env.insert(String::from_str("e"), Exp::Atom(Atom::Number(E_BITS)));
    env
}

} // verus!
