//! The abstract syntax tree: atoms, expressions and their mathematical views.

use vstd::prelude::*;

verus! {

broadcast use vstd::std_specs::vec::axiom_vec_index_decreases;

/// A leaf value: a symbol, an IEEE-754 double given by its 64-bit encoding,
/// or a boolean.
#[derive(Debug, Clone, PartialEq)]
pub enum Atom {
    Symbol(String),
    Number(u64),
    Bool(bool),
}

/// An expression: a leaf, or an ordered list of child expressions.
#[derive(Debug, PartialEq)]
pub enum Exp {
    Atom(Atom),
    List(Vec<Exp>),
}

/// The view of an atom: symbol text as a sequence of characters.
#[verifier::ext_equal]
pub enum AtomV {
    Symbol(Seq<char>),
    Number(u64),
    Bool(bool),
}

/// The view of an expression tree.
#[verifier::ext_equal]
pub enum ExpV {
    Atom(AtomV),
    List(Seq<ExpV>),
}

impl View for Atom {
    type V = AtomV;

    open spec fn view(&self) -> AtomV {
        match self {
            Atom::Symbol(s) => AtomV::Symbol(s@),
            Atom::Number(b) => AtomV::Number(*b),
            Atom::Bool(b) => AtomV::Bool(*b),
        }
    }
}

/// The view of an expression tree: every child replaced by its view.
pub open spec fn exp_view(e: Exp) -> ExpV
    decreases e,
{
    match e {
        Exp::Atom(a) => ExpV::Atom(a@),
        Exp::List(l) => ExpV::List(
            Seq::new(l@.len(), |i: int| if 0 <= i < l@.len() {
                exp_view(l@[i])
            } else {
                ExpV::Atom(AtomV::Bool(false))
            }),
        ),
    }
}

impl View for Exp {
    type V = ExpV;

    open spec fn view(&self) -> ExpV {
        exp_view(*self)
    }
}

/// The views of an expression vector.
pub open spec fn exps_view(v: Vec<Exp>) -> Seq<ExpV> {
    v@.map_values(|e: Exp| e@)
}

/// The view of a list expression is the list of its children's views.
pub proof fn lemma_list_view(l: Vec<Exp>)
    ensures
        Exp::List(l)@ == ExpV::List(exps_view(l)),
{
    let s = Exp::List(l)@->List_0;
    assert forall|i: int| 0 <= i < l@.len() implies exps_view(l)[i] == s[i] by {
        assert(exps_view(l)[i] == l@[i]@);
        assert(s[i] == exp_view(l@[i]));
    }
    assert(s =~= exps_view(l));
    assert(Exp::List(l)@ =~= ExpV::List(exps_view(l)));
}

impl Atom {
    /// An equal atom; symbol text is copied.
    pub fn duplicate(&self) -> (r: Atom)
        ensures
            r == *self,
    {
        match self {
            Atom::Symbol(s) => Atom::Symbol(s.clone()),
            Atom::Number(b) => Atom::Number(*b),
            Atom::Bool(b) => Atom::Bool(*b),
        }
    }
}

impl Exp {
    /// A tree with the same view; every node is copied.
    pub fn deep_copy(&self) -> (r: Exp)
        ensures
            r@ == self@,
        decreases self,
    {
        match self {
            Exp::Atom(a) => Exp::Atom(a.duplicate()),
            Exp::List(l) => {
                let mut out: Vec<Exp> = Vec::new();
                let mut i: usize = 0;
                while i < l.len()
                    invariant
                        *self == Exp::List(*l),
                        i <= l.len(),
                        out@.len() == i as int,
                        forall|j: int| 0 <= j < i ==> out@[j]@ == l@[j]@,
                    decreases l.len() - i,
                {
                    proof {
                        assert(decreases_to!(*self => self->List_0));
                        assert(decreases_to!(*l => l[i as int]));
                    }
                    let c = l[i].deep_copy();
                    out.push(c);
                    i = i + 1;
                }
                let r = Exp::List(out);
                proof {
                    assert(r@ matches ExpV::List(s1) && self@ matches ExpV::List(s2)
                        ==> s1 =~= s2);
                }
                r
            },
        }
    }

    /// The symbol's name; any other expression is a type failure.
    pub fn extract_symbol(self) -> (r: Result<String, crate::err::EvalError>)
        ensures
            match self@ {
                ExpV::Atom(AtomV::Symbol(s)) => r matches Ok(n) && n@ == s,
                _ => r matches Err(e) && e@ == crate::err::EvalErrV::Type,
            },
    {
        match self {
            Exp::Atom(Atom::Symbol(s)) => Ok(s),
            _ => Err(crate::err::EvalError::Type),
        }
    }

    /// The number's encoding; any other expression is a type failure.
    pub fn extract_number(self) -> (r: Result<u64, crate::err::EvalError>)
        ensures
            match self@ {
                ExpV::Atom(AtomV::Number(b)) => r == Ok::<u64, crate::err::EvalError>(b),
                _ => r matches Err(e) && e@ == crate::err::EvalErrV::Type,
            },
    {
        match self {
            Exp::Atom(Atom::Number(b)) => Ok(b),
            _ => Err(crate::err::EvalError::Type),
        }
    }
}

} // verus!
