//! Rendering an expression tree back to program text.
//!
//! Symbols print as their text, numbers as the standard decimal display of
//! the double, booleans as `true` / `false`, and a list as its children
//! separated by single spaces between parens. For trees of symbols and
//! lists the text scans and reads back to an equal tree; a rendered number
//! carries the shortest decimal text of its double, and a boolean's text is
//! a bareword, so those close the loop only up to the number formatting
//! (see `laws`).

use vstd::prelude::*;
use vstd::string::StringExecFns;
use crate::ast::{exps_view, lemma_list_view, Atom, AtomV, Exp, ExpV};
use crate::num::{dec_text_of, num_text};

verus! {

broadcast use vstd::seq::axiom_seq_index_decreases, vstd::seq::axiom_seq_subrange_decreases, vstd::std_specs::vec::axiom_vec_index_decreases;

/// The text of a row of children, separated by single spaces.
pub open spec fn render_items(l: Seq<ExpV>) -> Seq<char>
    decreases l, 0int,
{
    if l.len() == 0 {
        Seq::empty()
    } else if l.len() == 1 {
        render_of(l[0])
    } else {
        render_items(l.drop_last()) + " "@ + render_of(l.last())
    }
}

/// The text of one expression tree.
pub open spec fn render_of(e: ExpV) -> Seq<char>
    decreases e, 1int,
{
    match e {
        ExpV::Atom(AtomV::Symbol(s)) => s,
        ExpV::Atom(AtomV::Number(b)) => dec_text_of(b),
        ExpV::Atom(AtomV::Bool(b)) => if b {
            "true"@
        } else {
            "false"@
        },
        ExpV::List(l) => "("@ + render_items(l) + ")"@,
    }
}

/// Appends the text of `e` to `out`.
#[verifier::loop_isolation(false)]
fn render_into(e: &Exp, out: &mut String)
    ensures
        final(out)@ == old(out)@ + render_of(e@),
    decreases e,
{
    match e {
        Exp::Atom(Atom::Symbol(s)) => {
            out.append(s.as_str());
        },
        Exp::Atom(Atom::Number(b)) => {
            let t = num_text(*b);
            out.append(t.as_str());
        },
        Exp::Atom(Atom::Bool(b)) => {
            if *b {
                out.append("true");
            } else {
                out.append("false");
            }
        },
        Exp::List(l) => {
            proof {
                lemma_list_view(*l);
            }
            let ghost lv = exps_view(*l);
            let ghost entry = out@;
            out.append("(");
            let mut i: usize = 0;
            while i < l.len()
                invariant
                    i <= l.len(),
                    out@ == entry + "("@ + render_items(lv.take(i as int)),
                decreases l.len() - i,
            {
                if i > 0 {
                    out.append(" ");
                }
                proof {
                    assert(decreases_to!(*e => e->List_0));
                    assert(decreases_to!(*l => l[i as int]));
                }
                let ghost before = out@;
                render_into(&l[i], out);
                proof {
                    let ghost take1 = lv.take(i + 1);
                    assert(take1.drop_last() =~= lv.take(i as int));
                    assert(take1.last() == lv[i as int]);
                    assert(lv[i as int] == l@[i as int]@);
                    if i == 0 {
                        assert(render_items(take1) == render_of(lv[0]));
                        assert(entry + "("@ + render_items(lv.take(0)) =~= entry + "("@);
                        assert(out@ =~= entry + "("@ + render_items(take1));
                    } else {
                        assert(render_items(take1) == render_items(lv.take(i as int)) + " "@
                            + render_of(lv[i as int]));
                        assert(out@ =~= entry + "("@ + render_items(take1));
                    }
                }
                i = i + 1;
            }
            proof {
                assert(lv.take(l.len() as int) =~= lv);
            }
            out.append(")");
            proof {
                assert(out@ =~= entry + ("("@ + render_items(lv) + ")"@));
            }
        },
    }
}

/// The program text of an expression tree.
pub fn render(e: &Exp) -> (r: String)
    ensures
        r@ == render_of(e@),
{
    let mut out = String::new();
    render_into(e, &mut out);
    proof {
        assert(Seq::<char>::empty() + render_of(e@) =~= render_of(e@));
    }
    out
}

} // verus!
