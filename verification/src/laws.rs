//! Laws of the interpreter, stated over the spec-level parser and
//! interpreter that the executable functions are proved against.

use vstd::prelude::*;
use crate::ast::{AtomV, ExpV};
use crate::bits::divisor_too_small;
use crate::err::{EvalErrV, ParseErrV};
use crate::eval::{arg_num, builtin_spec, eval_spec, EnvV};
use crate::lexer::{
    is_letter, is_number_token, is_op_char, lemma_letters_run, lemma_ops_run,
    lemma_tokenize_number, letters_len, num_len, ops_len, spec_tokenize, spec_tokenize_from,
    token_at, TokenKind, TokV,
};
use crate::render::{render_items, render_of};
use crate::num::{dec_bits_of, dec_text_of, div_bits};
use crate::parser::{spec_parse, spec_read_from, spec_read_list, ReadV};

verus! {

broadcast use vstd::string::group_string_axioms, vstd::seq::axiom_seq_index_decreases, vstd::seq::axiom_seq_subrange_decreases;

/// Every valid numeric literal parses to the number it denotes: the double
/// that correctly rounded decimal conversion yields.
pub proof fn lemma_parse_number_literal(s: Seq<char>)
    requires
        is_number_token(s),
    ensures
        spec_parse(s) == Ok::<ExpV, ParseErrV>(ExpV::Atom(AtomV::Number(dec_bits_of(s)))),
{
    lemma_tokenize_number(s);
    let ts = seq![TokV { kind: TokenKind::Num, text: s }];
    assert(spec_read_from(ts, None::<Seq<char>>, 0) == ReadV::One(
        ExpV::Atom(AtomV::Number(dec_bits_of(s))),
        1,
    ));
}

/// `define` evaluates its operand, binds the result under the given name in
/// the current environment — overwriting any earlier binding — and returns
/// the boolean true; looking the name up afterwards yields the bound value.
pub proof fn lemma_define_binds(fuel: nat, name: Seq<char>, operand: ExpV, env: EnvV)
    requires
        fuel >= 1,
        eval_spec((fuel - 1) as nat, operand, env).0 is Ok,
    ensures
        ({
            let d = ExpV::List(
                seq![
                    ExpV::Atom(AtomV::Symbol("define"@)),
                    ExpV::Atom(AtomV::Symbol(name)),
                    operand,
                ],
            );
            let r = eval_spec((fuel - 1) as nat, operand, env);
            let env2 = r.1.insert(name, r.0->Ok_0);
            &&& eval_spec(fuel, d, env) == (
                Ok::<ExpV, EvalErrV>(ExpV::Atom(AtomV::Bool(true))),
                env2,
            )
            &&& env2.contains_key(name)
            &&& env2[name] == r.0->Ok_0
            &&& forall|f2: nat|
                f2 >= 1 ==> eval_spec(f2, ExpV::Atom(AtomV::Symbol(name)), env2) == (
                    Ok::<ExpV, EvalErrV>(r.0->Ok_0),
                    env2,
                )
        }),
{
    reveal_strlit("define");
    reveal_strlit("if");
    assert("define"@.len() == 6);
    assert("if"@.len() == 2);
    assert("define"@ != "if"@);
}

/// The conditional takes its consequent branch exactly on the boolean true:
/// any other test result — false, a number, a symbol, a list — takes the
/// alternative.
pub proof fn lemma_if_exact(fuel: nat, test: ExpV, conseq: ExpV, alt: ExpV, env: EnvV)
    requires
        fuel >= 1,
        eval_spec((fuel - 1) as nat, test, env).0 is Ok,
    ensures
        ({
            let c = ExpV::List(
                seq![ExpV::Atom(AtomV::Symbol("if"@)), test, conseq, alt],
            );
            let r = eval_spec((fuel - 1) as nat, test, env);
            eval_spec(fuel, c, env) == if r.0->Ok_0 == ExpV::Atom(AtomV::Bool(true)) {
                eval_spec((fuel - 1) as nat, conseq, r.1)
            } else {
                eval_spec((fuel - 1) as nat, alt, r.1)
            }
        }),
{
}

/// Division fails with a division-by-zero exactly when the divisor's
/// absolute value lies below 1e-12, and otherwise yields the IEEE-754
/// quotient of the two operands.
pub proof fn lemma_division_guard(args: Seq<ExpV>, a: u64, b: u64)
    requires
        arg_num(args, 0) == Ok::<u64, EvalErrV>(a),
        arg_num(args, 1) == Ok::<u64, EvalErrV>(b),
    ensures
        builtin_spec("/"@, args) == if divisor_too_small(b) {
            Err::<ExpV, EvalErrV>(EvalErrV::DivisionByZero)
        } else {
            Ok::<ExpV, EvalErrV>(ExpV::Atom(AtomV::Number(div_bits(a, b))))
        },
{
    reveal_strlit("/");
    reveal_strlit("^");
    reveal_strlit("*");
    assert("/"@[0] == '/' && "^"@[0] == '^' && "*"@[0] == '*');
    assert("/"@ != "^"@);
    assert("/"@ != "*"@);
}

/// A text that is exactly one bareword or one operator run.
pub open spec fn is_symbol_text(s: Seq<char>) -> bool {
    s.len() > 0 && ((forall|i: int| 0 <= i < s.len() ==> is_letter(s[i])) || (forall|i: int|
        0 <= i < s.len() ==> is_op_char(s[i])))
}

/// Trees of symbols and lists: the trees whose rendering provably reads
/// back. A number's token carries the decimal display of its double and a
/// boolean's text is a bareword, so those close the loop only up to number
/// formatting, which tests check at the text level.
pub open spec fn writable(e: ExpV) -> bool
    decreases e, 1int,
{
    match e {
        ExpV::Atom(AtomV::Symbol(s)) => is_symbol_text(s),
        ExpV::Atom(_) => false,
        ExpV::List(l) => writable_items(l),
    }
}

pub open spec fn writable_items(l: Seq<ExpV>) -> bool
    decreases l, 0int,
{
    forall|i: int| 0 <= i < l.len() ==> writable(l[i])
}

/// The token row a tree renders to. The parser treats bareword and
/// operator tokens alike, so symbols are rowed as barewords.
pub open spec fn toks_of(e: ExpV) -> Seq<TokV>
    decreases e, 1int,
{
    match e {
        ExpV::Atom(AtomV::Symbol(s)) => seq![
            TokV {
                kind: if forall|i: int| 0 <= i < s.len() ==> is_letter(s[i]) {
                    TokenKind::Word
                } else {
                    TokenKind::Op
                },
                text: s,
            },
        ],
        ExpV::Atom(AtomV::Number(b)) => seq![
            TokV { kind: TokenKind::Num, text: dec_text_of(b) },
        ],
        ExpV::Atom(AtomV::Bool(b)) => seq![
            TokV {
                kind: TokenKind::Word,
                text: if b {
                    "true"@
                } else {
                    "false"@
                },
            },
        ],
        ExpV::List(l) => seq![TokV { kind: TokenKind::Open, text: "("@ }] + toks_of_items(l)
            + seq![TokV { kind: TokenKind::Close, text: ")"@ }],
    }
}

pub open spec fn toks_of_items(l: Seq<ExpV>) -> Seq<TokV>
    decreases l, 0int,
{
    if l.len() == 0 {
        Seq::empty()
    } else {
        toks_of(l[0]) + toks_of_items(l.drop_first())
    }
}

proof fn lemma_toks_len(e: ExpV)
    ensures
        toks_of(e).len() >= 1,
{
}

proof fn lemma_read_inverts(e: ExpV, ts: Seq<TokV>, end: Option<Seq<char>>, p: int)
    requires
        writable(e),
        0 <= p,
        p + toks_of(e).len() <= ts.len(),
        ts.subrange(p, p + toks_of(e).len()) == toks_of(e),
    ensures
        spec_read_from(ts, end, p) == ReadV::One(e, p + toks_of(e).len()),
    decreases e, 1int,
{
    let n = toks_of(e).len();
    assert(ts[p] == ts.subrange(p, p + n)[0]);
    match e {
        ExpV::Atom(_) => {},
        ExpV::List(l) => {
            let items = toks_of_items(l);
            assert forall|j: int| 0 <= j < items.len() implies ts[p + 1 + j] == items[j] by {
                assert(ts.subrange(p, p + n)[1 + j] == toks_of(e)[1 + j]);
            }
            assert(ts.subrange(p + 1, p + 1 + items.len()) =~= items);
            assert(ts[p + 1 + items.len()] == ts.subrange(p, p + n)[n - 1]);
            lemma_read_list_inverts(l, ts, end, p + 1);
        },
    }
}

proof fn lemma_read_list_inverts(l: Seq<ExpV>, ts: Seq<TokV>, end: Option<Seq<char>>, p: int)
    requires
        writable_items(l),
        0 <= p,
        p + toks_of_items(l).len() < ts.len(),
        ts.subrange(p, p + toks_of_items(l).len()) == toks_of_items(l),
        ts[p + toks_of_items(l).len()].kind == TokenKind::Close,
    ensures
        spec_read_list(ts, end, p) == Ok::<(Seq<ExpV>, int), ParseErrV>(
            (l, p + toks_of_items(l).len() + 1),
        ),
    decreases l, 0int,
{
    let items = toks_of_items(l);
    if l.len() == 0 {
        assert(spec_read_from(ts, end, p) == ReadV::Closed(p + 1));
        assert(Seq::<ExpV>::empty() =~= l);
    } else {
        let e0 = l[0];
        let n0 = toks_of(e0).len();
        let rest = toks_of_items(l.drop_first());
        lemma_toks_len(e0);
        assert forall|j: int| 0 <= j < items.len() implies ts[p + j] == items[j] by {
            assert(ts.subrange(p, p + items.len())[j] == items[j]);
        }
        assert(ts.subrange(p, p + n0) =~= toks_of(e0));
        lemma_read_inverts(e0, ts, end, p);
        assert forall|q: int| 0 <= q < rest.len() implies ts.subrange(
            p + n0,
            p + n0 + rest.len(),
        )[q] == rest[q] by {
            assert(ts[p + n0 + q] == items[n0 + q]);
            assert(items[n0 + q] == rest[q]);
        }
        assert(ts.subrange(p + n0, p + n0 + rest.len()) =~= rest);
        lemma_read_list_inverts(l.drop_first(), ts, end, p + n0);
        assert(seq![e0] + l.drop_first() =~= l);
    }
}

/// A position where a rendered piece may end: the text's end, a separating
/// space, or the closing paren of the enclosing list.
pub open spec fn delim_at(s: Seq<char>, j: int) -> bool {
    j == s.len() || s[j] == ' ' || s[j] == ')'
}

/// A row of two or more children decomposes from the left as well: the
/// first child's text, a space, and the rest of the row.
proof fn lemma_render_items_left(l: Seq<ExpV>)
    requires
        l.len() >= 2,
    ensures
        render_items(l) == render_of(l[0]) + " "@ + render_items(l.drop_first()),
    decreases l,
{
    if l.len() == 2 {
        assert(l.drop_last() =~= seq![l[0]]);
        assert(l.drop_first() =~= seq![l[1]]);
        assert(render_items(seq![l[0]]) == render_of(l[0]));
        assert(render_items(seq![l[1]]) == render_of(l[1]));
    } else {
        lemma_render_items_left(l.drop_last());
        assert(l.drop_last()[0] == l[0]);
        assert(l.drop_first().drop_last() =~= l.drop_last().drop_first());
        assert(l.drop_first().last() == l.last());
        assert((render_of(l[0]) + " "@ + render_items(l.drop_last().drop_first())) + " "@
            + render_of(l.last()) =~= render_of(l[0]) + " "@ + (render_items(
            l.drop_last().drop_first(),
        ) + " "@ + render_of(l.last())));
    }
}

/// The rendering of a tree of symbols and lists, ending at a delimiter,
/// scans to its token row followed by the scan of what comes after.
proof fn lemma_scan_exp(e: ExpV, s: Seq<char>, i: int)
    requires
        writable(e),
        0 <= i,
        i + render_of(e).len() <= s.len(),
        s.subrange(i, i + render_of(e).len()) == render_of(e),
        delim_at(s, i + render_of(e).len()),
    ensures
        spec_tokenize_from(s, i).0 == toks_of(e) + spec_tokenize_from(
            s,
            i + render_of(e).len(),
        ).0,
        spec_tokenize_from(s, i).1 == spec_tokenize_from(s, i + render_of(e).len()).1,
    decreases e, 1int,
{
    let n = render_of(e).len();
    assert forall|q: int| 0 <= q < n implies s[i + q] == render_of(e)[q] by {
        assert(s.subrange(i, i + n)[q] == render_of(e)[q]);
    }
    match e {
        ExpV::Atom(AtomV::Symbol(t)) => {
            if forall|q: int| 0 <= q < t.len() ==> is_letter(t[q]) {
                assert forall|d: int| i <= d < i + n implies is_letter(s[d]) by {
                    assert(s[d] == render_of(e)[d - i]);
                }
                lemma_letters_run(s, i, n as int);
                assert(ops_len(s, i) == 0);
                assert(num_len(s, i) == 0);
                assert(token_at(s, i) == Some((TokenKind::Word, n as int)));
            } else {
                assert(forall|q: int| 0 <= q < t.len() ==> is_op_char(t[q]));
                assert forall|d: int| i <= d < i + n implies is_op_char(s[d]) by {
                    assert(s[d] == render_of(e)[d - i]);
                }
                lemma_ops_run(s, i, n as int);
                assert(letters_len(s, i) == 0);
                if crate::lexer::is_sign(s[i]) {
                    assert(crate::lexer::digits_len(s, i + 1) == 0);
                }
                assert(num_len(s, i) == 0);
                assert(token_at(s, i) == Some((TokenKind::Op, n as int)));
            }
            assert(s.subrange(i, i + n) =~= t);
            assert(seq![toks_of(e)[0]] + spec_tokenize_from(s, i + n).0 =~= toks_of(e)
                + spec_tokenize_from(s, i + n).0);
        },
        ExpV::Atom(_) => {},
        ExpV::List(l) => {
            reveal_strlit("(");
            reveal_strlit(")");
            reveal_strlit(" ");
            let il = render_items(l).len();
            assert(render_of(e)[0] == '(');
            assert(render_of(e)[n - 1] == ')');
            assert(s[i] == '(');
            assert(token_at(s, i) == Some((TokenKind::Open, 1int)));
            assert forall|q: int| 0 <= q < il implies s.subrange(i + 1, i + 1 + il)[q]
                == render_items(l)[q] by {
                assert(render_of(e)[1 + q] == render_items(l)[q]);
                assert(s[i + 1 + q] == render_of(e)[1 + q]);
            }
            assert(s.subrange(i + 1, i + 1 + il) =~= render_items(l));
            assert(s[i + 1 + il] == render_of(e)[n - 1]);
            lemma_scan_items(l, s, i + 1);
            assert(token_at(s, i + 1 + il) == Some((TokenKind::Close, 1int)));
            let open_tok = TokV { kind: TokenKind::Open, text: s.subrange(i, i + 1) };
            let close_tok = TokV {
                kind: TokenKind::Close,
                text: s.subrange(i + 1 + il, i + 1 + il + 1),
            };
            assert(s.subrange(i, i + 1) =~= "("@);
            assert(s.subrange(i + 1 + il, i + 1 + il + 1) =~= ")"@);
            let rest = spec_tokenize_from(s, i + n);
            assert(spec_tokenize_from(s, i + 1 + il).0 =~= seq![close_tok] + rest.0);
            assert(spec_tokenize_from(s, i).0 =~= seq![open_tok] + (toks_of_items(l) + (seq![
                close_tok,
            ] + rest.0)));
            assert(seq![open_tok] + (toks_of_items(l) + (seq![close_tok] + rest.0)) =~= (seq![
                open_tok,
            ] + toks_of_items(l) + seq![close_tok]) + rest.0);
            assert(seq![open_tok] + toks_of_items(l) + seq![close_tok] =~= toks_of(e));
        },
    }
}

/// A rendered row of children, ending right before a closing paren, scans
/// to the row's tokens followed by the scan from the paren on.
proof fn lemma_scan_items(l: Seq<ExpV>, s: Seq<char>, i: int)
    requires
        writable_items(l),
        0 <= i,
        i + render_items(l).len() < s.len(),
        s.subrange(i, i + render_items(l).len()) == render_items(l),
        s[i + render_items(l).len()] == ')',
    ensures
        spec_tokenize_from(s, i).0 == toks_of_items(l) + spec_tokenize_from(
            s,
            i + render_items(l).len(),
        ).0,
        spec_tokenize_from(s, i).1 == spec_tokenize_from(s, i + render_items(l).len()).1,
    decreases l, 0int,
{
    let il = render_items(l).len();
    if l.len() == 0 {
        assert(Seq::<TokV>::empty() + spec_tokenize_from(s, i).0 =~= spec_tokenize_from(
            s,
            i,
        ).0);
    } else if l.len() == 1 {
        assert(render_items(l) == render_of(l[0]));
        lemma_scan_exp(l[0], s, i);
        assert(l.drop_first().len() == 0);
        assert(toks_of_items(l.drop_first()) == Seq::<TokV>::empty());
        assert(toks_of(l[0]) + Seq::<TokV>::empty() =~= toks_of(l[0]));
    } else {
        reveal_strlit(" ");
        lemma_render_items_left(l);
        let n0 = render_of(l[0]).len();
        let df = l.drop_first();
        assert forall|q: int| 0 <= q < il implies s[i + q] == render_items(l)[q] by {
            assert(s.subrange(i, i + il)[q] == render_items(l)[q]);
        }
        assert forall|q: int| 0 <= q < n0 implies s.subrange(i, i + n0)[q] == render_of(
            l[0],
        )[q] by {
            assert(render_items(l)[q] == render_of(l[0])[q]);
        }
        assert(s.subrange(i, i + n0) =~= render_of(l[0]));
        assert(s[i + n0] == render_items(l)[n0 as int]);
        assert(render_items(l)[n0 as int] == (" "@)[0]);
        assert(s[i + n0] == ' ');
        lemma_scan_exp(l[0], s, i);
        assert(spec_tokenize_from(s, i + n0) == spec_tokenize_from(s, i + n0 + 1));
        assert forall|q: int| 0 <= q < render_items(df).len() implies s.subrange(
            i + n0 + 1,
            i + n0 + 1 + render_items(df).len(),
        )[q] == render_items(df)[q] by {
            assert(render_items(l)[n0 + 1 + q] == render_items(df)[q]);
            assert(s[i + n0 + 1 + q] == render_items(l)[n0 + 1 + q]);
        }
        assert(s.subrange(i + n0 + 1, i + n0 + 1 + render_items(df).len()) =~= render_items(
            df,
        ));
        assert(il == n0 + 1 + render_items(df).len());
        lemma_scan_items(df, s, i + n0 + 1);
        let rest = spec_tokenize_from(s, i + il);
        assert(spec_tokenize_from(s, i).0 =~= toks_of(l[0]) + (toks_of_items(df) + rest.0));
        assert(toks_of(l[0]) + (toks_of_items(df) + rest.0) =~= (toks_of(l[0]) + toks_of_items(
            df,
        )) + rest.0);
    }
}

/// Re-parsing the rendering of a tree of symbols and lists reproduces an
/// equal tree. Such trees are exactly where the loop is free of the
/// formatting of doubles, which tests cover at the text level.
pub proof fn lemma_parse_inverts_render(e: ExpV)
    requires
        writable(e),
    ensures
        spec_parse(render_of(e)) == Ok::<ExpV, ParseErrV>(e),
{
    let s = render_of(e);
    assert(s.subrange(0, s.len() as int) =~= s);
    lemma_scan_exp(e, s, 0);
    assert(spec_tokenize(s).0 =~= toks_of(e));
    assert(spec_tokenize(s).0.subrange(0, toks_of(e).len() as int) =~= toks_of(e));
    lemma_read_inverts(e, spec_tokenize(s).0, spec_tokenize(s).1, 0);
}

} // verus!
