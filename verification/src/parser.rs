//! The recursive descent parser: one top-level expression per call.
//!
//! An open paren begins a list, filled until the matching close paren; a
//! bareword or operator token becomes a symbol atom; a numeric token becomes
//! a number atom. Running out of tokens is an unexpected end of input — or,
//! when the scan stopped on a character that starts no token, the lex
//! failure it stopped on. A close paren with no enclosing open paren at top
//! level means the input held no expression.

use vstd::prelude::*;
use crate::ast::{exps_view, lemma_list_view, Atom, AtomV, Exp, ExpV};
use crate::err::{ParseErrV, ParseError};
use crate::lexer::{
    lemma_tokens_wf, opt_view, spec_tokenize, tokenize, toks_view, Token, TokenKind, TokV, wf_toks,
};
use crate::num::{dec_bits_of, dec_to_bits};

verus! {

broadcast use vstd::std_specs::vec::axiom_vec_index_decreases;

/// What reading at one position yields: a failure, a close paren that ends
/// an enclosing list, or one expression; with the next position.
pub enum ReadV {
    Fail(ParseErrV),
    Closed(int),
    One(ExpV, int),
}

/// The failure that running out of tokens means: the lex failure that ended
/// the scan early, or an unexpected end of input.
pub open spec fn end_err(end: Option<Seq<char>>) -> ParseErrV {
    match end {
        Some(sl) => ParseErrV::Lex(sl),
        None => ParseErrV::UnexpectedEof,
    }
}

/// The next position of a list step, held inside the token range so that
/// reading always advances; reading indeed always advances, so the guard
/// never rewrites a position (`lemma_read_advances`).
pub open spec fn adv(ts: Seq<TokV>, p: int, q: int) -> int {
    if p < q <= ts.len() {
        q
    } else {
        p + 1
    }
}

/// Reading one expression at position `p`.
pub open spec fn spec_read_from(ts: Seq<TokV>, end: Option<Seq<char>>, p: int) -> ReadV
    decreases ts.len() - p, 0int,
{
    if !(0 <= p < ts.len()) {
        ReadV::Fail(end_err(end))
    } else {
        let t = ts[p];
        match t.kind {
            TokenKind::Open => match spec_read_list(ts, end, p + 1) {
                Err(e) => ReadV::Fail(e),
                Ok((elems, p2)) => ReadV::One(ExpV::List(elems), p2),
            },
            TokenKind::Close => ReadV::Closed(p + 1),
            TokenKind::Word => ReadV::One(ExpV::Atom(AtomV::Symbol(t.text)), p + 1),
            TokenKind::Op => ReadV::One(ExpV::Atom(AtomV::Symbol(t.text)), p + 1),
            TokenKind::Num => ReadV::One(ExpV::Atom(AtomV::Number(dec_bits_of(t.text))), p + 1),
        }
    }
}

/// Reading list elements from position `p` until a close paren.
pub open spec fn spec_read_list(ts: Seq<TokV>, end: Option<Seq<char>>, p: int) -> Result<
    (Seq<ExpV>, int),
    ParseErrV,
>
    decreases ts.len() - p, 1int,
{
    if !(0 <= p < ts.len()) {
        Err(end_err(end))
    } else {
        match spec_read_from(ts, end, p) {
            ReadV::Fail(e) => Err(e),
            ReadV::Closed(p2) => Ok((Seq::empty(), p2)),
            ReadV::One(e, p2) => match spec_read_list(ts, end, adv(ts, p, p2)) {
                Err(er) => Err(er),
                Ok((rest, p3)) => Ok((seq![e] + rest, p3)),
            },
        }
    }
}

/// Parsing a whole text: scan it, read one expression. A close paren first
/// means the input held no expression.
pub open spec fn spec_parse(s: Seq<char>) -> Result<ExpV, ParseErrV> {
    let (ts, end) = spec_tokenize(s);
    match spec_read_from(ts, end, 0) {
        ReadV::Fail(e) => Err(e),
        ReadV::Closed(p2) => Err(ParseErrV::NoToken),
        ReadV::One(e, p2) => Ok(e),
    }
}

/// Reading, when it yields anything, consumes at least one token and stays
/// inside the token range; so the guard in `spec_read_list` never rewrites
/// a position.
pub proof fn lemma_read_advances(ts: Seq<TokV>, end: Option<Seq<char>>, p: int)
    ensures
        spec_read_from(ts, end, p) matches ReadV::One(e, p2) ==> p < p2 <= ts.len(),
        spec_read_from(ts, end, p) matches ReadV::Closed(p2) ==> p < p2 <= ts.len(),
        spec_read_list(ts, end, p) matches Ok((elems, p2)) ==> p < p2 <= ts.len(),
    decreases ts.len() - p, 2int,
{
    if 0 <= p < ts.len() {
        lemma_read_list_advances(ts, end, p + 1);
        lemma_read_list_advances(ts, end, p);
    }
}

proof fn lemma_read_list_advances(ts: Seq<TokV>, end: Option<Seq<char>>, p: int)
    ensures
        spec_read_list(ts, end, p) matches Ok((elems, p2)) ==> p < p2 <= ts.len(),
    decreases ts.len() - p, 3int,
{
    if 0 <= p < ts.len() {
        if 0 <= p + 1 < ts.len() {
            lemma_read_list_advances(ts, end, p + 1 + 1);
        }
        match spec_read_from(ts, end, p) {
            ReadV::One(e, p2) => {
                lemma_read_from_one_advances(ts, end, p);
                lemma_read_list_advances(ts, end, adv(ts, p, p2));
            },
            _ => {},
        }
    }
}

proof fn lemma_read_from_one_advances(ts: Seq<TokV>, end: Option<Seq<char>>, p: int)
    ensures
        spec_read_from(ts, end, p) matches ReadV::One(e, p2) ==> p < p2 <= ts.len(),
        spec_read_from(ts, end, p) matches ReadV::Closed(p2) ==> p < p2 <= ts.len(),
    decreases ts.len() - p, 2int,
{
    if 0 <= p < ts.len() {
        if ts[p].kind == TokenKind::Open {
            lemma_read_list_advances(ts, end, p + 1);
        }
    }
}

/// Prefixes a read list result with already-read elements.
pub open spec fn list_join(pre: Seq<ExpV>, r: Result<(Seq<ExpV>, int), ParseErrV>) -> Result<
    (Seq<ExpV>, int),
    ParseErrV,
> {
    match r {
        Err(e) => Err(e),
        Ok((rest, p3)) => Ok((pre + rest, p3)),
    }
}

/// Reads one expression (or the close paren of an enclosing list) starting
/// at token position `p`.
fn read_exp(toks: &Vec<Token>, end: &Option<String>, p: usize) -> (r: Result<
    (Option<Exp>, usize),
    ParseError,
>)
    requires
        wf_toks(toks_view(*toks)),
        p <= toks@.len(),
    ensures
        match r {
            Err(e) => spec_read_from(toks_view(*toks), opt_view(*end), p as int) == ReadV::Fail(
                e@,
            ),
            Ok((oe, p2)) => p < p2 <= toks@.len() && match oe {
                None => spec_read_from(toks_view(*toks), opt_view(*end), p as int)
                    == ReadV::Closed(p2 as int),
                Some(e) => spec_read_from(toks_view(*toks), opt_view(*end), p as int)
                    == ReadV::One(e@, p2 as int),
            },
        },
    decreases toks@.len() - p,
{
    let ghost ts = toks_view(*toks);
    let ghost endv = opt_view(*end);
    if p >= toks.len() {
        return Err(
            match end {
                Some(sl) => ParseError::Lex(sl.clone()),
                None => ParseError::UnexpectedEof,
            },
        );
    }
    let t = &toks[p];
    proof {
        assert(t@ == ts[p as int]);
    }
    match t.kind {
        TokenKind::Open => {
            let mut elems: Vec<Exp> = Vec::new();
            let mut q = p + 1;
            loop
                invariant
                    wf_toks(ts),
                    0 <= p < ts.len(),
                    ts[p as int].kind == TokenKind::Open,
                    ts == toks_view(*toks),
                    endv == opt_view(*end),
                    p < q <= toks@.len(),
                    spec_read_list(ts, endv, p + 1) == list_join(
                        exps_view(elems),
                        spec_read_list(ts, endv, q as int),
                    ),
                decreases toks@.len() - q,
            {
                let step = read_exp(toks, end, q);
                proof {
                    lemma_read_advances(ts, endv, q as int);
                }
                match step {
                    Err(e) => {
                        proof {
                            assert(spec_read_list(ts, endv, q as int) == Err::<
                                (Seq<ExpV>, int),
                                _,
                            >(e@));
                        }
                        return Err(e);
                    },
                    Ok((None, q2)) => {
                        proof {
                            assert(spec_read_list(ts, endv, q as int) == Ok::<_, ParseErrV>(
                                (Seq::<ExpV>::empty(), q2 as int),
                            ));
                            assert(exps_view(elems) + Seq::<ExpV>::empty() =~= exps_view(
                                elems,
                            ));
                        }
                        proof {
                            lemma_list_view(elems);
                        }
                        return Ok((Some(Exp::List(elems)), q2));
                    },
                    Ok((Some(e), q2)) => {
                        proof {
                            assert(adv(ts, q as int, q2 as int) == q2 as int);
                            let ghost pre = exps_view(elems);
                            let ghost tail = spec_read_list(ts, endv, q2 as int);
                            assert(list_join(pre, spec_read_list(ts, endv, q as int))
                                == list_join(pre, list_join(seq![e@], tail)));
                            match tail {
                                Err(_) => {},
                                Ok((rest, p3)) => {
                                    assert(pre + (seq![e@] + rest) =~= (pre + seq![e@])
                                        + rest);
                                },
                            }
                            assert(exps_view(elems).push(e@) =~= exps_view(elems) + seq![
                                e@,
                            ]);
                        }
                        let ghost pre_push = exps_view(elems);
                        elems.push(e);
                        proof {
                            assert(exps_view(elems) =~= pre_push + seq![e@]);
                        }
                        q = q2;
                    },
                }
            }
        },
        TokenKind::Close => Ok((None, p + 1)),
        TokenKind::Word => Ok((Some(Exp::Atom(Atom::Symbol(t.text.clone()))), p + 1)),
        TokenKind::Op => Ok((Some(Exp::Atom(Atom::Symbol(t.text.clone()))), p + 1)),
        TokenKind::Num => {
            match dec_to_bits(t.text.as_str()) {
                Some(b) => Ok((Some(Exp::Atom(Atom::Number(b))), p + 1)),
                None => Err(ParseError::Format(t.text.clone())),
            }
        },
    }
}

/// The view of a parse result.
pub open spec fn parse_res_view(r: Result<Exp, ParseError>) -> Result<ExpV, ParseErrV> {
    match r {
        Ok(e) => Ok(e@),
        Err(e) => Err(e@),
    }
}

/// Parses a program text into exactly one expression tree: the first
/// complete form of the input; tokens after it are ignored. Fails on text
/// that no token class matches, on a numeric literal that does not convert,
/// on input that ends while a form is open or holds no form at all.
pub fn parse(program: &str) -> (r: Result<Exp, ParseError>)
    ensures
        parse_res_view(r) == spec_parse(program@),
{
    let (toks, end) = tokenize(program);
    proof {
        lemma_tokens_wf(program@, 0);
    }
    match read_exp(&toks, &end, 0) {
        Err(e) => Err(e),
        Ok((None, _)) => Err(ParseError::NoToken),
        Ok((Some(e), _)) => Ok(e),
    }
}

} // verus!
