//! The final pass: metavariables give way to the types that a solution chose,
//! and coercions between equal types disappear.

use crate::laws::{
    lemma_no_metavariable_left, lemma_resolved_is_settled, lemma_resolved_typ_concrete,
};
use crate::solution::Solution;
use crate::syntax::{Exp, Typ};
use vstd::prelude::*;

verus! {

/// The type that stands for a metavariable that the solution does not mention.
pub open spec fn default_choice() -> Typ {
    Typ::Int
}

/// The type that stands for a metavariable that the solution does not mention.
pub fn default_typ() -> (t: Typ)
    ensures
        t == default_choice(),
{
    Typ::Int
}

impl Typ {
    /// The type with each metavariable replaced by what `choices` gives it,
    /// and by the default where `choices` gives it nothing.
    pub open spec fn resolved(self, choices: Map<u32, Typ>) -> Typ
        decreases self,
    {
        match self {
            Typ::Metavar(id) => if choices.contains_key(id) {
                choices[id]
            } else {
                default_choice()
            },
            Typ::Arr(a, b) => Typ::Arr(
                Box::new(a.resolved(choices)),
                Box::new(b.resolved(choices)),
            ),
            Typ::Pair(a, b) => Typ::Pair(
                Box::new(a.resolved(choices)),
                Box::new(b.resolved(choices)),
            ),
            Typ::List(a) => Typ::List(Box::new(a.resolved(choices))),
            _ => self,
        }
    }
}

impl Exp {
    /// The expression with every type in it resolved by `choices`, and
    /// without the coercions whose two types are then equal.
    pub open spec fn resolved(self, choices: Map<u32, Typ>) -> Exp
        decreases self,
    {
        match self {
            Exp::Lit(_) => self,
            Exp::Var(_) => self,
            Exp::Empty(t) => Exp::Empty(t.resolved(choices)),
            Exp::Fun(x, t, e) => Exp::Fun(x, t.resolved(choices), Box::new(e.resolved(choices))),
            Exp::Fix(x, t, e) => Exp::Fix(x, t.resolved(choices), Box::new(e.resolved(choices))),
            Exp::Coerce(t1, t2, e) => if t1.resolved(choices) == t2.resolved(choices) {
                e.resolved(choices)
            } else {
                Exp::Coerce(
                    t1.resolved(choices),
                    t2.resolved(choices),
                    Box::new(e.resolved(choices)),
                )
            },
            Exp::Head(e) => Exp::Head(Box::new(e.resolved(choices))),
            Exp::Tail(e) => Exp::Tail(Box::new(e.resolved(choices))),
            Exp::Not(e) => Exp::Not(Box::new(e.resolved(choices))),
            Exp::IsEmpty(e) => Exp::IsEmpty(Box::new(e.resolved(choices))),
            Exp::IsBool(e) => Exp::IsBool(Box::new(e.resolved(choices))),
            Exp::IsInt(e) => Exp::IsInt(Box::new(e.resolved(choices))),
            Exp::IsString(e) => Exp::IsString(Box::new(e.resolved(choices))),
            Exp::IsList(e) => Exp::IsList(Box::new(e.resolved(choices))),
            Exp::IsFun(e) => Exp::IsFun(Box::new(e.resolved(choices))),
            Exp::App(e1, e2) => Exp::App(
                Box::new(e1.resolved(choices)),
                Box::new(e2.resolved(choices)),
            ),
            Exp::Add(e1, e2) => Exp::Add(
                Box::new(e1.resolved(choices)),
                Box::new(e2.resolved(choices)),
            ),
            Exp::AddOverload(e1, e2) => Exp::AddOverload(
                Box::new(e1.resolved(choices)),
                Box::new(e2.resolved(choices)),
            ),
            Exp::IntEq(e1, e2) => Exp::IntEq(
                Box::new(e1.resolved(choices)),
                Box::new(e2.resolved(choices)),
            ),
            Exp::Cons(e1, e2) => Exp::Cons(
                Box::new(e1.resolved(choices)),
                Box::new(e2.resolved(choices)),
            ),
            Exp::Pair(e1, e2) => Exp::Pair(
                Box::new(e1.resolved(choices)),
                Box::new(e2.resolved(choices)),
            ),
            Exp::Mul(e1, e2) => Exp::Mul(
                Box::new(e1.resolved(choices)),
                Box::new(e2.resolved(choices)),
            ),
            Exp::Let(x, e1, e2) => Exp::Let(
                x,
                Box::new(e1.resolved(choices)),
                Box::new(e2.resolved(choices)),
            ),
            Exp::If(e1, e2, e3) => Exp::If(
                Box::new(e1.resolved(choices)),
                Box::new(e2.resolved(choices)),
                Box::new(e3.resolved(choices)),
            ),
        }
    }
}

/// Replaces each metavariable in `t` by the type that the solution chose for
/// it, and by the default where the solution chose none.
pub fn annotate_typ(solution: &Solution, t: &mut Typ)
    ensures
        *final(t) == old(t).resolved(solution@),
        final(t).is_concrete(),
    decreases *old(t),
{
    solution.known_concrete();
    proof {
        lemma_resolved_typ_concrete(*t, solution@);
    }
    match t {
        Typ::Metavar(id) => {
            let chosen = match solution.get(*id) {
                Some(found) => found.clone(),
                None => default_typ(),
            };
            *t = chosen;
        },
        Typ::Arr(t1, t2) => {
            annotate_typ(solution, &mut **t1);
            annotate_typ(solution, &mut **t2);
        },
        Typ::Pair(t1, t2) => {
            annotate_typ(solution, &mut **t1);
            annotate_typ(solution, &mut **t2);
        },
        Typ::List(t1) => {
            annotate_typ(solution, &mut **t1);
        },
        _ => {},
    }
}

/// Resolves every type in `exp` by the solution and removes the coercions
/// whose two types have become equal.
pub fn annotate(solution: &Solution, exp: &mut Exp)
    ensures
        *final(exp) == old(exp).resolved(solution@),
        final(exp).is_concrete(),
        final(exp).is_settled(),
    decreases *old(exp),
{
    solution.known_concrete();
    proof {
        lemma_no_metavariable_left(*exp, solution@);
        lemma_resolved_is_settled(*exp, solution@);
    }
    match exp {
        Exp::Lit(_) => {},
        Exp::Var(_) => {},
        Exp::Empty(t) => annotate_typ(solution, t),
        Exp::Fun(_, t, e) => {
            annotate_typ(solution, t);
            annotate(solution, &mut **e);
        },
        Exp::Fix(_, t, e) => {
            annotate_typ(solution, t);
            annotate(solution, &mut **e);
        },
        Exp::Coerce(t1, t2, e) => {
            annotate(solution, &mut **e);
            annotate_typ(solution, t1);
            annotate_typ(solution, t2);
            if *t1 == *t2 {
                let inner = e.take();
                *exp = inner;
            }
        },
        Exp::Head(e) => annotate(solution, &mut **e),
        Exp::Tail(e) => annotate(solution, &mut **e),
        Exp::Not(e) => annotate(solution, &mut **e),
        Exp::IsEmpty(e) => annotate(solution, &mut **e),
        Exp::IsBool(e) => annotate(solution, &mut **e),
        Exp::IsInt(e) => annotate(solution, &mut **e),
        Exp::IsString(e) => annotate(solution, &mut **e),
        Exp::IsList(e) => annotate(solution, &mut **e),
        Exp::IsFun(e) => annotate(solution, &mut **e),
        Exp::App(e1, e2) => {
            annotate(solution, &mut **e1);
            annotate(solution, &mut **e2);
        },
        Exp::Add(e1, e2) => {
            annotate(solution, &mut **e1);
            annotate(solution, &mut **e2);
        },
        Exp::AddOverload(e1, e2) => {
            annotate(solution, &mut **e1);
            annotate(solution, &mut **e2);
        },
        Exp::IntEq(e1, e2) => {
            annotate(solution, &mut **e1);
            annotate(solution, &mut **e2);
        },
        Exp::Cons(e1, e2) => {
            annotate(solution, &mut **e1);
            annotate(solution, &mut **e2);
        },
        Exp::Pair(e1, e2) => {
            annotate(solution, &mut **e1);
            annotate(solution, &mut **e2);
        },
        Exp::Mul(e1, e2) => {
            annotate(solution, &mut **e1);
            annotate(solution, &mut **e2);
        },
        Exp::Let(_, e1, e2) => {
            annotate(solution, &mut **e1);
            annotate(solution, &mut **e2);
        },
        Exp::If(e1, e2, e3) => {
            annotate(solution, &mut **e1);
            annotate(solution, &mut **e2);
            annotate(solution, &mut **e3);
        },
    }
}

} // verus!
