//! What holds of every migration: which coercions can remain in a resolved
//! program, and that nothing is left to resolve in it.

use crate::cgen::{
    any_to_any, arrow, coerced, list_of, list_of_any, metavar, strengthen_formula, weaken_formula,
};
use crate::formula::Formula;
use crate::solution::all_concrete;
use crate::supply::ALL_METAVARS;
use crate::syntax::{Exp, Typ};
use vstd::prelude::*;

verus! {

/// The two kinds of place in which the typing rules insert a coercion.
pub enum Position {
    /// The operand of a construct that relies on the operand's type: the
    /// function of an application, an operand of arithmetic, of integer
    /// equality or of negation, the condition of a conditional, the tail of
    /// a cons, the operand of head, tail and is-empty.
    Elimination,
    /// A place that a value is only handed to: the argument of an
    /// application, an operand of overloaded addition, a branch of a
    /// conditional, the head of a cons, the operand of a dynamic type test.
    Introduction,
}

/// A coercion from `t1` to `t2` is in order at a place of the kind `pos`.
/// Where the program relies on the type, the coercion is none, or it
/// narrows the dynamic type to a type that is, if it is a list or a function
/// type, the most dynamic one of its shape. Where a value is handed on, the
/// coercion is none or goes to the dynamic type.
pub open spec fn in_order(pos: Position, t1: Typ, t2: Typ) -> bool {
    match pos {
        Position::Elimination => t1 == t2 || (t1 == Typ::Any && (t2 is List ==> t2
            == list_of_any()) && (t2 is Arr ==> t2 == any_to_any())),
        Position::Introduction => t1 == t2 || t2 == Typ::Any,
    }
}

/// `child`, standing at a place of the kind `here`, is no coercion that is
/// out of order there. Only places of the kind `pos` are looked at.
pub open spec fn placed(pos: Position, here: Position, child: Exp) -> bool {
    pos == here ==> match child.outer_coercion() {
        Some((t1, t2)) => in_order(pos, t1, t2),
        None => true,
    }
}

impl Exp {
    /// The two types of the coercion, if the expression is one.
    pub open spec fn outer_coercion(self) -> Option<(Typ, Typ)> {
        match self {
            Exp::Coerce(t1, t2, _) => Some((t1, t2)),
            _ => None,
        }
    }

    /// No metavariable occurs in a type of the expression.
    pub open spec fn is_concrete(self) -> bool
        decreases self,
    {
        match self {
            Exp::Lit(_) => true,
            Exp::Var(_) => true,
            Exp::Empty(t) => t.is_concrete(),
            Exp::Fun(_, t, e) => t.is_concrete() && e.is_concrete(),
            Exp::Fix(_, t, e) => t.is_concrete() && e.is_concrete(),
            Exp::Coerce(t1, t2, e) => t1.is_concrete() && t2.is_concrete() && e.is_concrete(),
            Exp::Head(e) => e.is_concrete(),
            Exp::Tail(e) => e.is_concrete(),
            Exp::Not(e) => e.is_concrete(),
            Exp::IsEmpty(e) => e.is_concrete(),
            Exp::IsBool(e) => e.is_concrete(),
            Exp::IsInt(e) => e.is_concrete(),
            Exp::IsString(e) => e.is_concrete(),
            Exp::IsList(e) => e.is_concrete(),
            Exp::IsFun(e) => e.is_concrete(),
            Exp::App(e1, e2) => e1.is_concrete() && e2.is_concrete(),
            Exp::Add(e1, e2) => e1.is_concrete() && e2.is_concrete(),
            Exp::AddOverload(e1, e2) => e1.is_concrete() && e2.is_concrete(),
            Exp::IntEq(e1, e2) => e1.is_concrete() && e2.is_concrete(),
            Exp::Cons(e1, e2) => e1.is_concrete() && e2.is_concrete(),
            Exp::Pair(e1, e2) => e1.is_concrete() && e2.is_concrete(),
            Exp::Mul(e1, e2) => e1.is_concrete() && e2.is_concrete(),
            Exp::Let(_, e1, e2) => e1.is_concrete() && e2.is_concrete(),
            Exp::If(e1, e2, e3) => e1.is_concrete() && e2.is_concrete() && e3.is_concrete(),
        }
    }

    /// No coercion in the expression goes from a type to the same type.
    pub open spec fn is_settled(self) -> bool
        decreases self,
    {
        match self {
            Exp::Lit(_) => true,
            Exp::Var(_) => true,
            Exp::Empty(_) => true,
            Exp::Fun(_, _, e) => e.is_settled(),
            Exp::Fix(_, _, e) => e.is_settled(),
            Exp::Coerce(t1, t2, e) => t1 != t2 && e.is_settled(),
            Exp::Head(e) => e.is_settled(),
            Exp::Tail(e) => e.is_settled(),
            Exp::Not(e) => e.is_settled(),
            Exp::IsEmpty(e) => e.is_settled(),
            Exp::IsBool(e) => e.is_settled(),
            Exp::IsInt(e) => e.is_settled(),
            Exp::IsString(e) => e.is_settled(),
            Exp::IsList(e) => e.is_settled(),
            Exp::IsFun(e) => e.is_settled(),
            Exp::App(e1, e2) => e1.is_settled() && e2.is_settled(),
            Exp::Add(e1, e2) => e1.is_settled() && e2.is_settled(),
            Exp::AddOverload(e1, e2) => e1.is_settled() && e2.is_settled(),
            Exp::IntEq(e1, e2) => e1.is_settled() && e2.is_settled(),
            Exp::Cons(e1, e2) => e1.is_settled() && e2.is_settled(),
            Exp::Pair(e1, e2) => e1.is_settled() && e2.is_settled(),
            Exp::Mul(e1, e2) => e1.is_settled() && e2.is_settled(),
            Exp::Let(_, e1, e2) => e1.is_settled() && e2.is_settled(),
            Exp::If(e1, e2, e3) => e1.is_settled() && e2.is_settled() && e3.is_settled(),
        }
    }

    /// The expression holds no coercion.
    pub open spec fn is_coercion_free(self) -> bool
        decreases self,
    {
        match self {
            Exp::Lit(_) => true,
            Exp::Var(_) => true,
            Exp::Empty(_) => true,
            Exp::Fun(_, _, e) => e.is_coercion_free(),
            Exp::Fix(_, _, e) => e.is_coercion_free(),
            Exp::Coerce(_, _, _) => false,
            Exp::Head(e) => e.is_coercion_free(),
            Exp::Tail(e) => e.is_coercion_free(),
            Exp::Not(e) => e.is_coercion_free(),
            Exp::IsEmpty(e) => e.is_coercion_free(),
            Exp::IsBool(e) => e.is_coercion_free(),
            Exp::IsInt(e) => e.is_coercion_free(),
            Exp::IsString(e) => e.is_coercion_free(),
            Exp::IsList(e) => e.is_coercion_free(),
            Exp::IsFun(e) => e.is_coercion_free(),
            Exp::App(e1, e2) => e1.is_coercion_free() && e2.is_coercion_free(),
            Exp::Add(e1, e2) => e1.is_coercion_free() && e2.is_coercion_free(),
            Exp::AddOverload(e1, e2) => e1.is_coercion_free() && e2.is_coercion_free(),
            Exp::IntEq(e1, e2) => e1.is_coercion_free() && e2.is_coercion_free(),
            Exp::Cons(e1, e2) => e1.is_coercion_free() && e2.is_coercion_free(),
            Exp::Pair(e1, e2) => e1.is_coercion_free() && e2.is_coercion_free(),
            Exp::Mul(e1, e2) => e1.is_coercion_free() && e2.is_coercion_free(),
            Exp::Let(_, e1, e2) => e1.is_coercion_free() && e2.is_coercion_free(),
            Exp::If(e1, e2, e3) => e1.is_coercion_free() && e2.is_coercion_free()
                && e3.is_coercion_free(),
        }
    }

    /// Every coercion that stands at a place of the kind `pos`, anywhere in
    /// the expression, is in order there.
    pub open spec fn licensed(self, pos: Position) -> bool
        decreases self,
    {
        match self {
            Exp::Lit(_) => true,
            Exp::Var(_) => true,
            Exp::Empty(_) => true,
            Exp::Fun(_, _, e) => e.licensed(pos),
            Exp::Fix(_, _, e) => e.licensed(pos),
            Exp::Coerce(_, _, e) => e.licensed(pos),
            Exp::Let(_, e1, e2) => e1.licensed(pos) && e2.licensed(pos),
            Exp::Pair(e1, e2) => e1.licensed(pos) && e2.licensed(pos),
            Exp::Head(e) => placed(pos, Position::Elimination, *e) && e.licensed(pos),
            Exp::Tail(e) => placed(pos, Position::Elimination, *e) && e.licensed(pos),
            Exp::Not(e) => placed(pos, Position::Elimination, *e) && e.licensed(pos),
            Exp::IsEmpty(e) => placed(pos, Position::Elimination, *e) && e.licensed(pos),
            Exp::IsBool(e) => placed(pos, Position::Introduction, *e) && e.licensed(pos),
            Exp::IsInt(e) => placed(pos, Position::Introduction, *e) && e.licensed(pos),
            Exp::IsString(e) => placed(pos, Position::Introduction, *e) && e.licensed(pos),
            Exp::IsList(e) => placed(pos, Position::Introduction, *e) && e.licensed(pos),
            Exp::IsFun(e) => placed(pos, Position::Introduction, *e) && e.licensed(pos),
            Exp::App(e1, e2) => placed(pos, Position::Elimination, *e1) && placed(
                pos,
                Position::Introduction,
                *e2,
            ) && e1.licensed(pos) && e2.licensed(pos),
            Exp::Add(e1, e2) => placed(pos, Position::Elimination, *e1) && placed(
                pos,
                Position::Elimination,
                *e2,
            ) && e1.licensed(pos) && e2.licensed(pos),
            Exp::Mul(e1, e2) => placed(pos, Position::Elimination, *e1) && placed(
                pos,
                Position::Elimination,
                *e2,
            ) && e1.licensed(pos) && e2.licensed(pos),
            Exp::IntEq(e1, e2) => placed(pos, Position::Elimination, *e1) && placed(
                pos,
                Position::Elimination,
                *e2,
            ) && e1.licensed(pos) && e2.licensed(pos),
            Exp::AddOverload(e1, e2) => placed(pos, Position::Introduction, *e1) && placed(
                pos,
                Position::Introduction,
                *e2,
            ) && e1.licensed(pos) && e2.licensed(pos),
            Exp::Cons(e1, e2) => placed(pos, Position::Introduction, *e1) && placed(
                pos,
                Position::Elimination,
                *e2,
            ) && e1.licensed(pos) && e2.licensed(pos),
            Exp::If(e1, e2, e3) => placed(pos, Position::Elimination, *e1) && placed(
                pos,
                Position::Introduction,
                *e2,
            ) && placed(pos, Position::Introduction, *e3) && e1.licensed(pos) && e2.licensed(pos)
                && e3.licensed(pos),
        }
    }
}

/// A type resolved by concrete choices holds no metavariable.
pub proof fn lemma_resolved_typ_concrete(t: Typ, choices: Map<u32, Typ>)
    requires
        all_concrete(choices),
    ensures
        t.resolved(choices).is_concrete(),
    decreases t,
{
    match t {
        Typ::Arr(a, b) => {
            lemma_resolved_typ_concrete(*a, choices);
            lemma_resolved_typ_concrete(*b, choices);
        },
        Typ::Pair(a, b) => {
            lemma_resolved_typ_concrete(*a, choices);
            lemma_resolved_typ_concrete(*b, choices);
        },
        Typ::List(a) => {
            lemma_resolved_typ_concrete(*a, choices);
        },
        _ => {},
    }
}

/// Resolving leaves a type without metavariables as it is.
pub proof fn lemma_concrete_typ_fixed(t: Typ, choices: Map<u32, Typ>)
    requires
        t.is_concrete(),
    ensures
        t.resolved(choices) == t,
    decreases t,
{
    match t {
        Typ::Arr(a, b) => {
            lemma_concrete_typ_fixed(*a, choices);
            lemma_concrete_typ_fixed(*b, choices);
        },
        Typ::Pair(a, b) => {
            lemma_concrete_typ_fixed(*a, choices);
            lemma_concrete_typ_fixed(*b, choices);
        },
        Typ::List(a) => {
            lemma_concrete_typ_fixed(*a, choices);
        },
        _ => {},
    }
}

/// No metavariable is left: a program resolved by concrete choices holds
/// no metavariable in any of its types.
pub proof fn lemma_no_metavariable_left(e: Exp, choices: Map<u32, Typ>)
    requires
        all_concrete(choices),
    ensures
        e.resolved(choices).is_concrete(),
    decreases e,
{
    match e {
        Exp::Lit(_) => {},
        Exp::Var(_) => {},
        Exp::Empty(t) => {
            lemma_resolved_typ_concrete(t, choices);
        },
        Exp::Fun(_, t, b) => {
            lemma_resolved_typ_concrete(t, choices);
            lemma_no_metavariable_left(*b, choices);
        },
        Exp::Fix(_, t, b) => {
            lemma_resolved_typ_concrete(t, choices);
            lemma_no_metavariable_left(*b, choices);
        },
        Exp::Coerce(t1, t2, b) => {
            lemma_resolved_typ_concrete(t1, choices);
            lemma_resolved_typ_concrete(t2, choices);
            lemma_no_metavariable_left(*b, choices);
        },
        Exp::Head(a) => lemma_no_metavariable_left(*a, choices),
        Exp::Tail(a) => lemma_no_metavariable_left(*a, choices),
        Exp::Not(a) => lemma_no_metavariable_left(*a, choices),
        Exp::IsEmpty(a) => lemma_no_metavariable_left(*a, choices),
        Exp::IsBool(a) => lemma_no_metavariable_left(*a, choices),
        Exp::IsInt(a) => lemma_no_metavariable_left(*a, choices),
        Exp::IsString(a) => lemma_no_metavariable_left(*a, choices),
        Exp::IsList(a) => lemma_no_metavariable_left(*a, choices),
        Exp::IsFun(a) => lemma_no_metavariable_left(*a, choices),
        Exp::App(a, b) => {
            lemma_no_metavariable_left(*a, choices);
            lemma_no_metavariable_left(*b, choices);
        },
        Exp::Add(a, b) => {
            lemma_no_metavariable_left(*a, choices);
            lemma_no_metavariable_left(*b, choices);
        },
        Exp::AddOverload(a, b) => {
            lemma_no_metavariable_left(*a, choices);
            lemma_no_metavariable_left(*b, choices);
        },
        Exp::IntEq(a, b) => {
            lemma_no_metavariable_left(*a, choices);
            lemma_no_metavariable_left(*b, choices);
        },
        Exp::Cons(a, b) => {
            lemma_no_metavariable_left(*a, choices);
            lemma_no_metavariable_left(*b, choices);
        },
        Exp::Pair(a, b) => {
            lemma_no_metavariable_left(*a, choices);
            lemma_no_metavariable_left(*b, choices);
        },
        Exp::Mul(a, b) => {
            lemma_no_metavariable_left(*a, choices);
            lemma_no_metavariable_left(*b, choices);
        },
        Exp::Let(_, a, b) => {
            lemma_no_metavariable_left(*a, choices);
            lemma_no_metavariable_left(*b, choices);
        },
        Exp::If(a, b, c) => {
            lemma_no_metavariable_left(*a, choices);
            lemma_no_metavariable_left(*b, choices);
            lemma_no_metavariable_left(*c, choices);
        },
    }
}

/// A resolved program holds no coercion from a type to the same type,
/// whatever the choices were.
pub proof fn lemma_resolved_is_settled(e: Exp, choices: Map<u32, Typ>)
    ensures
        e.resolved(choices).is_settled(),
    decreases e,
{
    match e {
        Exp::Lit(_) => {},
        Exp::Var(_) => {},
        Exp::Empty(_) => {},
        Exp::Fun(_, _, b) => lemma_resolved_is_settled(*b, choices),
        Exp::Fix(_, _, b) => lemma_resolved_is_settled(*b, choices),
        Exp::Coerce(_, _, b) => lemma_resolved_is_settled(*b, choices),
        Exp::Head(a) => lemma_resolved_is_settled(*a, choices),
        Exp::Tail(a) => lemma_resolved_is_settled(*a, choices),
        Exp::Not(a) => lemma_resolved_is_settled(*a, choices),
        Exp::IsEmpty(a) => lemma_resolved_is_settled(*a, choices),
        Exp::IsBool(a) => lemma_resolved_is_settled(*a, choices),
        Exp::IsInt(a) => lemma_resolved_is_settled(*a, choices),
        Exp::IsString(a) => lemma_resolved_is_settled(*a, choices),
        Exp::IsList(a) => lemma_resolved_is_settled(*a, choices),
        Exp::IsFun(a) => lemma_resolved_is_settled(*a, choices),
        Exp::App(a, b) => {
            lemma_resolved_is_settled(*a, choices);
            lemma_resolved_is_settled(*b, choices);
        },
        Exp::Add(a, b) => {
            lemma_resolved_is_settled(*a, choices);
            lemma_resolved_is_settled(*b, choices);
        },
        Exp::AddOverload(a, b) => {
            lemma_resolved_is_settled(*a, choices);
            lemma_resolved_is_settled(*b, choices);
        },
        Exp::IntEq(a, b) => {
            lemma_resolved_is_settled(*a, choices);
            lemma_resolved_is_settled(*b, choices);
        },
        Exp::Cons(a, b) => {
            lemma_resolved_is_settled(*a, choices);
            lemma_resolved_is_settled(*b, choices);
        },
        Exp::Pair(a, b) => {
            lemma_resolved_is_settled(*a, choices);
            lemma_resolved_is_settled(*b, choices);
        },
        Exp::Mul(a, b) => {
            lemma_resolved_is_settled(*a, choices);
            lemma_resolved_is_settled(*b, choices);
        },
        Exp::Let(_, a, b) => {
            lemma_resolved_is_settled(*a, choices);
            lemma_resolved_is_settled(*b, choices);
        },
        Exp::If(a, b, c) => {
            lemma_resolved_is_settled(*a, choices);
            lemma_resolved_is_settled(*b, choices);
            lemma_resolved_is_settled(*c, choices);
        },
    }
}

/// The final pass changes nothing in a program that holds no metavariable
/// and no coercion from a type to the same type.
pub proof fn lemma_settled_is_fixed(e: Exp, choices: Map<u32, Typ>)
    requires
        e.is_concrete(),
        e.is_settled(),
    ensures
        e.resolved(choices) == e,
    decreases e,
{
    match e {
        Exp::Lit(_) => {},
        Exp::Var(_) => {},
        Exp::Empty(t) => {
            lemma_concrete_typ_fixed(t, choices);
        },
        Exp::Fun(_, t, b) => {
            lemma_concrete_typ_fixed(t, choices);
            lemma_settled_is_fixed(*b, choices);
        },
        Exp::Fix(_, t, b) => {
            lemma_concrete_typ_fixed(t, choices);
            lemma_settled_is_fixed(*b, choices);
        },
        Exp::Coerce(t1, t2, b) => {
            lemma_concrete_typ_fixed(t1, choices);
            lemma_concrete_typ_fixed(t2, choices);
            lemma_settled_is_fixed(*b, choices);
        },
        Exp::Head(a) => lemma_settled_is_fixed(*a, choices),
        Exp::Tail(a) => lemma_settled_is_fixed(*a, choices),
        Exp::Not(a) => lemma_settled_is_fixed(*a, choices),
        Exp::IsEmpty(a) => lemma_settled_is_fixed(*a, choices),
        Exp::IsBool(a) => lemma_settled_is_fixed(*a, choices),
        Exp::IsInt(a) => lemma_settled_is_fixed(*a, choices),
        Exp::IsString(a) => lemma_settled_is_fixed(*a, choices),
        Exp::IsList(a) => lemma_settled_is_fixed(*a, choices),
        Exp::IsFun(a) => lemma_settled_is_fixed(*a, choices),
        Exp::App(a, b) => {
            lemma_settled_is_fixed(*a, choices);
            lemma_settled_is_fixed(*b, choices);
        },
        Exp::Add(a, b) => {
            lemma_settled_is_fixed(*a, choices);
            lemma_settled_is_fixed(*b, choices);
        },
        Exp::AddOverload(a, b) => {
            lemma_settled_is_fixed(*a, choices);
            lemma_settled_is_fixed(*b, choices);
        },
        Exp::IntEq(a, b) => {
            lemma_settled_is_fixed(*a, choices);
            lemma_settled_is_fixed(*b, choices);
        },
        Exp::Cons(a, b) => {
            lemma_settled_is_fixed(*a, choices);
            lemma_settled_is_fixed(*b, choices);
        },
        Exp::Pair(a, b) => {
            lemma_settled_is_fixed(*a, choices);
            lemma_settled_is_fixed(*b, choices);
        },
        Exp::Mul(a, b) => {
            lemma_settled_is_fixed(*a, choices);
            lemma_settled_is_fixed(*b, choices);
        },
        Exp::Let(_, a, b) => {
            lemma_settled_is_fixed(*a, choices);
            lemma_settled_is_fixed(*b, choices);
        },
        Exp::If(a, b, c) => {
            lemma_settled_is_fixed(*a, choices);
            lemma_settled_is_fixed(*b, choices);
            lemma_settled_is_fixed(*c, choices);
        },
    }
}

/// The final pass is idempotent: on a program that it has resolved by
/// concrete choices it changes nothing, whatever choices it is given then.
pub proof fn lemma_elision_idempotent(e: Exp, first: Map<u32, Typ>, second: Map<u32, Typ>)
    requires
        all_concrete(first),
    ensures
        e.resolved(first).is_settled(),
        e.resolved(first).resolved(second) == e.resolved(first),
{
    lemma_no_metavariable_left(e, first);
    lemma_resolved_is_settled(e, first);
    lemma_settled_is_fixed(e.resolved(first), second);
}

/// Generation adds no coercion around an expression and takes none away:
/// resolved, the expression is a coercion with and without generation, or
/// is none, and the two types are the same.
pub proof fn lemma_outer_coercion_kept(
    e: Exp,
    env: Map<Seq<char>, Typ>,
    next: nat,
    choices: Map<u32, Typ>,
)
    ensures
        e.generated(env, next).tree.resolved(choices).outer_coercion() == e.resolved(
            choices,
        ).outer_coercion(),
    decreases e,
{
    match e {
        Exp::Coerce(_, _, inner) => {
            lemma_outer_coercion_kept(*inner, env, next, choices);
        },
        _ => {},
    }
}

/// A program without coercions, resolved, has no coercion out of order.
pub proof fn lemma_coercion_free_licensed(e: Exp, choices: Map<u32, Typ>, pos: Position)
    requires
        e.is_coercion_free(),
    ensures
        e.resolved(choices).licensed(pos),
        e.resolved(choices).outer_coercion() is None,
    decreases e,
{
    match e {
        Exp::Lit(_) => {},
        Exp::Var(_) => {},
        Exp::Empty(_) => {},
        Exp::Coerce(_, _, _) => {},
        Exp::Fun(_, _, a) => lemma_coercion_free_licensed(*a, choices, pos),
        Exp::Fix(_, _, a) => lemma_coercion_free_licensed(*a, choices, pos),
        Exp::Head(a) => lemma_coercion_free_licensed(*a, choices, pos),
        Exp::Tail(a) => lemma_coercion_free_licensed(*a, choices, pos),
        Exp::Not(a) => lemma_coercion_free_licensed(*a, choices, pos),
        Exp::IsEmpty(a) => lemma_coercion_free_licensed(*a, choices, pos),
        Exp::IsBool(a) => lemma_coercion_free_licensed(*a, choices, pos),
        Exp::IsInt(a) => lemma_coercion_free_licensed(*a, choices, pos),
        Exp::IsString(a) => lemma_coercion_free_licensed(*a, choices, pos),
        Exp::IsList(a) => lemma_coercion_free_licensed(*a, choices, pos),
        Exp::IsFun(a) => lemma_coercion_free_licensed(*a, choices, pos),
        Exp::App(a, b) => {
            lemma_coercion_free_licensed(*a, choices, pos);
            lemma_coercion_free_licensed(*b, choices, pos);
        },
        Exp::Add(a, b) => {
            lemma_coercion_free_licensed(*a, choices, pos);
            lemma_coercion_free_licensed(*b, choices, pos);
        },
        Exp::Mul(a, b) => {
            lemma_coercion_free_licensed(*a, choices, pos);
            lemma_coercion_free_licensed(*b, choices, pos);
        },
        Exp::IntEq(a, b) => {
            lemma_coercion_free_licensed(*a, choices, pos);
            lemma_coercion_free_licensed(*b, choices, pos);
        },
        Exp::AddOverload(a, b) => {
            lemma_coercion_free_licensed(*a, choices, pos);
            lemma_coercion_free_licensed(*b, choices, pos);
        },
        Exp::Cons(a, b) => {
            lemma_coercion_free_licensed(*a, choices, pos);
            lemma_coercion_free_licensed(*b, choices, pos);
        },
        Exp::Pair(a, b) => {
            lemma_coercion_free_licensed(*a, choices, pos);
            lemma_coercion_free_licensed(*b, choices, pos);
        },
        Exp::Let(_, a, b) => {
            lemma_coercion_free_licensed(*a, choices, pos);
            lemma_coercion_free_licensed(*b, choices, pos);
        },
        Exp::If(a, b, c) => {
            lemma_coercion_free_licensed(*a, choices, pos);
            lemma_coercion_free_licensed(*b, choices, pos);
            lemma_coercion_free_licensed(*c, choices, pos);
        },
    }
}

/// What the typing rules ask of a model for one coercion from `t1` to `t2`
/// at a place of the kind `here`.
pub open spec fn license(here: Position, t1: Typ, t2: Typ) -> Formula {
    match here {
        Position::Elimination => strengthen_formula(t1, t2),
        Position::Introduction => weaken_formula(t1, t2),
    }
}

/// A model of what the rules ask for a coercion puts the coercion in order.
pub proof fn lemma_license_in_order(here: Position, t1: Typ, t2: Typ, choices: Map<u32, Typ>)
    requires
        license(here, t1, t2).holds(choices),
    ensures
        in_order(here, t1.resolved(choices), t2.resolved(choices)),
{
    reveal_with_fuel(Formula::holds, 6);
    reveal_with_fuel(Typ::resolved, 3);
}

/// One coercion that generation inserts around a subexpression `c`, at a
/// place of the kind `here`: if the model satisfies what the rules ask for
/// it, and `c` itself is in order, the coerced subexpression is in order.
proof fn lemma_coerced_child(
    c: Exp,
    env: Map<Seq<char>, Typ>,
    next: nat,
    choices: Map<u32, Typ>,
    pos: Position,
    here: Position,
    target: Typ,
)
    requires
        c.generated(env, next).tree.resolved(choices).licensed(pos),
        placed(pos, here, c.resolved(choices)),
        license(here, c.generated(env, next).typ, target).holds(choices),
    ensures
        placed(
            pos,
            here,
            coerced(c.generated(env, next).typ, target, c.generated(env, next).tree).resolved(
                choices,
            ),
        ),
        coerced(c.generated(env, next).typ, target, c.generated(env, next).tree).resolved(
            choices,
        ).licensed(pos),
{
    lemma_outer_coercion_kept(c, env, next, choices);
    lemma_license_in_order(here, c.generated(env, next).typ, target, choices);
}

/// The coercions that generation inserts are in order once a model of the
/// constraints has resolved them. If `choices` satisfies the constraint
/// that generation gives for `e`, and the coercions that `e` came with are
/// in order at the places of the kind `pos` once resolved, then so are all
/// coercions of the generated program once resolved.
pub proof fn lemma_generated_licensed(
    e: Exp,
    env: Map<Seq<char>, Typ>,
    next: nat,
    choices: Map<u32, Typ>,
    pos: Position,
)
    requires
        e.generated(env, next).hard.holds(choices),
        e.resolved(choices).licensed(pos),
    ensures
        e.generated(env, next).tree.resolved(choices).licensed(pos),
    decreases e,
{
    reveal_with_fuel(Formula::holds, 4);
    let elim = Position::Elimination;
    let intro = Position::Introduction;
    match e {
        Exp::Lit(_) => {},
        Exp::Var(_) => {},
        Exp::Empty(_) => {},
        Exp::Fun(x, t, a) => {
            lemma_generated_licensed(*a, env.insert(x@, t), next, choices, pos);
        },
        Exp::Fix(x, t, a) => {
            lemma_generated_licensed(*a, env.insert(x@, t), next, choices, pos);
        },
        Exp::Coerce(_, _, a) => {
            lemma_generated_licensed(*a, env, next, choices, pos);
        },
        Exp::Let(x, a, b) => {
            let ga = a.generated(env, next);
            lemma_generated_licensed(*a, env, next, choices, pos);
            lemma_generated_licensed(*b, env.insert(x@, ga.typ), ga.next, choices, pos);
        },
        Exp::Pair(a, b) => {
            let ga = a.generated(env, next);
            lemma_generated_licensed(*a, env, next, choices, pos);
            lemma_generated_licensed(*b, env, ga.next, choices, pos);
        },
        Exp::Not(a) => {
            lemma_generated_licensed(*a, env, next, choices, pos);
            lemma_coerced_child(*a, env, next, choices, pos, elim, Typ::Bool);
        },
        Exp::Head(a) => {
            let ga = a.generated(env, next);
            lemma_generated_licensed(*a, env, next, choices, pos);
            lemma_coerced_child(*a, env, next, choices, pos, elim, list_of(metavar(ga.next)));
        },
        Exp::Tail(a) => {
            let ga = a.generated(env, next);
            lemma_generated_licensed(*a, env, next, choices, pos);
            lemma_coerced_child(*a, env, next, choices, pos, elim, list_of(metavar(ga.next)));
        },
        Exp::IsEmpty(a) => {
            let ga = a.generated(env, next);
            lemma_generated_licensed(*a, env, next, choices, pos);
            lemma_coerced_child(*a, env, next, choices, pos, elim, list_of(metavar(ga.next)));
        },
        Exp::IsBool(a) => {
            lemma_generated_licensed(*a, env, next, choices, pos);
            lemma_coerced_child(*a, env, next, choices, pos, intro, Typ::Any);
        },
        Exp::IsInt(a) => {
            lemma_generated_licensed(*a, env, next, choices, pos);
            lemma_coerced_child(*a, env, next, choices, pos, intro, Typ::Any);
        },
        Exp::IsString(a) => {
            lemma_generated_licensed(*a, env, next, choices, pos);
            lemma_coerced_child(*a, env, next, choices, pos, intro, Typ::Any);
        },
        Exp::IsList(a) => {
            lemma_generated_licensed(*a, env, next, choices, pos);
            lemma_coerced_child(*a, env, next, choices, pos, intro, Typ::Any);
        },
        Exp::IsFun(a) => {
            lemma_generated_licensed(*a, env, next, choices, pos);
            lemma_coerced_child(*a, env, next, choices, pos, intro, Typ::Any);
        },
        Exp::Add(a, b) => {
            let ga = a.generated(env, next);
            lemma_generated_licensed(*a, env, next, choices, pos);
            lemma_generated_licensed(*b, env, ga.next, choices, pos);
            lemma_coerced_child(*a, env, next, choices, pos, elim, Typ::Int);
            lemma_coerced_child(*b, env, ga.next, choices, pos, elim, Typ::Int);
        },
        Exp::Mul(a, b) => {
            let ga = a.generated(env, next);
            lemma_generated_licensed(*a, env, next, choices, pos);
            lemma_generated_licensed(*b, env, ga.next, choices, pos);
            lemma_coerced_child(*a, env, next, choices, pos, elim, Typ::Int);
            lemma_coerced_child(*b, env, ga.next, choices, pos, elim, Typ::Int);
        },
        Exp::IntEq(a, b) => {
            let ga = a.generated(env, next);
            lemma_generated_licensed(*a, env, next, choices, pos);
            lemma_generated_licensed(*b, env, ga.next, choices, pos);
            lemma_coerced_child(*a, env, next, choices, pos, elim, Typ::Int);
            lemma_coerced_child(*b, env, ga.next, choices, pos, elim, Typ::Int);
        },
        Exp::App(a, b) => {
            let ga = a.generated(env, next);
            let gb = b.generated(env, ga.next);
            let alpha = metavar(gb.next);
            let beta = metavar(gb.next + 1);
            lemma_generated_licensed(*a, env, next, choices, pos);
            lemma_generated_licensed(*b, env, ga.next, choices, pos);
            lemma_coerced_child(*a, env, next, choices, pos, elim, arrow(alpha, beta));
            lemma_coerced_child(*b, env, ga.next, choices, pos, intro, alpha);
        },
        Exp::AddOverload(a, b) => {
            let ga = a.generated(env, next);
            let gb = b.generated(env, ga.next);
            let alpha = metavar(gb.next);
            lemma_generated_licensed(*a, env, next, choices, pos);
            lemma_generated_licensed(*b, env, ga.next, choices, pos);
            lemma_coerced_child(*a, env, next, choices, pos, intro, alpha);
            lemma_coerced_child(*b, env, ga.next, choices, pos, intro, alpha);
        },
        Exp::Cons(a, b) => {
            let ga = a.generated(env, next);
            let gb = b.generated(env, ga.next);
            let alpha = metavar(gb.next);
            lemma_generated_licensed(*a, env, next, choices, pos);
            lemma_generated_licensed(*b, env, ga.next, choices, pos);
            lemma_coerced_child(*a, env, next, choices, pos, intro, alpha);
            lemma_coerced_child(*b, env, ga.next, choices, pos, elim, list_of(alpha));
        },
        Exp::If(a, b, c) => {
            let ga = a.generated(env, next);
            let gb = b.generated(env, ga.next);
            let gc = c.generated(env, gb.next);
            let alpha = metavar(gc.next);
            lemma_generated_licensed(*a, env, next, choices, pos);
            lemma_generated_licensed(*b, env, ga.next, choices, pos);
            lemma_generated_licensed(*c, env, gb.next, choices, pos);
            lemma_coerced_child(*a, env, next, choices, pos, elim, Typ::Bool);
            lemma_coerced_child(*b, env, ga.next, choices, pos, intro, alpha);
            lemma_coerced_child(*c, env, gb.next, choices, pos, intro, alpha);
        },
    }
}

/// Strengthening is sound: in the migration of a program without
/// coercions, by any model of its constraints, a coercion that remains
/// where the program relies on a type goes from a type to the same type, or
/// from the dynamic type to a type that is, if it is a list or a function
/// type, the most dynamic one of its shape.
pub proof fn lemma_strengthen_sound(
    program: Exp,
    env: Map<Seq<char>, Typ>,
    next: nat,
    choices: Map<u32, Typ>,
)
    requires
        program.is_coercion_free(),
        program.generated(env, next).hard.holds(choices),
    ensures
        program.generated(env, next).tree.resolved(choices).licensed(Position::Elimination),
{
    lemma_coercion_free_licensed(program, choices, Position::Elimination);
    lemma_generated_licensed(program, env, next, choices, Position::Elimination);
}

/// Weakening is safe: in the migration of a program without coercions, by
/// any model of its constraints, a coercion that remains where a value is
/// handed on goes from a type to the same type or to the dynamic type.
pub proof fn lemma_weaken_safe(
    program: Exp,
    env: Map<Seq<char>, Typ>,
    next: nat,
    choices: Map<u32, Typ>,
)
    requires
        program.is_coercion_free(),
        program.generated(env, next).hard.holds(choices),
    ensures
        program.generated(env, next).tree.resolved(choices).licensed(Position::Introduction),
{
    lemma_coercion_free_licensed(program, choices, Position::Introduction);
    lemma_generated_licensed(program, env, next, choices, Position::Introduction);
}

/// The preferences choose among the models of the constraint and decide
/// nothing else: by whichever concrete model of its constraint a program
/// without coercions is migrated, and so whatever the weights and groups of
/// the preferences were that made the solver choose it, no metavariable and
/// no coercion from a type to the same type is left, and every coercion
/// that remains is in order at its place.
pub proof fn lemma_every_model_migrates(
    program: Exp,
    env: Map<Seq<char>, Typ>,
    next: nat,
    choices: Map<u32, Typ>,
)
    requires
        program.is_coercion_free(),
        all_concrete(choices),
        program.generated(env, next).hard.holds(choices),
    ensures
        program.generated(env, next).tree.resolved(choices).is_concrete(),
        program.generated(env, next).tree.resolved(choices).is_settled(),
        program.generated(env, next).tree.resolved(choices).licensed(Position::Elimination),
        program.generated(env, next).tree.resolved(choices).licensed(Position::Introduction),
{
    let tree = program.generated(env, next).tree;
    lemma_no_metavariable_left(tree, choices);
    lemma_resolved_is_settled(tree, choices);
    lemma_strengthen_sound(program, env, next, choices);
    lemma_weaken_safe(program, env, next, choices);
}

/// No type that the environment gives holds a metavariable with the
/// number `n` or a larger one.
pub open spec fn bounded_by(env: Map<Seq<char>, Typ>, n: nat) -> bool {
    forall|x: Seq<char>| #[trigger] env.contains_key(x) ==> env[x].metavar_bound() <= n
}

/// A metavariable that occurs in a type has a number below the type's bound.
pub proof fn lemma_bound_excludes(t: Typ, id: u32)
    requires
        t.metavars().contains(id),
    ensures
        id < t.metavar_bound(),
    decreases t,
{
    match t {
        Typ::Arr(a, b) => {
            if a.metavars().contains(id) {
                lemma_bound_excludes(*a, id);
            } else {
                lemma_bound_excludes(*b, id);
            }
        },
        Typ::Pair(a, b) => {
            if a.metavars().contains(id) {
                lemma_bound_excludes(*a, id);
            } else {
                lemma_bound_excludes(*b, id);
            }
        },
        Typ::List(a) => {
            lemma_bound_excludes(*a, id);
        },
        _ => {},
    }
}

/// An environment bounded by a number is bounded by every larger one.
pub proof fn lemma_bounded_wider(env: Map<Seq<char>, Typ>, n: nat, m: nat)
    requires
        bounded_by(env, n),
        n <= m,
    ensures
        bounded_by(env, m),
{
    assert forall|x: Seq<char>| #[trigger] env.contains_key(x) implies env[x].metavar_bound()
        <= m by {
        assert(env[x].metavar_bound() <= n);
    }
}

/// An environment stays bounded when it is given a type within the bound.
pub proof fn lemma_bounded_insert(env: Map<Seq<char>, Typ>, x: Seq<char>, t: Typ, n: nat)
    requires
        bounded_by(env, n),
        t.metavar_bound() <= n,
    ensures
        bounded_by(env.insert(x, t), n),
        env.insert(x, t).dom() == env.dom().insert(x),
{
    assert forall|y: Seq<char>| #[trigger] env.insert(x, t).contains_key(y) implies env.insert(
        x,
        t,
    )[y].metavar_bound() <= n by {
        if y != x {
            assert(env.contains_key(y));
        }
    }
    assert(env.insert(x, t).dom() =~= env.dom().insert(x));
}

/// The bound of the metavariable with the number `n`, and of the type of
/// lists of it.
pub proof fn lemma_metavar_bound(n: nat)
    requires
        n < ALL_METAVARS,
    ensures
        metavar(n).metavar_bound() == n + 1,
        list_of(metavar(n)).metavar_bound() == n + 1,
{
    reveal_with_fuel(Typ::metavar_bound, 2);
}

/// A function type is bounded as its domain and range are.
pub proof fn lemma_arrow_bound(a: Typ, b: Typ, n: nat)
    requires
        a.metavar_bound() <= n,
        b.metavar_bound() <= n,
    ensures
        arrow(a, b).metavar_bound() <= n,
{
}

/// A coerced expression is bounded as its two types and the expression are.
pub proof fn lemma_coerced_bound(t1: Typ, t2: Typ, e: Exp, n: nat)
    requires
        t1.metavar_bound() <= n,
        t2.metavar_bound() <= n,
        e.metavar_bound() <= n,
    ensures
        coerced(t1, t2, e).metavar_bound() <= n,
{
}

/// The metavariables that generation takes are fresh. If every
/// metavariable of the program and of the environment has a number below
/// `next`, then generation numbers its own from `next` upwards, one for
/// each that the rules take, and every metavariable of the generated
/// program and of its type has a number below the first one left unused.
/// So the metavariables that generation takes for a construct occur
/// neither in the program, nor in the environment, nor in what generation
/// has made of the parts of the construct.
pub proof fn lemma_generated_fresh(e: Exp, env: Map<Seq<char>, Typ>, next: nat)
    requires
        e.first_unbound(env.dom()) is None,
        e.metavar_bound() <= next,
        bounded_by(env, next),
        next + e.fresh_demand() <= ALL_METAVARS,
    ensures
        e.generated(env, next).next == next + e.fresh_demand(),
        e.generated(env, next).typ.metavar_bound() <= e.generated(env, next).next,
        e.generated(env, next).tree.metavar_bound() <= e.generated(env, next).next,
    decreases e,
{
    match e {
        Exp::Lit(_) => {},
        Exp::Var(x) => {
            assert(env.contains_key(x@));
        },
        Exp::Empty(_) => {},
        Exp::Fun(x, t, a) => {
            let ga = a.generated(env.insert(x@, t), next);
            lemma_bounded_insert(env, x@, t, next);
            lemma_generated_fresh(*a, env.insert(x@, t), next);
            lemma_arrow_bound(t, ga.typ, ga.next);
        },
        Exp::Fix(x, t, a) => {
            lemma_bounded_insert(env, x@, t, next);
            lemma_generated_fresh(*a, env.insert(x@, t), next);
        },
        Exp::Let(x, a, b) => {
            let ga = a.generated(env, next);
            lemma_generated_fresh(*a, env, next);
            lemma_bounded_wider(env, next, ga.next);
            lemma_bounded_insert(env, x@, ga.typ, ga.next);
            lemma_generated_fresh(*b, env.insert(x@, ga.typ), ga.next);
        },
        Exp::Coerce(_, _, a) => {
            lemma_generated_fresh(*a, env, next);
        },
        Exp::Pair(a, b) => {
            let ga = a.generated(env, next);
            lemma_generated_fresh(*a, env, next);
            lemma_bounded_wider(env, next, ga.next);
            lemma_generated_fresh(*b, env, ga.next);
        },
        Exp::Not(a) => {
            let ga = a.generated(env, next);
            lemma_generated_fresh(*a, env, next);
            lemma_coerced_bound(ga.typ, Typ::Bool, ga.tree, ga.next);
        },
        Exp::IsBool(a) => {
            let ga = a.generated(env, next);
            lemma_generated_fresh(*a, env, next);
            lemma_coerced_bound(ga.typ, Typ::Any, ga.tree, ga.next);
        },
        Exp::IsInt(a) => {
            let ga = a.generated(env, next);
            lemma_generated_fresh(*a, env, next);
            lemma_coerced_bound(ga.typ, Typ::Any, ga.tree, ga.next);
        },
        Exp::IsString(a) => {
            let ga = a.generated(env, next);
            lemma_generated_fresh(*a, env, next);
            lemma_coerced_bound(ga.typ, Typ::Any, ga.tree, ga.next);
        },
        Exp::IsList(a) => {
            let ga = a.generated(env, next);
            lemma_generated_fresh(*a, env, next);
            lemma_coerced_bound(ga.typ, Typ::Any, ga.tree, ga.next);
        },
        Exp::IsFun(a) => {
            let ga = a.generated(env, next);
            lemma_generated_fresh(*a, env, next);
            lemma_coerced_bound(ga.typ, Typ::Any, ga.tree, ga.next);
        },
        Exp::Head(a) => {
            let ga = a.generated(env, next);
            lemma_generated_fresh(*a, env, next);
            lemma_metavar_bound(ga.next);
            lemma_coerced_bound(ga.typ, list_of(metavar(ga.next)), ga.tree, ga.next + 1);
        },
        Exp::Tail(a) => {
            let ga = a.generated(env, next);
            lemma_generated_fresh(*a, env, next);
            lemma_metavar_bound(ga.next);
            lemma_coerced_bound(ga.typ, list_of(metavar(ga.next)), ga.tree, ga.next + 1);
        },
        Exp::IsEmpty(a) => {
            let ga = a.generated(env, next);
            lemma_generated_fresh(*a, env, next);
            lemma_metavar_bound(ga.next);
            lemma_coerced_bound(ga.typ, list_of(metavar(ga.next)), ga.tree, ga.next + 1);
        },
        Exp::Add(a, b) => {
            let ga = a.generated(env, next);
            let gb = b.generated(env, ga.next);
            lemma_generated_fresh(*a, env, next);
            lemma_bounded_wider(env, next, ga.next);
            lemma_generated_fresh(*b, env, ga.next);
            lemma_coerced_bound(ga.typ, Typ::Int, ga.tree, gb.next);
            lemma_coerced_bound(gb.typ, Typ::Int, gb.tree, gb.next);
        },
        Exp::Mul(a, b) => {
            let ga = a.generated(env, next);
            let gb = b.generated(env, ga.next);
            lemma_generated_fresh(*a, env, next);
            lemma_bounded_wider(env, next, ga.next);
            lemma_generated_fresh(*b, env, ga.next);
            lemma_coerced_bound(ga.typ, Typ::Int, ga.tree, gb.next);
            lemma_coerced_bound(gb.typ, Typ::Int, gb.tree, gb.next);
        },
        Exp::IntEq(a, b) => {
            let ga = a.generated(env, next);
            let gb = b.generated(env, ga.next);
            lemma_generated_fresh(*a, env, next);
            lemma_bounded_wider(env, next, ga.next);
            lemma_generated_fresh(*b, env, ga.next);
            lemma_coerced_bound(ga.typ, Typ::Int, ga.tree, gb.next);
            lemma_coerced_bound(gb.typ, Typ::Int, gb.tree, gb.next);
        },
        Exp::App(a, b) => {
            let ga = a.generated(env, next);
            let gb = b.generated(env, ga.next);
            let alpha = metavar(gb.next);
            let beta = metavar(gb.next + 1);
            lemma_generated_fresh(*a, env, next);
            lemma_bounded_wider(env, next, ga.next);
            lemma_generated_fresh(*b, env, ga.next);
            lemma_metavar_bound(gb.next);
            lemma_metavar_bound(gb.next + 1);
            lemma_arrow_bound(alpha, beta, gb.next + 2);
            lemma_coerced_bound(ga.typ, arrow(alpha, beta), ga.tree, gb.next + 2);
            lemma_coerced_bound(gb.typ, alpha, gb.tree, gb.next + 2);
        },
        Exp::AddOverload(a, b) => {
            let ga = a.generated(env, next);
            let gb = b.generated(env, ga.next);
            let alpha = metavar(gb.next);
            lemma_generated_fresh(*a, env, next);
            lemma_bounded_wider(env, next, ga.next);
            lemma_generated_fresh(*b, env, ga.next);
            lemma_metavar_bound(gb.next);
            lemma_coerced_bound(ga.typ, alpha, ga.tree, gb.next + 1);
            lemma_coerced_bound(gb.typ, alpha, gb.tree, gb.next + 1);
        },
        Exp::Cons(a, b) => {
            let ga = a.generated(env, next);
            let gb = b.generated(env, ga.next);
            let alpha = metavar(gb.next);
            lemma_generated_fresh(*a, env, next);
            lemma_bounded_wider(env, next, ga.next);
            lemma_generated_fresh(*b, env, ga.next);
            lemma_metavar_bound(gb.next);
            lemma_coerced_bound(ga.typ, alpha, ga.tree, gb.next + 1);
            lemma_coerced_bound(gb.typ, list_of(alpha), gb.tree, gb.next + 1);
        },
        Exp::If(a, b, c) => {
            let ga = a.generated(env, next);
            let gb = b.generated(env, ga.next);
            let gc = c.generated(env, gb.next);
            let alpha = metavar(gc.next);
            lemma_generated_fresh(*a, env, next);
            lemma_bounded_wider(env, next, ga.next);
            lemma_generated_fresh(*b, env, ga.next);
            lemma_bounded_wider(env, next, gb.next);
            lemma_generated_fresh(*c, env, gb.next);
            lemma_metavar_bound(gc.next);
            lemma_coerced_bound(ga.typ, Typ::Bool, ga.tree, gc.next + 1);
            lemma_coerced_bound(gb.typ, alpha, gb.tree, gc.next + 1);
            lemma_coerced_bound(gc.typ, alpha, gc.tree, gc.next + 1);
        },
    }
}

/// The two metavariables of an application are new. Where the supply is
/// past the metavariables of the application and of the environment, the
/// two that generation takes for the argument and the result are two
/// different ones, and each has a number that is below no bound of the
/// application, of the environment, or of what generation has made of the
/// function and of the argument: it occurs in none of them.
pub proof fn lemma_application_takes_fresh(
    function: Exp,
    argument: Exp,
    env: Map<Seq<char>, Typ>,
    next: nat,
)
    requires
        Exp::App(Box::new(function), Box::new(argument)).first_unbound(env.dom()) is None,
        Exp::App(Box::new(function), Box::new(argument)).metavar_bound() <= next,
        bounded_by(env, next),
        next + Exp::App(Box::new(function), Box::new(argument)).fresh_demand() <= ALL_METAVARS,
    ensures
        ({
            let made = function.generated(env, next);
            let given = argument.generated(env, made.next);
            let whole = Exp::App(Box::new(function), Box::new(argument)).generated(env, next);
            &&& whole.typ == metavar(given.next + 1)
            &&& whole.tree == Exp::App(
                Box::new(coerced(made.typ, arrow(metavar(given.next), whole.typ), made.tree)),
                Box::new(coerced(given.typ, metavar(given.next), given.tree)),
            )
            &&& metavar(given.next) != metavar(given.next + 1)
            &&& Exp::App(Box::new(function), Box::new(argument)).metavar_bound() <= given.next
            &&& bounded_by(env, given.next)
            &&& made.tree.metavar_bound() <= given.next
            &&& given.tree.metavar_bound() <= given.next
            &&& made.typ.metavar_bound() <= given.next
            &&& given.typ.metavar_bound() <= given.next
        }),
{
    let made = function.generated(env, next);
    lemma_generated_fresh(function, env, next);
    lemma_bounded_wider(env, next, made.next);
    lemma_generated_fresh(argument, env, made.next);
    lemma_bounded_wider(env, next, argument.generated(env, made.next).next);
}

} // verus!
