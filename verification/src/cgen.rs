//! Constraint generation: a type and a constraint for every expression,
//! and a coercion wherever a value may cross a type boundary.

use crate::env::Env;
use crate::error::MigrationError;
use crate::formula::Formula;
use crate::laws::{bounded_by, lemma_generated_fresh};
use crate::supply::MetavarSupply;
use crate::syntax::{Exp, Id, Lit, Typ};
use vstd::prelude::*;

verus! {

/// The function type from the dynamic type to the dynamic type.
pub open spec fn any_to_any() -> Typ {
    Typ::Arr(Box::new(Typ::Any), Box::new(Typ::Any))
}

/// The type of lists of dynamic values.
pub open spec fn list_of_any() -> Typ {
    Typ::List(Box::new(Typ::Any))
}

/// The function type from `a` to `b`.
pub open spec fn arrow(a: Typ, b: Typ) -> Typ {
    Typ::Arr(Box::new(a), Box::new(b))
}

/// The type of lists of `a`.
pub open spec fn list_of(a: Typ) -> Typ {
    Typ::List(Box::new(a))
}

/// The metavariable with the number `n`.
pub open spec fn metavar(n: nat) -> Typ {
    Typ::Metavar(n as u32)
}

/// `e` wrapped in a coercion from `t1` to `t2`.
pub open spec fn coerced(t1: Typ, t2: Typ, e: Exp) -> Exp {
    Exp::Coerce(t1, t2, Box::new(e))
}

/// The preference that a coercion from `t1` to `t2` be none: the solver is
/// asked, not forced, to make the two types equal.
pub open spec fn preference(t1: Typ, t2: Typ) -> Formula {
    Formula::Eq(t1, t2)
}

/// What licenses a coercion from `t1` to `t2` where the program relies on
/// the narrower type: the two are equal, or `t1` is the dynamic type and
/// `t2`, if it is a list or a function type, is the most dynamic one of its
/// shape.
pub open spec fn strengthen_formula(t1: Typ, t2: Typ) -> Formula {
    Formula::Eq(t1, Typ::Any).spec_and(
        Formula::IsList(t2).spec_implies(Formula::Eq(t2, list_of_any())),
    ).spec_and(Formula::IsArr(t2).spec_implies(Formula::Eq(t2, any_to_any()))).spec_or(
        Formula::Eq(t1, t2),
    )
}

/// What licenses a coercion from `t1` to `t2` where a value is handed to a
/// looser place: `t2` is the dynamic type, or the two are equal.
pub open spec fn weaken_formula(t1: Typ, t2: Typ) -> Formula {
    Formula::Eq(t2, Typ::Any).spec_or(Formula::Eq(t1, t2))
}

/// The types that an overloaded addition can have.
pub open spec fn addable(t: Typ) -> Formula {
    Formula::Eq(t, Typ::Int).spec_or(Formula::Eq(t, Typ::Str)).spec_or(Formula::Eq(t, Typ::Any))
}

/// What generation makes of an expression.
pub struct Generated {
    /// The expression with its coercions.
    pub tree: Exp,
    /// Its type.
    pub typ: Typ,
    /// What every model must satisfy.
    pub hard: Formula,
    /// What a model should satisfy as far as it can, in the order in which
    /// the coercions were inserted.
    pub soft: Seq<Formula>,
    /// The number of the next unused metavariable.
    pub next: nat,
}

impl Exp {
    /// The number of fresh metavariables that generation takes for the expression.
    pub open spec fn fresh_demand(self) -> nat
        decreases self,
    {
        match self {
            Exp::Lit(_) => 0,
            Exp::Var(_) => 0,
            Exp::Empty(_) => 0,
            Exp::Fun(_, _, e) => e.fresh_demand(),
            Exp::Fix(_, _, e) => e.fresh_demand(),
            Exp::Coerce(_, _, e) => e.fresh_demand(),
            Exp::Not(e) => e.fresh_demand(),
            Exp::IsBool(e) => e.fresh_demand(),
            Exp::IsInt(e) => e.fresh_demand(),
            Exp::IsString(e) => e.fresh_demand(),
            Exp::IsList(e) => e.fresh_demand(),
            Exp::IsFun(e) => e.fresh_demand(),
            Exp::Head(e) => e.fresh_demand() + 1,
            Exp::Tail(e) => e.fresh_demand() + 1,
            Exp::IsEmpty(e) => e.fresh_demand() + 1,
            Exp::App(e1, e2) => e1.fresh_demand() + e2.fresh_demand() + 2,
            Exp::Let(_, e1, e2) => e1.fresh_demand() + e2.fresh_demand(),
            Exp::Add(e1, e2) => e1.fresh_demand() + e2.fresh_demand(),
            Exp::Mul(e1, e2) => e1.fresh_demand() + e2.fresh_demand(),
            Exp::IntEq(e1, e2) => e1.fresh_demand() + e2.fresh_demand(),
            Exp::Pair(e1, e2) => e1.fresh_demand() + e2.fresh_demand(),
            Exp::AddOverload(e1, e2) => e1.fresh_demand() + e2.fresh_demand() + 1,
            Exp::Cons(e1, e2) => e1.fresh_demand() + e2.fresh_demand() + 1,
            Exp::If(e1, e2, e3) => e1.fresh_demand() + e2.fresh_demand() + e3.fresh_demand() + 1,
        }
    }

    /// The first variable, going through the expression from left to right,
    /// that neither `scope` nor a binder around it binds.
    pub open spec fn first_unbound(self, scope: Set<Seq<char>>) -> Option<Id>
        decreases self,
    {
        match self {
            Exp::Lit(_) => None,
            Exp::Empty(_) => None,
            Exp::Var(x) => if scope.contains(x@) {
                None
            } else {
                Some(x)
            },
            Exp::Fun(x, _, e) => e.first_unbound(scope.insert(x@)),
            Exp::Fix(x, _, e) => e.first_unbound(scope.insert(x@)),
            Exp::Let(x, e1, e2) => match e1.first_unbound(scope) {
                Some(y) => Some(y),
                None => e2.first_unbound(scope.insert(x@)),
            },
            Exp::Coerce(_, _, e) => e.first_unbound(scope),
            Exp::Not(e) => e.first_unbound(scope),
            Exp::IsBool(e) => e.first_unbound(scope),
            Exp::IsInt(e) => e.first_unbound(scope),
            Exp::IsString(e) => e.first_unbound(scope),
            Exp::IsList(e) => e.first_unbound(scope),
            Exp::IsFun(e) => e.first_unbound(scope),
            Exp::Head(e) => e.first_unbound(scope),
            Exp::Tail(e) => e.first_unbound(scope),
            Exp::IsEmpty(e) => e.first_unbound(scope),
            Exp::App(e1, e2) => first_of(e1.first_unbound(scope), e2.first_unbound(scope)),
            Exp::Add(e1, e2) => first_of(e1.first_unbound(scope), e2.first_unbound(scope)),
            Exp::Mul(e1, e2) => first_of(e1.first_unbound(scope), e2.first_unbound(scope)),
            Exp::IntEq(e1, e2) => first_of(e1.first_unbound(scope), e2.first_unbound(scope)),
            Exp::Pair(e1, e2) => first_of(e1.first_unbound(scope), e2.first_unbound(scope)),
            Exp::AddOverload(e1, e2) => first_of(
                e1.first_unbound(scope),
                e2.first_unbound(scope),
            ),
            Exp::Cons(e1, e2) => first_of(e1.first_unbound(scope), e2.first_unbound(scope)),
            Exp::If(e1, e2, e3) => first_of(
                e1.first_unbound(scope),
                first_of(e2.first_unbound(scope), e3.first_unbound(scope)),
            ),
        }
    }

    /// The typing rules. Under `env`, with `next` the first unused
    /// metavariable: the expression with a coercion around each
    /// subexpression whose type its place constrains, its type, the
    /// constraints on a model, and the first metavariable still unused.
    pub open spec fn generated(self, env: Map<Seq<char>, Typ>, next: nat) -> Generated
        decreases self,
    {
        match self {
            Exp::Lit(l) => Generated {
                tree: self,
                typ: l.spec_typ(),
                hard: Formula::True,
                soft: Seq::empty(),
                next,
            },
            Exp::Var(x) => Generated {
                tree: self,
                typ: env[x@],
                hard: Formula::True,
                soft: Seq::empty(),
                next,
            },
            Exp::Empty(t) => Generated {
                tree: self,
                typ: list_of(t),
                hard: Formula::True,
                soft: Seq::empty(),
                next,
            },
            Exp::Fun(x, t, e) => {
                let b = e.generated(env.insert(x@, t), next);
                Generated {
                    tree: Exp::Fun(x, t, Box::new(b.tree)),
                    typ: arrow(t, b.typ),
                    hard: b.hard,
                    soft: b.soft,
                    next: b.next,
                }
            },
            Exp::Fix(x, t, e) => {
                let b = e.generated(env.insert(x@, t), next);
                Generated {
                    tree: Exp::Fix(x, t, Box::new(b.tree)),
                    typ: t,
                    hard: b.hard.spec_and(Formula::Eq(t, b.typ)),
                    soft: b.soft,
                    next: b.next,
                }
            },
            Exp::App(e1, e2) => {
                let a = e1.generated(env, next);
                let b = e2.generated(env, a.next);
                let alpha = metavar(b.next);
                let beta = metavar(b.next + 1);
                Generated {
                    tree: Exp::App(
                        Box::new(coerced(a.typ, arrow(alpha, beta), a.tree)),
                        Box::new(coerced(b.typ, alpha, b.tree)),
                    ),
                    typ: beta,
                    hard: a.hard.spec_and(b.hard).spec_and(
                        strengthen_formula(a.typ, arrow(alpha, beta)).spec_and(
                            weaken_formula(b.typ, alpha),
                        ),
                    ),
                    soft: (a.soft + b.soft).push(preference(a.typ, arrow(alpha, beta))).push(
                        preference(b.typ, alpha),
                    ),
                    next: b.next + 2,
                }
            },
            Exp::Let(x, e1, e2) => {
                let a = e1.generated(env, next);
                let b = e2.generated(env.insert(x@, a.typ), a.next);
                Generated {
                    tree: Exp::Let(x, Box::new(a.tree), Box::new(b.tree)),
                    typ: b.typ,
                    hard: a.hard.spec_and(b.hard),
                    soft: a.soft + b.soft,
                    next: b.next,
                }
            },
            Exp::Add(e1, e2) => {
                let a = e1.generated(env, next);
                let b = e2.generated(env, a.next);
                Generated {
                    tree: Exp::Add(
                        Box::new(coerced(a.typ, Typ::Int, a.tree)),
                        Box::new(coerced(b.typ, Typ::Int, b.tree)),
                    ),
                    typ: Typ::Int,
                    hard: arithmetic_formula(a, b),
                    soft: arithmetic_preferences(a, b),
                    next: b.next,
                }
            },
            Exp::Mul(e1, e2) => {
                let a = e1.generated(env, next);
                let b = e2.generated(env, a.next);
                Generated {
                    tree: Exp::Mul(
                        Box::new(coerced(a.typ, Typ::Int, a.tree)),
                        Box::new(coerced(b.typ, Typ::Int, b.tree)),
                    ),
                    typ: Typ::Int,
                    hard: arithmetic_formula(a, b),
                    soft: arithmetic_preferences(a, b),
                    next: b.next,
                }
            },
            Exp::IntEq(e1, e2) => {
                let a = e1.generated(env, next);
                let b = e2.generated(env, a.next);
                Generated {
                    tree: Exp::IntEq(
                        Box::new(coerced(a.typ, Typ::Int, a.tree)),
                        Box::new(coerced(b.typ, Typ::Int, b.tree)),
                    ),
                    typ: Typ::Bool,
                    hard: arithmetic_formula(a, b),
                    soft: arithmetic_preferences(a, b),
                    next: b.next,
                }
            },
            Exp::Not(e) => {
                let a = e.generated(env, next);
                Generated {
                    tree: Exp::Not(Box::new(coerced(a.typ, Typ::Bool, a.tree))),
                    typ: Typ::Bool,
                    hard: a.hard.spec_and(strengthen_formula(a.typ, Typ::Bool)),
                    soft: a.soft.push(preference(a.typ, Typ::Bool)),
                    next: a.next,
                }
            },
            Exp::AddOverload(e1, e2) => {
                let a = e1.generated(env, next);
                let b = e2.generated(env, a.next);
                let alpha = metavar(b.next);
                Generated {
                    tree: Exp::AddOverload(
                        Box::new(coerced(a.typ, alpha, a.tree)),
                        Box::new(coerced(b.typ, alpha, b.tree)),
                    ),
                    typ: alpha,
                    hard: a.hard.spec_and(b.hard).spec_and(addable(alpha)).spec_and(
                        weaken_formula(a.typ, alpha).spec_and(weaken_formula(b.typ, alpha)),
                    ),
                    soft: (a.soft + b.soft).push(preference(a.typ, alpha)).push(
                        preference(b.typ, alpha),
                    ),
                    next: b.next + 1,
                }
            },
            Exp::If(e1, e2, e3) => {
                let a = e1.generated(env, next);
                let b = e2.generated(env, a.next);
                let c = e3.generated(env, b.next);
                let alpha = metavar(c.next);
                Generated {
                    tree: Exp::If(
                        Box::new(coerced(a.typ, Typ::Bool, a.tree)),
                        Box::new(coerced(b.typ, alpha, b.tree)),
                        Box::new(coerced(c.typ, alpha, c.tree)),
                    ),
                    typ: alpha,
                    hard: a.hard.spec_and(b.hard).spec_and(c.hard).spec_and(
                        strengthen_formula(a.typ, Typ::Bool).spec_and(
                            weaken_formula(b.typ, alpha),
                        ).spec_and(weaken_formula(c.typ, alpha)),
                    ),
                    soft: (a.soft + b.soft + c.soft).push(preference(a.typ, Typ::Bool)).push(
                        preference(b.typ, alpha),
                    ).push(preference(c.typ, alpha)),
                    next: c.next + 1,
                }
            },
            Exp::Pair(e1, e2) => {
                let a = e1.generated(env, next);
                let b = e2.generated(env, a.next);
                Generated {
                    tree: Exp::Pair(Box::new(a.tree), Box::new(b.tree)),
                    typ: Typ::Pair(Box::new(a.typ), Box::new(b.typ)),
                    hard: a.hard.spec_and(b.hard),
                    soft: a.soft + b.soft,
                    next: b.next,
                }
            },
            Exp::Cons(e1, e2) => {
                let a = e1.generated(env, next);
                let b = e2.generated(env, a.next);
                let alpha = metavar(b.next);
                Generated {
                    tree: Exp::Cons(
                        Box::new(coerced(a.typ, alpha, a.tree)),
                        Box::new(coerced(b.typ, list_of(alpha), b.tree)),
                    ),
                    typ: list_of(alpha),
                    hard: a.hard.spec_and(b.hard).spec_and(
                        strengthen_formula(b.typ, list_of(alpha)).spec_and(
                            weaken_formula(a.typ, alpha),
                        ),
                    ),
                    soft: (a.soft + b.soft).push(preference(b.typ, list_of(alpha))).push(
                        preference(a.typ, alpha),
                    ),
                    next: b.next + 1,
                }
            },
            Exp::Head(e) => {
                let a = e.generated(env, next);
                let alpha = metavar(a.next);
                Generated {
                    tree: Exp::Head(Box::new(coerced(a.typ, list_of(alpha), a.tree))),
                    typ: alpha,
                    hard: a.hard.spec_and(strengthen_formula(a.typ, list_of(alpha))),
                    soft: a.soft.push(preference(a.typ, list_of(alpha))),
                    next: a.next + 1,
                }
            },
            Exp::Tail(e) => {
                let a = e.generated(env, next);
                let alpha = metavar(a.next);
                Generated {
                    tree: Exp::Tail(Box::new(coerced(a.typ, list_of(alpha), a.tree))),
                    typ: list_of(alpha),
                    hard: a.hard.spec_and(strengthen_formula(a.typ, list_of(alpha))),
                    soft: a.soft.push(preference(a.typ, list_of(alpha))),
                    next: a.next + 1,
                }
            },
            Exp::IsEmpty(e) => {
                let a = e.generated(env, next);
                let alpha = metavar(a.next);
                Generated {
                    tree: Exp::IsEmpty(Box::new(coerced(a.typ, list_of(alpha), a.tree))),
                    typ: Typ::Bool,
                    hard: a.hard.spec_and(strengthen_formula(a.typ, list_of(alpha))),
                    soft: a.soft.push(preference(a.typ, list_of(alpha))),
                    next: a.next + 1,
                }
            },
            Exp::IsBool(e) => {
                let a = e.generated(env, next);
                Generated {
                    tree: Exp::IsBool(Box::new(coerced(a.typ, Typ::Any, a.tree))),
                    ..tested(a)
                }
            },
            Exp::IsInt(e) => {
                let a = e.generated(env, next);
                Generated {
                    tree: Exp::IsInt(Box::new(coerced(a.typ, Typ::Any, a.tree))),
                    ..tested(a)
                }
            },
            Exp::IsString(e) => {
                let a = e.generated(env, next);
                Generated {
                    tree: Exp::IsString(Box::new(coerced(a.typ, Typ::Any, a.tree))),
                    ..tested(a)
                }
            },
            Exp::IsList(e) => {
                let a = e.generated(env, next);
                Generated {
                    tree: Exp::IsList(Box::new(coerced(a.typ, Typ::Any, a.tree))),
                    ..tested(a)
                }
            },
            Exp::IsFun(e) => {
                let a = e.generated(env, next);
                Generated {
                    tree: Exp::IsFun(Box::new(coerced(a.typ, Typ::Any, a.tree))),
                    ..tested(a)
                }
            },
            Exp::Coerce(t1, t2, e) => {
                let a = e.generated(env, next);
                Generated {
                    tree: Exp::Coerce(t1, t2, Box::new(a.tree)),
                    typ: t2,
                    hard: a.hard.spec_and(Formula::Eq(t1, a.typ)),
                    soft: a.soft.push(preference(t1, t2)),
                    next: a.next,
                }
            },
        }
    }
}

/// The first of two optional names that is there.
pub open spec fn first_of(a: Option<Id>, b: Option<Id>) -> Option<Id> {
    match a {
        Some(x) => Some(x),
        None => b,
    }
}

/// The constraint of an operator that takes two integers.
pub open spec fn arithmetic_formula(a: Generated, b: Generated) -> Formula {
    a.hard.spec_and(b.hard).spec_and(
        strengthen_formula(a.typ, Typ::Int).spec_and(strengthen_formula(b.typ, Typ::Int)),
    )
}

/// The preferences of an operator that takes two integers.
pub open spec fn arithmetic_preferences(a: Generated, b: Generated) -> Seq<Formula> {
    (a.soft + b.soft).push(preference(a.typ, Typ::Int)).push(preference(b.typ, Typ::Int))
}

/// What a dynamic type test makes of its operand, but for the tree.
pub open spec fn tested(a: Generated) -> Generated {
    Generated {
        tree: a.tree,
        typ: Typ::Bool,
        hard: a.hard.spec_and(weaken_formula(a.typ, Typ::Any)),
        soft: a.soft.push(preference(a.typ, Typ::Any)),
        next: a.next,
    }
}

impl Exp {
    /// The first variable, going through the expression from left to right,
    /// that neither `env` nor a binder around it binds.
    pub fn unbound(&self, env: &Env) -> (r: Option<Id>)
        ensures
            r == self.first_unbound(env@.dom()),
        decreases *self,
    {
        match self {
            Exp::Lit(_) => None,
            Exp::Empty(_) => None,
            Exp::Var(x) => if env.binds(x) {
                None
            } else {
                Some(x.clone())
            },
            Exp::Fun(x, _, e) => {
                let inner = env.extended(x.clone(), Typ::Any);
                assert(inner@.dom() =~= env@.dom().insert(x@));
                e.unbound(&inner)
            },
            Exp::Fix(x, _, e) => {
                let inner = env.extended(x.clone(), Typ::Any);
                assert(inner@.dom() =~= env@.dom().insert(x@));
                e.unbound(&inner)
            },
            Exp::Let(x, e1, e2) => match e1.unbound(env) {
                Some(y) => Some(y),
                None => {
                    let inner = env.extended(x.clone(), Typ::Any);
                    assert(inner@.dom() =~= env@.dom().insert(x@));
                    e2.unbound(&inner)
                },
            },
            Exp::Coerce(_, _, e) => e.unbound(env),
            Exp::Not(e) => e.unbound(env),
            Exp::IsBool(e) => e.unbound(env),
            Exp::IsInt(e) => e.unbound(env),
            Exp::IsString(e) => e.unbound(env),
            Exp::IsList(e) => e.unbound(env),
            Exp::IsFun(e) => e.unbound(env),
            Exp::Head(e) => e.unbound(env),
            Exp::Tail(e) => e.unbound(env),
            Exp::IsEmpty(e) => e.unbound(env),
            Exp::App(e1, e2) => match e1.unbound(env) {
                Some(y) => Some(y),
                None => e2.unbound(env),
            },
            Exp::Add(e1, e2) => match e1.unbound(env) {
                Some(y) => Some(y),
                None => e2.unbound(env),
            },
            Exp::Mul(e1, e2) => match e1.unbound(env) {
                Some(y) => Some(y),
                None => e2.unbound(env),
            },
            Exp::IntEq(e1, e2) => match e1.unbound(env) {
                Some(y) => Some(y),
                None => e2.unbound(env),
            },
            Exp::Pair(e1, e2) => match e1.unbound(env) {
                Some(y) => Some(y),
                None => e2.unbound(env),
            },
            Exp::AddOverload(e1, e2) => match e1.unbound(env) {
                Some(y) => Some(y),
                None => e2.unbound(env),
            },
            Exp::Cons(e1, e2) => match e1.unbound(env) {
                Some(y) => Some(y),
                None => e2.unbound(env),
            },
            Exp::If(e1, e2, e3) => match e1.unbound(env) {
                Some(y) => Some(y),
                None => match e2.unbound(env) {
                    Some(y) => Some(y),
                    None => e3.unbound(env),
                },
            },
        }
    }
}

/// The state of one generation run: the supply of metavariables and the
/// preferences recorded so far.
pub struct Generator {
    pub supply: MetavarSupply,
    /// One preference for each coercion, in the order of insertion.
    pub soft: Vec<Formula>,
}

impl Generator {
    /// A generator that takes its metavariables from `supply` and has
    /// recorded no preference yet.
    pub fn new(supply: MetavarSupply) -> (g: Generator)
        ensures
            g.supply == supply,
            g.soft@ == Seq::<Formula>::empty(),
    {
        Generator { supply, soft: Vec::new() }
    }

    /// Wraps `exp` in a coercion from `t1` to `t2` and records the
    /// preference that the two types be equal.
    pub fn coerce(&mut self, t1: Typ, t2: Typ, exp: &mut Exp)
        ensures
            *final(exp) == coerced(t1, t2, *old(exp)),
            final(self).soft@ == old(self).soft@.push(preference(t1, t2)),
            final(self).supply == old(self).supply,
    {
        self.soft.push(Formula::Eq(t1.clone(), t2.clone()));
        let inner = exp.take();
        *exp = Exp::Coerce(t1, t2, Box::new(inner));
    }

    /// Wraps `exp`, whose type is `t1`, in a coercion to `t2` at a place
    /// that relies on `t2`, and returns what licenses the coercion.
    pub fn strengthen(&mut self, t1: Typ, t2: Typ, exp: &mut Exp) -> (phi: Formula)
        ensures
            phi == strengthen_formula(t1, t2),
            *final(exp) == coerced(t1, t2, *old(exp)),
            final(self).soft@ == old(self).soft@.push(preference(t1, t2)),
            final(self).supply == old(self).supply,
    {
        let any_to_any = Typ::Arr(Box::new(Typ::Any), Box::new(Typ::Any));
        let list_of_any = Typ::List(Box::new(Typ::Any));
        let coerce_case = Formula::Eq(t1.clone(), Typ::Any).and(
            Formula::IsList(t2.clone()).implies(Formula::Eq(t2.clone(), list_of_any)),
        ).and(Formula::IsArr(t2.clone()).implies(Formula::Eq(t2.clone(), any_to_any)));
        let dont_coerce_case = Formula::Eq(t1.clone(), t2.clone());
        self.coerce(t1, t2, exp);
        coerce_case.or(dont_coerce_case)
    }

    /// Wraps `exp`, whose type is `t1`, in a coercion to `t2` at a place
    /// that only hands the value on, and returns what licenses the coercion.
    pub fn weaken(&mut self, t1: Typ, t2: Typ, exp: &mut Exp) -> (phi: Formula)
        ensures
            phi == weaken_formula(t1, t2),
            *final(exp) == coerced(t1, t2, *old(exp)),
            final(self).soft@ == old(self).soft@.push(preference(t1, t2)),
            final(self).supply == old(self).supply,
    {
        let phi = Formula::Eq(t2.clone(), Typ::Any).or(Formula::Eq(t1.clone(), t2.clone()));
        self.coerce(t1, t2, exp);
        phi
    }

    /// Applies the typing rules to `exp` under `env`: inserts the coercions
    /// into `exp`, records their preferences and returns the type of `exp`
    /// with the constraint on a model. Before it changes anything it fails
    /// if a variable of `exp` is unbound, or else if the supply cannot give
    /// the metavariables that the rules take. The supply must be past the
    /// metavariables of `exp` and of `env`, so that what it gives is fresh.
    pub fn cgen(&mut self, env: &Env, exp: &mut Exp) -> (r: Result<(Typ, Formula), MigrationError>)
        requires
            old(exp).metavar_bound() <= old(self).supply.next,
            bounded_by(env@, old(self).supply.next as nat),
        ensures
            match r {
                Ok((t, phi)) => {
                    let g = old(exp).generated(env@, old(self).supply.next as nat);
                    &&& old(exp).first_unbound(env@.dom()) is None
                    &&& old(self).supply.has_room(old(exp).fresh_demand())
                    &&& t == g.typ
                    &&& phi == g.hard
                    &&& *final(exp) == g.tree
                    &&& final(self).soft@ == old(self).soft@ + g.soft
                    &&& final(self).supply.next == g.next
                },
                Err(e) => {
                    &&& *final(exp) == *old(exp)
                    &&& *final(self) == *old(self)
                    &&& match old(exp).first_unbound(env@.dom()) {
                        Some(x) => e == MigrationError::UnboundIdentifier(x),
                        None => e == MigrationError::MetavarsExhausted && !old(
                            self,
                        ).supply.has_room(old(exp).fresh_demand()),
                    }
                },
            },
    {
        match exp.unbound(env) {
            Some(x) => Err(MigrationError::UnboundIdentifier(x)),
            None => {
                let fits = match exp.demand() {
                    Some(count) => self.supply.room_for(count),
                    None => false,
                };
                if fits {
                    Ok(self.generate(env, exp))
                } else {
                    Err(MigrationError::MetavarsExhausted)
                }
            },
        }
    }

    /// Applies the typing rules to an expression whose variables are all
    /// bound, with a supply that is past the metavariables of `exp` and of
    /// `env` and can give the metavariables that the rules take: inserts
    /// the coercions into `exp`, records their preferences and returns the
    /// type of `exp` with the constraint on a model. Every metavariable of
    /// the result is below what the supply gives next.
    pub fn generate(&mut self, env: &Env, exp: &mut Exp) -> (r: (Typ, Formula))
        requires
            old(exp).first_unbound(env@.dom()) is None,
            old(self).supply.has_room(old(exp).fresh_demand()),
            old(exp).metavar_bound() <= old(self).supply.next,
            bounded_by(env@, old(self).supply.next as nat),
        ensures
            r.0 == old(exp).generated(env@, old(self).supply.next as nat).typ,
            r.1 == old(exp).generated(env@, old(self).supply.next as nat).hard,
            *final(exp) == old(exp).generated(env@, old(self).supply.next as nat).tree,
            final(self).soft@ == old(self).soft@ + old(exp).generated(
                env@,
                old(self).supply.next as nat,
            ).soft,
            final(self).supply.next == old(exp).generated(
                env@,
                old(self).supply.next as nat,
            ).next,
            final(self).supply.next == old(self).supply.next + old(exp).fresh_demand(),
            r.0.metavar_bound() <= final(self).supply.next,
            final(exp).metavar_bound() <= final(self).supply.next,
        decreases *old(exp),
    {
        let ghost before = self.soft@;
        let ghost start = self.supply.next as nat;
        let ghost scope = env@.dom();
        proof {
            lemma_generated_fresh(*exp, env@, start);
        }
        match exp {
            Exp::Lit(lit) => {
                assert(before + Seq::<Formula>::empty() =~= before);
                (lit.typ(), Formula::True)
            },
            Exp::Var(x) => {
                assert(before + Seq::<Formula>::empty() =~= before);
                match env.lookup(x) {
                    Some(t) => (t, Formula::True),
                    None => (Typ::Any, Formula::True),
                }
            },
            Exp::Empty(alpha) => {
                assert(before + Seq::<Formula>::empty() =~= before);
                (Typ::List(Box::new(alpha.clone())), Formula::True)
            },
            Exp::Fun(x, t, body) => {
                let inner = env.extended(x.clone(), t.clone());
                assert(inner@.dom() =~= scope.insert(x@));
                let (t_body, phi) = self.generate(&inner, &mut **body);
                (Typ::Arr(Box::new(t.clone()), Box::new(t_body)), phi)
            },
            Exp::Fix(x, t1, body) => {
                let inner = env.extended(x.clone(), t1.clone());
                assert(inner@.dom() =~= scope.insert(x@));
                let (t2, phi1) = self.generate(&inner, &mut **body);
                let phi2 = Formula::Eq(t1.clone(), t2);
                (t1.clone(), phi1.and(phi2))
            },
            Exp::App(e1, e2) => {
                let (t1, phi1) = self.generate(env, &mut **e1);
                let (t2, phi2) = self.generate(env, &mut **e2);
                let alpha = self.supply.next_metavar();
                let beta = self.supply.next_metavar();
                let arr = Typ::Arr(Box::new(alpha.clone()), Box::new(beta.clone()));
                let s = self.strengthen(t1, arr, &mut **e1);
                let w = self.weaken(t2, alpha, &mut **e2);
                assert(self.soft@ =~= before + old(exp).generated(env@, start).soft);
                (beta, phi1.and(phi2).and(s.and(w)))
            },
            Exp::Let(x, e1, e2) => {
                let (t1, phi1) = self.generate(env, &mut **e1);
                let inner = env.extended(x.clone(), t1);
                assert(inner@.dom() =~= scope.insert(x@));
                let (t2, phi2) = self.generate(&inner, &mut **e2);
                assert(self.soft@ =~= before + old(exp).generated(env@, start).soft);
                (t2, phi1.and(phi2))
            },
            Exp::Add(e1, e2) => {
                let (t1, phi1) = self.generate(env, &mut **e1);
                let (t2, phi2) = self.generate(env, &mut **e2);
                let s1 = self.strengthen(t1, Typ::Int, &mut **e1);
                let s2 = self.strengthen(t2, Typ::Int, &mut **e2);
                assert(self.soft@ =~= before + old(exp).generated(env@, start).soft);
                (Typ::Int, phi1.and(phi2).and(s1.and(s2)))
            },
            Exp::Mul(e1, e2) => {
                let (t1, phi1) = self.generate(env, &mut **e1);
                let (t2, phi2) = self.generate(env, &mut **e2);
                let s1 = self.strengthen(t1, Typ::Int, &mut **e1);
                let s2 = self.strengthen(t2, Typ::Int, &mut **e2);
                assert(self.soft@ =~= before + old(exp).generated(env@, start).soft);
                (Typ::Int, phi1.and(phi2).and(s1.and(s2)))
            },
            Exp::IntEq(e1, e2) => {
                let (t1, phi1) = self.generate(env, &mut **e1);
                let (t2, phi2) = self.generate(env, &mut **e2);
                let s1 = self.strengthen(t1, Typ::Int, &mut **e1);
                let s2 = self.strengthen(t2, Typ::Int, &mut **e2);
                assert(self.soft@ =~= before + old(exp).generated(env@, start).soft);
                (Typ::Bool, phi1.and(phi2).and(s1.and(s2)))
            },
            Exp::Not(e) => {
                let (t, phi1) = self.generate(env, &mut **e);
                let phi2 = self.strengthen(t, Typ::Bool, &mut **e);
                assert(self.soft@ =~= before + old(exp).generated(env@, start).soft);
                (Typ::Bool, phi1.and(phi2))
            },
            Exp::AddOverload(e1, e2) => {
                let (t1, phi1) = self.generate(env, &mut **e1);
                let (t2, phi2) = self.generate(env, &mut **e2);
                let alpha = self.supply.next_metavar();
                let w1 = self.weaken(t1, alpha.clone(), &mut **e1);
                let w2 = self.weaken(t2, alpha.clone(), &mut **e2);
                let valid_type = Formula::Eq(alpha.clone(), Typ::Int).or(
                    Formula::Eq(alpha.clone(), Typ::Str),
                ).or(Formula::Eq(alpha.clone(), Typ::Any));
                assert(self.soft@ =~= before + old(exp).generated(env@, start).soft);
                (alpha, phi1.and(phi2).and(valid_type).and(w1.and(w2)))
            },
            Exp::If(e1, e2, e3) => {
                let (t1, phi1) = self.generate(env, &mut **e1);
                let (t2, phi2) = self.generate(env, &mut **e2);
                let (t3, phi3) = self.generate(env, &mut **e3);
                let alpha = self.supply.next_metavar();
                let s = self.strengthen(t1, Typ::Bool, &mut **e1);
                let w2 = self.weaken(t2, alpha.clone(), &mut **e2);
                let w3 = self.weaken(t3, alpha.clone(), &mut **e3);
                assert(self.soft@ =~= before + old(exp).generated(env@, start).soft);
                (alpha, phi1.and(phi2).and(phi3).and(s.and(w2).and(w3)))
            },
            Exp::Pair(e1, e2) => {
                let (t1, phi1) = self.generate(env, &mut **e1);
                let (t2, phi2) = self.generate(env, &mut **e2);
                assert(self.soft@ =~= before + old(exp).generated(env@, start).soft);
                (Typ::Pair(Box::new(t1), Box::new(t2)), phi1.and(phi2))
            },
            Exp::Cons(e1, e2) => {
                let (t1, phi1) = self.generate(env, &mut **e1);
                let (t2, phi2) = self.generate(env, &mut **e2);
                let item_typ = self.supply.next_metavar();
                let list_typ = Typ::List(Box::new(item_typ.clone()));
                let s = self.strengthen(t2, list_typ.clone(), &mut **e2);
                let w = self.weaken(t1, item_typ, &mut **e1);
                assert(self.soft@ =~= before + old(exp).generated(env@, start).soft);
                (list_typ, phi1.and(phi2).and(s.and(w)))
            },
            Exp::Head(e) => {
                let (t, phi1) = self.generate(env, &mut **e);
                let alpha = self.supply.next_metavar();
                let phi2 = self.strengthen(t, Typ::List(Box::new(alpha.clone())), &mut **e);
                assert(self.soft@ =~= before + old(exp).generated(env@, start).soft);
                (alpha, phi1.and(phi2))
            },
            Exp::Tail(e) => {
                let (t, phi1) = self.generate(env, &mut **e);
                let alpha = self.supply.next_metavar();
                let list_alpha = Typ::List(Box::new(alpha));
                let phi2 = self.strengthen(t, list_alpha.clone(), &mut **e);
                assert(self.soft@ =~= before + old(exp).generated(env@, start).soft);
                (list_alpha, phi1.and(phi2))
            },
            Exp::IsEmpty(e) => {
                let (t, phi1) = self.generate(env, &mut **e);
                let alpha = self.supply.next_metavar();
                let list_alpha = Typ::List(Box::new(alpha));
                let phi2 = self.strengthen(t, list_alpha, &mut **e);
                assert(self.soft@ =~= before + old(exp).generated(env@, start).soft);
                (Typ::Bool, phi1.and(phi2))
            },
            Exp::IsBool(e) => {
                let (t, phi1) = self.generate(env, &mut **e);
                let phi2 = self.weaken(t, Typ::Any, &mut **e);
                assert(self.soft@ =~= before + old(exp).generated(env@, start).soft);
                (Typ::Bool, phi1.and(phi2))
            },
            Exp::IsInt(e) => {
                let (t, phi1) = self.generate(env, &mut **e);
                let phi2 = self.weaken(t, Typ::Any, &mut **e);
                assert(self.soft@ =~= before + old(exp).generated(env@, start).soft);
                (Typ::Bool, phi1.and(phi2))
            },
            Exp::IsString(e) => {
                let (t, phi1) = self.generate(env, &mut **e);
                let phi2 = self.weaken(t, Typ::Any, &mut **e);
                assert(self.soft@ =~= before + old(exp).generated(env@, start).soft);
                (Typ::Bool, phi1.and(phi2))
            },
            Exp::IsList(e) => {
                let (t, phi1) = self.generate(env, &mut **e);
                let phi2 = self.weaken(t, Typ::Any, &mut **e);
                assert(self.soft@ =~= before + old(exp).generated(env@, start).soft);
                (Typ::Bool, phi1.and(phi2))
            },
            Exp::IsFun(e) => {
                let (t, phi1) = self.generate(env, &mut **e);
                let phi2 = self.weaken(t, Typ::Any, &mut **e);
                assert(self.soft@ =~= before + old(exp).generated(env@, start).soft);
                (Typ::Bool, phi1.and(phi2))
            },
            Exp::Coerce(t1, t2, e) => {
                let (t3, phi) = self.generate(env, &mut **e);
                self.soft.push(Formula::Eq(t1.clone(), t2.clone()));
                assert(self.soft@ =~= before + old(exp).generated(env@, start).soft);
                (t2.clone(), phi.and(Formula::Eq(t1.clone(), t3)))
            },
        }
    }
}

} // verus!
