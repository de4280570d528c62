//! The supply of fresh metavariables of one inference run.

use crate::syntax::{Exp, Typ};
use vstd::prelude::*;

verus! {

/// A counter that hands out metavariables, each number once.
pub struct MetavarSupply {
    /// The number of the next metavariable. Above the largest number that
    /// a metavariable can have when the supply is used up.
    pub next: u64,
}

impl MetavarSupply {
    /// A supply whose first metavariable has the number `first`.
    pub fn starting_at(first: u32) -> (s: MetavarSupply)
        ensures
            s.next == first,
    {
        MetavarSupply { next: first as u64 }
    }

    /// A supply for the generation of `exp`: its metavariables are above
    /// those that occur in `exp`. None if the numbers do not reach.
    pub fn for_program(exp: &Exp) -> (r: Option<MetavarSupply>)
        ensures
            match r {
                Some(supply) => exp.fits() && supply.next == exp.metavar_bound(),
                None => !exp.fits(),
            },
    {
        let first: u64 = exp.metavar_limit();
        match exp.demand() {
            Some(count) => {
                if first + count <= ALL_METAVARS {
                    Some(MetavarSupply { next: first })
                } else {
                    None
                }
            },
            None => None,
        }
    }

    /// Whether `count` more metavariables can be handed out.
    pub fn room_for(&self, count: u64) -> (r: bool)
        ensures
            r == self.has_room(count as nat),
    {
        count <= ALL_METAVARS && self.next <= ALL_METAVARS && self.next + count <= ALL_METAVARS
    }

    /// Whether `count` more metavariables can be handed out.
    pub open spec fn has_room(self, count: nat) -> bool {
        self.next + count <= ALL_METAVARS
    }

    /// A metavariable that this supply has not handed out before.
    pub fn next_metavar(&mut self) -> (t: Typ)
        requires
            old(self).has_room(1),
        ensures
            t == Typ::Metavar(old(self).next as u32),
            final(self).next == old(self).next + 1,
    {
        let n: u64 = self.next;
        self.next = n + 1;
        Typ::Metavar(n as u32)
    }
}

impl Typ {
    /// One more than the largest metavariable in the type, 0 if it has none.
    pub open spec fn metavar_bound(self) -> nat
        decreases self,
    {
        match self {
            Typ::Metavar(n) => n as nat + 1,
            Typ::Arr(a, b) => spec_larger(a.metavar_bound(), b.metavar_bound()),
            Typ::Pair(a, b) => spec_larger(a.metavar_bound(), b.metavar_bound()),
            Typ::List(a) => a.metavar_bound(),
            _ => 0,
        }
    }

    /// One more than the largest metavariable in the type, 0 if it has none.
    pub fn metavar_limit(&self) -> (r: u64)
        ensures
            r == self.metavar_bound(),
            r <= ALL_METAVARS,
        decreases *self,
    {
        match self {
            Typ::Metavar(n) => (*n as u64) + 1,
            Typ::Arr(a, b) => larger(a.metavar_limit(), b.metavar_limit()),
            Typ::Pair(a, b) => larger(a.metavar_limit(), b.metavar_limit()),
            Typ::List(a) => a.metavar_limit(),
            _ => 0,
        }
    }
}

/// The larger of two bounds.
pub open spec fn spec_larger(a: nat, b: nat) -> nat {
    if a >= b {
        a
    } else {
        b
    }
}

/// The larger of two bounds.
pub fn larger(a: u64, b: u64) -> (r: u64)
    ensures
        r == spec_larger(a as nat, b as nat),
{
    if a >= b {
        a
    } else {
        b
    }
}

/// The largest number of metavariables that there are numbers for.
pub const ALL_METAVARS: u64 = 0x1_0000_0000;

/// The sum of two counts and `extra`, if each count is there and the sum
/// is no more than there are metavariables.
fn total(a: Option<u64>, b: Option<u64>, extra: u64) -> (r: Option<u64>)
    requires
        a matches Some(x) ==> x <= ALL_METAVARS,
        b matches Some(y) ==> y <= ALL_METAVARS,
        extra <= 2,
    ensures
        match r {
            Some(n) => a is Some && b is Some && n == a->0 + b->0 + extra && n <= ALL_METAVARS,
            None => a is None || b is None || a->0 + b->0 + extra > ALL_METAVARS,
        },
{
    match (a, b) {
        (Some(x), Some(y)) => {
            let sum: u64 = x + y + extra;
            if sum <= ALL_METAVARS {
                Some(sum)
            } else {
                None
            }
        },
        _ => None,
    }
}

impl Exp {
    /// One more than the largest metavariable in the expression, 0 if it has none.
    pub open spec fn metavar_bound(self) -> nat
        decreases self,
    {
        match self {
            Exp::Lit(_) => 0,
            Exp::Var(_) => 0,
            Exp::Empty(t) => t.metavar_bound(),
            Exp::Fun(_, t, e) => spec_larger(t.metavar_bound(), e.metavar_bound()),
            Exp::Fix(_, t, e) => spec_larger(t.metavar_bound(), e.metavar_bound()),
            Exp::Coerce(t1, t2, e) => spec_larger(
                spec_larger(t1.metavar_bound(), t2.metavar_bound()),
                e.metavar_bound(),
            ),
            Exp::Head(e) => e.metavar_bound(),
            Exp::Tail(e) => e.metavar_bound(),
            Exp::Not(e) => e.metavar_bound(),
            Exp::IsEmpty(e) => e.metavar_bound(),
            Exp::IsBool(e) => e.metavar_bound(),
            Exp::IsInt(e) => e.metavar_bound(),
            Exp::IsString(e) => e.metavar_bound(),
            Exp::IsList(e) => e.metavar_bound(),
            Exp::IsFun(e) => e.metavar_bound(),
            Exp::App(e1, e2) => spec_larger(e1.metavar_bound(), e2.metavar_bound()),
            Exp::Add(e1, e2) => spec_larger(e1.metavar_bound(), e2.metavar_bound()),
            Exp::AddOverload(e1, e2) => spec_larger(e1.metavar_bound(), e2.metavar_bound()),
            Exp::IntEq(e1, e2) => spec_larger(e1.metavar_bound(), e2.metavar_bound()),
            Exp::Cons(e1, e2) => spec_larger(e1.metavar_bound(), e2.metavar_bound()),
            Exp::Pair(e1, e2) => spec_larger(e1.metavar_bound(), e2.metavar_bound()),
            Exp::Mul(e1, e2) => spec_larger(e1.metavar_bound(), e2.metavar_bound()),
            Exp::Let(_, e1, e2) => spec_larger(e1.metavar_bound(), e2.metavar_bound()),
            Exp::If(e1, e2, e3) => spec_larger(
                spec_larger(e1.metavar_bound(), e2.metavar_bound()),
                e3.metavar_bound(),
            ),
        }
    }

    /// Whether there are numbers enough for the metavariables that the
    /// generation of the expression takes, above those that occur in it.
    pub open spec fn fits(self) -> bool {
        self.metavar_bound() + self.fresh_demand() <= ALL_METAVARS
    }

    /// One more than the largest metavariable in the expression, 0 if it has none.
    pub fn metavar_limit(&self) -> (r: u64)
        ensures
            r == self.metavar_bound(),
            r <= ALL_METAVARS,
        decreases *self,
    {
        match self {
            Exp::Lit(_) => 0,
            Exp::Var(_) => 0,
            Exp::Empty(t) => t.metavar_limit(),
            Exp::Fun(_, t, e) => larger(t.metavar_limit(), e.metavar_limit()),
            Exp::Fix(_, t, e) => larger(t.metavar_limit(), e.metavar_limit()),
            Exp::Coerce(t1, t2, e) => larger(
                larger(t1.metavar_limit(), t2.metavar_limit()),
                e.metavar_limit(),
            ),
            Exp::Head(e) => e.metavar_limit(),
            Exp::Tail(e) => e.metavar_limit(),
            Exp::Not(e) => e.metavar_limit(),
            Exp::IsEmpty(e) => e.metavar_limit(),
            Exp::IsBool(e) => e.metavar_limit(),
            Exp::IsInt(e) => e.metavar_limit(),
            Exp::IsString(e) => e.metavar_limit(),
            Exp::IsList(e) => e.metavar_limit(),
            Exp::IsFun(e) => e.metavar_limit(),
            Exp::App(e1, e2) => larger(e1.metavar_limit(), e2.metavar_limit()),
            Exp::Add(e1, e2) => larger(e1.metavar_limit(), e2.metavar_limit()),
            Exp::AddOverload(e1, e2) => larger(e1.metavar_limit(), e2.metavar_limit()),
            Exp::IntEq(e1, e2) => larger(e1.metavar_limit(), e2.metavar_limit()),
            Exp::Cons(e1, e2) => larger(e1.metavar_limit(), e2.metavar_limit()),
            Exp::Pair(e1, e2) => larger(e1.metavar_limit(), e2.metavar_limit()),
            Exp::Mul(e1, e2) => larger(e1.metavar_limit(), e2.metavar_limit()),
            Exp::Let(_, e1, e2) => larger(e1.metavar_limit(), e2.metavar_limit()),
            Exp::If(e1, e2, e3) => larger(
                larger(e1.metavar_limit(), e2.metavar_limit()),
                e3.metavar_limit(),
            ),
        }
    }

    /// The number of fresh metavariables that generation takes for the
    /// expression, if there are as many metavariables.
    pub fn demand(&self) -> (r: Option<u64>)
        ensures
            match r {
                Some(n) => n == self.fresh_demand() && n <= ALL_METAVARS,
                None => self.fresh_demand() > ALL_METAVARS,
            },
        decreases *self,
    {
        match self {
            Exp::Lit(_) => Some(0),
            Exp::Var(_) => Some(0),
            Exp::Empty(_) => Some(0),
            Exp::Fun(_, _, e) => e.demand(),
            Exp::Fix(_, _, e) => e.demand(),
            Exp::Coerce(_, _, e) => e.demand(),
            Exp::Not(e) => e.demand(),
            Exp::IsBool(e) => e.demand(),
            Exp::IsInt(e) => e.demand(),
            Exp::IsString(e) => e.demand(),
            Exp::IsList(e) => e.demand(),
            Exp::IsFun(e) => e.demand(),
            Exp::Head(e) => total(e.demand(), Some(0), 1),
            Exp::Tail(e) => total(e.demand(), Some(0), 1),
            Exp::IsEmpty(e) => total(e.demand(), Some(0), 1),
            Exp::App(e1, e2) => total(e1.demand(), e2.demand(), 2),
            Exp::Let(_, e1, e2) => total(e1.demand(), e2.demand(), 0),
            Exp::Add(e1, e2) => total(e1.demand(), e2.demand(), 0),
            Exp::Mul(e1, e2) => total(e1.demand(), e2.demand(), 0),
            Exp::IntEq(e1, e2) => total(e1.demand(), e2.demand(), 0),
            Exp::Pair(e1, e2) => total(e1.demand(), e2.demand(), 0),
            Exp::AddOverload(e1, e2) => total(e1.demand(), e2.demand(), 1),
            Exp::Cons(e1, e2) => total(e1.demand(), e2.demand(), 1),
            Exp::If(e1, e2, e3) => total(total(e1.demand(), e2.demand(), 0), e3.demand(), 1),
        }
    }
}

} // verus!
