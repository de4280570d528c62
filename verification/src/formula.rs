//! Constraints over types: what the generator asks of a solution.

use crate::annotate::annotate_typ;
use crate::solution::Solution;
use crate::syntax::Typ;
use vstd::prelude::*;
use vstd::std_specs::cmp::PartialEqSpecImpl;

verus! {

/// A constraint over types that may hold metavariables.
#[derive(Debug)]
pub enum Formula {
    True,
    /// The two types are the same.
    Eq(Typ, Typ),
    /// The type is a function type.
    IsArr(Typ),
    /// The type is a list type.
    IsList(Typ),
    And(Box<Formula>, Box<Formula>),
    Or(Box<Formula>, Box<Formula>),
    Implies(Box<Formula>, Box<Formula>),
}

impl Typ {
    /// The metavariables that occur in the type.
    pub open spec fn metavars(self) -> Set<u32>
        decreases self,
    {
        match self {
            Typ::Metavar(id) => set![id],
            Typ::Arr(a, b) => a.metavars().union(b.metavars()),
            Typ::Pair(a, b) => a.metavars().union(b.metavars()),
            Typ::List(a) => a.metavars(),
            _ => Set::empty(),
        }
    }
}

/// The metavariables that occur in the constraints.
pub open spec fn metavars_of(constraints: Seq<Formula>) -> Set<u32>
    decreases constraints.len(),
{
    if constraints.len() == 0 {
        Set::empty()
    } else {
        metavars_of(constraints.drop_last()).union(constraints.last().metavars())
    }
}

impl Formula {
    /// The metavariables that occur in the constraint.
    pub open spec fn metavars(self) -> Set<u32>
        decreases self,
    {
        match self {
            Formula::True => Set::empty(),
            Formula::Eq(a, b) => a.metavars().union(b.metavars()),
            Formula::IsArr(a) => a.metavars(),
            Formula::IsList(a) => a.metavars(),
            Formula::And(p, q) => p.metavars().union(q.metavars()),
            Formula::Or(p, q) => p.metavars().union(q.metavars()),
            Formula::Implies(p, q) => p.metavars().union(q.metavars()),
        }
    }

    /// The constraint asks of no type that it be a function or a list type.
    pub open spec fn is_test_free(self) -> bool
        decreases self,
    {
        match self {
            Formula::True => true,
            Formula::Eq(_, _) => true,
            Formula::IsArr(_) => false,
            Formula::IsList(_) => false,
            Formula::And(p, q) => p.is_test_free() && q.is_test_free(),
            Formula::Or(p, q) => p.is_test_free() && q.is_test_free(),
            Formula::Implies(p, q) => p.is_test_free() && q.is_test_free(),
        }
    }

    /// Whether the constraint holds once every metavariable has given way
    /// to the type that `choices` gives it.
    pub open spec fn holds(self, choices: Map<u32, Typ>) -> bool
        decreases self,
    {
        match self {
            Formula::True => true,
            Formula::Eq(a, b) => a.resolved(choices) == b.resolved(choices),
            Formula::IsArr(a) => a.resolved(choices) is Arr,
            Formula::IsList(a) => a.resolved(choices) is List,
            Formula::And(p, q) => p.holds(choices) && q.holds(choices),
            Formula::Or(p, q) => p.holds(choices) || q.holds(choices),
            Formula::Implies(p, q) => p.holds(choices) ==> q.holds(choices),
        }
    }

    /// The conjunction of two constraints.
    pub open spec fn spec_and(self, other: Formula) -> Formula {
        Formula::And(Box::new(self), Box::new(other))
    }

    /// The disjunction of two constraints.
    pub open spec fn spec_or(self, other: Formula) -> Formula {
        Formula::Or(Box::new(self), Box::new(other))
    }

    /// The constraint that `other` holds if this one does.
    pub open spec fn spec_implies(self, other: Formula) -> Formula {
        Formula::Implies(Box::new(self), Box::new(other))
    }

    /// The conjunction of two constraints.
    pub fn and(self, other: Formula) -> (f: Formula)
        ensures
            f == self.spec_and(other),
    {
        Formula::And(Box::new(self), Box::new(other))
    }

    /// The disjunction of two constraints.
    pub fn or(self, other: Formula) -> (f: Formula)
        ensures
            f == self.spec_or(other),
    {
        Formula::Or(Box::new(self), Box::new(other))
    }

    /// The constraint that `other` holds if this one does.
    pub fn implies(self, other: Formula) -> (f: Formula)
        ensures
            f == self.spec_implies(other),
    {
        Formula::Implies(Box::new(self), Box::new(other))
    }

    /// Whether the solution satisfies the constraint.
    pub fn eval(&self, solution: &Solution) -> (r: bool)
        ensures
            r == self.holds(solution@),
        decreases *self,
    {
        match self {
            Formula::True => true,
            Formula::Eq(a, b) => resolve(solution, a) == resolve(solution, b),
            Formula::IsArr(a) => resolve(solution, a).is_arr(),
            Formula::IsList(a) => resolve(solution, a).is_list(),
            Formula::And(p, q) => p.eval(solution) && q.eval(solution),
            Formula::Or(p, q) => p.eval(solution) || q.eval(solution),
            Formula::Implies(p, q) => !p.eval(solution) || q.eval(solution),
        }
    }
}

impl Clone for Formula {
    fn clone(&self) -> (r: Self)
        ensures
            r == *self,
        decreases *self,
    {
        match self {
            Formula::True => Formula::True,
            Formula::Eq(a, b) => Formula::Eq(a.clone(), b.clone()),
            Formula::IsArr(a) => Formula::IsArr(a.clone()),
            Formula::IsList(a) => Formula::IsList(a.clone()),
            Formula::And(p, q) => Formula::And(
                Box::new((&**p).clone()),
                Box::new((&**q).clone()),
            ),
            Formula::Or(p, q) => Formula::Or(Box::new((&**p).clone()), Box::new((&**q).clone())),
            Formula::Implies(p, q) => Formula::Implies(
                Box::new((&**p).clone()),
                Box::new((&**q).clone()),
            ),
        }
    }
}

impl PartialEq for Formula {
    fn eq(&self, other: &Self) -> (r: bool)
        decreases *self,
    {
        match (self, other) {
            (Formula::True, Formula::True) => true,
            (Formula::Eq(a, b), Formula::Eq(c, d)) => a.eq(c) && b.eq(d),
            (Formula::IsArr(a), Formula::IsArr(c)) => a.eq(c),
            (Formula::IsList(a), Formula::IsList(c)) => a.eq(c),
            (Formula::And(p, q), Formula::And(r, s)) => (&**p).eq(&**r) && (&**q).eq(&**s),
            (Formula::Or(p, q), Formula::Or(r, s)) => (&**p).eq(&**r) && (&**q).eq(&**s),
            (Formula::Implies(p, q), Formula::Implies(r, s)) => (&**p).eq(&**r) && (&**q).eq(
                &**s,
            ),
            _ => false,
        }
    }
}

impl PartialEqSpecImpl for Formula {
    open spec fn obeys_eq_spec() -> bool {
        true
    }

    open spec fn eq_spec(&self, other: &Self) -> bool {
        *self == *other
    }
}

/// The type that `t` stands for under the solution.
pub fn resolve(solution: &Solution, t: &Typ) -> (r: Typ)
    ensures
        r == t.resolved(solution@),
{
    let mut r = t.clone();
    annotate_typ(solution, &mut r);
    r
}

} // verus!
