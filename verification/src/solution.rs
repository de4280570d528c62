//! Solutions: the concrete types that a solver chose for metavariables.

use crate::syntax::Typ;
use vstd::prelude::*;

verus! {

/// The assignment that a map from metavariables to types holds.
pub uninterp spec fn solution_bindings(map: im_rc::HashMap<u32, Typ>) -> Map<u32, Typ>;

/// The assignment that chooses nothing.
pub open spec fn no_choices() -> Map<u32, Typ> {
    Map::empty()
}

/// Every type that the assignment chooses is free of metavariables.
pub open spec fn all_concrete(choices: Map<u32, Typ>) -> bool {
    forall|id: u32| #[trigger] choices.contains_key(id) ==> choices[id].is_concrete()
}

/// `im_rc::HashMap::new`: the new map holds no entry.
#[verifier::external_body]
fn choices_new() -> (map: im_rc::HashMap<u32, Typ>)
    ensures
        solution_bindings(map) == no_choices(),
{
    im_rc::HashMap::new()
}

/// `im_rc::HashMap::get`: the type stored under the number, if there is one.
#[verifier::external_body]
fn choices_get<'a>(map: &'a im_rc::HashMap<u32, Typ>, id: &u32) -> (r: Option<&'a Typ>)
    ensures
        solution_bindings(*map).contains_key(*id) ==> r == Some(&solution_bindings(*map)[*id]),
        !solution_bindings(*map).contains_key(*id) ==> r is None,
{
    map.get(id)
}

/// `im_rc::HashMap::update`: a new map that stores the type under the
/// number and is otherwise as the given one, which stays as it was.
#[verifier::external_body]
fn choices_update(map: &im_rc::HashMap<u32, Typ>, id: u32, t: Typ) -> (r: im_rc::HashMap<u32, Typ>)
    ensures
        solution_bindings(r) == solution_bindings(*map).insert(id, t),
{
    map.update(id, t)
}

/// A solution: for some metavariables, the concrete type that stands for
/// it. No type in a solution holds a metavariable.
pub struct Solution {
    map: im_rc::HashMap<u32, Typ>,
}

impl View for Solution {
    type V = Map<u32, Typ>;

    closed spec fn view(&self) -> Map<u32, Typ> {
        solution_bindings(self.map)
    }
}

impl Solution {
    #[verifier::type_invariant]
    spec fn concrete(self) -> bool {
        all_concrete(solution_bindings(self.map))
    }

    /// Every type of a solution is free of metavariables: calling this
    /// makes that known where it is called.
    pub fn known_concrete(&self)
        ensures
            all_concrete(self@),
    {
        proof {
            use_type_invariant(self);
        }
    }

    /// The solution that chooses nothing.
    pub fn new() -> (solution: Solution)
        ensures
            solution@ == no_choices(),
    {
        Solution { map: choices_new() }
    }

    /// Lets `t` stand for the metavariable `id`, provided that `t` holds no
    /// metavariable. Returns whether it did.
    pub fn bind(&mut self, id: u32, t: Typ) -> (done: bool)
        ensures
            done == t.is_concrete(),
            done ==> final(self)@ == old(self)@.insert(id, t),
            !done ==> final(self)@ == old(self)@,
    {
        proof {
            use_type_invariant(&*self);
        }
        if t.concrete() {
            self.map = choices_update(&self.map, id, t);
            true
        } else {
            false
        }
    }

    /// The type that stands for the metavariable `id`, if the solution chooses one.
    pub fn get(&self, id: u32) -> (r: Option<&Typ>)
        ensures
            r == if self@.contains_key(id) {
                Some(&self@[id])
            } else {
                None
            },
    {
        choices_get(&self.map, &id)
    }
}

} // verus!
