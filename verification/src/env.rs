//! Typing environments: persistent maps from variable names to types.

use crate::syntax::Typ;
use vstd::prelude::*;

verus! {

#[verifier::external_type_specification]
#[verifier::external_body]
#[verifier::reject_recursive_types(K)]
#[verifier::reject_recursive_types(V)]
#[verifier::reject_recursive_types(S)]
pub struct ExHashMap<K, V, S>(im_rc::HashMap<K, V, S>);

/// The bindings that a map from names to types holds.
pub uninterp spec fn env_bindings(map: im_rc::HashMap<String, Typ>) -> Map<Seq<char>, Typ>;

/// The map without bindings.
pub open spec fn no_bindings() -> Map<Seq<char>, Typ> {
    Map::empty()
}

/// `im_rc::HashMap::new`: the new map holds no binding.
#[verifier::external_body]
fn bindings_new() -> (map: im_rc::HashMap<String, Typ>)
    ensures
        env_bindings(map) == no_bindings(),
{
    im_rc::HashMap::new()
}

/// `im_rc::HashMap::get`: the type bound to the name, compared letter by
/// letter, if the map binds it.
#[verifier::external_body]
fn bindings_get<'a>(map: &'a im_rc::HashMap<String, Typ>, x: &String) -> (r: Option<&'a Typ>)
    ensures
        env_bindings(*map).contains_key(x@) ==> r == Some(&env_bindings(*map)[x@]),
        !env_bindings(*map).contains_key(x@) ==> r is None,
{
    map.get(x)
}

/// `im_rc::HashMap::update`: a new map that binds the name to the type and
/// is otherwise as the given one, which stays as it was.
#[verifier::external_body]
fn bindings_update(map: &im_rc::HashMap<String, Typ>, x: String, t: Typ) -> (r: im_rc::HashMap<
    String,
    Typ,
>)
    ensures
        env_bindings(r) == env_bindings(*map).insert(x@, t),
{
    map.update(x, t)
}

/// A typing environment. Extending one leaves the one it was made from as
/// it was.
pub struct Env {
    map: im_rc::HashMap<String, Typ>,
}

impl View for Env {
    type V = Map<Seq<char>, Typ>;

    closed spec fn view(&self) -> Map<Seq<char>, Typ> {
        env_bindings(self.map)
    }
}

impl Env {
    /// The environment that binds no name.
    pub fn new() -> (env: Env)
        ensures
            env@ == no_bindings(),
    {
        Env { map: bindings_new() }
    }

    /// The type that the environment gives to `x`, if it binds `x`.
    pub fn lookup(&self, x: &String) -> (r: Option<Typ>)
        ensures
            r == if self@.contains_key(x@) {
                Some(self@[x@])
            } else {
                None
            },
    {
        match bindings_get(&self.map, x) {
            Some(t) => Some(t.clone()),
            None => None,
        }
    }

    /// Whether the environment binds `x`.
    pub fn binds(&self, x: &String) -> (r: bool)
        ensures
            r == self@.contains_key(x@),
    {
        bindings_get(&self.map, x).is_some()
    }

    /// This environment with `x` bound to `t`.
    pub fn extended(&self, x: String, t: Typ) -> (env: Env)
        ensures
            env@ == self@.insert(x@, t),
    {
        Env { map: bindings_update(&self.map, x, t) }
    }
}

} // verus!
