//! Types and constraints as terms of the solver, and the solver's values
//! as types again.

use crate::backend::{
    answer_home, assert_hard, assert_soft, belongs, builder_arities, builder_finish,
    builder_names, builder_new, builder_variant, conjunction, constant, construct, context_key,
    disjunction, equal, eval_prop, eval_term, family_arities, family_home, field_of, fresh_term,
    hard_assertions, implication, is_name, model_of, optimize_home, optimize_new, project,
    prop_form, prop_home, prop_value, recognize, soft_assertions, term_clone, term_form,
    term_value, tester_of, truth_of, truth_value, PropForm, TermForm, Verdict,
};
use crate::formula::{metavars_of, Formula};
use crate::solution::Solution;
use crate::syntax::Typ;
use vstd::prelude::*;

verus! {

/// The place of the variant for `Int` in the declaration of the datatype of types.
pub const INT: usize = 0;

/// The place of the variant for `Bool`.
pub const BOOL: usize = 1;

/// The place of the variant for `Str`.
pub const STR: usize = 2;

/// The place of the variant for `Any`.
pub const ANY: usize = 3;

/// The place of the variant for function types, with domain and range.
pub const ARR: usize = 4;

/// The place of the variant for list types, with the type of the elements.
pub const LIST: usize = 5;

/// The place of the variant for pair types, with the types of both parts.
pub const PAIR: usize = 6;

/// How deep a type that the solver chose can be nested and still be read.
pub(crate) const DEPTH_LIMIT: u64 = 0xffff_ffff_ffff_ffff;

/// The number of fields of each variant of the datatype of types.
pub open spec fn type_arities() -> Seq<nat> {
    seq![0, 0, 0, 0, 2, 1, 2]
}

/// The places of the terms that stand for metavariables.
pub uninterp spec fn slot_bindings(map: im_rc::HashMap<u32, usize>) -> Map<u32, usize>;

/// The map that gives no metavariable a place.
pub open spec fn no_slots() -> Map<u32, usize> {
    Map::empty()
}

/// `im_rc::HashMap::new`: the new map holds no entry.
#[verifier::external_body]
fn slots_new() -> (map: im_rc::HashMap<u32, usize>)
    ensures
        slot_bindings(map) == no_slots(),
{
    im_rc::HashMap::new()
}

/// `im_rc::HashMap::get`: the place stored under the number, if there is one.
#[verifier::external_body]
fn slots_get(map: &im_rc::HashMap<u32, usize>, id: &u32) -> (r: Option<usize>)
    ensures
        slot_bindings(*map).contains_key(*id) ==> r == Some(slot_bindings(*map)[*id]),
        !slot_bindings(*map).contains_key(*id) ==> r is None,
{
    map.get(id).copied()
}

/// `im_rc::HashMap::update`: a new map that stores the place under the
/// number and is otherwise as the given one, which stays as it was.
#[verifier::external_body]
fn slots_update(map: &im_rc::HashMap<u32, usize>, id: u32, place: usize) -> (r: im_rc::HashMap<
    u32,
    usize,
>)
    ensures
        slot_bindings(r) == slot_bindings(*map).insert(id, place),
{
    map.update(id, place)
}

/// Declares the datatype of types in the context: a variant for each of
/// `Int`, `Bool`, `Str` and `Any`, and one each for function, list and pair
/// types, whose fields hold types.
pub(crate) fn declare_types<'ctx>(ctx: &'ctx z3::Context) -> (family: z3::DatatypeSort<'ctx>)
    ensures
        family_home(family) == context_key(*ctx),
        family_arities(family) == type_arities(),
{
    proof {
        reveal_strlit("Typ");
        reveal_strlit("Int");
        reveal_strlit("Bool");
        reveal_strlit("Str");
        reveal_strlit("Any");
        reveal_strlit("Arr");
        reveal_strlit("arg");
        reveal_strlit("ret");
        reveal_strlit("List");
        reveal_strlit("item");
        reveal_strlit("Pair");
        reveal_strlit("fst");
        reveal_strlit("snd");
    }
    let b = builder_new(ctx, "Typ");
    let b = builder_variant(b, "Typ", "Int", Vec::new());
    let b = builder_variant(b, "Typ", "Bool", Vec::new());
    let b = builder_variant(b, "Typ", "Str", Vec::new());
    let b = builder_variant(b, "Typ", "Any", Vec::new());
    let b = builder_variant(b, "Typ", "Arr", vec!["arg", "ret"]);
    let b = builder_variant(b, "Typ", "List", vec!["item"]);
    let b = builder_variant(b, "Typ", "Pair", vec!["fst", "snd"]);
    proof {
        let names = seq![
            "Int"@,
            "Bool"@,
            "Str"@,
            "Any"@,
            "Arr"@,
            "arg"@,
            "ret"@,
            "List"@,
            "item"@,
            "Pair"@,
            "fst"@,
            "snd"@,
        ];
        assert(builder_names(b) =~= names);
        assert(names[0][0] == 'I' && names[1][0] == 'B' && names[2][0] == 'S');
        assert(names[3][0] == 'A' && names[3][1] == 'n');
        assert(names[4][0] == 'A' && names[4][1] == 'r');
        assert(names[5][0] == 'a' && names[6][0] == 'r' && names[7][0] == 'L');
        assert(names[8][0] == 'i' && names[9][0] == 'P' && names[10][0] == 'f');
        assert(names[11][0] == 's');
        assert forall|i: int, j: int| 0 <= i < names.len() && 0 <= j < names.len() && i != j
            implies names[i] != names[j] by {
            if names[i] == names[j] {
                assert(names[i][0] == names[j][0]);
                assert(names[i][1] == names[j][1]);
            }
        }
        assert("Typ"@[0] == 'T');
        assert forall|i: int| 0 <= i < names.len() implies is_name(#[trigger] names[i]) by {
            let name = names[i];
            assert forall|k: int| 0 <= k < name.len() implies name[k] != '\0' by {}
        }
        assert(builder_arities(b) =~= type_arities());
        assert(builder_arities(b)[0] == 0);
    }
    builder_finish(b)
}

/// The constraints, each as a preference of the given weight.
pub open spec fn weighted(constraints: Seq<Formula>, weight: u32) -> Seq<(Formula, u32)> {
    constraints.map_values(|f: Formula| (f, weight))
}

/// One session with the solver: the datatype of types, the optimizer, and
/// the term that stands for each metavariable met so far.
pub(crate) struct Codec<'ctx> {
    ctx: &'ctx z3::Context,
    family: z3::DatatypeSort<'ctx>,
    optimizer: z3::Optimize<'ctx>,
    /// For each metavariable met so far, the place of its term in `terms`.
    slots: im_rc::HashMap<u32, usize>,
    /// The metavariables met so far, in the order in which they were met.
    ids: Vec<u32>,
    /// The term of each metavariable in `ids`, in the same order.
    terms: Vec<z3::ast::Dynamic<'ctx>>,
    /// The constraints that the optimizer has been told to satisfy, in order.
    hard: Ghost<Seq<Formula>>,
    /// The constraints that the optimizer has been told to satisfy if it
    /// can, each with its weight, in order.
    soft: Ghost<Seq<(Formula, u32)>>,
}

impl<'ctx> Codec<'ctx> {
    /// Everything in the session lives in its one context, the datatype
    /// has the variants of types, each metavariable that has a place has a
    /// term of the datatype there, and what the optimizer has been told
    /// stands, proposition by proposition, for the constraints asked.
    pub(crate) closed spec fn wf(&self) -> bool {
        &&& self.settled()
        &&& self.posed()
    }

    /// What the optimizer has been told stands, proposition by proposition
    /// and in the same order, for the constraints asked, each preference
    /// with its weight.
    pub(crate) closed spec fn posed(&self) -> bool {
        &&& hard_assertions(self.optimizer).len() == self.hard@.len()
        &&& forall|j: int|
            0 <= j < self.hard@.len() ==> self.states(
                #[trigger] hard_assertions(self.optimizer)[j],
                self.hard@[j],
            )
        &&& soft_assertions(self.optimizer).len() == self.soft@.len()
        &&& forall|j: int|
            0 <= j < self.soft@.len() ==> self.states(
                (#[trigger] soft_assertions(self.optimizer)[j]).0,
                self.soft@[j].0,
            ) && soft_assertions(self.optimizer)[j].1 == self.soft@[j].1
    }

    /// The constraints that the optimizer has been told to satisfy, in order.
    pub(crate) closed spec fn asked_hard(&self) -> Seq<Formula> {
        self.hard@
    }

    /// The constraints that the optimizer has been told to satisfy if it
    /// can, each with its weight, in order.
    pub(crate) closed spec fn asked_soft(&self) -> Seq<(Formula, u32)> {
        self.soft@
    }

    /// Everything in the session lives in its one context, the datatype
    /// has the variants of types, and each metavariable that has a place
    /// has a term of the datatype there.
    pub(crate) closed spec fn settled(&self) -> bool {
        &&& family_home(self.family) == context_key(*self.ctx)
        &&& optimize_home(self.optimizer) == context_key(*self.ctx)
        &&& family_arities(self.family) == type_arities()
        &&& self.ids@.len() == self.terms@.len()
        &&& forall|i: int|
            0 <= i < self.terms@.len() ==> belongs(#[trigger] self.terms@[i], self.family)
        &&& forall|id: u32| #[trigger]
            slot_bindings(self.slots).contains_key(id) ==> slot_bindings(self.slots)[id]
                < self.terms@.len() && self.ids@[slot_bindings(self.slots)[id] as int] == id
        &&& forall|i: int|
            0 <= i < self.ids@.len() ==> slot_bindings(self.slots).contains_key(
                #[trigger] self.ids@[i],
            )
    }

    /// The metavariables met so far.
    pub(crate) closed spec fn known(&self) -> Set<u32> {
        slot_bindings(self.slots).dom()
    }

    /// The term that stands for the metavariable `id`, once it has been met.
    pub(crate) closed spec fn symbol(&self, id: u32) -> z3::ast::Dynamic<'ctx> {
        self.terms@[slot_bindings(self.slots)[id] as int]
    }

    /// The session goes on from `earlier`: the context and the datatype
    /// are the same, and each metavariable that had been met then still
    /// stands for the same term.
    pub(crate) open spec fn extends(&self, earlier: &Codec<'ctx>) -> bool {
        &&& self.continues(earlier)
        &&& self.extends_table(earlier)
    }

    /// Each metavariable that had been met at `earlier` still stands for
    /// the same term.
    pub(crate) open spec fn extends_table(&self, earlier: &Codec<'ctx>) -> bool {
        forall|id: u32| #[trigger]
            earlier.known().contains(id) ==> self.known().contains(id) && self.symbol(id)
                == earlier.symbol(id)
    }

    /// The context and the datatype of the session are those of `earlier`.
    pub(crate) closed spec fn continues(&self, earlier: &Codec<'ctx>) -> bool {
        &&& self.ctx == earlier.ctx
        &&& self.family == earlier.family
    }

    /// The optimizer has been told nothing since `earlier`.
    pub(crate) closed spec fn asks_as(&self, earlier: &Codec<'ctx>) -> bool {
        &&& self.optimizer == earlier.optimizer
        &&& self.hard@ == earlier.hard@
        &&& self.soft@ == earlier.soft@
    }

    /// What stood for the constraints asked still does when the session has
    /// gone on without a word to the optimizer.
    pub(crate) proof fn lemma_posed_kept(&self, earlier: &Codec<'ctx>)
        requires
            self.extends(earlier),
            self.asks_as(earlier),
            earlier.posed(),
        ensures
            self.posed(),
    {
        assert forall|j: int| 0 <= j < self.hard@.len() implies self.states(
            #[trigger] hard_assertions(self.optimizer)[j],
            self.hard@[j],
        ) by {
            self.lemma_states_kept(earlier, hard_assertions(self.optimizer)[j], self.hard@[j]);
        }
        assert forall|j: int| 0 <= j < self.soft@.len() implies self.states(
            (#[trigger] soft_assertions(self.optimizer)[j]).0,
            self.soft@[j].0,
        ) by {
            self.lemma_states_kept(
                earlier,
                soft_assertions(self.optimizer)[j].0,
                self.soft@[j].0,
            );
        }
    }

    /// The context of the session.
    pub(crate) closed spec fn home(&self) -> int {
        context_key(*self.ctx)
    }

    /// The term is a type of this session.
    pub(crate) closed spec fn owns(&self, t: z3::ast::Dynamic<'ctx>) -> bool {
        belongs(t, self.family)
    }

    /// The term stands for the type: it is made of the variants of the
    /// datatype as the type is made of its constructors, with the term of
    /// this session for each metavariable.
    pub(crate) closed spec fn encodes(&self, term: z3::ast::Dynamic<'ctx>, t: Typ) -> bool
        decreases t,
    {
        match t {
            Typ::Int => term_form(term) == TermForm::Apply(INT, Seq::empty()),
            Typ::Bool => term_form(term) == TermForm::Apply(BOOL, Seq::empty()),
            Typ::Str => term_form(term) == TermForm::Apply(STR, Seq::empty()),
            Typ::Any => term_form(term) == TermForm::Apply(ANY, Seq::empty()),
            Typ::Arr(a, b) => {
                &&& term_form(term) matches TermForm::Apply(variant, args)
                &&& variant == ARR
                &&& args.len() == 2
                &&& self.encodes(args[0], *a)
                &&& self.encodes(args[1], *b)
            },
            Typ::List(a) => {
                &&& term_form(term) matches TermForm::Apply(variant, args)
                &&& variant == LIST
                &&& args.len() == 1
                &&& self.encodes(args[0], *a)
            },
            Typ::Pair(a, b) => {
                &&& term_form(term) matches TermForm::Apply(variant, args)
                &&& variant == PAIR
                &&& args.len() == 2
                &&& self.encodes(args[0], *a)
                &&& self.encodes(args[1], *b)
            },
            Typ::Metavar(id) => self.known().contains(id) && term == self.symbol(id),
        }
    }

    /// The proposition stands for the constraint: it is made of the
    /// solver's connectives as the constraint is made of its own, over
    /// terms that stand for the types of the constraint.
    pub(crate) closed spec fn states(&self, p: z3::ast::Bool<'ctx>, f: Formula) -> bool
        decreases f,
    {
        match f {
            Formula::True => prop_form(p) == PropForm::Truth(true),
            Formula::Eq(a, b) => {
                &&& prop_form(p) matches PropForm::Equal(x, y)
                &&& self.encodes(x, a)
                &&& self.encodes(y, b)
            },
            Formula::IsArr(a) => {
                &&& prop_form(p) matches PropForm::Tests(variant, x)
                &&& variant == ARR
                &&& self.encodes(x, a)
                &&& tester_of(self.family, ARR, x) == Some(p)
            },
            Formula::IsList(a) => {
                &&& prop_form(p) matches PropForm::Tests(variant, x)
                &&& variant == LIST
                &&& self.encodes(x, a)
                &&& tester_of(self.family, LIST, x) == Some(p)
            },
            Formula::And(g, h) => {
                &&& prop_form(p) matches PropForm::And(x, y)
                &&& self.states(x, *g)
                &&& self.states(y, *h)
            },
            Formula::Or(g, h) => {
                &&& prop_form(p) matches PropForm::Or(x, y)
                &&& self.states(x, *g)
                &&& self.states(y, *h)
            },
            Formula::Implies(g, h) => {
                &&& prop_form(p) matches PropForm::Implies(x, y)
                &&& self.states(x, *g)
                &&& self.states(y, *h)
            },
        }
    }

    /// The constraint asks whether a type is a function or a list type, and
    /// the bindings take what the tester makes of a term that stands for
    /// that type for no proposition.
    pub(crate) closed spec fn refused(&self, f: Formula) -> bool
        decreases f,
    {
        match f {
            Formula::True => false,
            Formula::Eq(_, _) => false,
            Formula::IsArr(a) => exists|x: z3::ast::Dynamic<'ctx>|
                #[trigger] self.encodes(x, a) && tester_of(self.family, ARR, x) is None,
            Formula::IsList(a) => exists|x: z3::ast::Dynamic<'ctx>|
                #[trigger] self.encodes(x, a) && tester_of(self.family, LIST, x) is None,
            Formula::And(g, h) => self.refused(*g) || self.refused(*h),
            Formula::Or(g, h) => self.refused(*g) || self.refused(*h),
            Formula::Implies(g, h) => self.refused(*g) || self.refused(*h),
        }
    }

    /// A session that goes on from one that went on from `earlier` goes on
    /// from `earlier`.
    pub(crate) proof fn lemma_extends_on(&self, between: &Codec<'ctx>, earlier: &Codec<'ctx>)
        requires
            self.extends(between),
            between.extends(earlier),
        ensures
            self.extends(earlier),
    {
        assert forall|id: u32| #[trigger] earlier.known().contains(id) implies self.known()
            .contains(id) && self.symbol(id) == earlier.symbol(id) by {
            assert(between.known().contains(id));
        }
    }

    /// A constraint without a question after the shape of a type is never refused.
    pub(crate) proof fn lemma_test_free_taken(&self, f: Formula)
        requires
            f.is_test_free(),
        ensures
            !self.refused(f),
        decreases f,
    {
        match f {
            Formula::And(g, h) => {
                self.lemma_test_free_taken(*g);
                self.lemma_test_free_taken(*h);
            },
            Formula::Or(g, h) => {
                self.lemma_test_free_taken(*g);
                self.lemma_test_free_taken(*h);
            },
            Formula::Implies(g, h) => {
                self.lemma_test_free_taken(*g);
                self.lemma_test_free_taken(*h);
            },
            _ => {},
        }
    }

    /// A term that stood for a type still does when the session has gone on.
    pub(crate) proof fn lemma_encodes_kept(
        &self,
        earlier: &Codec<'ctx>,
        term: z3::ast::Dynamic<'ctx>,
        t: Typ,
    )
        requires
            self.extends(earlier),
            earlier.encodes(term, t),
        ensures
            self.encodes(term, t),
        decreases t,
    {
        match t {
            Typ::Arr(a, b) => {
                let args = term_form(term)->Apply_1;
                self.lemma_encodes_kept(earlier, args[0], *a);
                self.lemma_encodes_kept(earlier, args[1], *b);
            },
            Typ::Pair(a, b) => {
                let args = term_form(term)->Apply_1;
                self.lemma_encodes_kept(earlier, args[0], *a);
                self.lemma_encodes_kept(earlier, args[1], *b);
            },
            Typ::List(a) => {
                let args = term_form(term)->Apply_1;
                self.lemma_encodes_kept(earlier, args[0], *a);
            },
            _ => {},
        }
    }

    /// A proposition that stood for a constraint still does when the
    /// session has gone on.
    pub(crate) proof fn lemma_states_kept(
        &self,
        earlier: &Codec<'ctx>,
        p: z3::ast::Bool<'ctx>,
        f: Formula,
    )
        requires
            self.extends(earlier),
            earlier.states(p, f),
        ensures
            self.states(p, f),
        decreases f,
    {
        match f {
            Formula::True => {},
            Formula::Eq(a, b) => {
                self.lemma_encodes_kept(earlier, prop_form(p)->Equal_0, a);
                self.lemma_encodes_kept(earlier, prop_form(p)->Equal_1, b);
            },
            Formula::IsArr(a) => {
                self.lemma_encodes_kept(earlier, prop_form(p)->Tests_1, a);
            },
            Formula::IsList(a) => {
                self.lemma_encodes_kept(earlier, prop_form(p)->Tests_1, a);
            },
            Formula::And(g, h) => {
                self.lemma_states_kept(earlier, prop_form(p)->And_0, *g);
                self.lemma_states_kept(earlier, prop_form(p)->And_1, *h);
            },
            Formula::Or(g, h) => {
                self.lemma_states_kept(earlier, prop_form(p)->Or_0, *g);
                self.lemma_states_kept(earlier, prop_form(p)->Or_1, *h);
            },
            Formula::Implies(g, h) => {
                self.lemma_states_kept(earlier, prop_form(p)->Implies_0, *g);
                self.lemma_states_kept(earlier, prop_form(p)->Implies_1, *h);
            },
        }
    }

    /// A session in the context, with the datatype of types declared, no
    /// assertion made and no metavariable met.
    pub(crate) fn new(ctx: &'ctx z3::Context) -> (codec: Codec<'ctx>)
        ensures
            codec.wf(),
            codec.known() == Set::<u32>::empty(),
            codec.asked_hard() == Seq::<Formula>::empty(),
            codec.asked_soft() == Seq::<(Formula, u32)>::empty(),
    {
        let family = declare_types(ctx);
        let optimizer = optimize_new(ctx);
        Codec {
            ctx,
            family,
            optimizer,
            slots: slots_new(),
            ids: Vec::new(),
            terms: Vec::new(),
            hard: Ghost(Seq::empty()),
            soft: Ghost(Seq::empty()),
        }
    }

    /// The term for the metavariable `id`: the one made when `id` was first
    /// met, or a new constant if it is met now.
    fn encode_metavar(&mut self, id: u32) -> (r: z3::ast::Dynamic<'ctx>)
        requires
            old(self).wf(),
        ensures
            final(self).wf(),
            final(self).extends(old(self)),
            final(self).asks_as(old(self)),
            final(self).owns(r),
            final(self).known() == old(self).known().insert(id),
            r == final(self).symbol(id),
    {
        let ghost earlier = *self;
        match slots_get(&self.slots, &id) {
            Some(place) => term_clone(&self.terms[place]),
            None => {
                proof {
                    reveal_strlit("metavar");
                }
                let term = fresh_term(self.ctx, "metavar", &self.family);
                let place = self.terms.len();
                self.slots = slots_update(&self.slots, id, place);
                self.ids.push(id);
                self.terms.push(term_clone(&term));
                proof {
                    assert(self.extends(&earlier));
                    self.lemma_posed_kept(&earlier);
                }
                term
            },
        }
    }

    /// The term that stands for the type. A metavariable stands for the
    /// same constant wherever it occurs.
    pub(crate) fn encode_typ(&mut self, t: &Typ) -> (r: z3::ast::Dynamic<'ctx>)
        requires
            old(self).wf(),
        ensures
            final(self).wf(),
            final(self).extends(old(self)),
            final(self).asks_as(old(self)),
            final(self).owns(r),
            final(self).known() == old(self).known().union(t.metavars()),
            final(self).encodes(r, *t),
        decreases *t,
    {
        match t {
            Typ::Int => construct(&self.family, INT, Vec::new()),
            Typ::Bool => construct(&self.family, BOOL, Vec::new()),
            Typ::Str => construct(&self.family, STR, Vec::new()),
            Typ::Any => construct(&self.family, ANY, Vec::new()),
            Typ::Arr(a, b) => {
                let x = self.encode_typ(a);
                let ghost between = *self;
                let y = self.encode_typ(b);
                proof {
                    self.lemma_encodes_kept(&between, x, **a);
                }
                construct(&self.family, ARR, vec![x, y])
            },
            Typ::List(a) => {
                let x = self.encode_typ(a);
                construct(&self.family, LIST, vec![x])
            },
            Typ::Pair(a, b) => {
                let x = self.encode_typ(a);
                let ghost between = *self;
                let y = self.encode_typ(b);
                proof {
                    self.lemma_encodes_kept(&between, x, **a);
                }
                construct(&self.family, PAIR, vec![x, y])
            },
            Typ::Metavar(id) => self.encode_metavar(*id),
        }
    }

    /// The proposition that stands for the constraint. Nothing only where
    /// the constraint asks whether a type is a function or a list type and
    /// the bindings take what the tester makes of the type's term for no
    /// proposition.
    pub(crate) fn encode_formula(&mut self, f: &Formula) -> (r: Option<z3::ast::Bool<'ctx>>)
        requires
            old(self).wf(),
        ensures
            final(self).wf(),
            final(self).extends(old(self)),
            final(self).asks_as(old(self)),
            r is None ==> final(self).refused(*f),
            f.is_test_free() ==> r is Some,
            r matches Some(p) ==> prop_home(p) == final(self).home(),
            r matches Some(p) ==> final(self).states(p, *f),
            r is Some ==> final(self).known() == old(self).known().union(f.metavars()),
        decreases *f,
    {
        proof {
            if f.is_test_free() {
                self.lemma_test_free_taken(*f);
            }
        }
        match f {
            Formula::True => Some(constant(self.ctx, true)),
            Formula::Eq(a, b) => {
                let x = self.encode_typ(a);
                let ghost between = *self;
                let y = self.encode_typ(b);
                proof {
                    self.lemma_encodes_kept(&between, x, *a);
                }
                Some(equal(&x, &y))
            },
            Formula::IsArr(a) => {
                let x = self.encode_typ(a);
                recognize(&self.family, ARR, &x)
            },
            Formula::IsList(a) => {
                let x = self.encode_typ(a);
                recognize(&self.family, LIST, &x)
            },
            Formula::And(p, q) => {
                let x = self.encode_formula(p)?;
                let ghost between = *self;
                let y = self.encode_formula(q)?;
                proof {
                    self.lemma_states_kept(&between, x, **p);
                }
                Some(conjunction(self.ctx, &x, &y))
            },
            Formula::Or(p, q) => {
                let x = self.encode_formula(p)?;
                let ghost between = *self;
                let y = self.encode_formula(q)?;
                proof {
                    self.lemma_states_kept(&between, x, **p);
                }
                Some(disjunction(self.ctx, &x, &y))
            },
            Formula::Implies(p, q) => {
                let x = self.encode_formula(p)?;
                let ghost between = *self;
                let y = self.encode_formula(q)?;
                proof {
                    self.lemma_states_kept(&between, x, **p);
                }
                Some(implication(&x, &y))
            },
        }
    }

    /// Asserts the constraint: every model must satisfy it. Returns whether
    /// the solver took it, which it does at least where the constraint asks
    /// of no type that it be a function or a list type.
    pub(crate) fn require(&mut self, f: &Formula) -> (taken: bool)
        requires
            old(self).wf(),
        ensures
            final(self).wf(),
            final(self).extends(old(self)),
            !taken ==> final(self).refused(*f),
            f.is_test_free() ==> taken,
            taken ==> final(self).known() == old(self).known().union(f.metavars()),
            taken ==> final(self).asked_hard() == old(self).asked_hard().push(*f),
            !taken ==> final(self).asked_hard() == old(self).asked_hard(),
            final(self).asked_soft() == old(self).asked_soft(),
    {
        match self.encode_formula(f) {
            Some(p) => {
                let ghost before = *self;
                assert_hard(&mut self.optimizer, &p);
                proof {
                    self.hard@ = self.hard@.push(*f);
                    assert(self.posed()) by {
                        assert(before.posed());
                        assert forall|j: int| 0 <= j < self.hard@.len() implies self.states(
                            #[trigger] hard_assertions(self.optimizer)[j],
                            self.hard@[j],
                        ) by {
                            if j < before.hard@.len() {
                                assert(before.states(
                                    hard_assertions(before.optimizer)[j],
                                    before.hard@[j],
                                ));
                                self.lemma_states_same(
                                    &before,
                                    hard_assertions(before.optimizer)[j],
                                    before.hard@[j],
                                );
                            } else {
                                self.lemma_states_same(&before, p, *f);
                            }
                        }
                        assert forall|j: int| 0 <= j < self.soft@.len() implies self.states(
                            (#[trigger] soft_assertions(self.optimizer)[j]).0,
                            self.soft@[j].0,
                        ) && soft_assertions(self.optimizer)[j].1 == self.soft@[j].1 by {
                            assert(before.states(
                                soft_assertions(before.optimizer)[j].0,
                                before.soft@[j].0,
                            ));
                            self.lemma_states_same(
                                &before,
                                soft_assertions(before.optimizer)[j].0,
                                before.soft@[j].0,
                            );
                        }
                    }
                }
                true
            },
            None => false,
        }
    }

    /// Asserts the constraint as a preference of the given weight: a model
    /// should satisfy it if it can. Returns whether the solver took it,
    /// which it does at least where the constraint asks of no type that it
    /// be a function or a list type.
    pub(crate) fn prefer(&mut self, f: &Formula, weight: u32) -> (taken: bool)
        requires
            old(self).wf(),
            weight > 0,
        ensures
            final(self).wf(),
            final(self).extends(old(self)),
            !taken ==> final(self).refused(*f),
            f.is_test_free() ==> taken,
            taken ==> final(self).known() == old(self).known().union(f.metavars()),
            taken ==> final(self).asked_soft() == old(self).asked_soft().push((*f, weight)),
            !taken ==> final(self).asked_soft() == old(self).asked_soft(),
            final(self).asked_hard() == old(self).asked_hard(),
    {
        match self.encode_formula(f) {
            Some(p) => {
                let ghost before = *self;
                assert_soft(&mut self.optimizer, &p, weight);
                proof {
                    self.soft@ = self.soft@.push((*f, weight));
                    assert(self.posed()) by {
                        assert(before.posed());
                        assert forall|j: int| 0 <= j < self.hard@.len() implies self.states(
                            #[trigger] hard_assertions(self.optimizer)[j],
                            self.hard@[j],
                        ) by {
                            assert(before.states(
                                hard_assertions(before.optimizer)[j],
                                before.hard@[j],
                            ));
                            self.lemma_states_same(
                                &before,
                                hard_assertions(before.optimizer)[j],
                                before.hard@[j],
                            );
                        }
                        assert forall|j: int| 0 <= j < self.soft@.len() implies self.states(
                            (#[trigger] soft_assertions(self.optimizer)[j]).0,
                            self.soft@[j].0,
                        ) && soft_assertions(self.optimizer)[j].1 == self.soft@[j].1 by {
                            if j < before.soft@.len() {
                                assert(before.states(
                                    soft_assertions(before.optimizer)[j].0,
                                    before.soft@[j].0,
                                ));
                                self.lemma_states_same(
                                    &before,
                                    soft_assertions(before.optimizer)[j].0,
                                    before.soft@[j].0,
                                );
                            } else {
                                self.lemma_states_same(&before, p, *f);
                            }
                        }
                    }
                }
                true
            },
            None => false,
        }
    }

    /// Poses a problem to the solver: every model must satisfy `hard`, and
    /// should satisfy each of `soft`, in their order and each with the given
    /// weight, if it can. Returns whether the solver took all of it; it
    /// stops at the first constraint that is refused.
    pub(crate) fn pose(&mut self, hard: &Formula, soft: &Vec<Formula>, weight: u32) -> (taken: bool)
        requires
            old(self).wf(),
            weight > 0,
        ensures
            final(self).wf(),
            final(self).extends(old(self)),
            taken ==> final(self).asked_hard() == old(self).asked_hard().push(*hard),
            taken ==> final(self).asked_soft() == old(self).asked_soft() + weighted(soft@, weight),
            taken ==> final(self).known() == old(self).known().union(metavars_of(soft@)).union(
                hard.metavars(),
            ),
            !taken ==> final(self).refused(*hard) || exists|j: int|
                0 <= j < soft@.len() && final(self).refused(#[trigger] soft@[j]),
            (hard.is_test_free() && forall|j: int|
                0 <= j < soft@.len() ==> (#[trigger] soft@[j]).is_test_free()) ==> taken,
    {
        let ghost start = *self;
        let mut i: usize = 0;
        while i < soft.len()
            invariant
                self.wf(),
                weight > 0,
                i <= soft@.len(),
                start == *old(self),
                self.extends(&start),
                self.known() =~= start.known().union(metavars_of(soft@.take(i as int))),
                self.asked_hard() == start.asked_hard(),
                self.asked_soft() == start.asked_soft() + weighted(soft@.take(i as int), weight),
            decreases soft.len() - i,
        {
            let ghost before = *self;
            let took = self.prefer(&soft[i], weight);
            proof {
                self.lemma_extends_on(&before, &start);
            }
            if !took {
                return false;
            }
            proof {
                assert(soft@.take(i + 1).drop_last() =~= soft@.take(i as int));
                assert(weighted(soft@.take(i + 1), weight) =~= weighted(
                    soft@.take(i as int),
                    weight,
                ).push((soft@[i as int], weight)));
                assert(start.asked_soft() + weighted(soft@.take(i + 1), weight) =~= (
                start.asked_soft() + weighted(soft@.take(i as int), weight)).push(
                    (soft@[i as int], weight),
                ));
            }
            i = i + 1;
        }
        proof {
            assert(soft@.take(i as int) =~= soft@);
        }
        let ghost before = *self;
        let took = self.require(hard);
        proof {
            self.lemma_extends_on(&before, &start);
        }
        took
    }

    /// What the model says to whether `value` is of the given variant: the
    /// truth value of the value that the model gives to the tester's
    /// proposition, if there is each of the three.
    pub(crate) closed spec fn answer(
        &self,
        model: z3::Model<'ctx>,
        value: z3::ast::Dynamic<'ctx>,
        variant: usize,
    ) -> Option<bool> {
        match tester_of(self.family, variant, value) {
            None => None,
            Some(test) => match prop_value(model, test) {
                None => None,
                Some(truth) => truth_of(truth),
            },
        }
    }

    /// The value that the model gives to a field of `value`, taken as a
    /// type of the given variant, if it gives one.
    pub(crate) closed spec fn field(
        &self,
        model: z3::Model<'ctx>,
        value: z3::ast::Dynamic<'ctx>,
        variant: usize,
        field: usize,
    ) -> Option<z3::ast::Dynamic<'ctx>> {
        term_value(model, field_of(self.family, variant, field, value))
    }

    /// The first variant, from the place `from` on, of which the model says
    /// that `value` is of it. Nothing where the model says of no variant
    /// that `value` is of it, or does not say of an earlier one.
    pub(crate) closed spec fn variant_from(
        &self,
        model: z3::Model<'ctx>,
        value: z3::ast::Dynamic<'ctx>,
        from: usize,
    ) -> Option<usize>
        decreases VARIANTS - from,
    {
        if from >= VARIANTS {
            None
        } else {
            match self.answer(model, value, from) {
                None => None,
                Some(true) => Some(from),
                Some(false) => self.variant_from(model, value, (from + 1) as usize),
            }
        }
    }

    /// The type that a value of the model is, read to the depth `fuel`: the
    /// type that its variant makes of the types that its fields are.
    /// Nothing where the type is nested deeper, or the model does not say
    /// which variant a value is of or what a field's value is.
    pub(crate) closed spec fn reading(
        &self,
        model: z3::Model<'ctx>,
        value: z3::ast::Dynamic<'ctx>,
        fuel: u64,
    ) -> Option<Typ>
        decreases fuel, 1nat,
    {
        if fuel == 0 {
            None
        } else {
            match self.variant_from(model, value, 0) {
                None => None,
                Some(variant) => assembled(
                    variant,
                    self.part(model, value, variant, 0, fuel),
                    self.part(model, value, variant, 1, fuel),
                ),
            }
        }
    }

    /// The type that a field of `value` is, read to a depth one less than
    /// `fuel`, if the variant has the field and the model gives it a value.
    pub(crate) closed spec fn part(
        &self,
        model: z3::Model<'ctx>,
        value: z3::ast::Dynamic<'ctx>,
        variant: usize,
        field: usize,
        fuel: u64,
    ) -> Option<Typ>
        decreases fuel, 0nat,
    {
        if fuel == 0 || variant >= VARIANTS || field >= type_arities()[variant as int] {
            None
        } else {
            match self.field(model, value, variant, field) {
                None => None,
                Some(inner) => self.reading(model, inner, (fuel - 1) as u64),
            }
        }
    }

    /// The types that the model chose for the first `count` metavariables
    /// met in this session. Nothing where the model does not give one of
    /// them a value that can be read.
    pub(crate) closed spec fn readings(&self, model: z3::Model<'ctx>, count: nat) -> Option<
        Map<u32, Typ>,
    >
        decreases count,
    {
        if count == 0 {
            Some(Map::empty())
        } else {
            match self.readings(model, (count - 1) as nat) {
                None => None,
                Some(choices) => match term_value(model, self.terms@[count - 1]) {
                    None => None,
                    Some(value) => match self.reading(model, value, DEPTH_LIMIT) {
                        None => None,
                        Some(t) => Some(choices.insert(self.ids@[count - 1], t)),
                    },
                },
            }
        }
    }

    /// The number of metavariables met in this session.
    pub(crate) closed spec fn met(&self) -> nat {
        self.terms@.len()
    }

    /// Whether the model makes `value` a type of the given variant, if the
    /// solver says.
    fn is_variant(
        &self,
        model: &z3::Model<'ctx>,
        value: &z3::ast::Dynamic<'ctx>,
        variant: usize,
    ) -> (r: Option<bool>)
        requires
            self.wf(),
            self.owns(*value),
            answer_home(*model) == self.home(),
            variant < VARIANTS,
        ensures
            r == self.answer(*model, *value, variant),
    {
        let test = recognize(&self.family, variant, value)?;
        let answer = eval_prop(model, &test)?;
        truth_value(&answer)
    }

    /// The value that the model gives to a field of `value`, taken as a
    /// type of the given variant, if the solver says.
    fn field_value(
        &self,
        model: &z3::Model<'ctx>,
        value: &z3::ast::Dynamic<'ctx>,
        variant: usize,
        field: usize,
    ) -> (r: Option<z3::ast::Dynamic<'ctx>>)
        requires
            self.wf(),
            self.owns(*value),
            answer_home(*model) == self.home(),
            variant < VARIANTS,
            field < type_arities()[variant as int],
        ensures
            r == self.field(*model, *value, variant, field),
            r matches Some(v) ==> self.owns(v),
    {
        let term = project(&self.family, variant, field, value);
        eval_term(model, &term)
    }

    /// The first variant of which the model says that `value` is of it.
    fn which_variant(
        &self,
        model: &z3::Model<'ctx>,
        value: &z3::ast::Dynamic<'ctx>,
    ) -> (r: Option<usize>)
        requires
            self.wf(),
            self.owns(*value),
            answer_home(*model) == self.home(),
        ensures
            r == self.variant_from(*model, *value, 0),
            r matches Some(variant) ==> variant < VARIANTS,
    {
        let mut variant: usize = 0;
        while variant < VARIANTS
            invariant
                self.wf(),
                self.owns(*value),
                answer_home(*model) == self.home(),
                variant <= VARIANTS,
                self.variant_from(*model, *value, 0) == self.variant_from(*model, *value, variant),
            decreases VARIANTS - variant,
        {
            match self.is_variant(model, value, variant) {
                None => {
                    return None;
                },
                Some(true) => {
                    return Some(variant);
                },
                Some(false) => {
                    variant = variant + 1;
                },
            }
        }
        None
    }

    /// The type that a field of `value` is, read to a depth one less than `fuel`.
    fn decode_part(
        &self,
        model: &z3::Model<'ctx>,
        value: &z3::ast::Dynamic<'ctx>,
        variant: usize,
        field: usize,
        fuel: u64,
    ) -> (r: Option<Typ>)
        requires
            self.wf(),
            self.owns(*value),
            answer_home(*model) == self.home(),
            variant < VARIANTS,
            fuel > 0,
        ensures
            r == self.part(*model, *value, variant, field, fuel),
            r matches Some(t) ==> t.is_concrete(),
        decreases fuel, 0nat,
    {
        if field < arity(variant) {
            let inner = self.field_value(model, value, variant, field)?;
            self.decode(model, &inner, fuel - 1)
        } else {
            None
        }
    }

    /// The type that a value of the model is, read to the depth `fuel`.
    /// Nothing where the type is nested deeper, or the solver does not say
    /// which variant a value is of or what the value of a field is.
    pub(crate) fn decode(
        &self,
        model: &z3::Model<'ctx>,
        value: &z3::ast::Dynamic<'ctx>,
        fuel: u64,
    ) -> (r: Option<Typ>)
        requires
            self.wf(),
            self.owns(*value),
            answer_home(*model) == self.home(),
        ensures
            r == self.reading(*model, *value, fuel),
            r matches Some(t) ==> t.is_concrete(),
        decreases fuel, 1nat,
    {
        if fuel == 0 {
            return None;
        }
        let variant = self.which_variant(model, value)?;
        let first = self.decode_part(model, value, variant, 0, fuel);
        let second = self.decode_part(model, value, variant, 1, fuel);
        assemble(variant, first, second)
    }

    /// The types that the model chose for the metavariables met in this
    /// session, if the solver gives each of them.
    pub(crate) fn read_solution(&self, model: &z3::Model<'ctx>) -> (r: Option<Solution>)
        requires
            self.wf(),
            answer_home(*model) == self.home(),
        ensures
            match r {
                Some(solution) => self.readings(*model, self.met()) == Some(solution@),
                None => self.readings(*model, self.met()) is None,
            },
            r matches Some(solution) ==> solution@.dom() == self.known(),
    {
        let mut solution = Solution::new();
        let mut i: usize = 0;
        while i < self.terms.len()
            invariant
                self.wf(),
                answer_home(*model) == self.home(),
                i <= self.terms@.len(),
                solution@.dom() =~= self.ids@.take(i as int).to_set(),
                self.readings(*model, i as nat) == Some(solution@),
            decreases self.terms.len() - i,
        {
            proof {
                if self.readings(*model, (i + 1) as nat) is None {
                    self.lemma_readings_stay_none(*model, (i + 1) as nat, self.met());
                }
            }
            let value = eval_term(model, &self.terms[i])?;
            let t = self.decode(model, &value, DEPTH_LIMIT)?;
            solution.bind(self.ids[i], t);
            proof {
                let before = self.ids@.take(i as int);
                let after = self.ids@.take(i + 1);
                assert(after =~= before.push(self.ids@[i as int]));
                assert(after.to_set() =~= before.to_set().insert(self.ids@[i as int])) by {
                    assert forall|id: u32| after.to_set().contains(id) implies before.to_set()
                        .insert(self.ids@[i as int]).contains(id) by {
                        let j = choose|j: int| 0 <= j < after.len() && after[j] == id;
                        if j < i {
                            assert(before[j] == id);
                        }
                    }
                    assert forall|id: u32|
                        before.to_set().insert(self.ids@[i as int]).contains(
                            id,
                        ) implies after.to_set().contains(id) by {
                        if id == self.ids@[i as int] {
                            assert(after[i as int] == id);
                        } else {
                            let j = choose|j: int| 0 <= j < before.len() && before[j] == id;
                            assert(after[j] == id);
                        }
                    }
                }
            }
            i = i + 1;
        }
        proof {
            assert(self.ids@.take(i as int) =~= self.ids@);
            assert(self.ids@.to_set() =~= self.known()) by {
                assert forall|id: u32| self.known().contains(id) implies self.ids@.to_set()
                    .contains(id) by {
                    assert(self.ids@[slot_bindings(self.slots)[id] as int] == id);
                }
            }
        }
        Some(solution)
    }

    /// Once the model fails to give a metavariable a value that can be
    /// read, the readings of more metavariables fail too.
    pub(crate) proof fn lemma_readings_stay_none(
        &self,
        model: z3::Model<'ctx>,
        count: nat,
        more: nat,
    )
        requires
            count <= more,
            self.readings(model, count) is None,
        ensures
            self.readings(model, more) is None,
        decreases more,
    {
        if count < more {
            self.lemma_readings_stay_none(model, count, (more - 1) as nat);
        }
    }

    /// A proposition that stood for a constraint still does when only the
    /// optimizer has been told more.
    proof fn lemma_states_same(
        &self,
        earlier: &Codec<'ctx>,
        p: z3::ast::Bool<'ctx>,
        f: Formula,
    )
        requires
            self.ctx == earlier.ctx,
            self.family == earlier.family,
            self.slots == earlier.slots,
            self.terms == earlier.terms,
            earlier.states(p, f),
        ensures
            self.states(p, f),
    {
        assert(self.extends_table(earlier));
        self.lemma_states_kept(earlier, p, f);
    }

    /// Asks the solver whether the assertions can be satisfied.
    pub(crate) fn check(&self) -> (r: Verdict) {
        crate::backend::check(&self.optimizer)
    }

    /// The model of the last check, if the solver has one.
    pub(crate) fn model(&self) -> (r: Option<z3::Model<'ctx>>)
        requires
            self.wf(),
        ensures
            r matches Some(m) ==> answer_home(m) == self.home(),
    {
        model_of(&self.optimizer)
    }
}

/// The number of variants of the datatype of types.
pub const VARIANTS: usize = 7;

/// The number of fields of a variant of the datatype of types, by the
/// variant's place; 0 where there is no such variant.
pub fn arity(variant: usize) -> (n: usize)
    ensures
        variant < VARIANTS ==> n == type_arities()[variant as int],
        variant >= VARIANTS ==> n == 0,
{
    if variant == ARR || variant == PAIR {
        2
    } else if variant == LIST {
        1
    } else {
        0
    }
}

/// The type that a variant of the datatype of types, by its place, makes
/// of the types of its fields: a type without parts for the first four
/// variants, and for the others a function, list or pair type of the parts,
/// if each part that the variant has is there.
pub open spec fn assembled(variant: usize, first: Option<Typ>, second: Option<Typ>) -> Option<
    Typ,
> {
    if variant == INT {
        Some(Typ::Int)
    } else if variant == BOOL {
        Some(Typ::Bool)
    } else if variant == STR {
        Some(Typ::Str)
    } else if variant == ANY {
        Some(Typ::Any)
    } else if variant == ARR {
        match (first, second) {
            (Some(a), Some(b)) => Some(Typ::Arr(Box::new(a), Box::new(b))),
            _ => None,
        }
    } else if variant == LIST {
        match first {
            Some(a) => Some(Typ::List(Box::new(a))),
            None => None,
        }
    } else if variant == PAIR {
        match (first, second) {
            (Some(a), Some(b)) => Some(Typ::Pair(Box::new(a), Box::new(b))),
            _ => None,
        }
    } else {
        None
    }
}

/// The type that a variant of the datatype of types, by its place, makes
/// of the types of its fields.
pub fn assemble(variant: usize, first: Option<Typ>, second: Option<Typ>) -> (r: Option<Typ>)
    ensures
        r == assembled(variant, first, second),
{
    if variant == INT {
        Some(Typ::Int)
    } else if variant == BOOL {
        Some(Typ::Bool)
    } else if variant == STR {
        Some(Typ::Str)
    } else if variant == ANY {
        Some(Typ::Any)
    } else if variant == ARR {
        match (first, second) {
            (Some(a), Some(b)) => Some(Typ::Arr(Box::new(a), Box::new(b))),
            _ => None,
        }
    } else if variant == LIST {
        match first {
            Some(a) => Some(Typ::List(Box::new(a))),
            None => None,
        }
    } else if variant == PAIR {
        match (first, second) {
            (Some(a), Some(b)) => Some(Typ::Pair(Box::new(a), Box::new(b))),
            _ => None,
        }
    } else {
        None
    }
}

} // verus!
