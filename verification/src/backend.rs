//! The solver: the calls into the Z3 bindings, each with what is taken on
//! trust about it.
//!
//! The bindings panic when a term of one context meets a term of another,
//! and when an application is not well sorted. The contracts here follow
//! each term's context and sort, so that verified code can only make calls
//! that return.

use vstd::prelude::*;
use z3::ast::Ast;

verus! {

#[verifier::external_type_specification]
#[verifier::external_body]
pub struct ExConfig(z3::Config);

#[verifier::external_type_specification]
#[verifier::external_body]
pub struct ExContext(z3::Context);

#[verifier::external_type_specification]
#[verifier::external_body]
pub struct ExDatatypeBuilder<'sort, 'ctx: 'sort>(z3::DatatypeBuilder<'sort, 'ctx>);

#[verifier::external_type_specification]
#[verifier::external_body]
pub struct ExDatatypeSort<'ctx>(z3::DatatypeSort<'ctx>);

#[verifier::external_type_specification]
#[verifier::external_body]
pub struct ExDynamic<'ctx>(z3::ast::Dynamic<'ctx>);

#[verifier::external_type_specification]
#[verifier::external_body]
pub struct ExBool<'ctx>(z3::ast::Bool<'ctx>);

#[verifier::external_type_specification]
#[verifier::external_body]
pub struct ExOptimize<'ctx>(z3::Optimize<'ctx>);

#[verifier::external_type_specification]
#[verifier::external_body]
pub struct ExModel<'ctx>(z3::Model<'ctx>);

/// Which context this is.
pub uninterp spec fn context_key(ctx: z3::Context) -> int;

/// The context that the builder was made in.
pub uninterp spec fn builder_home(b: z3::DatatypeBuilder<'_, '_>) -> int;

/// The name of the datatype that the builder declares.
pub uninterp spec fn builder_label(b: z3::DatatypeBuilder<'_, '_>) -> Seq<char>;

/// The names that the builder has given to variants and fields so far.
pub uninterp spec fn builder_names(b: z3::DatatypeBuilder<'_, '_>) -> Seq<Seq<char>>;

/// The number of fields of each variant that the builder holds, in order.
pub uninterp spec fn builder_arities(b: z3::DatatypeBuilder<'_, '_>) -> Seq<nat>;

/// The context that the datatype was declared in.
pub uninterp spec fn family_home(s: z3::DatatypeSort<'_>) -> int;

/// Which datatype this is, among all datatypes of all contexts.
pub uninterp spec fn family_key(s: z3::DatatypeSort<'_>) -> int;

/// The number of fields of each variant of the datatype, in order.
pub uninterp spec fn family_arities(s: z3::DatatypeSort<'_>) -> Seq<nat>;

/// The context of the term.
pub uninterp spec fn term_home(t: z3::ast::Dynamic<'_>) -> int;

/// The datatype whose sort the term has.
pub uninterp spec fn term_family(t: z3::ast::Dynamic<'_>) -> int;

/// The context of the proposition.
pub uninterp spec fn prop_home(p: z3::ast::Bool<'_>) -> int;

/// How a term is made.
pub enum TermForm<'ctx> {
    /// A constant that the solver is free to give a value.
    Constant,
    /// A variant of a datatype, by its place in the declaration, applied to
    /// a term for each of its fields.
    Apply(usize, Seq<z3::ast::Dynamic<'ctx>>),
}

/// How a proposition is made.
pub enum PropForm<'ctx> {
    /// A truth value.
    Truth(bool),
    /// The two terms are equal.
    Equal(z3::ast::Dynamic<'ctx>, z3::ast::Dynamic<'ctx>),
    /// The term is of a variant of its datatype, by the variant's place.
    Tests(usize, z3::ast::Dynamic<'ctx>),
    And(z3::ast::Bool<'ctx>, z3::ast::Bool<'ctx>),
    Or(z3::ast::Bool<'ctx>, z3::ast::Bool<'ctx>),
    Implies(z3::ast::Bool<'ctx>, z3::ast::Bool<'ctx>),
}

/// How the term is made.
pub uninterp spec fn term_form(t: z3::ast::Dynamic<'_>) -> TermForm<'_>;

/// How the proposition is made.
pub uninterp spec fn prop_form(p: z3::ast::Bool<'_>) -> PropForm<'_>;

/// The proposition that the tester of a variant of the datatype, by the
/// variant's place, makes of the term, if the bindings take it for one.
pub uninterp spec fn tester_of(
    s: z3::DatatypeSort<'_>,
    variant: usize,
    t: z3::ast::Dynamic<'_>,
) -> Option<z3::ast::Bool<'static>>;

/// The term that the accessor of a field of a variant of the datatype, by
/// their places, makes of the term.
pub uninterp spec fn field_of(
    s: z3::DatatypeSort<'_>,
    variant: usize,
    field: usize,
    t: z3::ast::Dynamic<'_>,
) -> z3::ast::Dynamic<'static>;

/// The value that the model gives the term, if it gives one.
pub uninterp spec fn term_value(m: z3::Model<'_>, t: z3::ast::Dynamic<'_>) -> Option<
    z3::ast::Dynamic<'static>,
>;

/// The value that the model gives the proposition, if it gives one.
pub uninterp spec fn prop_value(m: z3::Model<'_>, p: z3::ast::Bool<'_>) -> Option<
    z3::ast::Bool<'static>,
>;

/// The truth value that the proposition is, if it is one.
pub uninterp spec fn truth_of(p: z3::ast::Bool<'_>) -> Option<bool>;

/// The propositions that the optimizer has been told to satisfy, in order.
pub uninterp spec fn hard_assertions(o: z3::Optimize<'_>) -> Seq<z3::ast::Bool<'static>>;

/// The propositions that the optimizer has been told to satisfy if it can,
/// each with its weight, in order.
pub uninterp spec fn soft_assertions(o: z3::Optimize<'_>) -> Seq<(z3::ast::Bool<'static>, u32)>;

/// The context of the optimizer.
pub uninterp spec fn optimize_home(o: z3::Optimize<'_>) -> int;

/// The context of the model.
pub uninterp spec fn answer_home(m: z3::Model<'_>) -> int;

/// The term is of the datatype `s`, in the context of `s`.
pub open spec fn belongs(t: z3::ast::Dynamic<'_>, s: z3::DatatypeSort<'_>) -> bool {
    term_family(t) == family_key(s) && term_home(t) == family_home(s)
}

/// The name can be handed to the solver: it holds no NUL.
pub open spec fn is_name(name: Seq<char>) -> bool {
    !name.contains('\0')
}

/// What a satisfiability check said.
#[derive(Debug)]
pub enum Verdict {
    Sat,
    Unsat,
    Unknown,
}

/// `z3::Config::new`: a configuration with the solver's defaults.
#[verifier::external_body]
pub(crate) fn config_new() -> z3::Config {
    z3::Config::new()
}

/// `z3::Context::new`: a new context.
#[verifier::external_body]
pub(crate) fn context_new(cfg: &z3::Config) -> z3::Context {
    z3::Context::new(cfg)
}

/// `z3::DatatypeBuilder::new`: a builder, in the context, for a datatype of
/// the given name, without variants.
#[verifier::external_body]
pub(crate) fn builder_new<'ctx>(ctx: &'ctx z3::Context, label: &str) -> (b: z3::DatatypeBuilder<
    'ctx,
    'ctx,
>)
    ensures
        builder_home(b) == context_key(*ctx),
        builder_label(b) == label@,
        builder_names(b) == Seq::<Seq<char>>::empty(),
        builder_arities(b) == Seq::<nat>::empty(),
{
    z3::DatatypeBuilder::new(ctx, label)
}

/// `z3::DatatypeBuilder::variant`: the builder with one more variant, of
/// the given name, each of whose fields holds a value of the datatype
/// itself. `own` is the name of the datatype.
#[verifier::external_body]
pub(crate) fn builder_variant<'ctx>(
    b: z3::DatatypeBuilder<'ctx, 'ctx>,
    own: &str,
    name: &str,
    fields: Vec<&str>,
) -> (r: z3::DatatypeBuilder<'ctx, 'ctx>)
    requires
        own@ == builder_label(b),
    ensures
        builder_home(r) == builder_home(b),
        builder_label(r) == builder_label(b),
        builder_names(r) == builder_names(b).push(name@) + fields@.map_values(|f: &str| f@),
        builder_arities(r) == builder_arities(b).push(fields@.len()),
{
    b.variant(
        name,
        fields.into_iter().map(|f| (f, z3::DatatypeAccessor::Datatype(own.into()))).collect(),
    )
}

/// `z3::DatatypeBuilder::finish`: declares the datatype in the builder's
/// context, with the builder's variants in their order. The bindings ask
/// for a variant and for names without NUL; the solver asks for a variant
/// without fields, and is given names of which none occurs twice.
#[verifier::external_body]
pub(crate) fn builder_finish<'ctx>(b: z3::DatatypeBuilder<'ctx, 'ctx>) -> (s: z3::DatatypeSort<
    'ctx,
>)
    requires
        builder_arities(b).contains(0),
        builder_names(b).no_duplicates(),
        !builder_names(b).contains(builder_label(b)),
        is_name(builder_label(b)),
        forall|i: int| 0 <= i < builder_names(b).len() ==> is_name(#[trigger] builder_names(b)[i]),
    ensures
        family_home(s) == builder_home(b),
        family_arities(s) == builder_arities(b),
{
    b.finish()
}

/// `z3::FuncDecl::apply` on the constructor of a variant: the value of the
/// datatype that the variant makes of the arguments.
#[verifier::external_body]
pub(crate) fn construct<'ctx>(
    s: &z3::DatatypeSort<'ctx>,
    variant: usize,
    args: Vec<z3::ast::Dynamic<'ctx>>,
) -> (r: z3::ast::Dynamic<'ctx>)
    requires
        variant < family_arities(*s).len(),
        args@.len() == family_arities(*s)[variant as int],
        forall|i: int| 0 <= i < args@.len() ==> belongs(#[trigger] args@[i], *s),
    ensures
        term_family(r) == family_key(*s),
        term_home(r) == family_home(*s),
        term_form(r) == TermForm::Apply(variant, args@),
{
    s.variants[variant].constructor.apply(&args.iter().collect::<Vec<_>>())
}

/// `z3::FuncDecl::apply` on the tester of a variant, then
/// `z3::ast::Dynamic::as_bool`: the proposition that the term is of that
/// variant.
#[verifier::external_body]
pub(crate) fn recognize<'ctx>(
    s: &z3::DatatypeSort<'ctx>,
    variant: usize,
    t: &z3::ast::Dynamic<'ctx>,
) -> (r: Option<z3::ast::Bool<'ctx>>)
    requires
        variant < family_arities(*s).len(),
        belongs(*t, *s),
    ensures
        r matches Some(p) ==> prop_home(p) == family_home(*s),
        r matches Some(p) ==> prop_form(p) == PropForm::Tests(variant, *t),
        r == tester_of(*s, variant, *t),
{
    s.variants[variant].tester.apply(&[t]).as_bool()
}

/// `z3::FuncDecl::apply` on the accessor of a field of a variant: the term
/// for that field of the given term.
#[verifier::external_body]
pub(crate) fn project<'ctx>(
    s: &z3::DatatypeSort<'ctx>,
    variant: usize,
    field: usize,
    t: &z3::ast::Dynamic<'ctx>,
) -> (r: z3::ast::Dynamic<'ctx>)
    requires
        variant < family_arities(*s).len(),
        field < family_arities(*s)[variant as int],
        belongs(*t, *s),
    ensures
        term_family(r) == family_key(*s),
        term_home(r) == family_home(*s),
        r == field_of(*s, variant, field, *t),
{
    s.variants[variant].accessors[field].apply(&[t])
}

/// `z3::ast::Datatype::fresh_const`, then `z3::ast::Dynamic::from_ast`: a
/// new constant of the datatype, in the context of the datatype.
#[verifier::external_body]
pub(crate) fn fresh_term<'ctx>(
    ctx: &'ctx z3::Context,
    prefix: &str,
    s: &z3::DatatypeSort<'ctx>,
) -> (r: z3::ast::Dynamic<'ctx>)
    requires
        family_home(*s) == context_key(*ctx),
        is_name(prefix@),
    ensures
        term_family(r) == family_key(*s),
        term_home(r) == family_home(*s),
        term_form(r) == TermForm::Constant,
{
    z3::ast::Dynamic::from_ast(&z3::ast::Datatype::fresh_const(ctx, prefix, &s.sort))
}

/// `Clone` of `z3::ast::Dynamic`: the same term once more.
#[verifier::external_body]
pub(crate) fn term_clone<'ctx>(t: &z3::ast::Dynamic<'ctx>) -> (r: z3::ast::Dynamic<'ctx>)
    ensures
        r == *t,
{
    t.clone()
}

/// `z3::ast::Ast::_eq`: the proposition that two terms of one datatype are equal.
#[verifier::external_body]
pub(crate) fn equal<'ctx>(a: &z3::ast::Dynamic<'ctx>, b: &z3::ast::Dynamic<'ctx>) -> (r:
    z3::ast::Bool<'ctx>)
    requires
        term_home(*a) == term_home(*b),
        term_family(*a) == term_family(*b),
    ensures
        prop_home(r) == term_home(*a),
        prop_form(r) == PropForm::Equal(*a, *b),
{
    a._eq(b)
}

/// `z3::ast::Bool::from_bool`: the proposition that is the given truth value.
#[verifier::external_body]
pub(crate) fn constant<'ctx>(ctx: &'ctx z3::Context, value: bool) -> (r: z3::ast::Bool<'ctx>)
    ensures
        prop_home(r) == context_key(*ctx),
        prop_form(r) == PropForm::Truth(value),
{
    z3::ast::Bool::from_bool(ctx, value)
}

/// `z3::ast::Bool::and`: the conjunction of two propositions.
#[verifier::external_body]
pub(crate) fn conjunction<'ctx>(
    ctx: &'ctx z3::Context,
    a: &z3::ast::Bool<'ctx>,
    b: &z3::ast::Bool<'ctx>,
) -> (r: z3::ast::Bool<'ctx>)
    requires
        prop_home(*a) == context_key(*ctx),
        prop_home(*b) == context_key(*ctx),
    ensures
        prop_home(r) == context_key(*ctx),
        prop_form(r) == PropForm::And(*a, *b),
{
    z3::ast::Bool::and(ctx, &[a, b])
}

/// `z3::ast::Bool::or`: the disjunction of two propositions.
#[verifier::external_body]
pub(crate) fn disjunction<'ctx>(
    ctx: &'ctx z3::Context,
    a: &z3::ast::Bool<'ctx>,
    b: &z3::ast::Bool<'ctx>,
) -> (r: z3::ast::Bool<'ctx>)
    requires
        prop_home(*a) == context_key(*ctx),
        prop_home(*b) == context_key(*ctx),
    ensures
        prop_home(r) == context_key(*ctx),
        prop_form(r) == PropForm::Or(*a, *b),
{
    z3::ast::Bool::or(ctx, &[a, b])
}

/// `z3::ast::Bool::implies`: the proposition that the second holds if the
/// first does.
#[verifier::external_body]
pub(crate) fn implication<'ctx>(a: &z3::ast::Bool<'ctx>, b: &z3::ast::Bool<'ctx>) -> (r:
    z3::ast::Bool<'ctx>)
    requires
        prop_home(*a) == prop_home(*b),
    ensures
        prop_home(r) == prop_home(*a),
        prop_form(r) == PropForm::Implies(*a, *b),
{
    a.implies(b)
}

/// `z3::Optimize::new`: an optimizer, in the context, that has been told nothing.
#[verifier::external_body]
pub(crate) fn optimize_new<'ctx>(ctx: &'ctx z3::Context) -> (o: z3::Optimize<'ctx>)
    ensures
        optimize_home(o) == context_key(*ctx),
        hard_assertions(o).len() == 0,
        soft_assertions(o).len() == 0,
{
    z3::Optimize::new(ctx)
}

/// `z3::Optimize::assert`: from now on the optimizer's models satisfy the
/// proposition. The optimizer is taken for this call alone, so that what
/// it has been told can be followed from call to call.
#[verifier::external_body]
pub(crate) fn assert_hard<'ctx>(o: &mut z3::Optimize<'ctx>, p: &z3::ast::Bool<'ctx>)
    requires
        prop_home(*p) == optimize_home(*old(o)),
    ensures
        optimize_home(*final(o)) == optimize_home(*old(o)),
        hard_assertions(*final(o)) == hard_assertions(*old(o)).push(*p),
        soft_assertions(*final(o)) == soft_assertions(*old(o)),
{
    o.assert(p)
}

/// `z3::Optimize::assert_soft`, in no group and with a positive weight: from
/// now on the optimizer counts the weight against a model that does not
/// satisfy the proposition. The optimizer is taken for this call alone.
#[verifier::external_body]
pub(crate) fn assert_soft<'ctx>(o: &mut z3::Optimize<'ctx>, p: &z3::ast::Bool<'ctx>, weight: u32)
    requires
        prop_home(*p) == optimize_home(*old(o)),
        weight > 0,
    ensures
        optimize_home(*final(o)) == optimize_home(*old(o)),
        hard_assertions(*final(o)) == hard_assertions(*old(o)),
        soft_assertions(*final(o)) == soft_assertions(*old(o)).push((*p, weight)),
{
    o.assert_soft(p, weight, None)
}

/// `z3::Optimize::check`, without assumptions: whether the assertions can
/// be satisfied, as far as the solver can tell.
#[verifier::external_body]
pub(crate) fn check(o: &z3::Optimize<'_>) -> Verdict {
    match o.check(&[]) {
        z3::SatResult::Sat => Verdict::Sat,
        z3::SatResult::Unsat => Verdict::Unsat,
        z3::SatResult::Unknown => Verdict::Unknown,
    }
}

/// `z3::Optimize::get_model`: the model of the last check, if the solver
/// has one.
#[verifier::external_body]
pub(crate) fn model_of<'ctx>(o: &z3::Optimize<'ctx>) -> (r: Option<z3::Model<'ctx>>)
    ensures
        r matches Some(m) ==> answer_home(m) == optimize_home(*o),
{
    o.get_model()
}

/// `z3::Model::eval` on a term: the value that the model gives the term,
/// a term of the same datatype. The same model gives the same term the
/// same value.
#[verifier::external_body]
pub(crate) fn eval_term<'ctx>(m: &z3::Model<'ctx>, t: &z3::ast::Dynamic<'ctx>) -> (r: Option<
    z3::ast::Dynamic<'ctx>,
>)
    requires
        answer_home(*m) == term_home(*t),
    ensures
        r matches Some(v) ==> term_home(v) == term_home(*t) && term_family(v) == term_family(*t),
        r == term_value(*m, *t),
{
    m.eval(t)
}

/// `z3::Model::eval` on a proposition: the value that the model gives it,
/// the same whenever it is asked.
#[verifier::external_body]
pub(crate) fn eval_prop<'ctx>(m: &z3::Model<'ctx>, p: &z3::ast::Bool<'ctx>) -> (r: Option<
    z3::ast::Bool<'ctx>,
>)
    requires
        answer_home(*m) == prop_home(*p),
    ensures
        r matches Some(v) ==> prop_home(v) == prop_home(*p),
        r == prop_value(*m, *p),
{
    m.eval(p)
}

/// `z3::ast::Bool::as_bool`: the truth value, if the proposition is one.
#[verifier::external_body]
pub(crate) fn truth_value(p: &z3::ast::Bool<'_>) -> (r: Option<bool>)
    ensures
        r == truth_of(*p),
{
    p.as_bool()
}

} // verus!
