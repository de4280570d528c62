use type_migration::cgen::Generator;
use type_migration::env::Env;
use type_migration::error::MigrationError;
use type_migration::formula::Formula;
use type_migration::names::greek;
use type_migration::supply::MetavarSupply;
use type_migration::syntax::{Exp, Lit, Typ};

fn var(x: &str) -> Exp {
    Exp::Var(x.to_string())
}

fn num(i: i32) -> Exp {
    Exp::Lit(Lit::Int(i))
}

fn boolean(b: bool) -> Exp {
    Exp::Lit(Lit::Bool(b))
}

fn coerce(t1: Typ, t2: Typ, e: Exp) -> Exp {
    Exp::Coerce(t1, t2, Box::new(e))
}

fn arr(a: Typ, b: Typ) -> Typ {
    Typ::Arr(Box::new(a), Box::new(b))
}

fn list(a: Typ) -> Typ {
    Typ::List(Box::new(a))
}

fn strengthened(t1: Typ, t2: Typ) -> Formula {
    Formula::Eq(t1.clone(), Typ::Any)
        .and(Formula::IsList(t2.clone()).implies(Formula::Eq(t2.clone(), list(Typ::Any))))
        .and(Formula::IsArr(t2.clone()).implies(Formula::Eq(t2.clone(), arr(Typ::Any, Typ::Any))))
        .or(Formula::Eq(t1, t2))
}

fn weakened(t1: Typ, t2: Typ) -> Formula {
    Formula::Eq(t2.clone(), Typ::Any).or(Formula::Eq(t1, t2))
}

fn generator(first: u32) -> Generator {
    Generator::new(MetavarSupply::starting_at(first))
}

#[test]
fn literals_have_their_static_types() {
    assert_eq!(Lit::Int(3).typ(), Typ::Int);
    assert_eq!(Lit::Bool(false).typ(), Typ::Bool);
    assert_eq!(Lit::Str("s".to_string()).typ(), Typ::Str);
}

#[test]
fn structural_queries() {
    assert!(arr(Typ::Int, Typ::Int).is_arr());
    assert!(!list(Typ::Int).is_arr());
    assert!(list(Typ::Int).is_list());
    assert!(!Typ::Any.is_list());
    assert_eq!(Typ::Metavar(12).expect_metavar(), 12);
    assert!(num(1).is_atom());
    assert!(var("x").is_atom());
    assert!(!Exp::Not(Box::new(var("x"))).is_atom());
    assert!(Exp::Fun("x".to_string(), Typ::Int, Box::new(var("x"))).is_fun_exp());
    assert!(!var("x").is_fun_exp());
    assert!(coerce(Typ::Int, Typ::Any, num(1)).is_coercion());
    assert!(!num(1).is_coercion());
    assert!(arr(Typ::Int, list(Typ::Any)).concrete());
    assert!(!arr(Typ::Int, list(Typ::Metavar(0))).concrete());
}

#[test]
fn take_leaves_a_placeholder() {
    let mut e = Exp::Not(Box::new(var("x")));
    let taken = e.take();
    assert_eq!(taken, Exp::Not(Box::new(var("x"))));
    assert_eq!(e, num(0));
}

#[test]
fn equality_and_clone_of_expressions() {
    let e = Exp::If(
        Box::new(boolean(true)),
        Box::new(coerce(Typ::Int, Typ::Metavar(1), num(1))),
        Box::new(Exp::Empty(list(Typ::Str))),
    );
    assert_eq!(e.clone(), e);
    assert_ne!(e, Exp::Empty(list(Typ::Str)));
    assert_ne!(var("x"), var("y"));
    assert_ne!(
        coerce(Typ::Int, Typ::Metavar(1), num(1)),
        coerce(Typ::Int, Typ::Metavar(2), num(1))
    );
    assert_ne!(Exp::Add(Box::new(num(1)), Box::new(num(2))), Exp::Mul(Box::new(num(1)), Box::new(num(2))));
}

#[test]
fn supply_counts_upwards() {
    let mut supply = MetavarSupply::starting_at(5);
    assert_eq!(supply.next_metavar(), Typ::Metavar(5));
    assert_eq!(supply.next_metavar(), Typ::Metavar(6));
    assert_eq!(supply.next, 7);
    assert!(supply.room_for(0x1_0000_0000 - 7));
    assert!(!supply.room_for(0x1_0000_0000 - 6));
}

#[test]
fn supply_for_a_program_starts_above_its_metavariables() {
    let program = Exp::App(
        Box::new(Exp::Fun("x".to_string(), Typ::Metavar(4), Box::new(var("x")))),
        Box::new(Exp::Empty(arr(Typ::Metavar(9), Typ::Metavar(2)))),
    );
    assert_eq!(program.metavar_limit(), 10);
    assert_eq!(program.demand(), Some(2));
    assert_eq!(MetavarSupply::for_program(&program).map(|s| s.next), Some(10));
    assert_eq!(num(1).metavar_limit(), 0);
    let last = Exp::Head(Box::new(Exp::Empty(Typ::Metavar(u32::MAX))));
    assert_eq!(last.metavar_limit(), 0x1_0000_0000);
    assert!(MetavarSupply::for_program(&last).is_none());
}

#[test]
fn demand_counts_the_fresh_metavariables_of_each_construct() {
    let x = || Box::new(num(1));
    assert_eq!(Exp::App(x(), x()).demand(), Some(2));
    assert_eq!(Exp::AddOverload(x(), x()).demand(), Some(1));
    assert_eq!(Exp::If(x(), x(), x()).demand(), Some(1));
    assert_eq!(Exp::Cons(x(), x()).demand(), Some(1));
    assert_eq!(Exp::Head(x()).demand(), Some(1));
    assert_eq!(Exp::Tail(x()).demand(), Some(1));
    assert_eq!(Exp::IsEmpty(x()).demand(), Some(1));
    assert_eq!(Exp::Add(x(), x()).demand(), Some(0));
    assert_eq!(Exp::Pair(x(), x()).demand(), Some(0));
    assert_eq!(Exp::IsInt(x()).demand(), Some(0));
    assert_eq!(
        Exp::App(Box::new(Exp::Head(x())), Box::new(Exp::If(x(), x(), x()))).demand(),
        Some(4)
    );
}

#[test]
fn environments_are_persistent() {
    let empty = Env::new();
    let x = "x".to_string();
    assert_eq!(empty.lookup(&x), None);
    assert!(!empty.binds(&x));
    let one = empty.extended("x".to_string(), Typ::Int);
    assert_eq!(one.lookup(&x), Some(Typ::Int));
    assert!(one.binds(&x));
    assert_eq!(empty.lookup(&x), None);
    let two = one.extended("x".to_string(), Typ::Bool);
    assert_eq!(two.lookup(&x), Some(Typ::Bool));
    assert_eq!(one.lookup(&x), Some(Typ::Int));
    assert_eq!(two.lookup(&"y".to_string()), None);
}

#[test]
fn unbound_finds_the_first_free_variable() {
    let env = Env::new().extended("a".to_string(), Typ::Int);
    assert_eq!(var("a").unbound(&env), None);
    assert_eq!(var("b").unbound(&env), Some("b".to_string()));
    let e = Exp::Let(
        "x".to_string(),
        Box::new(var("a")),
        Box::new(Exp::Pair(Box::new(var("x")), Box::new(var("c")))),
    );
    assert_eq!(e.unbound(&env), Some("c".to_string()));
    let e = Exp::Add(Box::new(var("p")), Box::new(var("q")));
    assert_eq!(e.unbound(&env), Some("p".to_string()));
    let e = Exp::Let("x".to_string(), Box::new(var("x")), Box::new(num(1)));
    assert_eq!(e.unbound(&env), Some("x".to_string()));
    let e = Exp::Fix("f".to_string(), Typ::Int, Box::new(var("f")));
    assert_eq!(e.unbound(&env), None);
}

#[test]
fn coerce_wraps_and_records_a_preference() {
    let mut g = generator(0);
    let mut e = num(1);
    g.coerce(Typ::Int, Typ::Metavar(3), &mut e);
    assert_eq!(e, coerce(Typ::Int, Typ::Metavar(3), num(1)));
    assert_eq!(g.soft, vec![Formula::Eq(Typ::Int, Typ::Metavar(3))]);
    assert_eq!(g.supply.next, 0);
}

#[test]
fn strengthen_licenses_only_the_most_dynamic_shapes() {
    let mut g = generator(0);
    let mut e = var("x");
    let phi = g.strengthen(Typ::Metavar(0), list(Typ::Metavar(1)), &mut e);
    assert_eq!(phi, strengthened(Typ::Metavar(0), list(Typ::Metavar(1))));
    assert_eq!(e, coerce(Typ::Metavar(0), list(Typ::Metavar(1)), var("x")));
    assert_eq!(g.soft, vec![Formula::Eq(Typ::Metavar(0), list(Typ::Metavar(1)))]);
}

#[test]
fn weaken_licenses_the_dynamic_type() {
    let mut g = generator(0);
    let mut e = var("x");
    let phi = g.weaken(Typ::Int, Typ::Metavar(1), &mut e);
    assert_eq!(
        phi,
        Formula::Or(
            Box::new(Formula::Eq(Typ::Metavar(1), Typ::Any)),
            Box::new(Formula::Eq(Typ::Int, Typ::Metavar(1)))
        )
    );
    assert_eq!(e, coerce(Typ::Int, Typ::Metavar(1), var("x")));
    assert_eq!(g.soft, vec![Formula::Eq(Typ::Int, Typ::Metavar(1))]);
}

#[test]
fn application_takes_two_metavariables() {
    let mut g = generator(10);
    let env = Env::new()
        .extended("f".to_string(), Typ::Metavar(0))
        .extended("a".to_string(), Typ::Int);
    let mut e = Exp::App(Box::new(var("f")), Box::new(var("a")));
    let (t, phi) = g.cgen(&env, &mut e).unwrap();
    let alpha = Typ::Metavar(10);
    let beta = Typ::Metavar(11);
    let arrow = arr(alpha.clone(), beta.clone());
    assert_eq!(t, beta);
    assert_eq!(
        e,
        Exp::App(
            Box::new(coerce(Typ::Metavar(0), arrow.clone(), var("f"))),
            Box::new(coerce(Typ::Int, alpha.clone(), var("a")))
        )
    );
    assert_eq!(
        phi,
        Formula::True.and(Formula::True).and(
            strengthened(Typ::Metavar(0), arrow.clone()).and(weakened(Typ::Int, alpha.clone()))
        )
    );
    assert_eq!(
        g.soft,
        vec![
            Formula::Eq(Typ::Metavar(0), arrow),
            Formula::Eq(Typ::Int, alpha)
        ]
    );
    assert_eq!(g.supply.next, 12);
}

#[test]
fn cons_weakens_the_head_and_strengthens_the_tail() {
    let mut g = generator(1);
    let env = Env::new();
    let mut e = Exp::Cons(Box::new(boolean(true)), Box::new(Exp::Empty(Typ::Metavar(0))));
    let (t, phi) = g.cgen(&env, &mut e).unwrap();
    let alpha = Typ::Metavar(1);
    assert_eq!(t, list(alpha.clone()));
    assert_eq!(
        e,
        Exp::Cons(
            Box::new(coerce(Typ::Bool, alpha.clone(), boolean(true))),
            Box::new(coerce(
                list(Typ::Metavar(0)),
                list(alpha.clone()),
                Exp::Empty(Typ::Metavar(0))
            ))
        )
    );
    assert_eq!(
        phi,
        Formula::True.and(Formula::True).and(
            strengthened(list(Typ::Metavar(0)), list(alpha.clone()))
                .and(weakened(Typ::Bool, alpha.clone()))
        )
    );
    assert_eq!(
        g.soft,
        vec![
            Formula::Eq(list(Typ::Metavar(0)), list(alpha.clone())),
            Formula::Eq(Typ::Bool, alpha)
        ]
    );
}

#[test]
fn conditional_and_overloaded_addition() {
    let mut g = generator(0);
    let env = Env::new();
    let mut e = Exp::If(Box::new(boolean(true)), Box::new(num(1)), Box::new(num(2)));
    let (t, phi) = g.cgen(&env, &mut e).unwrap();
    let alpha = Typ::Metavar(0);
    assert_eq!(t, alpha);
    assert_eq!(
        phi,
        Formula::True.and(Formula::True).and(Formula::True).and(
            strengthened(Typ::Bool, Typ::Bool)
                .and(weakened(Typ::Int, alpha.clone()))
                .and(weakened(Typ::Int, alpha.clone()))
        )
    );
    let mut e = Exp::AddOverload(Box::new(num(1)), Box::new(num(2)));
    let (t, phi) = g.cgen(&env, &mut e).unwrap();
    let beta = Typ::Metavar(1);
    assert_eq!(t, beta);
    assert_eq!(
        phi,
        Formula::True
            .and(Formula::True)
            .and(
                Formula::Eq(beta.clone(), Typ::Int)
                    .or(Formula::Eq(beta.clone(), Typ::Str))
                    .or(Formula::Eq(beta.clone(), Typ::Any))
            )
            .and(weakened(Typ::Int, beta.clone()).and(weakened(Typ::Int, beta.clone())))
    );
    assert_eq!(g.soft.len(), 5);
    assert_eq!(g.supply.next, 2);
}

#[test]
fn binders_extend_the_environment() {
    let mut g = generator(1);
    let env = Env::new();
    let mut e = Exp::Fun("x".to_string(), Typ::Str, Box::new(var("x")));
    let (t, phi) = g.cgen(&env, &mut e).unwrap();
    assert_eq!(t, arr(Typ::Str, Typ::Str));
    assert_eq!(phi, Formula::True);
    let mut e = Exp::Let("x".to_string(), Box::new(boolean(true)), Box::new(var("x")));
    let (t, phi) = g.cgen(&env, &mut e).unwrap();
    assert_eq!(t, Typ::Bool);
    assert_eq!(phi, Formula::True.and(Formula::True));
    let mut e = Exp::Fix("f".to_string(), Typ::Metavar(0), Box::new(num(1)));
    let (t, phi) = g.cgen(&env, &mut e).unwrap();
    assert_eq!(t, Typ::Metavar(0));
    assert_eq!(phi, Formula::True.and(Formula::Eq(Typ::Metavar(0), Typ::Int)));
    assert!(g.soft.is_empty());
}

#[test]
fn list_operations_and_type_tests() {
    let mut g = generator(0);
    let env = Env::new().extended("l".to_string(), Typ::Any);
    let mut e = Exp::Head(Box::new(var("l")));
    let (t, phi) = g.cgen(&env, &mut e).unwrap();
    assert_eq!(t, Typ::Metavar(0));
    assert_eq!(phi, Formula::True.and(strengthened(Typ::Any, list(Typ::Metavar(0)))));
    let mut e = Exp::Tail(Box::new(var("l")));
    let (t, _) = g.cgen(&env, &mut e).unwrap();
    assert_eq!(t, list(Typ::Metavar(1)));
    let mut e = Exp::IsEmpty(Box::new(var("l")));
    let (t, _) = g.cgen(&env, &mut e).unwrap();
    assert_eq!(t, Typ::Bool);
    assert_eq!(e, Exp::IsEmpty(Box::new(coerce(Typ::Any, list(Typ::Metavar(2)), var("l")))));
    let mut e = Exp::IsFun(Box::new(num(1)));
    let (t, phi) = g.cgen(&env, &mut e).unwrap();
    assert_eq!(t, Typ::Bool);
    assert_eq!(phi, Formula::True.and(weakened(Typ::Int, Typ::Any)));
    assert_eq!(e, Exp::IsFun(Box::new(coerce(Typ::Int, Typ::Any, num(1)))));
    let mut e = Exp::Empty(Typ::Str);
    let (t, _) = g.cgen(&env, &mut e).unwrap();
    assert_eq!(t, list(Typ::Str));
    let mut e = Exp::Pair(Box::new(num(1)), Box::new(boolean(true)));
    let (t, _) = g.cgen(&env, &mut e).unwrap();
    assert_eq!(t, Typ::Pair(Box::new(Typ::Int), Box::new(Typ::Bool)));
    let mut e = Exp::IntEq(Box::new(num(1)), Box::new(num(2)));
    let (t, _) = g.cgen(&env, &mut e).unwrap();
    assert_eq!(t, Typ::Bool);
}

#[test]
fn stated_coercion_is_kept_and_constrained() {
    let mut g = generator(1);
    let env = Env::new();
    let mut e = coerce(Typ::Metavar(0), Typ::Any, num(1));
    let (t, phi) = g.cgen(&env, &mut e).unwrap();
    assert_eq!(t, Typ::Any);
    assert_eq!(e, coerce(Typ::Metavar(0), Typ::Any, num(1)));
    assert_eq!(phi, Formula::True.and(Formula::Eq(Typ::Metavar(0), Typ::Int)));
    assert_eq!(g.soft, vec![Formula::Eq(Typ::Metavar(0), Typ::Any)]);
}

#[test]
fn unbound_variable_stops_generation_before_it_starts() {
    let mut g = generator(3);
    let env = Env::new();
    let before = Exp::Add(Box::new(Exp::Not(Box::new(boolean(true)))), Box::new(var("nowhere")));
    let mut e = before.clone();
    assert_eq!(
        g.cgen(&env, &mut e),
        Err(MigrationError::UnboundIdentifier("nowhere".to_string()))
    );
    assert_eq!(e, before);
    assert!(g.soft.is_empty());
    assert_eq!(g.supply.next, 3);
}

#[test]
fn exhausted_supply_stops_generation_before_it_starts() {
    let mut g = generator(u32::MAX);
    let env = Env::new();
    let before = Exp::App(Box::new(num(1)), Box::new(num(2)));
    let mut e = before.clone();
    assert_eq!(g.cgen(&env, &mut e), Err(MigrationError::MetavarsExhausted));
    assert_eq!(e, before);
    assert!(g.soft.is_empty());
    let mut e = Exp::Head(Box::new(num(1)));
    assert!(g.cgen(&env, &mut e).is_ok());
    assert_eq!(e, Exp::Head(Box::new(coerce(Typ::Int, list(Typ::Metavar(u32::MAX)), num(1)))));
}

#[test]
fn fresh_metavariable_is_past_those_of_the_program() {
    // true :: empty, the empty list annotated with metavariable 0
    let program = Exp::Cons(Box::new(boolean(true)), Box::new(Exp::Empty(Typ::Metavar(0))));
    let supply = MetavarSupply::for_program(&program).unwrap();
    assert_eq!(supply.next, 1);
    let mut g = Generator::new(supply);
    let mut e = program;
    let (t, _) = g.cgen(&Env::new(), &mut e).unwrap();
    assert_eq!(t, list(Typ::Metavar(1)));
    assert_eq!(g.supply.next, 2);
}

#[test]
fn metavariables_are_named_by_letters_and_then_by_numbers() {
    assert_eq!(greek(0), "\u{3b1}");
    assert_eq!(greek(1), "\u{3b2}");
    assert_eq!(greek(24), "\u{3c9}");
    assert_eq!(greek(78), "\u{3ff}");
    assert_eq!(greek(79), "\u{2989}1\u{298a}");
    assert_eq!(greek(87), "\u{2989}9\u{298a}");
    assert_eq!(greek(88), "\u{2989}10\u{298a}");
    assert_eq!(greek(1078), "\u{2989}1000\u{298a}");
    assert_eq!(greek(u32::MAX), "\u{2989}4294967217\u{298a}");
}
