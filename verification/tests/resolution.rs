use type_migration::annotate::{annotate, annotate_typ};
use type_migration::error::MigrationError;
use type_migration::formula::{resolve, Formula};
use type_migration::backend::Verdict;
use type_migration::encode::{arity, assemble, ANY, ARR, BOOL, INT, LIST, PAIR, STR, VARIANTS};
use type_migration::infer::{conclude, judge, solve, typeinf, SolverOutcome};
use type_migration::solution::Solution;
use type_migration::syntax::{Exp, Lit, Typ};

fn var(x: &str) -> Exp {
    Exp::Var(x.to_string())
}

fn num(i: i32) -> Exp {
    Exp::Lit(Lit::Int(i))
}

fn boolean(b: bool) -> Exp {
    Exp::Lit(Lit::Bool(b))
}

fn coerce(t1: Typ, t2: Typ, e: Exp) -> Exp {
    Exp::Coerce(t1, t2, Box::new(e))
}

fn arr(a: Typ, b: Typ) -> Typ {
    Typ::Arr(Box::new(a), Box::new(b))
}

fn list(a: Typ) -> Typ {
    Typ::List(Box::new(a))
}

fn solution(choices: Vec<(u32, Typ)>) -> Solution {
    let mut s = Solution::new();
    for (id, t) in choices {
        assert!(s.bind(id, t));
    }
    s
}

fn typ_has_metavar(t: &Typ) -> bool {
    match t {
        Typ::Metavar(_) => true,
        Typ::Arr(a, b) | Typ::Pair(a, b) => typ_has_metavar(a) || typ_has_metavar(b),
        Typ::List(a) => typ_has_metavar(a),
        _ => false,
    }
}

/// (a metavariable occurs, a coercion from a type to itself occurs)
fn leftovers(e: &Exp) -> (bool, bool) {
    fn or(a: (bool, bool), b: (bool, bool)) -> (bool, bool) {
        (a.0 || b.0, a.1 || b.1)
    }
    match e {
        Exp::Lit(_) | Exp::Var(_) => (false, false),
        Exp::Empty(t) => (typ_has_metavar(t), false),
        Exp::Fun(_, t, e) | Exp::Fix(_, t, e) => or((typ_has_metavar(t), false), leftovers(e)),
        Exp::Coerce(t1, t2, e) => or(
            (typ_has_metavar(t1) || typ_has_metavar(t2), t1 == t2),
            leftovers(e),
        ),
        Exp::Not(e)
        | Exp::Head(e)
        | Exp::Tail(e)
        | Exp::IsEmpty(e)
        | Exp::IsBool(e)
        | Exp::IsInt(e)
        | Exp::IsString(e)
        | Exp::IsList(e)
        | Exp::IsFun(e) => leftovers(e),
        Exp::App(a, b)
        | Exp::Let(_, a, b)
        | Exp::Add(a, b)
        | Exp::Mul(a, b)
        | Exp::IntEq(a, b)
        | Exp::AddOverload(a, b)
        | Exp::Pair(a, b)
        | Exp::Cons(a, b) => or(leftovers(a), leftovers(b)),
        Exp::If(a, b, c) => or(leftovers(a), or(leftovers(b), leftovers(c))),
    }
}

fn narrowing_in_order(e: &Exp) -> bool {
    match e {
        Exp::Coerce(t1, t2, _) => {
            t1 == t2
                || (*t1 == Typ::Any
                    && (!t2.is_list() || *t2 == list(Typ::Any))
                    && (!t2.is_arr() || *t2 == arr(Typ::Any, Typ::Any)))
        }
        _ => true,
    }
}

fn widening_in_order(e: &Exp) -> bool {
    match e {
        Exp::Coerce(t1, t2, _) => t1 == t2 || *t2 == Typ::Any,
        _ => true,
    }
}

/// Every coercion stands in order at its place.
fn licensed(e: &Exp) -> bool {
    match e {
        Exp::Lit(_) | Exp::Var(_) | Exp::Empty(_) => true,
        Exp::Fun(_, _, e) | Exp::Fix(_, _, e) | Exp::Coerce(_, _, e) => licensed(e),
        Exp::Let(_, a, b) | Exp::Pair(a, b) => licensed(a) && licensed(b),
        Exp::Not(e) | Exp::Head(e) | Exp::Tail(e) | Exp::IsEmpty(e) => {
            narrowing_in_order(e) && licensed(e)
        }
        Exp::IsBool(e) | Exp::IsInt(e) | Exp::IsString(e) | Exp::IsList(e) | Exp::IsFun(e) => {
            widening_in_order(e) && licensed(e)
        }
        Exp::App(a, b) => narrowing_in_order(a) && widening_in_order(b) && licensed(a) && licensed(b),
        Exp::Add(a, b) | Exp::Mul(a, b) | Exp::IntEq(a, b) => {
            narrowing_in_order(a) && narrowing_in_order(b) && licensed(a) && licensed(b)
        }
        Exp::AddOverload(a, b) => {
            widening_in_order(a) && widening_in_order(b) && licensed(a) && licensed(b)
        }
        Exp::Cons(a, b) => widening_in_order(a) && narrowing_in_order(b) && licensed(a) && licensed(b),
        Exp::If(a, b, c) => {
            narrowing_in_order(a)
                && widening_in_order(b)
                && widening_in_order(c)
                && licensed(a)
                && licensed(b)
                && licensed(c)
        }
    }
}

fn sample_programs() -> Vec<Exp> {
    let f = |x: &str, t: Typ, b: Exp| Exp::Fun(x.to_string(), t, Box::new(b));
    let app = |a: Exp, b: Exp| Exp::App(Box::new(a), Box::new(b));
    vec![
        app(f("x", Typ::Metavar(0), var("x")), num(10)),
        f("g", Typ::Metavar(0), app(var("g"), var("g"))),
        f("l", Typ::Any, Exp::Tail(Box::new(var("l")))),
        f("h", Typ::Any, app(var("h"), boolean(true))),
        Exp::Cons(
            Box::new(boolean(true)),
            Box::new(Exp::Cons(Box::new(num(10)), Box::new(Exp::Empty(Typ::Metavar(0))))),
        ),
        Exp::Let(
            "n".to_string(),
            Box::new(f("x", Typ::Metavar(0), Exp::Not(Box::new(var("x"))))),
            Box::new(Exp::Pair(
                Box::new(app(var("n"), boolean(true))),
                Box::new(app(var("n"), num(5))),
            )),
        ),
        Exp::If(
            Box::new(Exp::IsInt(Box::new(num(1)))),
            Box::new(num(1)),
            Box::new(boolean(false)),
        ),
    ]
}

#[test]
fn types_resolve_through_every_constructor() {
    let s = solution(vec![(0, Typ::Bool), (1, list(Typ::Any))]);
    let mut t = arr(
        Typ::Metavar(0),
        Typ::Pair(Box::new(list(Typ::Metavar(1))), Box::new(Typ::Metavar(2))),
    );
    annotate_typ(&s, &mut t);
    assert_eq!(
        t,
        arr(
            Typ::Bool,
            Typ::Pair(Box::new(list(list(Typ::Any))), Box::new(Typ::Int))
        )
    );
    assert_eq!(resolve(&s, &Typ::Metavar(1)), list(Typ::Any));
    assert_eq!(resolve(&s, &Typ::Str), Typ::Str);
}

#[test]
fn unchosen_metavariable_defaults_to_int() {
    let s = Solution::new();
    let mut t = Typ::Metavar(41);
    annotate_typ(&s, &mut t);
    assert_eq!(t, Typ::Int);
}

#[test]
fn solution_refuses_a_type_with_a_metavariable() {
    let mut s = Solution::new();
    assert!(!s.bind(0, list(Typ::Metavar(1))));
    assert_eq!(s.get(0), None);
    assert!(s.bind(0, list(Typ::Int)));
    assert_eq!(s.get(0), Some(&list(Typ::Int)));
    assert!(s.bind(0, Typ::Str));
    assert_eq!(s.get(0), Some(&Typ::Str));
    assert_eq!(s.get(1), None);
}

#[test]
fn identity_coercions_are_elided() {
    let s = solution(vec![(0, Typ::Int), (1, Typ::Any)]);
    let mut e = Exp::Add(
        Box::new(coerce(Typ::Metavar(0), Typ::Int, var("x"))),
        Box::new(coerce(Typ::Metavar(1), Typ::Int, var("y"))),
    );
    annotate(&s, &mut e);
    assert_eq!(
        e,
        Exp::Add(
            Box::new(var("x")),
            Box::new(coerce(Typ::Any, Typ::Int, var("y")))
        )
    );
}

#[test]
fn nested_coercions_are_elided_from_the_inside() {
    let s = solution(vec![(0, Typ::Int), (1, Typ::Any)]);
    let mut e = coerce(
        Typ::Metavar(0),
        Typ::Int,
        coerce(
            Typ::Int,
            Typ::Metavar(1),
            coerce(Typ::Metavar(2), Typ::Metavar(0), Exp::Empty(Typ::Metavar(1))),
        ),
    );
    annotate(&s, &mut e);
    assert_eq!(e, coerce(Typ::Int, Typ::Any, Exp::Empty(Typ::Any)));
}

#[test]
fn annotations_of_binders_are_resolved() {
    let s = solution(vec![(0, Typ::Str)]);
    let mut e = Exp::Fix(
        "f".to_string(),
        arr(Typ::Metavar(0), Typ::Metavar(0)),
        Box::new(Exp::Fun("x".to_string(), Typ::Metavar(0), Box::new(var("x")))),
    );
    annotate(&s, &mut e);
    assert_eq!(
        e,
        Exp::Fix(
            "f".to_string(),
            arr(Typ::Str, Typ::Str),
            Box::new(Exp::Fun("x".to_string(), Typ::Str, Box::new(var("x"))))
        )
    );
}

#[test]
fn resolving_twice_changes_nothing() {
    let first = solution(vec![(0, Typ::Int), (1, Typ::Any), (2, Typ::Bool)]);
    let second = solution(vec![(0, Typ::Str), (1, Typ::Str), (2, Typ::Str)]);
    let mut e = Exp::If(
        Box::new(coerce(Typ::Metavar(2), Typ::Bool, var("c"))),
        Box::new(coerce(Typ::Metavar(0), Typ::Metavar(1), num(1))),
        Box::new(coerce(Typ::Metavar(1), Typ::Metavar(1), Exp::Empty(Typ::Metavar(9)))),
    );
    annotate(&first, &mut e);
    let once = e.clone();
    assert_eq!(leftovers(&once), (false, false));
    annotate(&first, &mut e);
    assert_eq!(e, once);
    annotate(&second, &mut e);
    assert_eq!(e, once);
}

#[test]
fn formulas_are_evaluated_under_a_solution() {
    let s = solution(vec![(0, Typ::Any), (1, arr(Typ::Int, Typ::Int)), (2, list(Typ::Any))]);
    let eq = |a: Typ, b: Typ| Formula::Eq(a, b);
    assert!(Formula::True.eval(&s));
    assert!(eq(Typ::Metavar(0), Typ::Any).eval(&s));
    assert!(!eq(Typ::Metavar(0), Typ::Int).eval(&s));
    assert!(eq(Typ::Metavar(7), Typ::Int).eval(&s));
    assert!(Formula::IsArr(Typ::Metavar(1)).eval(&s));
    assert!(!Formula::IsArr(Typ::Metavar(2)).eval(&s));
    assert!(Formula::IsList(Typ::Metavar(2)).eval(&s));
    assert!(!Formula::IsList(Typ::Metavar(0)).eval(&s));
    let yes = || eq(Typ::Int, Typ::Int);
    let no = || eq(Typ::Int, Typ::Bool);
    assert!(yes().and(yes()).eval(&s));
    assert!(!yes().and(no()).eval(&s));
    assert!(!no().and(yes()).eval(&s));
    assert!(yes().or(no()).eval(&s));
    assert!(no().or(yes()).eval(&s));
    assert!(!no().or(no()).eval(&s));
    assert!(no().implies(no()).eval(&s));
    assert!(no().implies(yes()).eval(&s));
    assert!(yes().implies(yes()).eval(&s));
    assert!(!yes().implies(no()).eval(&s));
}

#[test]
fn formula_equality_and_clone() {
    let f = Formula::IsArr(Typ::Metavar(1)).implies(Formula::Eq(Typ::Metavar(1), Typ::Any));
    assert_eq!(f.clone(), f);
    assert_ne!(f, Formula::IsList(Typ::Metavar(1)).implies(Formula::Eq(Typ::Metavar(1), Typ::Any)));
    assert_ne!(Formula::True.and(Formula::True), Formula::True.or(Formula::True));
}

#[test]
fn conclusion_follows_the_outcome() {
    let tree = || coerce(Typ::Metavar(0), Typ::Int, num(1));
    let hard = Formula::Eq(Typ::Metavar(0), Typ::Int).or(Formula::Eq(Typ::Metavar(0), Typ::Any));
    assert_eq!(
        conclude(tree(), &hard, SolverOutcome::Unsat),
        Err(MigrationError::MigrationFailed)
    );
    assert_eq!(
        conclude(tree(), &hard, SolverOutcome::Unknown),
        Err(MigrationError::BackendIndeterminate)
    );
    assert_eq!(
        conclude(tree(), &hard, SolverOutcome::Broken),
        Err(MigrationError::InvariantViolation)
    );
    assert_eq!(
        conclude(tree(), &hard, SolverOutcome::Sat(solution(vec![(0, Typ::Int)]))),
        Ok(num(1))
    );
    assert_eq!(
        conclude(tree(), &hard, SolverOutcome::Sat(solution(vec![(0, Typ::Any)]))),
        Ok(coerce(Typ::Any, Typ::Int, num(1)))
    );
    assert_eq!(
        conclude(tree(), &hard, SolverOutcome::Sat(solution(vec![(0, Typ::Bool)]))),
        Err(MigrationError::InvariantViolation)
    );
}

#[test]
fn errors_compare_by_kind_and_name() {
    assert_eq!(MigrationError::MigrationFailed, MigrationError::MigrationFailed);
    assert_ne!(MigrationError::MigrationFailed, MigrationError::BackendIndeterminate);
    assert_ne!(MigrationError::InvariantViolation, MigrationError::MetavarsExhausted);
    assert_eq!(
        MigrationError::UnboundIdentifier("x".to_string()),
        MigrationError::UnboundIdentifier("x".to_string())
    );
    assert_ne!(
        MigrationError::UnboundIdentifier("x".to_string()),
        MigrationError::UnboundIdentifier("y".to_string())
    );
}

#[test]
fn solver_chooses_a_type_for_each_metavariable_of_the_constraints() {
    let hard = Formula::Eq(Typ::Metavar(3), list(Typ::Metavar(5)))
        .and(Formula::Eq(Typ::Metavar(5), arr(Typ::Bool, Typ::Str)));
    let soft = vec![
        Formula::Eq(Typ::Metavar(8), Typ::Pair(Box::new(Typ::Any), Box::new(Typ::Int))),
    ];
    match solve(&hard, &soft) {
        SolverOutcome::Sat(s) => {
            assert_eq!(s.get(5), Some(&arr(Typ::Bool, Typ::Str)));
            assert_eq!(s.get(3), Some(&list(arr(Typ::Bool, Typ::Str))));
            assert_eq!(
                s.get(8),
                Some(&Typ::Pair(Box::new(Typ::Any), Box::new(Typ::Int)))
            );
            assert_eq!(s.get(0), None);
            assert!(hard.eval(&s));
        }
        _ => panic!("the constraints can be satisfied"),
    }
}

#[test]
fn solver_tells_shapes_apart() {
    let is_list = Formula::IsList(Typ::Metavar(0));
    let is_arr = Formula::IsArr(Typ::Metavar(0));
    match solve(&is_list, &vec![]) {
        SolverOutcome::Sat(s) => assert!(s.get(0).unwrap().is_list()),
        _ => panic!("some type is a list type"),
    }
    match solve(&is_arr, &vec![]) {
        SolverOutcome::Sat(s) => assert!(s.get(0).unwrap().is_arr()),
        _ => panic!("some type is a function type"),
    }
    assert!(matches!(
        solve(&Formula::IsList(Typ::Metavar(0)).and(Formula::IsArr(Typ::Metavar(0))), &vec![]),
        SolverOutcome::Unsat
    ));
    assert!(matches!(
        solve(&Formula::IsArr(Typ::Metavar(0)).implies(Formula::Eq(Typ::Int, Typ::Bool))
            .and(Formula::Eq(Typ::Metavar(0), arr(Typ::Int, Typ::Int))), &vec![]),
        SolverOutcome::Unsat
    ));
}

#[test]
fn solver_reports_contradictions() {
    assert!(matches!(
        solve(&Formula::Eq(Typ::Int, Typ::Bool), &vec![]),
        SolverOutcome::Unsat
    ));
    assert!(matches!(
        solve(
            &Formula::Eq(Typ::Metavar(0), Typ::Int).and(Formula::Eq(Typ::Metavar(0), Typ::Str)),
            &vec![]
        ),
        SolverOutcome::Unsat
    ));
    // a type cannot hold itself
    assert!(matches!(
        solve(&Formula::Eq(Typ::Metavar(0), list(Typ::Metavar(0))), &vec![]),
        SolverOutcome::Unsat
    ));
}

#[test]
fn solver_satisfies_as_many_preferences_as_it_can() {
    let hard = Formula::Eq(Typ::Metavar(0), Typ::Int).or(Formula::Eq(Typ::Metavar(0), Typ::Any));
    let soft = vec![
        Formula::Eq(Typ::Metavar(0), Typ::Any),
        Formula::Eq(Typ::Metavar(0), Typ::Int),
        Formula::Eq(Typ::Metavar(0), Typ::Any),
    ];
    match solve(&hard, &soft) {
        SolverOutcome::Sat(s) => assert_eq!(s.get(0), Some(&Typ::Any)),
        _ => panic!("the constraints can be satisfied"),
    }
    let soft = vec![
        Formula::Eq(Typ::Metavar(0), Typ::Int),
        Formula::Eq(Typ::Metavar(0), Typ::Str),
    ];
    match solve(&hard, &soft) {
        SolverOutcome::Sat(s) => assert_eq!(s.get(0), Some(&Typ::Int)),
        _ => panic!("the constraints can be satisfied"),
    }
}

#[test]
fn migrations_leave_no_metavariable_and_no_identity_coercion() {
    for program in sample_programs() {
        let out = typeinf(program).unwrap();
        assert_eq!(leftovers(&out), (false, false), "{:?}", out);
    }
}

#[test]
fn migrations_keep_only_coercions_that_are_in_order() {
    for program in sample_programs() {
        let out = typeinf(program).unwrap();
        assert!(licensed(&out), "{:?}", out);
    }
}

#[test]
fn resolving_a_migration_again_changes_nothing() {
    let other = solution(vec![(0, Typ::Str), (1, Typ::Bool)]);
    for program in sample_programs() {
        let out = typeinf(program).unwrap();
        let mut again = out.clone();
        annotate(&other, &mut again);
        assert_eq!(again, out);
    }
}

#[test]
fn verdict_and_reading_make_the_outcome() {
    assert!(matches!(judge(Verdict::Unsat, None), SolverOutcome::Unsat));
    assert!(matches!(
        judge(Verdict::Unsat, Some(Solution::new())),
        SolverOutcome::Unsat
    ));
    assert!(matches!(judge(Verdict::Unknown, None), SolverOutcome::Unknown));
    assert!(matches!(
        judge(Verdict::Unknown, Some(Solution::new())),
        SolverOutcome::Unknown
    ));
    assert!(matches!(judge(Verdict::Sat, None), SolverOutcome::Broken));
    match judge(Verdict::Sat, Some(solution(vec![(4, Typ::Str)]))) {
        SolverOutcome::Sat(s) => {
            assert_eq!(s.get(4), Some(&Typ::Str));
            assert_eq!(s.get(5), None);
        }
        _ => panic!("a solution was read"),
    }
}

#[test]
fn variants_have_their_numbers_of_fields() {
    assert_eq!(VARIANTS, 7);
    assert_eq!(arity(INT), 0);
    assert_eq!(arity(BOOL), 0);
    assert_eq!(arity(STR), 0);
    assert_eq!(arity(ANY), 0);
    assert_eq!(arity(ARR), 2);
    assert_eq!(arity(LIST), 1);
    assert_eq!(arity(PAIR), 2);
    assert_eq!(arity(VARIANTS), 0);
    assert_eq!(arity(usize::MAX), 0);
}

#[test]
fn variants_make_types_of_their_parts() {
    let a = || Some(Typ::Bool);
    let b = || Some(list(Typ::Any));
    assert_eq!(assemble(INT, None, None), Some(Typ::Int));
    assert_eq!(assemble(BOOL, None, None), Some(Typ::Bool));
    assert_eq!(assemble(STR, None, None), Some(Typ::Str));
    assert_eq!(assemble(ANY, a(), b()), Some(Typ::Any));
    assert_eq!(assemble(ARR, a(), b()), Some(arr(Typ::Bool, list(Typ::Any))));
    assert_eq!(assemble(ARR, b(), a()), Some(arr(list(Typ::Any), Typ::Bool)));
    assert_eq!(assemble(ARR, a(), None), None);
    assert_eq!(assemble(ARR, None, b()), None);
    assert_eq!(assemble(LIST, a(), None), Some(list(Typ::Bool)));
    assert_eq!(assemble(LIST, None, b()), None);
    assert_eq!(
        assemble(PAIR, a(), b()),
        Some(Typ::Pair(Box::new(Typ::Bool), Box::new(list(Typ::Any))))
    );
    assert_eq!(assemble(PAIR, None, None), None);
    assert_eq!(assemble(VARIANTS, a(), b()), None);
}
