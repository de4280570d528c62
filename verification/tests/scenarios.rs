use type_migration::error::MigrationError;
use type_migration::infer::typeinf;
use type_migration::syntax::{Exp, Lit, Typ};

fn var(x: &str) -> Exp {
    Exp::Var(x.to_string())
}

fn num(i: i32) -> Exp {
    Exp::Lit(Lit::Int(i))
}

fn boolean(b: bool) -> Exp {
    Exp::Lit(Lit::Bool(b))
}

fn string(s: &str) -> Exp {
    Exp::Lit(Lit::Str(s.to_string()))
}

fn fun(x: &str, t: Typ, body: Exp) -> Exp {
    Exp::Fun(x.to_string(), t, Box::new(body))
}

fn app(e1: Exp, e2: Exp) -> Exp {
    Exp::App(Box::new(e1), Box::new(e2))
}

fn let_in(x: &str, e1: Exp, e2: Exp) -> Exp {
    Exp::Let(x.to_string(), Box::new(e1), Box::new(e2))
}

fn pair(e1: Exp, e2: Exp) -> Exp {
    Exp::Pair(Box::new(e1), Box::new(e2))
}

fn cons(e1: Exp, e2: Exp) -> Exp {
    Exp::Cons(Box::new(e1), Box::new(e2))
}

fn coerce(t1: Typ, t2: Typ, e: Exp) -> Exp {
    Exp::Coerce(t1, t2, Box::new(e))
}

fn arr(a: Typ, b: Typ) -> Typ {
    Typ::Arr(Box::new(a), Box::new(b))
}

fn list(a: Typ) -> Typ {
    Typ::List(Box::new(a))
}

#[test]
fn identity_applied_to_an_integer_needs_no_coercion() {
    let program = app(fun("x", Typ::Metavar(0), var("x")), num(10));
    let expected = app(fun("x", Typ::Int, var("x")), num(10));
    assert_eq!(typeinf(program), Ok(expected));
}

#[test]
fn overloaded_addition_of_integers_stays_integer() {
    let program = app(
        fun(
            "x",
            Typ::Metavar(0),
            Exp::AddOverload(Box::new(var("x")), Box::new(num(20))),
        ),
        num(10),
    );
    let expected = app(
        fun(
            "x",
            Typ::Int,
            Exp::AddOverload(Box::new(var("x")), Box::new(num(20))),
        ),
        num(10),
    );
    assert_eq!(typeinf(program), Ok(expected));
}

#[test]
fn overloaded_addition_of_strings_stays_string() {
    let program = fun(
        "x",
        Typ::Metavar(0),
        Exp::AddOverload(Box::new(var("x")), Box::new(string("!"))),
    );
    let expected = fun(
        "x",
        Typ::Str,
        Exp::AddOverload(Box::new(var("x")), Box::new(string("!"))),
    );
    assert_eq!(typeinf(program), Ok(expected));
}

#[test]
fn dynamic_operand_weakens_the_string_literal() {
    let program = fun(
        "x",
        Typ::Any,
        Exp::AddOverload(Box::new(var("x")), Box::new(string("suffix"))),
    );
    let expected = fun(
        "x",
        Typ::Any,
        Exp::AddOverload(
            Box::new(var("x")),
            Box::new(coerce(Typ::Str, Typ::Any, string("suffix"))),
        ),
    );
    assert_eq!(typeinf(program), Ok(expected));
}

#[test]
fn overloaded_addition_of_booleans_goes_through_the_dynamic_type() {
    let program = Exp::AddOverload(Box::new(boolean(true)), Box::new(boolean(false)));
    let expected = Exp::AddOverload(
        Box::new(coerce(Typ::Bool, Typ::Any, boolean(true))),
        Box::new(coerce(Typ::Bool, Typ::Any, boolean(false))),
    );
    assert_eq!(typeinf(program), Ok(expected));
}

#[test]
fn heterogeneous_list_holds_dynamic_elements() {
    let program = cons(boolean(true), cons(num(10), Exp::Empty(Typ::Metavar(0))));
    let expected = cons(
        coerce(Typ::Bool, Typ::Any, boolean(true)),
        cons(coerce(Typ::Int, Typ::Any, num(10)), Exp::Empty(Typ::Any)),
    );
    assert_eq!(typeinf(program), Ok(expected));
}

#[test]
fn function_used_at_two_types_takes_a_dynamic_parameter() {
    // let id = fun x . x in (id 5, id true)
    let program = let_in(
        "id",
        fun("x", Typ::Metavar(0), var("x")),
        pair(app(var("id"), num(5)), app(var("id"), boolean(true))),
    );
    let expected = let_in(
        "id",
        fun("x", Typ::Any, var("x")),
        pair(
            app(var("id"), coerce(Typ::Int, Typ::Any, num(5))),
            app(var("id"), coerce(Typ::Bool, Typ::Any, boolean(true))),
        ),
    );
    assert_eq!(typeinf(program), Ok(expected));
}

#[test]
fn function_with_a_fixed_parameter_cannot_be_used_at_another_type() {
    // let f = fun x:int . x in (f 5, f true)
    let program = let_in(
        "f",
        fun("x", Typ::Int, var("x")),
        pair(app(var("f"), num(5)), app(var("f"), boolean(true))),
    );
    assert_eq!(typeinf(program), Err(MigrationError::MigrationFailed));
}

#[test]
fn adding_a_boolean_cannot_be_migrated() {
    let program = Exp::Add(Box::new(boolean(true)), Box::new(num(1)));
    assert_eq!(typeinf(program), Err(MigrationError::MigrationFailed));
}

#[test]
fn undeclared_variable_is_reported() {
    assert_eq!(
        typeinf(var("y")),
        Err(MigrationError::UnboundIdentifier("y".to_string()))
    );
}

#[test]
fn first_undeclared_variable_is_reported_before_any_solving() {
    // (fun x . z) (true + w): no model exists, and two variables are unbound
    let program = app(
        fun("x", Typ::Metavar(0), var("z")),
        Exp::Add(Box::new(boolean(true)), Box::new(var("w"))),
    );
    assert_eq!(
        typeinf(program),
        Err(MigrationError::UnboundIdentifier("z".to_string()))
    );
}

#[test]
fn binder_does_not_reach_outside_its_body() {
    // (let x = 1 in x), x
    let program = pair(let_in("x", num(1), var("x")), var("x"));
    assert_eq!(
        typeinf(program),
        Err(MigrationError::UnboundIdentifier("x".to_string()))
    );
}

#[test]
fn program_that_uses_the_last_metavariable_leaves_none_to_take() {
    let program = app(fun("x", Typ::Metavar(u32::MAX), var("x")), num(1));
    assert_eq!(typeinf(program), Err(MigrationError::MetavarsExhausted));
}

#[test]
fn program_that_uses_the_last_metavariable_and_needs_no_other_migrates() {
    let program = fun("x", Typ::Metavar(u32::MAX), var("x"));
    assert_eq!(typeinf(program), Ok(fun("x", Typ::Int, var("x"))));
}

#[test]
fn dynamic_function_is_narrowed_to_the_most_dynamic_function_type() {
    // fun f : any . f 1
    let program = fun("f", Typ::Any, app(var("f"), num(1)));
    let expected = fun(
        "f",
        Typ::Any,
        app(
            coerce(Typ::Any, arr(Typ::Any, Typ::Any), var("f")),
            coerce(Typ::Int, Typ::Any, num(1)),
        ),
    );
    assert_eq!(typeinf(program), Ok(expected));
}

#[test]
fn dynamic_list_is_narrowed_to_the_list_of_dynamic_values() {
    // fun l : any . head l
    let program = fun("l", Typ::Any, Exp::Head(Box::new(var("l"))));
    let expected = fun(
        "l",
        Typ::Any,
        Exp::Head(Box::new(coerce(Typ::Any, list(Typ::Any), var("l")))),
    );
    assert_eq!(typeinf(program), Ok(expected));
}

#[test]
fn unconstrained_parameter_defaults_to_int() {
    // fun x . 5: nothing mentions the parameter's type
    let program = fun("x", Typ::Metavar(7), num(5));
    assert_eq!(typeinf(program), Ok(fun("x", Typ::Int, num(5))));
}

#[test]
fn stated_coercion_must_start_from_the_type_of_its_operand() {
    let program = coerce(Typ::Bool, Typ::Any, num(1));
    assert_eq!(typeinf(program), Err(MigrationError::MigrationFailed));
    let program = coerce(Typ::Int, Typ::Any, num(1));
    assert_eq!(typeinf(program), Ok(coerce(Typ::Int, Typ::Any, num(1))));
}

#[test]
fn recursive_binding_has_the_type_of_its_body() {
    // fix f : a . fun n : int . f n
    let program = Exp::Fix(
        "f".to_string(),
        Typ::Metavar(0),
        Box::new(fun("n", Typ::Int, app(var("f"), var("n")))),
    );
    let out = typeinf(program).unwrap();
    match out {
        Exp::Fix(_, t, _) => match t {
            Typ::Arr(a, _) => assert_eq!(*a, Typ::Int),
            other => panic!("not a function type: {:?}", other),
        },
        other => panic!("not a recursive binding: {:?}", other),
    }
}

#[test]
fn stated_coercion_stays_as_it_was_written() {
    // fun l : any . head (<any to list int> l): the coercion that the
    // program came with is not the generator's, and is kept as it is
    let stated = coerce(Typ::Any, list(Typ::Int), var("l"));
    let program = fun("l", Typ::Any, Exp::Head(Box::new(stated.clone())));
    let expected = fun("l", Typ::Any, Exp::Head(Box::new(stated)));
    assert_eq!(typeinf(program), Ok(expected));
}
