use type_migration::infer::typeinf;
use type_migration::syntax::{Exp, Lit, Typ};

fn var(x: &str) -> Exp {
    Exp::Var(x.to_string())
}

fn num(i: i32) -> Exp {
    Exp::Lit(Lit::Int(i))
}

fn boolean(b: bool) -> Exp {
    Exp::Lit(Lit::Bool(b))
}

fn string(s: &str) -> Exp {
    Exp::Lit(Lit::Str(s.to_string()))
}

fn fun(x: &str, t: Typ, body: Exp) -> Exp {
    Exp::Fun(x.to_string(), t, Box::new(body))
}

fn app(e1: Exp, e2: Exp) -> Exp {
    Exp::App(Box::new(e1), Box::new(e2))
}

fn let_in(x: &str, e1: Exp, e2: Exp) -> Exp {
    Exp::Let(x.to_string(), Box::new(e1), Box::new(e2))
}

fn add(e1: Exp, e2: Exp) -> Exp {
    Exp::Add(Box::new(e1), Box::new(e2))
}

fn add_overload(e1: Exp, e2: Exp) -> Exp {
    Exp::AddOverload(Box::new(e1), Box::new(e2))
}

fn if_then_else(e1: Exp, e2: Exp, e3: Exp) -> Exp {
    Exp::If(Box::new(e1), Box::new(e2), Box::new(e3))
}

fn pair(e1: Exp, e2: Exp) -> Exp {
    Exp::Pair(Box::new(e1), Box::new(e2))
}

fn cons(e1: Exp, e2: Exp) -> Exp {
    Exp::Cons(Box::new(e1), Box::new(e2))
}

fn not(e: Exp) -> Exp {
    Exp::Not(Box::new(e))
}

fn mv(n: u32) -> Typ {
    Typ::Metavar(n)
}

/// (does a coercion to the dynamic type occur, does one from it occur)
fn coercions(e: &Exp) -> (bool, bool) {
    fn or(a: (bool, bool), b: (bool, bool)) -> (bool, bool) {
        (a.0 || b.0, a.1 || b.1)
    }
    match e {
        Exp::Lit(_) | Exp::Var(_) | Exp::Empty(_) => (false, false),
        Exp::Fun(_, _, e)
        | Exp::Fix(_, _, e)
        | Exp::Not(e)
        | Exp::Head(e)
        | Exp::Tail(e)
        | Exp::IsEmpty(e)
        | Exp::IsBool(e)
        | Exp::IsInt(e)
        | Exp::IsString(e)
        | Exp::IsList(e)
        | Exp::IsFun(e) => coercions(e),
        Exp::App(a, b)
        | Exp::Let(_, a, b)
        | Exp::Add(a, b)
        | Exp::Mul(a, b)
        | Exp::IntEq(a, b)
        | Exp::AddOverload(a, b)
        | Exp::Pair(a, b)
        | Exp::Cons(a, b) => or(coercions(a), coercions(b)),
        Exp::If(a, b, c) => or(coercions(a), or(coercions(b), coercions(c))),
        Exp::Coerce(t1, t2, e) => or((*t1 != Typ::Any, *t1 == Typ::Any && *t2 != Typ::Any), coercions(e)),
    }
}

fn succeeds(program: Exp) -> Exp {
    typeinf(program).expect("the migration failed")
}

fn no_from_any(program: Exp) {
    let e = succeeds(program);
    let (_, from_any) = coercions(&e);
    assert!(!from_any, "{:?}", e);
}

fn coerces(program: Exp) {
    let e = succeeds(program);
    let (to_any, from_any) = coercions(&e);
    assert!(to_any || from_any, "{:?}", e);
}

#[test]
fn test_typeinf() {
    // (fun x . x) 10
    typeinf(app(fun("x", mv(0), var("x")), num(10))).unwrap();
}

#[test]
fn identity_alone() {
    // fun x . x
    println!("{:?}", typeinf(fun("x", mv(0), var("x"))).unwrap())
}

#[test]
fn occurs_check_fun_any() {
    // fun f . f f
    println!("{:?}", typeinf(fun("f", mv(0), app(var("f"), var("f")))).unwrap())
}

#[test]
fn test_typeinf_add() {
    // (fun x . x +? 20) 10
    typeinf(app(fun("x", mv(0), add_overload(var("x"), num(20))), num(10))).unwrap();
}

#[test]
fn str_add() {
    // (fun x . x +? x) "everything is "
    println!(
        "{:?}",
        typeinf(app(
            fun("x", mv(0), add_overload(var("x"), var("x"))),
            string("everything is ")
        ))
        .unwrap()
    );
}

#[test]
fn add_str_int_any() {
    // (fun x . fun y . x +? y) "everything is " 10
    println!(
        "{:?}",
        typeinf(app(
            app(
                fun("x", mv(0), fun("y", mv(1), add_overload(var("x"), var("y")))),
                string("everything is ")
            ),
            num(10)
        ))
        .unwrap()
    );
}

#[test]
fn infer_arr() {
    // fun f . f 200
    println!("{:?}", typeinf(fun("f", mv(0), app(var("f"), num(200)))).unwrap());
}

#[test]
fn ambiguous_add() {
    // fun x . x +? x
    println!("{:?}", typeinf(fun("x", mv(0), add_overload(var("x"), var("x")))).unwrap());
}

#[test]
fn heterogenous_list() {
    // true :: 10 :: empty
    println!(
        "{:?}",
        typeinf(cons(boolean(true), cons(num(10), Exp::Empty(mv(0))))).unwrap()
    );
}

#[test]
fn make_pair() {
    // (fun x . fun y . x, y) 5 true
    succeeds(app(
        app(fun("x", mv(0), fun("y", mv(1), pair(var("x"), var("y")))), num(5)),
        boolean(true),
    ));
}

#[test]
fn over_optimized() {
    // let accepts_any = fun x . 5 in
    // accepts_any 5 + accepts_any 5 + accepts_any 5 +
    // accepts_any (if true then true else false)
    no_from_any(let_in(
        "accepts_any",
        fun("x", mv(0), num(5)),
        add(
            add(
                add(app(var("accepts_any"), num(5)), app(var("accepts_any"), num(5))),
                app(var("accepts_any"), num(5)),
            ),
            app(
                var("accepts_any"),
                if_then_else(boolean(true), boolean(true), boolean(false)),
            ),
        ),
    ));
}

#[test]
fn cond_int_bool() {
    // let f = fun b.fun x. if b then x + 1 else not x in
    // let y = f true 5 in
    // f false false
    println!(
        "{:?}",
        typeinf(let_in(
            "f",
            fun(
                "b",
                mv(0),
                fun(
                    "x",
                    mv(1),
                    if_then_else(var("b"), add(var("x"), num(1)), not(var("x")))
                )
            ),
            let_in(
                "y",
                app(app(var("f"), boolean(true)), num(5)),
                app(app(var("f"), boolean(false)), boolean(false))
            )
        ))
        .unwrap()
    );
}

#[test]
fn strengthen_not() {
    // let accepts_any = fun x . not x in
    // let _ = accepts_any true in
    // accepts_any 5
    coerces(let_in(
        "accepts_any",
        fun("x", mv(0), not(var("x"))),
        let_in(
            "_",
            app(var("accepts_any"), boolean(true)),
            app(var("accepts_any"), num(5)),
        ),
    ));
}

#[test]
fn force_any_then_cons() {
    // let force_any = fun x . 5 :: x in
    // let _ = force_any true in
    // force_any (10 :: empty:int)
    coerces(let_in(
        "force_any",
        fun("x", mv(0), cons(num(5), var("x"))),
        let_in(
            "_",
            app(var("force_any"), boolean(true)),
            app(var("force_any"), cons(num(10), Exp::Empty(Typ::Int))),
        ),
    ));
}

#[test]
fn rastogi_outflows() {
    // let b = true in
    // let foo = fun f. if b then f true else 0 in
    // if b then
    //     foo (fun x:bool.5)
    // else
    //     foo (fun x:int.5)
    coerces(let_in(
        "b",
        boolean(true),
        let_in(
            "foo",
            fun(
                "f",
                mv(0),
                if_then_else(var("b"), app(var("f"), boolean(true)), num(0)),
            ),
            if_then_else(
                var("b"),
                app(var("foo"), fun("x", Typ::Bool, num(5))),
                app(var("foo"), fun("x", Typ::Int, num(5))),
            ),
        ),
    ));
}
