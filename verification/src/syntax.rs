//! Types, literals and expressions of the object language.

use vstd::prelude::*;
use vstd::std_specs::cmp::PartialEqSpecImpl;

verus! {

/// A type of the object language.
#[derive(Debug)]
pub enum Typ {
    Int,
    Bool,
    Str,
    /// The dynamic type.
    Any,
    /// A function type, from domain to range.
    Arr(Box<Typ>, Box<Typ>),
    /// A homogeneous list.
    List(Box<Typ>),
    Pair(Box<Typ>, Box<Typ>),
    /// A placeholder for a type that the solver still has to choose.
    Metavar(u32),
}

impl Typ {
    /// No metavariable occurs in the type.
    pub open spec fn is_concrete(self) -> bool
        decreases self,
    {
        match self {
            Typ::Metavar(_) => false,
            Typ::Arr(a, b) => a.is_concrete() && b.is_concrete(),
            Typ::Pair(a, b) => a.is_concrete() && b.is_concrete(),
            Typ::List(a) => a.is_concrete(),
            _ => true,
        }
    }

    /// Whether no metavariable occurs in the type.
    pub fn concrete(&self) -> (r: bool)
        ensures
            r == self.is_concrete(),
        decreases *self,
    {
        match self {
            Typ::Metavar(_) => false,
            Typ::Arr(a, b) => a.concrete() && b.concrete(),
            Typ::Pair(a, b) => a.concrete() && b.concrete(),
            Typ::List(a) => a.concrete(),
            _ => true,
        }
    }

    /// Whether this is a function type.
    pub fn is_arr(&self) -> (r: bool)
        ensures
            r == (*self is Arr),
    {
        match self {
            Typ::Arr(_, _) => true,
            _ => false,
        }
    }

    /// Whether this is a list type.
    pub fn is_list(&self) -> (r: bool)
        ensures
            r == (*self is List),
    {
        match self {
            Typ::List(_) => true,
            _ => false,
        }
    }

    /// The number of a metavariable.
    pub fn expect_metavar(&self) -> (n: u32)
        requires
            *self is Metavar,
        ensures
            *self == Typ::Metavar(n),
    {
        match self {
            Typ::Metavar(n) => *n,
            _ => 0,
        }
    }
}

impl Clone for Typ {
    fn clone(&self) -> (r: Self)
        ensures
            r == *self,
        decreases *self,
    {
        match self {
            Typ::Int => Typ::Int,
            Typ::Bool => Typ::Bool,
            Typ::Str => Typ::Str,
            Typ::Any => Typ::Any,
            Typ::Arr(a, b) => Typ::Arr(Box::new((&**a).clone()), Box::new((&**b).clone())),
            Typ::List(a) => Typ::List(Box::new((&**a).clone())),
            Typ::Pair(a, b) => Typ::Pair(Box::new((&**a).clone()), Box::new((&**b).clone())),
            Typ::Metavar(n) => Typ::Metavar(*n),
        }
    }
}

impl PartialEq for Typ {
    fn eq(&self, other: &Self) -> (r: bool)
        decreases *self,
    {
        match (self, other) {
            (Typ::Int, Typ::Int) => true,
            (Typ::Bool, Typ::Bool) => true,
            (Typ::Str, Typ::Str) => true,
            (Typ::Any, Typ::Any) => true,
            (Typ::Arr(a, b), Typ::Arr(c, d)) => (&**a).eq(&**c) && (&**b).eq(&**d),
            (Typ::List(a), Typ::List(c)) => (&**a).eq(&**c),
            (Typ::Pair(a, b), Typ::Pair(c, d)) => (&**a).eq(&**c) && (&**b).eq(&**d),
            (Typ::Metavar(n), Typ::Metavar(m)) => *n == *m,
            _ => false,
        }
    }
}

impl PartialEqSpecImpl for Typ {
    open spec fn obeys_eq_spec() -> bool {
        true
    }

    open spec fn eq_spec(&self, other: &Self) -> bool {
        *self == *other
    }
}

/// A literal value.
#[derive(Debug)]
pub enum Lit {
    Int(i32),
    Bool(bool),
    Str(String),
}

impl Lit {
    /// The static type of the literal.
    pub open spec fn spec_typ(self) -> Typ {
        match self {
            Lit::Int(_) => Typ::Int,
            Lit::Bool(_) => Typ::Bool,
            Lit::Str(_) => Typ::Str,
        }
    }

    /// Two literals hold the same value.
    pub open spec fn same(self, other: Lit) -> bool {
        match (self, other) {
            (Lit::Int(a), Lit::Int(b)) => a == b,
            (Lit::Bool(a), Lit::Bool(b)) => a == b,
            (Lit::Str(a), Lit::Str(b)) => a@ == b@,
            _ => false,
        }
    }

    /// The static type of the literal.
    pub fn typ(&self) -> (t: Typ)
        ensures
            t == self.spec_typ(),
    {
        match self {
            Lit::Int(_) => Typ::Int,
            Lit::Bool(_) => Typ::Bool,
            Lit::Str(_) => Typ::Str,
        }
    }
}

impl Clone for Lit {
    fn clone(&self) -> (r: Self)
        ensures
            r == *self,
    {
        match self {
            Lit::Int(i) => Lit::Int(*i),
            Lit::Bool(b) => Lit::Bool(*b),
            Lit::Str(s) => Lit::Str(s.clone()),
        }
    }
}

impl PartialEq for Lit {
    fn eq(&self, other: &Self) -> (r: bool) {
        match (self, other) {
            (Lit::Int(a), Lit::Int(b)) => *a == *b,
            (Lit::Bool(a), Lit::Bool(b)) => *a == *b,
            (Lit::Str(a), Lit::Str(b)) => *a == *b,
            _ => false,
        }
    }
}

impl PartialEqSpecImpl for Lit {
    open spec fn obeys_eq_spec() -> bool {
        true
    }

    open spec fn eq_spec(&self, other: &Self) -> bool {
        self.same(*other)
    }
}

/// The name of a variable.
pub type Id = String;

/// An expression of the object language.
#[derive(Debug)]
pub enum Exp {
    Lit(Lit),
    Var(Id),
    /// A function literal: the parameter, its type, the body.
    Fun(Id, Typ, Box<Exp>),
    /// A recursive binding: the name, its type, the body.
    Fix(Id, Typ, Box<Exp>),
    App(Box<Exp>, Box<Exp>),
    Let(Id, Box<Exp>, Box<Exp>),
    Add(Box<Exp>, Box<Exp>),
    Mul(Box<Exp>, Box<Exp>),
    IntEq(Box<Exp>, Box<Exp>),
    Not(Box<Exp>),
    /// Addition of two integers or of two strings.
    AddOverload(Box<Exp>, Box<Exp>),
    If(Box<Exp>, Box<Exp>, Box<Exp>),
    Pair(Box<Exp>, Box<Exp>),
    Cons(Box<Exp>, Box<Exp>),
    /// The empty list, with the type of its elements.
    Empty(Typ),
    Head(Box<Exp>),
    Tail(Box<Exp>),
    IsEmpty(Box<Exp>),
    IsBool(Box<Exp>),
    IsInt(Box<Exp>),
    IsString(Box<Exp>),
    IsList(Box<Exp>),
    IsFun(Box<Exp>),
    /// A conversion of the inner expression from the first type to the second.
    Coerce(Typ, Typ, Box<Exp>),
}

impl Exp {
    /// What `take` leaves behind.
    pub open spec fn placeholder() -> Exp {
        Exp::Lit(Lit::Int(0))
    }

    /// Two expressions are the same tree, names compared letter by letter.
    pub open spec fn same(self, other: Exp) -> bool
        decreases self,
    {
        match (self, other) {
            (Exp::Lit(a), Exp::Lit(b)) => a.same(b),
            (Exp::Var(x), Exp::Var(y)) => x@ == y@,
            (Exp::Fun(x, t, e), Exp::Fun(y, u, f)) => x@ == y@ && t == u && e.same(*f),
            (Exp::Fix(x, t, e), Exp::Fix(y, u, f)) => x@ == y@ && t == u && e.same(*f),
            (Exp::App(a, b), Exp::App(c, d)) => a.same(*c) && b.same(*d),
            (Exp::Let(x, a, b), Exp::Let(y, c, d)) => x@ == y@ && a.same(*c) && b.same(*d),
            (Exp::Add(a, b), Exp::Add(c, d)) => a.same(*c) && b.same(*d),
            (Exp::Mul(a, b), Exp::Mul(c, d)) => a.same(*c) && b.same(*d),
            (Exp::IntEq(a, b), Exp::IntEq(c, d)) => a.same(*c) && b.same(*d),
            (Exp::Not(a), Exp::Not(c)) => a.same(*c),
            (Exp::AddOverload(a, b), Exp::AddOverload(c, d)) => a.same(*c) && b.same(*d),
            (Exp::If(a, b, e), Exp::If(c, d, f)) => a.same(*c) && b.same(*d) && e.same(*f),
            (Exp::Pair(a, b), Exp::Pair(c, d)) => a.same(*c) && b.same(*d),
            (Exp::Cons(a, b), Exp::Cons(c, d)) => a.same(*c) && b.same(*d),
            (Exp::Empty(t), Exp::Empty(u)) => t == u,
            (Exp::Head(a), Exp::Head(c)) => a.same(*c),
            (Exp::Tail(a), Exp::Tail(c)) => a.same(*c),
            (Exp::IsEmpty(a), Exp::IsEmpty(c)) => a.same(*c),
            (Exp::IsBool(a), Exp::IsBool(c)) => a.same(*c),
            (Exp::IsInt(a), Exp::IsInt(c)) => a.same(*c),
            (Exp::IsString(a), Exp::IsString(c)) => a.same(*c),
            (Exp::IsList(a), Exp::IsList(c)) => a.same(*c),
            (Exp::IsFun(a), Exp::IsFun(c)) => a.same(*c),
            (Exp::Coerce(t, u, a), Exp::Coerce(v, w, c)) => t == v && u == w && a.same(*c),
            _ => false,
        }
    }

    /// Moves the expression out and leaves a placeholder in its place.
    pub fn take(&mut self) -> (r: Exp)
        ensures
            r == *old(self),
            *final(self) == Exp::placeholder(),
    {
        let mut out = Exp::Lit(Lit::Int(0));
        std::mem::swap(self, &mut out);
        out
    }

    /// Whether the expression is a literal or a variable.
    pub fn is_atom(&self) -> (r: bool)
        ensures
            r == (*self is Lit || *self is Var),
    {
        match self {
            Exp::Lit(_) => true,
            Exp::Var(_) => true,
            _ => false,
        }
    }

    /// Whether the expression is a function literal.
    pub fn is_fun_exp(&self) -> (r: bool)
        ensures
            r == (*self is Fun),
    {
        match self {
            Exp::Fun(_, _, _) => true,
            _ => false,
        }
    }

    /// Whether the expression is a coercion.
    pub fn is_coercion(&self) -> (r: bool)
        ensures
            r == (*self is Coerce),
    {
        match self {
            Exp::Coerce(_, _, _) => true,
            _ => false,
        }
    }
}

impl Clone for Exp {
    fn clone(&self) -> (r: Self)
        ensures
            r == *self,
        decreases *self,
    {
        match self {
            Exp::Lit(l) => Exp::Lit(l.clone()),
            Exp::Var(x) => Exp::Var(x.clone()),
            Exp::Fun(x, t, e) => Exp::Fun(x.clone(), t.clone(), Box::new((&**e).clone())),
            Exp::Fix(x, t, e) => Exp::Fix(x.clone(), t.clone(), Box::new((&**e).clone())),
            Exp::App(a, b) => Exp::App(Box::new((&**a).clone()), Box::new((&**b).clone())),
            Exp::Let(x, a, b) => Exp::Let(
                x.clone(),
                Box::new((&**a).clone()),
                Box::new((&**b).clone()),
            ),
            Exp::Add(a, b) => Exp::Add(Box::new((&**a).clone()), Box::new((&**b).clone())),
            Exp::Mul(a, b) => Exp::Mul(Box::new((&**a).clone()), Box::new((&**b).clone())),
            Exp::IntEq(a, b) => Exp::IntEq(Box::new((&**a).clone()), Box::new((&**b).clone())),
            Exp::Not(a) => Exp::Not(Box::new((&**a).clone())),
            Exp::AddOverload(a, b) => Exp::AddOverload(
                Box::new((&**a).clone()),
                Box::new((&**b).clone()),
            ),
            Exp::If(a, b, c) => Exp::If(
                Box::new((&**a).clone()),
                Box::new((&**b).clone()),
                Box::new((&**c).clone()),
            ),
            Exp::Pair(a, b) => Exp::Pair(Box::new((&**a).clone()), Box::new((&**b).clone())),
            Exp::Cons(a, b) => Exp::Cons(Box::new((&**a).clone()), Box::new((&**b).clone())),
            Exp::Empty(t) => Exp::Empty(t.clone()),
            Exp::Head(a) => Exp::Head(Box::new((&**a).clone())),
            Exp::Tail(a) => Exp::Tail(Box::new((&**a).clone())),
            Exp::IsEmpty(a) => Exp::IsEmpty(Box::new((&**a).clone())),
            Exp::IsBool(a) => Exp::IsBool(Box::new((&**a).clone())),
            Exp::IsInt(a) => Exp::IsInt(Box::new((&**a).clone())),
            Exp::IsString(a) => Exp::IsString(Box::new((&**a).clone())),
            Exp::IsList(a) => Exp::IsList(Box::new((&**a).clone())),
            Exp::IsFun(a) => Exp::IsFun(Box::new((&**a).clone())),
            Exp::Coerce(t, u, a) => Exp::Coerce(t.clone(), u.clone(), Box::new((&**a).clone())),
        }
    }
}

impl PartialEq for Exp {
    fn eq(&self, other: &Self) -> (r: bool)
        decreases *self,
    {
        match (self, other) {
            (Exp::Lit(a), Exp::Lit(b)) => a.eq(b),
            (Exp::Var(x), Exp::Var(y)) => *x == *y,
            (Exp::Fun(x, t, e), Exp::Fun(y, u, f)) => *x == *y && t.eq(u) && (&**e).eq(&**f),
            (Exp::Fix(x, t, e), Exp::Fix(y, u, f)) => *x == *y && t.eq(u) && (&**e).eq(&**f),
            (Exp::App(a, b), Exp::App(c, d)) => (&**a).eq(&**c) && (&**b).eq(&**d),
            (Exp::Let(x, a, b), Exp::Let(y, c, d)) => *x == *y && (&**a).eq(&**c) && (&**b).eq(
                &**d,
            ),
            (Exp::Add(a, b), Exp::Add(c, d)) => (&**a).eq(&**c) && (&**b).eq(&**d),
            (Exp::Mul(a, b), Exp::Mul(c, d)) => (&**a).eq(&**c) && (&**b).eq(&**d),
            (Exp::IntEq(a, b), Exp::IntEq(c, d)) => (&**a).eq(&**c) && (&**b).eq(&**d),
            (Exp::Not(a), Exp::Not(c)) => (&**a).eq(&**c),
            (Exp::AddOverload(a, b), Exp::AddOverload(c, d)) => (&**a).eq(&**c) && (&**b).eq(
                &**d,
            ),
            (Exp::If(a, b, e), Exp::If(c, d, f)) => (&**a).eq(&**c) && (&**b).eq(&**d) && (
            &**e).eq(&**f),
            (Exp::Pair(a, b), Exp::Pair(c, d)) => (&**a).eq(&**c) && (&**b).eq(&**d),
            (Exp::Cons(a, b), Exp::Cons(c, d)) => (&**a).eq(&**c) && (&**b).eq(&**d),
            (Exp::Empty(t), Exp::Empty(u)) => t.eq(u),
            (Exp::Head(a), Exp::Head(c)) => (&**a).eq(&**c),
            (Exp::Tail(a), Exp::Tail(c)) => (&**a).eq(&**c),
            (Exp::IsEmpty(a), Exp::IsEmpty(c)) => (&**a).eq(&**c),
            (Exp::IsBool(a), Exp::IsBool(c)) => (&**a).eq(&**c),
            (Exp::IsInt(a), Exp::IsInt(c)) => (&**a).eq(&**c),
            (Exp::IsString(a), Exp::IsString(c)) => (&**a).eq(&**c),
            (Exp::IsList(a), Exp::IsList(c)) => (&**a).eq(&**c),
            (Exp::IsFun(a), Exp::IsFun(c)) => (&**a).eq(&**c),
            (Exp::Coerce(t, u, a), Exp::Coerce(v, w, c)) => t.eq(v) && u.eq(w) && (&**a).eq(&**c),
            _ => false,
        }
    }
}

impl PartialEqSpecImpl for Exp {
    open spec fn obeys_eq_spec() -> bool {
        true
    }

    open spec fn eq_spec(&self, other: &Self) -> bool {
        self.same(*other)
    }
}

} // verus!
