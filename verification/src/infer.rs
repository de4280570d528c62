//! The driver of one migration: generate, solve, resolve.

use crate::annotate::annotate;
use crate::backend::{config_new, context_new, Verdict};
use crate::cgen::Generator;
use crate::encode::Codec;
use crate::env::{no_bindings, Env};
use crate::error::MigrationError;
use crate::formula::{metavars_of, Formula};
use crate::laws::{lemma_strengthen_sound, lemma_weaken_safe, Position};
use crate::solution::{all_concrete, Solution};
use crate::supply::MetavarSupply;
use crate::syntax::{Exp, Typ};
use vstd::prelude::*;

verus! {

/// The weight of each preference.
pub const SOFT_WEIGHT: u32 = 1;

/// What the solver made of the constraints of a program.
pub enum SolverOutcome {
    /// The constraints can be satisfied, and this solution is said to do so.
    Sat(Solution),
    /// The constraints cannot be satisfied.
    Unsat,
    /// The solver could not decide.
    Unknown,
    /// The solver did not answer as its interface says it does.
    Broken,
}

/// `out` is a migration of `program`: the program that the typing rules
/// make of `program`, without bindings around it and with fresh
/// metavariables above those of `program`, resolved by concrete choices
/// that satisfy its constraint.
pub open spec fn is_migration_of(out: Exp, program: Exp) -> bool {
    exists|choices: Map<u32, Typ>|
        {
            &&& all_concrete(choices)
            &&& (#[trigger] program.generated(no_bindings(), program.metavar_bound()).hard.holds(
                choices,
            ))
            &&& out == program.generated(no_bindings(), program.metavar_bound()).tree.resolved(
                choices,
            )
        }
}

/// What the solver's verdict and the reading of its model come to: the
/// verdict itself where the constraints cannot be satisfied or the solver
/// cannot tell, and else the solution read, or that the solver broke its
/// word where no solution could be read.
pub open spec fn judged(verdict: Verdict, reading: Option<Solution>) -> SolverOutcome {
    match verdict {
        Verdict::Unsat => SolverOutcome::Unsat,
        Verdict::Unknown => SolverOutcome::Unknown,
        Verdict::Sat => match reading {
            Some(solution) => SolverOutcome::Sat(solution),
            None => SolverOutcome::Broken,
        },
    }
}

/// What the solver's verdict and the reading of its model come to.
pub fn judge(verdict: Verdict, reading: Option<Solution>) -> (outcome: SolverOutcome)
    ensures
        outcome == judged(verdict, reading),
{
    match verdict {
        Verdict::Unsat => SolverOutcome::Unsat,
        Verdict::Unknown => SolverOutcome::Unknown,
        Verdict::Sat => match reading {
            Some(solution) => SolverOutcome::Sat(solution),
            None => SolverOutcome::Broken,
        },
    }
}

/// Hands the constraints to the solver, each preference with the same
/// weight, asks for a model that satisfies `hard` and as many of `soft` as
/// can be, and reads the types that it chose.
pub fn solve(hard: &Formula, soft: &Vec<Formula>) -> (outcome: SolverOutcome)
    ensures
        outcome matches SolverOutcome::Sat(solution) ==> solution@.dom() == metavars_of(
            soft@,
        ).union(hard.metavars()),
{
    let cfg = config_new();
    let ctx = context_new(&cfg);
    let mut codec = Codec::new(&ctx);
    if !codec.pose(hard, soft, SOFT_WEIGHT) {
        return SolverOutcome::Broken;
    }
    let verdict = codec.check();
    let reading = match &verdict {
        Verdict::Sat => match codec.model() {
            Some(model) => codec.read_solution(&model),
            None => None,
        },
        _ => None,
    };
    judge(verdict, reading)
}

/// What a migration comes to once the solver has spoken: the generated
/// program `tree` resolved by the solution, if there is one and it
/// satisfies `hard`, and else the error that says why there is none.
pub fn conclude(tree: Exp, hard: &Formula, outcome: SolverOutcome) -> (r: Result<
    Exp,
    MigrationError,
>)
    ensures
        match outcome {
            SolverOutcome::Sat(solution) => if hard.holds(solution@) {
                r == Ok::<Exp, MigrationError>(tree.resolved(solution@))
            } else {
                r == Err::<Exp, MigrationError>(MigrationError::InvariantViolation)
            },
            SolverOutcome::Unsat => r == Err::<Exp, MigrationError>(
                MigrationError::MigrationFailed,
            ),
            SolverOutcome::Unknown => r == Err::<Exp, MigrationError>(
                MigrationError::BackendIndeterminate,
            ),
            SolverOutcome::Broken => r == Err::<Exp, MigrationError>(
                MigrationError::InvariantViolation,
            ),
        },
        outcome matches SolverOutcome::Sat(solution) ==> all_concrete(solution@),
        r matches Ok(out) ==> out.is_concrete() && out.is_settled(),
{
    match outcome {
        SolverOutcome::Sat(solution) => {
            solution.known_concrete();
            if hard.eval(&solution) {
                let mut out = tree;
                annotate(&solution, &mut out);
                Ok(out)
            } else {
                Err(MigrationError::InvariantViolation)
            }
        },
        SolverOutcome::Unsat => Err(MigrationError::MigrationFailed),
        SolverOutcome::Unknown => Err(MigrationError::BackendIndeterminate),
        SolverOutcome::Broken => Err(MigrationError::InvariantViolation),
    }
}

/// Migrates a program: infers a type for each of its metavariables and
/// inserts a coercion wherever a value crosses between two types that
/// differ.
///
/// The metavariables that the typing rules take are numbered from the
/// largest number in the program upwards, not around the numbers in use. A
/// program that holds a metavariable with a number close to the largest
/// there is, and needs fresh ones, therefore fails with
/// `MetavarsExhausted` though lower numbers are free.
pub fn typeinf(exp: Exp) -> (r: Result<Exp, MigrationError>)
    ensures
        match r {
            Ok(out) => {
                &&& exp.fits()
                &&& exp.first_unbound(Set::empty()) is None
                &&& is_migration_of(out, exp)
                &&& out.is_concrete()
                &&& out.is_settled()
                &&& exp.is_coercion_free() ==> out.licensed(Position::Elimination)
                    && out.licensed(Position::Introduction)
            },
            Err(MigrationError::UnboundIdentifier(x)) => exp.first_unbound(Set::empty())
                == Some(x),
            Err(MigrationError::MetavarsExhausted) => exp.first_unbound(Set::empty()) is None
                && !exp.fits(),
            Err(_) => exp.first_unbound(Set::empty()) is None && exp.fits(),
        },
{
    let ghost program = exp;
    let mut exp = exp;
    let env = Env::new();
    assert(env@.dom() =~= Set::<Seq<char>>::empty());
    match exp.unbound(&env) {
        Some(x) => {
            return Err(MigrationError::UnboundIdentifier(x));
        },
        None => {},
    }
    let supply = match MetavarSupply::for_program(&exp) {
        Some(supply) => supply,
        None => {
            return Err(MigrationError::MetavarsExhausted);
        },
    };
    let ghost start = supply.next as nat;
    let mut generator = Generator::new(supply);
    let (_, phi) = generator.generate(&env, &mut exp);
    let outcome = solve(&phi, &generator.soft);
    let ghost answer = outcome;
    let r = conclude(exp, &phi, outcome);
    proof {
        if r is Ok {
            let choices = answer->Sat_0@;
            assert(program.generated(no_bindings(), start).hard.holds(choices));
            if program.is_coercion_free() {
                lemma_strengthen_sound(program, no_bindings(), start, choices);
                lemma_weaken_safe(program, no_bindings(), start, choices);
            }
        }
    }
    r
}

} // verus!
