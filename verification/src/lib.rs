//! A library for generating random algebraic formulas and exporting them to
//! markup text.
//!
//! The trees are generated depth-first with an independent random operator
//! draw at every level; the exporter inserts the fewest parentheses needed
//! to keep the flattened text unambiguous. The validating entry point checks
//! the configuration once, before any recursion.

use vstd::prelude::*;

pub mod digits;
pub mod formula;
pub mod monomial;
pub mod polynomial;
mod rng;

use crate::formula::{Formula, Info, OperatorFlag};

verus! {

/// The enum for denoting error(s).
#[derive(Debug, PartialEq, Eq, Structural, Copy, Clone)]
pub enum ErrorKind {
    /// At least one of the arguments can't meet its criterion.
    WrongNumber,
    /// No operator flags provided.
    NoFlag,
}

/// Generates a formula AST, validating the configuration exactly once.
///
/// - `depth`: the depth of the AST of the formula (`depth >= 0`).
/// - `exponent_limit`: the bound on the exponents of the monomials, drawn
///   from `[0, exponent_limit)` (`exponent_limit >= 1`).
/// - `coefficient_limit`: the bound on the coefficients of the monomials,
///   drawn from `[1, coefficient_limit)` (`coefficient_limit >= 2`).
/// - `operator_flags`: the non-empty collection of operators eligible for
///   the random draws.
///
/// A range violation yields `WrongNumber` and an empty flag collection
/// yields `NoFlag`, each exactly on the stated inputs; otherwise the result
/// is a well-formed tree no taller than `depth`.
pub fn generate(
    depth: i64,
    exponent_limit: i64,
    coefficient_limit: i64,
    operator_flags: &Vec<OperatorFlag>,
) -> (r: Result<Formula, ErrorKind>)
    ensures
        (depth < 0 || exponent_limit < 1 || coefficient_limit < 2) <==> r == Err::<
            Formula,
            ErrorKind,
        >(ErrorKind::WrongNumber),
        (depth >= 0 && exponent_limit >= 1 && coefficient_limit >= 2 && operator_flags@.len()
            == 0) <==> r == Err::<Formula, ErrorKind>(ErrorKind::NoFlag),
        (depth >= 0 && exponent_limit >= 1 && coefficient_limit >= 2 && operator_flags@.len()
            > 0) <==> r is Ok,
        r matches Ok(f) ==> f.wf() && f.height() <= depth && f.conforms(
            exponent_limit as int,
            coefficient_limit as int,
            operator_flags@,
        ) && f.leaves_at_depth(depth as int),
{
    if depth < 0 || exponent_limit < 1 || coefficient_limit < 2 {
        Err(ErrorKind::WrongNumber)
    } else if operator_flags.len() == 0 {
        Err(ErrorKind::NoFlag)
    } else {
        Ok(Formula::generate(Info::new(depth, exponent_limit, coefficient_limit, operator_flags)))
    }
}

} // verus!
