//! The name of a worker: given to the `#[worker]` attribute, or derived from
//! the function's name in PascalCase.

use convert_case::{Case, Casing};
use vstd::prelude::*;

verus! {

/// The PascalCase form of a name, as the `convert_case` crate computes it:
/// the name split into words, each word capitalised, and the words joined.
pub uninterp spec fn pascal_case(s: Seq<char>) -> Seq<char>;

/// Converts a name to PascalCase with `convert_case`'s `to_case(Case::Pascal)`.
/// The result is `pascal_case` of the name; the contract says nothing more
/// of how the words are found.
#[verifier::external_body]
fn to_pascal_case(s: &str) -> (r: String)
    ensures
        r@ == pascal_case(s@),
{
    s.to_case(Case::Pascal)
}

/// The argument of the `#[worker]` attribute.
#[derive(Debug)]
pub enum WorkerNameArg {
    /// An identifier, the worker's name.
    Given(String),
    /// No argument.
    Absent,
    /// Something that is not an identifier.
    Invalid,
}

/// Why the `#[worker]` attribute refuses its input.
#[derive(Clone, Copy, PartialEq, Eq, Debug)]
pub enum ParseError {
    /// The attribute stands on something other than a function.
    NotAFunction,
    /// The attribute's argument is not an identifier.
    InvalidWorkerName,
}

/// The name of the worker: the attribute's identifier, or else the
/// function's name in PascalCase. The attribute must stand on a function,
/// which is checked first, and its argument must be an identifier or absent.
pub fn worker_name(is_function: bool, arg: WorkerNameArg, function_name: &str) -> (r: Result<
    String,
    ParseError,
>)
    ensures
        !is_function ==> r == Err::<String, ParseError>(ParseError::NotAFunction),
        is_function ==> match arg {
            WorkerNameArg::Given(name) => r == Ok::<String, ParseError>(name),
            WorkerNameArg::Absent => r matches Ok(name) && name@ == pascal_case(function_name@),
            WorkerNameArg::Invalid => r == Err::<String, ParseError>(ParseError::InvalidWorkerName),
        },
{
    if !is_function {
        return Err(ParseError::NotAFunction);
    }
    match arg {
        WorkerNameArg::Given(name) => Ok(name),
        WorkerNameArg::Absent => Ok(to_pascal_case(function_name)),
        WorkerNameArg::Invalid => Err(ParseError::InvalidWorkerName),
    }
}

} // verus!
