//! Checks that are made one after another.

use crate::dictionary;
use crate::error::{Failure, MeshError};
use crate::reals;
use crate::reals::{Real, RealKind, RealView};
use crate::text;
use vstd::prelude::*;

verus! {

/// The first check, and where it passes the second.
pub open spec fn both(first: Result<(), Failure>, second: Result<(), Failure>) -> Result<
    (),
    Failure,
> {
    match first {
        Err(failure) => Err(failure),
        Ok(_) => second,
    }
}

/// A check that passes where `passed`.
pub open spec fn unless(passed: bool, message: Seq<char>) -> Result<(), Failure> {
    if passed {
        Ok(())
    } else {
        Err(Failure::InvalidInput(message))
    }
}

/// A number that must be finite and above zero.
pub open spec fn positive(message: Seq<char>, value: RealView) -> Result<(), Failure> {
    unless(value.positive(), message + value.display)
}

/// A number that must be finite and not below zero.
pub open spec fn non_negative(message: Seq<char>, value: RealView) -> Result<(), Failure> {
    unless(
        value.kind != RealKind::NotFinite && value.kind != RealKind::Negative,
        message + value.display,
    )
}

/// A number that, where it is given, must be finite and not below zero.
pub open spec fn opt_non_negative(message: Seq<char>, value: Option<RealView>) -> Result<
    (),
    Failure,
> {
    match value {
        Some(inner) => non_negative(message, inner),
        None => Ok(()),
    }
}

/// A number that must be above zero and at most one.
pub open spec fn fraction(message: Seq<char>, value: RealView) -> Result<(), Failure> {
    unless(value.kind == RealKind::UpToOne, message + value.display)
}

/// The outcome of a check is the one that its contract names.
pub open spec fn agrees(out: Result<(), MeshError>, named: Result<(), Failure>) -> bool {
    match out {
        Ok(done) => dictionary::gives(named, done),
        Err(error) => dictionary::fails(named, error),
    }
}

fn value_error(message: &str, value: &Real) -> (error: MeshError)
    ensures
        error@ == Failure::InvalidInput(message@ + value@.display),
{
    let mut text = message.to_string();
    text.append(value.display.as_str());
    MeshError::InvalidInput(text)
}

/// A number that must be finite and above zero.
pub fn check_positive(message: &str, value: &Real) -> (out: Result<(), MeshError>)
    ensures
        agrees(out, positive(message@, value@)),
{
    if value.is_positive() {
        Ok(())
    } else {
        Err(value_error(message, value))
    }
}

/// A number that must be finite and not below zero.
pub fn check_non_negative(message: &str, value: &Real) -> (out: Result<(), MeshError>)
    ensures
        agrees(out, non_negative(message@, value@)),
{
    if value.kind != RealKind::NotFinite && value.kind != RealKind::Negative {
        Ok(())
    } else {
        Err(value_error(message, value))
    }
}

/// A number that, where it is given, must be finite and not below zero.
pub fn check_opt_non_negative(message: &str, value: &Option<Real>) -> (out: Result<(), MeshError>)
    ensures
        agrees(out, opt_non_negative(message@, reals::opt_real(*value))),
{
    match value {
        Some(inner) => check_non_negative(message, inner),
        None => Ok(()),
    }
}

/// A number that must be above zero and at most one.
pub fn check_fraction(message: &str, value: &Real) -> (out: Result<(), MeshError>)
    ensures
        agrees(out, fraction(message@, value@)),
{
    if value.kind == RealKind::UpToOne {
        Ok(())
    } else {
        Err(value_error(message, value))
    }
}

/// A check that passes where `passed`.
pub fn check(passed: bool, message: &str) -> (out: Result<(), MeshError>)
    ensures
        agrees(out, unless(passed, message@)),
{
    if passed {
        Ok(())
    } else {
        Err(MeshError::InvalidInput(message.to_string()))
    }
}

/// What is said of a list with the wrong number of values.
pub open spec fn count_line(what: Seq<char>, found: nat, expected: nat, unit: Seq<char>) -> Seq<
    char,
> {
    what + " has "@ + text::decimal(found) + " values, expected "@ + text::decimal(expected)
        + " mesh "@ + unit
}

/// A list that must have one value for each cell or face (`unit`) of a mesh.
pub fn check_count(what: &str, found: usize, expected: usize, unit: &str) -> (out: Result<
    (),
    MeshError,
>)
    ensures
        agrees(
            out,
            unless(
                found == expected,
                count_line(what@, found as nat, expected as nat, unit@),
            ),
        ),
{
    if found == expected {
        return Ok(());
    }
    let mut message = what.to_string();
    message.append(" has ");
    message.append(text::number_text(found).as_str());
    message.append(" values, expected ");
    message.append(text::number_text(expected).as_str());
    message.append(" mesh ");
    message.append(unit);
    Err(MeshError::InvalidInput(message))
}

/// What is said of a list where one with another number of values is expected.
pub open spec fn expected_line(
    what: Seq<char>,
    expected: nat,
    unit: Seq<char>,
    found: nat,
) -> Seq<char> {
    what + " expected "@ + text::decimal(expected) + unit + ", got "@ + text::decimal(found)
}

/// A list that must have so many values.
pub fn check_expected(what: &str, expected: usize, unit: &str, found: usize) -> (out: Result<
    (),
    MeshError,
>)
    ensures
        agrees(
            out,
            unless(
                found == expected,
                expected_line(what@, expected as nat, unit@, found as nat),
            ),
        ),
{
    if found == expected {
        return Ok(());
    }
    let mut message = what.to_string();
    message.append(" expected ");
    message.append(text::number_text(expected).as_str());
    message.append(unit);
    message.append(", got ");
    message.append(text::number_text(found).as_str());
    Err(MeshError::InvalidInput(message))
}

} // verus!
