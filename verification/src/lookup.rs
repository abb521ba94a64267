//! Values in the flattened dictionaries of a case.

use crate::arguments;
use crate::flow;
use crate::flow::{LaminarSimpleLinearSolver, LaminarSimplePreconditioner};
use crate::plan::{
    SolverNumericsDictionaryPlan, SolverNumericsEntryPlan, SolverNumericsSectionPlan,
    SolverPropertyEntryPlan,
};
use crate::reals;
use crate::reals::{Real, RealKind, RealView, Readings};
use crate::text;
use crate::text::CharClass;
use vstd::prelude::*;

verus! {

/// The first entry from `at` on of a section with a key.
pub open spec fn entry_from(
    entries: Seq<SolverNumericsEntryPlan>,
    section: Seq<char>,
    key: Seq<char>,
    at: int,
) -> Option<Seq<char>>
    decreases entries.len() - at,
{
    if at >= entries.len() {
        None
    } else if entries[at].section@ == section && entries[at].key@ == key {
        Some(entries[at].value@)
    } else {
        entry_from(entries, section, key, at + 1)
    }
}

/// The value of a key in a section: that of its first entry.
pub open spec fn value_of(
    dictionary: SolverNumericsDictionaryPlan,
    section: Seq<char>,
    key: Seq<char>,
) -> Option<Seq<char>> {
    entry_from(dictionary.entries@, section, key, 0)
}

/// The last of the first `n` words that is a number, brackets round it aside.
pub open spec fn number_before(readings: Readings, words: Seq<Seq<char>>, n: int) -> Option<RealView>
    decreases n,
{
    if n <= 0 {
        None
    } else {
        match readings.number(text::strip(CharClass::Brackets, words[n - 1])) {
            Some(number) => Some(number),
            None => number_before(readings, words, n - 1),
        }
    }
}

/// The last number of a value.
pub open spec fn number_of(readings: Readings, value: Seq<char>) -> Option<RealView> {
    number_before(readings, text::words(value), text::words(value).len() as int)
}

/// The last of the first `n` words that is a count, brackets round it aside.
pub open spec fn count_before(words: Seq<Seq<char>>, n: int) -> Option<nat>
    decreases n,
{
    if n <= 0 {
        None
    } else {
        match text::natural(text::strip(CharClass::Brackets, words[n - 1]), usize::MAX as nat) {
            Some(count) => Some(count),
            None => count_before(words, n - 1),
        }
    }
}

/// The last count of a value.
pub open spec fn count_of(value: Seq<char>) -> Option<nat> {
    count_before(text::words(value), text::words(value).len() as int)
}

/// The first property from `at` on with a dictionary, a section and a key.
pub open spec fn property_from(
    entries: Seq<SolverPropertyEntryPlan>,
    dictionary: Seq<char>,
    section: Option<Seq<char>>,
    key: Seq<char>,
    at: int,
) -> Option<Seq<char>>
    decreases entries.len() - at,
{
    if at >= entries.len() {
        None
    } else if entries[at].dictionary@ == dictionary && text::opt_text(entries[at].section)
        == section && entries[at].key@ == key {
        Some(entries[at].value@)
    } else {
        property_from(entries, dictionary, section, key, at + 1)
    }
}

/// The number of a property outside any section.
pub open spec fn property(
    readings: Readings,
    entries: Seq<SolverPropertyEntryPlan>,
    dictionary: Seq<char>,
    key: Seq<char>,
) -> Option<RealView> {
    match property_from(entries, dictionary, None, key, 0) {
        Some(value) => number_of(readings, value),
        None => None,
    }
}

/// What is said of a value that is not what it should be.
pub open spec fn wrong(section: Seq<char>, key: Seq<char>, expected: Seq<char>, value: Seq<char>) -> Seq<
    char,
> {
    "fvSolution "@ + section + "."@ + key + expected + ", got '"@ + value + "'"@
}

/// A number of the solution controls.
pub open spec fn solution_number(
    readings: Readings,
    dictionary: SolverNumericsDictionaryPlan,
    section: Seq<char>,
    key: Seq<char>,
) -> Result<Option<RealView>, Seq<char>> {
    match value_of(dictionary, section, key) {
        None => Ok(None),
        Some(value) => match number_of(readings, value) {
            Some(number) => Ok(Some(number)),
            None => Err(wrong(section, key, " must contain a numeric value"@, value)),
        },
    }
}

/// A number of the solution controls that must stand alone.
pub open spec fn solution_scalar(
    readings: Readings,
    dictionary: SolverNumericsDictionaryPlan,
    section: Seq<char>,
    key: Seq<char>,
) -> Result<Option<RealView>, Seq<char>> {
    match value_of(dictionary, section, key) {
        None => Ok(None),
        Some(value) => {
            let words = text::words(flow::bare_word(value));
            if words.len() == 1 && readings.number(words[0]) is Some {
                Ok(Some(readings.number(words[0])->0))
            } else {
                Err(wrong(section, key, " must be one scalar value"@, value))
            }
        },
    }
}

/// A truth value of the solution controls.
pub open spec fn solution_flag(
    dictionary: SolverNumericsDictionaryPlan,
    section: Seq<char>,
    key: Seq<char>,
) -> Result<Option<bool>, Seq<char>> {
    match value_of(dictionary, section, key) {
        None => Ok(None),
        Some(value) => match arguments::truth(value) {
            Some(found) => Ok(Some(found)),
            None => Err(wrong(section, key, " must be true/false or yes/no"@, value)),
        },
    }
}

/// A count of the solution controls.
pub open spec fn solution_count(
    dictionary: SolverNumericsDictionaryPlan,
    section: Seq<char>,
    key: Seq<char>,
) -> Result<Option<nat>, Seq<char>> {
    match value_of(dictionary, section, key) {
        None => Ok(None),
        Some(value) => match text::natural(flow::bare_word(value), usize::MAX as nat) {
            Some(count) => Ok(Some(count)),
            None => Err(wrong(section, key, " must contain a non-negative integer"@, value)),
        },
    }
}

/// The linear solver of the solution controls.
pub open spec fn solution_solver(
    dictionary: SolverNumericsDictionaryPlan,
    section: Seq<char>,
) -> Result<LaminarSimpleLinearSolver, Seq<char>> {
    match value_of(dictionary, section, "solver"@) {
        None => Err("fvSolution "@ + section + " requires a solver entry"@),
        Some(value) => if flow::bare_word(value) == "smoothSolver"@ {
            match value_of(dictionary, section, "smoother"@) {
                None => Err(
                    "fvSolution "@ + section + " smoothSolver requires a smoother entry"@,
                ),
                Some(smoother) => {
                    let word = flow::bare_word(smoother);
                    if word == "GaussSeidel"@ || word == "gaussSeidel"@ {
                        Ok(LaminarSimpleLinearSolver::GaussSeidel)
                    } else if word == "symGaussSeidel"@ {
                        Ok(LaminarSimpleLinearSolver::SymGaussSeidel)
                    } else {
                        Err(
                            "unsupported fvSolution "@ + section + " smoother '"@ + word
                                + "'; Ferrum currently supports GaussSeidel and symGaussSeidel"@,
                        )
                    }
                },
            }
        } else {
            flow::solver_named(value)
        },
    }
}

/// The preconditioner of a linear solver: the one that is asked for, or that
/// of the solution controls where the solver takes one.
pub open spec fn solution_preconditioner(
    dictionary: SolverNumericsDictionaryPlan,
    section: Seq<char>,
    solver: LaminarSimpleLinearSolver,
    explicit: Option<LaminarSimplePreconditioner>,
) -> Result<LaminarSimplePreconditioner, Seq<char>> {
    match explicit {
        Some(preconditioner) => Ok(preconditioner),
        None => if solver != LaminarSimpleLinearSolver::Pcg && solver
            != LaminarSimpleLinearSolver::BiCgStab {
            Ok(LaminarSimplePreconditioner::Absent)
        } else {
            match value_of(dictionary, section, "preconditioner"@) {
                None => Err("fvSolution "@ + section + " requires a preconditioner entry"@),
                Some(value) => flow::preconditioner_named(value),
            }
        },
    }
}

/// Whether the solution controls ask for nothing that the linear solvers
/// would pass over.
pub open spec fn controls_checked(
    readings: Readings,
    dictionary: SolverNumericsDictionaryPlan,
    section: Seq<char>,
    solver: LaminarSimpleLinearSolver,
) -> Result<(), Seq<char>> {
    match solution_number(readings, dictionary, section, "relTol"@) {
        Err(message) => Err(message),
        Ok(tolerance) => if tolerance is Some && tolerance->0.kind != RealKind::Zero {
            Err(
                "fvSolution "@ + section + ".relTol="@ + tolerance->0.display
                    + " is not implemented yet; Ferrum refuses to ignore a non-zero OpenFOAM relative tolerance"@,
            )
        } else {
            match solution_count(dictionary, section, "minIter"@) {
                Err(message) => Err(message),
                Ok(iterations) => if iterations is Some && iterations->0 != 0 {
                    Err(
                        "fvSolution "@ + section + ".minIter="@ + text::decimal(iterations->0)
                            + " is not implemented yet; Ferrum refuses to ignore it"@,
                    )
                } else {
                    sweeps_checked(dictionary, section, solver)
                },
            }
        },
    }
}

/// Whether the solution controls ask for one sweep, where the solver sweeps.
pub open spec fn sweeps_checked(
    dictionary: SolverNumericsDictionaryPlan,
    section: Seq<char>,
    solver: LaminarSimpleLinearSolver,
) -> Result<(), Seq<char>> {
    if solver != LaminarSimpleLinearSolver::GaussSeidel && solver
        != LaminarSimpleLinearSolver::SymGaussSeidel {
        Ok(())
    } else {
        match solution_count(dictionary, section, "nSweeps"@) {
            Err(message) => Err(message),
            Ok(sweeps) => if sweeps is Some && sweeps->0 != 1 {
                Err(
                    "fvSolution "@ + section + ".nSweeps="@ + text::decimal(sweeps->0)
                        + " is not implemented yet; Ferrum currently matches the OpenFOAM default nSweeps=1"@,
                )
            } else {
                Ok(())
            },
        }
    }
}

/// The first section from `at` on below another one.
pub open spec fn nested_from(
    sections: Seq<SolverNumericsSectionPlan>,
    prefix: Seq<char>,
    at: int,
) -> Option<Seq<char>>
    decreases sections.len() - at,
{
    if at >= sections.len() {
        None
    } else if prefix.is_prefix_of(sections[at].path@) {
        Some(sections[at].path@)
    } else {
        nested_from(sections, prefix, at + 1)
    }
}

/// The first entry from `at` on of the residual limits that is for neither of
/// the two solved fields.
pub open spec fn unsolved_from(entries: Seq<SolverNumericsEntryPlan>, at: int) -> Option<Seq<char>>
    decreases entries.len() - at,
{
    if at >= entries.len() {
        None
    } else if entries[at].section@ == "SIMPLE.residualControl"@ && entries[at].key@ != "U"@
        && entries[at].key@ != "p"@ {
        Some(entries[at].key@)
    } else {
        unsolved_from(entries, at + 1)
    }
}

/// Whether the residual limits are single numbers for the two solved fields.
pub open spec fn residual_control_checked(dictionary: SolverNumericsDictionaryPlan) -> Result<
    (),
    Seq<char>,
> {
    match nested_from(dictionary.sections@, "SIMPLE.residualControl."@, 0) {
        Some(path) => Err(
            "fvSolution SIMPLE.residualControl entries must be single scalar values for steady SIMPLE convergence; nested dictionary '"@
                + path + "' is not valid OpenFOAM Foundation syntax here"@,
        ),
        None => match unsolved_from(dictionary.entries@, 0) {
            Some(key) => Err(
                "fvSolution SIMPLE.residualControl."@ + key
                    + " is not supported by laminarSimple; supported solved fields are U and p"@,
            ),
            None => Ok(()),
        },
    }
}

/// The value of a key in a section: that of its first entry.
pub fn numerics_dictionary_value<'a>(
    dictionary: &'a SolverNumericsDictionaryPlan,
    section: &str,
    key: &str,
) -> (found: Option<&'a String>)
    ensures
        match found {
            Some(value) => value_of(*dictionary, section@, key@) == Some(value@),
            None => value_of(*dictionary, section@, key@) is None,
        },
{
    let entries = &dictionary.entries;
    let mut at: usize = 0;
    while at < entries.len()
        invariant
            at <= entries@.len(),
            *entries == dictionary.entries,
            entry_from(entries@, section@, key@, 0) == entry_from(
                entries@,
                section@,
                key@,
                at as int,
            ),
        decreases entries@.len() - at,
    {
        if text::text_eq(entries[at].section.as_str(), section) && text::text_eq(
            entries[at].key.as_str(),
            key,
        ) {
            return Some(&entries[at].value);
        }
        at += 1;
    }
    None
}

/// The last number of a value.
pub fn last_number(readings: &Readings, value: &str) -> (number: Option<Real>)
    ensures
        reals::opt_real(number) == number_of(*readings, value@),
{
    let words = text::words_of(value);
    let ghost all = text::texts(words@);
    let mut at: usize = words.len();
    while at > 0
        invariant
            at <= words@.len(),
            all == text::texts(words@),
            all == text::words(value@),
            number_of(*readings, value@) == number_before(*readings, all, at as int),
        decreases at,
    {
        let word = text::trimmed_of(words[at - 1].as_str(), CharClass::Brackets);
        if let Some(number) = readings.read(word.as_str()) {
            return Some(number);
        }
        at -= 1;
    }
    None
}

/// The last count of a value.
pub fn last_usize(value: &str) -> (count: Option<usize>)
    ensures
        match count {
            Some(found) => count_of(value@) == Some(found as nat),
            None => count_of(value@) is None,
        },
{
    let words = text::words_of(value);
    let ghost all = text::texts(words@);
    let mut at: usize = words.len();
    while at > 0
        invariant
            at <= words@.len(),
            all == text::texts(words@),
            all == text::words(value@),
            count_of(value@) == count_before(all, at as int),
        decreases at,
    {
        let word = text::trimmed_of(words[at - 1].as_str(), CharClass::Brackets);
        if let Some(count) = text::read_usize(word.as_str()) {
            return Some(count);
        }
        at -= 1;
    }
    None
}

/// The last number of a key in a section.
pub fn numerics_dictionary_number(
    readings: &Readings,
    dictionary: &SolverNumericsDictionaryPlan,
    section: &str,
    key: &str,
) -> (number: Option<Real>)
    ensures
        reals::opt_real(number) == (match value_of(*dictionary, section@, key@) {
            Some(value) => number_of(*readings, value),
            None => None,
        }),
{
    match numerics_dictionary_value(dictionary, section, key) {
        Some(value) => last_number(readings, value.as_str()),
        None => None,
    }
}

/// The last count of a key in a section.
pub fn numerics_dictionary_usize(
    dictionary: &SolverNumericsDictionaryPlan,
    section: &str,
    key: &str,
) -> (count: Option<usize>)
    ensures
        (match count {
            Some(found) => Some(found as nat),
            None => None,
        }) == (match value_of(*dictionary, section@, key@) {
            Some(value) => count_of(value),
            None => None,
        }),
{
    match numerics_dictionary_value(dictionary, section, key) {
        Some(value) => last_usize(value.as_str()),
        None => None,
    }
}

/// The number of a property outside any section.
pub fn property_number(
    readings: &Readings,
    entries: &Vec<SolverPropertyEntryPlan>,
    dictionary: &str,
    key: &str,
) -> (number: Option<Real>)
    ensures
        reals::opt_real(number) == property(*readings, entries@, dictionary@, key@),
{
    let mut at: usize = 0;
    while at < entries.len()
        invariant
            at <= entries@.len(),
            property_from(entries@, dictionary@, None, key@, 0) == property_from(
                entries@,
                dictionary@,
                None,
                key@,
                at as int,
            ),
        decreases entries@.len() - at,
    {
        if text::text_eq(entries[at].dictionary.as_str(), dictionary)
            && entries[at].section.is_none() && text::text_eq(entries[at].key.as_str(), key) {
            return last_number(readings, entries[at].value.as_str());
        }
        at += 1;
    }
    None
}

fn wrong_text(section: &str, key: &str, expected: &str, value: &str) -> (message: String)
    ensures
        message@ == wrong(section@, key@, expected@, value@),
{
    let mut message = "fvSolution ".to_string();
    message.append(section);
    message.append(".");
    message.append(key);
    message.append(expected);
    message.append(", got '");
    message.append(value);
    message.append("'");
    message
}

/// A number of the solution controls.
pub fn fv_solution_number(
    readings: &Readings,
    dictionary: &SolverNumericsDictionaryPlan,
    section: &str,
    key: &str,
) -> (out: Result<Option<Real>, String>)
    ensures
        match out {
            Ok(number) => text::accepts(
                solution_number(*readings, *dictionary, section@, key@),
                reals::opt_real(number),
            ),
            Err(message) => text::refuses(
                solution_number(*readings, *dictionary, section@, key@),
                message,
            ),
        },
{
    match numerics_dictionary_value(dictionary, section, key) {
        None => Ok(None),
        Some(value) => match last_number(readings, value.as_str()) {
            Some(number) => Ok(Some(number)),
            None => Err(
                wrong_text(section, key, " must contain a numeric value", value.as_str()),
            ),
        },
    }
}

/// A number of the solution controls that must stand alone.
pub fn fv_solution_single_scalar(
    readings: &Readings,
    dictionary: &SolverNumericsDictionaryPlan,
    section: &str,
    key: &str,
) -> (out: Result<Option<Real>, String>)
    ensures
        match out {
            Ok(number) => text::accepts(
                solution_scalar(*readings, *dictionary, section@, key@),
                reals::opt_real(number),
            ),
            Err(message) => text::refuses(
                solution_scalar(*readings, *dictionary, section@, key@),
                message,
            ),
        },
{
    match numerics_dictionary_value(dictionary, section, key) {
        None => Ok(None),
        Some(value) => {
            let words = text::words_of(flow::bare(value.as_str()).as_str());
            let ghost all = text::texts(words@);
            if words.len() == 1 {
                if let Some(number) = readings.read(words[0].as_str()) {
                    return Ok(Some(number));
                }
            }
            Err(wrong_text(section, key, " must be one scalar value", value.as_str()))
        },
    }
}

/// A truth value of the solution controls.
pub fn fv_solution_bool(
    dictionary: &SolverNumericsDictionaryPlan,
    section: &str,
    key: &str,
) -> (out: Result<Option<bool>, String>)
    ensures
        match out {
            Ok(found) => text::accepts(solution_flag(*dictionary, section@, key@), found),
            Err(message) => text::refuses(solution_flag(*dictionary, section@, key@), message),
        },
{
    match numerics_dictionary_value(dictionary, section, key) {
        None => Ok(None),
        Some(value) => match arguments::parse_bool_value(value.as_str()) {
            Some(found) => Ok(Some(found)),
            None => Err(
                wrong_text(section, key, " must be true/false or yes/no", value.as_str()),
            ),
        },
    }
}

/// The view of an optional count.
pub open spec fn opt_count(count: Option<usize>) -> Option<nat> {
    match count {
        Some(inner) => Some(inner as nat),
        None => None,
    }
}

/// A count of the solution controls.
pub fn fv_solution_usize(
    dictionary: &SolverNumericsDictionaryPlan,
    section: &str,
    key: &str,
) -> (out: Result<Option<usize>, String>)
    ensures
        match out {
            Ok(count) => text::accepts(
                solution_count(*dictionary, section@, key@),
                opt_count(count),
            ),
            Err(message) => text::refuses(solution_count(*dictionary, section@, key@), message),
        },
{
    match numerics_dictionary_value(dictionary, section, key) {
        None => Ok(None),
        Some(value) => match text::read_usize(flow::bare(value.as_str()).as_str()) {
            Some(count) => Ok(Some(count)),
            None => Err(
                wrong_text(section, key, " must contain a non-negative integer", value.as_str()),
            ),
        },
    }
}

fn section_text(section: &str, rest: &str) -> (message: String)
    ensures
        message@ == "fvSolution "@ + section@ + rest@,
{
    let mut message = "fvSolution ".to_string();
    message.append(section);
    message.append(rest);
    message
}

/// The linear solver of the solution controls.
pub fn required_fv_solution_laminar_solver(
    dictionary: &SolverNumericsDictionaryPlan,
    section: &str,
) -> (out: Result<LaminarSimpleLinearSolver, String>)
    ensures
        match out {
            Ok(solver) => text::accepts(solution_solver(*dictionary, section@), solver),
            Err(message) => text::refuses(solution_solver(*dictionary, section@), message),
        },
{
    match numerics_dictionary_value(dictionary, section, "solver") {
        None => Err(section_text(section, " requires a solver entry")),
        Some(value) => {
            if !text::text_eq(flow::bare(value.as_str()).as_str(), "smoothSolver") {
                return flow::parse_openfoam_laminar_solver(value.as_str());
            }
            match numerics_dictionary_value(dictionary, section, "smoother") {
                None => Err(section_text(section, " smoothSolver requires a smoother entry")),
                Some(smoother) => {
                    let word = flow::bare(smoother.as_str());
                    if text::text_eq(word.as_str(), "GaussSeidel") || text::text_eq(
                        word.as_str(),
                        "gaussSeidel",
                    ) {
                        Ok(LaminarSimpleLinearSolver::GaussSeidel)
                    } else if text::text_eq(word.as_str(), "symGaussSeidel") {
                        Ok(LaminarSimpleLinearSolver::SymGaussSeidel)
                    } else {
                        let mut message = "unsupported fvSolution ".to_string();
                        message.append(section);
                        message.append(" smoother '");
                        message.append(word.as_str());
                        message.append(
                            "'; Ferrum currently supports GaussSeidel and symGaussSeidel",
                        );
                        Err(message)
                    }
                },
            }
        },
    }
}

/// The preconditioner of a linear solver.
pub fn resolve_laminar_preconditioner(
    dictionary: &SolverNumericsDictionaryPlan,
    section: &str,
    solver: LaminarSimpleLinearSolver,
    explicit: Option<LaminarSimplePreconditioner>,
) -> (out: Result<LaminarSimplePreconditioner, String>)
    ensures
        match out {
            Ok(found) => text::accepts(
                solution_preconditioner(*dictionary, section@, solver, explicit),
                found,
            ),
            Err(message) => text::refuses(
                solution_preconditioner(*dictionary, section@, solver, explicit),
                message,
            ),
        },
{
    if let Some(preconditioner) = explicit {
        return Ok(preconditioner);
    }
    if solver != LaminarSimpleLinearSolver::Pcg && solver != LaminarSimpleLinearSolver::BiCgStab {
        return Ok(LaminarSimplePreconditioner::Absent);
    }
    match numerics_dictionary_value(dictionary, section, "preconditioner") {
        None => Err(section_text(section, " requires a preconditioner entry")),
        Some(value) => flow::parse_openfoam_laminar_preconditioner(value.as_str()),
    }
}

fn control_text(section: &str, name: &str, value: &str, rest: &str) -> (message: String)
    ensures
        message@ == "fvSolution "@ + section@ + name@ + value@ + rest@,
{
    let mut message = "fvSolution ".to_string();
    message.append(section);
    message.append(name);
    message.append(value);
    message.append(rest);
    message
}

/// Whether the solution controls ask for nothing that the linear solvers
/// would pass over.
pub fn validate_openfoam_linear_controls(
    readings: &Readings,
    dictionary: &SolverNumericsDictionaryPlan,
    section: &str,
    solver: LaminarSimpleLinearSolver,
) -> (out: Result<(), String>)
    ensures
        match out {
            Ok(done) => text::accepts(
                controls_checked(*readings, *dictionary, section@, solver),
                done,
            ),
            Err(message) => text::refuses(
                controls_checked(*readings, *dictionary, section@, solver),
                message,
            ),
        },
{
    if let Some(tolerance) = fv_solution_number(readings, dictionary, section, "relTol")? {
        if tolerance.kind != RealKind::Zero {
            return Err(
                control_text(
                    section,
                    ".relTol=",
                    tolerance.display.as_str(),
                    " is not implemented yet; Ferrum refuses to ignore a non-zero OpenFOAM relative tolerance",
                ),
            );
        }
    }
    if let Some(iterations) = fv_solution_usize(dictionary, section, "minIter")? {
        if iterations != 0 {
            return Err(
                control_text(
                    section,
                    ".minIter=",
                    text::number_text(iterations).as_str(),
                    " is not implemented yet; Ferrum refuses to ignore it",
                ),
            );
        }
    }
    if solver == LaminarSimpleLinearSolver::GaussSeidel || solver
        == LaminarSimpleLinearSolver::SymGaussSeidel {
        if let Some(sweeps) = fv_solution_usize(dictionary, section, "nSweeps")? {
            if sweeps != 1 {
                return Err(
                    control_text(
                        section,
                        ".nSweeps=",
                        text::number_text(sweeps).as_str(),
                        " is not implemented yet; Ferrum currently matches the OpenFOAM default nSweeps=1",
                    ),
                );
            }
        }
    }
    Ok(())
}

/// Whether the residual limits are single numbers for the two solved fields.
pub fn validate_laminar_residual_control_dictionary(
    dictionary: &SolverNumericsDictionaryPlan,
) -> (out: Result<(), String>)
    ensures
        match out {
            Ok(done) => text::accepts(residual_control_checked(*dictionary), done),
            Err(message) => text::refuses(residual_control_checked(*dictionary), message),
        },
{
    let sections = &dictionary.sections;
    let mut at: usize = 0;
    while at < sections.len()
        invariant
            at <= sections@.len(),
            *sections == dictionary.sections,
            nested_from(sections@, "SIMPLE.residualControl."@, 0) == nested_from(
                sections@,
                "SIMPLE.residualControl."@,
                at as int,
            ),
        decreases sections@.len() - at,
    {
        if text::starts_with(sections[at].path.as_str(), "SIMPLE.residualControl.") {
            let mut message =
                "fvSolution SIMPLE.residualControl entries must be single scalar values for steady SIMPLE convergence; nested dictionary '".to_string();
            message.append(sections[at].path.as_str());
            message.append("' is not valid OpenFOAM Foundation syntax here");
            return Err(message);
        }
        at += 1;
    }
    let entries = &dictionary.entries;
    let mut at: usize = 0;
    while at < entries.len()
        invariant
            at <= entries@.len(),
            *entries == dictionary.entries,
            nested_from(dictionary.sections@, "SIMPLE.residualControl."@, 0) is None,
            unsolved_from(entries@, 0) == unsolved_from(entries@, at as int),
        decreases entries@.len() - at,
    {
        let entry = &entries[at];
        if text::text_eq(entry.section.as_str(), "SIMPLE.residualControl") && !text::text_eq(
            entry.key.as_str(),
            "U",
        ) && !text::text_eq(entry.key.as_str(), "p") {
            let mut message = "fvSolution SIMPLE.residualControl.".to_string();
            message.append(entry.key.as_str());
            message.append(
                " is not supported by laminarSimple; supported solved fields are U and p",
            );
            return Err(message);
        }
        at += 1;
    }
    Ok(())
}

/// Whether a dictionary says `value` under a key of a section: the first entry
/// with both has it.
pub open spec fn says(
    dictionary: SolverNumericsDictionaryPlan,
    section: Seq<char>,
    key: Seq<char>,
    value: Seq<char>,
) -> bool {
    exists|at: int|
        0 <= at < dictionary.entries@.len() && (#[trigger] dictionary.entries@[at]).section@
            == section && dictionary.entries@[at].key@ == key && dictionary.entries@[at].value@
            == value && forall|i: int|
            0 <= i < at ==> (#[trigger] dictionary.entries@[i]).section@ != section
                || dictionary.entries@[i].key@ != key
}

/// Whether a dictionary says nothing under a key of a section.
pub open spec fn is_silent(
    dictionary: SolverNumericsDictionaryPlan,
    section: Seq<char>,
    key: Seq<char>,
) -> bool {
    forall|i: int|
        0 <= i < dictionary.entries@.len() ==> (#[trigger] dictionary.entries@[i]).section@
            != section || dictionary.entries@[i].key@ != key
}

proof fn lemma_entry_at(
    entries: Seq<SolverNumericsEntryPlan>,
    section: Seq<char>,
    key: Seq<char>,
    from: int,
    at: int,
)
    requires
        0 <= from <= at < entries.len(),
        entries[at].section@ == section,
        entries[at].key@ == key,
        forall|i: int|
            from <= i < at ==> (#[trigger] entries[i]).section@ != section || entries[i].key@
                != key,
    ensures
        entry_from(entries, section, key, from) == Some(entries[at].value@),
    decreases at - from,
{
    if from < at {
        assert(entries[from].section@ != section || entries[from].key@ != key);
        lemma_entry_at(entries, section, key, from + 1, at);
    }
}

proof fn lemma_no_entry(
    entries: Seq<SolverNumericsEntryPlan>,
    section: Seq<char>,
    key: Seq<char>,
    from: int,
)
    requires
        0 <= from,
        forall|i: int|
            from <= i < entries.len() ==> (#[trigger] entries[i]).section@ != section
                || entries[i].key@ != key,
    ensures
        entry_from(entries, section, key, from) is None,
    decreases entries.len() - from,
{
    if from < entries.len() {
        lemma_no_entry(entries, section, key, from + 1);
    }
}

/// What is looked up under a key of a section is the value of the first entry with
/// both, and nothing exactly where there is none.
pub proof fn first_entry_is_found(
    dictionary: SolverNumericsDictionaryPlan,
    section: Seq<char>,
    key: Seq<char>,
    value: Seq<char>,
)
    ensures
        says(dictionary, section, key, value) ==> value_of(dictionary, section, key) == Some(value),
        is_silent(dictionary, section, key) ==> value_of(dictionary, section, key) is None,
{
    let entries = dictionary.entries@;
    if says(dictionary, section, key, value) {
        let at = choose|at: int|
            0 <= at < entries.len() && (#[trigger] entries[at]).section@ == section
                && entries[at].key@ == key && entries[at].value@ == value && forall|i: int|
                0 <= i < at ==> (#[trigger] entries[i]).section@ != section || entries[i].key@
                    != key;
        lemma_entry_at(entries, section, key, 0, at);
    }
    if is_silent(dictionary, section, key) {
        lemma_no_entry(entries, section, key, 0);
    }
}

/// Whether the last word of a value, brackets round it aside, is the number
/// `number`.
pub open spec fn ends_in_number(readings: Readings, value: Seq<char>, number: RealView) -> bool {
    let words = text::words(value);
    words.len() > 0 && readings.number(text::strip(CharClass::Brackets, words.last())) == Some(
        number,
    )
}

/// The number of an entry is the one that its value ends in; where there is no
/// entry there is none; and where no word of it is a number it is refused.
pub proof fn number_is_the_last_word(
    readings: Readings,
    dictionary: SolverNumericsDictionaryPlan,
    section: Seq<char>,
    key: Seq<char>,
    value: Seq<char>,
    number: RealView,
)
    ensures
        says(dictionary, section, key, value) && ends_in_number(readings, value, number)
            ==> solution_number(readings, dictionary, section, key) == Ok::<
            Option<RealView>,
            Seq<char>,
        >(Some(number)),
        is_silent(dictionary, section, key) ==> solution_number(readings, dictionary, section, key)
            == Ok::<Option<RealView>, Seq<char>>(None),
        says(dictionary, section, key, value) && (forall|i: int|
            0 <= i < text::words(value).len() ==> readings.number(
                text::strip(CharClass::Brackets, #[trigger] text::words(value)[i]),
            ) is None) ==> solution_number(readings, dictionary, section, key) is Err,
{
    first_entry_is_found(dictionary, section, key, value);
    lemma_no_number(readings, text::words(value), text::words(value).len() as int);
}

proof fn lemma_no_number(readings: Readings, words: Seq<Seq<char>>, n: int)
    requires
        0 <= n <= words.len(),
    ensures
        (forall|i: int|
            0 <= i < n ==> readings.number(
                text::strip(CharClass::Brackets, #[trigger] words[i]),
            ) is None) ==> number_before(readings, words, n) is None,
    decreases n,
{
    if n > 0 {
        lemma_no_number(readings, words, n - 1);
    }
}

/// The count of an entry is its whole value, white space and semicolons aside, and
/// anything else there is refused; so is a truth value.
pub proof fn count_is_the_whole_value(
    dictionary: SolverNumericsDictionaryPlan,
    section: Seq<char>,
    key: Seq<char>,
    value: Seq<char>,
)
    ensures
        says(dictionary, section, key, value) ==> match text::natural(
            flow::bare_word(value),
            usize::MAX as nat,
        ) {
            Some(count) => solution_count(dictionary, section, key) == Ok::<
                Option<nat>,
                Seq<char>,
            >(Some(count)),
            None => solution_count(dictionary, section, key) is Err,
        },
        is_silent(dictionary, section, key) ==> solution_count(dictionary, section, key) == Ok::<
            Option<nat>,
            Seq<char>,
        >(None),
        says(dictionary, section, key, value) ==> match arguments::truth(value) {
            Some(flag) => solution_flag(dictionary, section, key) == Ok::<
                Option<bool>,
                Seq<char>,
            >(Some(flag)),
            None => solution_flag(dictionary, section, key) is Err,
        },
        is_silent(dictionary, section, key) ==> solution_flag(dictionary, section, key) == Ok::<
            Option<bool>,
            Seq<char>,
        >(None),
{
    first_entry_is_found(dictionary, section, key, value);
}

/// The number of an entry that must stand alone is its one word, and anything else
/// there is refused.
pub proof fn scalar_stands_alone(
    readings: Readings,
    dictionary: SolverNumericsDictionaryPlan,
    section: Seq<char>,
    key: Seq<char>,
    value: Seq<char>,
)
    ensures
        says(dictionary, section, key, value) ==> ({
            let words = text::words(flow::bare_word(value));
            match solution_scalar(readings, dictionary, section, key) {
                Ok(found) => words.len() == 1 && found is Some && readings.number(words[0])
                    == found,
                Err(_) => words.len() != 1 || readings.number(words[0]) is None,
            }
        }),
        is_silent(dictionary, section, key) ==> solution_scalar(readings, dictionary, section, key)
            == Ok::<Option<RealView>, Seq<char>>(None),
{
    first_entry_is_found(dictionary, section, key, value);
}

/// Whether the transport properties and the like say `value` under a key outside
/// all sections: the first such entry has it.
pub open spec fn property_says(
    entries: Seq<SolverPropertyEntryPlan>,
    dictionary: Seq<char>,
    key: Seq<char>,
    value: Seq<char>,
) -> bool {
    exists|at: int|
        0 <= at < entries.len() && (#[trigger] entries[at]).dictionary@ == dictionary
            && entries[at].section is None && entries[at].key@ == key && entries[at].value@ == value
            && forall|i: int|
            0 <= i < at ==> (#[trigger] entries[i]).dictionary@ != dictionary
                || entries[i].section is Some || entries[i].key@ != key
}

proof fn lemma_property_at(
    entries: Seq<SolverPropertyEntryPlan>,
    dictionary: Seq<char>,
    key: Seq<char>,
    from: int,
    at: int,
)
    requires
        0 <= from <= at < entries.len(),
        entries[at].dictionary@ == dictionary,
        entries[at].section is None,
        entries[at].key@ == key,
        forall|i: int|
            from <= i < at ==> (#[trigger] entries[i]).dictionary@ != dictionary
                || entries[i].section is Some || entries[i].key@ != key,
    ensures
        property_from(entries, dictionary, None, key, from) == Some(entries[at].value@),
    decreases at - from,
{
    if from < at {
        assert(entries[from].dictionary@ != dictionary || entries[from].section is Some
            || entries[from].key@ != key);
        lemma_property_at(entries, dictionary, key, from + 1, at);
    }
}

/// The number of a property is the one that its value ends in.
pub proof fn property_is_the_last_word(
    readings: Readings,
    entries: Seq<SolverPropertyEntryPlan>,
    dictionary: Seq<char>,
    key: Seq<char>,
    value: Seq<char>,
    number: RealView,
)
    requires
        property_says(entries, dictionary, key, value),
        ends_in_number(readings, value, number),
    ensures
        property(readings, entries, dictionary, key) == Some(number),
{
    let at = choose|at: int|
        0 <= at < entries.len() && (#[trigger] entries[at]).dictionary@ == dictionary
            && entries[at].section is None && entries[at].key@ == key && entries[at].value@ == value
            && forall|i: int|
            0 <= i < at ==> (#[trigger] entries[i]).dictionary@ != dictionary
                || entries[i].section is Some || entries[i].key@ != key;
    lemma_property_at(entries, dictionary, key, 0, at);
}

/// A property that no entry outside all sections has is not known.
pub proof fn missing_property_is_unknown(
    readings: Readings,
    entries: Seq<SolverPropertyEntryPlan>,
    dictionary: Seq<char>,
    key: Seq<char>,
)
    requires
        forall|i: int|
            0 <= i < entries.len() ==> (#[trigger] entries[i]).dictionary@ != dictionary
                || entries[i].section is Some || entries[i].key@ != key,
    ensures
        property(readings, entries, dictionary, key) is None,
{
    lemma_no_property(entries, dictionary, key, 0);
}

proof fn lemma_no_property(
    entries: Seq<SolverPropertyEntryPlan>,
    dictionary: Seq<char>,
    key: Seq<char>,
    from: int,
)
    requires
        0 <= from,
        forall|i: int|
            from <= i < entries.len() ==> (#[trigger] entries[i]).dictionary@ != dictionary
                || entries[i].section is Some || entries[i].key@ != key,
    ensures
        property_from(entries, dictionary, None, key, from) is None,
    decreases entries.len() - from,
{
    if from < entries.len() {
        assert(entries[from].dictionary@ != dictionary || entries[from].section is Some
            || entries[from].key@ != key);
        lemma_no_property(entries, dictionary, key, from + 1);
    }
}

/// The solver of a section is the one that its entry names; a smoother is named by
/// an entry of its own.
pub proof fn solver_is_the_named_one(
    dictionary: SolverNumericsDictionaryPlan,
    section: Seq<char>,
    value: Seq<char>,
    smoother: Seq<char>,
)
    ensures
        says(dictionary, section, "solver"@, value) && flow::bare_word(value) != "smoothSolver"@
            ==> solution_solver(dictionary, section) == flow::solver_named(value),
        says(dictionary, section, "solver"@, value) && flow::bare_word(value) == "smoothSolver"@
            && says(dictionary, section, "smoother"@, smoother) ==> ({
            let word = flow::bare_word(smoother);
            match solution_solver(dictionary, section) {
                Ok(LaminarSimpleLinearSolver::GaussSeidel) => word == "GaussSeidel"@ || word
                    == "gaussSeidel"@,
                Ok(LaminarSimpleLinearSolver::SymGaussSeidel) => word == "symGaussSeidel"@,
                Ok(_) => false,
                Err(_) => word != "GaussSeidel"@ && word != "gaussSeidel"@ && word
                    != "symGaussSeidel"@,
            }
        }),
        is_silent(dictionary, section, "solver"@) ==> solution_solver(dictionary, section) is Err,
        says(dictionary, section, "solver"@, value) && flow::bare_word(value) == "smoothSolver"@
            && is_silent(dictionary, section, "smoother"@) ==> solution_solver(
            dictionary,
            section,
        ) is Err,
{
    first_entry_is_found(dictionary, section, "solver"@, value);
    first_entry_is_found(dictionary, section, "smoother"@, smoother);
}

/// A section that asks the linear solvers for what they would pass over is
/// refused: a relative tolerance, least iterations, or more sweeps than one of a
/// solver that sweeps. Nothing else in those entries is.
pub proof fn controls_are_not_passed_over(
    readings: Readings,
    dictionary: SolverNumericsDictionaryPlan,
    section: Seq<char>,
    solver: LaminarSimpleLinearSolver,
    value: Seq<char>,
    number: RealView,
    count: nat,
)
    ensures
        says(dictionary, section, "relTol"@, value) && ends_in_number(readings, value, number)
            && number.kind != RealKind::Zero ==> controls_checked(
            readings,
            dictionary,
            section,
            solver,
        ) is Err,
        says(dictionary, section, "minIter"@, value) && text::natural(
            flow::bare_word(value),
            usize::MAX as nat,
        ) == Some(count) && count != 0 ==> controls_checked(
            readings,
            dictionary,
            section,
            solver,
        ) is Err,
        says(dictionary, section, "nSweeps"@, value) && text::natural(
            flow::bare_word(value),
            usize::MAX as nat,
        ) == Some(count) && count != 1 && (solver == LaminarSimpleLinearSolver::GaussSeidel
            || solver == LaminarSimpleLinearSolver::SymGaussSeidel) ==> controls_checked(
            readings,
            dictionary,
            section,
            solver,
        ) is Err,
        is_silent(dictionary, section, "relTol"@) && is_silent(dictionary, section, "minIter"@)
            && is_silent(dictionary, section, "nSweeps"@) ==> controls_checked(
            readings,
            dictionary,
            section,
            solver,
        ) is Ok,
{
    first_entry_is_found(dictionary, section, "relTol"@, value);
    first_entry_is_found(dictionary, section, "minIter"@, value);
    first_entry_is_found(dictionary, section, "nSweeps"@, value);
}

/// Residual limits are refused exactly where one is a dictionary of its own, or is
/// for a field other than the velocity and the pressure.
pub proof fn residual_limits_are_for_solved_fields(dictionary: SolverNumericsDictionaryPlan)
    ensures
        residual_control_checked(dictionary) is Err <==> (exists|i: int|
            0 <= i < dictionary.sections@.len() && "SIMPLE.residualControl."@.is_prefix_of(
                (#[trigger] dictionary.sections@[i]).path@,
            )) || (exists|i: int|
            0 <= i < dictionary.entries@.len() && (#[trigger] dictionary.entries@[i]).section@
                == "SIMPLE.residualControl"@ && dictionary.entries@[i].key@ != "U"@
                && dictionary.entries@[i].key@ != "p"@),
{
    lemma_nested(dictionary.sections@, "SIMPLE.residualControl."@, 0);
    lemma_unsolved(dictionary.entries@, 0);
}

proof fn lemma_nested(sections: Seq<SolverNumericsSectionPlan>, prefix: Seq<char>, from: int)
    requires
        0 <= from <= sections.len(),
    ensures
        nested_from(sections, prefix, from) is Some <==> exists|i: int|
            from <= i < sections.len() && prefix.is_prefix_of((#[trigger] sections[i]).path@),
    decreases sections.len() - from,
{
    if from < sections.len() {
        lemma_nested(sections, prefix, from + 1);
        if prefix.is_prefix_of(sections[from].path@) {
            assert(prefix.is_prefix_of(sections[from].path@));
        }
    }
}

proof fn lemma_unsolved(entries: Seq<SolverNumericsEntryPlan>, from: int)
    requires
        0 <= from <= entries.len(),
    ensures
        unsolved_from(entries, from) is Some <==> exists|i: int|
            from <= i < entries.len() && (#[trigger] entries[i]).section@
                == "SIMPLE.residualControl"@ && entries[i].key@ != "U"@ && entries[i].key@ != "p"@,
    decreases entries.len() - from,
{
    if from < entries.len() {
        lemma_unsolved(entries, from + 1);
        if unsolved_from(entries, from) == Some(entries[from].key@) && entries[from].section@
            == "SIMPLE.residualControl"@ && entries[from].key@ != "U"@ && entries[from].key@
            != "p"@ {
            assert(entries[from].section@ == "SIMPLE.residualControl"@);
        }
    }
}

} // verus!
