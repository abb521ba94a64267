//! Values of command-line arguments.

use crate::reals::{Real, RealKind, RealView, Readings};
use crate::text;
use crate::text::CharClass;
use vstd::prelude::*;

verus! {

/// Whether an argument asks for help.
pub open spec fn asks_help(arg: Seq<char>) -> bool {
    arg == "-h"@ || arg == "--help"@ || arg == "help"@
}

/// Whether a text is made of letters, digits, `_` and `-` alone, with at
/// least one of them.
pub open spec fn is_word(value: Seq<char>) -> bool {
    value.len() > 0 && forall|i: int|
        0 <= i < value.len() ==> {
            let ch = #[trigger] value[i];
            text::is_alphanumeric(ch) || ch == '_' || ch == '-'
        }
}

/// The truth value that a word names, semicolons round it aside.
pub open spec fn truth(value: Seq<char>) -> Option<bool> {
    let word = text::strip(CharClass::Only(';'), value);
    if word == "true"@ || word == "True"@ || word == "TRUE"@ || word == "yes"@ || word == "Yes"@
        || word == "YES"@ || word == "on"@ || word == "On"@ || word == "ON"@ || word == "1"@ {
        Some(true)
    } else if word == "false"@ || word == "False"@ || word == "FALSE"@ || word == "no"@ || word
        == "No"@ || word == "NO"@ || word == "off"@ || word == "Off"@ || word == "OFF"@ || word
        == "0"@ {
        Some(false)
    } else {
        None
    }
}

/// The message on a value that is not what it should be.
pub open spec fn invalid(label: Seq<char>, value: Seq<char>, expected: Seq<char>) -> Seq<char> {
    "invalid "@ + label + " value '"@ + value + "'; expected "@ + expected
}

/// The truth value of an option.
pub open spec fn truth_arg(label: Seq<char>, value: Seq<char>) -> Result<bool, Seq<char>> {
    match truth(value) {
        Some(found) => Ok(found),
        None => Err(invalid(label, value, "true/false or yes/no"@)),
    }
}

/// The count above zero of an option.
pub open spec fn positive_count(label: Seq<char>, value: Seq<char>) -> Result<nat, Seq<char>> {
    match text::natural(value, usize::MAX as nat) {
        Some(count) => if count == 0 {
            Err(label + " must be greater than zero"@)
        } else {
            Ok(count)
        },
        None => Err(invalid(label, value, "a positive integer"@)),
    }
}

/// The count of an option.
pub open spec fn count_arg(label: Seq<char>, value: Seq<char>) -> Result<nat, Seq<char>> {
    match text::natural(value, usize::MAX as nat) {
        Some(count) => Ok(count),
        None => Err(invalid(label, value, "a non-negative integer"@)),
    }
}

/// The finite number of an option.
pub open spec fn finite_arg(readings: Readings, label: Seq<char>, value: Seq<char>) -> Result<
    RealView,
    Seq<char>,
> {
    match readings.number(value) {
        Some(number) => if number.finite() {
            Ok(number)
        } else {
            Err(label + " must be finite"@)
        },
        None => Err(invalid(label, value, "a finite number"@)),
    }
}

/// The number above zero of an option.
pub open spec fn positive_arg(readings: Readings, label: Seq<char>, value: Seq<char>) -> Result<
    RealView,
    Seq<char>,
> {
    match finite_arg(readings, label, value) {
        Ok(number) => if number.positive() {
            Ok(number)
        } else {
            Err(label + " must be greater than zero"@)
        },
        Err(message) => Err(message),
    }
}

/// The number not below zero of an option.
pub open spec fn non_negative_arg(readings: Readings, label: Seq<char>, value: Seq<char>) -> Result<
    RealView,
    Seq<char>,
> {
    match finite_arg(readings, label, value) {
        Ok(number) => if number.kind == RealKind::Negative {
            Err(label + " must be non-negative"@)
        } else {
            Ok(number)
        },
        Err(message) => Err(message),
    }
}

/// The number above zero and at most one of an option.
pub open spec fn relaxation_arg(readings: Readings, label: Seq<char>, value: Seq<char>) -> Result<
    RealView,
    Seq<char>,
> {
    match finite_arg(readings, label, value) {
        Ok(number) => if number.kind == RealKind::UpToOne {
            Ok(number)
        } else {
            Err(label + " must be in (0, 1]"@)
        },
        Err(message) => Err(message),
    }
}

/// The argument behind the one at `at`, or the refusal `missing`.
pub open spec fn value_at(args: Seq<Seq<char>>, at: int, missing: Seq<char>) -> Result<
    Seq<char>,
    Seq<char>,
> {
    if at + 1 < args.len() {
        Ok(args[at + 1])
    } else {
        Err(missing)
    }
}

/// Whether an argument spells an option: one or two dashes before either of
/// its two names.
pub open spec fn spells(arg: Seq<char>, camel: Seq<char>, kebab: Seq<char>) -> bool {
    arg == "-"@ + camel || arg == "--"@ + camel || arg == "-"@ + kebab || arg == "--"@ + kebab
}

/// Whether an argument asks for help.
pub fn is_help(arg: &str) -> (yes: bool)
    ensures
        yes == asks_help(arg@),
{
    text::text_eq(arg, "-h") || text::text_eq(arg, "--help") || text::text_eq(arg, "help")
}

/// Whether a text is made of letters, digits, `_` and `-` alone, with at
/// least one of them.
pub fn is_openfoam_word(value: &str) -> (yes: bool)
    ensures
        yes == is_word(value@),
{
    let chars = text::chars_of(value);
    if chars.len() == 0 {
        return false;
    }
    let mut i: usize = 0;
    while i < chars.len()
        invariant
            i <= chars@.len(),
            chars@ == value@,
            forall|k: int|
                0 <= k < i ==> {
                    let ch = #[trigger] value@[k];
                    text::is_alphanumeric(ch) || ch == '_' || ch == '-'
                },
        decreases chars@.len() - i,
    {
        let ch = chars[i];
        let code: u32 = ch as u32;
        let alphanumeric = (0x30 <= code && code <= 0x39) || (0x41 <= code && code <= 0x5a) || (0x61
            <= code && code <= 0x7a);
        if !(alphanumeric || ch == '_' || ch == '-') {
            assert(value@[i as int] == ch);
            return false;
        }
        i += 1;
    }
    true
}

/// The truth value that a word names, semicolons round it aside.
pub fn parse_bool_value(value: &str) -> (found: Option<bool>)
    ensures
        found == truth(value@),
{
    let stripped = text::trimmed_of(value, CharClass::Only(';'));
    let word = stripped.as_str();
    if text::text_eq(word, "true") || text::text_eq(word, "True") || text::text_eq(word, "TRUE")
        || text::text_eq(word, "yes") || text::text_eq(word, "Yes") || text::text_eq(word, "YES")
        || text::text_eq(word, "on") || text::text_eq(word, "On") || text::text_eq(word, "ON")
        || text::text_eq(word, "1") {
        Some(true)
    } else if text::text_eq(word, "false") || text::text_eq(word, "False") || text::text_eq(
        word,
        "FALSE",
    ) || text::text_eq(word, "no") || text::text_eq(word, "No") || text::text_eq(word, "NO")
        || text::text_eq(word, "off") || text::text_eq(word, "Off") || text::text_eq(word, "OFF")
        || text::text_eq(word, "0") {
        Some(false)
    } else {
        None
    }
}

/// The message on a value that is not what it should be.
pub fn invalid_text(label: &str, value: &str, expected: &str) -> (message: String)
    ensures
        message@ == invalid(label@, value@, expected@),
{
    let mut message = "invalid ".to_string();
    message.append(label);
    message.append(" value '");
    message.append(value);
    message.append("'; expected ");
    message.append(expected);
    message
}

fn label_text(label: &str, rest: &str) -> (message: String)
    ensures
        message@ == label@ + rest@,
{
    let mut message = label.to_string();
    message.append(rest);
    message
}

/// The truth value of an option.
pub fn parse_bool_arg(label: &str, value: &str) -> (out: Result<bool, String>)
    ensures
        match out {
            Ok(found) => text::accepts(truth_arg(label@, value@), found),
            Err(message) => text::refuses(truth_arg(label@, value@), message),
        },
{
    match parse_bool_value(value) {
        Some(found) => Ok(found),
        None => Err(invalid_text(label, value, "true/false or yes/no")),
    }
}

/// The count above zero of an option.
pub fn parse_positive_usize_arg(label: &str, value: &str) -> (out: Result<usize, String>)
    ensures
        match out {
            Ok(count) => text::accepts(positive_count(label@, value@), count as nat),
            Err(message) => text::refuses(positive_count(label@, value@), message),
        },
{
    match text::read_usize(value) {
        Some(count) => if count == 0 {
            Err(label_text(label, " must be greater than zero"))
        } else {
            Ok(count)
        },
        None => Err(invalid_text(label, value, "a positive integer")),
    }
}

/// The count of an option.
pub fn parse_non_negative_usize_arg(label: &str, value: &str) -> (out: Result<usize, String>)
    ensures
        match out {
            Ok(count) => text::accepts(count_arg(label@, value@), count as nat),
            Err(message) => text::refuses(count_arg(label@, value@), message),
        },
{
    match text::read_usize(value) {
        Some(count) => Ok(count),
        None => Err(invalid_text(label, value, "a non-negative integer")),
    }
}

/// The finite number of an option.
pub fn parse_finite_f64_arg(readings: &Readings, label: &str, value: &str) -> (out: Result<
    Real,
    String,
>)
    ensures
        match out {
            Ok(number) => text::accepts(finite_arg(*readings, label@, value@), number@),
            Err(message) => text::refuses(finite_arg(*readings, label@, value@), message),
        },
{
    match readings.read(value) {
        Some(number) => if number.is_finite() {
            Ok(number)
        } else {
            Err(label_text(label, " must be finite"))
        },
        None => Err(invalid_text(label, value, "a finite number")),
    }
}

/// The number above zero of an option.
pub fn parse_positive_f64_arg(readings: &Readings, label: &str, value: &str) -> (out: Result<
    Real,
    String,
>)
    ensures
        match out {
            Ok(number) => text::accepts(positive_arg(*readings, label@, value@), number@),
            Err(message) => text::refuses(positive_arg(*readings, label@, value@), message),
        },
{
    let number = parse_finite_f64_arg(readings, label, value)?;
    if number.is_positive() {
        Ok(number)
    } else {
        Err(label_text(label, " must be greater than zero"))
    }
}

/// The number not below zero of an option.
pub fn parse_non_negative_f64_arg(readings: &Readings, label: &str, value: &str) -> (out: Result<
    Real,
    String,
>)
    ensures
        match out {
            Ok(number) => text::accepts(non_negative_arg(*readings, label@, value@), number@),
            Err(message) => text::refuses(non_negative_arg(*readings, label@, value@), message),
        },
{
    let number = parse_finite_f64_arg(readings, label, value)?;
    if number.kind == RealKind::Negative {
        Err(label_text(label, " must be non-negative"))
    } else {
        Ok(number)
    }
}

/// The number above zero and at most one of an option.
pub fn parse_relaxation_arg(readings: &Readings, label: &str, value: &str) -> (out: Result<
    Real,
    String,
>)
    ensures
        match out {
            Ok(number) => text::accepts(relaxation_arg(*readings, label@, value@), number@),
            Err(message) => text::refuses(relaxation_arg(*readings, label@, value@), message),
        },
{
    let number = parse_finite_f64_arg(readings, label, value)?;
    if number.kind == RealKind::UpToOne {
        Ok(number)
    } else {
        Err(label_text(label, " must be in (0, 1]"))
    }
}

/// The argument behind the one at `at`, or the refusal `missing`.
pub fn value_behind<'a>(args: &'a Vec<String>, at: usize, missing: &str) -> (out: Result<
    &'a String,
    String,
>)
    requires
        at < args@.len(),
    ensures
        match out {
            Ok(value) => at + 1 < args@.len() && *value == args@[at + 1] && text::accepts(
                value_at(text::texts(args@), at as int, missing@),
                value@,
            ),
            Err(message) => at + 1 >= args@.len() && text::refuses(
                value_at(text::texts(args@), at as int, missing@),
                message,
            ),
        },
{
    let count: usize = args.len();
    if at + 1 < count {
        Ok(&args[at + 1])
    } else {
        Err(missing.to_string())
    }
}

/// Whether an argument spells an option: one or two dashes before either of
/// its two names.
pub fn is_spelled(arg: &str, camel: &str, kebab: &str) -> (yes: bool)
    ensures
        yes == spells(arg@, camel@, kebab@),
{
    text::text_eq(arg, label_text("-", camel).as_str()) || text::text_eq(
        arg,
        label_text("--", camel).as_str(),
    ) || text::text_eq(arg, label_text("-", kebab).as_str()) || text::text_eq(
        arg,
        label_text("--", kebab).as_str(),
    )
}

} // verus!
