//! The run control in `system/controlDict`.

use crate::dictionary;
use crate::dictionary::{Dialect, Stream, TokenCursor};
use crate::error::{Failure, MeshError};
use crate::reals;
use crate::reals::{Readings, Real, RealView};
use crate::text;
use vstd::prelude::*;

verus! {

/// How a case starts, stops and writes.
#[derive(Debug)]
pub struct ControlDict {
    pub path: String,
    pub application: String,
    pub start_from: String,
    pub start_time: Option<Real>,
    pub stop_at: String,
    pub end_time: Option<Real>,
    pub delta_t: Option<Real>,
    pub write_control: String,
    pub write_interval: Option<Real>,
}

/// What has been set in a control dictionary.
pub struct ControlView {
    pub application: Option<Seq<char>>,
    pub start_from: Option<Seq<char>>,
    pub start_time: Option<RealView>,
    pub stop_at: Option<Seq<char>>,
    pub end_time: Option<RealView>,
    pub delta_t: Option<RealView>,
    pub write_control: Option<Seq<char>>,
    pub write_interval: Option<RealView>,
}

/// The only token of a value.
pub open spec fn single(values: Seq<Seq<char>>, label: Seq<char>) -> Result<Seq<char>, Failure> {
    if values.len() == 1 {
        Ok(values[0])
    } else {
        Err(
            Failure::InvalidInput(
                "controlDict entry '"@ + label + "' must be a single value"@,
            ),
        )
    }
}

/// The number that is the only token of a value.
pub open spec fn single_number(
    values: Seq<Seq<char>>,
    label: Seq<char>,
    path: Seq<char>,
    readings: Readings,
) -> Result<RealView, Failure> {
    match single(values, label) {
        Ok(value) => match readings.number(value) {
            Some(number) => Ok(number),
            None => Err(
                Failure::InvalidInput(
                    "controlDict entry '"@ + label + "' in "@ + path + " must be numeric"@,
                ),
            ),
        },
        Err(failure) => Err(failure),
    }
}

/// The settings after `key` has been given `values`.
pub open spec fn control_set(
    control: ControlView,
    key: Seq<char>,
    values: Seq<Seq<char>>,
    path: Seq<char>,
    readings: Readings,
) -> Result<ControlView, Failure> {
    let word = single(values, key);
    let number = single_number(values, key, path, readings);
    if key == "application"@ || key == "startFrom"@ || key == "stopAt"@ || key
        == "writeControl"@ {
        match word {
            Ok(value) => Ok(
                if key == "application"@ {
                    ControlView { application: Some(value), ..control }
                } else if key == "startFrom"@ {
                    ControlView { start_from: Some(value), ..control }
                } else if key == "stopAt"@ {
                    ControlView { stop_at: Some(value), ..control }
                } else {
                    ControlView { write_control: Some(value), ..control }
                },
            ),
            Err(failure) => Err(failure),
        }
    } else if key == "startTime"@ || key == "endTime"@ || key == "deltaT"@ || key
        == "writeInterval"@ {
        match number {
            Ok(value) => Ok(
                if key == "startTime"@ {
                    ControlView { start_time: Some(value), ..control }
                } else if key == "endTime"@ {
                    ControlView { end_time: Some(value), ..control }
                } else if key == "deltaT"@ {
                    ControlView { delta_t: Some(value), ..control }
                } else {
                    ControlView { write_interval: Some(value), ..control }
                },
            ),
            Err(failure) => Err(failure),
        }
    } else {
        Ok(control)
    }
}

/// The settings at the end of the file; a later entry replaces an earlier one
/// with the same keyword. Every step takes a token.
pub open spec fn control_file(s: Stream, control: ControlView, readings: Readings) -> Result<
    ControlView,
    Failure,
>
    decreases s.left(),
{
    if s.ended() {
        Ok(control)
    } else if s.value() == "FoamFile"@ {
        match s.next().block_end() {
            Ok(rest) if rest.left() < s.left() => control_file(rest, control, readings),
            Ok(_) => Err(s.eof()),
            Err(failure) => Err(failure),
        }
    } else {
        let rest = s.next().value_end(0);
        match control_set(control, s.value(), s.next().value_tokens(0), s.path, readings) {
            Ok(set) => if rest.left() < s.left() {
                control_file(rest, set, readings)
            } else {
                Err(s.eof())
            },
            Err(failure) => Err(failure),
        }
    }
}

/// A control dictionary in which nothing has been set.
pub open spec fn control_unset() -> ControlView {
    ControlView {
        application: None,
        start_from: None,
        start_time: None,
        stop_at: None,
        end_time: None,
        delta_t: None,
        write_control: None,
        write_interval: None,
    }
}

/// What the file `content` at `path` sets.
pub open spec fn control_settings(
    content: Seq<char>,
    path: Seq<char>,
    readings: Readings,
) -> Result<ControlView, Failure> {
    control_file(
        Stream { path, tokens: dictionary::tokens(content, Dialect::Square), at: 0 },
        control_unset(),
        readings,
    )
}

/// What has been set so far.
struct ControlDictBuilder {
    application: Option<String>,
    start_from: Option<String>,
    start_time: Option<Real>,
    stop_at: Option<String>,
    end_time: Option<Real>,
    delta_t: Option<Real>,
    write_control: Option<String>,
    write_interval: Option<Real>,
}

impl View for ControlDictBuilder {
    type V = ControlView;

    closed spec fn view(&self) -> ControlView {
        ControlView {
            application: text::opt_text(self.application),
            start_from: text::opt_text(self.start_from),
            start_time: reals::opt_real(self.start_time),
            stop_at: text::opt_text(self.stop_at),
            end_time: reals::opt_real(self.end_time),
            delta_t: reals::opt_real(self.delta_t),
            write_control: text::opt_text(self.write_control),
            write_interval: reals::opt_real(self.write_interval),
        }
    }
}

fn single_value(values: &Vec<String>, label: &str) -> (result: Result<String, MeshError>)
    ensures
        match result {
            Ok(value) => dictionary::gives(single(text::texts(values@), label@), value@),
            Err(error) => dictionary::fails(single(text::texts(values@), label@), error),
        },
{
    if values.len() == 1 {
        return Ok(values[0].clone());
    }
    let mut message = "controlDict entry '".to_string();
    message.append(label);
    message.append("' must be a single value");
    Err(MeshError::InvalidInput(message))
}

fn number_value(values: &Vec<String>, label: &str, path: &str, readings: &Readings) -> (result:
    Result<Real, MeshError>)
    ensures
        match result {
            Ok(value) => dictionary::gives(
                single_number(text::texts(values@), label@, path@, *readings),
                value@,
            ),
            Err(error) => dictionary::fails(
                single_number(text::texts(values@), label@, path@, *readings),
                error,
            ),
        },
{
    let value = single_value(values, label)?;
    match readings.read(value.as_str()) {
        Some(number) => Ok(number),
        None => {
            let mut message = "controlDict entry '".to_string();
            message.append(label);
            message.append("' in ");
            message.append(path);
            message.append(" must be numeric");
            Err(MeshError::InvalidInput(message))
        },
    }
}

fn set_control(
    builder: &mut ControlDictBuilder,
    key: &str,
    values: &Vec<String>,
    path: &str,
    readings: &Readings,
) -> (result: Result<(), MeshError>)
    ensures
        match result {
            Ok(_) => dictionary::gives(
                control_set(old(builder)@, key@, text::texts(values@), path@, *readings),
                final(builder)@,
            ),
            Err(error) => dictionary::fails(
                control_set(old(builder)@, key@, text::texts(values@), path@, *readings),
                error,
            ),
        },
{
    if text::text_eq(key, "application") {
        builder.application = Some(single_value(values, key)?);
    } else if text::text_eq(key, "startFrom") {
        builder.start_from = Some(single_value(values, key)?);
    } else if text::text_eq(key, "stopAt") {
        builder.stop_at = Some(single_value(values, key)?);
    } else if text::text_eq(key, "writeControl") {
        builder.write_control = Some(single_value(values, key)?);
    } else if text::text_eq(key, "startTime") {
        builder.start_time = Some(number_value(values, key, path, readings)?);
    } else if text::text_eq(key, "endTime") {
        builder.end_time = Some(number_value(values, key, path, readings)?);
    } else if text::text_eq(key, "deltaT") {
        builder.delta_t = Some(number_value(values, key, path, readings)?);
    } else if text::text_eq(key, "writeInterval") {
        builder.write_interval = Some(number_value(values, key, path, readings)?);
    }
    Ok(())
}

fn text_or(value: Option<String>, default: &str) -> (out: String)
    ensures
        out@ == text::opt_text(value).unwrap_or(default@),
{
    match value {
        Some(inner) => inner,
        None => default.to_string(),
    }
}

/// The run control that the file `content` at `path` describes.
pub fn parse_control_dict_str(content: &str, path: &str, readings: &Readings) -> (result: Result<
    ControlDict,
    MeshError,
>)
    ensures
        match result {
            Ok(control) => {
                let named = control_settings(content@, path@, *readings);
                &&& named is Ok
                &&& control.path@ == path@
                &&& control.application@ == named->Ok_0.application.unwrap_or("ferrumSolver"@)
                &&& control.start_from@ == named->Ok_0.start_from.unwrap_or("startTime"@)
                &&& reals::opt_real(control.start_time) == named->Ok_0.start_time
                &&& control.stop_at@ == named->Ok_0.stop_at.unwrap_or("endTime"@)
                &&& reals::opt_real(control.end_time) == named->Ok_0.end_time
                &&& reals::opt_real(control.delta_t) == named->Ok_0.delta_t
                &&& control.write_control@ == named->Ok_0.write_control.unwrap_or("timeStep"@)
                &&& reals::opt_real(control.write_interval) == named->Ok_0.write_interval
            },
            Err(error) => dictionary::fails(control_settings(content@, path@, *readings), error),
        },
{
    let tokens = dictionary::tokenize(content);
    let mut cursor = TokenCursor::new(path, tokens);
    let mut builder = ControlDictBuilder {
        application: None,
        start_from: None,
        start_time: None,
        stop_at: None,
        end_time: None,
        delta_t: None,
        write_control: None,
        write_interval: None,
    };
    while cursor.peek().is_some()
        invariant
            cursor@.valid(),
            cursor@.path == path@,
            control_file(cursor@, builder@, *readings) == control_settings(
                content@,
                path@,
                *readings,
            ),
        decreases cursor@.left(),
    {
        let key = cursor.next_required()?;
        if text::text_eq(key.as_str(), "FoamFile") {
            cursor.skip_braced_block()?;
            continue ;
        }
        let values = cursor.read_value_until_semicolon()?;
        set_control(&mut builder, key.as_str(), &values, path, readings)?;
    }
    Ok(
        ControlDict {
            path: path.to_string(),
            application: text_or(builder.application, "ferrumSolver"),
            start_from: text_or(builder.start_from, "startTime"),
            start_time: builder.start_time,
            stop_at: text_or(builder.stop_at, "endTime"),
            end_time: builder.end_time,
            delta_t: builder.delta_t,
            write_control: text_or(builder.write_control, "timeStep"),
            write_interval: builder.write_interval,
        },
    )
}

} // verus!
