//! The command lines of the benchmarks.

use crate::arguments;
use crate::poiseuille;
use crate::poiseuille::{
    LaminarPipeBenchmarkOptions, LaminarPlaneChannelBenchmarkOptions, PipeAxis,
};
use crate::reals;
use crate::reals::{Real, RealView, Readings};
use crate::text;
use vstd::prelude::*;

verus! {

/// A flow with a known solution.
#[derive(Clone, Copy, Debug, Eq, PartialEq, Structural)]
pub enum Benchmark {
    Pipe,
    Channel,
}

/// What the command line asks of the pipe benchmark.
#[derive(Debug)]
pub struct PipeBenchmarkArgs {
    pub case_dir: String,
    pub fields_dir: String,
    pub options: LaminarPipeBenchmarkOptions,
    pub out_json: Option<String>,
    pub out_markdown: Option<String>,
}

/// What the command line asks of the channel benchmark.
#[derive(Debug)]
pub struct PlaneChannelBenchmarkArgs {
    pub case_dir: String,
    pub fields_dir: String,
    pub options: LaminarPlaneChannelBenchmarkOptions,
    pub pressure_scale: Real,
    pub out_json: Option<String>,
    pub out_markdown: Option<String>,
}

/// The mathematical view of [`PipeBenchmarkArgs`].
pub struct PipeView {
    pub case_dir: Seq<char>,
    pub fields_dir: Seq<char>,
    pub pressure_drop: RealView,
    pub dynamic_viscosity: RealView,
    pub length: RealView,
    pub diameter: RealView,
    pub inlet_patch: Seq<char>,
    pub outlet_patch: Seq<char>,
    pub axis: PipeAxis,
    pub out_json: Option<Seq<char>>,
    pub out_markdown: Option<Seq<char>>,
}

/// The mathematical view of [`PlaneChannelBenchmarkArgs`].
pub struct ChannelView {
    pub case_dir: Seq<char>,
    pub fields_dir: Seq<char>,
    pub pressure_drop: RealView,
    pub dynamic_viscosity: RealView,
    pub length: RealView,
    pub gap: RealView,
    pub depth: RealView,
    pub inlet_patch: Seq<char>,
    pub outlet_patch: Seq<char>,
    pub axis: PipeAxis,
    pub pressure_scale: RealView,
    pub out_json: Option<Seq<char>>,
    pub out_markdown: Option<Seq<char>>,
}

impl View for PipeBenchmarkArgs {
    type V = PipeView;

    open spec fn view(&self) -> PipeView {
        PipeView {
            case_dir: self.case_dir@,
            fields_dir: self.fields_dir@,
            pressure_drop: self.options.pressure_drop@,
            dynamic_viscosity: self.options.dynamic_viscosity@,
            length: self.options.length@,
            diameter: self.options.diameter@,
            inlet_patch: self.options.inlet_patch@,
            outlet_patch: self.options.outlet_patch@,
            axis: self.options.axis,
            out_json: text::opt_text(self.out_json),
            out_markdown: text::opt_text(self.out_markdown),
        }
    }
}

impl View for PlaneChannelBenchmarkArgs {
    type V = ChannelView;

    open spec fn view(&self) -> ChannelView {
        ChannelView {
            case_dir: self.case_dir@,
            fields_dir: self.fields_dir@,
            pressure_drop: self.options.pressure_drop@,
            dynamic_viscosity: self.options.dynamic_viscosity@,
            length: self.options.length@,
            gap: self.options.gap@,
            depth: self.options.depth@,
            inlet_patch: self.options.inlet_patch@,
            outlet_patch: self.options.outlet_patch@,
            axis: self.options.axis,
            pressure_scale: self.pressure_scale@,
            out_json: text::opt_text(self.out_json),
            out_markdown: text::opt_text(self.out_markdown),
        }
    }
}

/// The options of the benchmarks.
#[derive(Clone, Copy, Debug, Eq, PartialEq, Structural)]
pub enum BenchmarkOption {
    Case,
    Fields,
    PressureDrop,
    Mu,
    Length,
    Diameter,
    Gap,
    Depth,
    InletPatch,
    OutletPatch,
    Axis,
    PressureScale,
    OutJson,
    OutMarkdown,
}

/// What stands behind an option.
#[derive(Clone, Copy, Debug, Eq, PartialEq, Structural)]
pub enum ValueKind {
    /// Any text.
    Text,
    /// A number above zero.
    Positive,
    /// The name of a patch.
    PatchName,
    /// A direction.
    Axis,
}

/// The value of an option.
#[derive(Debug)]
pub enum SettingValue {
    Text(String),
    Number(Real),
    Axis(PipeAxis),
}

/// The mathematical view of a [`SettingValue`].
pub enum ValueView {
    Text(Seq<char>),
    Number(RealView),
    Axis(PipeAxis),
}

impl View for SettingValue {
    type V = ValueView;

    open spec fn view(&self) -> ValueView {
        match *self {
            SettingValue::Text(found) => ValueView::Text(found@),
            SettingValue::Number(number) => ValueView::Number(number@),
            SettingValue::Axis(axis) => ValueView::Axis(axis),
        }
    }
}

/// An option with its value.
#[derive(Debug)]
pub struct Setting {
    pub option: BenchmarkOption,
    pub value: SettingValue,
}

/// The mathematical view of a [`Setting`].
pub struct SettingView {
    pub option: BenchmarkOption,
    pub value: ValueView,
}

impl View for Setting {
    type V = SettingView;

    open spec fn view(&self) -> SettingView {
        SettingView { option: self.option, value: self.value@ }
    }
}

/// The views of settings.
pub open spec fn setting_views(settings: Seq<Setting>) -> Seq<SettingView> {
    Seq::new(settings.len(), |i: int| settings[i]@)
}

/// The option of a benchmark that an argument spells.
pub open spec fn option_named(benchmark: Benchmark, arg: Seq<char>) -> Option<BenchmarkOption> {
    if arguments::spells(arg, "case"@, "case"@) {
        Some(BenchmarkOption::Case)
    } else if arguments::spells(arg, "fields"@, "fields"@) {
        Some(BenchmarkOption::Fields)
    } else if arguments::spells(arg, "pressureDrop"@, "pressure-drop"@) {
        Some(BenchmarkOption::PressureDrop)
    } else if arguments::spells(arg, "mu"@, "mu"@) {
        Some(BenchmarkOption::Mu)
    } else if arguments::spells(arg, "length"@, "length"@) {
        Some(BenchmarkOption::Length)
    } else if benchmark == Benchmark::Pipe && arguments::spells(arg, "diameter"@, "diameter"@) {
        Some(BenchmarkOption::Diameter)
    } else if benchmark == Benchmark::Channel && arguments::spells(arg, "gap"@, "gap"@) {
        Some(BenchmarkOption::Gap)
    } else if benchmark == Benchmark::Channel && arguments::spells(arg, "depth"@, "depth"@) {
        Some(BenchmarkOption::Depth)
    } else if arguments::spells(arg, "inletPatch"@, "inlet-patch"@) {
        Some(BenchmarkOption::InletPatch)
    } else if arguments::spells(arg, "outletPatch"@, "outlet-patch"@) {
        Some(BenchmarkOption::OutletPatch)
    } else if arguments::spells(arg, "axis"@, "axis"@) {
        Some(BenchmarkOption::Axis)
    } else if benchmark == Benchmark::Channel && arguments::spells(arg, "pressureScale"@, "pressure-scale"@) {
        Some(BenchmarkOption::PressureScale)
    } else if arguments::spells(arg, "outJson"@, "out-json"@) {
        Some(BenchmarkOption::OutJson)
    } else if arguments::spells(arg, "outMarkdown"@, "out-markdown"@) {
        Some(BenchmarkOption::OutMarkdown)
    } else {
        None
    }
}

fn option_of(benchmark: Benchmark, arg: &str) -> (option: Option<BenchmarkOption>)
    ensures
        option == option_named(benchmark, arg@),
{
    if arguments::is_spelled(arg, "case", "case") {
        Some(BenchmarkOption::Case)
    } else if arguments::is_spelled(arg, "fields", "fields") {
        Some(BenchmarkOption::Fields)
    } else if arguments::is_spelled(arg, "pressureDrop", "pressure-drop") {
        Some(BenchmarkOption::PressureDrop)
    } else if arguments::is_spelled(arg, "mu", "mu") {
        Some(BenchmarkOption::Mu)
    } else if arguments::is_spelled(arg, "length", "length") {
        Some(BenchmarkOption::Length)
    } else if benchmark == Benchmark::Pipe && arguments::is_spelled(arg, "diameter", "diameter") {
        Some(BenchmarkOption::Diameter)
    } else if benchmark == Benchmark::Channel && arguments::is_spelled(arg, "gap", "gap") {
        Some(BenchmarkOption::Gap)
    } else if benchmark == Benchmark::Channel && arguments::is_spelled(arg, "depth", "depth") {
        Some(BenchmarkOption::Depth)
    } else if arguments::is_spelled(arg, "inletPatch", "inlet-patch") {
        Some(BenchmarkOption::InletPatch)
    } else if arguments::is_spelled(arg, "outletPatch", "outlet-patch") {
        Some(BenchmarkOption::OutletPatch)
    } else if arguments::is_spelled(arg, "axis", "axis") {
        Some(BenchmarkOption::Axis)
    } else if benchmark == Benchmark::Channel && arguments::is_spelled(arg, "pressureScale", "pressure-scale") {
        Some(BenchmarkOption::PressureScale)
    } else if arguments::is_spelled(arg, "outJson", "out-json") {
        Some(BenchmarkOption::OutJson)
    } else if arguments::is_spelled(arg, "outMarkdown", "out-markdown") {
        Some(BenchmarkOption::OutMarkdown)
    } else {
        None
    }
}

/// What stands behind an option.
pub open spec fn value_kind(option: BenchmarkOption) -> ValueKind {
    match option {
        BenchmarkOption::Case
        | BenchmarkOption::Fields
        | BenchmarkOption::OutJson
        | BenchmarkOption::OutMarkdown => ValueKind::Text,
        BenchmarkOption::PressureDrop
        | BenchmarkOption::Mu
        | BenchmarkOption::Length
        | BenchmarkOption::Diameter
        | BenchmarkOption::Gap
        | BenchmarkOption::Depth
        | BenchmarkOption::PressureScale => ValueKind::Positive,
        BenchmarkOption::InletPatch
        | BenchmarkOption::OutletPatch => ValueKind::PatchName,
        BenchmarkOption::Axis => ValueKind::Axis,
    }
}

fn value_kind_of(option: BenchmarkOption) -> (out: ValueKind)
    ensures
        out == value_kind(option),
{
    match option {
        BenchmarkOption::Case
        | BenchmarkOption::Fields
        | BenchmarkOption::OutJson
        | BenchmarkOption::OutMarkdown => ValueKind::Text,
        BenchmarkOption::PressureDrop
        | BenchmarkOption::Mu
        | BenchmarkOption::Length
        | BenchmarkOption::Diameter
        | BenchmarkOption::Gap
        | BenchmarkOption::Depth
        | BenchmarkOption::PressureScale => ValueKind::Positive,
        BenchmarkOption::InletPatch
        | BenchmarkOption::OutletPatch => ValueKind::PatchName,
        BenchmarkOption::Axis => ValueKind::Axis,
    }
}

/// The option as messages call it.
pub open spec fn label(option: BenchmarkOption) -> Seq<char> {
    match option {
        BenchmarkOption::Case => "--case"@,
        BenchmarkOption::Fields => "--fields"@,
        BenchmarkOption::PressureDrop => "--pressureDrop"@,
        BenchmarkOption::Mu => "--mu"@,
        BenchmarkOption::Length => "--length"@,
        BenchmarkOption::Diameter => "--diameter"@,
        BenchmarkOption::Gap => "--gap"@,
        BenchmarkOption::Depth => "--depth"@,
        BenchmarkOption::InletPatch => "--inletPatch"@,
        BenchmarkOption::OutletPatch => "--outletPatch"@,
        BenchmarkOption::Axis => "--axis"@,
        BenchmarkOption::PressureScale => "--pressureScale"@,
        BenchmarkOption::OutJson => "--outJson"@,
        BenchmarkOption::OutMarkdown => "--outMarkdown"@,
    }
}

fn label_of(option: BenchmarkOption) -> (out: &'static str)
    ensures
        out@ == label(option),
{
    match option {
        BenchmarkOption::Case => "--case",
        BenchmarkOption::Fields => "--fields",
        BenchmarkOption::PressureDrop => "--pressureDrop",
        BenchmarkOption::Mu => "--mu",
        BenchmarkOption::Length => "--length",
        BenchmarkOption::Diameter => "--diameter",
        BenchmarkOption::Gap => "--gap",
        BenchmarkOption::Depth => "--depth",
        BenchmarkOption::InletPatch => "--inletPatch",
        BenchmarkOption::OutletPatch => "--outletPatch",
        BenchmarkOption::Axis => "--axis",
        BenchmarkOption::PressureScale => "--pressureScale",
        BenchmarkOption::OutJson => "--outJson",
        BenchmarkOption::OutMarkdown => "--outMarkdown",
    }
}

/// What is said where the value of an option is missing.
pub open spec fn missing(option: BenchmarkOption) -> Seq<char> {
    match option {
        BenchmarkOption::Case => "-case requires a directory"@,
        BenchmarkOption::Fields => "--fields requires a time/field directory"@,
        BenchmarkOption::PressureDrop => "--pressureDrop requires Pa"@,
        BenchmarkOption::Mu => "--mu requires Pa s"@,
        BenchmarkOption::Length => "--length requires m"@,
        BenchmarkOption::Diameter => "--diameter requires m"@,
        BenchmarkOption::Gap => "--gap requires m"@,
        BenchmarkOption::Depth => "--depth requires m"@,
        BenchmarkOption::InletPatch => "--inletPatch requires a value"@,
        BenchmarkOption::OutletPatch => "--outletPatch requires a value"@,
        BenchmarkOption::Axis => "--axis requires x, y, or z"@,
        BenchmarkOption::PressureScale => "--pressureScale requires a positive factor"@,
        BenchmarkOption::OutJson => "--outJson requires a file"@,
        BenchmarkOption::OutMarkdown => "--outMarkdown requires a file"@,
    }
}

fn missing_text(option: BenchmarkOption) -> (out: &'static str)
    ensures
        out@ == missing(option),
{
    match option {
        BenchmarkOption::Case => "-case requires a directory",
        BenchmarkOption::Fields => "--fields requires a time/field directory",
        BenchmarkOption::PressureDrop => "--pressureDrop requires Pa",
        BenchmarkOption::Mu => "--mu requires Pa s",
        BenchmarkOption::Length => "--length requires m",
        BenchmarkOption::Diameter => "--diameter requires m",
        BenchmarkOption::Gap => "--gap requires m",
        BenchmarkOption::Depth => "--depth requires m",
        BenchmarkOption::InletPatch => "--inletPatch requires a value",
        BenchmarkOption::OutletPatch => "--outletPatch requires a value",
        BenchmarkOption::Axis => "--axis requires x, y, or z",
        BenchmarkOption::PressureScale => "--pressureScale requires a positive factor",
        BenchmarkOption::OutJson => "--outJson requires a file",
        BenchmarkOption::OutMarkdown => "--outMarkdown requires a file",
    }
}

/// The name of a benchmark.
pub open spec fn benchmark_name(benchmark: Benchmark) -> Seq<char> {
    match benchmark {
        Benchmark::Pipe => "ferrumPipeBenchmark"@,
        Benchmark::Channel => "ferrumPlaneChannelBenchmark"@,
    }
}

fn name_of(benchmark: Benchmark) -> (name: &'static str)
    ensures
        name@ == benchmark_name(benchmark),
{
    match benchmark {
        Benchmark::Pipe => "ferrumPipeBenchmark",
        Benchmark::Channel => "ferrumPlaneChannelBenchmark",
    }
}

/// The value that an argument gives an option.
pub open spec fn value_read(
    readings: Readings,
    option: BenchmarkOption,
    value: Seq<char>,
) -> Result<ValueView, Seq<char>> {
    match value_kind(option) {
        ValueKind::Text => Ok(ValueView::Text(value)),
        ValueKind::Positive => match arguments::positive_arg(readings, label(option), value) {
            Ok(number) => Ok(ValueView::Number(number)),
            Err(message) => Err(message),
        },
        ValueKind::PatchName => if text::trim(value).len() == 0 {
            Err(label(option) + " must not be empty"@)
        } else {
            Ok(ValueView::Text(value))
        },
        ValueKind::Axis => match poiseuille::axis_named(value) {
            Ok(axis) => Ok(ValueView::Axis(axis)),
            Err(message) => Err(message),
        },
    }
}

/// The setting at `at`, which is made of two arguments.
pub open spec fn setting_at(
    benchmark: Benchmark,
    readings: Readings,
    args: Seq<Seq<char>>,
    at: int,
) -> Result<SettingView, Seq<char>> {
    match option_named(benchmark, args[at]) {
        None => Err(
            "unknown "@ + benchmark_name(benchmark) + " option '"@ + args[at] + "'"@,
        ),
        Some(option) => match arguments::value_at(args, at, missing(option)) {
            Err(message) => Err(message),
            Ok(value) => match value_read(readings, option, value) {
                Err(message) => Err(message),
                Ok(found) => Ok(SettingView { option, value: found }),
            },
        },
    }
}

/// The settings from `at` on.
pub open spec fn settings_from(
    benchmark: Benchmark,
    readings: Readings,
    args: Seq<Seq<char>>,
    at: int,
) -> Result<Seq<SettingView>, Seq<char>>
    decreases args.len() - at,
{
    if at >= args.len() {
        Ok(Seq::empty())
    } else {
        match setting_at(benchmark, readings, args, at) {
            Err(message) => Err(message),
            Ok(setting) => match settings_from(benchmark, readings, args, at + 2) {
                Err(message) => Err(message),
                Ok(rest) => Ok(seq![setting] + rest),
            },
        }
    }
}

/// The last value of an option.
pub open spec fn last_of(settings: Seq<SettingView>, option: BenchmarkOption) -> Option<ValueView>
    decreases settings.len(),
{
    if settings.len() == 0 {
        None
    } else if settings.last().option == option {
        Some(settings.last().value)
    } else {
        last_of(settings.drop_last(), option)
    }
}

/// The last number of an option.
pub open spec fn last_number(settings: Seq<SettingView>, option: BenchmarkOption) -> Option<
    RealView,
> {
    match last_of(settings, option) {
        Some(ValueView::Number(number)) => Some(number),
        _ => None,
    }
}

/// The last text of an option.
pub open spec fn last_text(settings: Seq<SettingView>, option: BenchmarkOption) -> Option<
    Seq<char>,
> {
    match last_of(settings, option) {
        Some(ValueView::Text(found)) => Some(found),
        _ => None,
    }
}

/// The last text of an option, or `default` where there is none.
pub open spec fn text_or(
    settings: Seq<SettingView>,
    option: BenchmarkOption,
    default: Seq<char>,
) -> Seq<char> {
    match last_text(settings, option) {
        Some(found) => found,
        None => default,
    }
}

/// The direction of the flow; along `x` where nothing else is asked for.
pub open spec fn axis_of(settings: Seq<SettingView>) -> PipeAxis {
    match last_of(settings, BenchmarkOption::Axis) {
        Some(ValueView::Axis(axis)) => axis,
        _ => PipeAxis::X,
    }
}

/// What is said where an option is missing.
pub open spec fn required(benchmark: Benchmark, option: BenchmarkOption) -> Seq<char> {
    benchmark_name(benchmark) + " requires "@ + label(option)
}

/// What the settings ask of the pipe benchmark.
pub open spec fn pipe_asked(settings: Seq<SettingView>) -> Result<PipeView, Seq<char>> {
    let fields = last_text(settings, BenchmarkOption::Fields);
    let pressure_drop = last_number(settings, BenchmarkOption::PressureDrop);
    let viscosity = last_number(settings, BenchmarkOption::Mu);
    let length = last_number(settings, BenchmarkOption::Length);
    let diameter = last_number(settings, BenchmarkOption::Diameter);
    if fields is None {
        Err(required(Benchmark::Pipe, BenchmarkOption::Fields))
    } else if pressure_drop is None {
        Err(required(Benchmark::Pipe, BenchmarkOption::PressureDrop))
    } else if viscosity is None {
        Err(required(Benchmark::Pipe, BenchmarkOption::Mu))
    } else if length is None {
        Err(required(Benchmark::Pipe, BenchmarkOption::Length))
    } else if diameter is None {
        Err(required(Benchmark::Pipe, BenchmarkOption::Diameter))
    } else {
        Ok(
            PipeView {
                case_dir: text_or(settings, BenchmarkOption::Case, "."@),
                fields_dir: fields->0,
                pressure_drop: pressure_drop->0,
                dynamic_viscosity: viscosity->0,
                length: length->0,
                diameter: diameter->0,
                inlet_patch: text_or(settings, BenchmarkOption::InletPatch, "inlet"@),
                outlet_patch: text_or(settings, BenchmarkOption::OutletPatch, "outlet"@),
                axis: axis_of(settings),
                out_json: last_text(settings, BenchmarkOption::OutJson),
                out_markdown: last_text(settings, BenchmarkOption::OutMarkdown),
            },
        )
    }
}

/// What the settings ask of the channel benchmark.
pub open spec fn channel_asked(settings: Seq<SettingView>) -> Result<ChannelView, Seq<char>> {
    let fields = last_text(settings, BenchmarkOption::Fields);
    let pressure_drop = last_number(settings, BenchmarkOption::PressureDrop);
    let viscosity = last_number(settings, BenchmarkOption::Mu);
    let length = last_number(settings, BenchmarkOption::Length);
    let gap = last_number(settings, BenchmarkOption::Gap);
    let depth = last_number(settings, BenchmarkOption::Depth);
    if fields is None {
        Err(required(Benchmark::Channel, BenchmarkOption::Fields))
    } else if pressure_drop is None {
        Err(required(Benchmark::Channel, BenchmarkOption::PressureDrop))
    } else if viscosity is None {
        Err(required(Benchmark::Channel, BenchmarkOption::Mu))
    } else if length is None {
        Err(required(Benchmark::Channel, BenchmarkOption::Length))
    } else if gap is None {
        Err(required(Benchmark::Channel, BenchmarkOption::Gap))
    } else if depth is None {
        Err(required(Benchmark::Channel, BenchmarkOption::Depth))
    } else {
        Ok(
            ChannelView {
                case_dir: text_or(settings, BenchmarkOption::Case, "."@),
                fields_dir: fields->0,
                pressure_drop: pressure_drop->0,
                dynamic_viscosity: viscosity->0,
                length: length->0,
                gap: gap->0,
                depth: depth->0,
                inlet_patch: text_or(settings, BenchmarkOption::InletPatch, "inlet"@),
                outlet_patch: text_or(settings, BenchmarkOption::OutletPatch, "outlet"@),
                axis: axis_of(settings),
                pressure_scale: match last_number(settings, BenchmarkOption::PressureScale) {
                    Some(number) => number,
                    None => reals::one(),
                },
                out_json: last_text(settings, BenchmarkOption::OutJson),
                out_markdown: last_text(settings, BenchmarkOption::OutMarkdown),
            },
        )
    }
}

/// What a command line asks of the pipe benchmark.
pub open spec fn pipe_args(readings: Readings, args: Seq<Seq<char>>) -> Result<
    PipeView,
    Seq<char>,
> {
    match settings_from(Benchmark::Pipe, readings, args, 0) {
        Ok(settings) => pipe_asked(settings),
        Err(message) => Err(message),
    }
}

/// What a command line asks of the channel benchmark.
pub open spec fn channel_args(readings: Readings, args: Seq<Seq<char>>) -> Result<
    ChannelView,
    Seq<char>,
> {
    match settings_from(Benchmark::Channel, readings, args, 0) {
        Ok(settings) => channel_asked(settings),
        Err(message) => Err(message),
    }
}

/// Settings in front of a result.
spec fn behind(earlier: Seq<SettingView>, rest: Result<Seq<SettingView>, Seq<char>>) -> Result<
    Seq<SettingView>,
    Seq<char>,
> {
    match rest {
        Ok(found) => Ok(earlier + found),
        Err(message) => Err(message),
    }
}

fn read_value(readings: &Readings, option: BenchmarkOption, value: &str) -> (out: Result<
    SettingValue,
    String,
>)
    ensures
        match out {
            Ok(found) => text::accepts(value_read(*readings, option, value@), found@),
            Err(message) => text::refuses(value_read(*readings, option, value@), message),
        },
{
    let label = label_of(option);
    match value_kind_of(option) {
        ValueKind::Text => Ok(SettingValue::Text(value.to_string())),
        ValueKind::Positive => Ok(
            SettingValue::Number(arguments::parse_positive_f64_arg(readings, label, value)?),
        ),
        ValueKind::PatchName => {
            if text::is_blank(value) {
                let mut message = label.to_string();
                message.append(" must not be empty");
                Err(message)
            } else {
                Ok(SettingValue::Text(value.to_string()))
            }
        },
        ValueKind::Axis => Ok(SettingValue::Axis(poiseuille::parse_pipe_axis(value)?)),
    }
}

fn read_setting(
    benchmark: Benchmark,
    readings: &Readings,
    args: &Vec<String>,
    at: usize,
) -> (out: Result<Setting, String>)
    requires
        at < args@.len(),
    ensures
        match out {
            Ok(setting) => at + 2 <= args@.len() && text::accepts(
                setting_at(benchmark, *readings, text::texts(args@), at as int),
                setting@,
            ),
            Err(message) => text::refuses(
                setting_at(benchmark, *readings, text::texts(args@), at as int),
                message,
            ),
        },
{
    let arg = args[at].as_str();
    match option_of(benchmark, arg) {
        None => {
            let mut message = "unknown ".to_string();
            message.append(name_of(benchmark));
            message.append(" option '");
            message.append(arg);
            message.append("'");
            Err(message)
        },
        Some(option) => {
            let value = arguments::value_behind(args, at, missing_text(option))?;
            let found = read_value(readings, option, value.as_str())?;
            Ok(Setting { option, value: found })
        },
    }
}

fn read_settings(benchmark: Benchmark, readings: &Readings, args: &Vec<String>) -> (out: Result<
    Vec<Setting>,
    String,
>)
    ensures
        match out {
            Ok(settings) => text::accepts(
                settings_from(benchmark, *readings, text::texts(args@), 0),
                setting_views(settings@),
            ),
            Err(message) => text::refuses(
                settings_from(benchmark, *readings, text::texts(args@), 0),
                message,
            ),
        },
{
    let ghost given = text::texts(args@);
    let ghost wanted = settings_from(benchmark, *readings, given, 0);
    let mut settings: Vec<Setting> = Vec::new();
    let mut at: usize = 0;
    proof {
        if let Ok(found) = wanted {
            assert(setting_views(settings@) + found =~= found);
        }
    }
    while at < args.len()
        invariant
            at <= args@.len(),
            given == text::texts(args@),
            wanted == settings_from(benchmark, *readings, given, 0),
            wanted == behind(
                setting_views(settings@),
                settings_from(benchmark, *readings, given, at as int),
            ),
        decreases args@.len() - at,
    {
        let setting = read_setting(benchmark, readings, args, at)?;
        let ghost earlier = setting_views(settings@);
        let ghost rest = settings_from(benchmark, *readings, given, at + 2);
        let ghost added = setting@;
        settings.push(setting);
        proof {
            assert(setting_views(settings@) =~= earlier.push(added));
            if let Ok(found) = rest {
                assert(earlier + (seq![added] + found) =~= earlier.push(added) + found);
            }
        }
        at += 2;
    }
    assert(setting_views(settings@) + Seq::<SettingView>::empty() =~= setting_views(settings@));
    Ok(settings)
}

fn find_last(settings: &Vec<Setting>, option: BenchmarkOption) -> (found: Option<&SettingValue>)
    ensures
        match found {
            Some(value) => last_of(setting_views(settings@), option) == Some(value@),
            None => last_of(setting_views(settings@), option) is None,
        },
{
    let ghost all = setting_views(settings@);
    let mut at: usize = settings.len();
    assert(all.take(at as int) =~= all);
    while at > 0
        invariant
            at <= settings@.len(),
            all == setting_views(settings@),
            last_of(all, option) == last_of(all.take(at as int), option),
        decreases at,
    {
        assert(all.take(at as int).drop_last() =~= all.take(at - 1));
        if settings[at - 1].option == option {
            return Some(&settings[at - 1].value);
        }
        at -= 1;
    }
    None
}

fn number_in(settings: &Vec<Setting>, option: BenchmarkOption) -> (found: Option<Real>)
    ensures
        reals::opt_real(found) == last_number(setting_views(settings@), option),
{
    match find_last(settings, option) {
        Some(SettingValue::Number(number)) => Some(number.copy()),
        _ => None,
    }
}

fn text_in(settings: &Vec<Setting>, option: BenchmarkOption) -> (found: Option<String>)
    ensures
        text::opt_text(found) == last_text(setting_views(settings@), option),
{
    match find_last(settings, option) {
        Some(SettingValue::Text(inner)) => Some(inner.clone()),
        _ => None,
    }
}

fn text_or_default(settings: &Vec<Setting>, option: BenchmarkOption, default: &str) -> (found:
    String)
    ensures
        found@ == text_or(setting_views(settings@), option, default@),
{
    match text_in(settings, option) {
        Some(inner) => inner,
        None => default.to_string(),
    }
}

fn axis_in(settings: &Vec<Setting>) -> (axis: PipeAxis)
    ensures
        axis == axis_of(setting_views(settings@)),
{
    match find_last(settings, BenchmarkOption::Axis) {
        Some(SettingValue::Axis(axis)) => *axis,
        _ => PipeAxis::X,
    }
}

fn required_text(benchmark: Benchmark, option: BenchmarkOption) -> (message: String)
    ensures
        message@ == required(benchmark, option),
{
    let mut message = name_of(benchmark).to_string();
    message.append(" requires ");
    message.append(label_of(option));
    message
}

fn required_number(
    benchmark: Benchmark,
    settings: &Vec<Setting>,
    option: BenchmarkOption,
) -> (out: Result<Real, String>)
    ensures
        match out {
            Ok(number) => last_number(setting_views(settings@), option) == Some(number@),
            Err(message) => last_number(setting_views(settings@), option) is None && message@
                == required(benchmark, option),
        },
{
    match number_in(settings, option) {
        Some(number) => Ok(number),
        None => Err(required_text(benchmark, option)),
    }
}

fn required_fields(benchmark: Benchmark, settings: &Vec<Setting>) -> (out: Result<String, String>)
    ensures
        match out {
            Ok(found) => last_text(setting_views(settings@), BenchmarkOption::Fields) == Some(
                found@,
            ),
            Err(message) => last_text(
                setting_views(settings@),
                BenchmarkOption::Fields,
            ) is None && message@ == required(benchmark, BenchmarkOption::Fields),
        },
{
    match text_in(settings, BenchmarkOption::Fields) {
        Some(found) => Ok(found),
        None => Err(required_text(benchmark, BenchmarkOption::Fields)),
    }
}

/// Reads the command line of the pipe benchmark; `readings` says what its
/// texts denote as numbers.
pub fn parse_pipe_benchmark_args(args: &Vec<String>, readings: &Readings) -> (out: Result<
    PipeBenchmarkArgs,
    String,
>)
    ensures
        match out {
            Ok(found) => text::accepts(pipe_args(*readings, text::texts(args@)), found@),
            Err(message) => text::refuses(pipe_args(*readings, text::texts(args@)), message),
        },
{
    let settings = read_settings(Benchmark::Pipe, readings, args)?;
    let fields_dir = required_fields(Benchmark::Pipe, &settings)?;
    let pressure_drop = required_number(
        Benchmark::Pipe,
        &settings,
        BenchmarkOption::PressureDrop,
    )?;
    let dynamic_viscosity = required_number(Benchmark::Pipe, &settings, BenchmarkOption::Mu)?;
    let length = required_number(Benchmark::Pipe, &settings, BenchmarkOption::Length)?;
    let diameter = required_number(Benchmark::Pipe, &settings, BenchmarkOption::Diameter)?;
    Ok(
        PipeBenchmarkArgs {
            case_dir: text_or_default(&settings, BenchmarkOption::Case, "."),
            fields_dir,
            options: LaminarPipeBenchmarkOptions {
                pressure_drop,
                dynamic_viscosity,
                length,
                diameter,
                inlet_patch: text_or_default(&settings, BenchmarkOption::InletPatch, "inlet"),
                outlet_patch: text_or_default(&settings, BenchmarkOption::OutletPatch, "outlet"),
                axis: axis_in(&settings),
            },
            out_json: text_in(&settings, BenchmarkOption::OutJson),
            out_markdown: text_in(&settings, BenchmarkOption::OutMarkdown),
        },
    )
}

/// Reads the command line of the channel benchmark; `readings` says what its
/// texts denote as numbers.
pub fn parse_plane_channel_benchmark_args(args: &Vec<String>, readings: &Readings) -> (out: Result<
    PlaneChannelBenchmarkArgs,
    String,
>)
    ensures
        match out {
            Ok(found) => text::accepts(channel_args(*readings, text::texts(args@)), found@),
            Err(message) => text::refuses(channel_args(*readings, text::texts(args@)), message),
        },
{
    let settings = read_settings(Benchmark::Channel, readings, args)?;
    let fields_dir = required_fields(Benchmark::Channel, &settings)?;
    let pressure_drop = required_number(
        Benchmark::Channel,
        &settings,
        BenchmarkOption::PressureDrop,
    )?;
    let dynamic_viscosity = required_number(Benchmark::Channel, &settings, BenchmarkOption::Mu)?;
    let length = required_number(Benchmark::Channel, &settings, BenchmarkOption::Length)?;
    let gap = required_number(Benchmark::Channel, &settings, BenchmarkOption::Gap)?;
    let depth = required_number(Benchmark::Channel, &settings, BenchmarkOption::Depth)?;
    let pressure_scale = match number_in(&settings, BenchmarkOption::PressureScale) {
        Some(number) => number,
        None => Real::one(),
    };
    Ok(
        PlaneChannelBenchmarkArgs {
            case_dir: text_or_default(&settings, BenchmarkOption::Case, "."),
            fields_dir,
            options: LaminarPlaneChannelBenchmarkOptions {
                pressure_drop,
                dynamic_viscosity,
                length,
                gap,
                depth,
                inlet_patch: text_or_default(&settings, BenchmarkOption::InletPatch, "inlet"),
                outlet_patch: text_or_default(&settings, BenchmarkOption::OutletPatch, "outlet"),
                axis: axis_in(&settings),
            },
            pressure_scale,
            out_json: text_in(&settings, BenchmarkOption::OutJson),
            out_markdown: text_in(&settings, BenchmarkOption::OutMarkdown),
        },
    )
}

/// Each option of a benchmark is asked for by its own words, and a benchmark has no
/// option of the other one.
pub proof fn benchmark_option_words(benchmark: Benchmark, arg: Seq<char>)
    ensures
        match option_named(benchmark, arg) {
            Some(BenchmarkOption::Case) => is_dashed(arg, "case"@),
            Some(BenchmarkOption::Fields) => is_dashed(arg, "fields"@),
            Some(BenchmarkOption::PressureDrop) => is_dashed(arg, "pressureDrop"@) || is_dashed(
                arg,
                "pressure-drop"@,
            ),
            Some(BenchmarkOption::Mu) => is_dashed(arg, "mu"@),
            Some(BenchmarkOption::Length) => is_dashed(arg, "length"@),
            Some(BenchmarkOption::Diameter) => is_dashed(arg, "diameter"@) && benchmark
                == Benchmark::Pipe,
            Some(BenchmarkOption::Gap) => is_dashed(arg, "gap"@) && benchmark
                == Benchmark::Channel,
            Some(BenchmarkOption::Depth) => is_dashed(arg, "depth"@) && benchmark
                == Benchmark::Channel,
            Some(BenchmarkOption::InletPatch) => is_dashed(arg, "inletPatch"@) || is_dashed(
                arg,
                "inlet-patch"@,
            ),
            Some(BenchmarkOption::OutletPatch) => is_dashed(arg, "outletPatch"@) || is_dashed(
                arg,
                "outlet-patch"@,
            ),
            Some(BenchmarkOption::Axis) => is_dashed(arg, "axis"@),
            Some(BenchmarkOption::PressureScale) => (is_dashed(arg, "pressureScale"@) || is_dashed(
                arg,
                "pressure-scale"@,
            )) && benchmark == Benchmark::Channel,
            Some(BenchmarkOption::OutJson) => is_dashed(arg, "outJson"@) || is_dashed(
                arg,
                "out-json"@,
            ),
            Some(BenchmarkOption::OutMarkdown) => is_dashed(arg, "outMarkdown"@) || is_dashed(
                arg,
                "out-markdown"@,
            ),
            None => !is_dashed(arg, "case"@) && !is_dashed(arg, "fields"@) && !is_dashed(arg, "mu"@)
                && !is_dashed(arg, "length"@) && !is_dashed(arg, "axis"@) && !is_dashed(
                arg,
                "pressureDrop"@,
            ) && !is_dashed(arg, "inletPatch"@) && !is_dashed(arg, "outletPatch"@) && !is_dashed(
                arg,
                "outJson"@,
            ) && !is_dashed(arg, "outMarkdown"@),
        },
{
}

/// Whether an argument is a word behind one or two dashes.
pub open spec fn is_dashed(arg: Seq<char>, word: Seq<char>) -> bool {
    arg == "-"@ + word || arg == "--"@ + word
}

/// Whether the setting at `at` is the last one of its option.
pub open spec fn is_last(settings: Seq<SettingView>, at: int) -> bool {
    &&& 0 <= at < settings.len()
    &&& forall|later: int|
        at < later < settings.len() ==> (#[trigger] settings[later]).option
            != settings[at].option
}

proof fn lemma_last_of(settings: Seq<SettingView>, at: int, option: BenchmarkOption)
    ensures
        is_last(settings, at) ==> last_of(settings, settings[at].option) == Some(
            settings[at].value,
        ),
        (forall|i: int| 0 <= i < settings.len() ==> (#[trigger] settings[i]).option != option)
            ==> last_of(settings, option) is None,
    decreases settings.len(),
{
    if settings.len() > 0 {
        let front = settings.drop_last();
        lemma_last_of(front, at, option);
        if is_last(settings, at) && at < settings.len() - 1 {
            assert(settings[settings.len() - 1].option != settings[at].option);
            assert forall|later: int| at < later < front.len() implies (
            #[trigger] front[later]).option != front[at].option by {
                assert(front[later] == settings[later]);
            }
            assert(is_last(front, at));
        }
        if forall|i: int| 0 <= i < settings.len() ==> (#[trigger] settings[i]).option != option {
            assert forall|i: int| 0 <= i < front.len() implies (#[trigger] front[i]).option
                != option by {
                assert(front[i] == settings[i]);
            }
            assert(settings[settings.len() - 1].option != option);
        }
    }
}

/// A benchmark has each value under its own name: that of the last setting of the
/// option.
pub proof fn benchmark_has_its_options(settings: Seq<SettingView>, at: int)
    requires
        is_last(settings, at),
    ensures
        pipe_asked(settings) matches Ok(found) ==> match (settings[at].option, settings[at].value) {
            (BenchmarkOption::Case, ValueView::Text(value)) => found.case_dir == value,
            (BenchmarkOption::Fields, ValueView::Text(value)) => found.fields_dir == value,
            (BenchmarkOption::PressureDrop, ValueView::Number(value)) => found.pressure_drop
                == value,
            (BenchmarkOption::Mu, ValueView::Number(value)) => found.dynamic_viscosity == value,
            (BenchmarkOption::Length, ValueView::Number(value)) => found.length == value,
            (BenchmarkOption::Diameter, ValueView::Number(value)) => found.diameter == value,
            (BenchmarkOption::InletPatch, ValueView::Text(value)) => found.inlet_patch == value,
            (BenchmarkOption::OutletPatch, ValueView::Text(value)) => found.outlet_patch == value,
            (BenchmarkOption::Axis, ValueView::Axis(value)) => found.axis == value,
            (BenchmarkOption::OutJson, ValueView::Text(value)) => found.out_json == Some(value),
            (BenchmarkOption::OutMarkdown, ValueView::Text(value)) => found.out_markdown == Some(
                value,
            ),
            _ => true,
        },
        channel_asked(settings) matches Ok(found) ==> match (
            settings[at].option,
            settings[at].value,
        ) {
            (BenchmarkOption::Case, ValueView::Text(value)) => found.case_dir == value,
            (BenchmarkOption::Fields, ValueView::Text(value)) => found.fields_dir == value,
            (BenchmarkOption::PressureDrop, ValueView::Number(value)) => found.pressure_drop
                == value,
            (BenchmarkOption::Mu, ValueView::Number(value)) => found.dynamic_viscosity == value,
            (BenchmarkOption::Length, ValueView::Number(value)) => found.length == value,
            (BenchmarkOption::Gap, ValueView::Number(value)) => found.gap == value,
            (BenchmarkOption::Depth, ValueView::Number(value)) => found.depth == value,
            (BenchmarkOption::PressureScale, ValueView::Number(value)) => found.pressure_scale
                == value,
            (BenchmarkOption::InletPatch, ValueView::Text(value)) => found.inlet_patch == value,
            (BenchmarkOption::OutletPatch, ValueView::Text(value)) => found.outlet_patch == value,
            (BenchmarkOption::Axis, ValueView::Axis(value)) => found.axis == value,
            (BenchmarkOption::OutJson, ValueView::Text(value)) => found.out_json == Some(value),
            (BenchmarkOption::OutMarkdown, ValueView::Text(value)) => found.out_markdown == Some(
                value,
            ),
            _ => true,
        },
{
    lemma_last_of(settings, at, settings[at].option);
}

/// A benchmark without its fields or one of its sizes is refused; without the other
/// options it runs on the case at hand, from `inlet` to `outlet` along `x`, with
/// pressures as they are.
pub proof fn missing_options_have_defaults(settings: Seq<SettingView>, option: BenchmarkOption)
    requires
        forall|i: int| 0 <= i < settings.len() ==> (#[trigger] settings[i]).option != option,
    ensures
        option == BenchmarkOption::Fields || option == BenchmarkOption::PressureDrop || option
            == BenchmarkOption::Mu || option == BenchmarkOption::Length ==> pipe_asked(settings) is Err
            && channel_asked(settings) is Err,
        option == BenchmarkOption::Diameter ==> pipe_asked(settings) is Err,
        option == BenchmarkOption::Gap || option == BenchmarkOption::Depth ==> channel_asked(
            settings,
        ) is Err,
        pipe_asked(settings) matches Ok(found) ==> match option {
            BenchmarkOption::Case => found.case_dir == "."@,
            BenchmarkOption::InletPatch => found.inlet_patch == "inlet"@,
            BenchmarkOption::OutletPatch => found.outlet_patch == "outlet"@,
            BenchmarkOption::Axis => found.axis == PipeAxis::X,
            BenchmarkOption::OutJson => found.out_json is None,
            BenchmarkOption::OutMarkdown => found.out_markdown is None,
            _ => true,
        },
        channel_asked(settings) matches Ok(found) ==> match option {
            BenchmarkOption::Case => found.case_dir == "."@,
            BenchmarkOption::InletPatch => found.inlet_patch == "inlet"@,
            BenchmarkOption::OutletPatch => found.outlet_patch == "outlet"@,
            BenchmarkOption::Axis => found.axis == PipeAxis::X,
            BenchmarkOption::PressureScale => found.pressure_scale.display == "1"@,
            BenchmarkOption::OutJson => found.out_json is None,
            BenchmarkOption::OutMarkdown => found.out_markdown is None,
            _ => true,
        },
{
    lemma_last_of(settings, 0, option);
}

/// The arguments are taken in pairs of an option and its value, in their order; a
/// size is a number above zero.
pub proof fn benchmark_settings_follow_the_arguments(
    benchmark: Benchmark,
    readings: Readings,
    args: Seq<Seq<char>>,
    at: int,
)
    requires
        0 <= at < args.len(),
        settings_from(benchmark, readings, args, at) is Ok,
    ensures
        ({
            let all = settings_from(benchmark, readings, args, at)->Ok_0;
            &&& at + 1 < args.len()
            &&& all.len() > 0
            &&& option_named(benchmark, args[at]) == Some(all[0].option)
            &&& settings_from(benchmark, readings, args, at + 2) == Ok::<
                Seq<SettingView>,
                Seq<char>,
            >(all.skip(1))
            &&& match all[0].value {
                ValueView::Text(found) => found == args[at + 1],
                ValueView::Number(number) => readings.number(args[at + 1]) == Some(number) && (
                number.kind == reals::RealKind::UpToOne || number.kind
                    == reals::RealKind::AboveOne),
                ValueView::Axis(axis) => poiseuille::axis_named(args[at + 1]) == Ok::<
                    PipeAxis,
                    Seq<char>,
                >(axis),
            }
        }),
{
    let all = settings_from(benchmark, readings, args, at)->Ok_0;
    let rest = settings_from(benchmark, readings, args, at + 2)->Ok_0;
    assert(all.skip(1) =~= rest);
}

} // verus!
