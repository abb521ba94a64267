//! The plot of the residuals of a run.

use crate::reals;
use crate::reals::{Real, RealView, Readings};
use crate::text;
use crate::text::CharClass;
use vstd::prelude::*;

verus! {

/// One iteration of the plot.
#[derive(Debug)]
pub struct PlotRow {
    pub iteration: Real,
    pub continuity: Real,
    pub momentum: Real,
    pub pressure: Real,
}

/// The mathematical view of a [`PlotRow`].
pub struct PlotRowView {
    pub iteration: RealView,
    pub continuity: RealView,
    pub momentum: RealView,
    pub pressure: RealView,
}

impl View for PlotRow {
    type V = PlotRowView;

    open spec fn view(&self) -> PlotRowView {
        PlotRowView {
            iteration: self.iteration@,
            continuity: self.continuity@,
            momentum: self.momentum@,
            pressure: self.pressure@,
        }
    }
}

/// The views of rows.
pub open spec fn row_views(rows: Seq<PlotRow>) -> Seq<PlotRowView> {
    Seq::new(rows.len(), |i: int| rows[i]@)
}

/// The finite number of a text.
pub open spec fn finite(readings: Readings, value: Seq<char>) -> Option<RealView> {
    match readings.number(value) {
        Some(number) => if number.finite() {
            Some(number)
        } else {
            None
        },
        None => None,
    }
}

/// The row that a line of a CSV report gives: a line that is blank, too short
/// or without finite numbers gives none.
pub open spec fn line_row(readings: Readings, line: Seq<char>) -> Option<PlotRowView> {
    let values = text::pieces(CharClass::Only(','), line);
    if text::trim(line).len() == 0 || values.len() < 9 {
        None
    } else {
        match (
            finite(readings, values[0]),
            finite(readings, values[2]),
            finite(readings, values[3]),
            finite(readings, values[6]),
        ) {
            (Some(iteration), Some(continuity), Some(momentum), Some(pressure)) => Some(
                PlotRowView { iteration, continuity, momentum, pressure },
            ),
            _ => None,
        }
    }
}

/// The rows of the first `n` lines of a CSV report; the first line is its
/// header.
pub open spec fn rows_before(readings: Readings, lines: Seq<Seq<char>>, n: int) -> Seq<PlotRowView>
    decreases n,
{
    if n <= 1 {
        Seq::empty()
    } else {
        match line_row(readings, lines[n - 1]) {
            Some(row) => rows_before(readings, lines, n - 1).push(row),
            None => rows_before(readings, lines, n - 1),
        }
    }
}

/// The rows of a CSV report, of which there must be one at least.
pub open spec fn plot_rows(readings: Readings, csv: Seq<char>) -> Result<
    Seq<PlotRowView>,
    Seq<char>,
> {
    let lines = text::lines(csv);
    let rows = rows_before(readings, lines, lines.len() as int);
    if rows.len() == 0 {
        Err("no residual history rows in CSV"@)
    } else {
        Ok(rows)
    }
}

fn read_finite(readings: &Readings, value: &str) -> (number: Option<Real>)
    ensures
        reals::opt_real(number) == finite(*readings, value@),
{
    match readings.read(value) {
        Some(found) => if found.is_finite() {
            Some(found)
        } else {
            None
        },
        None => None,
    }
}

fn read_line(readings: &Readings, line: &str) -> (row: Option<PlotRow>)
    ensures
        match row {
            Some(found) => line_row(*readings, line@) == Some(found@),
            None => line_row(*readings, line@) is None,
        },
{
    if text::is_blank(line) {
        return None;
    }
    let values = text::split(line, CharClass::Only(','));
    let ghost all = text::texts(values@);
    if values.len() < 9 {
        return None;
    }
    let iteration = read_finite(readings, values[0].as_str());
    let continuity = read_finite(readings, values[2].as_str());
    let momentum = read_finite(readings, values[3].as_str());
    let pressure = read_finite(readings, values[6].as_str());
    match (iteration, continuity, momentum, pressure) {
        (Some(iteration), Some(continuity), Some(momentum), Some(pressure)) => Some(
            PlotRow { iteration, continuity, momentum, pressure },
        ),
        _ => None,
    }
}

/// The rows of a CSV report; `readings` says what its texts denote as
/// numbers.
pub fn read_plot_rows(readings: &Readings, csv: &str) -> (out: Result<Vec<PlotRow>, String>)
    ensures
        match out {
            Ok(rows) => text::accepts(plot_rows(*readings, csv@), row_views(rows@)),
            Err(message) => text::refuses(plot_rows(*readings, csv@), message),
        },
{
    let lines = text::lines_of(csv);
    let ghost all = text::texts(lines@);
    let mut rows: Vec<PlotRow> = Vec::new();
    let mut at: usize = 1;
    assert(row_views(rows@) =~= rows_before(*readings, all, 1));
    while at < lines.len()
        invariant
            1 <= at,
            at <= lines@.len() || (lines@.len() == 0 && at == 1),
            all == text::texts(lines@),
            row_views(rows@) == rows_before(*readings, all, at as int),
        decreases lines@.len() - at,
    {
        let ghost earlier = row_views(rows@);
        assert(all[at as int] == lines@[at as int]@);
        if let Some(row) = read_line(readings, lines[at].as_str()) {
            let ghost added = row@;
            rows.push(row);
            assert(row_views(rows@) =~= earlier.push(added));
        }
        at += 1;
    }
    assert(rows_before(*readings, all, 0) == rows_before(*readings, all, 1));
    assert(row_views(rows@).len() == rows@.len());
    if rows.len() == 0 {
        return Err("no residual history rows in CSV".to_string());
    }
    Ok(rows)
}

/// Whether a plot is drawn as SVG: by the extension of its file.
pub open spec fn is_svg(extension: Option<Seq<char>>) -> bool {
    match extension {
        Some(found) => text::lowered(found) == "svg"@,
        None => false,
    }
}

/// Whether a plot is drawn as SVG: by the extension of its file.
pub fn wants_svg(extension: &Option<String>) -> (yes: bool)
    ensures
        yes == is_svg(text::opt_text(*extension)),
{
    match extension {
        Some(found) => text::text_eq(text::lowercase(found.as_str()).as_str(), "svg"),
        None => false,
    }
}

/// Where the values of a row are drawn, with three decimals.
#[derive(Debug)]
pub struct PlotPoint {
    pub x: String,
    pub momentum_y: String,
    pub pressure_y: String,
    pub continuity_y: String,
}

/// A line across the plot at a power of ten.
#[derive(Debug)]
pub struct PowerTick {
    pub power: i32,
    /// Where it is drawn, with three decimals.
    pub y: String,
    /// Where its label is drawn, with three decimals.
    pub label_y: String,
}

/// A line up the plot at an iteration.
#[derive(Debug)]
pub struct IterationTick {
    /// The iteration, without decimals.
    pub label: String,
    /// Where it is drawn, with three decimals.
    pub x: String,
    /// Where its label is drawn, with three decimals.
    pub label_x: String,
}

/// The three curves of the plot.
#[derive(Clone, Copy, Debug, Eq, PartialEq, Structural)]
pub enum Curve {
    Momentum,
    Pressure,
    Continuity,
}

/// Where a curve meets a point.
pub open spec fn height(point: PlotPoint, curve: Curve) -> Seq<char> {
    match curve {
        Curve::Momentum => point.momentum_y@,
        Curve::Pressure => point.pressure_y@,
        Curve::Continuity => point.continuity_y@,
    }
}

/// The points of a curve, each followed by a blank.
pub open spec fn points_text(points: Seq<PlotPoint>, curve: Curve) -> Seq<char>
    decreases points.len(),
{
    if points.len() == 0 {
        Seq::empty()
    } else {
        points_text(points.drop_last(), curve) + points.last().x@ + ","@ + height(
            points.last(),
            curve,
        ) + " "@
    }
}

/// The points of a curve, with a blank between neighbours.
pub open spec fn curve_points(points: Seq<PlotPoint>, curve: Curve) -> Seq<char> {
    text::strip_end(CharClass::Space, points_text(points, curve))
}

/// The drawing of a power of ten.
pub open spec fn power_text(tick: PowerTick) -> Seq<char> {
    "<line x1=\"70.000\" y1=\""@ + tick.y@ + "\" x2=\"780.000\" y2=\""@ + tick.y@
        + "\" stroke=\"#ddd\" stroke-width=\"1\"/>\n           <text x=\"58.000\" y=\""@
        + tick.label_y@ + "\" font-size=\"10\" fill=\"#444\">1e"@ + text::signed_decimal(
        tick.power as int,
    ) + "</text>"@
}

/// The drawing of an iteration.
pub open spec fn iteration_text(tick: IterationTick) -> Seq<char> {
    "<line x1=\""@ + tick.x@ + "\" y1=\"20.000\" x2=\""@ + tick.x@
        + "\" y2=\"443.000\" stroke=\"#ddd\" stroke-width=\"1\"/>\n           <text x=\""@
        + tick.label_x@
        + "\" y=\"455.000\" font-size=\"10\" fill=\"#444\" text-anchor=\"middle\">"@ + tick.label@
        + "</text>"@
}

/// The drawing of the powers of ten.
pub open spec fn powers_text(ticks: Seq<PowerTick>) -> Seq<char> {
    text::join(Seq::new(ticks.len(), |i: int| power_text(ticks[i])), "\n"@)
}

/// The drawing of the iterations.
pub open spec fn iterations_text(ticks: Seq<IterationTick>) -> Seq<char> {
    text::join(Seq::new(ticks.len(), |i: int| iteration_text(ticks[i])), "\n"@)
}

/// The frame of the plot: a page of 800 by 500 with a box of 710 by 420 in it.
pub open spec fn head_text() -> Seq<char> {
    "<svg xmlns=\"http://www.w3.org/2000/svg\" viewBox=\"0 0 800 500\" width=\"800\" height=\"500\">\n"@
        + "  <rect x=\"0\" y=\"0\" width=\"800\" height=\"500\" fill=\"#fff\"/>\n"@
        + "  <rect x=\"70\" y=\"20\" width=\"710\" height=\"420\" fill=\"none\" stroke=\"#888\" stroke-width=\"1\"/>\n"@
        + "  <g stroke=\"none\" fill=\"#666\" font-family=\"Arial,sans-serif\">\n"@
}

/// The titles of the axes.
pub open spec fn titles_text() -> Seq<char> {
    "    <text x=\"425.0\" y=\"480.0\" font-size=\"12\" text-anchor=\"middle\">Iteration</text>\n"@
        + "    <text transform=\"translate(16,230.0) rotate(-90)\" font-size=\"12\" text-anchor=\"middle\">Residual (log10 scale)</text>\n"@
        + "  </g>\n"@ + "  <g fill=\"none\" stroke-width=\"2\">\n"@
}

/// The legend, and the end of the plot.
pub open spec fn legend_text() -> Seq<char> {
    "  </g>\n"@ + "  <g font-family=\"Arial,sans-serif\" font-size=\"11\" fill=\"#333\">\n"@
        + "    <text x=\"770.0\" y=\"40.0\">U initial residual</text>\n"@
        + "    <text x=\"770.0\" y=\"58.0\">p initial residual</text>\n"@
        + "    <text x=\"770.0\" y=\"76.0\">Continuity L2</text>\n"@
        + "    <text x=\"790.0\" y=\"40.0\" fill=\"#1f77b4\">Momentum</text>\n"@
        + "    <text x=\"790.0\" y=\"58.0\" fill=\"#ff7f0e\">Pressure</text>\n"@
        + "    <text x=\"790.0\" y=\"76.0\" fill=\"#2ca02c\">Continuity</text>\n"@ + "  </g>\n"@
        + "</svg>\n"@
}

/// The plot of the residuals.
pub open spec fn svg_text(
    points: Seq<PlotPoint>,
    powers: Seq<PowerTick>,
    iterations: Seq<IterationTick>,
) -> Seq<char> {
    head_text() + "    "@ + powers_text(powers) + "\n"@ + "    "@ + iterations_text(iterations)
        + "\n"@ + titles_text() + "    <polyline points=\""@ + curve_points(points, Curve::Momentum)
        + "\" stroke=\"#1f77b4\" />\n"@ + "    <polyline points=\""@ + curve_points(
        points,
        Curve::Pressure,
    ) + "\" stroke=\"#ff7f0e\" />\n"@ + "    <polyline points=\""@ + curve_points(
        points,
        Curve::Continuity,
    ) + "\" stroke=\"#2ca02c\" />\n"@ + legend_text()
}

fn curve_text(points: &Vec<PlotPoint>, curve: Curve) -> (out: String)
    ensures
        out@ == curve_points(points@, curve),
{
    let mut out = String::new();
    let mut at: usize = 0;
    assert(points_text(points@.take(0), curve) =~= Seq::empty());
    while at < points.len()
        invariant
            at <= points@.len(),
            out@ == points_text(points@.take(at as int), curve),
        decreases points@.len() - at,
    {
        assert(points@.take(at + 1).drop_last() =~= points@.take(at as int));
        let point = &points[at];
        out.append(point.x.as_str());
        out.append(",");
        match curve {
            Curve::Momentum => {
                out.append(point.momentum_y.as_str());
            },
            Curve::Pressure => {
                out.append(point.pressure_y.as_str());
            },
            Curve::Continuity => {
                out.append(point.continuity_y.as_str());
            },
        }
        out.append(" ");
        at += 1;
    }
    assert(points@.take(at as int) =~= points@);
    text::trimmed_end(out.as_str(), CharClass::Space)
}

fn power_line(tick: &PowerTick) -> (out: String)
    ensures
        out@ == power_text(*tick),
{
    let mut out = "<line x1=\"70.000\" y1=\"".to_string();
    out.append(tick.y.as_str());
    out.append("\" x2=\"780.000\" y2=\"");
    out.append(tick.y.as_str());
    out.append("\" stroke=\"#ddd\" stroke-width=\"1\"/>\n           <text x=\"58.000\" y=\"");
    out.append(tick.label_y.as_str());
    out.append("\" font-size=\"10\" fill=\"#444\">1e");
    out.append(text::integer_text(tick.power as i64).as_str());
    out.append("</text>");
    out
}

fn iteration_line(tick: &IterationTick) -> (out: String)
    ensures
        out@ == iteration_text(*tick),
{
    let mut out = "<line x1=\"".to_string();
    out.append(tick.x.as_str());
    out.append("\" y1=\"20.000\" x2=\"");
    out.append(tick.x.as_str());
    out.append("\" y2=\"443.000\" stroke=\"#ddd\" stroke-width=\"1\"/>\n           <text x=\"");
    out.append(tick.label_x.as_str());
    out.append("\" y=\"455.000\" font-size=\"10\" fill=\"#444\" text-anchor=\"middle\">");
    out.append(tick.label.as_str());
    out.append("</text>");
    out
}

fn power_lines(ticks: &Vec<PowerTick>) -> (out: String)
    ensures
        out@ == powers_text(ticks@),
{
    let ghost wanted = Seq::new(ticks@.len(), |i: int| power_text(ticks@[i]));
    let mut parts: Vec<String> = Vec::new();
    let mut at: usize = 0;
    while at < ticks.len()
        invariant
            at <= ticks@.len(),
            wanted == Seq::new(ticks@.len(), |i: int| power_text(ticks@[i])),
            text::texts(parts@) == wanted.take(at as int),
        decreases ticks@.len() - at,
    {
        let ghost earlier = text::texts(parts@);
        parts.push(power_line(&ticks[at]));
        assert(text::texts(parts@) =~= earlier.push(wanted[at as int]));
        assert(wanted.take(at + 1) =~= wanted.take(at as int).push(wanted[at as int]));
        at += 1;
    }
    assert(wanted.take(at as int) =~= wanted);
    text::joined(&parts, "\n")
}

fn iteration_lines(ticks: &Vec<IterationTick>) -> (out: String)
    ensures
        out@ == iterations_text(ticks@),
{
    let ghost wanted = Seq::new(ticks@.len(), |i: int| iteration_text(ticks@[i]));
    let mut parts: Vec<String> = Vec::new();
    let mut at: usize = 0;
    while at < ticks.len()
        invariant
            at <= ticks@.len(),
            wanted == Seq::new(ticks@.len(), |i: int| iteration_text(ticks@[i])),
            text::texts(parts@) == wanted.take(at as int),
        decreases ticks@.len() - at,
    {
        let ghost earlier = text::texts(parts@);
        parts.push(iteration_line(&ticks[at]));
        assert(text::texts(parts@) =~= earlier.push(wanted[at as int]));
        assert(wanted.take(at + 1) =~= wanted.take(at as int).push(wanted[at as int]));
        at += 1;
    }
    assert(wanted.take(at as int) =~= wanted);
    text::joined(&parts, "\n")
}

fn head() -> (out: String)
    ensures
        out@ == head_text(),
{
    let mut out =
        "<svg xmlns=\"http://www.w3.org/2000/svg\" viewBox=\"0 0 800 500\" width=\"800\" height=\"500\">\n".to_string();
    out.append("  <rect x=\"0\" y=\"0\" width=\"800\" height=\"500\" fill=\"#fff\"/>\n");
    out.append(
        "  <rect x=\"70\" y=\"20\" width=\"710\" height=\"420\" fill=\"none\" stroke=\"#888\" stroke-width=\"1\"/>\n",
    );
    out.append("  <g stroke=\"none\" fill=\"#666\" font-family=\"Arial,sans-serif\">\n");
    out
}

fn titles() -> (out: String)
    ensures
        out@ == titles_text(),
{
    let mut out =
        "    <text x=\"425.0\" y=\"480.0\" font-size=\"12\" text-anchor=\"middle\">Iteration</text>\n".to_string();
    out.append(
        "    <text transform=\"translate(16,230.0) rotate(-90)\" font-size=\"12\" text-anchor=\"middle\">Residual (log10 scale)</text>\n",
    );
    out.append("  </g>\n");
    out.append("  <g fill=\"none\" stroke-width=\"2\">\n");
    out
}

fn legend() -> (out: String)
    ensures
        out@ == legend_text(),
{
    let mut out = "  </g>\n".to_string();
    out.append("  <g font-family=\"Arial,sans-serif\" font-size=\"11\" fill=\"#333\">\n");
    out.append("    <text x=\"770.0\" y=\"40.0\">U initial residual</text>\n");
    out.append("    <text x=\"770.0\" y=\"58.0\">p initial residual</text>\n");
    out.append("    <text x=\"770.0\" y=\"76.0\">Continuity L2</text>\n");
    out.append("    <text x=\"790.0\" y=\"40.0\" fill=\"#1f77b4\">Momentum</text>\n");
    out.append("    <text x=\"790.0\" y=\"58.0\" fill=\"#ff7f0e\">Pressure</text>\n");
    out.append("    <text x=\"790.0\" y=\"76.0\" fill=\"#2ca02c\">Continuity</text>\n");
    out.append("  </g>\n");
    out.append("</svg>\n");
    out
}

/// The plot of the residuals.
pub fn residual_plot_svg(
    points: &Vec<PlotPoint>,
    powers: &Vec<PowerTick>,
    iterations: &Vec<IterationTick>,
) -> (out: String)
    ensures
        out@ == svg_text(points@, powers@, iterations@),
{
    let mut out = head();
    out.append("    ");
    out.append(power_lines(powers).as_str());
    out.append("\n");
    out.append("    ");
    out.append(iteration_lines(iterations).as_str());
    out.append("\n");
    out.append(titles().as_str());
    out.append("    <polyline points=\"");
    out.append(curve_text(points, Curve::Momentum).as_str());
    out.append("\" stroke=\"#1f77b4\" />\n");
    out.append("    <polyline points=\"");
    out.append(curve_text(points, Curve::Pressure).as_str());
    out.append("\" stroke=\"#ff7f0e\" />\n");
    out.append("    <polyline points=\"");
    out.append(curve_text(points, Curve::Continuity).as_str());
    out.append("\" stroke=\"#2ca02c\" />\n");
    out.append(legend().as_str());
    out
}

} // verus!
