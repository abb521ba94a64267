//! What the plot makes of the CSV report of a run.

use crate::layout;
use crate::plot;
use crate::plot::PlotRowView;
use crate::readback;
use crate::reals::{Readings, RealView};
use crate::simple::LaminarSimpleIterationSummary;
use crate::simple_text;
use crate::text;
use crate::text::CharClass;
use vstd::prelude::*;

verus! {

proof fn lemma_header()
    ensures
        readback::is_line("iteration,continuityBeforeL2,continuityAfterL2,momentumInitialResidualNormalized,momentumFinalResidualNormalized,momentumResidualNorm,pressureInitialResidualNormalized,pressureFinalResidualNormalized,pressureResidualNorm,residualControlConfigured,residualControlChecked,residualControlSatisfied,pressureCorrectionAccepted,momentumLinearIterations,momentumLinearConverged,pressureLinearIterations,pressureLinearConverged,relativeVelocityChangeL2,relativePressureChangeL2"@),
{
    reveal_strlit("iteration,continuityBeforeL2,continuityAfterL2,momentumInitialResidualNormalized,momentumFinalResidualNormalized,momentumResidualNorm,pressureInitialResidualNormalized,pressureFinalResidualNormalized,pressureResidualNorm,residualControlConfigured,residualControlChecked,residualControlSatisfied,pressureCorrectionAccepted,momentumLinearIterations,momentumLinearConverged,pressureLinearIterations,pressureLinearConverged,relativeVelocityChangeL2,relativePressureChangeL2");
}

/// Whether a number is noted as one.
pub open spec fn is_noted(number: RealView) -> bool {
    text::is_float(number.display)
}

/// Whether the numbers of an iteration in the CSV report are noted as such.
pub open spec fn all_noted(item: LaminarSimpleIterationSummary) -> bool {
    &&& is_noted(item.continuity_before.l2_norm@)
    &&& is_noted(item.continuity_after.l2_norm@)
    &&& is_noted(item.momentum_initial_normalized_residual_norm@)
    &&& is_noted(item.momentum_normalized_residual_norm@)
    &&& is_noted(item.momentum_residual_norm@)
    &&& is_noted(item.pressure_correction_initial_normalized_residual_norm@)
    &&& is_noted(item.pressure_correction_normalized_residual_norm@)
    &&& is_noted(item.pressure_correction_residual_norm@)
    &&& is_noted(item.relative_velocity_change_l2@)
    &&& is_noted(item.relative_pressure_change_l2@)
}

/// The row of an iteration: its number, the continuity after it, and the
/// initial residuals of the momentum and of the pressure; none where one of
/// them is not finite.
pub open spec fn item_row(readings: Readings, item: LaminarSimpleIterationSummary) -> Option<
    PlotRowView,
> {
    match (
        plot::finite(readings, text::decimal(item.iteration as nat)),
        plot::finite(readings, item.continuity_after.l2_norm.display@),
        plot::finite(readings, item.momentum_initial_normalized_residual_norm.display@),
        plot::finite(readings, item.pressure_correction_initial_normalized_residual_norm.display@),
    ) {
        (Some(iteration), Some(continuity), Some(momentum), Some(pressure)) => Some(
            PlotRowView { iteration, continuity, momentum, pressure },
        ),
        _ => None,
    }
}

/// The rows of the first `n` iterations.
pub open spec fn item_rows(
    readings: Readings,
    history: Seq<LaminarSimpleIterationSummary>,
    n: int,
) -> Seq<PlotRowView>
    decreases n,
{
    if n <= 0 {
        Seq::empty()
    } else {
        match item_row(readings, history[n - 1]) {
            Some(row) => item_rows(readings, history, n - 1).push(row),
            None => item_rows(readings, history, n - 1),
        }
    }
}

/// Whether a text can stand between commas.
pub open spec fn is_cell(s: Seq<char>) -> bool {
    s.len() > 0 && forall|i: int| 0 <= i < s.len() ==> readback::is_float_char(#[trigger] s[i])
}

proof fn lemma_number_cell(n: nat)
    ensures
        is_cell(text::decimal(n)),
{
    readback::lemma_decimal_chars(n);
    let s = text::decimal(n);
    assert forall|i: int| 0 <= i < s.len() implies readback::is_float_char(#[trigger] s[i]) by {
        assert(text::is_digit(s[i]));
    }
}

proof fn lemma_flag_cell(value: bool)
    ensures
        is_cell(text::bool_text(value)),
{
    reveal_strlit("true");
    reveal_strlit("false");
}

proof fn lemma_cells(item: LaminarSimpleIterationSummary)
    requires
        all_noted(item),
    ensures
        simple_text::csv_iteration_cells(item).len() == 19,
        forall|i: int|
            0 <= i < 19 ==> is_cell(#[trigger] simple_text::csv_iteration_cells(item)[i]),
{
    let cells = simple_text::csv_iteration_cells(item);
    lemma_number_cell(item.iteration as nat);
    lemma_number_cell(item.momentum_linear_iterations as nat);
    lemma_number_cell(item.pressure_linear_iterations as nat);
    lemma_flag_cell(true);
    lemma_flag_cell(false);
    readback::lemma_float_chars(item.continuity_before.l2_norm.display@);
    readback::lemma_float_chars(item.continuity_after.l2_norm.display@);
    readback::lemma_float_chars(item.momentum_initial_normalized_residual_norm.display@);
    readback::lemma_float_chars(item.momentum_normalized_residual_norm.display@);
    readback::lemma_float_chars(item.momentum_residual_norm.display@);
    readback::lemma_float_chars(item.pressure_correction_initial_normalized_residual_norm.display@);
    readback::lemma_float_chars(item.pressure_correction_normalized_residual_norm.display@);
    readback::lemma_float_chars(item.pressure_correction_residual_norm.display@);
    readback::lemma_float_chars(item.relative_velocity_change_l2.display@);
    readback::lemma_float_chars(item.relative_pressure_change_l2.display@);
    assert(cells.len() == 19);
    assert(is_cell(cells[0]) && is_cell(cells[1]) && is_cell(cells[2]) && is_cell(cells[3]));
    assert(is_cell(cells[4]) && is_cell(cells[5]) && is_cell(cells[6]) && is_cell(cells[7]));
    assert(is_cell(cells[8]) && is_cell(cells[9]) && is_cell(cells[10]) && is_cell(cells[11]));
    assert(is_cell(cells[12]) && is_cell(cells[13]) && is_cell(cells[14]) && is_cell(cells[15]));
    assert(is_cell(cells[16]) && is_cell(cells[17]) && is_cell(cells[18]));
}

proof fn lemma_joined_cells(cells: Seq<Seq<char>>)
    requires
        cells.len() > 0,
        forall|i: int| 0 <= i < cells.len() ==> is_cell(#[trigger] cells[i]),
    ensures
        text::join(cells, seq![',']).len() > 0,
        forall|k: int|
            0 <= k < text::join(cells, seq![',']).len() ==> {
                let ch = #[trigger] text::join(cells, seq![','])[k];
                readback::is_float_char(ch) || ch == ','
            },
    decreases cells.len(),
{
    assert(is_cell(cells[cells.len() - 1]));
    if cells.len() > 1 {
        let shorter = cells.drop_last();
        assert forall|i: int| 0 <= i < shorter.len() implies is_cell(#[trigger] shorter[i]) by {
            assert(shorter[i] == cells[i]);
        }
        lemma_joined_cells(shorter);
        let head = text::join(shorter, seq![',']);
        let last = cells.last();
        let all = text::join(cells, seq![',']);
        assert(all == head + seq![','] + last);
        assert forall|k: int| 0 <= k < all.len() implies {
            let ch = #[trigger] all[k];
            readback::is_float_char(ch) || ch == ','
        } by {
            if k < head.len() {
                assert(all[k] == head[k]);
            } else if k > head.len() {
                assert(all[k] == last[k - head.len() - 1]);
            }
        }
    }
}

proof fn lemma_item_line(readings: Readings, item: LaminarSimpleIterationSummary)
    requires
        all_noted(item),
    ensures
        readback::is_line(text::join(simple_text::csv_iteration_cells(item), ","@)),
        plot::line_row(readings, text::join(simple_text::csv_iteration_cells(item), ","@))
            == item_row(readings, item),
{
    let cells = simple_text::csv_iteration_cells(item);
    let line = text::join(cells, ","@);
    reveal_strlit(",");
    assert(","@ =~= seq![',']);
    lemma_cells(item);
    lemma_joined_cells(cells);
    assert forall|i: int| 0 <= i < cells.len() implies readback::lacks(
        CharClass::Only(','),
        #[trigger] cells[i],
    ) by {
        assert(is_cell(cells[i]));
    }
    readback::joined_parts_are_read(CharClass::Only(','), ',', cells);
    let last = line[line.len() - 1];
    assert(readback::is_float_char(last) || last == ',');
    let first = line[0];
    assert(readback::is_float_char(first) || first == ',');
    readback::lemma_trim_trimmed(line);
    assert(cells[0] == text::decimal(item.iteration as nat));
    assert(cells[2] == item.continuity_after.l2_norm.display@);
    assert(cells[3] == item.momentum_initial_normalized_residual_norm.display@);
    assert(cells[6] == item.pressure_correction_initial_normalized_residual_norm.display@);
}

proof fn lemma_rows(
    readings: Readings,
    history: Seq<LaminarSimpleIterationSummary>,
    n: int,
)
    requires
        0 <= n <= history.len(),
        forall|i: int| 0 <= i < history.len() ==> all_noted(#[trigger] history[i]),
    ensures
        plot::rows_before(readings, simple_text::csv_lines(history), n + 1) == item_rows(
            readings,
            history,
            n,
        ),
    decreases n,
{
    if n > 0 {
        lemma_rows(readings, history, n - 1);
        assert(all_noted(history[n - 1]));
        lemma_item_line(readings, history[n - 1]);
        assert(simple_text::csv_lines(history)[n] == text::join(
            simple_text::csv_iteration_cells(history[n - 1]),
            ","@,
        ));
    }
}

/// The plot of a run shows its iterations: the rows that are read from its CSV
/// report are those of the iterations whose numbers are finite, in their order.
pub proof fn report_is_plotted(
    readings: Readings,
    history: Seq<LaminarSimpleIterationSummary>,
)
    requires
        forall|i: int| 0 <= i < history.len() ==> all_noted(#[trigger] history[i]),
    ensures
        plot::plot_rows(readings, layout::lines_text(simple_text::csv_lines(history))) == ({
            let rows = item_rows(readings, history, history.len() as int);
            if rows.len() == 0 {
                Err("no residual history rows in CSV"@)
            } else {
                Ok(rows)
            }
        }),
{
    let lines = simple_text::csv_lines(history);
    lemma_header();
    assert forall|i: int| 0 <= i < lines.len() implies readback::is_line(#[trigger] lines[i]) by {
        if i > 0 {
            assert(all_noted(history[i - 1]));
            lemma_item_line(readings, history[i - 1]);
        }
    }
    readback::lines_are_read(lines);
    lemma_rows(readings, history, history.len() as int);
    assert(lines.len() == history.len() + 1);
}

} // verus!
