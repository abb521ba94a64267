//! The fields that a command line selects, and what is shown of a solved
//! scalar.

use crate::fields::{FieldFile, InitialFieldSet};
use crate::layout;
use crate::plan;
use crate::plan::{
    SolverRuntimeFieldPlan, SolverStateFieldKind, SolverStateFieldPlan, SolverStatePlan,
};
use crate::reals::Real;
use crate::solver_args;
use crate::solver_args::ScalarDiffusionSolveArgs;
use crate::text;
use vstd::prelude::*;

verus! {

/// Whether a field is selected: by its name, or by its region, a slash and
/// its name.
pub open spec fn selects(field: FieldFile, selection: Seq<char>) -> bool {
    match text::split_once(selection, '/') {
        Some((region, name)) => text::opt_text(field.region) == Some(region) && field.name@ == name,
        None => field.name@ == selection,
    }
}

/// The first field from `at` on that is selected.
pub open spec fn selected_from(found: Seq<FieldFile>, selection: Seq<char>, at: int) -> Option<int>
    decreases found.len() - at,
{
    if at >= found.len() {
        None
    } else if selects(found[at], selection) {
        Some(at)
    } else {
        selected_from(found, selection, at + 1)
    }
}

/// The one field that is selected.
pub open spec fn selection_of(fields: InitialFieldSet, selection: Seq<char>) -> Result<
    int,
    Seq<char>,
> {
    match selected_from(fields.fields@, selection, 0) {
        None => Err(
            "field '"@ + selection + "' was not found below "@ + text::below(
                fields.case_dir@,
                "0"@,
            ),
        ),
        Some(at) => if selected_from(fields.fields@, selection, at + 1) is Some {
            Err("field '"@ + selection + "' is ambiguous; use '<region>/<field>'"@)
        } else {
            Ok(at)
        },
    }
}

/// Whether a field is selected.
pub fn field_matches_selection(field: &FieldFile, selection: &str) -> (yes: bool)
    ensures
        yes == selects(*field, selection@),
{
    match text::split_at_first(selection, '/') {
        Some((region, name)) => text::is_text(&field.region, region.as_str()) && text::text_eq(
            field.name.as_str(),
            name.as_str(),
        ),
        None => text::text_eq(field.name.as_str(), selection),
    }
}

fn find_selected(found: &Vec<FieldFile>, selection: &str, from: usize) -> (place: Option<usize>)
    requires
        from <= found@.len(),
    ensures
        match place {
            Some(at) => from <= at < found.len() && selected_from(
                found@,
                selection@,
                from as int,
            ) == Some(at as int),
            None => selected_from(found@, selection@, from as int) is None,
        },
{
    let mut at: usize = from;
    while at < found.len()
        invariant
            from <= at <= found@.len(),
            selected_from(found@, selection@, from as int) == selected_from(
                found@,
                selection@,
                at as int,
            ),
        decreases found@.len() - at,
    {
        if field_matches_selection(&found[at], selection) {
            return Some(at);
        }
        at += 1;
    }
    None
}

/// The one field that is selected, by its number.
pub fn find_field_selection(fields: &InitialFieldSet, selection: &str) -> (out: Result<
    usize,
    String,
>)
    ensures
        match out {
            Ok(at) => at < fields.fields@.len() && text::accepts(
                selection_of(*fields, selection@),
                at as int,
            ),
            Err(message) => text::refuses(selection_of(*fields, selection@), message),
        },
{
    match find_selected(&fields.fields, selection, 0) {
        None => {
            let mut message = "field '".to_string();
            message.append(selection);
            message.append("' was not found below ");
            message.append(text::path_below(fields.case_dir.as_str(), "0").as_str());
            Err(message)
        },
        Some(at) => {
            if find_selected(&fields.fields, selection, at + 1).is_some() {
                let mut message = "field '".to_string();
                message.append(selection);
                message.append("' is ambiguous; use '<region>/<field>'");
                return Err(message);
            }
            Ok(at)
        },
    }
}

/// The first array from `at` on of a scalar field with a value for each cell.
pub open spec fn guess_from(
    buffers: Seq<SolverRuntimeFieldPlan>,
    cells: usize,
    region: Option<Seq<char>>,
    name: Seq<char>,
    at: int,
) -> Option<int>
    decreases buffers.len() - at,
{
    if at >= buffers.len() {
        None
    } else if text::opt_text(buffers[at].region) == region && buffers[at].name@ == name
        && buffers[at].components == 1 && buffers[at].values == cells {
        Some(at)
    } else {
        guess_from(buffers, cells, region, name, at + 1)
    }
}

fn same_opt(left: &Option<String>, right: &Option<String>) -> (same: bool)
    ensures
        same == (text::opt_text(*left) == text::opt_text(*right)),
{
    match (left, right) {
        (Some(a), Some(b)) => text::text_eq(a.as_str(), b.as_str()),
        (None, None) => true,
        _ => false,
    }
}

/// The array that a solve starts from: that of the field, by its number.
pub fn runtime_initial_guess(
    buffers: &Vec<SolverRuntimeFieldPlan>,
    cells: usize,
    field: &FieldFile,
) -> (place: Option<usize>)
    ensures
        match place {
            Some(at) => at < buffers@.len() && guess_from(
                buffers@,
                cells,
                text::opt_text(field.region),
                field.name@,
                0,
            ) == Some(at as int),
            None => guess_from(
                buffers@,
                cells,
                text::opt_text(field.region),
                field.name@,
                0,
            ) is None,
        },
{
    let mut at: usize = 0;
    while at < buffers.len()
        invariant
            at <= buffers@.len(),
            guess_from(buffers@, cells, text::opt_text(field.region), field.name@, 0)
                == guess_from(
                buffers@,
                cells,
                text::opt_text(field.region),
                field.name@,
                at as int,
            ),
        decreases buffers@.len() - at,
    {
        let buffer = &buffers[at];
        if same_opt(&buffer.region, &field.region) && text::text_eq(
            buffer.name.as_str(),
            field.name.as_str(),
        ) && buffer.components == 1 && buffer.values == cells {
            return Some(at);
        }
        at += 1;
    }
    None
}

/// A field among those that were read.
pub open spec fn available_line(field: SolverStateFieldPlan) -> Seq<char> {
    field.name@ + ":class="@ + layout::text_or(text::opt_text(field.class_name), "missing"@)
        + ":kind="@ + plan::field_kind_name(field.kind)
}

/// The fields that were read.
pub open spec fn available(fields: Seq<SolverStateFieldPlan>) -> Seq<char> {
    text::join(Seq::new(fields.len(), |i: int| available_line(fields[i])), ", "@)
}

/// Whether a field has a kind.
pub open spec fn has_kind(field: SolverStateFieldPlan, vector: bool) -> bool {
    if vector {
        field.kind is VolVector
    } else {
        field.kind is VolScalar
    }
}

/// The first field from `at` on with a name and a kind, outside any region.
pub open spec fn kind_from(
    fields: Seq<SolverStateFieldPlan>,
    name: Seq<char>,
    vector: bool,
    at: int,
) -> Option<int>
    decreases fields.len() - at,
{
    if at >= fields.len() {
        None
    } else if fields[at].region is None && fields[at].name@ == name && has_kind(
        fields[at],
        vector,
    ) {
        Some(at)
    } else {
        kind_from(fields, name, vector, at + 1)
    }
}

/// A field of a benchmark.
pub open spec fn benchmark_field(state: SolverStatePlan, name: Seq<char>, vector: bool) -> Result<
    int,
    Seq<char>,
> {
    match kind_from(state.fields@, name, vector, 0) {
        Some(at) => Ok(at),
        None => Err(
            "benchmark field '"@ + name + "' with kind "@ + (if vector {
                "vol-vector"@
            } else {
                "vol-scalar"@
            }) + " was not found; parsed fields: ["@ + available(state.fields@) + "]"@,
        ),
    }
}

fn available_text(fields: &Vec<SolverStateFieldPlan>) -> (out: String)
    ensures
        out@ == available(fields@),
{
    let ghost wanted = Seq::new(fields@.len(), |i: int| available_line(fields@[i]));
    let mut parts = layout::TextList::new();
    let mut at: usize = 0;
    assert(wanted.take(0) =~= Seq::empty());
    while at < fields.len()
        invariant
            at <= fields@.len(),
            wanted == Seq::new(fields@.len(), |i: int| available_line(fields@[i])),
            parts@ == wanted.take(at as int),
        decreases fields@.len() - at,
    {
        let field = &fields[at];
        let mut part = field.name.clone();
        part.append(":class=");
        part.append(layout::text_or_default(&field.class_name, "missing").as_str());
        part.append(":kind=");
        part.append(field.kind.to_string().as_str());
        parts.push(part);
        assert(wanted.take(at + 1) =~= wanted.take(at as int).push(wanted[at as int]));
        at += 1;
    }
    assert(wanted.take(at as int) =~= wanted);
    parts.joined(", ")
}

/// A field of a benchmark, by its number: a vector field, or a scalar one.
pub fn benchmark_field_buffer(state: &SolverStatePlan, name: &str, vector: bool) -> (out: Result<
    usize,
    String,
>)
    ensures
        match out {
            Ok(at) => at < state.fields@.len() && text::accepts(
                benchmark_field(*state, name@, vector),
                at as int,
            ),
            Err(message) => text::refuses(benchmark_field(*state, name@, vector), message),
        },
{
    let fields = &state.fields;
    let mut at: usize = 0;
    while at < fields.len()
        invariant
            at <= fields@.len(),
            *fields == state.fields,
            kind_from(fields@, name@, vector, 0) == kind_from(
                fields@,
                name@,
                vector,
                at as int,
            ),
        decreases fields@.len() - at,
    {
        let right = match &fields[at].kind {
            SolverStateFieldKind::VolVector => vector,
            SolverStateFieldKind::VolScalar => !vector,
            SolverStateFieldKind::Other(_) => false,
        };
        if fields[at].region.is_none() && text::text_eq(fields[at].name.as_str(), name) && right {
            return Ok(at);
        }
        at += 1;
    }
    let mut message = "benchmark field '".to_string();
    message.append(name);
    message.append("' with kind ");
    if vector {
        message.append("vol-vector");
    } else {
        message.append("vol-scalar");
    }
    message.append(" was not found; parsed fields: [");
    message.append(available_text(fields).as_str());
    message.append("]");
    Err(message)
}

/// What is said of a field that cannot be laid out in memory.
pub open spec fn not_materialized_line(name: Seq<char>, field: SolverStateFieldPlan) -> Seq<char> {
    "benchmark field '"@
        + name
        + "' could not be materialized ("@
        + plan::buffer_status_name(field.cpu_buffer.status)
        + ")"@
}

/// What is said of a field that cannot be laid out in memory.
pub fn not_materialized(name: &str, field: &SolverStateFieldPlan) -> (line: String)
    ensures
        line@ == not_materialized_line(name@, *field),
{
    let mut line = "benchmark field '".to_string();
    line.append(name);
    line.append("' could not be materialized (");
    line.append(field.cpu_buffer.status.to_string().as_str());
    line.append(")");
    line
}

/// Whether numbers make up vectors.
pub open spec fn vectors_checked(values: nat) -> Result<(), Seq<char>> {
    if values % 3 != 0 {
        Err(
            "benchmark U field has "@ + text::decimal(values)
                + " scalar values, expected a multiple of 3"@,
        )
    } else {
        Ok(())
    }
}

/// Whether numbers make up vectors.
pub fn check_vectors(values: usize) -> (out: Result<(), String>)
    ensures
        match out {
            Ok(done) => text::accepts(vectors_checked(values as nat), done),
            Err(message) => text::refuses(vectors_checked(values as nat), message),
        },
{
    if values % 3 != 0 {
        let mut message = "benchmark U field has ".to_string();
        message.append(text::number_text(values).as_str());
        message.append(" scalar values, expected a multiple of 3");
        return Err(message);
    }
    Ok(())
}

/// A scalar field as it was solved.
#[derive(Debug)]
pub struct ScalarSolveReport {
    pub cells: usize,
    pub nonzeros: usize,
    pub fixed_value_faces: usize,
    pub zero_gradient_faces: usize,
    pub constraint_faces: usize,
    /// Whether the solve started from the values of the field.
    pub from_field: bool,
    pub iterations: usize,
    pub converged: bool,
    pub residual_norm: Real,
    /// The time that it took, with six decimals.
    pub wall_clock: String,
}

/// The extent of a solved scalar field.
#[derive(Debug)]
pub struct ScalarSolutionSummary {
    pub min: Real,
    pub max: Real,
    pub mean: Real,
}

/// What is shown of a solved scalar field.
pub open spec fn scalar_solve_line(field: FieldFile, solve: ScalarDiffusionSolveArgs, report: ScalarSolveReport) -> Seq<char> {
    "scalar diffusion solve: field="@
        + layout::regional(text::opt_text(field.region), field.name@)
        + " backend=cpu linearSolver="@
        + solver_args::scalar_solver_name(solve.linear_solver)
        + " cells="@
        + text::decimal(report.cells as nat)
        + " nnz="@
        + text::decimal(report.nonzeros as nat)
        + " diffusivity="@
        + solve.diffusivity.scientific@
        + " source="@
        + solve.source.scientific@
        + " fixedValueFaces="@
        + text::decimal(report.fixed_value_faces as nat)
        + " zeroGradientFaces="@
        + text::decimal(report.zero_gradient_faces as nat)
        + " constraintFaces="@
        + text::decimal(report.constraint_faces as nat)
        + " initialGuess="@
        + (if report.from_field {
            "field"@
        } else {
            "zero"@
        })
        + " iterations="@
        + text::decimal(report.iterations as nat)
        + " converged="@
        + layout::yes_no(report.converged)
        + " residualNorm="@
        + report.residual_norm.scientific@
        + " wallClockSeconds="@
        + report.wall_clock@
}

/// What is shown of a solved scalar field.
pub fn scalar_solve(field: &FieldFile, solve: &ScalarDiffusionSolveArgs, report: &ScalarSolveReport) -> (line: String)
    ensures
        line@ == scalar_solve_line(*field, *solve, *report),
{
    let mut line = "scalar diffusion solve: field=".to_string();
    line.append(layout::regional_text(&field.region, field.name.as_str()).as_str());
    line.append(" backend=cpu linearSolver=");
    line.append(solve.linear_solver.to_string().as_str());
    line.append(" cells=");
    line.append(text::number_text(report.cells).as_str());
    line.append(" nnz=");
    line.append(text::number_text(report.nonzeros).as_str());
    line.append(" diffusivity=");
    line.append(solve.diffusivity.scientific.as_str());
    line.append(" source=");
    line.append(solve.source.scientific.as_str());
    line.append(" fixedValueFaces=");
    line.append(text::number_text(report.fixed_value_faces).as_str());
    line.append(" zeroGradientFaces=");
    line.append(text::number_text(report.zero_gradient_faces).as_str());
    line.append(" constraintFaces=");
    line.append(text::number_text(report.constraint_faces).as_str());
    line.append(" initialGuess=");
    line.append(guess_text(report.from_field));
    line.append(" iterations=");
    line.append(text::number_text(report.iterations).as_str());
    line.append(" converged=");
    line.append(layout::yes_no_text(report.converged));
    line.append(" residualNorm=");
    line.append(report.residual_norm.scientific.as_str());
    line.append(" wallClockSeconds=");
    line.append(report.wall_clock.as_str());
    line
}

fn guess_text(from_field: bool) -> (out: &'static str)
    ensures
        out@ == (if from_field {
            "field"@
        } else {
            "zero"@
        }),
{
    if from_field {
        "field"
    } else {
        "zero"
    }
}

/// What is shown of the extent of a solved scalar field.
pub open spec fn scalar_solution_line(found: ScalarSolutionSummary) -> Seq<char> {
    "scalar diffusion solution: min="@
        + found.min.scientific@
        + " max="@
        + found.max.scientific@
        + " mean="@
        + found.mean.scientific@
}

/// What is shown of the extent of a solved scalar field.
pub fn scalar_solution(found: &ScalarSolutionSummary) -> (line: String)
    ensures
        line@ == scalar_solution_line(*found),
{
    let mut line = "scalar diffusion solution: min=".to_string();
    line.append(found.min.scientific.as_str());
    line.append(" max=");
    line.append(found.max.scientific.as_str());
    line.append(" mean=");
    line.append(found.mean.scientific.as_str());
    line
}

/// A selection with a region in front picks fields of that name in that region
/// alone, one without picks fields of that name anywhere.
pub proof fn selection_names_region_and_field(field: FieldFile, region: Seq<char>, name: Seq<char>)
    requires
        forall|i: int| 0 <= i < region.len() ==> #[trigger] region[i] != '/',
    ensures
        selects(field, region + "/"@ + name) <==> field.name@ == name && (field.region matches Some(
            found,
        ) && found@ == region),
        (forall|i: int| 0 <= i < name.len() ==> #[trigger] name[i] != '/') ==> (selects(field, name)
            <==> field.name@ == name),
{
    reveal_strlit("/");
    let all = region + "/"@ + name;
    assert(all[region.len() as int] == '/');
    assert forall|i: int| 0 <= i < region.len() implies #[trigger] all[i] != '/' by {
        assert(all[i] == region[i]);
    }
    crate::readback::lemma_find_first(all, '/', region.len() as int);
    assert(all.take(region.len() as int) =~= region);
    assert(all.skip(region.len() as int + 1) =~= name);
    crate::dictionary::lemma_find_bound(name, '/');
}

/// The field that is found is the only one that is selected; where none or more
/// than one is, there is an error.
pub proof fn selected_field_is_the_only_one(fields: InitialFieldSet, selection: Seq<char>)
    ensures
        match selection_of(fields, selection) {
            Ok(at) => 0 <= at < fields.fields@.len() && forall|i: int|
                0 <= i < fields.fields@.len() ==> (selects(#[trigger] fields.fields@[i], selection)
                    <==> i == at),
            Err(_) => forall|at: int|
                0 <= at < fields.fields@.len() && selects(
                    #[trigger] fields.fields@[at],
                    selection,
                ) ==> exists|other: int|
                    0 <= other < fields.fields@.len() && other != at && selects(
                        #[trigger] fields.fields@[other],
                        selection,
                    ),
        },
{
    let found = fields.fields@;
    lemma_selected_from(found, selection, 0);
    if let Some(first) = selected_from(found, selection, 0) {
        lemma_selected_from(found, selection, first + 1);
        if let Some(second) = selected_from(found, selection, first + 1) {
            assert forall|at: int|
                0 <= at < found.len() && selects(#[trigger] found[at], selection) implies exists|
                other: int,
            |
                0 <= other < found.len() && other != at && selects(
                    #[trigger] found[other],
                    selection,
                ) by {
                if at == first {
                    assert(selects(found[second], selection));
                } else {
                    assert(selects(found[first], selection));
                }
            }
        }
    }
}

proof fn lemma_selected_from(found: Seq<FieldFile>, selection: Seq<char>, from: int)
    requires
        0 <= from,
    ensures
        match selected_from(found, selection, from) {
            Some(at) => from <= at < found.len() && selects(found[at], selection) && forall|i: int|
                from <= i < at ==> !selects(#[trigger] found[i], selection),
            None => forall|i: int|
                from <= i < found.len() ==> !selects(#[trigger] found[i], selection),
        },
    decreases found.len() - from,
{
    if from < found.len() {
        lemma_selected_from(found, selection, from + 1);
    }
}

/// The array that a solve starts from is the first one of that field and region
/// with one number for each cell.
pub proof fn guess_is_that_of_the_field(
    buffers: Seq<SolverRuntimeFieldPlan>,
    cells: usize,
    region: Option<Seq<char>>,
    name: Seq<char>,
    from: int,
)
    requires
        0 <= from,
    ensures
        match guess_from(buffers, cells, region, name, from) {
            Some(at) => from <= at < buffers.len() && text::opt_text(buffers[at].region) == region
                && buffers[at].name@ == name && buffers[at].components == 1 && buffers[at].values
                == cells,
            None => forall|i: int|
                from <= i < buffers.len() ==> text::opt_text((#[trigger] buffers[i]).region)
                    != region || buffers[i].name@ != name || buffers[i].components != 1
                    || buffers[i].values != cells,
        },
    decreases buffers.len() - from,
{
    if from < buffers.len() {
        guess_is_that_of_the_field(buffers, cells, region, name, from + 1);
    }
}

/// A field of a benchmark is the first one outside any region with its name and
/// kind.
pub proof fn benchmark_field_has_its_kind(state: SolverStatePlan, name: Seq<char>, vector: bool)
    ensures
        match benchmark_field(state, name, vector) {
            Ok(at) => {
                let field = state.fields@[at];
                &&& 0 <= at < state.fields@.len()
                &&& field.region is None
                &&& field.name@ == name
                &&& vector ==> field.kind is VolVector
                &&& !vector ==> field.kind is VolScalar
            },
            Err(_) => forall|i: int|
                0 <= i < state.fields@.len() ==> (#[trigger] state.fields@[i]).region is Some
                    || state.fields@[i].name@ != name || (vector
                    && !(state.fields@[i].kind is VolVector)) || (!vector
                    && !(state.fields@[i].kind is VolScalar)),
        },
{
    lemma_kind_from(state.fields@, name, vector, 0);
}

proof fn lemma_kind_from(
    fields: Seq<SolverStateFieldPlan>,
    name: Seq<char>,
    vector: bool,
    from: int,
)
    requires
        0 <= from,
    ensures
        match kind_from(fields, name, vector, from) {
            Some(at) => from <= at < fields.len() && fields[at].region is None && fields[at].name@
                == name && has_kind(fields[at], vector),
            None => forall|i: int|
                from <= i < fields.len() ==> !((#[trigger] fields[i]).region is None
                    && fields[i].name@ == name && has_kind(fields[i], vector)),
        },
    decreases fields.len() - from,
{
    if from < fields.len() {
        lemma_kind_from(fields, name, vector, from + 1);
    }
}

} // verus!
