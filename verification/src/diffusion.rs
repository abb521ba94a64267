//! Scalar diffusion: boundary conditions, checks and the shape of the linear
//! system.

use crate::dictionary;
use crate::error::{Failure, MeshError};
use crate::fields;
use crate::fields::{FieldBoundaryPatch, FieldFile, FieldValueSummary};
use crate::layout;
use crate::plan::SolverRuntimePatchRange;
use crate::reals;
use crate::reals::{Real, RealView, Readings};
use crate::runtime;
use crate::runtime::SolverRuntimeMeshData;
use crate::text;
use vstd::prelude::*;

verus! {

/// What the assembly of diffusion equations can do, and where.
#[derive(Clone, Copy, Debug, Eq, PartialEq, Structural)]
pub struct DiffusionAssemblyCapabilities {
    pub cpu_scalar_diffusion: bool,
    pub cpu_poisson: bool,
    pub fixed_value_boundary: bool,
    pub zero_gradient_boundary: bool,
    pub gpu_assembly: bool,
}

/// What is known of a scalar on a boundary, with values of type `V`.
#[derive(Clone, Copy, Debug)]
pub enum ScalarBoundaryCondition<V> {
    FixedValue(V),
    ZeroGradient,
}

/// What is known of a scalar on a patch.
#[derive(Debug)]
pub struct ScalarPatchBoundaryCondition<V> {
    pub patch: String,
    pub condition: ScalarBoundaryCondition<V>,
}

/// A diffusion equation with numbers of type `V`.
#[derive(Debug)]
pub struct ScalarDiffusionOptions<V> {
    pub diffusivity: V,
    pub source: V,
    pub default_boundary: ScalarBoundaryCondition<V>,
    pub patch_boundary_conditions: Vec<ScalarPatchBoundaryCondition<V>>,
}

/// How a face enters the equation.
#[derive(Clone, Copy, Debug)]
pub enum FaceBoundaryTreatment<V> {
    FixedValue(V),
    ZeroGradient,
    Constraint,
}

/// The mathematical view of a [`ScalarDiffusionOptions`].
pub struct DiffusionView {
    pub diffusivity: RealView,
    pub source: RealView,
    pub default_boundary: ScalarBoundaryCondition<RealView>,
    pub conditions: Seq<(Seq<char>, ScalarBoundaryCondition<RealView>)>,
}

/// The view of a boundary condition.
pub open spec fn condition_view(
    condition: ScalarBoundaryCondition<Real>,
) -> ScalarBoundaryCondition<RealView> {
    match condition {
        ScalarBoundaryCondition::FixedValue(value) => ScalarBoundaryCondition::FixedValue(value@),
        ScalarBoundaryCondition::ZeroGradient => ScalarBoundaryCondition::ZeroGradient,
    }
}

/// The views of the conditions of patches.
pub open spec fn condition_views(
    conditions: Seq<ScalarPatchBoundaryCondition<Real>>,
) -> Seq<(Seq<char>, ScalarBoundaryCondition<RealView>)> {
    Seq::new(
        conditions.len(),
        |i: int| (conditions[i].patch@, condition_view(conditions[i].condition)),
    )
}

/// The view of a diffusion equation.
pub open spec fn options_view(options: ScalarDiffusionOptions<Real>) -> DiffusionView {
    DiffusionView {
        diffusivity: options.diffusivity@,
        source: options.source@,
        default_boundary: condition_view(options.default_boundary),
        conditions: condition_views(options.patch_boundary_conditions@),
    }
}

/// What the assembly of diffusion equations can do.
pub fn diffusion_assembly_capabilities() -> (found: DiffusionAssemblyCapabilities)
    ensures
        found == (DiffusionAssemblyCapabilities {
            cpu_scalar_diffusion: true,
            cpu_poisson: true,
            fixed_value_boundary: true,
            zero_gradient_boundary: true,
            gpu_assembly: false,
        }),
{
    DiffusionAssemblyCapabilities {
        cpu_scalar_diffusion: true,
        cpu_poisson: true,
        fixed_value_boundary: true,
        zero_gradient_boundary: true,
        gpu_assembly: false,
    }
}

impl Default for ScalarDiffusionOptions<Real> {
    fn default() -> (options: ScalarDiffusionOptions<Real>)
        ensures
            options_view(options) == (DiffusionView {
                diffusivity: reals::one(),
                source: reals::zero(),
                default_boundary: ScalarBoundaryCondition::ZeroGradient,
                conditions: Seq::empty(),
            }),
    {
        let options = ScalarDiffusionOptions {
            diffusivity: Real::one(),
            source: Real::zero(),
            default_boundary: ScalarBoundaryCondition::ZeroGradient,
            patch_boundary_conditions: Vec::new(),
        };
        assert(condition_views(options.patch_boundary_conditions@) =~= Seq::empty());
        options
    }
}

/// The kinds of patches that only constrain the geometry.
pub open spec fn is_constraint(patch_type: Seq<char>) -> bool {
    patch_type == "empty"@ || patch_type == "wedge"@ || patch_type == "symmetryPlane"@
}

/// The kinds of patches that only constrain the geometry.
pub fn is_constraint_patch(patch_type: &str) -> (yes: bool)
    ensures
        yes == is_constraint(patch_type@),
{
    text::text_eq(patch_type, "empty") || text::text_eq(patch_type, "wedge") || text::text_eq(
        patch_type,
        "symmetryPlane",
    )
}

/// How messages call a field.
pub open spec fn label_of(region: Option<Seq<char>>, name: Seq<char>) -> Seq<char> {
    layout::regional(region, name)
}

/// How messages call a field: its name behind its region.
pub fn field_label(field: &FieldFile) -> (label: String)
    ensures
        label@ == label_of(field@.region, field@.name),
{
    layout::regional_text(&field.region, field.name.as_str())
}

/// A text with blanks in place of its round brackets.
pub open spec fn unbracketed(value: Seq<char>) -> Seq<char> {
    value.map_values(
        |ch: char|
            if ch == '(' || ch == ')' {
                ' '
            } else {
                ch
            },
    )
}

/// A text with blanks in place of its round brackets.
pub fn without_brackets(value: &str) -> (out: String)
    ensures
        out@ == unbracketed(value@),
{
    let chars = text::chars_of(value);
    let mut out = String::new();
    let mut i: usize = 0;
    while i < chars.len()
        invariant
            i <= chars@.len(),
            out@ == unbracketed(chars@).take(i as int),
        decreases chars@.len() - i,
    {
        if chars[i] == '(' || chars[i] == ')' {
            out.push(' ');
        } else {
            out.push(chars[i]);
        }
        assert(out@ =~= unbracketed(chars@).take(i + 1));
        i += 1;
    }
    assert(out@ =~= unbracketed(value@));
    out
}

/// The first token from `at` on that is not a number.
pub open spec fn not_number(readings: Readings, tokens: Seq<Seq<char>>, at: int) -> Option<
    Seq<char>,
>
    decreases tokens.len() - at,
{
    if at >= tokens.len() {
        None
    } else if readings.number(tokens[at]) is None {
        Some(tokens[at])
    } else {
        not_number(readings, tokens, at + 1)
    }
}

/// What messages say of a patch of a field.
pub open spec fn patch_line(label: Seq<char>, patch: Seq<char>, rest: Seq<char>) -> Seq<char> {
    "field '"@ + label + "' patch '"@ + patch + "' "@ + rest
}

/// The error on a patch of a field.
pub fn patch_error(label: &str, patch: &str, rest: &str) -> (error: MeshError)
    ensures
        error@ == Failure::InvalidInput(patch_line(label@, patch@, rest@)),
{
    let mut message = "field '".to_string();
    message.append(label);
    message.append("' patch '");
    message.append(patch);
    message.append("' ");
    message.append(rest);
    MeshError::InvalidInput(message)
}

/// The one number of a uniform value.
pub open spec fn uniform_scalar(
    readings: Readings,
    label: Seq<char>,
    patch: Seq<char>,
    value: fields::ValueView,
) -> Result<RealView, Failure> {
    match value {
        fields::ValueView::Uniform(inner) => {
            let tokens = text::words(unbracketed(inner));
            match not_number(readings, tokens, 0) {
                Some(token) => Err(
                    Failure::InvalidInput(
                        patch_line(
                            label,
                            patch,
                            "fixedValue contains non-numeric token '"@ + token + "'"@,
                        ),
                    ),
                ),
                None => if tokens.len() != 1 {
                    Err(
                        Failure::InvalidInput(
                            patch_line(
                                label,
                                patch,
                                "fixedValue must contain exactly one scalar, got "@ + text::decimal(
                                    tokens.len(),
                                ) + " values"@,
                            ),
                        ),
                    )
                } else {
                    Ok(readings.number(tokens[0])->0)
                },
            }
        },
        _ => Err(
            Failure::InvalidInput(
                patch_line(
                    label,
                    patch,
                    "fixedValue must be uniform scalar for scalar diffusion"@,
                ),
            ),
        ),
    }
}

/// The condition of a patch, if it has one: a patch that only constrains the
/// geometry has none.
pub open spec fn patch_given(
    readings: Readings,
    label: Seq<char>,
    patch: fields::PatchView,
) -> Result<Option<ScalarBoundaryCondition<RealView>>, Failure> {
    match patch.patch_type {
        None => Err(
            Failure::InvalidInput(patch_line(label, patch.name, "has no boundary type"@)),
        ),
        Some(patch_type) => if patch_type == "fixedValue"@ {
            match patch.value {
                None => Err(
                    Failure::InvalidInput(
                        patch_line(label, patch.name, "uses fixedValue without a value"@),
                    ),
                ),
                Some(value) => match uniform_scalar(readings, label, patch.name, value) {
                    Ok(number) => Ok(Some(ScalarBoundaryCondition::FixedValue(number))),
                    Err(failure) => Err(failure),
                },
            }
        } else if patch_type == "zeroGradient"@ {
            Ok(Some(ScalarBoundaryCondition::ZeroGradient))
        } else if is_constraint(patch_type) {
            Ok(None)
        } else {
            Err(
                Failure::InvalidInput(
                    patch_line(
                        label,
                        patch.name,
                        "uses unsupported scalar diffusion boundary type '"@ + patch_type + "'"@,
                    ),
                ),
            )
        },
    }
}

/// The conditions of the patches from `at` on.
pub open spec fn conditions_from(
    readings: Readings,
    label: Seq<char>,
    patches: Seq<fields::PatchView>,
    at: int,
) -> Result<Seq<(Seq<char>, ScalarBoundaryCondition<RealView>)>, Failure>
    decreases patches.len() - at,
{
    if at >= patches.len() {
        Ok(Seq::empty())
    } else {
        match patch_given(readings, label, patches[at]) {
            Err(failure) => Err(failure),
            Ok(found) => match conditions_from(readings, label, patches, at + 1) {
                Err(failure) => Err(failure),
                Ok(rest) => Ok(
                    match found {
                        Some(condition) => seq![(patches[at].name, condition)] + rest,
                        None => rest,
                    },
                ),
            },
        }
    }
}

/// The diffusion equation of a field.
pub open spec fn field_options(
    readings: Readings,
    field: fields::FieldView,
    diffusivity: RealView,
    source: RealView,
) -> Result<DiffusionView, Failure> {
    let label = label_of(field.region, field.name);
    if field.class_name != Some("volScalarField"@) {
        Err(
            Failure::InvalidInput(
                "scalar diffusion requires a volScalarField, field '"@ + label + "' has class '"@
                    + layout::text_or(field.class_name, "unknown"@) + "'"@,
            ),
        )
    } else {
        match conditions_from(readings, label, field.boundary_patches, 0) {
            Err(failure) => Err(failure),
            Ok(conditions) => Ok(
                DiffusionView {
                    diffusivity,
                    source,
                    default_boundary: ScalarBoundaryCondition::ZeroGradient,
                    conditions,
                },
            ),
        }
    }
}

fn parse_uniform_scalar_value(
    readings: &Readings,
    label: &str,
    patch: &str,
    value: &FieldValueSummary,
) -> (out: Result<Real, MeshError>)
    ensures
        match out {
            Ok(number) => dictionary::gives(
                uniform_scalar(*readings, label@, patch@, value@),
                number@,
            ),
            Err(error) => dictionary::fails(
                uniform_scalar(*readings, label@, patch@, value@),
                error,
            ),
        },
{
    match value {
        FieldValueSummary::Uniform(inner) => {
            let tokens = text::words_of(without_brackets(inner.as_str()).as_str());
            let ghost all = text::texts(tokens@);
            let mut at: usize = 0;
            while at < tokens.len()
                invariant
                    at <= tokens@.len(),
                    all == text::texts(tokens@),
                    not_number(*readings, all, 0) == not_number(*readings, all, at as int),
                    value@ == fields::ValueView::Uniform(inner@),
                    all == text::words(unbracketed(inner@)),
                decreases tokens@.len() - at,
            {
                if readings.read(tokens[at].as_str()).is_none() {
                    let mut rest = "fixedValue contains non-numeric token '".to_string();
                    rest.append(tokens[at].as_str());
                    rest.append("'");
                    return Err(patch_error(label, patch, rest.as_str()));
                }
                at += 1;
            }
            if tokens.len() != 1 {
                let mut rest = "fixedValue must contain exactly one scalar, got ".to_string();
                rest.append(text::number_text(tokens.len()).as_str());
                rest.append(" values");
                return Err(patch_error(label, patch, rest.as_str()));
            }
            assert(not_number(*readings, all, 0) is None);
            assert(readings.number(all[0]) is Some);
            match readings.read(tokens[0].as_str()) {
                Some(number) => Ok(number),
                None => Ok(Real::zero()),
            }
        },
        _ => Err(
            patch_error(label, patch, "fixedValue must be uniform scalar for scalar diffusion"),
        ),
    }
}

/// The view of an optional condition.
pub open spec fn opt_condition(condition: Option<ScalarBoundaryCondition<Real>>) -> Option<
    ScalarBoundaryCondition<RealView>,
> {
    match condition {
        Some(inner) => Some(condition_view(inner)),
        None => None,
    }
}

fn patch_condition_given(
    readings: &Readings,
    label: &str,
    patch: &FieldBoundaryPatch,
) -> (out: Result<Option<ScalarBoundaryCondition<Real>>, MeshError>)
    ensures
        match out {
            Ok(found) => dictionary::gives(
                patch_given(*readings, label@, patch@),
                opt_condition(found),
            ),
            Err(error) => dictionary::fails(patch_given(*readings, label@, patch@), error),
        },
{
    let name = patch.name.as_str();
    match &patch.patch_type {
        None => Err(patch_error(label, name, "has no boundary type")),
        Some(found) => {
            let patch_type = found.as_str();
            if text::text_eq(patch_type, "fixedValue") {
                match &patch.value {
                    None => Err(patch_error(label, name, "uses fixedValue without a value")),
                    Some(value) => {
                        let number = parse_uniform_scalar_value(readings, label, name, value)?;
                        Ok(Some(ScalarBoundaryCondition::FixedValue(number)))
                    },
                }
            } else if text::text_eq(patch_type, "zeroGradient") {
                Ok(Some(ScalarBoundaryCondition::ZeroGradient))
            } else if is_constraint_patch(patch_type) {
                Ok(None)
            } else {
                let mut rest = "uses unsupported scalar diffusion boundary type '".to_string();
                rest.append(patch_type);
                rest.append("'");
                Err(patch_error(label, name, rest.as_str()))
            }
        },
    }
}

spec fn behind(
    earlier: Seq<(Seq<char>, ScalarBoundaryCondition<RealView>)>,
    rest: Result<Seq<(Seq<char>, ScalarBoundaryCondition<RealView>)>, Failure>,
) -> Result<Seq<(Seq<char>, ScalarBoundaryCondition<RealView>)>, Failure> {
    match rest {
        Ok(found) => Ok(earlier + found),
        Err(failure) => Err(failure),
    }
}

/// The diffusion equation of a field: its fixed values and its free patches.
pub fn scalar_diffusion_options_from_field(
    readings: &Readings,
    field: &FieldFile,
    diffusivity: Real,
    source: Real,
) -> (out: Result<ScalarDiffusionOptions<Real>, MeshError>)
    ensures
        match out {
            Ok(options) => dictionary::gives(
                field_options(*readings, field@, diffusivity@, source@),
                options_view(options),
            ),
            Err(error) => dictionary::fails(
                field_options(*readings, field@, diffusivity@, source@),
                error,
            ),
        },
{
    let label = field_label(field);
    if !text::is_text(&field.class_name, "volScalarField") {
        let mut message = "scalar diffusion requires a volScalarField, field '".to_string();
        message.append(label.as_str());
        message.append("' has class '");
        message.append(layout::text_or_default(&field.class_name, "unknown").as_str());
        message.append("'");
        return Err(MeshError::InvalidInput(message));
    }
    let patches = &field.boundary_patches;
    let ghost all = field@.boundary_patches;
    let ghost wanted = conditions_from(*readings, label@, all, 0);
    let mut conditions: Vec<ScalarPatchBoundaryCondition<Real>> = Vec::new();
    let mut at: usize = 0;
    proof {
        if let Ok(found) = wanted {
            assert(condition_views(conditions@) + found =~= found);
        }
    }
    while at < patches.len()
        invariant
            at <= patches@.len(),
            *patches == field.boundary_patches,
            all == field@.boundary_patches,
            label@ == label_of(field@.region, field@.name),
            field@.class_name == Some("volScalarField"@),
            wanted == conditions_from(*readings, label@, all, 0),
            wanted == behind(
                condition_views(conditions@),
                conditions_from(*readings, label@, all, at as int),
            ),
        decreases patches@.len() - at,
    {
        let ghost earlier = condition_views(conditions@);
        let ghost rest = conditions_from(*readings, label@, all, at + 1);
        assert(all[at as int] == patches@[at as int]@);
        let found = patch_condition_given(readings, label.as_str(), &patches[at])?;
        match found {
            Some(condition) => {
                let ghost added = (all[at as int].name, condition_view(condition));
                conditions.push(
                    ScalarPatchBoundaryCondition { patch: patches[at].name.clone(), condition },
                );
                proof {
                    assert(condition_views(conditions@) =~= earlier.push(added));
                    if let Ok(later) = rest {
                        assert(earlier + (seq![added] + later) =~= earlier.push(added) + later);
                    }
                }
            },
            None => {},
        }
        at += 1;
    }
    assert(condition_views(conditions@) + Seq::<
        (Seq<char>, ScalarBoundaryCondition<RealView>),
    >::empty() =~= condition_views(conditions@));
    Ok(
        ScalarDiffusionOptions {
            diffusivity,
            source,
            default_boundary: ScalarBoundaryCondition::ZeroGradient,
            patch_boundary_conditions: conditions,
        },
    )
}

/// Whether the fixed values of the patches from `at` on are finite, and the
/// patches have names.
pub open spec fn conditions_checked(
    conditions: Seq<(Seq<char>, ScalarBoundaryCondition<RealView>)>,
    at: int,
) -> Result<(), Failure>
    decreases conditions.len() - at,
{
    if at >= conditions.len() {
        Ok(())
    } else if text::trim(conditions[at].0).len() == 0 {
        Err(Failure::InvalidInput("patch boundary condition name must not be empty"@))
    } else {
        match conditions[at].1 {
            ScalarBoundaryCondition::FixedValue(value) => if !value.finite() {
                Err(
                    Failure::InvalidInput(
                        "fixedValue boundary for patch '"@ + conditions[at].0
                            + "' must be finite, got "@ + value.display,
                    ),
                )
            } else {
                conditions_checked(conditions, at + 1)
            },
            ScalarBoundaryCondition::ZeroGradient => conditions_checked(conditions, at + 1),
        }
    }
}

/// Whether an equation can be solved: a positive diffusivity and finite
/// numbers.
pub open spec fn options_checked(options: DiffusionView) -> Result<(), Failure> {
    if !options.diffusivity.positive() {
        Err(
            Failure::InvalidInput(
                "scalar diffusion diffusivity must be positive and finite, got "@
                    + options.diffusivity.display,
            ),
        )
    } else if !options.source.finite() {
        Err(
            Failure::InvalidInput(
                "scalar diffusion source must be finite, got "@ + options.source.display,
            ),
        )
    } else {
        match options.default_boundary {
            ScalarBoundaryCondition::FixedValue(value) => if !value.finite() {
                Err(
                    Failure::InvalidInput(
                        "default fixedValue boundary must be finite, got "@ + value.display,
                    ),
                )
            } else {
                conditions_checked(options.conditions, 0)
            },
            ScalarBoundaryCondition::ZeroGradient => conditions_checked(options.conditions, 0),
        }
    }
}

/// Whether an equation can be set up on a mesh, its volumes aside.
pub open spec fn input_checked<P, S>(
    mesh: SolverRuntimeMeshData<P, S>,
    options: DiffusionView,
) -> Result<(), Failure> {
    match options_checked(options) {
        Err(failure) => Err(failure),
        Ok(_) => match runtime::sizes_checked(mesh) {
            Err(failure) => Err(failure),
            Ok(_) => match runtime::faces_checked(mesh, 0) {
                Err(failure) => Err(failure),
                Ok(_) => runtime::patches_checked(mesh.patches@, mesh.faces as nat, 0),
            },
        },
    }
}

fn value_error(what: &str, value: &Real) -> (error: MeshError)
    ensures
        error@ == Failure::InvalidInput(what@ + value.display@),
{
    let mut message = what.to_string();
    message.append(value.display.as_str());
    MeshError::InvalidInput(message)
}

fn check_options(options: &ScalarDiffusionOptions<Real>) -> (out: Result<(), MeshError>)
    ensures
        match out {
            Ok(done) => dictionary::gives(options_checked(options_view(*options)), done),
            Err(error) => dictionary::fails(options_checked(options_view(*options)), error),
        },
{
    if !options.diffusivity.is_positive() {
        return Err(
            value_error(
                "scalar diffusion diffusivity must be positive and finite, got ",
                &options.diffusivity,
            ),
        );
    }
    if !options.source.is_finite() {
        return Err(
            value_error("scalar diffusion source must be finite, got ", &options.source),
        );
    }
    if let ScalarBoundaryCondition::FixedValue(value) = &options.default_boundary {
        if !value.is_finite() {
            return Err(value_error("default fixedValue boundary must be finite, got ", value));
        }
    }
    let conditions = &options.patch_boundary_conditions;
    let ghost all = condition_views(conditions@);
    let mut at: usize = 0;
    while at < conditions.len()
        invariant
            at <= conditions@.len(),
            all == condition_views(conditions@),
            options_checked(options_view(*options)) == conditions_checked(all, 0),
            conditions_checked(all, 0) == conditions_checked(all, at as int),
        decreases conditions@.len() - at,
    {
        assert(all[at as int] == (
            conditions@[at as int].patch@,
            condition_view(conditions@[at as int].condition),
        ));
        if text::is_blank(conditions[at].patch.as_str()) {
            return Err(
                MeshError::InvalidInput(
                    "patch boundary condition name must not be empty".to_string(),
                ),
            );
        }
        if let ScalarBoundaryCondition::FixedValue(value) = &conditions[at].condition {
            if !value.is_finite() {
                let mut what = "fixedValue boundary for patch '".to_string();
                what.append(conditions[at].patch.as_str());
                what.append("' must be finite, got ");
                return Err(value_error(what.as_str(), value));
            }
        }
        at += 1;
    }
    Ok(())
}

/// Whether an equation can be set up on a mesh, its volumes aside.
pub fn validate_diffusion_input<P, S>(
    mesh: &SolverRuntimeMeshData<P, S>,
    options: &ScalarDiffusionOptions<Real>,
) -> (out: Result<(), MeshError>)
    ensures
        match out {
            Ok(done) => dictionary::gives(input_checked(*mesh, options_view(*options)), done),
            Err(error) => dictionary::fails(input_checked(*mesh, options_view(*options)), error),
        },
        out is Ok ==> runtime::sound(*mesh) && runtime::patches_fit(
            mesh.patches@,
            mesh.faces as nat,
        ),
{
    check_options(options)?;
    runtime::check_sizes(mesh)?;
    runtime::check_faces(mesh)?;
    runtime::check_patches(&mesh.patches, mesh.faces)?;
    Ok(())
}

/// The condition of a patch: the last one that was given for its name.
pub open spec fn condition_of<V>(
    conditions: Seq<ScalarPatchBoundaryCondition<V>>,
    patch: Seq<char>,
) -> Option<ScalarBoundaryCondition<V>>
    decreases conditions.len(),
{
    if conditions.len() == 0 {
        None
    } else if conditions.last().patch@ == patch {
        Some(conditions.last().condition)
    } else {
        condition_of(conditions.drop_last(), patch)
    }
}

/// The condition of a patch: the last one that was given for its name.
pub fn patch_condition<V: Copy>(
    patch: &str,
    options: &ScalarDiffusionOptions<V>,
) -> (found: Option<ScalarBoundaryCondition<V>>)
    ensures
        found == condition_of(options.patch_boundary_conditions@, patch@),
{
    let conditions = &options.patch_boundary_conditions;
    let mut at: usize = conditions.len();
    assert(conditions@.take(at as int) =~= conditions@);
    while at > 0
        invariant
            at <= conditions@.len(),
            *conditions == options.patch_boundary_conditions,
            condition_of(conditions@, patch@) == condition_of(conditions@.take(at as int), patch@),
        decreases at,
    {
        assert(conditions@.take(at as int).drop_last() =~= conditions@.take(at - 1));
        if text::text_eq(conditions[at - 1].patch.as_str(), patch) {
            return Some(conditions[at - 1].condition);
        }
        at -= 1;
    }
    None
}

/// How the faces of a patch enter the equation.
pub open spec fn patch_treatment<V>(
    patch: SolverRuntimePatchRange,
    options: ScalarDiffusionOptions<V>,
) -> Result<FaceBoundaryTreatment<V>, Failure> {
    let given = condition_of(options.patch_boundary_conditions@, patch.name@);
    if is_constraint(patch.patch_type@) {
        match given {
            Some(ScalarBoundaryCondition::FixedValue(_)) => Err(
                Failure::InvalidInput(
                    "constraint patch '"@ + patch.name@ + "' of type '"@ + patch.patch_type@
                        + "' cannot use fixedValue in scalar diffusion assembly"@,
                ),
            ),
            _ => Ok(FaceBoundaryTreatment::Constraint),
        }
    } else {
        let condition = match given {
            Some(found) => found,
            None => options.default_boundary,
        };
        Ok(
            match condition {
                ScalarBoundaryCondition::FixedValue(value) => {
                    FaceBoundaryTreatment::FixedValue(value)
                },
                ScalarBoundaryCondition::ZeroGradient => FaceBoundaryTreatment::ZeroGradient,
            },
        )
    }
}

/// Whether every patch from `at` on has a treatment.
pub open spec fn treatments_checked<V>(
    patches: Seq<SolverRuntimePatchRange>,
    options: ScalarDiffusionOptions<V>,
    at: int,
) -> Result<(), Failure>
    decreases patches.len() - at,
{
    if at >= patches.len() {
        Ok(())
    } else {
        match patch_treatment(patches[at], options) {
            Err(failure) => Err(failure),
            Ok(_) => treatments_checked(patches, options, at + 1),
        }
    }
}

/// Whether a face belongs to a patch.
pub open spec fn covers(patch: SolverRuntimePatchRange, face: int) -> bool {
    patch.start_face <= face < patch.start_face + patch.faces
}

/// How a boundary face enters the equation: as the last patch that it belongs
/// to says.
pub open spec fn face_treatment<V>(
    patches: Seq<SolverRuntimePatchRange>,
    options: ScalarDiffusionOptions<V>,
    face: int,
) -> FaceBoundaryTreatment<V>
    decreases patches.len(),
{
    if patches.len() == 0 {
        FaceBoundaryTreatment::ZeroGradient
    } else if covers(patches.last(), face) {
        match patch_treatment(patches.last(), options) {
            Ok(found) => found,
            Err(_) => FaceBoundaryTreatment::ZeroGradient,
        }
    } else {
        face_treatment(patches.drop_last(), options, face)
    }
}

/// How the faces enter the equation; a face between two cells has no
/// treatment of its own.
pub open spec fn treatments<P, S, V>(
    mesh: SolverRuntimeMeshData<P, S>,
    options: ScalarDiffusionOptions<V>,
) -> Seq<FaceBoundaryTreatment<V>> {
    Seq::new(
        mesh.faces as nat,
        |face: int|
            if mesh.neighbour@[face] is Some {
                FaceBoundaryTreatment::ZeroGradient
            } else {
                face_treatment(mesh.patches@, options, face)
            },
    )
}

fn treatment_of<V: Copy>(
    patch: &SolverRuntimePatchRange,
    options: &ScalarDiffusionOptions<V>,
) -> (out: Result<FaceBoundaryTreatment<V>, MeshError>)
    ensures
        match out {
            Ok(found) => dictionary::gives(patch_treatment(*patch, *options), found),
            Err(error) => dictionary::fails(patch_treatment(*patch, *options), error),
        },
{
    let given = patch_condition(patch.name.as_str(), options);
    if is_constraint_patch(patch.patch_type.as_str()) {
        return match given {
            Some(ScalarBoundaryCondition::FixedValue(_)) => {
                let mut message = "constraint patch '".to_string();
                message.append(patch.name.as_str());
                message.append("' of type '");
                message.append(patch.patch_type.as_str());
                message.append("' cannot use fixedValue in scalar diffusion assembly");
                Err(MeshError::InvalidInput(message))
            },
            _ => Ok(FaceBoundaryTreatment::Constraint),
        };
    }
    let condition = match given {
        Some(found) => found,
        None => options.default_boundary,
    };
    match condition {
        ScalarBoundaryCondition::FixedValue(value) => Ok(FaceBoundaryTreatment::FixedValue(value)),
        ScalarBoundaryCondition::ZeroGradient => Ok(FaceBoundaryTreatment::ZeroGradient),
    }
}

/// How the faces enter the equation.
pub fn boundary_conditions_by_face<P, S, V: Copy>(
    mesh: &SolverRuntimeMeshData<P, S>,
    options: &ScalarDiffusionOptions<V>,
) -> (out: Result<Vec<FaceBoundaryTreatment<V>>, MeshError>)
    requires
        mesh.neighbour@.len() == mesh.faces,
    ensures
        match out {
            Ok(found) => treatments_checked(mesh.patches@, *options, 0) is Ok && found@
                == treatments(*mesh, *options),
            Err(error) => dictionary::fails(
                treatments_checked(mesh.patches@, *options, 0),
                error,
            ),
        },
{
    let mut conditions: Vec<FaceBoundaryTreatment<V>> = Vec::new();
    let mut face: usize = 0;
    while face < mesh.faces
        invariant
            face <= mesh.faces,
            conditions@.len() == face,
            forall|i: int|
                0 <= i < face ==> #[trigger] conditions@[i] == FaceBoundaryTreatment::<
                    V,
                >::ZeroGradient,
        decreases mesh.faces - face,
    {
        conditions.push(FaceBoundaryTreatment::ZeroGradient);
        face += 1;
    }
    let patches = &mesh.patches;
    let mut at: usize = 0;
    while at < patches.len()
        invariant
            at <= patches@.len(),
            *patches == mesh.patches,
            mesh.neighbour@.len() == mesh.faces,
            conditions@.len() == mesh.faces,
            treatments_checked(patches@, *options, 0) == treatments_checked(
                patches@,
                *options,
                at as int,
            ),
            forall|i: int|
                0 <= i < mesh.faces ==> #[trigger] conditions@[i] == (if mesh.neighbour@[i] is Some {
                    FaceBoundaryTreatment::ZeroGradient
                } else {
                    face_treatment(patches@.take(at as int), *options, i)
                }),
        decreases patches@.len() - at,
    {
        let patch = &patches[at];
        let treatment = treatment_of(patch, options)?;
        let ghost before = conditions@;
        assert(patches@.take(at + 1).drop_last() =~= patches@.take(at as int));
        let mut face: usize = patch.start_face;
        while face < mesh.faces && face - patch.start_face < patch.faces
            invariant
                patch.start_face <= face,
                mesh.neighbour@.len() == mesh.faces,
                conditions@.len() == mesh.faces,
                before.len() == mesh.faces,
                forall|i: int|
                    0 <= i < mesh.faces ==> #[trigger] conditions@[i] == (if patch.start_face <= i
                        < face && mesh.neighbour@[i] is None && i < patch.start_face + patch.faces {
                        treatment
                    } else {
                        before[i]
                    }),
            decreases mesh.faces - face,
        {
            if mesh.neighbour[face].is_none() {
                conditions.set(face, treatment);
            }
            face += 1;
        }
        assert forall|i: int| 0 <= i < mesh.faces implies #[trigger] conditions@[i] == (if mesh.neighbour@[i] is Some {
            FaceBoundaryTreatment::ZeroGradient
        } else {
            face_treatment(patches@.take(at + 1), *options, i)
        }) by {
            assert(before[i] == (if mesh.neighbour@[i] is Some {
                FaceBoundaryTreatment::ZeroGradient
            } else {
                face_treatment(patches@.take(at as int), *options, i)
            }));
        }
        at += 1;
    }
    assert(patches@.take(at as int) =~= patches@);
    assert(conditions@ =~= treatments(*mesh, *options));
    Ok(conditions)
}

/// The patch that a face belongs to last.
pub open spec fn is_last_patch(
    patches: Seq<SolverRuntimePatchRange>,
    at: int,
    face: int,
) -> bool {
    &&& 0 <= at < patches.len()
    &&& patches[at].start_face <= face < patches[at].start_face + patches[at].faces
    &&& forall|later: int|
        at < later < patches.len() ==> !((#[trigger] patches[later]).start_face <= face
            < patches[later].start_face + patches[later].faces)
}

/// The last condition that is given for a name.
pub open spec fn is_last_condition<V>(
    conditions: Seq<ScalarPatchBoundaryCondition<V>>,
    at: int,
    name: Seq<char>,
) -> bool {
    &&& 0 <= at < conditions.len()
    &&& conditions[at].patch@ == name
    &&& forall|later: int|
        at < later < conditions.len() ==> (#[trigger] conditions[later]).patch@ != name
}

proof fn lemma_condition_of<V>(
    conditions: Seq<ScalarPatchBoundaryCondition<V>>,
    name: Seq<char>,
)
    ensures
        match condition_of(conditions, name) {
            Some(found) => exists|at: int|
                is_last_condition(conditions, at, name) && (
                #[trigger] conditions[at]).condition == found,
            None => forall|at: int|
                0 <= at < conditions.len() ==> (#[trigger] conditions[at]).patch@ != name,
        },
    decreases conditions.len(),
{
    if conditions.len() > 0 {
        if conditions.last().patch@ == name {
            assert(is_last_condition(conditions, conditions.len() - 1, name));
            assert(conditions[conditions.len() - 1].condition == condition_of(
                conditions,
                name,
            )->0);
        } else {
            let front = conditions.drop_last();
            lemma_condition_of(front, name);
            match condition_of(front, name) {
                Some(found) => {
                    let at = choose|at: int|
                        is_last_condition(front, at, name) && (#[trigger] front[at]).condition
                            == found;
                    assert(conditions[at] == front[at]);
                    assert forall|later: int| at < later < conditions.len() implies (
                    #[trigger] conditions[later]).patch@ != name by {
                        if later < front.len() {
                            assert(front[later].patch@ != name);
                        }
                    }
                    assert(is_last_condition(conditions, at, name));
                },
                None => {
                    assert forall|at: int| 0 <= at < conditions.len() implies (
                    #[trigger] conditions[at]).patch@ != name by {
                        if at < front.len() {
                            assert(front[at].patch@ != name);
                        }
                    }
                },
            }
        }
    }
}

proof fn lemma_condition_at<V>(
    conditions: Seq<ScalarPatchBoundaryCondition<V>>,
    at: int,
    name: Seq<char>,
)
    requires
        is_last_condition(conditions, at, name),
    ensures
        condition_of(conditions, name) == Some(conditions[at].condition),
{
    lemma_condition_of(conditions, name);
    assert(conditions[at].patch@ == name);
    match condition_of(conditions, name) {
        Some(found) => {
            let other = choose|other: int|
                is_last_condition(conditions, other, name) && (
                #[trigger] conditions[other]).condition == found;
            if other < at {
                assert(conditions[at].patch@ != name);
            } else if at < other {
                assert(conditions[other].patch@ != name);
            }
        },
        None => {},
    }
}

proof fn lemma_face_treatment<V>(
    patches: Seq<SolverRuntimePatchRange>,
    options: ScalarDiffusionOptions<V>,
    at: int,
    face: int,
)
    requires
        is_last_patch(patches, at, face),
    ensures
        patch_treatment(patches[at], options) matches Ok(found) ==> face_treatment(
            patches,
            options,
            face,
        ) == found,
    decreases patches.len(),
{
    if at < patches.len() - 1 {
        let front = patches.drop_last();
        let last = patches[patches.len() - 1];
        assert(!(last.start_face <= face < last.start_face + last.faces));
        assert forall|later: int| at < later < front.len() implies !((
        #[trigger] front[later]).start_face <= face < front[later].start_face
            + front[later].faces) by {
            assert(front[later] == patches[later]);
        }
        lemma_face_treatment(front, options, at, face);
    }
}

proof fn lemma_treatment_ok<V>(
    patches: Seq<SolverRuntimePatchRange>,
    options: ScalarDiffusionOptions<V>,
    from: int,
    at: int,
)
    requires
        0 <= from <= at < patches.len(),
        treatments_checked(patches, options, from) is Ok,
    ensures
        patch_treatment(patches[at], options) is Ok,
    decreases at - from,
{
    if from < at {
        lemma_treatment_ok(patches, options, from + 1, at);
    }
}

/// Every boundary face in the range of a patch, and of none later, is treated as
/// its patch is: as a constraint on an empty, wedge or symmetry patch, else by the
/// last condition for the name of the patch.
pub proof fn faces_get_the_condition_of_their_patch<P, S, V>(
    mesh: SolverRuntimeMeshData<P, S>,
    options: ScalarDiffusionOptions<V>,
    at: int,
    condition: int,
    face: int,
)
    requires
        treatments_checked(mesh.patches@, options, 0) is Ok,
        0 <= face < mesh.faces,
        mesh.neighbour@[face] is None,
        is_last_patch(mesh.patches@, at, face),
        is_last_condition(
            options.patch_boundary_conditions@,
            condition,
            mesh.patches@[at].name@,
        ),
    ensures
        ({
            let kind = mesh.patches@[at].patch_type@;
            let found = treatments(mesh, options)[face];
            if kind == "empty"@ || kind == "wedge"@ || kind == "symmetryPlane"@ {
                found is Constraint
            } else {
                match options.patch_boundary_conditions@[condition].condition {
                    ScalarBoundaryCondition::FixedValue(value) => found
                        == FaceBoundaryTreatment::FixedValue(value),
                    ScalarBoundaryCondition::ZeroGradient => found is ZeroGradient,
                }
            }
        }),
{
    lemma_face_treatment(mesh.patches@, options, at, face);
    lemma_treatment_ok(mesh.patches@, options, 0, at);
    lemma_condition_at(
        options.patch_boundary_conditions@,
        condition,
        mesh.patches@[at].name@,
    );
}

/// Every boundary face of a patch for which no condition is given is treated as
/// the default says, or as a constraint on an empty, wedge or symmetry patch.
pub proof fn faces_without_condition_get_the_default<P, S, V>(
    mesh: SolverRuntimeMeshData<P, S>,
    options: ScalarDiffusionOptions<V>,
    at: int,
    face: int,
)
    requires
        treatments_checked(mesh.patches@, options, 0) is Ok,
        0 <= face < mesh.faces,
        mesh.neighbour@[face] is None,
        is_last_patch(mesh.patches@, at, face),
        forall|i: int|
            0 <= i < options.patch_boundary_conditions@.len() ==> (
            #[trigger] options.patch_boundary_conditions@[i]).patch@ != mesh.patches@[at].name@,
    ensures
        ({
            let kind = mesh.patches@[at].patch_type@;
            let found = treatments(mesh, options)[face];
            if kind == "empty"@ || kind == "wedge"@ || kind == "symmetryPlane"@ {
                found is Constraint
            } else {
                match options.default_boundary {
                    ScalarBoundaryCondition::FixedValue(value) => found
                        == FaceBoundaryTreatment::FixedValue(value),
                    ScalarBoundaryCondition::ZeroGradient => found is ZeroGradient,
                }
            }
        }),
{
    lemma_face_treatment(mesh.patches@, options, at, face);
    lemma_treatment_ok(mesh.patches@, options, 0, at);
    lemma_condition_of(options.patch_boundary_conditions@, mesh.patches@[at].name@);
    if let Some(found) = condition_of(
        options.patch_boundary_conditions@,
        mesh.patches@[at].name@,
    ) {
        let i = choose|i: int|
            is_last_condition(
                options.patch_boundary_conditions@,
                i,
                mesh.patches@[at].name@,
            ) && (#[trigger] options.patch_boundary_conditions@[i]).condition == found;
        assert(options.patch_boundary_conditions@[i].patch@ == mesh.patches@[at].name@);
    }
}

/// A face between two cells, and one that belongs to no patch, meets no boundary
/// condition; and there is one treatment for each face.
pub proof fn other_faces_are_free<P, S, V>(
    mesh: SolverRuntimeMeshData<P, S>,
    options: ScalarDiffusionOptions<V>,
    face: int,
)
    requires
        0 <= face < mesh.faces,
        mesh.neighbour@[face] is Some || forall|p: int|
            0 <= p < mesh.patches@.len() ==> !((#[trigger] mesh.patches@[p]).start_face <= face
                < mesh.patches@[p].start_face + mesh.patches@[p].faces),
    ensures
        treatments(mesh, options)[face] is ZeroGradient,
        treatments(mesh, options).len() == mesh.faces,
{
    if mesh.neighbour@[face] is None {
        lemma_face_is_free(mesh.patches@, options, face);
    }
}

proof fn lemma_face_is_free<V>(
    patches: Seq<SolverRuntimePatchRange>,
    options: ScalarDiffusionOptions<V>,
    face: int,
)
    requires
        forall|p: int|
            0 <= p < patches.len() ==> !((#[trigger] patches[p]).start_face <= face
                < patches[p].start_face + patches[p].faces),
    ensures
        face_treatment(patches, options, face) is ZeroGradient,
    decreases patches.len(),
{
    if patches.len() > 0 {
        let front = patches.drop_last();
        let last = patches[patches.len() - 1];
        assert(!(last.start_face <= face < last.start_face + last.faces));
        assert forall|p: int| 0 <= p < front.len() implies !((#[trigger] front[p]).start_face
            <= face < front[p].start_face + front[p].faces) by {
            assert(front[p] == patches[p]);
        }
        lemma_face_is_free(front, options, face);
    }
}

/// Conditions are refused exactly where one fixes a value on a patch that only
/// constrains the geometry.
pub proof fn only_fixed_constraints_are_refused<V>(
    patches: Seq<SolverRuntimePatchRange>,
    options: ScalarDiffusionOptions<V>,
    from: int,
)
    requires
        0 <= from <= patches.len(),
    ensures
        treatments_checked(patches, options, from) is Err <==> exists|at: int, i: int|
            #![trigger patches[at], options.patch_boundary_conditions@[i]]
            from <= at < patches.len() && (patches[at].patch_type@ == "empty"@
                || patches[at].patch_type@ == "wedge"@ || patches[at].patch_type@
                == "symmetryPlane"@) && is_last_condition(
                options.patch_boundary_conditions@,
                i,
                patches[at].name@,
            ) && options.patch_boundary_conditions@[i].condition is FixedValue,
    decreases patches.len() - from,
{
    let given = options.patch_boundary_conditions@;
    if from < patches.len() {
        only_fixed_constraints_are_refused(patches, options, from + 1);
        let patch = patches[from];
        lemma_condition_of(given, patch.name@);
        if patch_treatment(patch, options) is Err {
            let found = condition_of(given, patch.name@)->0;
            let i = choose|i: int|
                is_last_condition(given, i, patch.name@) && (#[trigger] given[i]).condition
                    == found;
            assert(patches[from] == patch && given[i].condition is FixedValue);
        } else {
            assert forall|i: int|
                is_last_condition(given, i, patch.name@) && is_constraint(
                    patch.patch_type@,
                ) implies !((#[trigger] given[i]).condition is FixedValue) by {
                lemma_condition_at(given, i, patch.name@);
            }
            if exists|at: int, i: int|
                #![trigger patches[at], given[i]]
                from <= at < patches.len() && is_constraint(patches[at].patch_type@)
                    && is_last_condition(given, i, patches[at].name@)
                    && given[i].condition is FixedValue {
                let (at, i) = choose|at: int, i: int|
                    #![trigger patches[at], given[i]]
                    from <= at < patches.len() && is_constraint(patches[at].patch_type@)
                        && is_last_condition(given, i, patches[at].name@)
                        && given[i].condition is FixedValue;
                if at == from {
                    assert(!(given[i].condition is FixedValue));
                }
                assert(from + 1 <= at);
                assert(patches[at] == patches[at] && given[i] == given[i]);
            }
        }
    }
}

/// A diffusion equation is taken exactly where its diffusivity is finite and above
/// zero, its source and its fixed values are finite, and its patches have names.
pub proof fn equation_is_taken_iff_usable(options: DiffusionView)
    ensures
        options_checked(options) is Ok <==> {
            &&& options.diffusivity.kind == reals::RealKind::UpToOne || options.diffusivity.kind
                == reals::RealKind::AboveOne
            &&& options.source.kind != reals::RealKind::NotFinite
            &&& (options.default_boundary matches ScalarBoundaryCondition::FixedValue(value)
                ==> value.kind != reals::RealKind::NotFinite)
            &&& forall|i: int|
                0 <= i < options.conditions.len() ==> text::trim(
                    (#[trigger] options.conditions[i]).0,
                ).len() > 0 && (options.conditions[i].1 matches ScalarBoundaryCondition::FixedValue(
                    value,
                ) ==> value.kind != reals::RealKind::NotFinite)
        },
{
    lemma_conditions_checked(options.conditions, 0);
}

proof fn lemma_conditions_checked(
    conditions: Seq<(Seq<char>, ScalarBoundaryCondition<RealView>)>,
    from: int,
)
    requires
        0 <= from <= conditions.len(),
    ensures
        conditions_checked(conditions, from) is Ok <==> forall|i: int|
            from <= i < conditions.len() ==> text::trim((#[trigger] conditions[i]).0).len() > 0 && (
            conditions[i].1 matches ScalarBoundaryCondition::FixedValue(value) ==> value.kind
                != reals::RealKind::NotFinite),
    decreases conditions.len() - from,
{
    if from < conditions.len() {
        lemma_conditions_checked(conditions, from + 1);
        let first = conditions[from];
        assert(text::trim(first.0).len() >= 0);
    }
}

/// The equation of a scalar field gets the numbers that are asked for, leaves
/// patches without a condition free, and takes from each patch of the field what
/// the patch says: a fixed value is the one number of the patch, a free patch stays
/// free.
pub proof fn field_patches_become_conditions(
    readings: Readings,
    field: fields::FieldView,
    diffusivity: RealView,
    source: RealView,
    at: int,
)
    requires
        field_options(readings, field, diffusivity, source) is Ok,
        0 <= at < field.boundary_patches.len(),
    ensures
        ({
            let found = field_options(readings, field, diffusivity, source)->Ok_0;
            let patch = field.boundary_patches[at];
            &&& field.class_name == Some("volScalarField"@)
            &&& found.diffusivity == diffusivity
            &&& found.source == source
            &&& found.default_boundary is ZeroGradient
            &&& patch.patch_type == Some("zeroGradient"@) ==> found.conditions.contains(
                (patch.name, ScalarBoundaryCondition::ZeroGradient),
            )
            &&& patch.patch_type == Some("fixedValue"@) ==> {
                &&& patch.value matches Some(fields::ValueView::Uniform(inner)) && {
                    let words = text::words(unbracketed(inner));
                    &&& words.len() == 1
                    &&& readings.number(words[0]) matches Some(number)
                        && found.conditions.contains(
                        (patch.name, ScalarBoundaryCondition::FixedValue(number)),
                    )
                }
            }
            &&& patch.patch_type is Some
            &&& patch.patch_type->0 == "fixedValue"@ || patch.patch_type->0 == "zeroGradient"@
                || patch.patch_type->0 == "empty"@ || patch.patch_type->0 == "wedge"@
                || patch.patch_type->0 == "symmetryPlane"@
        }),
{
    let label = label_of(field.region, field.name);
    lemma_conditions_from(readings, label, field.boundary_patches, 0, at);
    let patch = field.boundary_patches[at];
    reveal_strlit("fixedValue");
    reveal_strlit("zeroGradient");
    assert("fixedValue"@.len() != "zeroGradient"@.len());
    if patch.patch_type == Some("fixedValue"@) {
        let inner = patch.value->0;
        assert(uniform_scalar(readings, label, patch.name, inner) is Ok);
        let words = text::words(unbracketed(inner->Uniform_0));
        lemma_all_numbers(readings, words, 0);
    }
}

proof fn lemma_all_numbers(readings: Readings, tokens: Seq<Seq<char>>, from: int)
    requires
        0 <= from,
        not_number(readings, tokens, from) is None,
    ensures
        forall|i: int|
            from <= i < tokens.len() ==> readings.number(#[trigger] tokens[i]) is Some,
    decreases tokens.len() - from,
{
    if from < tokens.len() {
        lemma_all_numbers(readings, tokens, from + 1);
    }
}

proof fn lemma_conditions_from(
    readings: Readings,
    label: Seq<char>,
    patches: Seq<fields::PatchView>,
    from: int,
    at: int,
)
    requires
        0 <= from <= at < patches.len(),
        conditions_from(readings, label, patches, from) is Ok,
    ensures
        patch_given(readings, label, patches[at]) is Ok,
        patch_given(readings, label, patches[at]) matches Ok(Some(condition)) ==> conditions_from(
            readings,
            label,
            patches,
            from,
        )->Ok_0.contains((patches[at].name, condition)),
    decreases at - from,
{
    let rest = conditions_from(readings, label, patches, from + 1)->Ok_0;
    let all = conditions_from(readings, label, patches, from)->Ok_0;
    if from < at {
        lemma_conditions_from(readings, label, patches, from + 1, at);
        if let Ok(Some(condition)) = patch_given(readings, label, patches[at]) {
            let pair = (patches[at].name, condition);
            let i = choose|i: int| 0 <= i < rest.len() && rest[i] == pair;
            assert(all[i + (all.len() - rest.len())] == pair);
        }
    } else if let Ok(Some(condition)) = patch_given(readings, label, patches[at]) {
        assert(all[0] == (patches[at].name, condition));
    }
}

/// No condition of an equation comes from elsewhere: each belongs to a patch of
/// the field with its name and kind.
pub proof fn conditions_come_from_field_patches(
    readings: Readings,
    field: fields::FieldView,
    diffusivity: RealView,
    source: RealView,
    j: int,
)
    requires
        field_options(readings, field, diffusivity, source) is Ok,
        0 <= j < field_options(readings, field, diffusivity, source)->Ok_0.conditions.len(),
    ensures
        ({
            let condition = field_options(readings, field, diffusivity, source)->Ok_0.conditions[j];
            exists|at: int|
                0 <= at < field.boundary_patches.len() && (
                #[trigger] field.boundary_patches[at]).name == condition.0
                    && field.boundary_patches[at].patch_type == Some(
                    if condition.1 is FixedValue {
                        "fixedValue"@
                    } else {
                        "zeroGradient"@
                    },
                )
        }),
{
    lemma_condition_source(
        readings,
        label_of(field.region, field.name),
        field.boundary_patches,
        0,
        j,
    );
}

proof fn lemma_condition_source(
    readings: Readings,
    label: Seq<char>,
    patches: Seq<fields::PatchView>,
    from: int,
    j: int,
)
    requires
        0 <= from <= patches.len(),
        conditions_from(readings, label, patches, from) is Ok,
        0 <= j < conditions_from(readings, label, patches, from)->Ok_0.len(),
    ensures
        exists|at: int|
            from <= at < patches.len() && (#[trigger] patches[at]).name == conditions_from(
                readings,
                label,
                patches,
                from,
            )->Ok_0[j].0 && patches[at].patch_type == Some(
                if conditions_from(readings, label, patches, from)->Ok_0[j].1 is FixedValue {
                    "fixedValue"@
                } else {
                    "zeroGradient"@
                },
            ),
    decreases patches.len() - from,
{
    let all = conditions_from(readings, label, patches, from)->Ok_0;
    let rest = conditions_from(readings, label, patches, from + 1)->Ok_0;
    let extra = all.len() - rest.len();
    if j < extra {
        assert(patches[from].name == all[j].0);
    } else {
        assert(all[j] == rest[j - extra]);
        lemma_condition_source(readings, label, patches, from + 1, j - extra);
    }
}

} // verus!
