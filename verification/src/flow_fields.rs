//! The fields of a laminar SIMPLE run: where they are found, and how their
//! boundary enters the equations.

use crate::dictionary;
use crate::diffusion;
use crate::diffusion::FaceBoundaryTreatment;
use crate::error::{Failure, MeshError};
use crate::fields;
use crate::fields::{FieldBoundaryPatch, FieldFile, FieldValueSummary, InitialFieldSet};
use crate::flow::FlowBoundarySummary;
use crate::layout;
use crate::plan::{SolverRuntimeFieldPlan, SolverRuntimePatchRange};
use crate::reals;
use crate::reals::{Real, RealView, Readings};
use crate::runtime;
use crate::runtime::SolverRuntimeMeshData;
use crate::stencil;
use crate::text;
use vstd::prelude::*;

verus! {

/// The velocity or the pressure.
#[derive(Clone, Copy, Debug, Eq, PartialEq, Structural)]
pub enum FlowField {
    Velocity,
    Pressure,
}

/// Where the fixed value of a face comes from.
#[derive(Clone, Copy, Debug, Eq, PartialEq, Structural)]
pub enum FlowValue {
    /// The fluid is at rest there.
    AtRest,
    /// It is value number `offset` of the patch number `patch` of the field.
    Given { patch: usize, offset: usize },
}

/// How the faces of a patch enter the equations.
#[derive(Clone, Copy, Debug, Eq, PartialEq, Structural)]
pub enum PatchRule {
    /// With the values of this patch of the field.
    Fixed(usize),
    /// With the fluid at rest.
    AtRest,
    /// With the value of their cell.
    Free,
    /// As a constraint of the geometry.
    Constrained,
}

/// The fixed values of a patch.
#[derive(Debug)]
pub enum FixedValues {
    /// One value for all its faces, by its components.
    Uniform(Vec<Real>),
    /// A list with a value for each of its faces.
    Listed,
}

/// The mathematical view of a [`FixedValues`].
pub enum FixedView {
    Uniform(Seq<RealView>),
    Listed,
}

impl View for FixedValues {
    type V = FixedView;

    open spec fn view(&self) -> FixedView {
        match self {
            FixedValues::Uniform(values) => FixedView::Uniform(reals::real_views(values@)),
            FixedValues::Listed => FixedView::Listed,
        }
    }
}

/// How many numbers a value of the field is made of.
pub open spec fn components(field: FlowField) -> nat {
    match field {
        FlowField::Velocity => 3,
        FlowField::Pressure => 1,
    }
}

/// The name of the field.
pub open spec fn symbol(field: FlowField) -> Seq<char> {
    match field {
        FlowField::Velocity => "U"@,
        FlowField::Pressure => "p"@,
    }
}

/// The first patch from `at` on with a name.
pub open spec fn patch_named(patches: Seq<fields::PatchView>, name: Seq<char>, at: int) -> Option<
    nat,
>
    decreases patches.len() - at,
{
    if at >= patches.len() {
        None
    } else if patches[at].name == name {
        Some(at as nat)
    } else {
        patch_named(patches, name, at + 1)
    }
}

/// What is said where a field has nothing for a patch of the mesh.
pub open spec fn unnamed(label: Seq<char>, name: Seq<char>) -> Failure {
    Failure::InvalidInput(
        "field '"@ + label + "' has no boundaryField entry for mesh patch '"@ + name + "'"@,
    )
}

/// The numbers of a text, or the first token that is not a number.
pub open spec fn numbers_of(
    readings: Readings,
    label: Seq<char>,
    patch: Seq<char>,
    value: Seq<char>,
) -> Result<Seq<RealView>, Failure> {
    let tokens = text::words(diffusion::unbracketed(value));
    match diffusion::not_number(readings, tokens, 0) {
        Some(token) => Err(
            Failure::InvalidInput(
                diffusion::patch_line(
                    label,
                    patch,
                    "contains non-numeric token '"@ + token + "'"@,
                ),
            ),
        ),
        None => Ok(Seq::new(tokens.len(), |i: int| readings.number(tokens[i])->0)),
    }
}

/// The failure of a patch of a field.
pub open spec fn patch_failure(label: Seq<char>, patch: Seq<char>, rest: Seq<char>) -> Failure {
    Failure::InvalidInput(diffusion::patch_line(label, patch, rest))
}

/// The fixed values of a patch with `faces` faces; `loaded` is how many
/// numbers of its list were read, if they were.
pub open spec fn fixed_of(
    readings: Readings,
    label: Seq<char>,
    patch: fields::PatchView,
    loaded: Option<usize>,
    width: nat,
    faces: nat,
) -> Result<FixedView, Failure> {
    match patch.value {
        None => Err(patch_failure(label, patch.name, "fixedValue has no value"@)),
        Some(fields::ValueView::Uniform(value)) => match numbers_of(
            readings,
            label,
            patch.name,
            value,
        ) {
            Err(failure) => Err(failure),
            Ok(numbers) => if numbers.len() != width {
                Err(
                    patch_failure(
                        label,
                        patch.name,
                        "uniform value has "@ + text::decimal(numbers.len())
                            + " components, expected "@ + text::decimal(width),
                    ),
                )
            } else {
                Ok(FixedView::Uniform(numbers))
            },
        },
        Some(fields::ValueView::NonUniform { count, .. }) => if count is Some && count->0 != faces {
            Err(
                patch_failure(
                    label,
                    patch.name,
                    "nonuniform value count is Some("@ + text::decimal(count->0) + "), expected "@
                        + text::decimal(faces),
                ),
            )
        } else {
            match loaded {
                None => Err(
                    patch_failure(
                        label,
                        patch.name,
                        "nonuniform numeric values could not be loaded"@,
                    ),
                ),
                Some(scalars) => if scalars != faces * width {
                    Err(
                        patch_failure(
                            label,
                            patch.name,
                            "nonuniform value has "@ + text::decimal(scalars as nat)
                                + " scalars, expected "@ + text::decimal(faces * width),
                        ),
                    )
                } else {
                    Ok(FixedView::Listed)
                },
            }
        },
        Some(fields::ValueView::Other(value)) => Err(
            patch_failure(label, patch.name, "has unsupported value '"@ + value + "'"@),
        ),
    }
}

/// What is said of the boundary type of a patch.
pub open spec fn type_failure(field: FlowField, patch: Seq<char>, rest: Seq<char>) -> Failure {
    Failure::InvalidInput("laminar SIMPLE "@ + symbol(field) + " patch '"@ + patch + "' "@ + rest)
}

/// How the faces of a patch enter the equations.
pub open spec fn rule_of(
    readings: Readings,
    which: FlowField,
    field: fields::FieldView,
    loaded: Seq<Option<usize>>,
    patch: SolverRuntimePatchRange,
) -> Result<PatchRule, Failure> {
    let label = diffusion::label_of(field.region, field.name);
    match patch_named(field.boundary_patches, patch.name@, 0) {
        None => Err(unnamed(label, patch.name@)),
        Some(at) => {
            let given = field.boundary_patches[at as int];
            if diffusion::is_constraint(patch.patch_type@) {
                Ok(PatchRule::Constrained)
            } else {
                match given.patch_type {
                    None => Err(type_failure(which, patch.name@, "has no boundary type"@)),
                    Some(patch_type) => if patch_type == "fixedValue"@ {
                        match fixed_of(
                            readings,
                            label,
                            given,
                            loaded[at as int],
                            components(which),
                            patch.faces as nat,
                        ) {
                            Err(failure) => Err(failure),
                            Ok(_) => Ok(PatchRule::Fixed(at as usize)),
                        }
                    } else if patch_type == "noSlip"@ && which == FlowField::Velocity {
                        Ok(PatchRule::AtRest)
                    } else if patch_type == "zeroGradient"@ {
                        Ok(PatchRule::Free)
                    } else if diffusion::is_constraint(patch_type) {
                        Ok(PatchRule::Constrained)
                    } else {
                        Err(
                            type_failure(
                                which,
                                patch.name@,
                                "uses unsupported boundary type '"@ + patch_type + "'"@,
                            ),
                        )
                    },
                }
            }
        },
    }
}

/// Whether every patch from `at` on has a rule.
pub open spec fn rules_checked(
    readings: Readings,
    which: FlowField,
    field: fields::FieldView,
    loaded: Seq<Option<usize>>,
    patches: Seq<SolverRuntimePatchRange>,
    at: int,
) -> Result<(), Failure>
    decreases patches.len() - at,
{
    if at >= patches.len() {
        Ok(())
    } else {
        match rule_of(readings, which, field, loaded, patches[at]) {
            Err(failure) => Err(failure),
            Ok(_) => rules_checked(readings, which, field, loaded, patches, at + 1),
        }
    }
}

/// How a face enters the equations under a rule.
pub open spec fn ruled(rule: PatchRule, offset: int) -> FaceBoundaryTreatment<FlowValue> {
    match rule {
        PatchRule::Fixed(patch) => FaceBoundaryTreatment::FixedValue(
            FlowValue::Given { patch, offset: offset as usize },
        ),
        PatchRule::AtRest => FaceBoundaryTreatment::FixedValue(FlowValue::AtRest),
        PatchRule::Free => FaceBoundaryTreatment::ZeroGradient,
        PatchRule::Constrained => FaceBoundaryTreatment::Constraint,
    }
}

/// How a face enters the equations: as the last patch that it belongs to says.
pub open spec fn face_rule(
    readings: Readings,
    which: FlowField,
    field: fields::FieldView,
    loaded: Seq<Option<usize>>,
    patches: Seq<SolverRuntimePatchRange>,
    face: int,
) -> FaceBoundaryTreatment<FlowValue>
    decreases patches.len(),
{
    if patches.len() == 0 {
        FaceBoundaryTreatment::ZeroGradient
    } else if diffusion::covers(patches.last(), face) {
        match rule_of(readings, which, field, loaded, patches.last()) {
            Ok(rule) => ruled(rule, face - patches.last().start_face),
            Err(_) => FaceBoundaryTreatment::ZeroGradient,
        }
    } else {
        face_rule(readings, which, field, loaded, patches.drop_last(), face)
    }
}

fn find_patch(patches: &Vec<FieldBoundaryPatch>, name: &str) -> (found: Option<usize>)
    ensures
        match found {
            Some(at) => at < patches@.len() && patch_named(
                fields::patch_views(patches@),
                name@,
                0,
            ) == Some(at as nat),
            None => patch_named(fields::patch_views(patches@), name@, 0) is None,
        },
{
    let ghost all = fields::patch_views(patches@);
    let mut at: usize = 0;
    while at < patches.len()
        invariant
            at <= patches@.len(),
            all == fields::patch_views(patches@),
            patch_named(all, name@, 0) == patch_named(all, name@, at as int),
        decreases patches@.len() - at,
    {
        assert(all[at as int] == patches@[at as int]@);
        if text::text_eq(patches[at].name.as_str(), name) {
            return Some(at);
        }
        at += 1;
    }
    None
}

/// The patch of a field with a name, by its number.
pub fn field_patch(field: &FieldFile, name: &str) -> (out: Result<usize, MeshError>)
    ensures
        match out {
            Ok(at) => at < field.boundary_patches@.len() && patch_named(
                field@.boundary_patches,
                name@,
                0,
            ) == Some(at as nat),
            Err(error) => patch_named(field@.boundary_patches, name@, 0) is None && error@
                == unnamed(diffusion::label_of(field@.region, field@.name), name@),
        },
{
    match find_patch(&field.boundary_patches, name) {
        Some(at) => Ok(at),
        None => {
            let mut message = "field '".to_string();
            message.append(diffusion::field_label(field).as_str());
            message.append("' has no boundaryField entry for mesh patch '");
            message.append(name);
            message.append("'");
            Err(MeshError::InvalidInput(message))
        },
    }
}

/// The numbers of a text, or the first token that is not a number.
pub fn parse_numbers(readings: &Readings, label: &str, patch: &str, value: &str) -> (out: Result<
    Vec<Real>,
    MeshError,
>)
    ensures
        match out {
            Ok(numbers) => dictionary::gives(
                numbers_of(*readings, label@, patch@, value@),
                reals::real_views(numbers@),
            ),
            Err(error) => dictionary::fails(
                numbers_of(*readings, label@, patch@, value@),
                error,
            ),
        },
{
    let tokens = text::words_of(diffusion::without_brackets(value).as_str());
    let ghost all = text::texts(tokens@);
    let mut numbers: Vec<Real> = Vec::new();
    let mut at: usize = 0;
    while at < tokens.len()
        invariant
            at <= tokens@.len(),
            all == text::texts(tokens@),
            all == text::words(diffusion::unbracketed(value@)),
            diffusion::not_number(*readings, all, 0) == diffusion::not_number(
                *readings,
                all,
                at as int,
            ),
            numbers@.len() == at,
            forall|i: int|
                0 <= i < at ==> readings.number(#[trigger] all[i]) == Some(numbers@[i]@),
        decreases tokens@.len() - at,
    {
        match readings.read(tokens[at].as_str()) {
            Some(number) => {
                numbers.push(number);
            },
            None => {
                let mut rest = "contains non-numeric token '".to_string();
                rest.append(tokens[at].as_str());
                rest.append("'");
                return Err(diffusion::patch_error(label, patch, rest.as_str()));
            },
        }
        at += 1;
    }
    proof {
        let wanted = Seq::new(all.len(), |i: int| readings.number(all[i])->0);
        assert forall|i: int| 0 <= i < all.len() implies #[trigger] reals::real_views(numbers@)[i]
            == wanted[i] by {
            assert(readings.number(all[i]) == Some(numbers@[i]@));
        }
        assert(reals::real_views(numbers@) =~= wanted);
    }
    Ok(numbers)
}

/// The fixed values of a patch with `faces` faces; `loaded` is how many
/// numbers of its list were read, if they were.
pub fn parse_patch_numeric_values(
    readings: &Readings,
    label: &str,
    patch: &FieldBoundaryPatch,
    loaded: Option<usize>,
    width: usize,
    faces: usize,
) -> (out: Result<FixedValues, MeshError>)
    requires
        faces * width <= usize::MAX,
    ensures
        match out {
            Ok(found) => dictionary::gives(
                fixed_of(*readings, label@, patch@, loaded, width as nat, faces as nat),
                found@,
            ),
            Err(error) => dictionary::fails(
                fixed_of(*readings, label@, patch@, loaded, width as nat, faces as nat),
                error,
            ),
        },
{
    let name = patch.name.as_str();
    match &patch.value {
        None => Err(diffusion::patch_error(label, name, "fixedValue has no value")),
        Some(FieldValueSummary::Uniform(value)) => {
            let numbers = parse_numbers(readings, label, name, value.as_str())?;
            assert(reals::real_views(numbers@).len() == numbers@.len());
            if numbers.len() != width {
                let mut rest = "uniform value has ".to_string();
                rest.append(text::number_text(numbers.len()).as_str());
                rest.append(" components, expected ");
                rest.append(text::number_text(width).as_str());
                return Err(diffusion::patch_error(label, name, rest.as_str()));
            }
            Ok(FixedValues::Uniform(numbers))
        },
        Some(FieldValueSummary::NonUniform { value_type: _, count }) => {
            if let Some(given) = count {
                if *given != faces {
                    let mut rest = "nonuniform value count is Some(".to_string();
                    rest.append(text::number_text(*given).as_str());
                    rest.append("), expected ");
                    rest.append(text::number_text(faces).as_str());
                    return Err(diffusion::patch_error(label, name, rest.as_str()));
                }
            }
            match loaded {
                None => Err(
                    diffusion::patch_error(
                        label,
                        name,
                        "nonuniform numeric values could not be loaded",
                    ),
                ),
                Some(scalars) => {
                    if scalars != faces * width {
                        let mut rest = "nonuniform value has ".to_string();
                        rest.append(text::number_text(scalars).as_str());
                        rest.append(" scalars, expected ");
                        rest.append(text::number_text(faces * width).as_str());
                        return Err(diffusion::patch_error(label, name, rest.as_str()));
                    }
                    Ok(FixedValues::Listed)
                },
            }
        },
        Some(FieldValueSummary::Other(value)) => {
            let mut rest = "has unsupported value '".to_string();
            rest.append(value.as_str());
            rest.append("'");
            Err(diffusion::patch_error(label, name, rest.as_str()))
        },
    }
}

fn type_error(which: FlowField, patch: &str, rest: &str) -> (error: MeshError)
    ensures
        error@ == type_failure(which, patch@, rest@),
{
    let mut message = "laminar SIMPLE ".to_string();
    match which {
        FlowField::Velocity => {
            message.append("U");
        },
        FlowField::Pressure => {
            message.append("p");
        },
    }
    message.append(" patch '");
    message.append(patch);
    message.append("' ");
    message.append(rest);
    MeshError::InvalidInput(message)
}

fn patch_rule(
    readings: &Readings,
    which: FlowField,
    field: &FieldFile,
    loaded: &Vec<Option<usize>>,
    patch: &SolverRuntimePatchRange,
) -> (out: Result<PatchRule, MeshError>)
    requires
        loaded@.len() == field.boundary_patches@.len(),
        patch.faces * 3 <= usize::MAX,
    ensures
        match out {
            Ok(rule) => dictionary::gives(
                rule_of(*readings, which, field@, loaded@, *patch),
                rule,
            ),
            Err(error) => dictionary::fails(
                rule_of(*readings, which, field@, loaded@, *patch),
                error,
            ),
        },
{
    let name = patch.name.as_str();
    let at: usize = field_patch(field, name)?;
    assert(field@.boundary_patches[at as int] == field.boundary_patches@[at as int]@);
    if diffusion::is_constraint_patch(patch.patch_type.as_str()) {
        return Ok(PatchRule::Constrained);
    }
    let given = &field.boundary_patches[at];
    match &given.patch_type {
        None => Err(type_error(which, name, "has no boundary type")),
        Some(found) => {
            let patch_type = found.as_str();
            if text::text_eq(patch_type, "fixedValue") {
                let label = diffusion::field_label(field);
                let width: usize = match which {
                    FlowField::Velocity => 3,
                    FlowField::Pressure => 1,
                };
                let fixed = parse_patch_numeric_values(
                    readings,
                    label.as_str(),
                    given,
                    loaded[at],
                    width,
                    patch.faces,
                )?;
                Ok(PatchRule::Fixed(at))
            } else if which == FlowField::Velocity && text::text_eq(patch_type, "noSlip") {
                Ok(PatchRule::AtRest)
            } else if text::text_eq(patch_type, "zeroGradient") {
                Ok(PatchRule::Free)
            } else if diffusion::is_constraint_patch(patch_type) {
                Ok(PatchRule::Constrained)
            } else {
                let mut rest = "uses unsupported boundary type '".to_string();
                rest.append(patch_type);
                rest.append("'");
                Err(type_error(which, name, rest.as_str()))
            }
        },
    }
}

fn treatment(rule: PatchRule, offset: usize) -> (out: FaceBoundaryTreatment<FlowValue>)
    ensures
        out == ruled(rule, offset as int),
{
    match rule {
        PatchRule::Fixed(patch) => FaceBoundaryTreatment::FixedValue(
            FlowValue::Given { patch, offset },
        ),
        PatchRule::AtRest => FaceBoundaryTreatment::FixedValue(FlowValue::AtRest),
        PatchRule::Free => FaceBoundaryTreatment::ZeroGradient,
        PatchRule::Constrained => FaceBoundaryTreatment::Constraint,
    }
}

/// How the faces enter the equations of a field; `loaded` is, for each of its
/// patches, how many numbers of a list were read.
pub fn face_treatments<P, S>(
    readings: &Readings,
    which: FlowField,
    mesh: &SolverRuntimeMeshData<P, S>,
    field: &FieldFile,
    loaded: &Vec<Option<usize>>,
) -> (out: Result<Vec<FaceBoundaryTreatment<FlowValue>>, MeshError>)
    requires
        loaded@.len() == field.boundary_patches@.len(),
        runtime::patches_fit(mesh.patches@, mesh.faces as nat),
        mesh.faces * 3 <= usize::MAX,
    ensures
        match out {
            Ok(found) => rules_checked(
                *readings,
                which,
                field@,
                loaded@,
                mesh.patches@,
                0,
            ) is Ok && found@ == Seq::new(
                mesh.faces as nat,
                |face: int| face_rule(*readings, which, field@, loaded@, mesh.patches@, face),
            ),
            Err(error) => dictionary::fails(
                rules_checked(*readings, which, field@, loaded@, mesh.patches@, 0),
                error,
            ),
        },
{
    let mut treatments: Vec<FaceBoundaryTreatment<FlowValue>> = Vec::new();
    let mut face: usize = 0;
    while face < mesh.faces
        invariant
            face <= mesh.faces,
            treatments@.len() == face,
            forall|i: int|
                0 <= i < face ==> #[trigger] treatments@[i] == FaceBoundaryTreatment::<
                    FlowValue,
                >::ZeroGradient,
        decreases mesh.faces - face,
    {
        treatments.push(FaceBoundaryTreatment::ZeroGradient);
        face += 1;
    }
    let patches = &mesh.patches;
    let mut at: usize = 0;
    while at < patches.len()
        invariant
            at <= patches@.len(),
            *patches == mesh.patches,
            loaded@.len() == field.boundary_patches@.len(),
            runtime::patches_fit(mesh.patches@, mesh.faces as nat),
            mesh.faces * 3 <= usize::MAX,
            treatments@.len() == mesh.faces,
            rules_checked(*readings, which, field@, loaded@, patches@, 0) == rules_checked(
                *readings,
                which,
                field@,
                loaded@,
                patches@,
                at as int,
            ),
            forall|i: int|
                0 <= i < mesh.faces ==> #[trigger] treatments@[i] == face_rule(
                    *readings,
                    which,
                    field@,
                    loaded@,
                    patches@.take(at as int),
                    i,
                ),
        decreases patches@.len() - at,
    {
        let patch = &patches[at];
        assert(patches@[at as int].start_face + patches@[at as int].faces <= mesh.faces);
        let rule = patch_rule(readings, which, field, loaded, patch)?;
        let ghost before = treatments@;
        assert(patches@.take(at + 1).drop_last() =~= patches@.take(at as int));
        let mut offset: usize = 0;
        while offset < patch.faces
            invariant
                offset <= patch.faces,
                patch.start_face + patch.faces <= mesh.faces,
                treatments@.len() == mesh.faces,
                before.len() == mesh.faces,
                forall|i: int|
                    0 <= i < mesh.faces ==> #[trigger] treatments@[i] == (if patch.start_face <= i
                        < patch.start_face + offset {
                        ruled(rule, i - patch.start_face)
                    } else {
                        before[i]
                    }),
            decreases patch.faces - offset,
        {
            treatments.set(patch.start_face + offset, treatment(rule, offset));
            offset += 1;
        }
        assert forall|i: int| 0 <= i < mesh.faces implies #[trigger] treatments@[i] == face_rule(
            *readings,
            which,
            field@,
            loaded@,
            patches@.take(at + 1),
            i,
        ) by {
            assert(before[i] == face_rule(
                *readings,
                which,
                field@,
                loaded@,
                patches@.take(at as int),
                i,
            ));
        }
        at += 1;
    }
    assert(patches@.take(at as int) =~= patches@);
    assert(treatments@ =~= Seq::new(
        mesh.faces as nat,
        |face: int| face_rule(*readings, which, field@, loaded@, mesh.patches@, face),
    ));
    Ok(treatments)
}

/// How the faces enter the equation of a correction: a fixed value leaves
/// nothing to correct.
pub open spec fn corrected<V>(treatment: FaceBoundaryTreatment<V>, zero: V) -> FaceBoundaryTreatment<
    V,
> {
    match treatment {
        FaceBoundaryTreatment::FixedValue(_) => FaceBoundaryTreatment::FixedValue(zero),
        FaceBoundaryTreatment::ZeroGradient => FaceBoundaryTreatment::ZeroGradient,
        FaceBoundaryTreatment::Constraint => FaceBoundaryTreatment::Constraint,
    }
}

/// How the faces enter the equation of the pressure correction.
pub fn pressure_correction_treatments<V: Copy>(
    pressure: &Vec<FaceBoundaryTreatment<V>>,
    zero: V,
) -> (found: Vec<FaceBoundaryTreatment<V>>)
    ensures
        found@.len() == pressure@.len(),
        forall|i: int|
            0 <= i < pressure@.len() ==> #[trigger] found@[i] == corrected(pressure@[i], zero),
{
    let mut found: Vec<FaceBoundaryTreatment<V>> = Vec::new();
    let mut at: usize = 0;
    while at < pressure.len()
        invariant
            at <= pressure@.len(),
            found@.len() == at,
            forall|i: int| 0 <= i < at ==> #[trigger] found@[i] == corrected(pressure@[i], zero),
        decreases pressure@.len() - at,
    {
        match &pressure[at] {
            FaceBoundaryTreatment::FixedValue(_) => {
                found.push(FaceBoundaryTreatment::FixedValue(zero));
            },
            FaceBoundaryTreatment::ZeroGradient => {
                found.push(FaceBoundaryTreatment::ZeroGradient);
            },
            FaceBoundaryTreatment::Constraint => {
                found.push(FaceBoundaryTreatment::Constraint);
            },
        }
        at += 1;
    }
    found
}

fn count_treatments<P, S, V>(
    mesh: &SolverRuntimeMeshData<P, S>,
    treatments: &Vec<FaceBoundaryTreatment<V>>,
) -> (counts: (usize, usize, usize))
    requires
        treatments@.len() <= mesh.neighbour@.len(),
    ensures
        ({
            let (_, fixed, free, constrained) = stencil::counted(
                *mesh,
                treatments@,
                treatments@.len() as int,
            );
            counts == (fixed as usize, free as usize, constrained as usize) && fixed <= usize::MAX
                && free <= usize::MAX && constrained <= usize::MAX
        }),
{
    let mut fixed: usize = 0;
    let mut free: usize = 0;
    let mut constrained: usize = 0;
    let mut at: usize = 0;
    while at < treatments.len()
        invariant
            at <= treatments@.len() <= mesh.neighbour@.len(),
            ({
                let found = stencil::counted(*mesh, treatments@, at as int);
                found.1 == fixed && found.2 == free && found.3 == constrained
            }),
            fixed + free + constrained <= at,
        decreases treatments@.len() - at,
    {
        if mesh.neighbour[at].is_none() {
            match &treatments[at] {
                FaceBoundaryTreatment::FixedValue(_) => {
                    fixed += 1;
                },
                FaceBoundaryTreatment::ZeroGradient => {
                    free += 1;
                },
                FaceBoundaryTreatment::Constraint => {
                    constrained += 1;
                },
            }
        }
        at += 1;
    }
    (fixed, free, constrained)
}

/// How many boundary faces have which treatment.
pub fn summarize_boundaries<P, S, V, W>(
    mesh: &SolverRuntimeMeshData<P, S>,
    velocity: &Vec<FaceBoundaryTreatment<V>>,
    pressure: &Vec<FaceBoundaryTreatment<W>>,
) -> (summary: FlowBoundarySummary)
    requires
        velocity@.len() <= mesh.neighbour@.len(),
        pressure@.len() <= mesh.neighbour@.len(),
    ensures
        ({
            let u = stencil::counted(*mesh, velocity@, velocity@.len() as int);
            let p = stencil::counted(*mesh, pressure@, pressure@.len() as int);
            &&& summary.velocity_fixed_value_faces == u.1
            &&& summary.velocity_zero_gradient_faces == u.2
            &&& summary.velocity_inlet_outlet_faces == 0
            &&& summary.velocity_constraint_faces == u.3
            &&& summary.pressure_fixed_value_faces == p.1
            &&& summary.pressure_zero_gradient_faces == p.2
            &&& summary.pressure_constraint_faces == p.3
        }),
{
    let u = count_treatments(mesh, velocity);
    let p = count_treatments(mesh, pressure);
    FlowBoundarySummary {
        velocity_fixed_value_faces: u.0,
        velocity_zero_gradient_faces: u.1,
        velocity_inlet_outlet_faces: 0,
        velocity_constraint_faces: u.2,
        pressure_fixed_value_faces: p.0,
        pressure_zero_gradient_faces: p.1,
        pressure_constraint_faces: p.2,
    }
}

/// The first field array from `at` on with a name and so many components,
/// outside any region.
pub open spec fn buffer_named(
    buffers: Seq<SolverRuntimeFieldPlan>,
    name: Seq<char>,
    width: nat,
    at: int,
) -> Option<nat>
    decreases buffers.len() - at,
{
    if at >= buffers.len() {
        None
    } else if buffers[at].region is None && buffers[at].name@ == name && buffers[at].components
        == width {
        Some(at as nat)
    } else {
        buffer_named(buffers, name, width, at + 1)
    }
}

/// The field array of a run, which must have a value for each cell.
pub open spec fn buffer_of(
    buffers: Seq<SolverRuntimeFieldPlan>,
    cells: nat,
    name: Seq<char>,
    width: nat,
) -> Result<nat, Failure> {
    match buffer_named(buffers, name, width, 0) {
        None => Err(
            Failure::InvalidInput(
                "runtime field '"@ + name + "' with "@ + text::decimal(width)
                    + " components was not materialized"@,
            ),
        ),
        Some(at) => if buffers[at as int].values != cells * width {
            Err(
                Failure::InvalidInput(
                    "runtime field '"@ + name + "' has "@ + text::decimal(
                        buffers[at as int].values as nat,
                    ) + " scalars, expected "@ + text::decimal(cells * width),
                ),
            )
        } else {
            Ok(at)
        },
    }
}

/// The field array of a run, by its number; it has a value for each cell.
pub fn runtime_field(
    buffers: &Vec<SolverRuntimeFieldPlan>,
    cells: usize,
    name: &str,
    width: usize,
) -> (out: Result<usize, MeshError>)
    requires
        cells * width <= usize::MAX,
    ensures
        match out {
            Ok(at) => at < buffers@.len() && dictionary::gives(
                buffer_of(buffers@, cells as nat, name@, width as nat),
                at as nat,
            ),
            Err(error) => dictionary::fails(
                buffer_of(buffers@, cells as nat, name@, width as nat),
                error,
            ),
        },
{
    let mut at: usize = 0;
    while at < buffers.len()
        invariant
            at <= buffers@.len(),
            cells * width <= usize::MAX,
            buffer_named(buffers@, name@, width as nat, 0) == buffer_named(
                buffers@,
                name@,
                width as nat,
                at as int,
            ),
        decreases buffers@.len() - at,
    {
        let buffer = &buffers[at];
        if buffer.region.is_none() && text::text_eq(buffer.name.as_str(), name)
            && buffer.components == width {
            if buffer.values != cells * width {
                let mut message = "runtime field '".to_string();
                message.append(name);
                message.append("' has ");
                message.append(text::number_text(buffer.values).as_str());
                message.append(" scalars, expected ");
                message.append(text::number_text(cells * width).as_str());
                return Err(MeshError::InvalidInput(message));
            }
            return Ok(at);
        }
        at += 1;
    }
    let mut message = "runtime field '".to_string();
    message.append(name);
    message.append("' with ");
    message.append(text::number_text(width).as_str());
    message.append(" components was not materialized");
    Err(MeshError::InvalidInput(message))
}

/// The first field from `at` on with a name, outside any region.
pub open spec fn field_named(found: Seq<FieldFile>, name: Seq<char>, at: int) -> Option<nat>
    decreases found.len() - at,
{
    if at >= found.len() {
        None
    } else if found[at].region is None && found[at].name@ == name {
        Some(at as nat)
    } else {
        field_named(found, name, at + 1)
    }
}

/// The field with a name, which must have a class.
pub open spec fn field_of(
    fields: InitialFieldSet,
    name: Seq<char>,
    class_name: Seq<char>,
) -> Result<nat, Failure> {
    match field_named(fields.fields@, name, 0) {
        None => Err(
            Failure::InvalidInput(
                "field '"@ + name + "' was not found below "@ + text::below(
                    fields.case_dir@,
                    "0"@,
                ),
            ),
        ),
        Some(at) => {
            let found = text::opt_text(fields.fields@[at as int].class_name);
            if found != Some(class_name) {
                Err(
                    Failure::InvalidInput(
                        "field '"@ + name + "' has class '"@ + layout::text_or(found, "unknown"@)
                            + "', expected '"@ + class_name + "'"@,
                    ),
                )
            } else {
                Ok(at)
            }
        },
    }
}

/// The field with a name, by its number; it has the class.
pub fn find_field(fields: &InitialFieldSet, name: &str, class_name: &str) -> (out: Result<
    usize,
    MeshError,
>)
    ensures
        match out {
            Ok(at) => at < fields.fields@.len() && dictionary::gives(
                field_of(*fields, name@, class_name@),
                at as nat,
            ),
            Err(error) => dictionary::fails(field_of(*fields, name@, class_name@), error),
        },
{
    let found = &fields.fields;
    let mut at: usize = 0;
    while at < found.len()
        invariant
            at <= found@.len(),
            *found == fields.fields,
            field_named(found@, name@, 0) == field_named(found@, name@, at as int),
        decreases found@.len() - at,
    {
        if found[at].region.is_none() && text::text_eq(found[at].name.as_str(), name) {
            if !text::is_text(&found[at].class_name, class_name) {
                let mut message = "field '".to_string();
                message.append(name);
                message.append("' has class '");
                message.append(
                    layout::text_or_default(&found[at].class_name, "unknown").as_str(),
                );
                message.append("', expected '");
                message.append(class_name);
                message.append("'");
                return Err(MeshError::InvalidInput(message));
            }
            return Ok(at);
        }
        at += 1;
    }
    let mut message = "field '".to_string();
    message.append(name);
    message.append("' was not found below ");
    message.append(text::path_below(fields.case_dir.as_str(), "0").as_str());
    Err(MeshError::InvalidInput(message))
}

/// Whether the field has its first patch with the name of a patch of the mesh at
/// `given`.
pub open spec fn is_named_first(
    patches: Seq<fields::PatchView>,
    name: Seq<char>,
    given: int,
) -> bool {
    &&& 0 <= given < patches.len()
    &&& patches[given].name == name
    &&& forall|i: int| 0 <= i < given ==> (#[trigger] patches[i]).name != name
}

proof fn lemma_patch_named(
    patches: Seq<fields::PatchView>,
    name: Seq<char>,
    from: int,
    given: int,
)
    requires
        0 <= from <= given,
        is_named_first(patches, name, given),
    ensures
        patch_named(patches, name, from) == Some(given as nat),
    decreases given - from,
{
    if from < given {
        assert(patches[from].name != name);
        lemma_patch_named(patches, name, from + 1, given);
    }
}

proof fn lemma_face_rule(
    readings: Readings,
    which: FlowField,
    field: fields::FieldView,
    loaded: Seq<Option<usize>>,
    patches: Seq<SolverRuntimePatchRange>,
    at: int,
    face: int,
)
    requires
        diffusion::is_last_patch(patches, at, face),
        rule_of(readings, which, field, loaded, patches[at]) is Ok,
    ensures
        face_rule(readings, which, field, loaded, patches, face) == ruled(
            rule_of(readings, which, field, loaded, patches[at])->Ok_0,
            face - patches[at].start_face,
        ),
    decreases patches.len(),
{
    if at < patches.len() - 1 {
        let front = patches.drop_last();
        let last = patches[patches.len() - 1];
        assert(!(last.start_face <= face < last.start_face + last.faces));
        assert forall|later: int| at < later < front.len() implies !((
        #[trigger] front[later]).start_face <= face < front[later].start_face
            + front[later].faces) by {
            assert(front[later] == patches[later]);
        }
        lemma_face_rule(readings, which, field, loaded, front, at, face);
    }
}

proof fn lemma_rule_ok(
    readings: Readings,
    which: FlowField,
    field: fields::FieldView,
    loaded: Seq<Option<usize>>,
    patches: Seq<SolverRuntimePatchRange>,
    from: int,
    at: int,
)
    requires
        0 <= from <= at < patches.len(),
        rules_checked(readings, which, field, loaded, patches, from) is Ok,
    ensures
        rule_of(readings, which, field, loaded, patches[at]) is Ok,
    decreases at - from,
{
    if from < at {
        lemma_rule_ok(readings, which, field, loaded, patches, from + 1, at);
    }
}

/// Every face of a patch enters the equations as the field says under the name of
/// the patch: a fixed value is the value of the field for that face, without slip
/// the fluid is at rest, without gradient the face is free, and the patches that
/// only constrain the geometry do so.
pub proof fn faces_follow_the_field(
    readings: Readings,
    which: FlowField,
    field: fields::FieldView,
    loaded: Seq<Option<usize>>,
    patches: Seq<SolverRuntimePatchRange>,
    at: int,
    given: int,
    face: int,
)
    requires
        rules_checked(readings, which, field, loaded, patches, 0) is Ok,
        diffusion::is_last_patch(patches, at, face),
        is_named_first(field.boundary_patches, patches[at].name@, given),
        given <= usize::MAX,
        face <= usize::MAX,
    ensures
        ({
            let found = face_rule(readings, which, field, loaded, patches, face);
            let kind = patches[at].patch_type@;
            let asked = field.boundary_patches[given].patch_type;
            if kind == "empty"@ || kind == "wedge"@ || kind == "symmetryPlane"@ {
                found is Constraint
            } else {
                &&& asked is Some
                &&& asked->0 == "fixedValue"@ ==> (found matches FaceBoundaryTreatment::FixedValue(
                    FlowValue::Given { patch, offset },
                ) && patch == given && offset == face - patches[at].start_face)
                &&& asked->0 == "noSlip"@ ==> which == FlowField::Velocity && (
                found matches FaceBoundaryTreatment::FixedValue(value) && value
                    == FlowValue::AtRest)
                &&& asked->0 == "zeroGradient"@ ==> found is ZeroGradient
                &&& asked->0 == "empty"@ || asked->0 == "wedge"@ || asked->0 == "symmetryPlane"@
                    ==> found is Constraint
                &&& asked->0 == "fixedValue"@ || asked->0 == "noSlip"@ || asked->0
                    == "zeroGradient"@ || asked->0 == "empty"@ || asked->0 == "wedge"@ || asked->0
                    == "symmetryPlane"@
            }
        }),
{
    lemma_rule_ok(readings, which, field, loaded, patches, 0, at);
    lemma_face_rule(readings, which, field, loaded, patches, at, face);
    lemma_patch_named(field.boundary_patches, patches[at].name@, 0, given);
    reveal_strlit("fixedValue");
    reveal_strlit("noSlip");
    reveal_strlit("zeroGradient");
    reveal_strlit("empty");
    reveal_strlit("wedge");
    reveal_strlit("symmetryPlane");
    assert("fixedValue"@.len() == 10 && "noSlip"@.len() == 6 && "zeroGradient"@.len() == 12);
    assert("empty"@.len() == 5 && "wedge"@.len() == 5 && "symmetryPlane"@.len() == 13);
}

/// A field that has nothing for a patch of the mesh is refused.
pub proof fn missing_patch_is_refused(
    readings: Readings,
    which: FlowField,
    field: fields::FieldView,
    loaded: Seq<Option<usize>>,
    patches: Seq<SolverRuntimePatchRange>,
    at: int,
)
    requires
        0 <= at < patches.len(),
        forall|i: int|
            0 <= i < field.boundary_patches.len() ==> (#[trigger] field.boundary_patches[i]).name
                != patches[at].name@,
    ensures
        rules_checked(readings, which, field, loaded, patches, 0) is Err,
{
    lemma_unnamed(field.boundary_patches, patches[at].name@, 0);
    if rules_checked(readings, which, field, loaded, patches, 0) is Ok {
        lemma_rule_ok(readings, which, field, loaded, patches, 0, at);
    }
}

proof fn lemma_unnamed(patches: Seq<fields::PatchView>, name: Seq<char>, from: int)
    requires
        0 <= from,
        forall|i: int| from <= i < patches.len() ==> (#[trigger] patches[i]).name != name,
    ensures
        patch_named(patches, name, from) is None,
    decreases patches.len() - from,
{
    if from < patches.len() {
        lemma_unnamed(patches, name, from + 1);
    }
}

/// The fixed values of a patch are taken exactly where there is one number for
/// each component, or a list with so many for each face; the numbers are those of
/// the words of the value.
pub proof fn fixed_values_fit_their_patch(
    readings: Readings,
    label: Seq<char>,
    patch: fields::PatchView,
    loaded: Option<usize>,
    width: nat,
    faces: nat,
)
    ensures
        match fixed_of(readings, label, patch, loaded, width, faces) {
            Ok(FixedView::Uniform(numbers)) => patch.value matches Some(
                fields::ValueView::Uniform(value),
            ) && {
                let words = text::words(diffusion::unbracketed(value));
                &&& numbers.len() == width
                &&& words.len() == width
                &&& forall|i: int|
                    0 <= i < width ==> readings.number(#[trigger] words[i]) == Some(numbers[i])
            },
            Ok(FixedView::Listed) => patch.value matches Some(
                fields::ValueView::NonUniform { count, .. },
            ) && (count is None || count->0 == faces) && (loaded matches Some(scalars) && scalars
                == faces * width),
            Err(_) => match patch.value {
                Some(fields::ValueView::Uniform(value)) => {
                    let words = text::words(diffusion::unbracketed(value));
                    words.len() != width || exists|i: int|
                        0 <= i < words.len() && readings.number(#[trigger] words[i]) is None
                },
                Some(fields::ValueView::NonUniform { count, .. }) => (count is Some && count->0
                    != faces) || !(loaded matches Some(scalars) && scalars == faces * width),
                _ => true,
            },
        },
{
    if let Some(fields::ValueView::Uniform(value)) = patch.value {
        let words = text::words(diffusion::unbracketed(value));
        lemma_not_number(readings, words, 0);
    }
}

proof fn lemma_not_number(readings: Readings, tokens: Seq<Seq<char>>, from: int)
    requires
        0 <= from <= tokens.len(),
    ensures
        diffusion::not_number(readings, tokens, from) is None <==> forall|i: int|
            from <= i < tokens.len() ==> readings.number(#[trigger] tokens[i]) is Some,
    decreases tokens.len() - from,
{
    if from < tokens.len() {
        lemma_not_number(readings, tokens, from + 1);
        if readings.number(tokens[from]) is None {
            assert(!(readings.number(tokens[from]) is Some));
        }
    }
}

/// The correction of the pressure is zero where the pressure is fixed, and free or
/// constrained where the pressure is.
pub proof fn correction_vanishes_where_pressure_is_fixed<V>(
    treatment: FaceBoundaryTreatment<V>,
    zero: V,
)
    ensures
        treatment is FixedValue <==> corrected(treatment, zero) is FixedValue,
        corrected(treatment, zero) matches FaceBoundaryTreatment::FixedValue(value) ==> value
            == zero,
        treatment is ZeroGradient <==> corrected(treatment, zero) is ZeroGradient,
        treatment is Constraint <==> corrected(treatment, zero) is Constraint,
{
}

/// The array of a field is the first one outside all regions with its name and
/// width, and has a value for each cell.
pub proof fn array_is_that_of_the_field(
    buffers: Seq<SolverRuntimeFieldPlan>,
    cells: nat,
    name: Seq<char>,
    width: nat,
)
    ensures
        match buffer_of(buffers, cells, name, width) {
            Ok(at) => {
                &&& at < buffers.len()
                &&& buffers[at as int].region is None
                &&& buffers[at as int].name@ == name
                &&& buffers[at as int].components == width
                &&& buffers[at as int].values == cells * width
            },
            Err(_) => forall|i: int|
                0 <= i < buffers.len() && (#[trigger] buffers[i]).region is None && buffers[i].name@
                    == name && buffers[i].components == width && (forall|j: int|
                    0 <= j < i ==> !((#[trigger] buffers[j]).region is None && buffers[j].name@
                        == name && buffers[j].components == width)) ==> buffers[i].values != cells
                    * width,
        },
{
    lemma_buffer_named(buffers, name, width, 0);
}

proof fn lemma_buffer_named(
    buffers: Seq<SolverRuntimeFieldPlan>,
    name: Seq<char>,
    width: nat,
    from: int,
)
    requires
        0 <= from,
    ensures
        match buffer_named(buffers, name, width, from) {
            Some(at) => from <= at < buffers.len() && buffers[at as int].region is None
                && buffers[at as int].name@ == name && buffers[at as int].components == width
                && forall|j: int|
                from <= j < at ==> !((#[trigger] buffers[j]).region is None && buffers[j].name@
                    == name && buffers[j].components == width),
            None => forall|j: int|
                from <= j < buffers.len() ==> !((#[trigger] buffers[j]).region is None
                    && buffers[j].name@ == name && buffers[j].components == width),
        },
    decreases buffers.len() - from,
{
    if from < buffers.len() {
        lemma_buffer_named(buffers, name, width, from + 1);
    }
}

/// The field with a name is the first one outside all regions that has it, and has
/// the class that is wanted.
pub proof fn field_has_its_name_and_class(
    found: InitialFieldSet,
    name: Seq<char>,
    class_name: Seq<char>,
)
    ensures
        match field_of(found, name, class_name) {
            Ok(at) => {
                let field = found.fields@[at as int];
                &&& at < found.fields@.len()
                &&& field.region is None
                &&& field.name@ == name
                &&& text::opt_text(field.class_name) == Some(class_name)
                &&& forall|j: int|
                    0 <= j < at ==> (#[trigger] found.fields@[j]).region is Some
                        || found.fields@[j].name@ != name
            },
            Err(_) => forall|i: int|
                0 <= i < found.fields@.len() && (#[trigger] found.fields@[i]).region is None
                    && found.fields@[i].name@ == name && (forall|j: int|
                    0 <= j < i ==> (#[trigger] found.fields@[j]).region is Some
                        || found.fields@[j].name@ != name) ==> text::opt_text(
                    found.fields@[i].class_name,
                ) != Some(class_name),
        },
{
    lemma_field_named(found.fields@, name, 0);
}

proof fn lemma_field_named(found: Seq<FieldFile>, name: Seq<char>, from: int)
    requires
        0 <= from,
    ensures
        match field_named(found, name, from) {
            Some(at) => from <= at < found.len() && found[at as int].region is None
                && found[at as int].name@ == name && forall|j: int|
                from <= j < at ==> (#[trigger] found[j]).region is Some || found[j].name@ != name,
            None => forall|j: int|
                from <= j < found.len() ==> (#[trigger] found[j]).region is Some || found[j].name@
                    != name,
        },
    decreases found.len() - from,
{
    if from < found.len() {
        lemma_field_named(found, name, from + 1);
    }
}

} // verus!
