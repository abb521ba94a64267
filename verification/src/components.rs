//! Vector fields by their components.

use crate::diffusion::FaceBoundaryTreatment;
use crate::error;
use crate::error::{Failure, MeshError};
use vstd::prelude::*;

verus! {

/// A direction in space.
#[derive(Clone, Copy, Debug, Eq, PartialEq, Structural)]
pub enum Component {
    X,
    Y,
    Z,
}

/// A component of a vector.
pub open spec fn part<T>(value: (T, T, T), component: Component) -> T {
    match component {
        Component::X => value.0,
        Component::Y => value.1,
        Component::Z => value.2,
    }
}

/// The name of a component of the velocity.
pub open spec fn name_of(component: Component) -> Seq<char> {
    match component {
        Component::X => "Ux"@,
        Component::Y => "Uy"@,
        Component::Z => "Uz"@,
    }
}

/// A component of every vector.
pub open spec fn parts<T>(values: Seq<(T, T, T)>, component: Component) -> Seq<T> {
    Seq::new(values.len(), |i: int| part(values[i], component))
}

/// The vectors of three lists of components, as many as the shortest list has.
pub open spec fn vectors<T>(x: Seq<T>, y: Seq<T>, z: Seq<T>) -> Seq<(T, T, T)> {
    let n = if x.len() <= y.len() && x.len() <= z.len() {
        x.len()
    } else if y.len() <= z.len() {
        y.len()
    } else {
        z.len()
    };
    Seq::new(n, |i: int| (x[i], y[i], z[i]))
}

/// A component of the values of a boundary treatment.
pub open spec fn treatment_part<T>(
    treatment: FaceBoundaryTreatment<(T, T, T)>,
    component: Component,
) -> FaceBoundaryTreatment<T> {
    match treatment {
        FaceBoundaryTreatment::FixedValue(value) => FaceBoundaryTreatment::FixedValue(
            part(value, component),
        ),
        FaceBoundaryTreatment::ZeroGradient => FaceBoundaryTreatment::ZeroGradient,
        FaceBoundaryTreatment::Constraint => FaceBoundaryTreatment::Constraint,
    }
}

/// Vectors that are taken apart and put together again are as before.
pub proof fn components_make_up_vectors<T>(values: Seq<(T, T, T)>)
    ensures
        vectors(
            parts(values, Component::X),
            parts(values, Component::Y),
            parts(values, Component::Z),
        ) == values,
{
    assert(vectors(
        parts(values, Component::X),
        parts(values, Component::Y),
        parts(values, Component::Z),
    ) =~= values);
}

/// Components of one length that are put together and taken apart again are as
/// before.
pub proof fn vectors_keep_components<T>(x: Seq<T>, y: Seq<T>, z: Seq<T>)
    requires
        x.len() == y.len(),
        y.len() == z.len(),
    ensures
        parts(vectors(x, y, z), Component::X) == x,
        parts(vectors(x, y, z), Component::Y) == y,
        parts(vectors(x, y, z), Component::Z) == z,
{
    assert(parts(vectors(x, y, z), Component::X) =~= x);
    assert(parts(vectors(x, y, z), Component::Y) =~= y);
    assert(parts(vectors(x, y, z), Component::Z) =~= z);
}

/// The name of a component of the velocity.
pub fn component_name(component: Component) -> (name: &'static str)
    ensures
        name@ == name_of(component),
{
    match component {
        Component::X => "Ux",
        Component::Y => "Uy",
        Component::Z => "Uz",
    }
}

/// A component of a vector.
pub fn component_value<T: Copy>(value: (T, T, T), component: Component) -> (found: T)
    ensures
        found == part(value, component),
{
    match component {
        Component::X => value.0,
        Component::Y => value.1,
        Component::Z => value.2,
    }
}

/// The components of vectors: the first of each, the second and the third.
pub fn split_components<T: Copy>(values: &Vec<(T, T, T)>) -> (found: (Vec<T>, Vec<T>, Vec<T>))
    ensures
        found.0@ == parts(values@, Component::X),
        found.1@ == parts(values@, Component::Y),
        found.2@ == parts(values@, Component::Z),
{
    let mut x: Vec<T> = Vec::new();
    let mut y: Vec<T> = Vec::new();
    let mut z: Vec<T> = Vec::new();
    let mut at: usize = 0;
    while at < values.len()
        invariant
            at <= values@.len(),
            x@ == parts(values@.take(at as int), Component::X),
            y@ == parts(values@.take(at as int), Component::Y),
            z@ == parts(values@.take(at as int), Component::Z),
        decreases values@.len() - at,
    {
        let value: (T, T, T) = values[at];
        x.push(value.0);
        y.push(value.1);
        z.push(value.2);
        at += 1;
        assert(x@ =~= parts(values@.take(at as int), Component::X));
        assert(y@ =~= parts(values@.take(at as int), Component::Y));
        assert(z@ =~= parts(values@.take(at as int), Component::Z));
    }
    assert(values@.take(at as int) =~= values@);
    (x, y, z)
}

/// The vectors of three lists of components.
pub fn combine_components<T: Copy>(x: &Vec<T>, y: &Vec<T>, z: &Vec<T>) -> (values: Vec<(T, T, T)>)
    ensures
        values@ == vectors(x@, y@, z@),
{
    let mut values: Vec<(T, T, T)> = Vec::new();
    let mut at: usize = 0;
    while at < x.len() && at < y.len() && at < z.len()
        invariant
            at <= x@.len(),
            at <= y@.len(),
            at <= z@.len(),
            values@.len() == at,
            forall|i: int| 0 <= i < at ==> #[trigger] values@[i] == (x@[i], y@[i], z@[i]),
        decreases x@.len() - at,
    {
        values.push((x[at], y[at], z[at]));
        at += 1;
    }
    assert(values@ =~= vectors(x@, y@, z@));
    values
}

/// The boundary treatments of a component of a vector field.
pub fn scalar_component_boundary<T: Copy>(
    boundary: &Vec<FaceBoundaryTreatment<(T, T, T)>>,
    component: Component,
) -> (found: Vec<FaceBoundaryTreatment<T>>)
    ensures
        found@.len() == boundary@.len(),
        forall|i: int|
            0 <= i < boundary@.len() ==> #[trigger] found@[i] == treatment_part(
                boundary@[i],
                component,
            ),
{
    let mut found: Vec<FaceBoundaryTreatment<T>> = Vec::new();
    let mut at: usize = 0;
    while at < boundary.len()
        invariant
            at <= boundary@.len(),
            found@.len() == at,
            forall|i: int|
                0 <= i < at ==> #[trigger] found@[i] == treatment_part(boundary@[i], component),
        decreases boundary@.len() - at,
    {
        found.push(
            match boundary[at] {
                FaceBoundaryTreatment::FixedValue(value) => FaceBoundaryTreatment::FixedValue(
                    component_value(value, component),
                ),
                FaceBoundaryTreatment::ZeroGradient => FaceBoundaryTreatment::ZeroGradient,
                FaceBoundaryTreatment::Constraint => FaceBoundaryTreatment::Constraint,
            },
        );
        at += 1;
    }
    found
}

/// The failure of the solve of a component of the momentum.
pub fn momentum_failure(component: Component, reason: &MeshError) -> (failure: MeshError)
    ensures
        failure@ == Failure::InvalidInput(
            "laminar SIMPLE momentum component "@ + name_of(component) + " solve failed: "@
                + error::failure_text(reason@),
        ),
{
    let mut message = "laminar SIMPLE momentum component ".to_string();
    message.append(component_name(component));
    message.append(" solve failed: ");
    message.append(reason.to_string().as_str());
    MeshError::InvalidInput(message)
}

} // verus!
