//! The plan of a solver run.

use crate::backends::BackendChoice;
use crate::control::ControlDict;
use crate::reals::Real;
use vstd::prelude::*;

verus! {

/// Everything that is known of a case before it is solved.
#[derive(Debug)]
pub struct SolverCasePlan {
    pub case_dir: String,
    pub control: ControlDict,
    pub mesh: SolverMeshPlan,
    pub fields: SolverFieldPlan,
    pub state: SolverStatePlan,
    pub runtime_data: SolverRuntimePlan,
    pub properties: SolverPropertiesPlan,
    pub numerics: SolverNumericsPlan,
    pub interfaces: SolverInterfacePlan,
    pub backends: SolverBackendPlan,
    pub run: SolverRunPlan,
    pub warnings: Vec<String>,
}

/// In how many directions the mesh extends.
#[derive(Debug)]
pub enum SolverDimensionality {
    ThreeD,
    Other(String),
}

/// The mesh of the case.
#[derive(Debug)]
pub struct SolverMeshPlan {
    pub points: usize,
    pub cells: usize,
    pub faces: usize,
    pub internal_faces: usize,
    pub boundary_faces: usize,
    pub patches: usize,
    pub empty_patches: usize,
    pub wedge_patches: usize,
    pub symmetry_patches: usize,
    pub dimensionality: SolverDimensionality,
    pub region_meshes: Vec<SolverRegionMeshPlan>,
}

/// The mesh of a region.
#[derive(Debug)]
pub struct SolverRegionMeshPlan {
    pub name: String,
    pub cells: usize,
    pub patches: usize,
}

/// The fields of the case.
#[derive(Debug)]
pub struct SolverFieldPlan {
    pub fields: Vec<SolverFieldEntryPlan>,
}

/// One field.
#[derive(Debug)]
pub struct SolverFieldEntryPlan {
    pub region: Option<String>,
    pub name: String,
    pub class_name: Option<String>,
    pub boundary_patches: usize,
}

/// What the solver will hold of the fields.
#[derive(Debug)]
pub struct SolverStatePlan {
    pub fields: Vec<SolverStateFieldPlan>,
    pub warnings: Vec<String>,
}

/// What kind of field this is.
#[derive(Debug)]
pub enum SolverStateFieldKind {
    VolScalar,
    VolVector,
    Other(String),
}

/// How the values of a field are given.
#[derive(Debug)]
pub enum SolverStateValueKind {
    Uniform,
    Other(String),
}

/// Whether the values of a field can be stored.
#[derive(Debug)]
pub enum SolverStateStorageStatus {
    Loaded,
    Other(String),
}

/// Whether a field can be laid out in memory.
#[derive(Debug)]
pub enum SolverStateCpuBufferStatus {
    UniformReady,
    Other(String),
}

/// What the solver will hold of one field.
#[derive(Debug)]
pub struct SolverStateFieldPlan {
    pub region: Option<String>,
    pub name: String,
    pub class_name: Option<String>,
    pub kind: SolverStateFieldKind,
    pub dimensions: Option<Vec<String>>,
    pub mesh_cells: Option<usize>,
    pub mesh_faces: Option<usize>,
    pub internal_field: SolverStateInternalFieldPlan,
    pub boundary_patches: usize,
    pub mesh_boundary_patches: Option<usize>,
    pub storage: SolverStateStoragePlan,
    pub cpu_buffer: SolverStateCpuBufferPlan,
}

/// The interior values of a field.
#[derive(Debug)]
pub struct SolverStateInternalFieldPlan {
    pub kind: SolverStateValueKind,
    pub value_count: Option<usize>,
    pub expected_count: Option<usize>,
    pub valid_count: Option<bool>,
    pub uniform_components: Option<Vec<Real>>,
    pub nonuniform_values: Option<Vec<Real>>,
}

/// The storage that a field needs.
#[derive(Debug)]
pub struct SolverStateStoragePlan {
    pub cpu_capable: bool,
    pub gpu_capable: bool,
    pub components: Option<usize>,
    pub scalar_slots: Option<usize>,
    pub bytes_f64: Option<usize>,
    pub status: SolverStateStorageStatus,
}

/// The memory layout of a field.
#[derive(Debug)]
pub struct SolverStateCpuBufferPlan {
    pub materializable: bool,
    pub scalar_slots: Option<usize>,
    pub bytes_f64: Option<usize>,
    pub status: SolverStateCpuBufferStatus,
}

/// The mesh and field arrays that the kernels work on, by their sizes.
#[derive(Debug)]
pub struct SolverRuntimePlan {
    pub mesh: SolverRuntimeMeshPlan,
    pub fields: Vec<SolverRuntimeFieldPlan>,
    pub warnings: Vec<String>,
}

/// The sizes of the mesh arrays.
#[derive(Debug)]
pub struct SolverRuntimeMeshPlan {
    pub points: usize,
    pub cells: usize,
    pub faces: usize,
    pub internal_faces: usize,
    pub boundary_faces: usize,
    pub owner_labels: usize,
    /// How many faces have a cell on their other side.
    pub neighbour_labels: usize,
    pub cell_centres: usize,
    pub face_centres: usize,
    pub face_area_vectors: usize,
    pub cell_volumes: usize,
    pub total_cell_volume: Real,
    pub min_cell_volume: Real,
    pub max_cell_volume: Real,
    pub min_face_area: Real,
    pub max_face_area: Real,
    pub non_positive_cell_volumes: usize,
    pub patches: Vec<SolverRuntimePatchRange>,
}

/// The faces of a patch: `faces` of them from `start_face` on.
#[derive(Debug)]
pub struct SolverRuntimePatchRange {
    pub name: String,
    pub patch_type: String,
    pub start_face: usize,
    pub faces: usize,
}

/// The size of a field array.
#[derive(Debug)]
pub struct SolverRuntimeFieldPlan {
    pub region: Option<String>,
    pub name: String,
    pub kind: SolverStateFieldKind,
    pub components: usize,
    pub scalar_slots: usize,
    pub bytes_f64: usize,
    pub values: usize,
}

/// The property dictionaries of the case, flattened.
#[derive(Debug)]
pub struct SolverPropertiesPlan {
    pub dictionaries: Vec<SolverPropertyDictionaryPlan>,
    pub entries: Vec<SolverPropertyEntryPlan>,
}

/// The size of a property dictionary.
#[derive(Debug)]
pub struct SolverPropertyDictionaryPlan {
    pub name: String,
    pub region: Option<String>,
    pub sections: usize,
    pub entries: usize,
}

/// One property.
#[derive(Debug)]
pub struct SolverPropertyEntryPlan {
    pub dictionary: String,
    pub section: Option<String>,
    pub key: String,
    pub value: String,
}

/// The numerics dictionaries of the case, flattened.
#[derive(Debug)]
pub struct SolverNumericsPlan {
    pub fv_schemes: SolverNumericsDictionaryPlan,
    pub fv_solution: SolverNumericsDictionaryPlan,
}

/// A numerics dictionary, flattened: sections by their dotted paths.
#[derive(Debug)]
pub struct SolverNumericsDictionaryPlan {
    pub present: bool,
    pub sections: Vec<SolverNumericsSectionPlan>,
    pub entries: Vec<SolverNumericsEntryPlan>,
}

/// The size of a section.
#[derive(Debug)]
pub struct SolverNumericsSectionPlan {
    pub path: String,
    pub entries: usize,
}

/// One entry of a section.
#[derive(Debug)]
pub struct SolverNumericsEntryPlan {
    pub section: String,
    pub key: String,
    pub value: String,
}

/// The interfaces between regions.
#[derive(Debug)]
pub struct SolverInterfacePlan {
    pub registry_available: bool,
    pub discovered_interfaces: usize,
    pub boundary_face_zones: usize,
    pub config_present: bool,
    pub configured_interfaces: usize,
}

/// The backends that will be used.
#[derive(Debug)]
pub struct SolverBackendPlan {
    pub config_present: bool,
    pub default: BackendChoice,
    pub uses_cpu: bool,
    pub uses_gpu: bool,
    pub mixed_execution: bool,
    pub cpu: SolverCpuResourcePlan,
    pub gpu: SolverGpuResourcePlan,
    pub stages: Vec<SolverBackendStagePlan>,
}

/// The processors that will be used.
#[derive(Debug)]
pub struct SolverCpuResourcePlan {
    pub cpus: String,
    pub cores_per_cpu: String,
    pub threads: String,
    pub thread_pinning: String,
    pub numa: String,
}

/// The graphics processors that will be used.
#[derive(Debug)]
pub struct SolverGpuResourcePlan {
    pub backend: String,
    pub devices: Vec<String>,
    pub multi_gpu: String,
    pub precision: String,
}

/// The backend of one step.
#[derive(Debug)]
pub struct SolverBackendStagePlan {
    pub section: String,
    pub step: String,
    pub choice: BackendChoice,
}

/// The time steps of the run.
#[derive(Debug)]
pub struct SolverRunPlan {
    pub stop_at: String,
    pub start_time: Option<Real>,
    pub end_time: Option<Real>,
    pub delta_t: Option<Real>,
    pub estimated_steps: Option<usize>,
    pub write_control: String,
    pub write_interval: Option<Real>,
    pub estimated_write_events: Option<usize>,
    pub stages: Vec<SolverRunStagePlan>,
}

/// One step of the run and where its backend was chosen.
#[derive(Debug)]
pub struct SolverRunStagePlan {
    pub section: String,
    pub step: String,
    pub choice: BackendChoice,
    pub source: String,
}

/// The word for the directions of a mesh.
pub open spec fn dimensionality_name(value: SolverDimensionality) -> Seq<char> {
    match value {
        SolverDimensionality::ThreeD => "3D"@,
        SolverDimensionality::Other(word) => word@,
    }
}

/// The word for a kind of field.
pub open spec fn field_kind_name(value: SolverStateFieldKind) -> Seq<char> {
    match value {
        SolverStateFieldKind::VolScalar => "vol-scalar"@,
        SolverStateFieldKind::VolVector => "vol-vector"@,
        SolverStateFieldKind::Other(word) => word@,
    }
}

/// The word for a way of giving values.
pub open spec fn value_kind_name(value: SolverStateValueKind) -> Seq<char> {
    match value {
        SolverStateValueKind::Uniform => "uniform"@,
        SolverStateValueKind::Other(word) => word@,
    }
}

/// The word for a storage status.
pub open spec fn storage_status_name(value: SolverStateStorageStatus) -> Seq<char> {
    match value {
        SolverStateStorageStatus::Loaded => "loaded"@,
        SolverStateStorageStatus::Other(word) => word@,
    }
}

/// The word for a buffer status.
pub open spec fn buffer_status_name(value: SolverStateCpuBufferStatus) -> Seq<char> {
    match value {
        SolverStateCpuBufferStatus::UniformReady => "uniform-ready"@,
        SolverStateCpuBufferStatus::Other(word) => word@,
    }
}

impl SolverDimensionality {
    /// The word for the directions of the mesh.
    pub fn to_string(&self) -> (name: String)
        ensures
            name@ == dimensionality_name(*self),
    {
        match self {
            SolverDimensionality::ThreeD => "3D".to_string(),
            SolverDimensionality::Other(word) => word.clone(),
        }
    }
}

impl SolverStateFieldKind {
    /// The word for the kind of field.
    pub fn to_string(&self) -> (name: String)
        ensures
            name@ == field_kind_name(*self),
    {
        match self {
            SolverStateFieldKind::VolScalar => "vol-scalar".to_string(),
            SolverStateFieldKind::VolVector => "vol-vector".to_string(),
            SolverStateFieldKind::Other(word) => word.clone(),
        }
    }
}

impl SolverStateValueKind {
    /// The word for the way of giving values.
    pub fn to_string(&self) -> (name: String)
        ensures
            name@ == value_kind_name(*self),
    {
        match self {
            SolverStateValueKind::Uniform => "uniform".to_string(),
            SolverStateValueKind::Other(word) => word.clone(),
        }
    }
}

impl SolverStateStorageStatus {
    /// The word for the status.
    pub fn to_string(&self) -> (name: String)
        ensures
            name@ == storage_status_name(*self),
    {
        match self {
            SolverStateStorageStatus::Loaded => "loaded".to_string(),
            SolverStateStorageStatus::Other(word) => word.clone(),
        }
    }
}

impl SolverStateCpuBufferStatus {
    /// The word for the status.
    pub fn to_string(&self) -> (name: String)
        ensures
            name@ == buffer_status_name(*self),
    {
        match self {
            SolverStateCpuBufferStatus::UniformReady => "uniform-ready".to_string(),
            SolverStateCpuBufferStatus::Other(word) => word.clone(),
        }
    }
}

/// How many numbers have been loaded.
pub open spec fn loaded(values: Option<Vec<Real>>) -> Option<usize> {
    match values {
        Some(found) => Some(found@.len() as usize),
        None => None,
    }
}

/// How many numbers have been loaded.
pub fn loaded_count(values: &Option<Vec<Real>>) -> (count: Option<usize>)
    ensures
        count == loaded(*values),
{
    match values {
        Some(found) => Some(found.len()),
        None => None,
    }
}

} // verus!
