//! The JSON form of the plan of a solver run.

use crate::backends;
use crate::control::ControlDict;
use crate::fields;
use crate::json;
use crate::json::JsonObject;
use crate::layout;
use crate::plan;
use crate::plan::{
    SolverBackendPlan, SolverBackendStagePlan, SolverCasePlan, SolverCpuResourcePlan,
    SolverFieldEntryPlan, SolverFieldPlan, SolverGpuResourcePlan, SolverInterfacePlan,
    SolverMeshPlan, SolverNumericsDictionaryPlan, SolverNumericsEntryPlan, SolverNumericsPlan,
    SolverNumericsSectionPlan, SolverPropertiesPlan, SolverPropertyDictionaryPlan,
    SolverPropertyEntryPlan, SolverRegionMeshPlan, SolverRunPlan, SolverRunStagePlan,
    SolverRuntimeFieldPlan, SolverRuntimeMeshPlan, SolverRuntimePatchRange, SolverRuntimePlan,
    SolverStateCpuBufferPlan, SolverStateFieldPlan, SolverStateInternalFieldPlan, SolverStatePlan,
    SolverStateStoragePlan,
};
use crate::reals;
use crate::reals::Real;
use crate::text;
use vstd::prelude::*;

verus! {

/// The run control.
pub open spec fn control_json(control: ControlDict) -> Seq<char> {
    json::object(
        2,
        Seq::empty()
            .push(("application"@, json::string(control.application@)))
            .push(("startFrom"@, json::string(control.start_from@)))
            .push(("startTime"@, json::opt_number(reals::opt_real(control.start_time))))
            .push(("stopAt"@, json::string(control.stop_at@)))
            .push(("endTime"@, json::opt_number(reals::opt_real(control.end_time))))
            .push(("deltaT"@, json::opt_number(reals::opt_real(control.delta_t))))
            .push(("writeControl"@, json::string(control.write_control@)))
            .push(("writeInterval"@, json::opt_number(reals::opt_real(control.write_interval)))),
    )
}

fn control_text(control: &ControlDict) -> (out: String)
    ensures
        out@ == control_json(*control),
{
    let mut object = JsonObject::new();
    object.string("application", control.application.as_str());
    object.string("startFrom", control.start_from.as_str());
    object.opt_number("startTime", &control.start_time);
    object.string("stopAt", control.stop_at.as_str());
    object.opt_number("endTime", &control.end_time);
    object.opt_number("deltaT", &control.delta_t);
    object.string("writeControl", control.write_control.as_str());
    object.opt_number("writeInterval", &control.write_interval);
    object.render(2)
}

/// The mesh of a region.
pub open spec fn region_mesh_json(region: SolverRegionMeshPlan) -> Seq<char> {
    json::object(
        6,
        Seq::empty()
            .push(("name"@, json::string(region.name@)))
            .push(("cells"@, text::decimal(region.cells as nat)))
            .push(("patches"@, text::decimal(region.patches as nat))),
    )
}

fn region_mesh_text(region: &SolverRegionMeshPlan) -> (out: String)
    ensures
        out@ == region_mesh_json(*region),
{
    let mut object = JsonObject::new();
    object.string("name", region.name.as_str());
    object.count("cells", region.cells);
    object.count("patches", region.patches);
    object.render(6)
}

/// The meshes of the regions.
pub open spec fn region_mesh_items(regions: Seq<SolverRegionMeshPlan>) -> Seq<Seq<char>> {
    Seq::new(regions.len(), |i: int| region_mesh_json(regions[i]))
}

fn region_mesh_texts(regions: &Vec<SolverRegionMeshPlan>) -> (out: Vec<String>)
    ensures
        text::texts(out@) == region_mesh_items(regions@),
{
    let lines = layout::listed(regions, region_mesh_text);
    assert(lines@ =~= region_mesh_items(regions@));
    lines.into_parts()
}

/// The mesh.
pub open spec fn mesh_json(mesh: SolverMeshPlan) -> Seq<char> {
    json::object(
        2,
        Seq::empty()
            .push(("dimensionality"@, json::string(plan::dimensionality_name(mesh.dimensionality))))
            .push(("points"@, text::decimal(mesh.points as nat)))
            .push(("cells"@, text::decimal(mesh.cells as nat)))
            .push(("faces"@, text::decimal(mesh.faces as nat)))
            .push(("internalFaces"@, text::decimal(mesh.internal_faces as nat)))
            .push(("boundaryFaces"@, text::decimal(mesh.boundary_faces as nat)))
            .push(("patches"@, text::decimal(mesh.patches as nat)))
            .push(("emptyPatches"@, text::decimal(mesh.empty_patches as nat)))
            .push(("wedgePatches"@, text::decimal(mesh.wedge_patches as nat)))
            .push(("symmetryPatches"@, text::decimal(mesh.symmetry_patches as nat)))
            .push(("regionMeshes"@, json::listing(4, region_mesh_items(mesh.region_meshes@)))),
    )
}

fn mesh_text(mesh: &SolverMeshPlan) -> (out: String)
    ensures
        out@ == mesh_json(*mesh),
{
    let mut object = JsonObject::new();
    object.put("dimensionality", json::string_text(mesh.dimensionality.to_string().as_str()));
    object.count("points", mesh.points);
    object.count("cells", mesh.cells);
    object.count("faces", mesh.faces);
    object.count("internalFaces", mesh.internal_faces);
    object.count("boundaryFaces", mesh.boundary_faces);
    object.count("patches", mesh.patches);
    object.count("emptyPatches", mesh.empty_patches);
    object.count("wedgePatches", mesh.wedge_patches);
    object.count("symmetryPatches", mesh.symmetry_patches);
    object.put("regionMeshes", json::listing_text(4, &region_mesh_texts(&mesh.region_meshes)));
    object.render(2)
}

/// A field.
pub open spec fn field_entry_json(field: SolverFieldEntryPlan) -> Seq<char> {
    json::object(
        4,
        Seq::empty()
            .push(("region"@, json::opt_string(text::opt_text(field.region))))
            .push(("name"@, json::string(field.name@)))
            .push(("className"@, json::opt_string(text::opt_text(field.class_name))))
            .push(("boundaryPatches"@, text::decimal(field.boundary_patches as nat))),
    )
}

fn field_entry_text(field: &SolverFieldEntryPlan) -> (out: String)
    ensures
        out@ == field_entry_json(*field),
{
    let mut object = JsonObject::new();
    object.opt_string("region", &field.region);
    object.string("name", field.name.as_str());
    object.opt_string("className", &field.class_name);
    object.count("boundaryPatches", field.boundary_patches);
    object.render(4)
}

/// The fields.
pub open spec fn field_entry_items(fields: Seq<SolverFieldEntryPlan>) -> Seq<Seq<char>> {
    Seq::new(fields.len(), |i: int| field_entry_json(fields[i]))
}

fn field_entry_texts(fields: &Vec<SolverFieldEntryPlan>) -> (out: Vec<String>)
    ensures
        text::texts(out@) == field_entry_items(fields@),
{
    let lines = layout::listed(fields, field_entry_text);
    assert(lines@ =~= field_entry_items(fields@));
    lines.into_parts()
}

/// The fields.
pub open spec fn fields_json(plan: SolverFieldPlan) -> Seq<char> {
    json::listing(2, field_entry_items(plan.fields@))
}

fn fields_text(plan: &SolverFieldPlan) -> (out: String)
    ensures
        out@ == fields_json(*plan),
{
    json::listing_text(2, &field_entry_texts(&plan.fields))
}

/// The dimensions of a field, or `null`.
pub open spec fn dimensions_json(dimensions: Option<Vec<String>>) -> Seq<char> {
    match fields::opt_texts(dimensions) {
        Some(found) => json::strings(found),
        None => "null"@,
    }
}

fn dimensions_text(dimensions: &Option<Vec<String>>) -> (out: String)
    ensures
        out@ == dimensions_json(*dimensions),
{
    match dimensions {
        Some(found) => json::strings_text(found),
        None => "null".to_string(),
    }
}

/// The numbers of a uniform value, or `null`.
pub open spec fn components_json(components: Option<Vec<Real>>) -> Seq<char> {
    match components {
        Some(found) => json::numbers(reals::real_views(found@)),
        None => "null"@,
    }
}

fn components_text(components: &Option<Vec<Real>>) -> (out: String)
    ensures
        out@ == components_json(*components),
{
    match components {
        Some(found) => json::numbers_text(found.as_slice()),
        None => "null".to_string(),
    }
}

/// The interior values of a field.
pub open spec fn internal_field_json(field: SolverStateInternalFieldPlan) -> Seq<char> {
    json::object(
        8,
        Seq::empty()
            .push(("kind"@, json::string(plan::value_kind_name(field.kind))))
            .push(("valueCount"@, json::opt_count(field.value_count)))
            .push(("expectedCount"@, json::opt_count(field.expected_count)))
            .push(("validCount"@, json::opt_flag(field.valid_count)))
            .push(("uniformComponents"@, components_json(field.uniform_components)))
            .push(("loadedScalars"@, json::opt_count(plan::loaded(field.nonuniform_values)))),
    )
}

fn internal_field_text(field: &SolverStateInternalFieldPlan) -> (out: String)
    ensures
        out@ == internal_field_json(*field),
{
    let mut object = JsonObject::new();
    object.put("kind", json::string_text(field.kind.to_string().as_str()));
    object.opt_count("valueCount", field.value_count);
    object.opt_count("expectedCount", field.expected_count);
    object.opt_flag("validCount", field.valid_count);
    object.put("uniformComponents", components_text(&field.uniform_components));
    object.put("loadedScalars", json::opt_count_text(plan::loaded_count(&field.nonuniform_values)));
    object.render(8)
}

/// The storage of a field.
pub open spec fn storage_json(storage: SolverStateStoragePlan) -> Seq<char> {
    json::object(
        8,
        Seq::empty()
            .push(("cpuCapable"@, text::bool_text(storage.cpu_capable)))
            .push(("gpuCapable"@, text::bool_text(storage.gpu_capable)))
            .push(("components"@, json::opt_count(storage.components)))
            .push(("scalarSlots"@, json::opt_count(storage.scalar_slots)))
            .push(("bytesF64"@, json::opt_count(storage.bytes_f64)))
            .push(("status"@, json::string(plan::storage_status_name(storage.status)))),
    )
}

fn storage_text(storage: &SolverStateStoragePlan) -> (out: String)
    ensures
        out@ == storage_json(*storage),
{
    let mut object = JsonObject::new();
    object.flag("cpuCapable", storage.cpu_capable);
    object.flag("gpuCapable", storage.gpu_capable);
    object.opt_count("components", storage.components);
    object.opt_count("scalarSlots", storage.scalar_slots);
    object.opt_count("bytesF64", storage.bytes_f64);
    object.put("status", json::string_text(storage.status.to_string().as_str()));
    object.render(8)
}

/// The memory layout of a field.
pub open spec fn buffer_json(buffer: SolverStateCpuBufferPlan) -> Seq<char> {
    json::object(
        8,
        Seq::empty()
            .push(("materializable"@, text::bool_text(buffer.materializable)))
            .push(("scalarSlots"@, json::opt_count(buffer.scalar_slots)))
            .push(("bytesF64"@, json::opt_count(buffer.bytes_f64)))
            .push(("status"@, json::string(plan::buffer_status_name(buffer.status)))),
    )
}

fn buffer_text(buffer: &SolverStateCpuBufferPlan) -> (out: String)
    ensures
        out@ == buffer_json(*buffer),
{
    let mut object = JsonObject::new();
    object.flag("materializable", buffer.materializable);
    object.opt_count("scalarSlots", buffer.scalar_slots);
    object.opt_count("bytesF64", buffer.bytes_f64);
    object.put("status", json::string_text(buffer.status.to_string().as_str()));
    object.render(8)
}

/// What the solver will hold of a field.
pub open spec fn state_field_json(field: SolverStateFieldPlan) -> Seq<char> {
    json::object(
        6,
        Seq::empty()
            .push(("region"@, json::opt_string(text::opt_text(field.region))))
            .push(("name"@, json::string(field.name@)))
            .push(("className"@, json::opt_string(text::opt_text(field.class_name))))
            .push(("kind"@, json::string(plan::field_kind_name(field.kind))))
            .push(("dimensions"@, dimensions_json(field.dimensions)))
            .push(("meshCells"@, json::opt_count(field.mesh_cells)))
            .push(("meshFaces"@, json::opt_count(field.mesh_faces)))
            .push(("internalField"@, internal_field_json(field.internal_field)))
            .push(("boundaryPatches"@, text::decimal(field.boundary_patches as nat)))
            .push(("meshBoundaryPatches"@, json::opt_count(field.mesh_boundary_patches)))
            .push(("storage"@, storage_json(field.storage)))
            .push(("cpuBuffer"@, buffer_json(field.cpu_buffer))),
    )
}

fn state_field_text(field: &SolverStateFieldPlan) -> (out: String)
    ensures
        out@ == state_field_json(*field),
{
    let mut object = JsonObject::new();
    object.opt_string("region", &field.region);
    object.string("name", field.name.as_str());
    object.opt_string("className", &field.class_name);
    object.put("kind", json::string_text(field.kind.to_string().as_str()));
    object.put("dimensions", dimensions_text(&field.dimensions));
    object.opt_count("meshCells", field.mesh_cells);
    object.opt_count("meshFaces", field.mesh_faces);
    object.put("internalField", internal_field_text(&field.internal_field));
    object.count("boundaryPatches", field.boundary_patches);
    object.opt_count("meshBoundaryPatches", field.mesh_boundary_patches);
    object.put("storage", storage_text(&field.storage));
    object.put("cpuBuffer", buffer_text(&field.cpu_buffer));
    object.render(6)
}

/// What the solver will hold of the fields.
pub open spec fn state_field_items(fields: Seq<SolverStateFieldPlan>) -> Seq<Seq<char>> {
    Seq::new(fields.len(), |i: int| state_field_json(fields[i]))
}

fn state_field_texts(fields: &Vec<SolverStateFieldPlan>) -> (out: Vec<String>)
    ensures
        text::texts(out@) == state_field_items(fields@),
{
    let lines = layout::listed(fields, state_field_text);
    assert(lines@ =~= state_field_items(fields@));
    lines.into_parts()
}

/// The state.
pub open spec fn state_json(state: SolverStatePlan) -> Seq<char> {
    json::object(
        2,
        Seq::empty()
            .push(("fields"@, json::listing(4, state_field_items(state.fields@))))
            .push(("warnings"@, json::strings(text::texts(state.warnings@)))),
    )
}

fn state_text(state: &SolverStatePlan) -> (out: String)
    ensures
        out@ == state_json(*state),
{
    let mut object = JsonObject::new();
    object.put("fields", json::listing_text(4, &state_field_texts(&state.fields)));
    object.put("warnings", json::strings_text(&state.warnings));
    object.render(2)
}

/// Appends the member `state` of a plan.
pub fn write_json_solver_state(out: &mut String, state: &SolverStatePlan)
    ensures
        final(out)@ == old(out)@ + (json::key(2, "state"@) + state_json(*state)),
{
    let mut member = json::blank_text(2);
    member.append(json::string_text("state").as_str());
    member.append(": ");
    member.append(state_text(state).as_str());
    out.append(member.as_str());
}

/// The faces of a patch.
pub open spec fn patch_range_json(patch: SolverRuntimePatchRange) -> Seq<char> {
    json::object(
        8,
        Seq::empty()
            .push(("name"@, json::string(patch.name@)))
            .push(("type"@, json::string(patch.patch_type@)))
            .push(("startFace"@, text::decimal(patch.start_face as nat)))
            .push(("faces"@, text::decimal(patch.faces as nat))),
    )
}

fn patch_range_text(patch: &SolverRuntimePatchRange) -> (out: String)
    ensures
        out@ == patch_range_json(*patch),
{
    let mut object = JsonObject::new();
    object.string("name", patch.name.as_str());
    object.string("type", patch.patch_type.as_str());
    object.count("startFace", patch.start_face);
    object.count("faces", patch.faces);
    object.render(8)
}

/// The faces of the patches.
pub open spec fn patch_range_items(patches: Seq<SolverRuntimePatchRange>) -> Seq<Seq<char>> {
    Seq::new(patches.len(), |i: int| patch_range_json(patches[i]))
}

fn patch_range_texts(patches: &Vec<SolverRuntimePatchRange>) -> (out: Vec<String>)
    ensures
        text::texts(out@) == patch_range_items(patches@),
{
    let lines = layout::listed(patches, patch_range_text);
    assert(lines@ =~= patch_range_items(patches@));
    lines.into_parts()
}

/// The mesh arrays.
pub open spec fn runtime_mesh_json(mesh: SolverRuntimeMeshPlan) -> Seq<char> {
    json::object(
        4,
        Seq::empty()
            .push(("points"@, text::decimal(mesh.points as nat)))
            .push(("cells"@, text::decimal(mesh.cells as nat)))
            .push(("faces"@, text::decimal(mesh.faces as nat)))
            .push(("internalFaces"@, text::decimal(mesh.internal_faces as nat)))
            .push(("boundaryFaces"@, text::decimal(mesh.boundary_faces as nat)))
            .push(("ownerLabels"@, text::decimal(mesh.owner_labels as nat)))
            .push(("neighbourLabels"@, text::decimal(mesh.neighbour_labels as nat)))
            .push(("cellCentres"@, text::decimal(mesh.cell_centres as nat)))
            .push(("faceCentres"@, text::decimal(mesh.face_centres as nat)))
            .push(("faceAreaVectors"@, text::decimal(mesh.face_area_vectors as nat)))
            .push(("cellVolumes"@, text::decimal(mesh.cell_volumes as nat)))
            .push(("totalCellVolume"@, json::number(mesh.total_cell_volume@)))
            .push(("minCellVolume"@, json::number(mesh.min_cell_volume@)))
            .push(("maxCellVolume"@, json::number(mesh.max_cell_volume@)))
            .push(("minFaceArea"@, json::number(mesh.min_face_area@)))
            .push(("maxFaceArea"@, json::number(mesh.max_face_area@)))
            .push(("nonPositiveCellVolumes"@, text::decimal(mesh.non_positive_cell_volumes as nat)))
            .push(("patches"@, json::listing(6, patch_range_items(mesh.patches@)))),
    )
}

fn runtime_mesh_text(mesh: &SolverRuntimeMeshPlan) -> (out: String)
    ensures
        out@ == runtime_mesh_json(*mesh),
{
    let mut object = JsonObject::new();
    object.count("points", mesh.points);
    object.count("cells", mesh.cells);
    object.count("faces", mesh.faces);
    object.count("internalFaces", mesh.internal_faces);
    object.count("boundaryFaces", mesh.boundary_faces);
    object.count("ownerLabels", mesh.owner_labels);
    object.count("neighbourLabels", mesh.neighbour_labels);
    object.count("cellCentres", mesh.cell_centres);
    object.count("faceCentres", mesh.face_centres);
    object.count("faceAreaVectors", mesh.face_area_vectors);
    object.count("cellVolumes", mesh.cell_volumes);
    object.number("totalCellVolume", &mesh.total_cell_volume);
    object.number("minCellVolume", &mesh.min_cell_volume);
    object.number("maxCellVolume", &mesh.max_cell_volume);
    object.number("minFaceArea", &mesh.min_face_area);
    object.number("maxFaceArea", &mesh.max_face_area);
    object.count("nonPositiveCellVolumes", mesh.non_positive_cell_volumes);
    object.put("patches", json::listing_text(6, &patch_range_texts(&mesh.patches)));
    object.render(4)
}

/// A field array.
pub open spec fn runtime_field_json(field: SolverRuntimeFieldPlan) -> Seq<char> {
    json::object(
        6,
        Seq::empty()
            .push(("region"@, json::opt_string(text::opt_text(field.region))))
            .push(("name"@, json::string(field.name@)))
            .push(("kind"@, json::string(plan::field_kind_name(field.kind))))
            .push(("components"@, text::decimal(field.components as nat)))
            .push(("scalarSlots"@, text::decimal(field.scalar_slots as nat)))
            .push(("bytesF64"@, text::decimal(field.bytes_f64 as nat))),
    )
}

fn runtime_field_text(field: &SolverRuntimeFieldPlan) -> (out: String)
    ensures
        out@ == runtime_field_json(*field),
{
    let mut object = JsonObject::new();
    object.opt_string("region", &field.region);
    object.string("name", field.name.as_str());
    object.put("kind", json::string_text(field.kind.to_string().as_str()));
    object.count("components", field.components);
    object.count("scalarSlots", field.scalar_slots);
    object.count("bytesF64", field.bytes_f64);
    object.render(6)
}

/// The field arrays.
pub open spec fn runtime_field_items(fields: Seq<SolverRuntimeFieldPlan>) -> Seq<Seq<char>> {
    Seq::new(fields.len(), |i: int| runtime_field_json(fields[i]))
}

fn runtime_field_texts(fields: &Vec<SolverRuntimeFieldPlan>) -> (out: Vec<String>)
    ensures
        text::texts(out@) == runtime_field_items(fields@),
{
    let lines = layout::listed(fields, runtime_field_text);
    assert(lines@ =~= runtime_field_items(fields@));
    lines.into_parts()
}

/// The mesh and field arrays.
pub open spec fn runtime_json(runtime: SolverRuntimePlan) -> Seq<char> {
    json::object(
        2,
        Seq::empty()
            .push(("mesh"@, runtime_mesh_json(runtime.mesh)))
            .push(("fields"@, json::listing(4, runtime_field_items(runtime.fields@))))
            .push(("warnings"@, json::strings(text::texts(runtime.warnings@)))),
    )
}

fn runtime_text(runtime: &SolverRuntimePlan) -> (out: String)
    ensures
        out@ == runtime_json(*runtime),
{
    let mut object = JsonObject::new();
    object.put("mesh", runtime_mesh_text(&runtime.mesh));
    object.put("fields", json::listing_text(4, &runtime_field_texts(&runtime.fields)));
    object.put("warnings", json::strings_text(&runtime.warnings));
    object.render(2)
}

/// The size of a property dictionary.
pub open spec fn property_dictionary_json(dictionary: SolverPropertyDictionaryPlan) -> Seq<char> {
    json::object(
        6,
        Seq::empty()
            .push(("name"@, json::string(dictionary.name@)))
            .push(("region"@, json::opt_string(text::opt_text(dictionary.region))))
            .push(("sections"@, text::decimal(dictionary.sections as nat)))
            .push(("entries"@, text::decimal(dictionary.entries as nat))),
    )
}

fn property_dictionary_text(dictionary: &SolverPropertyDictionaryPlan) -> (out: String)
    ensures
        out@ == property_dictionary_json(*dictionary),
{
    let mut object = JsonObject::new();
    object.string("name", dictionary.name.as_str());
    object.opt_string("region", &dictionary.region);
    object.count("sections", dictionary.sections);
    object.count("entries", dictionary.entries);
    object.render(6)
}

/// The sizes of the property dictionaries.
pub open spec fn property_dictionary_items(dictionaries: Seq<SolverPropertyDictionaryPlan>) -> Seq<Seq<char>> {
    Seq::new(dictionaries.len(), |i: int| property_dictionary_json(dictionaries[i]))
}

fn property_dictionary_texts(dictionaries: &Vec<SolverPropertyDictionaryPlan>) -> (out: Vec<String>)
    ensures
        text::texts(out@) == property_dictionary_items(dictionaries@),
{
    let lines = layout::listed(dictionaries, property_dictionary_text);
    assert(lines@ =~= property_dictionary_items(dictionaries@));
    lines.into_parts()
}

/// A property.
pub open spec fn property_entry_json(entry: SolverPropertyEntryPlan) -> Seq<char> {
    json::object(
        6,
        Seq::empty()
            .push(("dictionary"@, json::string(entry.dictionary@)))
            .push(("section"@, json::opt_string(text::opt_text(entry.section))))
            .push(("key"@, json::string(entry.key@)))
            .push(("value"@, json::string(entry.value@))),
    )
}

fn property_entry_text(entry: &SolverPropertyEntryPlan) -> (out: String)
    ensures
        out@ == property_entry_json(*entry),
{
    let mut object = JsonObject::new();
    object.string("dictionary", entry.dictionary.as_str());
    object.opt_string("section", &entry.section);
    object.string("key", entry.key.as_str());
    object.string("value", entry.value.as_str());
    object.render(6)
}

/// The properties.
pub open spec fn property_entry_items(entries: Seq<SolverPropertyEntryPlan>) -> Seq<Seq<char>> {
    Seq::new(entries.len(), |i: int| property_entry_json(entries[i]))
}

fn property_entry_texts(entries: &Vec<SolverPropertyEntryPlan>) -> (out: Vec<String>)
    ensures
        text::texts(out@) == property_entry_items(entries@),
{
    let lines = layout::listed(entries, property_entry_text);
    assert(lines@ =~= property_entry_items(entries@));
    lines.into_parts()
}

/// The property dictionaries.
pub open spec fn properties_json(properties: SolverPropertiesPlan) -> Seq<char> {
    json::object(
        2,
        Seq::empty()
            .push(
                (
                    "dictionaries"@,
                    json::listing(4, property_dictionary_items(properties.dictionaries@)),
                ),
            )
            .push(("entries"@, json::listing(4, property_entry_items(properties.entries@)))),
    )
}

fn properties_text(properties: &SolverPropertiesPlan) -> (out: String)
    ensures
        out@ == properties_json(*properties),
{
    let mut object = JsonObject::new();
    object.put(
        "dictionaries",
        json::listing_text(4, &property_dictionary_texts(&properties.dictionaries)),
    );
    object.put("entries", json::listing_text(4, &property_entry_texts(&properties.entries)));
    object.render(2)
}

/// The size of a section.
pub open spec fn section_json(section: SolverNumericsSectionPlan) -> Seq<char> {
    json::object(
        8,
        Seq::empty()
            .push(("path"@, json::string(section.path@)))
            .push(("entries"@, text::decimal(section.entries as nat))),
    )
}

fn section_text(section: &SolverNumericsSectionPlan) -> (out: String)
    ensures
        out@ == section_json(*section),
{
    let mut object = JsonObject::new();
    object.string("path", section.path.as_str());
    object.count("entries", section.entries);
    object.render(8)
}

/// The sizes of the sections.
pub open spec fn section_items(sections: Seq<SolverNumericsSectionPlan>) -> Seq<Seq<char>> {
    Seq::new(sections.len(), |i: int| section_json(sections[i]))
}

fn section_texts(sections: &Vec<SolverNumericsSectionPlan>) -> (out: Vec<String>)
    ensures
        text::texts(out@) == section_items(sections@),
{
    let lines = layout::listed(sections, section_text);
    assert(lines@ =~= section_items(sections@));
    lines.into_parts()
}

/// An entry of a section.
pub open spec fn numerics_entry_json(entry: SolverNumericsEntryPlan) -> Seq<char> {
    json::object(
        8,
        Seq::empty()
            .push(("section"@, json::string(entry.section@)))
            .push(("key"@, json::string(entry.key@)))
            .push(("value"@, json::string(entry.value@))),
    )
}

fn numerics_entry_text(entry: &SolverNumericsEntryPlan) -> (out: String)
    ensures
        out@ == numerics_entry_json(*entry),
{
    let mut object = JsonObject::new();
    object.string("section", entry.section.as_str());
    object.string("key", entry.key.as_str());
    object.string("value", entry.value.as_str());
    object.render(8)
}

/// The entries of the sections.
pub open spec fn numerics_entry_items(entries: Seq<SolverNumericsEntryPlan>) -> Seq<Seq<char>> {
    Seq::new(entries.len(), |i: int| numerics_entry_json(entries[i]))
}

fn numerics_entry_texts(entries: &Vec<SolverNumericsEntryPlan>) -> (out: Vec<String>)
    ensures
        text::texts(out@) == numerics_entry_items(entries@),
{
    let lines = layout::listed(entries, numerics_entry_text);
    assert(lines@ =~= numerics_entry_items(entries@));
    lines.into_parts()
}

/// A numerics dictionary.
pub open spec fn numerics_dictionary_json(dictionary: SolverNumericsDictionaryPlan) -> Seq<char> {
    json::object(
        4,
        Seq::empty()
            .push(("present"@, text::bool_text(dictionary.present)))
            .push(("sections"@, json::listing(6, section_items(dictionary.sections@))))
            .push(("entries"@, json::listing(6, numerics_entry_items(dictionary.entries@)))),
    )
}

fn numerics_dictionary_text(dictionary: &SolverNumericsDictionaryPlan) -> (out: String)
    ensures
        out@ == numerics_dictionary_json(*dictionary),
{
    let mut object = JsonObject::new();
    object.flag("present", dictionary.present);
    object.put("sections", json::listing_text(6, &section_texts(&dictionary.sections)));
    object.put("entries", json::listing_text(6, &numerics_entry_texts(&dictionary.entries)));
    object.render(4)
}

/// The numerics dictionaries.
pub open spec fn numerics_json(numerics: SolverNumericsPlan) -> Seq<char> {
    json::object(
        2,
        Seq::empty()
            .push(("fvSchemes"@, numerics_dictionary_json(numerics.fv_schemes)))
            .push(("fvSolution"@, numerics_dictionary_json(numerics.fv_solution))),
    )
}

fn numerics_text(numerics: &SolverNumericsPlan) -> (out: String)
    ensures
        out@ == numerics_json(*numerics),
{
    let mut object = JsonObject::new();
    object.put("fvSchemes", numerics_dictionary_text(&numerics.fv_schemes));
    object.put("fvSolution", numerics_dictionary_text(&numerics.fv_solution));
    object.render(2)
}

/// The interfaces.
pub open spec fn interfaces_json(interfaces: SolverInterfacePlan) -> Seq<char> {
    json::object(
        2,
        Seq::empty()
            .push(("registryAvailable"@, text::bool_text(interfaces.registry_available)))
            .push(("discoveredInterfaces"@, text::decimal(interfaces.discovered_interfaces as nat)))
            .push(("boundaryFaceZones"@, text::decimal(interfaces.boundary_face_zones as nat)))
            .push(("configPresent"@, text::bool_text(interfaces.config_present)))
            .push(
                ("configuredInterfaces"@, text::decimal(interfaces.configured_interfaces as nat)),
            ),
    )
}

fn interfaces_text(interfaces: &SolverInterfacePlan) -> (out: String)
    ensures
        out@ == interfaces_json(*interfaces),
{
    let mut object = JsonObject::new();
    object.flag("registryAvailable", interfaces.registry_available);
    object.count("discoveredInterfaces", interfaces.discovered_interfaces);
    object.count("boundaryFaceZones", interfaces.boundary_face_zones);
    object.flag("configPresent", interfaces.config_present);
    object.count("configuredInterfaces", interfaces.configured_interfaces);
    object.render(2)
}

/// The processors.
pub open spec fn cpu_json(cpu: SolverCpuResourcePlan) -> Seq<char> {
    json::object(
        4,
        Seq::empty()
            .push(("cpus"@, json::string(cpu.cpus@)))
            .push(("coresPerCpu"@, json::string(cpu.cores_per_cpu@)))
            .push(("threads"@, json::string(cpu.threads@)))
            .push(("threadPinning"@, json::string(cpu.thread_pinning@)))
            .push(("numa"@, json::string(cpu.numa@))),
    )
}

fn cpu_text(cpu: &SolverCpuResourcePlan) -> (out: String)
    ensures
        out@ == cpu_json(*cpu),
{
    let mut object = JsonObject::new();
    object.string("cpus", cpu.cpus.as_str());
    object.string("coresPerCpu", cpu.cores_per_cpu.as_str());
    object.string("threads", cpu.threads.as_str());
    object.string("threadPinning", cpu.thread_pinning.as_str());
    object.string("numa", cpu.numa.as_str());
    object.render(4)
}

/// The graphics processors.
pub open spec fn gpu_json(gpu: SolverGpuResourcePlan) -> Seq<char> {
    json::object(
        4,
        Seq::empty()
            .push(("backend"@, json::string(gpu.backend@)))
            .push(("devices"@, json::strings(text::texts(gpu.devices@))))
            .push(("multiGpu"@, json::string(gpu.multi_gpu@)))
            .push(("precision"@, json::string(gpu.precision@))),
    )
}

fn gpu_text(gpu: &SolverGpuResourcePlan) -> (out: String)
    ensures
        out@ == gpu_json(*gpu),
{
    let mut object = JsonObject::new();
    object.string("backend", gpu.backend.as_str());
    object.put("devices", json::strings_text(&gpu.devices));
    object.string("multiGpu", gpu.multi_gpu.as_str());
    object.string("precision", gpu.precision.as_str());
    object.render(4)
}

/// The backend of a step.
pub open spec fn backend_stage_json(stage: SolverBackendStagePlan) -> Seq<char> {
    json::object(
        6,
        Seq::empty()
            .push(("section"@, json::string(stage.section@)))
            .push(("step"@, json::string(stage.step@)))
            .push(("choice"@, json::string(backends::choice_name(stage.choice)))),
    )
}

fn backend_stage_text(stage: &SolverBackendStagePlan) -> (out: String)
    ensures
        out@ == backend_stage_json(*stage),
{
    let mut object = JsonObject::new();
    object.string("section", stage.section.as_str());
    object.string("step", stage.step.as_str());
    object.put("choice", json::string_text(stage.choice.to_string().as_str()));
    object.render(6)
}

/// The backends of the steps.
pub open spec fn backend_stage_items(stages: Seq<SolverBackendStagePlan>) -> Seq<Seq<char>> {
    Seq::new(stages.len(), |i: int| backend_stage_json(stages[i]))
}

fn backend_stage_texts(stages: &Vec<SolverBackendStagePlan>) -> (out: Vec<String>)
    ensures
        text::texts(out@) == backend_stage_items(stages@),
{
    let lines = layout::listed(stages, backend_stage_text);
    assert(lines@ =~= backend_stage_items(stages@));
    lines.into_parts()
}

/// The backends.
pub open spec fn backends_json(plan: SolverBackendPlan) -> Seq<char> {
    json::object(
        2,
        Seq::empty()
            .push(("configPresent"@, text::bool_text(plan.config_present)))
            .push(("default"@, json::string(backends::choice_name(plan.default))))
            .push(("usesCpu"@, text::bool_text(plan.uses_cpu)))
            .push(("usesGpu"@, text::bool_text(plan.uses_gpu)))
            .push(("mixedExecution"@, text::bool_text(plan.mixed_execution)))
            .push(("cpu"@, cpu_json(plan.cpu)))
            .push(("gpu"@, gpu_json(plan.gpu)))
            .push(("stages"@, json::listing(4, backend_stage_items(plan.stages@)))),
    )
}

fn backends_text(plan: &SolverBackendPlan) -> (out: String)
    ensures
        out@ == backends_json(*plan),
{
    let mut object = JsonObject::new();
    object.flag("configPresent", plan.config_present);
    object.put("default", json::string_text(plan.default.to_string().as_str()));
    object.flag("usesCpu", plan.uses_cpu);
    object.flag("usesGpu", plan.uses_gpu);
    object.flag("mixedExecution", plan.mixed_execution);
    object.put("cpu", cpu_text(&plan.cpu));
    object.put("gpu", gpu_text(&plan.gpu));
    object.put("stages", json::listing_text(4, &backend_stage_texts(&plan.stages)));
    object.render(2)
}

/// A step of the run.
pub open spec fn run_stage_json(stage: SolverRunStagePlan) -> Seq<char> {
    json::object(
        6,
        Seq::empty()
            .push(("section"@, json::string(stage.section@)))
            .push(("step"@, json::string(stage.step@)))
            .push(("choice"@, json::string(backends::choice_name(stage.choice))))
            .push(("source"@, json::string(stage.source@))),
    )
}

fn run_stage_text(stage: &SolverRunStagePlan) -> (out: String)
    ensures
        out@ == run_stage_json(*stage),
{
    let mut object = JsonObject::new();
    object.string("section", stage.section.as_str());
    object.string("step", stage.step.as_str());
    object.put("choice", json::string_text(stage.choice.to_string().as_str()));
    object.string("source", stage.source.as_str());
    object.render(6)
}

/// The steps of the run.
pub open spec fn run_stage_items(stages: Seq<SolverRunStagePlan>) -> Seq<Seq<char>> {
    Seq::new(stages.len(), |i: int| run_stage_json(stages[i]))
}

fn run_stage_texts(stages: &Vec<SolverRunStagePlan>) -> (out: Vec<String>)
    ensures
        text::texts(out@) == run_stage_items(stages@),
{
    let lines = layout::listed(stages, run_stage_text);
    assert(lines@ =~= run_stage_items(stages@));
    lines.into_parts()
}

/// The time steps.
pub open spec fn run_json(run: SolverRunPlan) -> Seq<char> {
    json::object(
        2,
        Seq::empty()
            .push(("stopAt"@, json::string(run.stop_at@)))
            .push(("startTime"@, json::opt_number(reals::opt_real(run.start_time))))
            .push(("endTime"@, json::opt_number(reals::opt_real(run.end_time))))
            .push(("deltaT"@, json::opt_number(reals::opt_real(run.delta_t))))
            .push(("estimatedSteps"@, json::opt_count(run.estimated_steps)))
            .push(("writeControl"@, json::string(run.write_control@)))
            .push(("writeInterval"@, json::opt_number(reals::opt_real(run.write_interval))))
            .push(("estimatedWriteEvents"@, json::opt_count(run.estimated_write_events)))
            .push(("stages"@, json::listing(4, run_stage_items(run.stages@)))),
    )
}

fn run_text(run: &SolverRunPlan) -> (out: String)
    ensures
        out@ == run_json(*run),
{
    let mut object = JsonObject::new();
    object.string("stopAt", run.stop_at.as_str());
    object.opt_number("startTime", &run.start_time);
    object.opt_number("endTime", &run.end_time);
    object.opt_number("deltaT", &run.delta_t);
    object.opt_count("estimatedSteps", run.estimated_steps);
    object.string("writeControl", run.write_control.as_str());
    object.opt_number("writeInterval", &run.write_interval);
    object.opt_count("estimatedWriteEvents", run.estimated_write_events);
    object.put("stages", json::listing_text(4, &run_stage_texts(&run.stages)));
    object.render(2)
}

/// The plan of a run.
pub open spec fn plan_object_json(plan: SolverCasePlan) -> Seq<char> {
    json::object(
        0,
        Seq::empty()
            .push(("caseDir"@, json::string(plan.case_dir@)))
            .push(("control"@, control_json(plan.control)))
            .push(("mesh"@, mesh_json(plan.mesh)))
            .push(("fields"@, fields_json(plan.fields)))
            .push(("state"@, state_json(plan.state)))
            .push(("runtimeData"@, runtime_json(plan.runtime_data)))
            .push(("properties"@, properties_json(plan.properties)))
            .push(("numerics"@, numerics_json(plan.numerics)))
            .push(("interfaces"@, interfaces_json(plan.interfaces)))
            .push(("backends"@, backends_json(plan.backends)))
            .push(("run"@, run_json(plan.run)))
            .push(("warnings"@, json::strings(text::texts(plan.warnings@)))),
    )
}

fn plan_object(plan: &SolverCasePlan) -> (out: String)
    ensures
        out@ == plan_object_json(*plan),
{
    let mut object = JsonObject::new();
    object.string("caseDir", plan.case_dir.as_str());
    object.put("control", control_text(&plan.control));
    object.put("mesh", mesh_text(&plan.mesh));
    object.put("fields", fields_text(&plan.fields));
    object.put("state", state_text(&plan.state));
    object.put("runtimeData", runtime_text(&plan.runtime_data));
    object.put("properties", properties_text(&plan.properties));
    object.put("numerics", numerics_text(&plan.numerics));
    object.put("interfaces", interfaces_text(&plan.interfaces));
    object.put("backends", backends_text(&plan.backends));
    object.put("run", run_text(&plan.run));
    object.put("warnings", json::strings_text(&plan.warnings));
    object.render(0)
}

/// The file of the plan of a run.
pub open spec fn plan_json(plan: SolverCasePlan) -> Seq<char> {
    plan_object_json(plan) + "\n"@
}

/// The file of the plan of a run.
pub fn solver_plan_json(plan: &SolverCasePlan) -> (out: String)
    ensures
        out@ == plan_json(*plan),
{
    let mut out = plan_object(plan);
    out.append("\n");
    out
}

} // verus!
