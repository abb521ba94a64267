//! That the JSON form of a plan belongs to the grammar of JSON.

use crate::control::ControlDict;
use crate::json_grammar;
use crate::plan::{
    SolverBackendPlan, SolverBackendStagePlan, SolverCasePlan, SolverCpuResourcePlan,
    SolverFieldEntryPlan, SolverFieldPlan, SolverGpuResourcePlan, SolverInterfacePlan,
    SolverMeshPlan, SolverNumericsDictionaryPlan, SolverNumericsEntryPlan, SolverNumericsPlan,
    SolverNumericsSectionPlan, SolverPropertiesPlan, SolverPropertyDictionaryPlan,
    SolverPropertyEntryPlan, SolverRegionMeshPlan, SolverRunPlan, SolverRunStagePlan,
    SolverRuntimeFieldPlan, SolverRuntimeMeshPlan, SolverRuntimePatchRange, SolverRuntimePlan,
    SolverStateCpuBufferPlan, SolverStateFieldPlan, SolverStateInternalFieldPlan, SolverStatePlan,
    SolverStateStoragePlan,
};
use crate::plan_json;
use crate::reals;
use crate::reals::Real;
use vstd::prelude::*;

verus! {

/// Whether the numbers of the run control are shown as JSON demands.
pub open spec fn plain_control(control: ControlDict) -> bool {
    &&& json_grammar::opt_plain(reals::opt_real(control.start_time))
    &&& json_grammar::opt_plain(reals::opt_real(control.end_time))
    &&& json_grammar::opt_plain(reals::opt_real(control.delta_t))
    &&& json_grammar::opt_plain(reals::opt_real(control.write_interval))
}

proof fn lemma_control(control: ControlDict)
    requires
        plain_control(control),
    ensures
        json_grammar::is_value(plan_json::control_json(control)),
{
    broadcast use json_grammar::group_values;
}

proof fn lemma_region_mesh(region: SolverRegionMeshPlan)
    ensures
        json_grammar::is_value(plan_json::region_mesh_json(region)),
{
    broadcast use json_grammar::group_values;
}

proof fn lemma_region_mesh_items(regions: Seq<SolverRegionMeshPlan>)
    ensures
        forall|i: int|
            0 <= i < regions.len() ==> json_grammar::is_value(
                #[trigger] plan_json::region_mesh_items(regions)[i],
            ),
{
    assert forall|i: int| 0 <= i < regions.len() implies json_grammar::is_value(
        #[trigger] plan_json::region_mesh_items(regions)[i],
    ) by {
        lemma_region_mesh(regions[i]);
    }
}

proof fn lemma_mesh(mesh: SolverMeshPlan)
    ensures
        json_grammar::is_value(plan_json::mesh_json(mesh)),
{
    broadcast use json_grammar::group_values;

    lemma_region_mesh_items(mesh.region_meshes@);
    json_grammar::listing_is_value(4, plan_json::region_mesh_items(mesh.region_meshes@));
}

proof fn lemma_field_entry(field: SolverFieldEntryPlan)
    ensures
        json_grammar::is_value(plan_json::field_entry_json(field)),
{
    broadcast use json_grammar::group_values;
}

proof fn lemma_field_entry_items(fields: Seq<SolverFieldEntryPlan>)
    ensures
        forall|i: int|
            0 <= i < fields.len() ==> json_grammar::is_value(
                #[trigger] plan_json::field_entry_items(fields)[i],
            ),
{
    assert forall|i: int| 0 <= i < fields.len() implies json_grammar::is_value(
        #[trigger] plan_json::field_entry_items(fields)[i],
    ) by {
        lemma_field_entry(fields[i]);
    }
}

proof fn lemma_fields(plan: SolverFieldPlan)
    ensures
        json_grammar::is_value(plan_json::fields_json(plan)),
{
    lemma_field_entry_items(plan.fields@);
    json_grammar::listing_is_value(2, plan_json::field_entry_items(plan.fields@));
}

proof fn lemma_dimensions(dimensions: Option<Vec<String>>)
    ensures
        json_grammar::is_value(plan_json::dimensions_json(dimensions)),
{
    broadcast use json_grammar::group_values;

    json_grammar::null_is_value();
}

/// Whether the numbers of a uniform value are shown as JSON demands.
pub open spec fn plain_components(components: Option<Vec<Real>>) -> bool {
    match components {
        Some(found) => json_grammar::all_plain(reals::real_views(found@)),
        None => true,
    }
}

proof fn lemma_components(components: Option<Vec<Real>>)
    requires
        plain_components(components),
    ensures
        json_grammar::is_value(plan_json::components_json(components)),
{
    broadcast use json_grammar::group_values;

    json_grammar::null_is_value();
}

/// Whether the numbers of the interior values of a field are shown as JSON
/// demands.
pub open spec fn plain_internal_field(field: SolverStateInternalFieldPlan) -> bool {
    &&& plain_components(field.uniform_components)
}

proof fn lemma_internal_field(field: SolverStateInternalFieldPlan)
    requires
        plain_internal_field(field),
    ensures
        json_grammar::is_value(plan_json::internal_field_json(field)),
{
    broadcast use json_grammar::group_values;

    lemma_components(field.uniform_components);
}

proof fn lemma_storage(storage: SolverStateStoragePlan)
    ensures
        json_grammar::is_value(plan_json::storage_json(storage)),
{
    broadcast use json_grammar::group_values;
}

proof fn lemma_buffer(buffer: SolverStateCpuBufferPlan)
    ensures
        json_grammar::is_value(plan_json::buffer_json(buffer)),
{
    broadcast use json_grammar::group_values;
}

/// Whether the numbers of what the solver will hold of a field are shown as JSON
/// demands.
pub open spec fn plain_state_field(field: SolverStateFieldPlan) -> bool {
    &&& plain_internal_field(field.internal_field)
}

proof fn lemma_state_field(field: SolverStateFieldPlan)
    requires
        plain_state_field(field),
    ensures
        json_grammar::is_value(plan_json::state_field_json(field)),
{
    broadcast use json_grammar::group_values;

    lemma_dimensions(field.dimensions);
    lemma_internal_field(field.internal_field);
    lemma_storage(field.storage);
    lemma_buffer(field.cpu_buffer);
}

/// Whether all of them show their numbers as JSON demands.
pub open spec fn plain_state_field_items(fields: Seq<SolverStateFieldPlan>) -> bool {
    forall|i: int| 0 <= i < fields.len() ==> plain_state_field(#[trigger] fields[i])
}

proof fn lemma_state_field_items(fields: Seq<SolverStateFieldPlan>)
    requires
        plain_state_field_items(fields),
    ensures
        forall|i: int|
            0 <= i < fields.len() ==> json_grammar::is_value(
                #[trigger] plan_json::state_field_items(fields)[i],
            ),
{
    assert forall|i: int| 0 <= i < fields.len() implies json_grammar::is_value(
        #[trigger] plan_json::state_field_items(fields)[i],
    ) by {
        assert(plain_state_field(fields[i]));
        lemma_state_field(fields[i]);
    }
}

/// Whether the numbers of the state are shown as JSON demands.
pub open spec fn plain_state(state: SolverStatePlan) -> bool {
    &&& plain_state_field_items(state.fields@)
}

proof fn lemma_state(state: SolverStatePlan)
    requires
        plain_state(state),
    ensures
        json_grammar::is_value(plan_json::state_json(state)),
{
    broadcast use json_grammar::group_values;

    lemma_state_field_items(state.fields@);
    json_grammar::listing_is_value(4, plan_json::state_field_items(state.fields@));
}

proof fn lemma_patch_range(patch: SolverRuntimePatchRange)
    ensures
        json_grammar::is_value(plan_json::patch_range_json(patch)),
{
    broadcast use json_grammar::group_values;
}

proof fn lemma_patch_range_items(patches: Seq<SolverRuntimePatchRange>)
    ensures
        forall|i: int|
            0 <= i < patches.len() ==> json_grammar::is_value(
                #[trigger] plan_json::patch_range_items(patches)[i],
            ),
{
    assert forall|i: int| 0 <= i < patches.len() implies json_grammar::is_value(
        #[trigger] plan_json::patch_range_items(patches)[i],
    ) by {
        lemma_patch_range(patches[i]);
    }
}

/// Whether the numbers of the mesh arrays are shown as JSON demands.
pub open spec fn plain_runtime_mesh(mesh: SolverRuntimeMeshPlan) -> bool {
    &&& json_grammar::is_plain(mesh.total_cell_volume@)
    &&& json_grammar::is_plain(mesh.min_cell_volume@)
    &&& json_grammar::is_plain(mesh.max_cell_volume@)
    &&& json_grammar::is_plain(mesh.min_face_area@)
    &&& json_grammar::is_plain(mesh.max_face_area@)
}

proof fn lemma_runtime_mesh(mesh: SolverRuntimeMeshPlan)
    requires
        plain_runtime_mesh(mesh),
    ensures
        json_grammar::is_value(plan_json::runtime_mesh_json(mesh)),
{
    broadcast use json_grammar::group_values;

    lemma_patch_range_items(mesh.patches@);
    json_grammar::listing_is_value(6, plan_json::patch_range_items(mesh.patches@));
}

proof fn lemma_runtime_field(field: SolverRuntimeFieldPlan)
    ensures
        json_grammar::is_value(plan_json::runtime_field_json(field)),
{
    broadcast use json_grammar::group_values;
}

proof fn lemma_runtime_field_items(fields: Seq<SolverRuntimeFieldPlan>)
    ensures
        forall|i: int|
            0 <= i < fields.len() ==> json_grammar::is_value(
                #[trigger] plan_json::runtime_field_items(fields)[i],
            ),
{
    assert forall|i: int| 0 <= i < fields.len() implies json_grammar::is_value(
        #[trigger] plan_json::runtime_field_items(fields)[i],
    ) by {
        lemma_runtime_field(fields[i]);
    }
}

/// Whether the numbers of the mesh and field arrays are shown as JSON demands.
pub open spec fn plain_runtime(runtime: SolverRuntimePlan) -> bool {
    &&& plain_runtime_mesh(runtime.mesh)
}

proof fn lemma_runtime(runtime: SolverRuntimePlan)
    requires
        plain_runtime(runtime),
    ensures
        json_grammar::is_value(plan_json::runtime_json(runtime)),
{
    broadcast use json_grammar::group_values;

    lemma_runtime_mesh(runtime.mesh);
    lemma_runtime_field_items(runtime.fields@);
    json_grammar::listing_is_value(4, plan_json::runtime_field_items(runtime.fields@));
}

proof fn lemma_property_dictionary(dictionary: SolverPropertyDictionaryPlan)
    ensures
        json_grammar::is_value(plan_json::property_dictionary_json(dictionary)),
{
    broadcast use json_grammar::group_values;
}

proof fn lemma_property_dictionary_items(dictionaries: Seq<SolverPropertyDictionaryPlan>)
    ensures
        forall|i: int|
            0 <= i < dictionaries.len() ==> json_grammar::is_value(
                #[trigger] plan_json::property_dictionary_items(dictionaries)[i],
            ),
{
    assert forall|i: int| 0 <= i < dictionaries.len() implies json_grammar::is_value(
        #[trigger] plan_json::property_dictionary_items(dictionaries)[i],
    ) by {
        lemma_property_dictionary(dictionaries[i]);
    }
}

proof fn lemma_property_entry(entry: SolverPropertyEntryPlan)
    ensures
        json_grammar::is_value(plan_json::property_entry_json(entry)),
{
    broadcast use json_grammar::group_values;
}

proof fn lemma_property_entry_items(entries: Seq<SolverPropertyEntryPlan>)
    ensures
        forall|i: int|
            0 <= i < entries.len() ==> json_grammar::is_value(
                #[trigger] plan_json::property_entry_items(entries)[i],
            ),
{
    assert forall|i: int| 0 <= i < entries.len() implies json_grammar::is_value(
        #[trigger] plan_json::property_entry_items(entries)[i],
    ) by {
        lemma_property_entry(entries[i]);
    }
}

proof fn lemma_properties(properties: SolverPropertiesPlan)
    ensures
        json_grammar::is_value(plan_json::properties_json(properties)),
{
    broadcast use json_grammar::group_values;

    lemma_property_dictionary_items(properties.dictionaries@);
    json_grammar::listing_is_value(
        4,
        plan_json::property_dictionary_items(properties.dictionaries@),
    );
    lemma_property_entry_items(properties.entries@);
    json_grammar::listing_is_value(4, plan_json::property_entry_items(properties.entries@));
}

proof fn lemma_section(section: SolverNumericsSectionPlan)
    ensures
        json_grammar::is_value(plan_json::section_json(section)),
{
    broadcast use json_grammar::group_values;
}

proof fn lemma_section_items(sections: Seq<SolverNumericsSectionPlan>)
    ensures
        forall|i: int|
            0 <= i < sections.len() ==> json_grammar::is_value(
                #[trigger] plan_json::section_items(sections)[i],
            ),
{
    assert forall|i: int| 0 <= i < sections.len() implies json_grammar::is_value(
        #[trigger] plan_json::section_items(sections)[i],
    ) by {
        lemma_section(sections[i]);
    }
}

proof fn lemma_numerics_entry(entry: SolverNumericsEntryPlan)
    ensures
        json_grammar::is_value(plan_json::numerics_entry_json(entry)),
{
    broadcast use json_grammar::group_values;
}

proof fn lemma_numerics_entry_items(entries: Seq<SolverNumericsEntryPlan>)
    ensures
        forall|i: int|
            0 <= i < entries.len() ==> json_grammar::is_value(
                #[trigger] plan_json::numerics_entry_items(entries)[i],
            ),
{
    assert forall|i: int| 0 <= i < entries.len() implies json_grammar::is_value(
        #[trigger] plan_json::numerics_entry_items(entries)[i],
    ) by {
        lemma_numerics_entry(entries[i]);
    }
}

proof fn lemma_numerics_dictionary(dictionary: SolverNumericsDictionaryPlan)
    ensures
        json_grammar::is_value(plan_json::numerics_dictionary_json(dictionary)),
{
    broadcast use json_grammar::group_values;

    lemma_section_items(dictionary.sections@);
    json_grammar::listing_is_value(6, plan_json::section_items(dictionary.sections@));
    lemma_numerics_entry_items(dictionary.entries@);
    json_grammar::listing_is_value(6, plan_json::numerics_entry_items(dictionary.entries@));
}

proof fn lemma_numerics(numerics: SolverNumericsPlan)
    ensures
        json_grammar::is_value(plan_json::numerics_json(numerics)),
{
    broadcast use json_grammar::group_values;

    lemma_numerics_dictionary(numerics.fv_schemes);
    lemma_numerics_dictionary(numerics.fv_solution);
}

proof fn lemma_interfaces(interfaces: SolverInterfacePlan)
    ensures
        json_grammar::is_value(plan_json::interfaces_json(interfaces)),
{
    broadcast use json_grammar::group_values;
}

proof fn lemma_cpu(cpu: SolverCpuResourcePlan)
    ensures
        json_grammar::is_value(plan_json::cpu_json(cpu)),
{
    broadcast use json_grammar::group_values;
}

proof fn lemma_gpu(gpu: SolverGpuResourcePlan)
    ensures
        json_grammar::is_value(plan_json::gpu_json(gpu)),
{
    broadcast use json_grammar::group_values;
}

proof fn lemma_backend_stage(stage: SolverBackendStagePlan)
    ensures
        json_grammar::is_value(plan_json::backend_stage_json(stage)),
{
    broadcast use json_grammar::group_values;
}

proof fn lemma_backend_stage_items(stages: Seq<SolverBackendStagePlan>)
    ensures
        forall|i: int|
            0 <= i < stages.len() ==> json_grammar::is_value(
                #[trigger] plan_json::backend_stage_items(stages)[i],
            ),
{
    assert forall|i: int| 0 <= i < stages.len() implies json_grammar::is_value(
        #[trigger] plan_json::backend_stage_items(stages)[i],
    ) by {
        lemma_backend_stage(stages[i]);
    }
}

proof fn lemma_backends(plan: SolverBackendPlan)
    ensures
        json_grammar::is_value(plan_json::backends_json(plan)),
{
    broadcast use json_grammar::group_values;

    lemma_cpu(plan.cpu);
    lemma_gpu(plan.gpu);
    lemma_backend_stage_items(plan.stages@);
    json_grammar::listing_is_value(4, plan_json::backend_stage_items(plan.stages@));
}

proof fn lemma_run_stage(stage: SolverRunStagePlan)
    ensures
        json_grammar::is_value(plan_json::run_stage_json(stage)),
{
    broadcast use json_grammar::group_values;
}

proof fn lemma_run_stage_items(stages: Seq<SolverRunStagePlan>)
    ensures
        forall|i: int|
            0 <= i < stages.len() ==> json_grammar::is_value(
                #[trigger] plan_json::run_stage_items(stages)[i],
            ),
{
    assert forall|i: int| 0 <= i < stages.len() implies json_grammar::is_value(
        #[trigger] plan_json::run_stage_items(stages)[i],
    ) by {
        lemma_run_stage(stages[i]);
    }
}

/// Whether the numbers of the time steps are shown as JSON demands.
pub open spec fn plain_run(run: SolverRunPlan) -> bool {
    &&& json_grammar::opt_plain(reals::opt_real(run.start_time))
    &&& json_grammar::opt_plain(reals::opt_real(run.end_time))
    &&& json_grammar::opt_plain(reals::opt_real(run.delta_t))
    &&& json_grammar::opt_plain(reals::opt_real(run.write_interval))
}

proof fn lemma_run(run: SolverRunPlan)
    requires
        plain_run(run),
    ensures
        json_grammar::is_value(plan_json::run_json(run)),
{
    broadcast use json_grammar::group_values;

    lemma_run_stage_items(run.stages@);
    json_grammar::listing_is_value(4, plan_json::run_stage_items(run.stages@));
}

/// Whether the numbers of the plan of a run are shown as JSON demands.
pub open spec fn plain_plan_object(plan: SolverCasePlan) -> bool {
    &&& plain_control(plan.control)
    &&& plain_state(plan.state)
    &&& plain_runtime(plan.runtime_data)
    &&& plain_run(plan.run)
}

proof fn lemma_plan_object(plan: SolverCasePlan)
    requires
        plain_plan_object(plan),
    ensures
        json_grammar::is_value(plan_json::plan_object_json(plan)),
{
    broadcast use json_grammar::group_values;

    lemma_control(plan.control);
    lemma_mesh(plan.mesh);
    lemma_fields(plan.fields);
    lemma_state(plan.state);
    lemma_runtime(plan.runtime_data);
    lemma_properties(plan.properties);
    lemma_numerics(plan.numerics);
    lemma_interfaces(plan.interfaces);
    lemma_backends(plan.backends);
    lemma_run(plan.run);
}

/// The file of a plan is a JSON text, if the numbers of the plan are shown as JSON
/// demands.
pub proof fn plan_is_json(plan: SolverCasePlan)
    requires
        plain_plan_object(plan),
    ensures
        json_grammar::is_json(plan_json::plan_json(plan)),
{
    lemma_plan_object(plan);
    json_grammar::line_is_json(plan_json::plan_object_json(plan));
}

} // verus!
