//! What is shown of the plan of a solver run.

use crate::backends;
use crate::diffusion::DiffusionAssemblyCapabilities;
use crate::layout;
use crate::layout::TextList;
use crate::plan;
use crate::plan::{
    SolverBackendPlan, SolverBackendStagePlan, SolverCasePlan, SolverCpuResourcePlan,
    SolverFieldEntryPlan, SolverGpuResourcePlan, SolverInterfacePlan, SolverMeshPlan,
    SolverNumericsDictionaryPlan, SolverNumericsEntryPlan, SolverPropertiesPlan,
    SolverPropertyDictionaryPlan, SolverPropertyEntryPlan, SolverRegionMeshPlan, SolverRunPlan,
    SolverRunStagePlan, SolverRuntimeFieldPlan, SolverRuntimeMeshPlan, SolverRuntimePatchRange,
    SolverRuntimePlan, SolverStateFieldPlan, SolverStatePlan,
};
use crate::reals;
use crate::reals::Real;
use crate::runner::{SolverRunnerDryRun, SolverRunnerDryRunEvent, SolverRunnerRuntime};
use crate::text;
use vstd::prelude::*;

verus! {

/// The linear solvers that can be used, and where.
#[derive(Clone, Copy, Debug, Eq, PartialEq, Structural)]
pub struct LinearSolverSupport {
    pub cpu_csr: bool,
    pub cpu_jacobi: bool,
    pub cpu_gauss_seidel: bool,
    pub cpu_symmetric_gauss_seidel: bool,
    pub cpu_conjugate_gradient: bool,
    pub cpu_preconditioned_conjugate_gradient: bool,
    pub cpu_bicgstab: bool,
    pub cpu_diagonal_preconditioner: bool,
    pub cpu_incomplete_cholesky_preconditioner: bool,
    pub gpu_linear_solvers: bool,
}

/// One device as it is, several in brackets.
pub open spec fn devices(found: Seq<String>) -> Seq<char> {
    if found.len() == 1 {
        found[0]@
    } else {
        "("@ + text::join(text::texts(found), " "@) + ")"@
    }
}

/// One device as it is, several in brackets.
pub fn format_devices(found: &Vec<String>) -> (out: String)
    ensures
        out@ == devices(found@),
{
    if found.len() == 1 {
        return found[0].clone();
    }
    let mut out = "(".to_string();
    out.append(text::joined(found, " ").as_str());
    out.append(")");
    out
}

/// Numbers in brackets.
pub open spec fn number_list(values: Option<Vec<Real>>) -> Seq<char> {
    match values {
        None => "missing"@,
        Some(found) => if found@.len() == 0 {
            "empty"@
        } else {
            "("@ + text::join(Seq::new(found@.len(), |i: int| found@[i].display@), " "@) + ")"@
        },
    }
}

/// Numbers in brackets.
pub fn format_optional_f64_list(values: &Option<Vec<Real>>) -> (out: String)
    ensures
        out@ == number_list(*values),
{
    match values {
        None => "missing".to_string(),
        Some(found) => {
            if found.len() == 0 {
                return "empty".to_string();
            }
            let ghost wanted = Seq::new(found@.len(), |i: int| found@[i].display@);
            let mut parts: Vec<String> = Vec::new();
            let mut at: usize = 0;
            while at < found.len()
                invariant
                    at <= found@.len(),
                    wanted == Seq::new(found@.len(), |i: int| found@[i].display@),
                    text::texts(parts@) == wanted.take(at as int),
                decreases found@.len() - at,
            {
                let ghost earlier = text::texts(parts@);
                parts.push(found[at].display.clone());
                assert(text::texts(parts@) =~= earlier.push(wanted[at as int]));
                assert(wanted.take(at + 1) =~= earlier.push(wanted[at as int]));
                at += 1;
            }
            assert(wanted.take(at as int) =~= wanted);
            let mut out = "(".to_string();
            out.append(text::joined(&parts, " ").as_str());
            out.append(")");
            out
        },
    }
}

/// The control dictionary.
pub open spec fn control_line(plan: SolverCasePlan) -> Seq<char> {
    "control: application="@
        + plan.control.application@
        + " startFrom="@
        + plan.control.start_from@
        + " startTime="@
        + layout::opt_display(reals::opt_real(plan.control.start_time))
        + " stopAt="@
        + plan.control.stop_at@
        + " endTime="@
        + layout::opt_display(reals::opt_real(plan.control.end_time))
        + " deltaT="@
        + layout::opt_display(reals::opt_real(plan.control.delta_t))
        + " writeControl="@
        + plan.control.write_control@
        + " writeInterval="@
        + layout::opt_display(reals::opt_real(plan.control.write_interval))
}

/// The control dictionary.
fn control(plan: &SolverCasePlan) -> (line: String)
    ensures
        line@ == control_line(*plan),
{
    let mut line = "control: application=".to_string();
    line.append(plan.control.application.as_str());
    line.append(" startFrom=");
    line.append(plan.control.start_from.as_str());
    line.append(" startTime=");
    line.append(layout::opt_display_text(&plan.control.start_time).as_str());
    line.append(" stopAt=");
    line.append(plan.control.stop_at.as_str());
    line.append(" endTime=");
    line.append(layout::opt_display_text(&plan.control.end_time).as_str());
    line.append(" deltaT=");
    line.append(layout::opt_display_text(&plan.control.delta_t).as_str());
    line.append(" writeControl=");
    line.append(plan.control.write_control.as_str());
    line.append(" writeInterval=");
    line.append(layout::opt_display_text(&plan.control.write_interval).as_str());
    line
}

/// The mesh.
pub open spec fn mesh_sizes_line(mesh: SolverMeshPlan) -> Seq<char> {
    "mesh: dimensionality="@
        + plan::dimensionality_name(mesh.dimensionality)
        + " points="@
        + text::decimal(mesh.points as nat)
        + " cells="@
        + text::decimal(mesh.cells as nat)
        + " faces="@
        + text::decimal(mesh.faces as nat)
        + " internal="@
        + text::decimal(mesh.internal_faces as nat)
        + " boundary="@
        + text::decimal(mesh.boundary_faces as nat)
        + " patches="@
        + text::decimal(mesh.patches as nat)
}

/// The mesh.
fn mesh_sizes(mesh: &SolverMeshPlan) -> (line: String)
    ensures
        line@ == mesh_sizes_line(*mesh),
{
    let mut line = "mesh: dimensionality=".to_string();
    line.append(mesh.dimensionality.to_string().as_str());
    line.append(" points=");
    line.append(text::number_text(mesh.points).as_str());
    line.append(" cells=");
    line.append(text::number_text(mesh.cells).as_str());
    line.append(" faces=");
    line.append(text::number_text(mesh.faces).as_str());
    line.append(" internal=");
    line.append(text::number_text(mesh.internal_faces).as_str());
    line.append(" boundary=");
    line.append(text::number_text(mesh.boundary_faces).as_str());
    line.append(" patches=");
    line.append(text::number_text(mesh.patches).as_str());
    line
}

/// The patches that constrain the geometry.
pub open spec fn special_patches_line(mesh: SolverMeshPlan) -> Seq<char> {
    "special patches: empty="@
        + text::decimal(mesh.empty_patches as nat)
        + " wedge="@
        + text::decimal(mesh.wedge_patches as nat)
        + " symmetryPlane="@
        + text::decimal(mesh.symmetry_patches as nat)
}

/// The patches that constrain the geometry.
fn special_patches(mesh: &SolverMeshPlan) -> (line: String)
    ensures
        line@ == special_patches_line(*mesh),
{
    let mut line = "special patches: empty=".to_string();
    line.append(text::number_text(mesh.empty_patches).as_str());
    line.append(" wedge=");
    line.append(text::number_text(mesh.wedge_patches).as_str());
    line.append(" symmetryPlane=");
    line.append(text::number_text(mesh.symmetry_patches).as_str());
    line
}

/// The mesh of a region.
pub open spec fn region_mesh_line(region: SolverRegionMeshPlan) -> Seq<char> {
    "  "@
        + region.name@
        + ": cells="@
        + text::decimal(region.cells as nat)
        + " patches="@
        + text::decimal(region.patches as nat)
}

/// The mesh of a region.
fn region_mesh(region: &SolverRegionMeshPlan) -> (line: String)
    ensures
        line@ == region_mesh_line(*region),
{
    let mut line = "  ".to_string();
    line.append(region.name.as_str());
    line.append(": cells=");
    line.append(text::number_text(region.cells).as_str());
    line.append(" patches=");
    line.append(text::number_text(region.patches).as_str());
    line
}

/// The meshes of the regions.
pub open spec fn region_mesh_items(items: Seq<SolverRegionMeshPlan>) -> Seq<Seq<char>> {
    Seq::new(items.len(), |i: int| region_mesh_line(items[i]))
}

fn region_mesh_list(items: &Vec<SolverRegionMeshPlan>) -> (lines: TextList)
    ensures
        lines@ == region_mesh_items(items@),
{
    let lines = layout::listed(items, region_mesh);
    assert(lines@ =~= region_mesh_items(items@));
    lines
}

/// One field.
pub open spec fn field_entry_line(field: SolverFieldEntryPlan) -> Seq<char> {
    "  "@
        + layout::regional(text::opt_text(field.region), field.name@)
        + ": class="@
        + layout::text_or(text::opt_text(field.class_name), "unknown"@)
        + " boundaryPatches="@
        + text::decimal(field.boundary_patches as nat)
}

/// One field.
fn field_entry(field: &SolverFieldEntryPlan) -> (line: String)
    ensures
        line@ == field_entry_line(*field),
{
    let mut line = "  ".to_string();
    line.append(layout::regional_text(&field.region, field.name.as_str()).as_str());
    line.append(": class=");
    line.append(layout::text_or_default(&field.class_name, "unknown").as_str());
    line.append(" boundaryPatches=");
    line.append(text::number_text(field.boundary_patches).as_str());
    line
}

/// The fields.
pub open spec fn field_entry_items(items: Seq<SolverFieldEntryPlan>) -> Seq<Seq<char>> {
    Seq::new(items.len(), |i: int| field_entry_line(items[i]))
}

fn field_entry_list(items: &Vec<SolverFieldEntryPlan>) -> (lines: TextList)
    ensures
        lines@ == field_entry_items(items@),
{
    let lines = layout::listed(items, field_entry);
    assert(lines@ =~= field_entry_items(items@));
    lines
}

/// The interfaces.
pub open spec fn interface_sizes_line(found: SolverInterfacePlan) -> Seq<char> {
    "interfaces: registry="@
        + layout::yes_no(found.registry_available)
        + " discovered="@
        + text::decimal(found.discovered_interfaces as nat)
        + " boundaryFaceZones="@
        + text::decimal(found.boundary_face_zones as nat)
        + " config="@
        + layout::yes_no(found.config_present)
        + " configured="@
        + text::decimal(found.configured_interfaces as nat)
}

/// The interfaces.
fn interface_sizes(found: &SolverInterfacePlan) -> (line: String)
    ensures
        line@ == interface_sizes_line(*found),
{
    let mut line = "interfaces: registry=".to_string();
    line.append(layout::yes_no_text(found.registry_available));
    line.append(" discovered=");
    line.append(text::number_text(found.discovered_interfaces).as_str());
    line.append(" boundaryFaceZones=");
    line.append(text::number_text(found.boundary_face_zones).as_str());
    line.append(" config=");
    line.append(layout::yes_no_text(found.config_present));
    line.append(" configured=");
    line.append(text::number_text(found.configured_interfaces).as_str());
    line
}

/// The linear solvers.
pub open spec fn linear_solver_support_line(support: LinearSolverSupport) -> Seq<char> {
    "linear solvers: cpuCsr="@
        + layout::yes_no(support.cpu_csr)
        + " cpuJacobi="@
        + layout::yes_no(support.cpu_jacobi)
        + " cpuGaussSeidel="@
        + layout::yes_no(support.cpu_gauss_seidel)
        + " cpuSymGaussSeidel="@
        + layout::yes_no(support.cpu_symmetric_gauss_seidel)
        + " cpuCg="@
        + layout::yes_no(support.cpu_conjugate_gradient)
        + " cpuPcg="@
        + layout::yes_no(support.cpu_preconditioned_conjugate_gradient)
        + " cpuBiCgStab="@
        + layout::yes_no(support.cpu_bicgstab)
        + " cpuDiagonalPreconditioner="@
        + layout::yes_no(support.cpu_diagonal_preconditioner)
        + " cpuIncompleteCholeskyPreconditioner="@
        + layout::yes_no(support.cpu_incomplete_cholesky_preconditioner)
        + " gpuLinearSolvers="@
        + layout::yes_no(support.gpu_linear_solvers)
}

/// The linear solvers.
fn linear_solver_support(support: &LinearSolverSupport) -> (line: String)
    ensures
        line@ == linear_solver_support_line(*support),
{
    let mut line = "linear solvers: cpuCsr=".to_string();
    line.append(layout::yes_no_text(support.cpu_csr));
    line.append(" cpuJacobi=");
    line.append(layout::yes_no_text(support.cpu_jacobi));
    line.append(" cpuGaussSeidel=");
    line.append(layout::yes_no_text(support.cpu_gauss_seidel));
    line.append(" cpuSymGaussSeidel=");
    line.append(layout::yes_no_text(support.cpu_symmetric_gauss_seidel));
    line.append(" cpuCg=");
    line.append(layout::yes_no_text(support.cpu_conjugate_gradient));
    line.append(" cpuPcg=");
    line.append(layout::yes_no_text(support.cpu_preconditioned_conjugate_gradient));
    line.append(" cpuBiCgStab=");
    line.append(layout::yes_no_text(support.cpu_bicgstab));
    line.append(" cpuDiagonalPreconditioner=");
    line.append(layout::yes_no_text(support.cpu_diagonal_preconditioner));
    line.append(" cpuIncompleteCholeskyPreconditioner=");
    line.append(layout::yes_no_text(support.cpu_incomplete_cholesky_preconditioner));
    line.append(" gpuLinearSolvers=");
    line.append(layout::yes_no_text(support.gpu_linear_solvers));
    line
}

/// The assembly of equations.
pub open spec fn assembly_support_line(support: DiffusionAssemblyCapabilities) -> Seq<char> {
    "equation assembly: cpuScalarDiffusion="@
        + layout::yes_no(support.cpu_scalar_diffusion)
        + " cpuPoisson="@
        + layout::yes_no(support.cpu_poisson)
        + " fixedValue="@
        + layout::yes_no(support.fixed_value_boundary)
        + " zeroGradient="@
        + layout::yes_no(support.zero_gradient_boundary)
        + " gpuAssembly="@
        + layout::yes_no(support.gpu_assembly)
}

/// The assembly of equations.
fn assembly_support(support: &DiffusionAssemblyCapabilities) -> (line: String)
    ensures
        line@ == assembly_support_line(*support),
{
    let mut line = "equation assembly: cpuScalarDiffusion=".to_string();
    line.append(layout::yes_no_text(support.cpu_scalar_diffusion));
    line.append(" cpuPoisson=");
    line.append(layout::yes_no_text(support.cpu_poisson));
    line.append(" fixedValue=");
    line.append(layout::yes_no_text(support.fixed_value_boundary));
    line.append(" zeroGradient=");
    line.append(layout::yes_no_text(support.zero_gradient_boundary));
    line.append(" gpuAssembly=");
    line.append(layout::yes_no_text(support.gpu_assembly));
    line
}

/// The properties.
pub open spec fn properties_sizes_line(found: SolverPropertiesPlan) -> Seq<char> {
    "properties: dictionaries="@
        + text::decimal(found.dictionaries@.len() as nat)
        + " entries="@
        + text::decimal(found.entries@.len() as nat)
}

/// The properties.
fn properties_sizes(found: &SolverPropertiesPlan) -> (line: String)
    ensures
        line@ == properties_sizes_line(*found),
{
    let mut line = "properties: dictionaries=".to_string();
    line.append(text::number_text(found.dictionaries.len()).as_str());
    line.append(" entries=");
    line.append(text::number_text(found.entries.len()).as_str());
    line
}

/// The size of a dictionary.
pub open spec fn property_dictionary_line(dictionary: SolverPropertyDictionaryPlan) -> Seq<char> {
    "  "@
        + layout::regional(text::opt_text(dictionary.region), dictionary.name@)
        + ": sections="@
        + text::decimal(dictionary.sections as nat)
        + " entries="@
        + text::decimal(dictionary.entries as nat)
}

/// The size of a dictionary.
fn property_dictionary(dictionary: &SolverPropertyDictionaryPlan) -> (line: String)
    ensures
        line@ == property_dictionary_line(*dictionary),
{
    let mut line = "  ".to_string();
    line.append(layout::regional_text(&dictionary.region, dictionary.name.as_str()).as_str());
    line.append(": sections=");
    line.append(text::number_text(dictionary.sections).as_str());
    line.append(" entries=");
    line.append(text::number_text(dictionary.entries).as_str());
    line
}

/// The sizes of the dictionaries.
pub open spec fn property_dictionary_items(items: Seq<SolverPropertyDictionaryPlan>) -> Seq<Seq<char>> {
    Seq::new(items.len(), |i: int| property_dictionary_line(items[i]))
}

fn property_dictionary_list(items: &Vec<SolverPropertyDictionaryPlan>) -> (lines: TextList)
    ensures
        lines@ == property_dictionary_items(items@),
{
    let lines = layout::listed(items, property_dictionary);
    assert(lines@ =~= property_dictionary_items(items@));
    lines
}

/// One property, by its path.
pub open spec fn property_entry_line(entry: SolverPropertyEntryPlan) -> Seq<char> {
    match entry.section {
        Some(section) => "    "@ + entry.dictionary@ + "."@ + section@ + "."@ + entry.key@ + "="@
            + entry.value@,
        None => "    "@ + entry.dictionary@ + "."@ + entry.key@ + "="@ + entry.value@,
    }
}

fn property_entry(entry: &SolverPropertyEntryPlan) -> (line: String)
    ensures
        line@ == property_entry_line(*entry),
{
    let mut line = "    ".to_string();
    line.append(entry.dictionary.as_str());
    line.append(".");
    if let Some(section) = &entry.section {
        line.append(section.as_str());
        line.append(".");
    }
    line.append(entry.key.as_str());
    line.append("=");
    line.append(entry.value.as_str());
    line
}

/// The properties.
pub open spec fn property_entry_items(items: Seq<SolverPropertyEntryPlan>) -> Seq<Seq<char>> {
    Seq::new(items.len(), |i: int| property_entry_line(items[i]))
}

fn property_entry_list(items: &Vec<SolverPropertyEntryPlan>) -> (lines: TextList)
    ensures
        lines@ == property_entry_items(items@),
{
    let lines = layout::listed(items, property_entry);
    assert(lines@ =~= property_entry_items(items@));
    lines
}

/// What is shown of the properties.
pub open spec fn properties_shown(found: SolverPropertiesPlan) -> Seq<Seq<char>> {
    Seq::empty().push(properties_sizes_line(found)) + property_dictionary_items(
        found.dictionaries@,
    ) + property_entry_items(found.entries@)
}

/// What is shown of the properties.
pub fn solver_properties_lines(found: &SolverPropertiesPlan) -> (lines: TextList)
    ensures
        lines@ == properties_shown(*found),
{
    let mut lines = TextList::new();
    lines.push(properties_sizes(found));
    lines.extend(property_dictionary_list(&found.dictionaries));
    lines.extend(property_entry_list(&found.entries));
    lines
}

/// How many of the first `n` fields can be held by processors, by graphics
/// processors, and laid out in memory.
pub open spec fn capable(fields: Seq<SolverStateFieldPlan>, n: int) -> (nat, nat, nat)
    decreases n,
{
    if n <= 0 {
        (0, 0, 0)
    } else {
        let (cpu, gpu, buffers) = capable(fields, n - 1);
        let field = fields[n - 1];
        (
            if field.storage.cpu_capable {
                cpu + 1
            } else {
                cpu
            },
            if field.storage.gpu_capable {
                gpu + 1
            } else {
                gpu
            },
            if field.cpu_buffer.materializable {
                buffers + 1
            } else {
                buffers
            },
        )
    }
}

/// The bytes of the first `n` fields, if they can be counted.
pub open spec fn bytes_before(fields: Seq<SolverStateFieldPlan>, n: int) -> Option<usize>
    decreases n,
{
    if n <= 0 {
        Some(0)
    } else {
        match bytes_before(fields, n - 1) {
            None => None,
            Some(total) => match fields[n - 1].storage.bytes_f64 {
                None => Some(total),
                Some(bytes) => if total + bytes <= usize::MAX {
                    Some((total + bytes) as usize)
                } else {
                    None
                },
            },
        }
    }
}

fn count_capable(fields: &Vec<SolverStateFieldPlan>) -> (counts: (usize, usize, usize))
    ensures
        ({
            let found = capable(fields@, fields@.len() as int);
            counts.0 == found.0 && counts.1 == found.1 && counts.2 == found.2
        }),
{
    let mut cpu: usize = 0;
    let mut gpu: usize = 0;
    let mut buffers: usize = 0;
    let mut at: usize = 0;
    while at < fields.len()
        invariant
            at <= fields@.len(),
            cpu <= at,
            gpu <= at,
            buffers <= at,
            ({
                let found = capable(fields@, at as int);
                cpu == found.0 && gpu == found.1 && buffers == found.2
            }),
        decreases fields@.len() - at,
    {
        if fields[at].storage.cpu_capable {
            cpu += 1;
        }
        if fields[at].storage.gpu_capable {
            gpu += 1;
        }
        if fields[at].cpu_buffer.materializable {
            buffers += 1;
        }
        at += 1;
    }
    (cpu, gpu, buffers)
}

fn total_bytes(fields: &Vec<SolverStateFieldPlan>) -> (total: Option<usize>)
    ensures
        total == bytes_before(fields@, fields@.len() as int),
{
    let mut total: Option<usize> = Some(0);
    let mut at: usize = 0;
    while at < fields.len()
        invariant
            at <= fields@.len(),
            total == bytes_before(fields@, at as int),
        decreases fields@.len() - at,
    {
        if let Some(sum) = total {
            if let Some(bytes) = fields[at].storage.bytes_f64 {
                total = sum.checked_add(bytes);
            }
        }
        at += 1;
    }
    total
}

/// The sizes of the state; `what` is what it is the state of.
pub open spec fn state_sizes_line(what: Seq<char>, state: SolverStatePlan) -> Seq<char> {
    let fields = state.fields@;
    let found = capable(fields, fields.len() as int);
    what + " state: fields="@ + text::decimal(fields.len()) + " cpuCapable="@ + text::decimal(
        found.0,
    ) + " gpuCapable="@ + text::decimal(found.1) + " cpuBuffers="@ + text::decimal(found.2)
        + " bytesF64="@ + layout::count_or(bytes_before(fields, fields.len() as int), "missing"@)
}

fn state_sizes(what: &str, state: &SolverStatePlan) -> (line: String)
    ensures
        line@ == state_sizes_line(what@, *state),
{
    let found = count_capable(&state.fields);
    let mut line = what.to_string();
    line.append(" state: fields=");
    line.append(text::number_text(state.fields.len()).as_str());
    line.append(" cpuCapable=");
    line.append(text::number_text(found.0).as_str());
    line.append(" gpuCapable=");
    line.append(text::number_text(found.1).as_str());
    line.append(" cpuBuffers=");
    line.append(text::number_text(found.2).as_str());
    line.append(" bytesF64=");
    line.append(layout::count_or_text(total_bytes(&state.fields), "missing").as_str());
    line
}

/// What the solver holds of a field.
pub open spec fn state_field_line(field: SolverStateFieldPlan) -> Seq<char> {
    "  "@
        + layout::regional(text::opt_text(field.region), field.name@)
        + ": class="@
        + layout::text_or(text::opt_text(field.class_name), "unknown"@)
        + " kind="@
        + plan::field_kind_name(field.kind)
        + " meshCells="@
        + layout::count_or(field.mesh_cells, "missing"@)
        + " internal="@
        + plan::value_kind_name(field.internal_field.kind)
        + " values="@
        + layout::count_or(field.internal_field.value_count, "missing"@)
        + " expected="@
        + layout::count_or(field.internal_field.expected_count, "missing"@)
        + " valid="@
        + layout::opt_yes_no(field.internal_field.valid_count)
        + " components="@
        + layout::count_or(field.storage.components, "missing"@)
        + " scalarSlots="@
        + layout::count_or(field.storage.scalar_slots, "missing"@)
        + " bytesF64="@
        + layout::count_or(field.storage.bytes_f64, "missing"@)
        + " uniform="@
        + number_list(field.internal_field.uniform_components)
        + " loadedScalars="@
        + layout::count_or(plan::loaded(field.internal_field.nonuniform_values), "missing"@)
        + " boundaryPatches="@
        + text::decimal(field.boundary_patches as nat)
        + "/"@
        + layout::count_or(field.mesh_boundary_patches, "missing"@)
        + " cpu="@
        + layout::yes_no(field.storage.cpu_capable)
        + " gpu="@
        + layout::yes_no(field.storage.gpu_capable)
        + " storage="@
        + plan::storage_status_name(field.storage.status)
        + " cpuBuffer="@
        + layout::yes_no(field.cpu_buffer.materializable)
        + " cpuBufferStatus="@
        + plan::buffer_status_name(field.cpu_buffer.status)
}

/// What the solver holds of a field.
fn state_field(field: &SolverStateFieldPlan) -> (line: String)
    ensures
        line@ == state_field_line(*field),
{
    let mut line = "  ".to_string();
    line.append(layout::regional_text(&field.region, field.name.as_str()).as_str());
    line.append(": class=");
    line.append(layout::text_or_default(&field.class_name, "unknown").as_str());
    line.append(" kind=");
    line.append(field.kind.to_string().as_str());
    line.append(" meshCells=");
    line.append(layout::count_or_text(field.mesh_cells, "missing").as_str());
    line.append(" internal=");
    line.append(field.internal_field.kind.to_string().as_str());
    line.append(" values=");
    line.append(layout::count_or_text(field.internal_field.value_count, "missing").as_str());
    line.append(" expected=");
    line.append(layout::count_or_text(field.internal_field.expected_count, "missing").as_str());
    line.append(" valid=");
    line.append(layout::opt_yes_no_text(field.internal_field.valid_count));
    line.append(" components=");
    line.append(layout::count_or_text(field.storage.components, "missing").as_str());
    line.append(" scalarSlots=");
    line.append(layout::count_or_text(field.storage.scalar_slots, "missing").as_str());
    line.append(" bytesF64=");
    line.append(layout::count_or_text(field.storage.bytes_f64, "missing").as_str());
    line.append(" uniform=");
    line.append(format_optional_f64_list(&field.internal_field.uniform_components).as_str());
    line.append(" loadedScalars=");
    line.append(
        layout::count_or_text(
            plan::loaded_count(&field.internal_field.nonuniform_values),
            "missing",
        ).as_str(),
    );
    line.append(" boundaryPatches=");
    line.append(text::number_text(field.boundary_patches).as_str());
    line.append("/");
    line.append(layout::count_or_text(field.mesh_boundary_patches, "missing").as_str());
    line.append(" cpu=");
    line.append(layout::yes_no_text(field.storage.cpu_capable));
    line.append(" gpu=");
    line.append(layout::yes_no_text(field.storage.gpu_capable));
    line.append(" storage=");
    line.append(field.storage.status.to_string().as_str());
    line.append(" cpuBuffer=");
    line.append(layout::yes_no_text(field.cpu_buffer.materializable));
    line.append(" cpuBufferStatus=");
    line.append(field.cpu_buffer.status.to_string().as_str());
    line
}

/// What the solver holds of the fields.
pub open spec fn state_field_items(items: Seq<SolverStateFieldPlan>) -> Seq<Seq<char>> {
    Seq::new(items.len(), |i: int| state_field_line(items[i]))
}

fn state_field_list(items: &Vec<SolverStateFieldPlan>) -> (lines: TextList)
    ensures
        lines@ == state_field_items(items@),
{
    let lines = layout::listed(items, state_field);
    assert(lines@ =~= state_field_items(items@));
    lines
}

/// What the runner holds of a field.
pub open spec fn runner_field_line(field: SolverStateFieldPlan) -> Seq<char> {
    "  field "@
        + layout::regional(text::opt_text(field.region), field.name@)
        + ": kind="@
        + plan::field_kind_name(field.kind)
        + " internal="@
        + plan::value_kind_name(field.internal_field.kind)
        + " values="@
        + layout::count_or(field.internal_field.value_count, "missing"@)
        + " expected="@
        + layout::count_or(field.internal_field.expected_count, "missing"@)
        + " components="@
        + layout::count_or(field.storage.components, "missing"@)
        + " scalarSlots="@
        + layout::count_or(field.storage.scalar_slots, "missing"@)
        + " bytesF64="@
        + layout::count_or(field.storage.bytes_f64, "missing"@)
        + " uniform="@
        + number_list(field.internal_field.uniform_components)
        + " loadedScalars="@
        + layout::count_or(plan::loaded(field.internal_field.nonuniform_values), "missing"@)
        + " cpu="@
        + layout::yes_no(field.storage.cpu_capable)
        + " gpu="@
        + layout::yes_no(field.storage.gpu_capable)
        + " storage="@
        + plan::storage_status_name(field.storage.status)
        + " cpuBuffer="@
        + layout::yes_no(field.cpu_buffer.materializable)
        + " cpuBufferStatus="@
        + plan::buffer_status_name(field.cpu_buffer.status)
}

/// What the runner holds of a field.
fn runner_field(field: &SolverStateFieldPlan) -> (line: String)
    ensures
        line@ == runner_field_line(*field),
{
    let mut line = "  field ".to_string();
    line.append(layout::regional_text(&field.region, field.name.as_str()).as_str());
    line.append(": kind=");
    line.append(field.kind.to_string().as_str());
    line.append(" internal=");
    line.append(field.internal_field.kind.to_string().as_str());
    line.append(" values=");
    line.append(layout::count_or_text(field.internal_field.value_count, "missing").as_str());
    line.append(" expected=");
    line.append(layout::count_or_text(field.internal_field.expected_count, "missing").as_str());
    line.append(" components=");
    line.append(layout::count_or_text(field.storage.components, "missing").as_str());
    line.append(" scalarSlots=");
    line.append(layout::count_or_text(field.storage.scalar_slots, "missing").as_str());
    line.append(" bytesF64=");
    line.append(layout::count_or_text(field.storage.bytes_f64, "missing").as_str());
    line.append(" uniform=");
    line.append(format_optional_f64_list(&field.internal_field.uniform_components).as_str());
    line.append(" loadedScalars=");
    line.append(
        layout::count_or_text(
            plan::loaded_count(&field.internal_field.nonuniform_values),
            "missing",
        ).as_str(),
    );
    line.append(" cpu=");
    line.append(layout::yes_no_text(field.storage.cpu_capable));
    line.append(" gpu=");
    line.append(layout::yes_no_text(field.storage.gpu_capable));
    line.append(" storage=");
    line.append(field.storage.status.to_string().as_str());
    line.append(" cpuBuffer=");
    line.append(layout::yes_no_text(field.cpu_buffer.materializable));
    line.append(" cpuBufferStatus=");
    line.append(field.cpu_buffer.status.to_string().as_str());
    line
}

/// What the runner holds of the fields.
pub open spec fn runner_field_items(items: Seq<SolverStateFieldPlan>) -> Seq<Seq<char>> {
    Seq::new(items.len(), |i: int| runner_field_line(items[i]))
}

fn runner_field_list(items: &Vec<SolverStateFieldPlan>) -> (lines: TextList)
    ensures
        lines@ == runner_field_items(items@),
{
    let lines = layout::listed(items, runner_field);
    assert(lines@ =~= runner_field_items(items@));
    lines
}

/// The warnings on the state.
pub open spec fn state_warning_items(items: Seq<String>) -> Seq<Seq<char>> {
    Seq::new(items.len(), |i: int| "solver state warning: "@ + items[i]@)
}

fn state_warning_list(items: &Vec<String>) -> (lines: TextList)
    ensures
        lines@ == state_warning_items(items@),
{
    layout::prefixed("solver state warning: ", items)
}

/// The warnings on the state of the runner.
pub open spec fn runner_state_warning_items(items: Seq<String>) -> Seq<Seq<char>> {
    Seq::new(items.len(), |i: int| "runner state warning: "@ + items[i]@)
}

fn runner_state_warning_list(items: &Vec<String>) -> (lines: TextList)
    ensures
        lines@ == runner_state_warning_items(items@),
{
    layout::prefixed("runner state warning: ", items)
}

/// The warnings on the arrays.
pub open spec fn runtime_warning_items(items: Seq<String>) -> Seq<Seq<char>> {
    Seq::new(items.len(), |i: int| "runtime data warning: "@ + items[i]@)
}

fn runtime_warning_list(items: &Vec<String>) -> (lines: TextList)
    ensures
        lines@ == runtime_warning_items(items@),
{
    layout::prefixed("runtime data warning: ", items)
}

/// The warnings on the devices of the runner.
pub open spec fn runner_runtime_warning_items(items: Seq<String>) -> Seq<Seq<char>> {
    Seq::new(items.len(), |i: int| "runner runtime warning: "@ + items[i]@)
}

fn runner_runtime_warning_list(items: &Vec<String>) -> (lines: TextList)
    ensures
        lines@ == runner_runtime_warning_items(items@),
{
    layout::prefixed("runner runtime warning: ", items)
}

/// The warnings on the dry run.
pub open spec fn dry_run_warning_items(items: Seq<String>) -> Seq<Seq<char>> {
    Seq::new(items.len(), |i: int| "runner dry-run warning: "@ + items[i]@)
}

fn dry_run_warning_list(items: &Vec<String>) -> (lines: TextList)
    ensures
        lines@ == dry_run_warning_items(items@),
{
    layout::prefixed("runner dry-run warning: ", items)
}

/// The warnings on the case.
pub open spec fn preflight_warning_items(items: Seq<String>) -> Seq<Seq<char>> {
    Seq::new(items.len(), |i: int| "  "@ + items[i]@)
}

fn preflight_warning_list(items: &Vec<String>) -> (lines: TextList)
    ensures
        lines@ == preflight_warning_items(items@),
{
    layout::prefixed("  ", items)
}

/// What is shown of the state.
pub open spec fn state_shown(state: SolverStatePlan) -> Seq<Seq<char>> {
    Seq::empty().push(state_sizes_line("solver"@, state)) + state_field_items(state.fields@)
        + state_warning_items(state.warnings@)
}

/// What is shown of the state.
pub fn solver_state_lines(state: &SolverStatePlan) -> (lines: TextList)
    ensures
        lines@ == state_shown(*state),
{
    let mut lines = TextList::new();
    lines.push(state_sizes("solver", state));
    lines.extend(state_field_list(&state.fields));
    lines.extend(state_warning_list(&state.warnings));
    lines
}

/// What is shown of the state of the runner.
pub open spec fn runner_state_shown(state: SolverStatePlan) -> Seq<Seq<char>> {
    Seq::empty().push(state_sizes_line("runner"@, state)) + runner_field_items(state.fields@)
        + runner_state_warning_items(state.warnings@)
}

/// What is shown of the state of the runner.
pub fn runner_state_lines(state: &SolverStatePlan) -> (lines: TextList)
    ensures
        lines@ == runner_state_shown(*state),
{
    let mut lines = TextList::new();
    lines.push(state_sizes("runner", state));
    lines.extend(runner_field_list(&state.fields));
    lines.extend(runner_state_warning_list(&state.warnings));
    lines
}

/// The numbers and bytes of the first `n` field arrays.
pub open spec fn array_sums(fields: Seq<SolverRuntimeFieldPlan>, n: int) -> (nat, nat)
    decreases n,
{
    if n <= 0 {
        (0, 0)
    } else {
        let (scalars, bytes) = array_sums(fields, n - 1);
        (
            scalars + fields[n - 1].scalar_slots as nat,
            bytes + fields[n - 1].bytes_f64 as nat,
        )
    }
}

/// Whether the numbers and bytes of field arrays can be counted.
pub open spec fn countable(fields: Seq<SolverRuntimeFieldPlan>) -> bool {
    array_sums(fields, fields.len() as int).0 <= usize::MAX && array_sums(
        fields,
        fields.len() as int,
    ).1 <= usize::MAX
}

proof fn lemma_array_sums(fields: Seq<SolverRuntimeFieldPlan>, n: int, m: int)
    requires
        0 <= n <= m <= fields.len(),
    ensures
        array_sums(fields, n).0 <= array_sums(fields, m).0,
        array_sums(fields, n).1 <= array_sums(fields, m).1,
    decreases m,
{
    if n < m {
        lemma_array_sums(fields, n, m - 1);
    }
}

fn sum_arrays(fields: &Vec<SolverRuntimeFieldPlan>) -> (sums: (usize, usize))
    requires
        countable(fields@),
    ensures
        ({
            let found = array_sums(fields@, fields@.len() as int);
            sums.0 == found.0 && sums.1 == found.1
        }),
{
    let mut scalars: usize = 0;
    let mut bytes: usize = 0;
    let mut at: usize = 0;
    while at < fields.len()
        invariant
            at <= fields@.len(),
            countable(fields@),
            scalars == array_sums(fields@, at as int).0,
            bytes == array_sums(fields@, at as int).1,
        decreases fields@.len() - at,
    {
        proof {
            lemma_array_sums(fields@, at + 1, fields@.len() as int);
        }
        scalars += fields[at].scalar_slots;
        bytes += fields[at].bytes_f64;
        at += 1;
    }
    (scalars, bytes)
}

/// The sizes of the arrays.
pub open spec fn runtime_sizes_line(runtime: SolverRuntimePlan) -> Seq<char> {
    let sums = array_sums(runtime.fields@, runtime.fields@.len() as int);
    "runtime data: meshGeometry=yes fields="@ + text::decimal(runtime.fields@.len())
        + " fieldScalars="@ + text::decimal(sums.0) + " fieldBytesF64="@ + text::decimal(sums.1)
        + " warnings="@ + text::decimal(runtime.warnings@.len())
}

fn runtime_sizes(runtime: &SolverRuntimePlan) -> (line: String)
    requires
        countable(runtime.fields@),
    ensures
        line@ == runtime_sizes_line(*runtime),
{
    let sums = sum_arrays(&runtime.fields);
    let mut line = "runtime data: meshGeometry=yes fields=".to_string();
    line.append(text::number_text(runtime.fields.len()).as_str());
    line.append(" fieldScalars=");
    line.append(text::number_text(sums.0).as_str());
    line.append(" fieldBytesF64=");
    line.append(text::number_text(sums.1).as_str());
    line.append(" warnings=");
    line.append(text::number_text(runtime.warnings.len()).as_str());
    line
}

/// The mesh arrays.
pub open spec fn runtime_mesh_line(mesh: SolverRuntimeMeshPlan) -> Seq<char> {
    "runtime mesh: points="@
        + text::decimal(mesh.points as nat)
        + " cells="@
        + text::decimal(mesh.cells as nat)
        + " faces="@
        + text::decimal(mesh.faces as nat)
        + " internal="@
        + text::decimal(mesh.internal_faces as nat)
        + " boundary="@
        + text::decimal(mesh.boundary_faces as nat)
        + " ownerLabels="@
        + text::decimal(mesh.owner_labels as nat)
        + " neighbourLabels="@
        + text::decimal(mesh.neighbour_labels as nat)
        + " patches="@
        + text::decimal(mesh.patches@.len())
}

/// The mesh arrays.
fn runtime_mesh(mesh: &SolverRuntimeMeshPlan) -> (line: String)
    ensures
        line@ == runtime_mesh_line(*mesh),
{
    let mut line = "runtime mesh: points=".to_string();
    line.append(text::number_text(mesh.points).as_str());
    line.append(" cells=");
    line.append(text::number_text(mesh.cells).as_str());
    line.append(" faces=");
    line.append(text::number_text(mesh.faces).as_str());
    line.append(" internal=");
    line.append(text::number_text(mesh.internal_faces).as_str());
    line.append(" boundary=");
    line.append(text::number_text(mesh.boundary_faces).as_str());
    line.append(" ownerLabels=");
    line.append(text::number_text(mesh.owner_labels).as_str());
    line.append(" neighbourLabels=");
    line.append(text::number_text(mesh.neighbour_labels).as_str());
    line.append(" patches=");
    line.append(text::number_text(mesh.patches.len()).as_str());
    line
}

/// The geometry arrays.
pub open spec fn runtime_geometry_line(mesh: SolverRuntimeMeshPlan) -> Seq<char> {
    "runtime geometry arrays: cellCentres="@
        + text::decimal(mesh.cell_centres as nat)
        + " faceCentres="@
        + text::decimal(mesh.face_centres as nat)
        + " faceAreaVectors="@
        + text::decimal(mesh.face_area_vectors as nat)
        + " cellVolumes="@
        + text::decimal(mesh.cell_volumes as nat)
        + " totalVolume="@
        + mesh.total_cell_volume.scientific@
        + " minCellVolume="@
        + mesh.min_cell_volume.scientific@
        + " maxCellVolume="@
        + mesh.max_cell_volume.scientific@
        + " minFaceArea="@
        + mesh.min_face_area.scientific@
        + " maxFaceArea="@
        + mesh.max_face_area.scientific@
        + " nonPositiveCellVolumes="@
        + text::decimal(mesh.non_positive_cell_volumes as nat)
}

/// The geometry arrays.
fn runtime_geometry(mesh: &SolverRuntimeMeshPlan) -> (line: String)
    ensures
        line@ == runtime_geometry_line(*mesh),
{
    let mut line = "runtime geometry arrays: cellCentres=".to_string();
    line.append(text::number_text(mesh.cell_centres).as_str());
    line.append(" faceCentres=");
    line.append(text::number_text(mesh.face_centres).as_str());
    line.append(" faceAreaVectors=");
    line.append(text::number_text(mesh.face_area_vectors).as_str());
    line.append(" cellVolumes=");
    line.append(text::number_text(mesh.cell_volumes).as_str());
    line.append(" totalVolume=");
    line.append(mesh.total_cell_volume.scientific.as_str());
    line.append(" minCellVolume=");
    line.append(mesh.min_cell_volume.scientific.as_str());
    line.append(" maxCellVolume=");
    line.append(mesh.max_cell_volume.scientific.as_str());
    line.append(" minFaceArea=");
    line.append(mesh.min_face_area.scientific.as_str());
    line.append(" maxFaceArea=");
    line.append(mesh.max_face_area.scientific.as_str());
    line.append(" nonPositiveCellVolumes=");
    line.append(text::number_text(mesh.non_positive_cell_volumes).as_str());
    line
}

/// A patch.
pub open spec fn runtime_patch_line(patch: SolverRuntimePatchRange) -> Seq<char> {
    "  "@
        + patch.name@
        + ": type="@
        + patch.patch_type@
        + " faces="@
        + text::decimal(patch.faces as nat)
        + " startFace="@
        + text::decimal(patch.start_face as nat)
}

/// A patch.
fn runtime_patch(patch: &SolverRuntimePatchRange) -> (line: String)
    ensures
        line@ == runtime_patch_line(*patch),
{
    let mut line = "  ".to_string();
    line.append(patch.name.as_str());
    line.append(": type=");
    line.append(patch.patch_type.as_str());
    line.append(" faces=");
    line.append(text::number_text(patch.faces).as_str());
    line.append(" startFace=");
    line.append(text::number_text(patch.start_face).as_str());
    line
}

/// The patches.
pub open spec fn runtime_patch_items(items: Seq<SolverRuntimePatchRange>) -> Seq<Seq<char>> {
    Seq::new(items.len(), |i: int| runtime_patch_line(items[i]))
}

fn runtime_patch_list(items: &Vec<SolverRuntimePatchRange>) -> (lines: TextList)
    ensures
        lines@ == runtime_patch_items(items@),
{
    let lines = layout::listed(items, runtime_patch);
    assert(lines@ =~= runtime_patch_items(items@));
    lines
}

/// A field array.
pub open spec fn runtime_field_line(field: SolverRuntimeFieldPlan) -> Seq<char> {
    "  "@
        + layout::regional(text::opt_text(field.region), field.name@)
        + ": kind="@
        + plan::field_kind_name(field.kind)
        + " components="@
        + text::decimal(field.components as nat)
        + " scalarSlots="@
        + text::decimal(field.scalar_slots as nat)
        + " bytesF64="@
        + text::decimal(field.bytes_f64 as nat)
        + " values="@
        + text::decimal(field.values as nat)
}

/// A field array.
fn runtime_field(field: &SolverRuntimeFieldPlan) -> (line: String)
    ensures
        line@ == runtime_field_line(*field),
{
    let mut line = "  ".to_string();
    line.append(layout::regional_text(&field.region, field.name.as_str()).as_str());
    line.append(": kind=");
    line.append(field.kind.to_string().as_str());
    line.append(" components=");
    line.append(text::number_text(field.components).as_str());
    line.append(" scalarSlots=");
    line.append(text::number_text(field.scalar_slots).as_str());
    line.append(" bytesF64=");
    line.append(text::number_text(field.bytes_f64).as_str());
    line.append(" values=");
    line.append(text::number_text(field.values).as_str());
    line
}

/// The field arrays.
pub open spec fn runtime_field_items(items: Seq<SolverRuntimeFieldPlan>) -> Seq<Seq<char>> {
    Seq::new(items.len(), |i: int| runtime_field_line(items[i]))
}

fn runtime_field_list(items: &Vec<SolverRuntimeFieldPlan>) -> (lines: TextList)
    ensures
        lines@ == runtime_field_items(items@),
{
    let lines = layout::listed(items, runtime_field);
    assert(lines@ =~= runtime_field_items(items@));
    lines
}

/// The field arrays under their heading.
pub open spec fn buffers_block(items: Seq<SolverRuntimeFieldPlan>) -> Seq<Seq<char>> {
    if items.len() == 0 {
        Seq::empty().push("runtime field buffers: none"@)
    } else {
        Seq::empty().push("runtime field buffers:"@) + runtime_field_items(items)
    }
}

fn buffers_lines(items: &Vec<SolverRuntimeFieldPlan>) -> (lines: TextList)
    ensures
        lines@ == buffers_block(items@),
{
    let mut lines = TextList::new();
    if items.len() == 0 {
        lines.add("runtime field buffers: none");
    } else {
        lines.add("runtime field buffers:");
        lines.extend(runtime_field_list(items));
    }
    lines
}

/// The meshes of the regions under their heading.
pub open spec fn regions_block(items: Seq<SolverRegionMeshPlan>) -> Seq<Seq<char>> {
    if items.len() == 0 {
        Seq::empty().push("region meshes: none"@)
    } else {
        Seq::empty().push("region meshes:"@) + region_mesh_items(items)
    }
}

fn regions_lines(items: &Vec<SolverRegionMeshPlan>) -> (lines: TextList)
    ensures
        lines@ == regions_block(items@),
{
    let mut lines = TextList::new();
    if items.len() == 0 {
        lines.add("region meshes: none");
    } else {
        lines.add("region meshes:");
        lines.extend(region_mesh_list(items));
    }
    lines
}

/// The fields under their heading.
pub open spec fn entries_block(items: Seq<SolverFieldEntryPlan>) -> Seq<Seq<char>> {
    if items.len() == 0 {
        Seq::empty().push("fields: none"@)
    } else {
        Seq::empty().push("fields:"@) + field_entry_items(items)
    }
}

fn entries_lines(items: &Vec<SolverFieldEntryPlan>) -> (lines: TextList)
    ensures
        lines@ == entries_block(items@),
{
    let mut lines = TextList::new();
    if items.len() == 0 {
        lines.add("fields: none");
    } else {
        lines.add("fields:");
        lines.extend(field_entry_list(items));
    }
    lines
}

/// The warnings under their heading.
pub open spec fn warnings_block(items: Seq<String>) -> Seq<Seq<char>> {
    if items.len() == 0 {
        Seq::empty().push("preflight warnings: none"@)
    } else {
        Seq::empty().push("preflight warnings:"@) + preflight_warning_items(items)
    }
}

fn warnings_lines(items: &Vec<String>) -> (lines: TextList)
    ensures
        lines@ == warnings_block(items@),
{
    let mut lines = TextList::new();
    if items.len() == 0 {
        lines.add("preflight warnings: none");
    } else {
        lines.add("preflight warnings:");
        lines.extend(preflight_warning_list(items));
    }
    lines
}

/// What is shown of the arrays.
pub open spec fn runtime_shown(runtime: SolverRuntimePlan) -> Seq<Seq<char>> {
    Seq::empty().push(runtime_sizes_line(runtime)).push(runtime_mesh_line(runtime.mesh)).push(
        runtime_geometry_line(runtime.mesh),
    ).push("runtime patches:"@) + runtime_patch_items(runtime.mesh.patches@) + buffers_block(
        runtime.fields@,
    ) + runtime_warning_items(runtime.warnings@)
}

/// What is shown of the arrays.
pub fn solver_runtime_lines(runtime: &SolverRuntimePlan) -> (lines: TextList)
    requires
        countable(runtime.fields@),
    ensures
        lines@ == runtime_shown(*runtime),
{
    let mut lines = TextList::new();
    lines.push(runtime_sizes(runtime));
    lines.push(runtime_mesh(&runtime.mesh));
    lines.push(runtime_geometry(&runtime.mesh));
    lines.add("runtime patches:");
    lines.extend(runtime_patch_list(&runtime.mesh.patches));
    lines.extend(buffers_lines(&runtime.fields));
    lines.extend(runtime_warning_list(&runtime.warnings));
    lines
}

/// The size of a numerics dictionary.
pub open spec fn numerics_sizes_line(name: Seq<char>, found: SolverNumericsDictionaryPlan) -> Seq<char> {
    name
        + ": present="@
        + layout::yes_no(found.present)
        + " sections="@
        + text::decimal(found.sections@.len())
        + " entries="@
        + text::decimal(found.entries@.len())
}

/// The size of a numerics dictionary.
fn numerics_sizes(name: &str, found: &SolverNumericsDictionaryPlan) -> (line: String)
    ensures
        line@ == numerics_sizes_line(name@, *found),
{
    let mut line = name.to_string();
    line.append(": present=");
    line.append(layout::yes_no_text(found.present));
    line.append(" sections=");
    line.append(text::number_text(found.sections.len()).as_str());
    line.append(" entries=");
    line.append(text::number_text(found.entries.len()).as_str());
    line
}

/// An entry.
pub open spec fn numerics_entry_line(entry: SolverNumericsEntryPlan) -> Seq<char> {
    "  "@
        + entry.section@
        + "."@
        + entry.key@
        + "="@
        + entry.value@
}

/// An entry.
fn numerics_entry(entry: &SolverNumericsEntryPlan) -> (line: String)
    ensures
        line@ == numerics_entry_line(*entry),
{
    let mut line = "  ".to_string();
    line.append(entry.section.as_str());
    line.append(".");
    line.append(entry.key.as_str());
    line.append("=");
    line.append(entry.value.as_str());
    line
}

/// The entries.
pub open spec fn numerics_entry_items(items: Seq<SolverNumericsEntryPlan>) -> Seq<Seq<char>> {
    Seq::new(items.len(), |i: int| numerics_entry_line(items[i]))
}

fn numerics_entry_list(items: &Vec<SolverNumericsEntryPlan>) -> (lines: TextList)
    ensures
        lines@ == numerics_entry_items(items@),
{
    let lines = layout::listed(items, numerics_entry);
    assert(lines@ =~= numerics_entry_items(items@));
    lines
}

/// What is shown of a numerics dictionary.
pub open spec fn numerics_shown(name: Seq<char>, found: SolverNumericsDictionaryPlan) -> Seq<
    Seq<char>,
> {
    Seq::empty().push(numerics_sizes_line(name, found)) + numerics_entry_items(found.entries@)
}

/// What is shown of a numerics dictionary.
pub fn solver_numerics_lines(name: &str, found: &SolverNumericsDictionaryPlan) -> (lines: TextList)
    ensures
        lines@ == numerics_shown(name@, *found),
{
    let mut lines = TextList::new();
    lines.push(numerics_sizes(name, found));
    lines.extend(numerics_entry_list(&found.entries));
    lines
}

/// The backends.
pub open spec fn backend_choice_line(found: SolverBackendPlan) -> Seq<char> {
    "backend plan: config="@
        + layout::yes_no(found.config_present)
        + " default="@
        + backends::choice_name(found.default)
        + " usesCpu="@
        + text::bool_text(found.uses_cpu)
        + " usesGpu="@
        + text::bool_text(found.uses_gpu)
        + " mixed="@
        + text::bool_text(found.mixed_execution)
}

/// The backends.
fn backend_choice(found: &SolverBackendPlan) -> (line: String)
    ensures
        line@ == backend_choice_line(*found),
{
    let mut line = "backend plan: config=".to_string();
    line.append(layout::yes_no_text(found.config_present));
    line.append(" default=");
    line.append(found.default.to_string().as_str());
    line.append(" usesCpu=");
    line.append(text::flag_text(found.uses_cpu));
    line.append(" usesGpu=");
    line.append(text::flag_text(found.uses_gpu));
    line.append(" mixed=");
    line.append(text::flag_text(found.mixed_execution));
    line
}

/// The processors.
pub open spec fn cpu_resources_line(cpu: SolverCpuResourcePlan) -> Seq<char> {
    "cpu resources: cpus="@
        + cpu.cpus@
        + " coresPerCpu="@
        + cpu.cores_per_cpu@
        + " threads="@
        + cpu.threads@
        + " threadPinning="@
        + cpu.thread_pinning@
        + " numa="@
        + cpu.numa@
}

/// The processors.
fn cpu_resources(cpu: &SolverCpuResourcePlan) -> (line: String)
    ensures
        line@ == cpu_resources_line(*cpu),
{
    let mut line = "cpu resources: cpus=".to_string();
    line.append(cpu.cpus.as_str());
    line.append(" coresPerCpu=");
    line.append(cpu.cores_per_cpu.as_str());
    line.append(" threads=");
    line.append(cpu.threads.as_str());
    line.append(" threadPinning=");
    line.append(cpu.thread_pinning.as_str());
    line.append(" numa=");
    line.append(cpu.numa.as_str());
    line
}

/// The graphics processors.
pub open spec fn gpu_resources_line(gpu: SolverGpuResourcePlan) -> Seq<char> {
    "gpu resources: backend="@
        + gpu.backend@
        + " devices="@
        + devices(gpu.devices@)
        + " multiGpu="@
        + gpu.multi_gpu@
        + " precision="@
        + gpu.precision@
}

/// The graphics processors.
fn gpu_resources(gpu: &SolverGpuResourcePlan) -> (line: String)
    ensures
        line@ == gpu_resources_line(*gpu),
{
    let mut line = "gpu resources: backend=".to_string();
    line.append(gpu.backend.as_str());
    line.append(" devices=");
    line.append(format_devices(&gpu.devices).as_str());
    line.append(" multiGpu=");
    line.append(gpu.multi_gpu.as_str());
    line.append(" precision=");
    line.append(gpu.precision.as_str());
    line
}

/// The backend of a step.
pub open spec fn backend_stage_line(stage: SolverBackendStagePlan) -> Seq<char> {
    "  "@
        + stage.section@
        + "."@
        + stage.step@
        + "="@
        + backends::choice_name(stage.choice)
}

/// The backend of a step.
fn backend_stage(stage: &SolverBackendStagePlan) -> (line: String)
    ensures
        line@ == backend_stage_line(*stage),
{
    let mut line = "  ".to_string();
    line.append(stage.section.as_str());
    line.append(".");
    line.append(stage.step.as_str());
    line.append("=");
    line.append(stage.choice.to_string().as_str());
    line
}

/// The backends of the steps.
pub open spec fn backend_stage_items(items: Seq<SolverBackendStagePlan>) -> Seq<Seq<char>> {
    Seq::new(items.len(), |i: int| backend_stage_line(items[i]))
}

fn backend_stage_list(items: &Vec<SolverBackendStagePlan>) -> (lines: TextList)
    ensures
        lines@ == backend_stage_items(items@),
{
    let lines = layout::listed(items, backend_stage);
    assert(lines@ =~= backend_stage_items(items@));
    lines
}

/// The backends of the steps under their heading.
pub open spec fn backend_stages_block(items: Seq<SolverBackendStagePlan>) -> Seq<Seq<char>> {
    if items.len() == 0 {
        Seq::empty().push("backend stages: default only"@)
    } else {
        Seq::empty().push("backend stages:"@) + backend_stage_items(items)
    }
}

fn backend_stages_lines(items: &Vec<SolverBackendStagePlan>) -> (lines: TextList)
    ensures
        lines@ == backend_stages_block(items@),
{
    let mut lines = TextList::new();
    if items.len() == 0 {
        lines.add("backend stages: default only");
    } else {
        lines.add("backend stages:");
        lines.extend(backend_stage_list(items));
    }
    lines
}

/// What is shown of the backends.
pub open spec fn backend_shown(found: SolverBackendPlan) -> Seq<Seq<char>> {
    Seq::empty().push(backend_choice_line(found)).push(cpu_resources_line(found.cpu)).push(
        gpu_resources_line(found.gpu),
    ) + backend_stages_block(found.stages@)
}

/// What is shown of the backends.
pub fn solver_backend_lines(found: &SolverBackendPlan) -> (lines: TextList)
    ensures
        lines@ == backend_shown(*found),
{
    let mut lines = TextList::new();
    lines.push(backend_choice(found));
    lines.push(cpu_resources(&found.cpu));
    lines.push(gpu_resources(&found.gpu));
    lines.extend(backend_stages_lines(&found.stages));
    lines
}

/// The time steps.
pub open spec fn schedule_line(run: SolverRunPlan) -> Seq<char> {
    "run schedule: stopAt="@
        + run.stop_at@
        + " startTime="@
        + layout::opt_display(reals::opt_real(run.start_time))
        + " endTime="@
        + layout::opt_display(reals::opt_real(run.end_time))
        + " deltaT="@
        + layout::opt_display(reals::opt_real(run.delta_t))
        + " estimatedSteps="@
        + layout::count_or(run.estimated_steps, "missing"@)
        + " writeControl="@
        + run.write_control@
        + " writeInterval="@
        + layout::opt_display(reals::opt_real(run.write_interval))
        + " estimatedWrites="@
        + layout::count_or(run.estimated_write_events, "missing"@)
}

/// The time steps.
fn schedule(run: &SolverRunPlan) -> (line: String)
    ensures
        line@ == schedule_line(*run),
{
    let mut line = "run schedule: stopAt=".to_string();
    line.append(run.stop_at.as_str());
    line.append(" startTime=");
    line.append(layout::opt_display_text(&run.start_time).as_str());
    line.append(" endTime=");
    line.append(layout::opt_display_text(&run.end_time).as_str());
    line.append(" deltaT=");
    line.append(layout::opt_display_text(&run.delta_t).as_str());
    line.append(" estimatedSteps=");
    line.append(layout::count_or_text(run.estimated_steps, "missing").as_str());
    line.append(" writeControl=");
    line.append(run.write_control.as_str());
    line.append(" writeInterval=");
    line.append(layout::opt_display_text(&run.write_interval).as_str());
    line.append(" estimatedWrites=");
    line.append(layout::count_or_text(run.estimated_write_events, "missing").as_str());
    line
}

/// A step of the run.
pub open spec fn run_stage_line(stage: SolverRunStagePlan) -> Seq<char> {
    "  "@
        + stage.section@
        + "."@
        + stage.step@
        + "="@
        + backends::choice_name(stage.choice)
        + " ("@
        + stage.source@
        + ")"@
}

/// A step of the run.
fn run_stage(stage: &SolverRunStagePlan) -> (line: String)
    ensures
        line@ == run_stage_line(*stage),
{
    let mut line = "  ".to_string();
    line.append(stage.section.as_str());
    line.append(".");
    line.append(stage.step.as_str());
    line.append("=");
    line.append(stage.choice.to_string().as_str());
    line.append(" (");
    line.append(stage.source.as_str());
    line.append(")");
    line
}

/// The steps of the run.
pub open spec fn run_stage_items(items: Seq<SolverRunStagePlan>) -> Seq<Seq<char>> {
    Seq::new(items.len(), |i: int| run_stage_line(items[i]))
}

fn run_stage_list(items: &Vec<SolverRunStagePlan>) -> (lines: TextList)
    ensures
        lines@ == run_stage_items(items@),
{
    let lines = layout::listed(items, run_stage);
    assert(lines@ =~= run_stage_items(items@));
    lines
}

/// The steps of the run under their heading.
pub open spec fn run_stages_block(items: Seq<SolverRunStagePlan>) -> Seq<Seq<char>> {
    if items.len() == 0 {
        Seq::empty().push("run stages: none"@)
    } else {
        Seq::empty().push("run stages:"@) + run_stage_items(items)
    }
}

fn run_stages_lines(items: &Vec<SolverRunStagePlan>) -> (lines: TextList)
    ensures
        lines@ == run_stages_block(items@),
{
    let mut lines = TextList::new();
    if items.len() == 0 {
        lines.add("run stages: none");
    } else {
        lines.add("run stages:");
        lines.extend(run_stage_list(items));
    }
    lines
}

/// What is shown of the run.
pub open spec fn run_shown(run: SolverRunPlan) -> Seq<Seq<char>> {
    Seq::empty().push(schedule_line(run)) + run_stages_block(run.stages@)
}

/// What is shown of the run.
pub fn solver_run_lines(run: &SolverRunPlan) -> (lines: TextList)
    ensures
        lines@ == run_shown(*run),
{
    let mut lines = TextList::new();
    lines.push(schedule(run));
    lines.extend(run_stages_lines(&run.stages));
    lines
}

/// Those of the first `n` warnings that are on the layout of the case.
pub open spec fn compatibility(warnings: Seq<String>, n: int) -> Seq<Seq<char>>
    decreases n,
{
    if n <= 0 {
        Seq::empty()
    } else {
        let earlier = compatibility(warnings, n - 1);
        let warning = warnings[n - 1]@;
        let prefix = "openFOAM compatibility: "@;
        if prefix.is_prefix_of(warning) {
            earlier.push("  "@ + warning.skip(prefix.len() as int))
        } else {
            earlier
        }
    }
}

/// What is shown of the layout of the case.
pub open spec fn compatibility_shown(warnings: Seq<String>) -> Seq<Seq<char>> {
    let found = compatibility(warnings, warnings.len() as int);
    if found.len() == 0 {
        Seq::empty().push(
            "openFOAM compatibility: case layout and required fields look present"@,
        )
    } else {
        Seq::empty().push(
            "openFOAM compatibility: "@ + text::decimal(found.len()) + " item(s) to check"@,
        ) + found
    }
}

/// What is shown of the layout of the case.
pub fn compatibility_lines(warnings: &Vec<String>) -> (lines: TextList)
    ensures
        lines@ == compatibility_shown(warnings@),
{
    let prefix = "openFOAM compatibility: ";
    let ghost all = warnings@;
    let mut found = TextList::new();
    let mut count: usize = 0;
    let mut at: usize = 0;
    while at < warnings.len()
        invariant
            at <= warnings@.len(),
            all == warnings@,
            prefix@ == "openFOAM compatibility: "@,
            found@ == compatibility(all, at as int),
            count == found@.len(),
            count <= at,
        decreases warnings@.len() - at,
    {
        if text::starts_with(warnings[at].as_str(), prefix) {
            let chars = text::chars_of(warnings[at].as_str());
            let head = text::chars_of(prefix);
            let rest = text::text_of(chars.as_slice(), head.len(), chars.len());
            assert(rest@ =~= warnings@[at as int]@.skip(prefix@.len() as int));
            let mut line = "  ".to_string();
            line.append(rest.as_str());
            found.push(line);
            count += 1;
        }
        at += 1;
    }
    let mut lines = TextList::new();
    if count == 0 {
        lines.add("openFOAM compatibility: case layout and required fields look present");
    } else {
        let mut line = "openFOAM compatibility: ".to_string();
        line.append(text::number_text(count).as_str());
        line.append(" item(s) to check");
        lines.push(line);
        lines.extend(found);
    }
    lines
}

/// What is shown of a case before it is solved.
pub open spec fn case_shown(
    plan: SolverCasePlan,
    solvers: LinearSolverSupport,
    assembly: DiffusionAssemblyCapabilities,
) -> Seq<Seq<char>> {
    Seq::empty().push("Ferrum solver preflight"@).push("case: "@ + plan.case_dir@).push(
        control_line(plan),
    ).push(mesh_sizes_line(plan.mesh)).push(special_patches_line(plan.mesh)) + regions_block(
        plan.mesh.region_meshes@,
    ) + entries_block(plan.fields.fields@) + state_shown(plan.state) + runtime_shown(
        plan.runtime_data,
    ) + Seq::empty().push(assembly_support_line(assembly)).push(
        linear_solver_support_line(solvers),
    ) + properties_shown(plan.properties) + numerics_shown(
        "fvSchemes"@,
        plan.numerics.fv_schemes,
    ) + numerics_shown("fvSolution"@, plan.numerics.fv_solution) + Seq::empty().push(
        interface_sizes_line(plan.interfaces),
    ) + backend_shown(plan.backends) + run_shown(plan.run) + compatibility_shown(
        plan.warnings@,
    ) + warnings_block(plan.warnings@) + Seq::empty().push(
        "solver execution: CPU scalar diffusion, Poiseuille, and laminar SIMPLE kernels are available; GPU equation kernels are planned"@,
    )
}

/// What is shown of a case before it is solved.
pub fn solver_case_lines(
    plan: &SolverCasePlan,
    solvers: &LinearSolverSupport,
    assembly: &DiffusionAssemblyCapabilities,
) -> (lines: TextList)
    requires
        countable(plan.runtime_data.fields@),
    ensures
        lines@ == case_shown(*plan, *solvers, *assembly),
{
    let mut lines = TextList::new();
    lines.add("Ferrum solver preflight");
    let mut case_line = "case: ".to_string();
    case_line.append(plan.case_dir.as_str());
    lines.push(case_line);
    lines.push(control(plan));
    lines.push(mesh_sizes(&plan.mesh));
    lines.push(special_patches(&plan.mesh));
    lines.extend(regions_lines(&plan.mesh.region_meshes));
    lines.extend(entries_lines(&plan.fields.fields));
    lines.extend(solver_state_lines(&plan.state));
    lines.extend(solver_runtime_lines(&plan.runtime_data));
    let mut support = TextList::new();
    support.push(assembly_support(assembly));
    support.push(linear_solver_support(solvers));
    lines.extend(support);
    lines.extend(solver_properties_lines(&plan.properties));
    lines.extend(solver_numerics_lines("fvSchemes", &plan.numerics.fv_schemes));
    lines.extend(solver_numerics_lines("fvSolution", &plan.numerics.fv_solution));
    let mut interfaces = TextList::new();
    interfaces.push(interface_sizes(&plan.interfaces));
    lines.extend(interfaces);
    lines.extend(solver_backend_lines(&plan.backends));
    lines.extend(solver_run_lines(&plan.run));
    lines.extend(compatibility_lines(&plan.warnings));
    lines.extend(warnings_lines(&plan.warnings));
    let mut last = TextList::new();
    last.add(
        "solver execution: CPU scalar diffusion, Poiseuille, and laminar SIMPLE kernels are available; GPU equation kernels are planned",
    );
    lines.extend(last);
    lines
}

/// The size of a dry run.
pub open spec fn dry_run_sizes_line(dry_run: SolverRunnerDryRun) -> Seq<char> {
    "runner dry-run: plannedSteps="@
        + layout::count_or(dry_run.planned_steps, "missing"@)
        + " previewSteps="@
        + text::decimal(dry_run.preview_steps as nat)
        + " maxPreviewSteps="@
        + text::decimal(dry_run.max_steps as nat)
        + " stageCount="@
        + text::decimal(dry_run.stage_count as nat)
        + " previewWriteEvents="@
        + text::decimal(dry_run.preview_write_events as nat)
        + " truncated="@
        + text::bool_text(dry_run.truncated)
}

/// The size of a dry run.
fn dry_run_sizes(dry_run: &SolverRunnerDryRun) -> (line: String)
    ensures
        line@ == dry_run_sizes_line(*dry_run),
{
    let mut line = "runner dry-run: plannedSteps=".to_string();
    line.append(layout::count_or_text(dry_run.planned_steps, "missing").as_str());
    line.append(" previewSteps=");
    line.append(text::number_text(dry_run.preview_steps).as_str());
    line.append(" maxPreviewSteps=");
    line.append(text::number_text(dry_run.max_steps).as_str());
    line.append(" stageCount=");
    line.append(text::number_text(dry_run.stage_count).as_str());
    line.append(" previewWriteEvents=");
    line.append(text::number_text(dry_run.preview_write_events).as_str());
    line.append(" truncated=");
    line.append(text::flag_text(dry_run.truncated));
    line
}

/// The devices of the runner.
pub open spec fn runner_runtime_line(runtime: SolverRunnerRuntime) -> Seq<char> {
    "runner runtime: cpuRequested="@
        + layout::yes_no(runtime.cpu.requested)
        + " cpuHandle="@
        + runtime.cpu.handle@
        + " cpuLinearSolvers="@
        + layout::yes_no(runtime.cpu.linear_solvers_available)
        + " cpuKernels="@
        + layout::yes_no(runtime.cpu.kernels_available)
        + " cpuThreads="@
        + runtime.cpu.threads@
        + " gpuRequested="@
        + layout::yes_no(runtime.gpu.requested)
        + " gpuHandle="@
        + runtime.gpu.handle@
        + " gpuLinearSolvers="@
        + layout::yes_no(runtime.gpu.linear_solvers_available)
        + " gpuKernels="@
        + layout::yes_no(runtime.gpu.kernels_available)
        + " gpuBackend="@
        + runtime.gpu.backend@
        + " gpuDevices="@
        + devices(runtime.gpu.devices@)
        + " gpuPrecision="@
        + runtime.gpu.precision@
}

/// The devices of the runner.
fn runner_runtime(runtime: &SolverRunnerRuntime) -> (line: String)
    ensures
        line@ == runner_runtime_line(*runtime),
{
    let mut line = "runner runtime: cpuRequested=".to_string();
    line.append(layout::yes_no_text(runtime.cpu.requested));
    line.append(" cpuHandle=");
    line.append(runtime.cpu.handle.as_str());
    line.append(" cpuLinearSolvers=");
    line.append(layout::yes_no_text(runtime.cpu.linear_solvers_available));
    line.append(" cpuKernels=");
    line.append(layout::yes_no_text(runtime.cpu.kernels_available));
    line.append(" cpuThreads=");
    line.append(runtime.cpu.threads.as_str());
    line.append(" gpuRequested=");
    line.append(layout::yes_no_text(runtime.gpu.requested));
    line.append(" gpuHandle=");
    line.append(runtime.gpu.handle.as_str());
    line.append(" gpuLinearSolvers=");
    line.append(layout::yes_no_text(runtime.gpu.linear_solvers_available));
    line.append(" gpuKernels=");
    line.append(layout::yes_no_text(runtime.gpu.kernels_available));
    line.append(" gpuBackend=");
    line.append(runtime.gpu.backend.as_str());
    line.append(" gpuDevices=");
    line.append(format_devices(&runtime.gpu.devices).as_str());
    line.append(" gpuPrecision=");
    line.append(runtime.gpu.precision.as_str());
    line
}

/// An event of a dry run.
pub open spec fn dry_run_event_line(event: SolverRunnerDryRunEvent) -> Seq<char> {
    match event {
        SolverRunnerDryRunEvent::StepStart { step, time } => "  step "@ + text::decimal(
            step as nat,
        ) + ": time="@ + layout::opt_display(reals::opt_real(time)),
        SolverRunnerDryRunEvent::Stage { step, section, stage, choice, source, dispatch } => {
            "    step "@ + text::decimal(step as nat) + " stage "@ + section@ + "."@ + stage@
                + ": backend="@ + backends::choice_name(choice) + " source="@ + source@
                + " runtimeTarget="@ + dispatch.target@ + " runtimeHandle="@ + dispatch.handle@
                + " executable="@ + layout::yes_no(dispatch.executable) + " status="@
                + dispatch.status@
        },
        SolverRunnerDryRunEvent::Write { step, time } => "    step "@ + text::decimal(step as nat)
            + " write: time="@ + layout::opt_display(reals::opt_real(time))
            + " action=planned-output"@,
    }
}

fn dry_run_event(event: &SolverRunnerDryRunEvent) -> (line: String)
    ensures
        line@ == dry_run_event_line(*event),
{
    match event {
        SolverRunnerDryRunEvent::StepStart { step, time } => {
            let mut line = "  step ".to_string();
            line.append(text::number_text(*step).as_str());
            line.append(": time=");
            line.append(layout::opt_display_text(time).as_str());
            line
        },
        SolverRunnerDryRunEvent::Stage { step, section, stage, choice, source, dispatch } => {
            let mut line = "    step ".to_string();
            line.append(text::number_text(*step).as_str());
            line.append(" stage ");
            line.append(section.as_str());
            line.append(".");
            line.append(stage.as_str());
            line.append(": backend=");
            line.append(choice.to_string().as_str());
            line.append(" source=");
            line.append(source.as_str());
            line.append(" runtimeTarget=");
            line.append(dispatch.target.as_str());
            line.append(" runtimeHandle=");
            line.append(dispatch.handle.as_str());
            line.append(" executable=");
            line.append(layout::yes_no_text(dispatch.executable));
            line.append(" status=");
            line.append(dispatch.status.as_str());
            line
        },
        SolverRunnerDryRunEvent::Write { step, time } => {
            let mut line = "    step ".to_string();
            line.append(text::number_text(*step).as_str());
            line.append(" write: time=");
            line.append(layout::opt_display_text(time).as_str());
            line.append(" action=planned-output");
            line
        },
    }
}

/// The events of a dry run.
pub open spec fn dry_run_event_items(items: Seq<SolverRunnerDryRunEvent>) -> Seq<Seq<char>> {
    Seq::new(items.len(), |i: int| dry_run_event_line(items[i]))
}

fn dry_run_event_list(items: &Vec<SolverRunnerDryRunEvent>) -> (lines: TextList)
    ensures
        lines@ == dry_run_event_items(items@),
{
    let lines = layout::listed(items, dry_run_event);
    assert(lines@ =~= dry_run_event_items(items@));
    lines
}

/// What is shown of a dry run.
pub open spec fn dry_run_shown(dry_run: SolverRunnerDryRun) -> Seq<Seq<char>> {
    Seq::empty().push(dry_run_sizes_line(dry_run)) + runner_state_shown(dry_run.state)
        + Seq::empty().push(runner_runtime_line(dry_run.runtime)) + runner_runtime_warning_items(
        dry_run.runtime.warnings@,
    ) + dry_run_warning_items(dry_run.warnings@) + dry_run_event_items(dry_run.events@)
        + Seq::empty().push("runner dry-run status: no fields updated; no equations solved"@)
}

/// What is shown of a dry run.
pub fn runner_dry_run_lines(dry_run: &SolverRunnerDryRun) -> (lines: TextList)
    ensures
        lines@ == dry_run_shown(*dry_run),
{
    let mut lines = TextList::new();
    lines.push(dry_run_sizes(dry_run));
    lines.extend(runner_state_lines(&dry_run.state));
    let mut runtime = TextList::new();
    runtime.push(runner_runtime(&dry_run.runtime));
    lines.extend(runtime);
    lines.extend(runner_runtime_warning_list(&dry_run.runtime.warnings));
    lines.extend(dry_run_warning_list(&dry_run.warnings));
    lines.extend(dry_run_event_list(&dry_run.events));
    let mut last = TextList::new();
    last.add("runner dry-run status: no fields updated; no equations solved");
    lines.extend(last);
    lines
}

} // verus!
