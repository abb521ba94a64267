//! What is shown of meshes and cases.

use crate::backends;
use crate::backends::{BackendChoice, BackendSection, BackendSelection};
use crate::case_summary::CaseSummary;
use crate::fields;
use crate::fields::{FieldBoundaryPatch, FieldFile, InitialFieldSet};
use crate::foam_case::FoamWriteSummary;
use crate::init::InitCaseSummary;
use crate::interfaces::{InterfaceConfigValidation, ValidatedInterfaceConfigEntry};
use crate::layout;
use crate::layout::TextList;
use crate::ordering::PatchSummary;
use crate::patches::PatchValidationSummary;
use crate::plan::{SolverCpuResourcePlan, SolverGpuResourcePlan};
use crate::plan_text;
use crate::reals::Real;
use crate::regions::{
    InterfaceRegistrySummary, InterfaceSummary, RegionMeshSummary, RegionPatchSummary,
};
use crate::text;
use vstd::prelude::*;

verus! {

/// The extent of a mesh.
#[derive(Debug)]
pub struct GeometrySummary {
    pub cells: usize,
    pub faces: usize,
    pub min_face_area: Real,
    pub max_face_area: Real,
    pub total_boundary_area: Real,
    pub min_cell_volume: Real,
    pub max_cell_volume: Real,
    pub total_cell_volume: Real,
    pub non_positive_cell_volumes: usize,
}

/// Whether the fields of a case fit its patches.
#[derive(Debug)]
pub struct FieldBoundaryValidationSummary {
    pub fields: usize,
    pub warnings: Vec<String>,
}

/// Which devices the backends of a case use, and what is wrong with them.
#[derive(Debug)]
pub struct BackendValidation {
    pub uses_cpu: bool,
    pub uses_gpu: bool,
    pub mixed_execution: bool,
    pub resource_warnings: Vec<String>,
    pub policy_warnings: Vec<String>,
}

/// The patches of a summary.
pub open spec fn patches_shown(items: Seq<String>) -> Seq<Seq<char>> {
    Seq::empty().push("patches:"@) + Seq::new(items.len(), |i: int| "  "@ + items[i]@)
}

fn patches(items: &Vec<String>) -> (lines: TextList)
    ensures
        lines@ == patches_shown(items@),
{
    let mut lines = TextList::new();
    lines.add("patches:");
    lines.extend(layout::prefixed("  ", items));
    lines
}

/// The face zones of a summary.
pub open spec fn face_zones_shown(items: Seq<String>) -> Seq<Seq<char>> {
    Seq::empty().push("face zones:"@) + Seq::new(items.len(), |i: int| "  "@ + items[i]@)
}

fn face_zones(items: &Vec<String>) -> (lines: TextList)
    ensures
        lines@ == face_zones_shown(items@),
{
    let mut lines = TextList::new();
    lines.add("face zones:");
    lines.extend(layout::prefixed("  ", items));
    lines
}

/// The cell zones of a summary.
pub open spec fn cell_zones_shown(items: Seq<String>) -> Seq<Seq<char>> {
    Seq::empty().push("cell zones:"@) + Seq::new(items.len(), |i: int| "  "@ + items[i]@)
}

fn cell_zones(items: &Vec<String>) -> (lines: TextList)
    ensures
        lines@ == cell_zones_shown(items@),
{
    let mut lines = TextList::new();
    lines.add("cell zones:");
    lines.extend(layout::prefixed("  ", items));
    lines
}

/// The face zones that a split starts from.
pub open spec fn detected_zones_shown(items: Seq<String>) -> Seq<Seq<char>> {
    Seq::empty().push("detected face zones:"@) + Seq::new(items.len(), |i: int| "  "@ + items[i]@)
}

fn detected_zones(items: &Vec<String>) -> (lines: TextList)
    ensures
        lines@ == detected_zones_shown(items@),
{
    let mut lines = TextList::new();
    lines.add("detected face zones:");
    lines.extend(layout::prefixed("  ", items));
    lines
}

/// The regions that a split starts from.
pub open spec fn detected_regions_shown(items: Seq<String>) -> Seq<Seq<char>> {
    Seq::empty().push("detected regions:"@) + Seq::new(items.len(), |i: int| "  "@ + items[i]@)
}

fn detected_regions(items: &Vec<String>) -> (lines: TextList)
    ensures
        lines@ == detected_regions_shown(items@),
{
    let mut lines = TextList::new();
    lines.add("detected regions:");
    lines.extend(layout::prefixed("  ", items));
    lines
}

/// The directories that were created.
pub open spec fn created_shown(items: Seq<String>) -> Seq<Seq<char>> {
    Seq::empty().push("created directories:"@) + Seq::new(items.len(), |i: int| "  "@ + items[i]@)
}

fn created(items: &Vec<String>) -> (lines: TextList)
    ensures
        lines@ == created_shown(items@),
{
    let mut lines = TextList::new();
    lines.add("created directories:");
    lines.extend(layout::prefixed("  ", items));
    lines
}

/// The files that were written.
pub open spec fn written_shown(items: Seq<String>) -> Seq<Seq<char>> {
    Seq::empty().push("written files:"@) + Seq::new(items.len(), |i: int| "  "@ + items[i]@)
}

fn written(items: &Vec<String>) -> (lines: TextList)
    ensures
        lines@ == written_shown(items@),
{
    let mut lines = TextList::new();
    lines.add("written files:");
    lines.extend(layout::prefixed("  ", items));
    lines
}

/// The files that were left as they are.
pub open spec fn skipped_shown(items: Seq<String>) -> Seq<Seq<char>> {
    Seq::empty().push("skipped existing files:"@) + Seq::new(items.len(), |i: int| "  "@ + items[i]@)
}

fn skipped(items: &Vec<String>) -> (lines: TextList)
    ensures
        lines@ == skipped_shown(items@),
{
    let mut lines = TextList::new();
    lines.add("skipped existing files:");
    lines.extend(layout::prefixed("  ", items));
    lines
}

/// A size of a summary.
pub open spec fn points_count_line(summary: CaseSummary) -> Seq<char> {
    "points: "@
        + layout::count_or(summary.points, "unknown"@)
}

/// A size of a summary.
fn points_count(summary: &CaseSummary) -> (line: String)
    ensures
        line@ == points_count_line(*summary),
{
    let mut line = "points: ".to_string();
    line.append(layout::count_or_text(summary.points, "unknown").as_str());
    line
}

/// A size of a summary.
pub open spec fn cells_count_line(summary: CaseSummary) -> Seq<char> {
    "cells: "@
        + layout::count_or(summary.cells, "unknown"@)
}

/// A size of a summary.
fn cells_count(summary: &CaseSummary) -> (line: String)
    ensures
        line@ == cells_count_line(*summary),
{
    let mut line = "cells: ".to_string();
    line.append(layout::count_or_text(summary.cells, "unknown").as_str());
    line
}

/// A size of a summary.
pub open spec fn faces_count_line(summary: CaseSummary) -> Seq<char> {
    "faces: "@
        + layout::count_or(summary.faces, "unknown"@)
}

/// A size of a summary.
fn faces_count(summary: &CaseSummary) -> (line: String)
    ensures
        line@ == faces_count_line(*summary),
{
    let mut line = "faces: ".to_string();
    line.append(layout::count_or_text(summary.faces, "unknown").as_str());
    line
}

/// A size of a summary.
pub open spec fn internal_faces_count_line(summary: CaseSummary) -> Seq<char> {
    "internal faces: "@
        + layout::count_or(summary.internal_faces, "unknown"@)
}

/// A size of a summary.
fn internal_faces_count(summary: &CaseSummary) -> (line: String)
    ensures
        line@ == internal_faces_count_line(*summary),
{
    let mut line = "internal faces: ".to_string();
    line.append(layout::count_or_text(summary.internal_faces, "unknown").as_str());
    line
}

/// A size of a summary.
pub open spec fn boundary_faces_count_line(summary: CaseSummary) -> Seq<char> {
    "boundary faces: "@
        + layout::count_or(summary.boundary_faces, "unknown"@)
}

/// A size of a summary.
fn boundary_faces_count(summary: &CaseSummary) -> (line: String)
    ensures
        line@ == boundary_faces_count_line(*summary),
{
    let mut line = "boundary faces: ".to_string();
    line.append(layout::count_or_text(summary.boundary_faces, "unknown").as_str());
    line
}

/// What is shown of the summary of a mesh.
pub open spec fn summary_shown(summary: CaseSummary) -> Seq<Seq<char>> {
    Seq::empty().push("Ferrum mesh check"@).push("case: "@ + summary.path@).push(
        points_count_line(summary),
    ).push(cells_count_line(summary)).push(faces_count_line(summary)).push(
        internal_faces_count_line(summary),
    ).push(boundary_faces_count_line(summary)) + patches_shown(summary.patches@)
        + face_zones_shown(summary.face_zones@) + cell_zones_shown(summary.cell_zones@)
}

fn case_line(path: &str) -> (line: String)
    ensures
        line@ == "case: "@ + path@,
{
    let mut line = "case: ".to_string();
    line.append(path);
    line
}

/// What is shown of the summary of a mesh.
pub fn case_summary_lines(summary: &CaseSummary) -> (lines: TextList)
    ensures
        lines@ == summary_shown(*summary),
{
    let mut lines = TextList::new();
    lines.add("Ferrum mesh check");
    lines.push(case_line(summary.path.as_str()));
    lines.push(points_count(summary));
    lines.push(cells_count(summary));
    lines.push(faces_count(summary));
    lines.push(internal_faces_count(summary));
    lines.push(boundary_faces_count(summary));
    lines.extend(patches(&summary.patches));
    lines.extend(face_zones(&summary.face_zones));
    lines.extend(cell_zones(&summary.cell_zones));
    lines
}

/// A count, or zero where there is none.
pub open spec fn or_zero(count: Option<usize>) -> usize {
    match count {
        Some(found) => found,
        None => 0,
    }
}

fn count_or_zero(count: Option<usize>) -> (found: usize)
    ensures
        found == or_zero(count),
{
    match count {
        Some(inner) => inner,
        None => 0,
    }
}

/// What is shown of the faults of a mesh.
pub open spec fn faults_line(summary: CaseSummary) -> Seq<char> {
    let unmatched = or_zero(summary.unmatched_boundary_faces);
    let duplicate = or_zero(summary.duplicate_boundary_faces);
    let non_manifold = or_zero(summary.non_manifold_faces);
    if unmatched == 0 && duplicate == 0 && non_manifold == 0 {
        "topology warnings: none"@
    } else {
        "topology warnings: unmatchedBoundaryFaces="@ + text::decimal(unmatched as nat)
            + ", duplicateBoundaryFaces="@ + text::decimal(duplicate as nat)
            + ", nonManifoldFaces="@ + text::decimal(non_manifold as nat)
    }
}

/// What is shown of the faults of a mesh.
pub fn topology_warnings(summary: &CaseSummary) -> (line: String)
    ensures
        line@ == faults_line(*summary),
{
    let unmatched: usize = count_or_zero(summary.unmatched_boundary_faces);
    let duplicate: usize = count_or_zero(summary.duplicate_boundary_faces);
    let non_manifold: usize = count_or_zero(summary.non_manifold_faces);
    if unmatched == 0 && duplicate == 0 && non_manifold == 0 {
        return "topology warnings: none".to_string();
    }
    let mut line = "topology warnings: unmatchedBoundaryFaces=".to_string();
    line.append(text::number_text(unmatched).as_str());
    line.append(", duplicateBoundaryFaces=");
    line.append(text::number_text(duplicate).as_str());
    line.append(", nonManifoldFaces=");
    line.append(text::number_text(non_manifold).as_str());
    line
}

/// What is shown of a region split before it is made.
pub open spec fn split_shown(summary: CaseSummary, cell_zones: bool) -> Seq<Seq<char>> {
    Seq::empty().push("Ferrum region split preview"@).push("case: "@ + summary.path@).push(
        if cell_zones {
            "mode: cellZones"@
        } else {
            "mode: cellZones (default)"@
        },
    ) + detected_zones_shown(summary.face_zones@) + detected_regions_shown(summary.cell_zones@)
}

/// What is shown of a region split before it is made; `cell_zones` says
/// whether it was asked to go by cell zones.
pub fn region_split_lines(summary: &CaseSummary, cell_zones: bool) -> (lines: TextList)
    ensures
        lines@ == split_shown(*summary, cell_zones),
{
    let mut lines = TextList::new();
    lines.add("Ferrum region split preview");
    lines.push(case_line(summary.path.as_str()));
    if cell_zones {
        lines.add("mode: cellZones");
    } else {
        lines.add("mode: cellZones (default)");
    }
    lines.extend(detected_zones(&summary.face_zones));
    lines.extend(detected_regions(&summary.cell_zones));
    lines
}

/// An interface of the mesh.
pub open spec fn interface_line(found: InterfaceSummary) -> Seq<char> {
    "  "@
        + found.name@
        + ": "@
        + found.region_a@
        + " <-> "@
        + found.region_b@
        + " faces="@
        + text::decimal(found.faces as nat)
        + " mesh("@
        + found.region_a@
        + "->"@
        + found.region_b@
        + "="@
        + text::decimal(found.mesh_a_to_b_faces as nat)
        + ", "@
        + found.region_b@
        + "->"@
        + found.region_a@
        + "="@
        + text::decimal(found.mesh_b_to_a_faces as nat)
        + ") zone("@
        + found.region_a@
        + "->"@
        + found.region_b@
        + "="@
        + text::decimal(found.zone_a_to_b_faces as nat)
        + ", "@
        + found.region_b@
        + "->"@
        + found.region_a@
        + "="@
        + text::decimal(found.zone_b_to_a_faces as nat)
        + ") flipped="@
        + text::decimal(found.flipped_faces as nat)
}

/// An interface of the mesh.
fn interface(found: &InterfaceSummary) -> (line: String)
    ensures
        line@ == interface_line(*found),
{
    let mut line = "  ".to_string();
    line.append(found.name.as_str());
    line.append(": ");
    line.append(found.region_a.as_str());
    line.append(" <-> ");
    line.append(found.region_b.as_str());
    line.append(" faces=");
    line.append(text::number_text(found.faces).as_str());
    line.append(" mesh(");
    line.append(found.region_a.as_str());
    line.append("->");
    line.append(found.region_b.as_str());
    line.append("=");
    line.append(text::number_text(found.mesh_a_to_b_faces).as_str());
    line.append(", ");
    line.append(found.region_b.as_str());
    line.append("->");
    line.append(found.region_a.as_str());
    line.append("=");
    line.append(text::number_text(found.mesh_b_to_a_faces).as_str());
    line.append(") zone(");
    line.append(found.region_a.as_str());
    line.append("->");
    line.append(found.region_b.as_str());
    line.append("=");
    line.append(text::number_text(found.zone_a_to_b_faces).as_str());
    line.append(", ");
    line.append(found.region_b.as_str());
    line.append("->");
    line.append(found.region_a.as_str());
    line.append("=");
    line.append(text::number_text(found.zone_b_to_a_faces).as_str());
    line.append(") flipped=");
    line.append(text::number_text(found.flipped_faces).as_str());
    line
}

/// The interfaces of the mesh.
pub open spec fn interface_items(items: Seq<InterfaceSummary>) -> Seq<Seq<char>> {
    Seq::new(items.len(), |i: int| interface_line(items[i]))
}

fn interface_list(items: &Vec<InterfaceSummary>) -> (lines: TextList)
    ensures
        lines@ == interface_items(items@),
{
    let lines = layout::listed(items, interface);
    assert(lines@ =~= interface_items(items@));
    lines
}

/// The faces of face zones that lie between no two regions.
pub open spec fn registry_notes_line(registry: InterfaceRegistrySummary) -> Seq<char> {
    "interface registry notes: sameRegionFaceZoneFaces="@
        + text::decimal(registry.same_region_face_zone_faces as nat)
        + ", unknownRegionFaceZoneFaces="@
        + text::decimal(registry.unknown_region_face_zone_faces as nat)
}

/// The faces of face zones that lie between no two regions.
fn registry_notes(registry: &InterfaceRegistrySummary) -> (line: String)
    ensures
        line@ == registry_notes_line(*registry),
{
    let mut line = "interface registry notes: sameRegionFaceZoneFaces=".to_string();
    line.append(text::number_text(registry.same_region_face_zone_faces).as_str());
    line.append(", unknownRegionFaceZoneFaces=");
    line.append(text::number_text(registry.unknown_region_face_zone_faces).as_str());
    line
}

/// What is shown of the interfaces of a mesh.
pub open spec fn registry_shown(registry: InterfaceRegistrySummary) -> Seq<Seq<char>> {
    let found = if registry.interfaces@.len() == 0 {
        Seq::empty()
    } else {
        Seq::empty().push("interfaces:"@) + interface_items(registry.interfaces@)
    };
    if registry.same_region_face_zone_faces > 0 || registry.unknown_region_face_zone_faces > 0 {
        found.push(registry_notes_line(registry))
    } else {
        found
    }
}

/// What is shown of the interfaces of a mesh.
pub fn interface_registry_lines(registry: &InterfaceRegistrySummary) -> (lines: TextList)
    ensures
        lines@ == registry_shown(*registry),
{
    let mut lines = TextList::new();
    if registry.interfaces.len() > 0 {
        lines.add("interfaces:");
        lines.extend(interface_list(&registry.interfaces));
    }
    if registry.same_region_face_zone_faces > 0 || registry.unknown_region_face_zone_faces > 0 {
        lines.push(registry_notes(registry));
    }
    lines
}

/// A configured interface.
pub open spec fn configured_line(entry: ValidatedInterfaceConfigEntry) -> Seq<char> {
    "  "@
        + entry.name@
        + ": faceZone="@
        + entry.face_zone@
        + " sign="@
        + entry.positive_from@
        + "->"@
        + entry.positive_to@
        + " model="@
        + entry.model@
        + " meshFaces="@
        + layout::count_or(entry.mesh_faces, "unknown"@)
}

/// A configured interface.
fn configured(entry: &ValidatedInterfaceConfigEntry) -> (line: String)
    ensures
        line@ == configured_line(*entry),
{
    let mut line = "  ".to_string();
    line.append(entry.name.as_str());
    line.append(": faceZone=");
    line.append(entry.face_zone.as_str());
    line.append(" sign=");
    line.append(entry.positive_from.as_str());
    line.append("->");
    line.append(entry.positive_to.as_str());
    line.append(" model=");
    line.append(entry.model.as_str());
    line.append(" meshFaces=");
    line.append(layout::count_or_text(entry.mesh_faces, "unknown").as_str());
    line
}

/// The configured interfaces.
pub open spec fn configured_items(items: Seq<ValidatedInterfaceConfigEntry>) -> Seq<Seq<char>> {
    Seq::new(items.len(), |i: int| configured_line(items[i]))
}

fn configured_list(items: &Vec<ValidatedInterfaceConfigEntry>) -> (lines: TextList)
    ensures
        lines@ == configured_items(items@),
{
    let lines = layout::listed(items, configured);
    assert(lines@ =~= configured_items(items@));
    lines
}

/// The warnings on configured interfaces.
pub open spec fn config_warning_items(items: Seq<String>) -> Seq<Seq<char>> {
    Seq::new(items.len(), |i: int| "interface config warning: "@ + items[i]@)
}

fn config_warning_list(items: &Vec<String>) -> (lines: TextList)
    ensures
        lines@ == config_warning_items(items@),
{
    layout::prefixed("interface config warning: ", items)
}

/// The warnings on devices.
pub open spec fn resource_warning_items(items: Seq<String>) -> Seq<Seq<char>> {
    Seq::new(items.len(), |i: int| "backend resource warning: "@ + items[i]@)
}

fn resource_warning_list(items: &Vec<String>) -> (lines: TextList)
    ensures
        lines@ == resource_warning_items(items@),
{
    layout::prefixed("backend resource warning: ", items)
}

/// The warnings on backends.
pub open spec fn policy_warning_items(items: Seq<String>) -> Seq<Seq<char>> {
    Seq::new(items.len(), |i: int| "backend policy warning: "@ + items[i]@)
}

fn policy_warning_list(items: &Vec<String>) -> (lines: TextList)
    ensures
        lines@ == policy_warning_items(items@),
{
    layout::prefixed("backend policy warning: ", items)
}

/// The warnings on the patches of fields.
pub open spec fn boundary_warning_items(items: Seq<String>) -> Seq<Seq<char>> {
    Seq::new(items.len(), |i: int| "field boundary warning: "@ + items[i]@)
}

fn boundary_warning_list(items: &Vec<String>) -> (lines: TextList)
    ensures
        lines@ == boundary_warning_items(items@),
{
    layout::prefixed("field boundary warning: ", items)
}

/// The warnings on patches.
pub open spec fn patch_warning_items(items: Seq<String>) -> Seq<Seq<char>> {
    Seq::new(items.len(), |i: int| "patch validation warning: "@ + items[i]@)
}

fn patch_warning_list(items: &Vec<String>) -> (lines: TextList)
    ensures
        lines@ == patch_warning_items(items@),
{
    layout::prefixed("patch validation warning: ", items)
}

/// What is shown of the configured interfaces.
pub open spec fn config_shown(validation: Option<InterfaceConfigValidation>) -> Seq<Seq<char>> {
    match validation {
        None => Seq::empty().push("interface config: none (no constant/interfaces)"@),
        Some(found) => (if found.entries@.len() == 0 {
            Seq::empty().push("interface config: no configured entries"@)
        } else {
            Seq::empty().push("interface config:"@) + configured_items(found.entries@)
        }) + config_warning_items(found.warnings@),
    }
}

/// What is shown of the configured interfaces.
pub fn interface_config_lines(validation: &Option<InterfaceConfigValidation>) -> (lines: TextList)
    ensures
        lines@ == config_shown(*validation),
{
    let mut lines = TextList::new();
    match validation {
        None => {
            lines.add("interface config: none (no constant/interfaces)");
        },
        Some(found) => {
            if found.entries.len() == 0 {
                lines.add("interface config: no configured entries");
            } else {
                lines.add("interface config:");
                lines.extend(configured_list(&found.entries));
            }
            lines.extend(config_warning_list(&found.warnings));
        },
    }
    lines
}

/// The backends of a case.
pub open spec fn backend_config_line(default: BackendChoice, cpu: SolverCpuResourcePlan, gpu: SolverGpuResourcePlan) -> Seq<char> {
    "backend config: default="@
        + backends::choice_name(default)
        + " cpuCpus="@
        + cpu.cpus@
        + " cpuCoresPerCpu="@
        + cpu.cores_per_cpu@
        + " cpuThreads="@
        + cpu.threads@
        + " cpuPinning="@
        + cpu.thread_pinning@
        + " cpuNuma="@
        + cpu.numa@
        + " gpuBackend="@
        + gpu.backend@
        + " gpuDevices="@
        + plan_text::devices(gpu.devices@)
        + " multiGpu="@
        + gpu.multi_gpu@
        + " precision="@
        + gpu.precision@
}

/// The backends of a case.
fn backend_config(default: &BackendChoice, cpu: &SolverCpuResourcePlan, gpu: &SolverGpuResourcePlan) -> (line: String)
    ensures
        line@ == backend_config_line(*default, *cpu, *gpu),
{
    let mut line = "backend config: default=".to_string();
    line.append(default.to_string().as_str());
    line.append(" cpuCpus=");
    line.append(cpu.cpus.as_str());
    line.append(" cpuCoresPerCpu=");
    line.append(cpu.cores_per_cpu.as_str());
    line.append(" cpuThreads=");
    line.append(cpu.threads.as_str());
    line.append(" cpuPinning=");
    line.append(cpu.thread_pinning.as_str());
    line.append(" cpuNuma=");
    line.append(cpu.numa.as_str());
    line.append(" gpuBackend=");
    line.append(gpu.backend.as_str());
    line.append(" gpuDevices=");
    line.append(plan_text::format_devices(&gpu.devices).as_str());
    line.append(" multiGpu=");
    line.append(gpu.multi_gpu.as_str());
    line.append(" precision=");
    line.append(gpu.precision.as_str());
    line
}

/// The choices of a section.
pub open spec fn selection_texts(entries: Seq<BackendSelection>) -> Seq<Seq<char>> {
    Seq::new(
        entries.len(),
        |i: int| entries[i].step@ + "="@ + backends::choice_name(entries[i].choice),
    )
}

fn selection(entry: &BackendSelection) -> (part: String)
    ensures
        part@ == entry.step@ + "="@ + backends::choice_name(entry.choice),
{
    let mut part = entry.step.clone();
    part.append("=");
    part.append(entry.choice.to_string().as_str());
    part
}

fn selections(entries: &Vec<BackendSelection>) -> (parts: TextList)
    ensures
        parts@ == selection_texts(entries@),
{
    let parts = layout::listed(entries, selection);
    assert(parts@ =~= selection_texts(entries@));
    parts
}

/// The first `n` sections that have choices.
pub open spec fn sections_before(sections: Seq<BackendSection>, n: int) -> Seq<Seq<char>>
    decreases n,
{
    if n <= 0 {
        Seq::empty()
    } else {
        let earlier = sections_before(sections, n - 1);
        let section = sections[n - 1];
        if section.entries@.len() == 0 {
            earlier
        } else {
            earlier.push(
                "  "@ + section.name@ + ": "@ + text::join(
                    selection_texts(section.entries@),
                    ", "@,
                ),
            )
        }
    }
}

fn section_lines(sections: &Vec<BackendSection>) -> (lines: TextList)
    ensures
        lines@ == sections_before(sections@, sections@.len() as int),
{
    let mut lines = TextList::new();
    let mut at: usize = 0;
    while at < sections.len()
        invariant
            at <= sections@.len(),
            lines@ == sections_before(sections@, at as int),
        decreases sections@.len() - at,
    {
        let section = &sections[at];
        if section.entries.len() > 0 {
            let mut line = "  ".to_string();
            line.append(section.name.as_str());
            line.append(": ");
            line.append(selections(&section.entries).joined(", ").as_str());
            lines.push(line);
        }
        at += 1;
    }
    lines
}

/// The devices of the backends.
pub open spec fn backend_resources_line(found: BackendValidation) -> Seq<char> {
    "backend resources: usesCpu="@
        + text::bool_text(found.uses_cpu)
        + " usesGpu="@
        + text::bool_text(found.uses_gpu)
        + " mixed="@
        + text::bool_text(found.mixed_execution)
}

/// The devices of the backends.
fn backend_resources(found: &BackendValidation) -> (line: String)
    ensures
        line@ == backend_resources_line(*found),
{
    let mut line = "backend resources: usesCpu=".to_string();
    line.append(text::flag_text(found.uses_cpu));
    line.append(" usesGpu=");
    line.append(text::flag_text(found.uses_gpu));
    line.append(" mixed=");
    line.append(text::flag_text(found.mixed_execution));
    line
}

/// What is shown of the backends of a case.
pub open spec fn backends_shown(
    default: BackendChoice,
    cpu: SolverCpuResourcePlan,
    gpu: SolverGpuResourcePlan,
    sections: Seq<BackendSection>,
    found: BackendValidation,
) -> Seq<Seq<char>> {
    Seq::empty().push(backend_config_line(default, cpu, gpu)) + sections_before(
        sections,
        sections.len() as int,
    ) + Seq::empty().push(backend_resources_line(found)) + resource_warning_items(
        found.resource_warnings@,
    ) + policy_warning_items(found.policy_warnings@)
}

/// What is shown of the backends of a case.
pub fn backend_config_lines(
    default: BackendChoice,
    cpu: &SolverCpuResourcePlan,
    gpu: &SolverGpuResourcePlan,
    sections: &Vec<BackendSection>,
    found: &BackendValidation,
) -> (lines: TextList)
    ensures
        lines@ == backends_shown(default, *cpu, *gpu, sections@, *found),
{
    let mut lines = TextList::new();
    lines.push(backend_config(&default, cpu, gpu));
    lines.extend(section_lines(sections));
    let mut resources = TextList::new();
    resources.push(backend_resources(found));
    lines.extend(resources);
    lines.extend(resource_warning_list(&found.resource_warnings));
    lines.extend(policy_warning_list(&found.policy_warnings));
    lines
}

/// The dimensions of a field.
pub open spec fn dimensions_text(dimensions: Option<Vec<String>>) -> Seq<char> {
    match dimensions {
        Some(found) => "["@ + text::join(text::texts(found@), " "@) + "]"@,
        None => "unknown"@,
    }
}

fn dimensions(found: &Option<Vec<String>>) -> (out: String)
    ensures
        out@ == dimensions_text(*found),
{
    match found {
        Some(inner) => {
            let mut out = "[".to_string();
            out.append(text::joined(inner, " ").as_str());
            out.append("]");
            out
        },
        None => "unknown".to_string(),
    }
}

/// The interior of a field.
pub open spec fn internal_text(value: Option<fields::FieldValueSummary>) -> Seq<char> {
    match value {
        Some(found) => fields::shown_value(found@),
        None => "missing"@,
    }
}

fn internal(value: &Option<fields::FieldValueSummary>) -> (out: String)
    ensures
        out@ == internal_text(*value),
{
    match value {
        Some(found) => found.to_string(),
        None => "missing".to_string(),
    }
}

/// A field.
pub open spec fn field_line(found: FieldFile) -> Seq<char> {
    "  "@
        + layout::regional(text::opt_text(found.region), found.name@)
        + ": class="@
        + layout::text_or(text::opt_text(found.class_name), "unknown"@)
        + " dimensions="@
        + dimensions_text(found.dimensions)
        + " internal="@
        + internal_text(found.internal_field)
        + " boundaryPatches="@
        + text::decimal(found.boundary_patches@.len())
}

/// A field.
fn field(found: &FieldFile) -> (line: String)
    ensures
        line@ == field_line(*found),
{
    let mut line = "  ".to_string();
    line.append(layout::regional_text(&found.region, found.name.as_str()).as_str());
    line.append(": class=");
    line.append(layout::text_or_default(&found.class_name, "unknown").as_str());
    line.append(" dimensions=");
    line.append(dimensions(&found.dimensions).as_str());
    line.append(" internal=");
    line.append(internal(&found.internal_field).as_str());
    line.append(" boundaryPatches=");
    line.append(text::number_text(found.boundary_patches.len()).as_str());
    line
}

/// A patch of a field.
pub open spec fn field_patch_line(patch: FieldBoundaryPatch) -> Seq<char> {
    let head = "    patch "@ + patch.name@ + " type="@ + layout::text_or(
        text::opt_text(patch.patch_type),
        "unknown"@,
    );
    match patch.value {
        Some(value) => head + " value="@ + fields::shown_value(value@),
        None => head,
    }
}

fn field_patch(patch: &FieldBoundaryPatch) -> (line: String)
    ensures
        line@ == field_patch_line(*patch),
{
    let mut line = "    patch ".to_string();
    line.append(patch.name.as_str());
    line.append(" type=");
    line.append(layout::text_or_default(&patch.patch_type, "unknown").as_str());
    if let Some(value) = &patch.value {
        line.append(" value=");
        line.append(value.to_string().as_str());
    }
    line
}

/// The patches of a field.
pub open spec fn field_patch_items(items: Seq<FieldBoundaryPatch>) -> Seq<Seq<char>> {
    Seq::new(items.len(), |i: int| field_patch_line(items[i]))
}

fn field_patch_list(items: &Vec<FieldBoundaryPatch>) -> (lines: TextList)
    ensures
        lines@ == field_patch_items(items@),
{
    let lines = layout::listed(items, field_patch);
    assert(lines@ =~= field_patch_items(items@));
    lines
}

/// The first `n` fields with their patches.
pub open spec fn fields_before(found: Seq<FieldFile>, n: int) -> Seq<Seq<char>>
    decreases n,
{
    if n <= 0 {
        Seq::empty()
    } else {
        fields_before(found, n - 1).push(field_line(found[n - 1])) + field_patch_items(
            found[n - 1].boundary_patches@,
        )
    }
}

/// What is shown of the fields of a case.
pub open spec fn fields_shown(found: Seq<FieldFile>) -> Seq<Seq<char>> {
    if found.len() == 0 {
        Seq::empty().push("initial fields: none"@)
    } else {
        Seq::empty().push("initial fields:"@) + fields_before(found, found.len() as int)
    }
}

/// What is shown of the fields of a case.
pub fn initial_field_lines(set: &InitialFieldSet) -> (lines: TextList)
    ensures
        lines@ == fields_shown(set.fields@),
{
    let found = &set.fields;
    let mut lines = TextList::new();
    if found.len() == 0 {
        lines.add("initial fields: none");
        return lines;
    }
    lines.add("initial fields:");
    let mut inner = TextList::new();
    let mut at: usize = 0;
    while at < found.len()
        invariant
            at <= found@.len(),
            inner@ == fields_before(found@, at as int),
        decreases found@.len() - at,
    {
        inner.push(field(&found[at]));
        inner.extend(field_patch_list(&found[at].boundary_patches));
        at += 1;
    }
    lines.extend(inner);
    lines
}

/// How many fields fit the patches of a case.
pub open spec fn boundary_validation_line(summary: FieldBoundaryValidationSummary) -> Seq<char> {
    "field boundary validation: fields="@
        + text::decimal(summary.fields as nat)
        + " warnings="@
        + text::decimal(summary.warnings@.len())
}

/// How many fields fit the patches of a case.
fn boundary_validation(summary: &FieldBoundaryValidationSummary) -> (line: String)
    ensures
        line@ == boundary_validation_line(*summary),
{
    let mut line = "field boundary validation: fields=".to_string();
    line.append(text::number_text(summary.fields).as_str());
    line.append(" warnings=");
    line.append(text::number_text(summary.warnings.len()).as_str());
    line
}

/// What is shown of the fit of fields and patches.
pub open spec fn fit_shown(summary: FieldBoundaryValidationSummary) -> Seq<Seq<char>> {
    if summary.fields == 0 {
        Seq::empty()
    } else {
        Seq::empty().push(boundary_validation_line(summary)) + boundary_warning_items(
            summary.warnings@,
        )
    }
}

/// What is shown of the fit of fields and patches.
pub fn field_boundary_lines(summary: &FieldBoundaryValidationSummary) -> (lines: TextList)
    ensures
        lines@ == fit_shown(*summary),
{
    let mut lines = TextList::new();
    if summary.fields == 0 {
        return lines;
    }
    lines.push(boundary_validation(summary));
    lines.extend(boundary_warning_list(&summary.warnings));
    lines
}

/// The cells of a mesh.
pub open spec fn geometry_cells_line(geometry: GeometrySummary) -> Seq<char> {
    "geometry: cells="@
        + text::decimal(geometry.cells as nat)
        + " faces="@
        + text::decimal(geometry.faces as nat)
        + " totalVolume="@
        + geometry.total_cell_volume.scientific@
        + " minCellVolume="@
        + geometry.min_cell_volume.scientific@
        + " maxCellVolume="@
        + geometry.max_cell_volume.scientific@
        + " nonPositiveCellVolumes="@
        + text::decimal(geometry.non_positive_cell_volumes as nat)
}

/// The cells of a mesh.
pub fn geometry_cells(geometry: &GeometrySummary) -> (line: String)
    ensures
        line@ == geometry_cells_line(*geometry),
{
    let mut line = "geometry: cells=".to_string();
    line.append(text::number_text(geometry.cells).as_str());
    line.append(" faces=");
    line.append(text::number_text(geometry.faces).as_str());
    line.append(" totalVolume=");
    line.append(geometry.total_cell_volume.scientific.as_str());
    line.append(" minCellVolume=");
    line.append(geometry.min_cell_volume.scientific.as_str());
    line.append(" maxCellVolume=");
    line.append(geometry.max_cell_volume.scientific.as_str());
    line.append(" nonPositiveCellVolumes=");
    line.append(text::number_text(geometry.non_positive_cell_volumes).as_str());
    line
}

/// The faces of a mesh.
pub open spec fn geometry_faces_line(geometry: GeometrySummary) -> Seq<char> {
    "geometry faces: minArea="@
        + geometry.min_face_area.scientific@
        + " maxArea="@
        + geometry.max_face_area.scientific@
        + " totalBoundaryArea="@
        + geometry.total_boundary_area.scientific@
}

/// The faces of a mesh.
pub fn geometry_faces(geometry: &GeometrySummary) -> (line: String)
    ensures
        line@ == geometry_faces_line(*geometry),
{
    let mut line = "geometry faces: minArea=".to_string();
    line.append(geometry.min_face_area.scientific.as_str());
    line.append(" maxArea=");
    line.append(geometry.max_face_area.scientific.as_str());
    line.append(" totalBoundaryArea=");
    line.append(geometry.total_boundary_area.scientific.as_str());
    line
}

/// The patches of a mesh.
pub open spec fn patch_validation_line(summary: PatchValidationSummary) -> Seq<char> {
    "patch validation: patches="@
        + text::decimal(summary.patches as nat)
        + " empty="@
        + text::decimal(summary.empty_patches as nat)
        + " wedge="@
        + text::decimal(summary.wedge_patches as nat)
        + " symmetryPlane="@
        + text::decimal(summary.symmetry_patches as nat)
        + " warnings="@
        + text::decimal(summary.warnings@.len())
}

/// The patches of a mesh.
fn patch_validation(summary: &PatchValidationSummary) -> (line: String)
    ensures
        line@ == patch_validation_line(*summary),
{
    let mut line = "patch validation: patches=".to_string();
    line.append(text::number_text(summary.patches).as_str());
    line.append(" empty=");
    line.append(text::number_text(summary.empty_patches).as_str());
    line.append(" wedge=");
    line.append(text::number_text(summary.wedge_patches).as_str());
    line.append(" symmetryPlane=");
    line.append(text::number_text(summary.symmetry_patches).as_str());
    line.append(" warnings=");
    line.append(text::number_text(summary.warnings.len()).as_str());
    line
}

/// What is shown of the patches of a mesh.
pub open spec fn patch_check_shown(summary: PatchValidationSummary) -> Seq<Seq<char>> {
    Seq::empty().push(patch_validation_line(summary)) + patch_warning_items(summary.warnings@)
}

/// What is shown of the patches of a mesh.
pub fn patch_validation_lines(summary: &PatchValidationSummary) -> (lines: TextList)
    ensures
        lines@ == patch_check_shown(*summary),
{
    let mut lines = TextList::new();
    lines.push(patch_validation(summary));
    lines.extend(patch_warning_list(&summary.warnings));
    lines
}

/// A patch of a region.
pub open spec fn region_patch_line(patch: RegionPatchSummary) -> Seq<char> {
    let head = "    patch "@ + patch.name@ + " type="@ + patch.patch_type@ + " faces="@
        + text::decimal(patch.faces as nat) + " startFace="@ + text::decimal(
        patch.start_face as nat,
    );
    if patch.source_flipped_faces > 0 {
        head + " sourceFlippedFaces="@ + text::decimal(patch.source_flipped_faces as nat)
    } else {
        head
    }
}

fn region_patch(patch: &RegionPatchSummary) -> (line: String)
    ensures
        line@ == region_patch_line(*patch),
{
    let mut line = "    patch ".to_string();
    line.append(patch.name.as_str());
    line.append(" type=");
    line.append(patch.patch_type.as_str());
    line.append(" faces=");
    line.append(text::number_text(patch.faces).as_str());
    line.append(" startFace=");
    line.append(text::number_text(patch.start_face).as_str());
    if patch.source_flipped_faces > 0 {
        line.append(" sourceFlippedFaces=");
        line.append(text::number_text(patch.source_flipped_faces).as_str());
    }
    line
}

/// The patches of a region.
pub open spec fn region_patch_items(items: Seq<RegionPatchSummary>) -> Seq<Seq<char>> {
    Seq::new(items.len(), |i: int| region_patch_line(items[i]))
}

fn region_patch_list(items: &Vec<RegionPatchSummary>) -> (lines: TextList)
    ensures
        lines@ == region_patch_items(items@),
{
    let lines = layout::listed(items, region_patch);
    assert(lines@ =~= region_patch_items(items@));
    lines
}

/// The mesh of a region.
pub open spec fn region_line(found: RegionMeshSummary) -> Seq<char> {
    "  "@
        + found.name@
        + ": points="@
        + text::decimal(found.points as nat)
        + ", cells="@
        + text::decimal(found.cells as nat)
        + ", faces="@
        + text::decimal(found.faces as nat)
        + ", internal="@
        + text::decimal(found.internal_faces as nat)
        + ", boundary="@
        + text::decimal(found.boundary_faces as nat)
        + ", path="@
        + found.path@
}

/// The mesh of a region.
fn region(found: &RegionMeshSummary) -> (line: String)
    ensures
        line@ == region_line(*found),
{
    let mut line = "  ".to_string();
    line.append(found.name.as_str());
    line.append(": points=");
    line.append(text::number_text(found.points).as_str());
    line.append(", cells=");
    line.append(text::number_text(found.cells).as_str());
    line.append(", faces=");
    line.append(text::number_text(found.faces).as_str());
    line.append(", internal=");
    line.append(text::number_text(found.internal_faces).as_str());
    line.append(", boundary=");
    line.append(text::number_text(found.boundary_faces).as_str());
    line.append(", path=");
    line.append(found.path.as_str());
    line
}

/// The first `n` regions with their patches.
pub open spec fn regions_before(found: Seq<RegionMeshSummary>, n: int) -> Seq<Seq<char>>
    decreases n,
{
    if n <= 0 {
        Seq::empty()
    } else {
        regions_before(found, n - 1).push(region_line(found[n - 1])) + region_patch_items(
            found[n - 1].patches@,
        )
    }
}

/// What is shown of the meshes of regions.
pub fn region_mesh_lines(found: &Vec<RegionMeshSummary>) -> (lines: TextList)
    ensures
        lines@ == regions_before(found@, found@.len() as int),
{
    let mut lines = TextList::new();
    let mut at: usize = 0;
    while at < found.len()
        invariant
            at <= found@.len(),
            lines@ == regions_before(found@, at as int),
        decreases found@.len() - at,
    {
        lines.push(region(&found[at]));
        lines.extend(region_patch_list(&found[at].patches));
        at += 1;
    }
    lines
}

/// The faces that were written.
pub open spec fn faces_written_line(summary: FoamWriteSummary) -> Seq<char> {
    "faces: "@
        + text::decimal(summary.faces as nat)
        + " total, "@
        + text::decimal(summary.internal_faces as nat)
        + " internal, "@
        + text::decimal(summary.boundary_faces as nat)
        + " boundary"@
}

/// The faces that were written.
fn faces_written(summary: &FoamWriteSummary) -> (line: String)
    ensures
        line@ == faces_written_line(*summary),
{
    let mut line = "faces: ".to_string();
    line.append(text::number_text(summary.faces).as_str());
    line.append(" total, ");
    line.append(text::number_text(summary.internal_faces).as_str());
    line.append(" internal, ");
    line.append(text::number_text(summary.boundary_faces).as_str());
    line.append(" boundary");
    line
}

/// What is wrong with the written faces.
pub open spec fn write_warnings_line(summary: FoamWriteSummary) -> Seq<char> {
    "warnings: unmatchedBoundaryFaces="@
        + text::decimal(summary.unmatched_boundary_faces as nat)
        + ", duplicateBoundaryFaces="@
        + text::decimal(summary.duplicate_boundary_faces as nat)
        + ", nonManifoldFaces="@
        + text::decimal(summary.non_manifold_faces as nat)
}

/// What is wrong with the written faces.
fn write_warnings(summary: &FoamWriteSummary) -> (line: String)
    ensures
        line@ == write_warnings_line(*summary),
{
    let mut line = "warnings: unmatchedBoundaryFaces=".to_string();
    line.append(text::number_text(summary.unmatched_boundary_faces).as_str());
    line.append(", duplicateBoundaryFaces=");
    line.append(text::number_text(summary.duplicate_boundary_faces).as_str());
    line.append(", nonManifoldFaces=");
    line.append(text::number_text(summary.non_manifold_faces).as_str());
    line
}

/// Those of the first `n` patches that have a type of their own.
pub open spec fn types_before(patches: Seq<PatchSummary>, n: int) -> Seq<Seq<char>>
    decreases n,
{
    if n <= 0 {
        Seq::empty()
    } else {
        let earlier = types_before(patches, n - 1);
        if patches[n - 1].patch_type@ == "patch"@ {
            earlier
        } else {
            earlier.push(
                "patch type: "@ + patches[n - 1].name@ + " -> "@ + patches[n - 1].patch_type@,
            )
        }
    }
}

/// What is shown of an import.
pub open spec fn import_shown(summary: FoamWriteSummary) -> Seq<Seq<char>> {
    let faces = Seq::empty().push("Wrote constant/polyMesh"@).push(faces_written_line(summary));
    (if summary.unmatched_boundary_faces > 0 || summary.duplicate_boundary_faces > 0
        || summary.non_manifold_faces > 0 {
        faces.push(write_warnings_line(summary))
    } else {
        faces
    }) + types_before(summary.patches@, summary.patches@.len() as int)
}

/// What is shown of an import.
pub fn import_lines(summary: &FoamWriteSummary) -> (lines: TextList)
    ensures
        lines@ == import_shown(*summary),
{
    let mut lines = TextList::new();
    lines.add("Wrote constant/polyMesh");
    lines.push(faces_written(summary));
    if summary.unmatched_boundary_faces > 0 || summary.duplicate_boundary_faces > 0
        || summary.non_manifold_faces > 0 {
        lines.push(write_warnings(summary));
    }
    let found = &summary.patches;
    let mut types = TextList::new();
    let mut at: usize = 0;
    while at < found.len()
        invariant
            at <= found@.len(),
            types@ == types_before(found@, at as int),
        decreases found@.len() - at,
    {
        if !text::text_eq(found[at].patch_type.as_str(), "patch") {
            let mut line = "patch type: ".to_string();
            line.append(found[at].name.as_str());
            line.append(" -> ");
            line.append(found[at].patch_type.as_str());
            types.push(line);
        }
        at += 1;
    }
    lines.extend(types);
    lines
}

/// What is shown of a new case.
pub open spec fn init_shown(summary: InitCaseSummary) -> Seq<Seq<char>> {
    Seq::empty().push("Initialized FerrumCFD case: "@ + summary.case_dir@) + (
    if summary.created_dirs@.len() == 0 {
        Seq::empty()
    } else {
        created_shown(summary.created_dirs@)
    }) + (if summary.written_files@.len() == 0 {
        Seq::empty()
    } else {
        written_shown(summary.written_files@)
    }) + (if summary.skipped_files@.len() == 0 {
        Seq::empty()
    } else {
        skipped_shown(summary.skipped_files@).push(
            "use --force to overwrite existing template files"@,
        )
    })
}

/// What is shown of a new case.
pub fn init_case_lines(summary: &InitCaseSummary) -> (lines: TextList)
    ensures
        lines@ == init_shown(*summary),
{
    let mut lines = TextList::new();
    let mut first = "Initialized FerrumCFD case: ".to_string();
    first.append(summary.case_dir.as_str());
    lines.push(first);
    let mut dirs = TextList::new();
    if summary.created_dirs.len() > 0 {
        dirs = created(&summary.created_dirs);
    }
    lines.extend(dirs);
    let mut done = TextList::new();
    if summary.written_files.len() > 0 {
        done = written(&summary.written_files);
    }
    lines.extend(done);
    let mut left = TextList::new();
    if summary.skipped_files.len() > 0 {
        left = skipped(&summary.skipped_files);
        left.add("use --force to overwrite existing template files");
    }
    lines.extend(left);
    lines
}

} // verus!
