//! The files of a case that a mesh is written to.

use crate::foam_text;
use crate::layout;
use crate::layout::TextList;
use crate::mesh;
use crate::mesh::{Mesh, UnsupportedElementCount};
use crate::ordering;
use crate::ordering::{FoamWriteOptions, PatchSummary};
use crate::text;
use crate::topology;
use crate::topology::FaceRecord;
use crate::zones;
use crate::zones::Zone;
use vstd::prelude::*;

verus! {

/// What was written of a mesh.
#[derive(Debug)]
pub struct FoamWriteSummary {
    pub case_dir: String,
    pub points: usize,
    pub cells: usize,
    pub faces: usize,
    pub internal_faces: usize,
    pub boundary_faces: usize,
    pub patches: Vec<PatchSummary>,
    pub face_zones: Vec<FaceZoneSummary>,
    pub cell_zones: Vec<CellZoneSummary>,
    pub unmatched_boundary_faces: usize,
    pub duplicate_boundary_faces: usize,
    pub non_manifold_faces: usize,
}

/// A zone of cells.
#[derive(Debug)]
pub struct CellZoneSummary {
    pub name: String,
    pub physical_tag: i32,
    pub cells: usize,
}

/// A zone of faces.
#[derive(Debug)]
pub struct FaceZoneSummary {
    pub name: String,
    pub physical_tag: i32,
    pub faces: usize,
}

/// A file, by its path below the case and its text.
#[derive(Debug)]
pub struct CaseFile {
    pub path: String,
    pub content: String,
}

/// The files of a written mesh, and what they hold.
#[derive(Debug)]
pub struct FoamCase {
    pub files: Vec<CaseFile>,
    pub summary: FoamWriteSummary,
}

/// A list in a file of the mesh directory.
pub open spec fn list_file(
    class_name: Seq<char>,
    object: Seq<char>,
    count: nat,
    items: Seq<Seq<char>>,
) -> Seq<char> {
    layout::lines_text(
        foam_text::head(class_name, object, "constant/polyMesh"@) + Seq::empty().push(
            text::decimal(count),
        ).push("("@) + items + Seq::empty().push(")"@),
    )
}

fn list_text(class_name: &str, object: &str, count: usize, items: TextList) -> (out: String)
    ensures
        out@ == list_file(class_name@, object@, count as nat, items@),
{
    let mut lines = foam_text::header(class_name, object, "constant/polyMesh");
    let mut opening = TextList::new();
    opening.push(text::number_text(count));
    opening.add("(");
    lines.extend(opening);
    lines.extend(items);
    let mut closing = TextList::new();
    closing.add(")");
    lines.extend(closing);
    lines.as_lines()
}

/// A point, by the notations of its coordinates.
pub open spec fn point_line(point: (String, String, String)) -> Seq<char> {
    "("@ + point.0@ + " "@ + point.1@ + " "@ + point.2@ + ")"@
}

fn point(given: &(String, String, String)) -> (line: String)
    ensures
        line@ == point_line(*given),
{
    let mut line = "(".to_string();
    line.append(given.0.as_str());
    line.append(" ");
    line.append(given.1.as_str());
    line.append(" ");
    line.append(given.2.as_str());
    line.append(")");
    line
}

/// The notations of nodes.
pub open spec fn node_texts(nodes: Seq<usize>) -> Seq<Seq<char>> {
    Seq::new(nodes.len(), |i: int| text::decimal(nodes[i] as nat))
}

/// The nodes of a face.
pub open spec fn face_line(face: FaceRecord) -> Seq<char> {
    text::decimal(face.nodes@.len()) + "("@ + text::join(node_texts(face.nodes@), " "@) + ")"@
}

fn face_nodes(face: &FaceRecord) -> (line: String)
    ensures
        line@ == face_line(*face),
{
    let nodes = &face.nodes;
    let ghost wanted = node_texts(nodes@);
    let mut parts = TextList::new();
    let mut at: usize = 0;
    assert(wanted.take(0) =~= Seq::empty());
    while at < nodes.len()
        invariant
            at <= nodes@.len(),
            wanted == node_texts(nodes@),
            parts@ == wanted.take(at as int),
        decreases nodes@.len() - at,
    {
        parts.push(text::number_text(nodes[at]));
        assert(wanted.take(at + 1) =~= wanted.take(at as int).push(wanted[at as int]));
        at += 1;
    }
    assert(wanted.take(at as int) =~= wanted);
    let mut line = text::number_text(nodes.len());
    line.append("(");
    line.append(parts.joined(" ").as_str());
    line.append(")");
    line
}

/// The owner of a face.
pub open spec fn owner_line(face: FaceRecord) -> Seq<char> {
    text::decimal(face.owner as nat)
}

/// The cell on the other side of a face; of a face of one cell, nothing.
pub open spec fn neighbour_lines(faces: Seq<FaceRecord>, order: Seq<usize>, n: int) -> Seq<Seq<char>>
    decreases n,
{
    if n <= 0 {
        Seq::empty()
    } else {
        let earlier = neighbour_lines(faces, order, n - 1);
        match faces[order[n - 1] as int].neighbour {
            Some(cell) => earlier.push(text::decimal(cell as nat)),
            None => earlier,
        }
    }
}

/// The nodes of the faces in an order.
pub open spec fn faces_lines(faces: Seq<FaceRecord>, order: Seq<usize>) -> Seq<Seq<char>> {
    Seq::new(order.len(), |i: int| face_line(faces[order[i] as int]))
}

/// The owners of the faces in an order.
pub open spec fn owner_lines(faces: Seq<FaceRecord>, order: Seq<usize>) -> Seq<Seq<char>> {
    Seq::new(order.len(), |i: int| owner_line(faces[order[i] as int]))
}

/// The points of a mesh.
pub open spec fn points_lines(points: Seq<(String, String, String)>) -> Seq<Seq<char>> {
    Seq::new(points.len(), |i: int| point_line(points[i]))
}

/// Whether an order holds faces only.
pub open spec fn in_range(order: Seq<usize>, faces: nat) -> bool {
    forall|i: int| 0 <= i < order.len() ==> #[trigger] order[i] < faces
}

fn points_list(points: &Vec<(String, String, String)>) -> (lines: TextList)
    ensures
        lines@ == points_lines(points@),
{
    let ghost wanted = points_lines(points@);
    let mut lines = TextList::new();
    let mut at: usize = 0;
    assert(wanted.take(0) =~= Seq::empty());
    while at < points.len()
        invariant
            at <= points@.len(),
            wanted == points_lines(points@),
            lines@ == wanted.take(at as int),
        decreases points@.len() - at,
    {
        lines.push(point(&points[at]));
        assert(wanted.take(at + 1) =~= wanted.take(at as int).push(wanted[at as int]));
        at += 1;
    }
    assert(wanted.take(at as int) =~= wanted);
    lines
}

fn faces_list(faces: &Vec<FaceRecord>, order: &Vec<usize>) -> (lines: TextList)
    requires
        in_range(order@, faces@.len()),
    ensures
        lines@ == faces_lines(faces@, order@),
{
    let ghost wanted = faces_lines(faces@, order@);
    let mut lines = TextList::new();
    let mut at: usize = 0;
    assert(wanted.take(0) =~= Seq::empty());
    while at < order.len()
        invariant
            at <= order@.len(),
            in_range(order@, faces@.len()),
            wanted == faces_lines(faces@, order@),
            lines@ == wanted.take(at as int),
        decreases order@.len() - at,
    {
        assert(order@[at as int] < faces@.len());
        lines.push(face_nodes(&faces[order[at]]));
        assert(wanted.take(at + 1) =~= wanted.take(at as int).push(wanted[at as int]));
        at += 1;
    }
    assert(wanted.take(at as int) =~= wanted);
    lines
}

fn owner_list(faces: &Vec<FaceRecord>, order: &Vec<usize>) -> (lines: TextList)
    requires
        in_range(order@, faces@.len()),
    ensures
        lines@ == owner_lines(faces@, order@),
{
    let ghost wanted = owner_lines(faces@, order@);
    let mut lines = TextList::new();
    let mut at: usize = 0;
    assert(wanted.take(0) =~= Seq::empty());
    while at < order.len()
        invariant
            at <= order@.len(),
            in_range(order@, faces@.len()),
            wanted == owner_lines(faces@, order@),
            lines@ == wanted.take(at as int),
        decreases order@.len() - at,
    {
        assert(order@[at as int] < faces@.len());
        lines.push(text::number_text(faces[order[at]].owner));
        assert(wanted.take(at + 1) =~= wanted.take(at as int).push(wanted[at as int]));
        at += 1;
    }
    assert(wanted.take(at as int) =~= wanted);
    lines
}

fn neighbour_list(faces: &Vec<FaceRecord>, order: &Vec<usize>) -> (lines: TextList)
    requires
        in_range(order@, faces@.len()),
    ensures
        lines@ == neighbour_lines(faces@, order@, order@.len() as int),
{
    let mut lines = TextList::new();
    let mut at: usize = 0;
    while at < order.len()
        invariant
            at <= order@.len(),
            in_range(order@, faces@.len()),
            lines@ == neighbour_lines(faces@, order@, at as int),
        decreases order@.len() - at,
    {
        assert(order@[at as int] < faces@.len());
        if let Some(cell) = faces[order[at]].neighbour {
            lines.push(text::number_text(cell));
        }
        at += 1;
    }
    lines
}

/// A patch of the boundary file.
pub open spec fn patch_entry_block(patch: PatchSummary) -> Seq<Seq<char>> {
    Seq::empty().push(
        "    "@ + patch.name@,
    ).push("    {"@).push(
        "        type "@ + patch.patch_type@ + ";"@,
    ).push(
        "        nFaces "@ + text::decimal(patch.faces as nat) + ";"@,
    ).push(
        "        startFace "@ + text::decimal(patch.start_face as nat) + ";"@,
    ).push("    }"@)
}

fn patch_entry(patch: &PatchSummary) -> (lines: TextList)
    ensures
        lines@ == patch_entry_block(*patch),
{
    let mut lines = TextList::new();
    let mut line = "    ".to_string();
    line.append(patch.name.as_str());
    lines.push(line);
    lines.add("    {");
    let mut line = "        type ".to_string();
    line.append(patch.patch_type.as_str());
    line.append(";");
    lines.push(line);
    let mut line = "        nFaces ".to_string();
    line.append(text::number_text(patch.faces).as_str());
    line.append(";");
    lines.push(line);
    let mut line = "        startFace ".to_string();
    line.append(text::number_text(patch.start_face).as_str());
    line.append(";");
    lines.push(line);
    lines.add("    }");
    lines
}

/// The first `n` patches of the boundary file.
pub open spec fn boundary_lines(items: Seq<PatchSummary>, n: int) -> Seq<Seq<char>>
    decreases n,
{
    if n <= 0 {
        Seq::empty()
    } else {
        boundary_lines(items, n - 1) + patch_entry_block(items[n - 1])
    }
}

fn boundary_list(items: &Vec<PatchSummary>) -> (lines: TextList)
    ensures
        lines@ == boundary_lines(items@, items@.len() as int),
{
    let mut lines = TextList::new();
    let mut at: usize = 0;
    while at < items.len()
        invariant
            at <= items@.len(),
            lines@ == boundary_lines(items@, at as int),
        decreases items@.len() - at,
    {
        lines.extend(patch_entry(&items[at]));
        at += 1;
    }
    lines
}

/// The members of a zone.
pub open spec fn member_lines(members: Seq<usize>) -> Seq<Seq<char>> {
    Seq::new(members.len(), |i: int| "            "@ + text::decimal(members[i] as nat))
}

fn member_list(members: &Vec<usize>) -> (lines: TextList)
    ensures
        lines@ == member_lines(members@),
{
    let ghost wanted = member_lines(members@);
    let mut lines = TextList::new();
    let mut at: usize = 0;
    assert(wanted.take(0) =~= Seq::empty());
    while at < members.len()
        invariant
            at <= members@.len(),
            wanted == member_lines(members@),
            lines@ == wanted.take(at as int),
        decreases members@.len() - at,
    {
        let mut line = "            ".to_string();
        line.append(text::number_text(members[at]).as_str());
        lines.push(line);
        assert(wanted.take(at + 1) =~= wanted.take(at as int).push(wanted[at as int]));
        at += 1;
    }
    assert(wanted.take(at as int) =~= wanted);
    lines
}

/// No face of a zone is flipped.
pub open spec fn flip_lines(count: nat) -> Seq<Seq<char>> {
    Seq::new(count, |i: int| "            false"@)
}

fn flip_list(count: usize) -> (lines: TextList)
    ensures
        lines@ == flip_lines(count as nat),
{
    let ghost wanted = flip_lines(count as nat);
    let mut lines = TextList::new();
    let mut at: usize = 0;
    assert(wanted.take(0) =~= Seq::empty());
    while at < count
        invariant
            at <= count,
            wanted == flip_lines(count as nat),
            lines@ == wanted.take(at as int),
        decreases count - at,
    {
        lines.add("            false");
        assert(wanted.take(at + 1) =~= wanted.take(at as int).push(wanted[at as int]));
        at += 1;
    }
    assert(wanted.take(at as int) =~= wanted);
    lines
}

/// The name of a zone.
pub open spec fn zone_name(names: Seq<mesh::PhysicalName>, tag: i32) -> Seq<char> {
    mesh::sanitized(mesh::group_name(names, tag))
}

fn name_of_zone(names: &Vec<mesh::PhysicalName>, tag: i32) -> (name: String)
    ensures
        name@ == zone_name(names@, tag),
{
    mesh::sanitize_name(mesh::physical_name(names, tag).as_str())
}

/// A zone of cells in its file.
pub open spec fn cell_zone_block(names: Seq<mesh::PhysicalName>, zone: Zone) -> Seq<Seq<char>> {
    Seq::empty().push("    "@ + zone_name(names, zone.tag)).push("    {"@).push(
        "        type cellZone;"@,
    ).push("        cellLabels "@ + text::decimal(zone.members@.len())).push("        ("@)
        + member_lines(zone.members@) + Seq::empty().push("        );"@).push("    }"@)
}

fn cell_zone(names: &Vec<mesh::PhysicalName>, zone: &Zone) -> (lines: TextList)
    ensures
        lines@ == cell_zone_block(names@, *zone),
{
    let mut lines = TextList::new();
    let mut name = "    ".to_string();
    name.append(name_of_zone(names, zone.tag).as_str());
    lines.push(name);
    lines.add("    {");
    lines.add("        type cellZone;");
    let mut labels = "        cellLabels ".to_string();
    labels.append(text::number_text(zone.members.len()).as_str());
    lines.push(labels);
    lines.add("        (");
    lines.extend(member_list(&zone.members));
    let mut closing = TextList::new();
    closing.add("        );");
    closing.add("    }");
    lines.extend(closing);
    lines
}

/// A zone of faces in its file.
pub open spec fn face_zone_block(names: Seq<mesh::PhysicalName>, zone: Zone) -> Seq<Seq<char>> {
    Seq::empty().push("    "@ + zone_name(names, zone.tag)).push("    {"@).push(
        "        type faceZone;"@,
    ).push("        faceLabels "@ + text::decimal(zone.members@.len())).push("        ("@)
        + member_lines(zone.members@) + Seq::empty().push("        );"@).push(
        "        flipMap "@ + text::decimal(zone.members@.len()),
    ).push("        ("@) + flip_lines(zone.members@.len()) + Seq::empty().push("        );"@).push(
        "    }"@,
    )
}

fn face_zone(names: &Vec<mesh::PhysicalName>, zone: &Zone) -> (lines: TextList)
    ensures
        lines@ == face_zone_block(names@, *zone),
{
    let mut lines = TextList::new();
    let mut name = "    ".to_string();
    name.append(name_of_zone(names, zone.tag).as_str());
    lines.push(name);
    lines.add("    {");
    lines.add("        type faceZone;");
    let mut labels = "        faceLabels ".to_string();
    labels.append(text::number_text(zone.members.len()).as_str());
    lines.push(labels);
    lines.add("        (");
    lines.extend(member_list(&zone.members));
    let mut middle = TextList::new();
    middle.add("        );");
    let mut flips = "        flipMap ".to_string();
    flips.append(text::number_text(zone.members.len()).as_str());
    middle.push(flips);
    middle.add("        (");
    lines.extend(middle);
    lines.extend(flip_list(zone.members.len()));
    let mut closing = TextList::new();
    closing.add("        );");
    closing.add("    }");
    lines.extend(closing);
    lines
}

/// The first `n` zones of cells in their file.
pub open spec fn cell_zones_lines(names: Seq<mesh::PhysicalName>, items: Seq<Zone>, n: int) -> Seq<Seq<char>>
    decreases n,
{
    if n <= 0 {
        Seq::empty()
    } else {
        cell_zones_lines(names, items, n - 1) + cell_zone_block(names, items[n - 1])
    }
}

fn cell_zones_list(names: &Vec<mesh::PhysicalName>, items: &Vec<Zone>) -> (lines: TextList)
    ensures
        lines@ == cell_zones_lines(names@, items@, items@.len() as int),
{
    let mut lines = TextList::new();
    let mut at: usize = 0;
    while at < items.len()
        invariant
            at <= items@.len(),
            lines@ == cell_zones_lines(names@, items@, at as int),
        decreases items@.len() - at,
    {
        lines.extend(cell_zone(names, &items[at]));
        at += 1;
    }
    lines
}

/// The first `n` zones of faces in their file.
pub open spec fn face_zones_lines(names: Seq<mesh::PhysicalName>, items: Seq<Zone>, n: int) -> Seq<Seq<char>>
    decreases n,
{
    if n <= 0 {
        Seq::empty()
    } else {
        face_zones_lines(names, items, n - 1) + face_zone_block(names, items[n - 1])
    }
}

fn face_zones_list(names: &Vec<mesh::PhysicalName>, items: &Vec<Zone>) -> (lines: TextList)
    ensures
        lines@ == face_zones_lines(names@, items@, items@.len() as int),
{
    let mut lines = TextList::new();
    let mut at: usize = 0;
    while at < items.len()
        invariant
            at <= items@.len(),
            lines@ == face_zones_lines(names@, items@, at as int),
        decreases items@.len() - at,
    {
        lines.extend(face_zone(names, &items[at]));
        at += 1;
    }
    lines
}

/// Whether `found` sums up the zones.
pub open spec fn cell_summed(
    names: Seq<mesh::PhysicalName>,
    zones: Seq<Zone>,
    found: Seq<CellZoneSummary>,
) -> bool {
    &&& found.len() == zones.len()
    &&& forall|i: int|
        0 <= i < zones.len() ==> (#[trigger] found[i]).name@ == zone_name(names, zones[i].tag)
            && found[i].physical_tag == zones[i].tag && found[i].cells == zones[i].members@.len()
}

fn sum_cell_zones(names: &Vec<mesh::PhysicalName>, zones: &Vec<Zone>) -> (found: Vec<CellZoneSummary>)
    ensures
        cell_summed(names@, zones@, found@),
{
    let mut found: Vec<CellZoneSummary> = Vec::new();
    let mut at: usize = 0;
    while at < zones.len()
        invariant
            at <= zones@.len(),
            found@.len() == at,
            forall|i: int|
                0 <= i < at ==> (#[trigger] found@[i]).name@ == zone_name(names@, zones@[i].tag)
                    && found@[i].physical_tag == zones@[i].tag && found@[i].cells
                    == zones@[i].members@.len(),
        decreases zones@.len() - at,
    {
        found.push(
            CellZoneSummary {
                name: name_of_zone(names, zones[at].tag),
                physical_tag: zones[at].tag,
                cells: zones[at].members.len(),
            },
        );
        at += 1;
    }
    found
}

/// Whether `found` sums up the zones.
pub open spec fn face_summed(
    names: Seq<mesh::PhysicalName>,
    zones: Seq<Zone>,
    found: Seq<FaceZoneSummary>,
) -> bool {
    &&& found.len() == zones.len()
    &&& forall|i: int|
        0 <= i < zones.len() ==> (#[trigger] found[i]).name@ == zone_name(names, zones[i].tag)
            && found[i].physical_tag == zones[i].tag && found[i].faces == zones[i].members@.len()
}

fn sum_face_zones(names: &Vec<mesh::PhysicalName>, zones: &Vec<Zone>) -> (found: Vec<FaceZoneSummary>)
    ensures
        face_summed(names@, zones@, found@),
{
    let mut found: Vec<FaceZoneSummary> = Vec::new();
    let mut at: usize = 0;
    while at < zones.len()
        invariant
            at <= zones@.len(),
            found@.len() == at,
            forall|i: int|
                0 <= i < at ==> (#[trigger] found@[i]).name@ == zone_name(names@, zones@[i].tag)
                    && found@[i].physical_tag == zones@[i].tag && found@[i].faces
                    == zones@[i].members@.len(),
        decreases zones@.len() - at,
    {
        found.push(
            FaceZoneSummary {
                name: name_of_zone(names, zones[at].tag),
                physical_tag: zones[at].tag,
                faces: zones[at].members.len(),
            },
        );
        at += 1;
    }
    found
}

/// A tag, or a dash.
pub open spec fn tag_text(tag: Option<i32>) -> Seq<char> {
    match tag {
        Some(found) => text::signed_decimal(found as int),
        None => "-"@,
    }
}

fn tag_or_dash(tag: Option<i32>) -> (out: String)
    ensures
        out@ == tag_text(tag),
{
    match tag {
        Some(found) => text::integer_text(found as i64),
        None => "-".to_string(),
    }
}

/// A patch in the summary.
pub open spec fn patch_summary_line(patch: PatchSummary) -> Seq<char> {
    patch.name@
        + " type="@
        + patch.patch_type@
        + " tag="@
        + tag_text(patch.physical_tag)
        + " faces="@
        + text::decimal(patch.faces as nat)
        + " startFace="@
        + text::decimal(patch.start_face as nat)
}

/// A patch in the summary.
fn patch_summary(patch: &PatchSummary) -> (line: String)
    ensures
        line@ == patch_summary_line(*patch),
{
    let mut line = patch.name.as_str().to_string();
    line.append(" type=");
    line.append(patch.patch_type.as_str());
    line.append(" tag=");
    line.append(tag_or_dash(patch.physical_tag).as_str());
    line.append(" faces=");
    line.append(text::number_text(patch.faces).as_str());
    line.append(" startFace=");
    line.append(text::number_text(patch.start_face).as_str());
    line
}

/// A zone of faces in the summary.
pub open spec fn face_zone_summary_line(zone: FaceZoneSummary) -> Seq<char> {
    zone.name@
        + " tag="@
        + text::signed_decimal(zone.physical_tag as int)
        + " faces="@
        + text::decimal(zone.faces as nat)
}

/// A zone of faces in the summary.
fn face_zone_summary(zone: &FaceZoneSummary) -> (line: String)
    ensures
        line@ == face_zone_summary_line(*zone),
{
    let mut line = zone.name.as_str().to_string();
    line.append(" tag=");
    line.append(text::integer_text(zone.physical_tag as i64).as_str());
    line.append(" faces=");
    line.append(text::number_text(zone.faces).as_str());
    line
}

/// A zone of cells in the summary.
pub open spec fn cell_zone_summary_line(zone: CellZoneSummary) -> Seq<char> {
    zone.name@
        + " tag="@
        + text::signed_decimal(zone.physical_tag as int)
        + " cells="@
        + text::decimal(zone.cells as nat)
}

/// A zone of cells in the summary.
fn cell_zone_summary(zone: &CellZoneSummary) -> (line: String)
    ensures
        line@ == cell_zone_summary_line(*zone),
{
    let mut line = zone.name.as_str().to_string();
    line.append(" tag=");
    line.append(text::integer_text(zone.physical_tag as i64).as_str());
    line.append(" cells=");
    line.append(text::number_text(zone.cells).as_str());
    line
}

/// Elements that were passed over, in the summary.
pub open spec fn unsupported_summary_line(element: UnsupportedElementCount) -> Seq<char> {
    "type="@
        + text::signed_decimal(element.element_type as int)
        + " count="@
        + text::decimal(element.count as nat)
}

/// Elements that were passed over, in the summary.
fn unsupported_summary(element: &UnsupportedElementCount) -> (line: String)
    ensures
        line@ == unsupported_summary_line(*element),
{
    let mut line = "type=".to_string();
    line.append(text::integer_text(element.element_type as i64).as_str());
    line.append(" count=");
    line.append(text::number_text(element.count).as_str());
    line
}

/// The patches in the summary.
pub open spec fn patch_summary_items(items: Seq<PatchSummary>) -> Seq<Seq<char>> {
    Seq::new(items.len(), |i: int| patch_summary_line(items[i]))
}

fn patch_summary_list(items: &Vec<PatchSummary>) -> (lines: TextList)
    ensures
        lines@ == patch_summary_items(items@),
{
    let ghost wanted = patch_summary_items(items@);
    let mut lines = TextList::new();
    let mut at: usize = 0;
    assert(wanted.take(0) =~= Seq::empty());
    while at < items.len()
        invariant
            at <= items@.len(),
            wanted == patch_summary_items(items@),
            lines@ == wanted.take(at as int),
        decreases items@.len() - at,
    {
        lines.push(patch_summary(&items[at]));
        assert(wanted.take(at + 1) =~= wanted.take(at as int).push(wanted[at as int]));
        at += 1;
    }
    assert(wanted.take(at as int) =~= wanted);
    lines
}

/// The zones of faces in the summary.
pub open spec fn face_zone_summary_items(items: Seq<FaceZoneSummary>) -> Seq<Seq<char>> {
    Seq::new(items.len(), |i: int| face_zone_summary_line(items[i]))
}

fn face_zone_summary_list(items: &Vec<FaceZoneSummary>) -> (lines: TextList)
    ensures
        lines@ == face_zone_summary_items(items@),
{
    let ghost wanted = face_zone_summary_items(items@);
    let mut lines = TextList::new();
    let mut at: usize = 0;
    assert(wanted.take(0) =~= Seq::empty());
    while at < items.len()
        invariant
            at <= items@.len(),
            wanted == face_zone_summary_items(items@),
            lines@ == wanted.take(at as int),
        decreases items@.len() - at,
    {
        lines.push(face_zone_summary(&items[at]));
        assert(wanted.take(at + 1) =~= wanted.take(at as int).push(wanted[at as int]));
        at += 1;
    }
    assert(wanted.take(at as int) =~= wanted);
    lines
}

/// The zones of cells in the summary.
pub open spec fn cell_zone_summary_items(items: Seq<CellZoneSummary>) -> Seq<Seq<char>> {
    Seq::new(items.len(), |i: int| cell_zone_summary_line(items[i]))
}

fn cell_zone_summary_list(items: &Vec<CellZoneSummary>) -> (lines: TextList)
    ensures
        lines@ == cell_zone_summary_items(items@),
{
    let ghost wanted = cell_zone_summary_items(items@);
    let mut lines = TextList::new();
    let mut at: usize = 0;
    assert(wanted.take(0) =~= Seq::empty());
    while at < items.len()
        invariant
            at <= items@.len(),
            wanted == cell_zone_summary_items(items@),
            lines@ == wanted.take(at as int),
        decreases items@.len() - at,
    {
        lines.push(cell_zone_summary(&items[at]));
        assert(wanted.take(at + 1) =~= wanted.take(at as int).push(wanted[at as int]));
        at += 1;
    }
    assert(wanted.take(at as int) =~= wanted);
    lines
}

/// The elements that were passed over, in the summary.
pub open spec fn unsupported_summary_items(items: Seq<UnsupportedElementCount>) -> Seq<Seq<char>> {
    Seq::new(items.len(), |i: int| unsupported_summary_line(items[i]))
}

fn unsupported_summary_list(items: &Vec<UnsupportedElementCount>) -> (lines: TextList)
    ensures
        lines@ == unsupported_summary_items(items@),
{
    let ghost wanted = unsupported_summary_items(items@);
    let mut lines = TextList::new();
    let mut at: usize = 0;
    assert(wanted.take(0) =~= Seq::empty());
    while at < items.len()
        invariant
            at <= items@.len(),
            wanted == unsupported_summary_items(items@),
            lines@ == wanted.take(at as int),
        decreases items@.len() - at,
    {
        lines.push(unsupported_summary(&items[at]));
        assert(wanted.take(at + 1) =~= wanted.take(at as int).push(wanted[at as int]));
        at += 1;
    }
    assert(wanted.take(at as int) =~= wanted);
    lines
}

/// The sizes in the summary.
pub open spec fn sizes_lines(summary: FoamWriteSummary, source: Seq<char>) -> Seq<Seq<char>> {
    Seq::empty().push("FerrumCFD mesh summary"@).push("source="@ + source).push(
        "case="@ + summary.case_dir@,
    ).push("points="@ + text::decimal(summary.points as nat)).push("cells="@ + text::decimal(summary.cells as nat)).push("faces="@ + text::decimal(summary.faces as nat)).push("internal_faces="@ + text::decimal(summary.internal_faces as nat)).push("boundary_faces="@ + text::decimal(summary.boundary_faces as nat)).push("unmatched_boundary_faces="@ + text::decimal(summary.unmatched_boundary_faces as nat)).push("duplicate_boundary_faces="@ + text::decimal(summary.duplicate_boundary_faces as nat)).push("non_manifold_faces="@ + text::decimal(summary.non_manifold_faces as nat))
}

fn labelled(label: &str, value: &str) -> (line: String)
    ensures
        line@ == label@ + value@,
{
    let mut line = label.to_string();
    line.append(value);
    line
}

fn sizes(summary: &FoamWriteSummary, source: &str) -> (lines: TextList)
    ensures
        lines@ == sizes_lines(*summary, source@),
{
    let mut lines = TextList::new();
    lines.add("FerrumCFD mesh summary");
    lines.push(labelled("source=", source));
    lines.push(labelled("case=", summary.case_dir.as_str()));
    lines.push(labelled("points=", text::number_text(summary.points).as_str()));
    lines.push(labelled("cells=", text::number_text(summary.cells).as_str()));
    lines.push(labelled("faces=", text::number_text(summary.faces).as_str()));
    lines.push(labelled("internal_faces=", text::number_text(summary.internal_faces).as_str()));
    lines.push(labelled("boundary_faces=", text::number_text(summary.boundary_faces).as_str()));
    lines.push(
        labelled(
            "unmatched_boundary_faces=",
            text::number_text(summary.unmatched_boundary_faces).as_str(),
        ),
    );
    lines.push(
        labelled(
            "duplicate_boundary_faces=",
            text::number_text(summary.duplicate_boundary_faces).as_str(),
        ),
    );
    lines.push(
        labelled("non_manifold_faces=", text::number_text(summary.non_manifold_faces).as_str()),
    );
    lines
}

/// The lines of the summary.
pub open spec fn summary_lines(
    summary: FoamWriteSummary,
    unsupported: Seq<UnsupportedElementCount>,
    source: Seq<char>,
) -> Seq<Seq<char>> {
    sizes_lines(summary, source) + Seq::empty().push(Seq::empty()).push("[patches]"@)
        + patch_summary_items(summary.patches@) + Seq::empty().push(Seq::empty()).push(
        "[face_zones]"@,
    ) + face_zone_summary_items(summary.face_zones@) + Seq::empty().push(Seq::empty()).push(
        "[cell_zones]"@,
    ) + cell_zone_summary_items(summary.cell_zones@) + (if unsupported.len() == 0 {
        Seq::empty()
    } else {
        Seq::empty().push(Seq::empty()).push("[unsupported_elements]"@) + unsupported_summary_items(
            unsupported,
        )
    })
}

fn heading(title: &str) -> (lines: TextList)
    ensures
        lines@ == Seq::empty().push(Seq::empty()).push(title@),
{
    let mut lines = TextList::new();
    lines.blank();
    lines.add(title);
    lines
}

/// The text of the summary.
pub fn summary_text(
    summary: &FoamWriteSummary,
    unsupported: &Vec<UnsupportedElementCount>,
    source: &str,
) -> (out: String)
    ensures
        out@ == layout::lines_text(summary_lines(*summary, unsupported@, source@)),
{
    let mut lines = sizes(summary, source);
    lines.extend(heading("[patches]"));
    lines.extend(patch_summary_list(&summary.patches));
    lines.extend(heading("[face_zones]"));
    lines.extend(face_zone_summary_list(&summary.face_zones));
    lines.extend(heading("[cell_zones]"));
    lines.extend(cell_zone_summary_list(&summary.cell_zones));
    if unsupported.len() == 0 {
        lines.extend(TextList::new());
    } else {
        let mut tail = heading("[unsupported_elements]");
        tail.extend(unsupported_summary_list(unsupported));
        lines.extend(tail);
    }
    lines.as_lines()
}

/// A control dictionary to start from.
pub open spec fn control_dict_text() -> Seq<char> {
    layout::lines_text(
        foam_text::head("dictionary"@, "controlDict"@, "system"@) + (Seq::empty()
        .push("application ferrum;"@)
        .push("startFrom startTime;"@)
        .push("startTime 0;"@)
        .push("endTime 1;"@)
        .push("deltaT 1;"@)
        .push("writeControl timeStep;"@)
        .push("writeInterval 1;"@)),
    )
}

fn control_dict() -> (out: String)
    ensures
        out@ == control_dict_text(),
{
    let mut lines = foam_text::header("dictionary", "controlDict", "system");
    let mut body = TextList::new();
    body.add("application ferrum;");
    body.add("startFrom startTime;");
    body.add("startTime 0;");
    body.add("endTime 1;");
    body.add("deltaT 1;");
    body.add("writeControl timeStep;");
    body.add("writeInterval 1;");
    lines.extend(body);
    lines.as_lines()
}

/// Schemes to start from.
pub open spec fn fv_schemes_text() -> Seq<char> {
    layout::lines_text(
        foam_text::head("dictionary"@, "fvSchemes"@, "system"@) + (Seq::empty()
        .push("ddtSchemes { default Euler; }"@)
        .push("gradSchemes { default Gauss linear; }"@)
        .push("divSchemes { default none; }"@)
        .push("laplacianSchemes { default Gauss linear corrected; }"@)
        .push("interpolationSchemes { default linear; }"@)
        .push("snGradSchemes { default corrected; }"@)),
    )
}

fn fv_schemes() -> (out: String)
    ensures
        out@ == fv_schemes_text(),
{
    let mut lines = foam_text::header("dictionary", "fvSchemes", "system");
    let mut body = TextList::new();
    body.add("ddtSchemes { default Euler; }");
    body.add("gradSchemes { default Gauss linear; }");
    body.add("divSchemes { default none; }");
    body.add("laplacianSchemes { default Gauss linear corrected; }");
    body.add("interpolationSchemes { default linear; }");
    body.add("snGradSchemes { default corrected; }");
    lines.extend(body);
    lines.as_lines()
}

/// Solution controls to start from.
pub open spec fn fv_solution_text() -> Seq<char> {
    layout::lines_text(
        foam_text::head("dictionary"@, "fvSolution"@, "system"@) + (Seq::empty()
        .push("solvers { }"@)
        .push("SIMPLE { nNonOrthogonalCorrectors 0; }"@)),
    )
}

fn fv_solution() -> (out: String)
    ensures
        out@ == fv_solution_text(),
{
    let mut lines = foam_text::header("dictionary", "fvSolution", "system");
    let mut body = TextList::new();
    body.add("solvers { }");
    body.add("SIMPLE { nNonOrthogonalCorrectors 0; }");
    lines.extend(body);
    lines.as_lines()
}

/// The files of a case, by their paths below it.
pub open spec fn file_views(files: Seq<CaseFile>) -> Seq<(Seq<char>, Seq<char>)> {
    Seq::new(files.len(), |i: int| (files[i].path@, files[i].content@))
}

/// The files that a mesh is written to.
pub open spec fn mesh_files<P>(
    mesh: Mesh<P>,
    points: Seq<(String, String, String)>,
    faces: Seq<FaceRecord>,
    order: Seq<usize>,
    inner: Seq<usize>,
    patches: Seq<PatchSummary>,
    by_face: Seq<Zone>,
    by_cell: Seq<Zone>,
    summary: FoamWriteSummary,
    source: Seq<char>,
) -> Seq<(Seq<char>, Seq<char>)> {
    let names = mesh.physical_names@;
    Seq::empty()
        .push(
            (
                "constant/polyMesh/points"@,
                list_file("vectorField"@, "points"@, mesh.points@.len(), points_lines(points)),
            ),
        )
        .push(
            (
                "constant/polyMesh/faces"@,
                list_file("faceList"@, "faces"@, order.len(), faces_lines(faces, order)),
            ),
        )
        .push(
            (
                "constant/polyMesh/owner"@,
                list_file("labelList"@, "owner"@, order.len(), owner_lines(faces, order)),
            ),
        )
        .push(("constant/polyMesh/neighbour"@, list_file(
            "labelList"@,
            "neighbour"@,
            inner.len(),
            neighbour_lines(faces, inner, inner.len() as int),
        )))
        .push(("constant/polyMesh/boundary"@, list_file(
            "polyBoundaryMesh"@,
            "boundary"@,
            patches.len(),
            boundary_lines(patches, patches.len() as int),
        )))
        .push(("constant/polyMesh/faceZones"@, list_file(
            "faceZoneMesh"@,
            "faceZones"@,
            by_face.len(),
            face_zones_lines(names, by_face, by_face.len() as int),
        )))
        .push(("constant/polyMesh/cellZones"@, list_file(
            "cellZoneMesh"@,
            "cellZones"@,
            by_cell.len(),
            cell_zones_lines(names, by_cell, by_cell.len() as int),
        )))
        .push(("system/controlDict"@, control_dict_text()))
        .push(("system/fvSchemes"@, fv_schemes_text()))
        .push(("system/fvSolution"@, fv_solution_text()))
        .push(
            (
                "constant/ferrumMeshSummary.txt"@,
                layout::lines_text(summary_lines(summary, mesh.unsupported_elements@, source)),
            ),
        )
}

fn add_file(files: &mut Vec<CaseFile>, path: &str, content: String)
    ensures
        file_views(final(files)@) == file_views(old(files)@).push((path@, content@)),
{
    let ghost before = file_views(files@);
    let ghost added = content@;
    files.push(CaseFile { path: path.to_string(), content });
    assert(file_views(files@) =~= before.push((path@, added)));
}

/// Whether `found` is the case that a mesh is written to: with the faces of its
/// topology in their order, and its zones.
pub open spec fn is_case<P>(
    mesh: Mesh<P>,
    points: Seq<(String, String, String)>,
    case_dir: Seq<char>,
    source: Seq<char>,
    options: FoamWriteOptions,
    faces: Seq<FaceRecord>,
    by_face: Seq<Zone>,
    by_cell: Seq<Zone>,
    found: FoamCase,
) -> bool {
    let state = topology::shapes_of(mesh.cells@, mesh.cells@.len() as int);
    let keys = topology::boundary_keys(mesh.boundary_faces@);
    let firsts = topology::first_keys(keys, keys.len() as int);
    let names = ordering::patch_order(faces, mesh.physical_names@);
    let order = ordering::face_order(faces, names, names.len() as int);
    let inner = ordering::internal(faces, faces.len() as int);
    let summary = found.summary;
    &&& topology::shapes(faces) == state.faces
    &&& forall|i: int|
        0 <= i < faces.len() ==> topology::patch_view((#[trigger] faces[i]).patch)
            == topology::patch_of(
            mesh.physical_names@,
            mesh.boundary_faces@,
            topology::shape(faces[i]),
        )
    &&& zones::zone_views(by_cell) == zones::zones_of(zones::cell_members(mesh.cells@))
    &&& exists|labels: Seq<Option<usize>>|
        #![trigger zones::face_members(mesh.boundary_faces@, topology::keys_of(state.faces), labels, mesh.boundary_faces@.len() as int)]
        labels.len() == faces.len() && labels_of(labels, order) && zones::zone_views(by_face)
            == zones::zones_of(
            zones::face_members(
                mesh.boundary_faces@,
                topology::keys_of(state.faces),
                labels,
                mesh.boundary_faces@.len() as int,
            ),
        )
    &&& summary.case_dir@ == case_dir
    &&& summary.points == mesh.points@.len()
    &&& summary.cells == mesh.cells@.len()
    &&& summary.faces == faces.len()
    &&& order.len() <= usize::MAX
    &&& summary.internal_faces == inner.len()
    &&& summary.boundary_faces == order.len() - inner.len()
    &&& ordering::summary_views(summary.patches@) == ordering::ordered_patches(
        faces,
        names,
        options,
    )
    &&& face_summed(mesh.physical_names@, by_face, summary.face_zones@)
    &&& cell_summed(mesh.physical_names@, by_cell, summary.cell_zones@)
    &&& summary.unmatched_boundary_faces == topology::missing(
        firsts,
        topology::keys_of(state.faces),
        firsts.len() as int,
    )
    &&& summary.duplicate_boundary_faces == keys.len() - firsts.len()
    &&& summary.non_manifold_faces == state.non_manifold
    &&& file_views(found.files@) == mesh_files(
        mesh,
        points,
        faces,
        order,
        inner,
        summary.patches@,
        by_face,
        by_cell,
        summary,
        source,
    )
}

/// Whether `labels` are the places of the faces in an order.
pub open spec fn labels_of(labels: Seq<Option<usize>>, order: Seq<usize>) -> bool {
    forall|face: int|
        0 <= face < labels.len() ==> (match #[trigger] labels[face] {
            Some(label) => ordering::label_in(order, face) == Some(label as int),
            None => ordering::label_in(order, face) is None,
        })
}

/// The case that a mesh is written to; `points` are the notations of the
/// coordinates of its points.
pub fn openfoam_case<P>(
    mesh: &Mesh<P>,
    points: &Vec<(String, String, String)>,
    case_dir: &str,
    source: &str,
    options: &FoamWriteOptions,
) -> (found: FoamCase)
    requires
        mesh.cells@.len() * 6 <= usize::MAX,
    ensures
        exists|faces: Seq<FaceRecord>, by_face: Seq<Zone>, by_cell: Seq<Zone>|
            is_case(
                *mesh,
                points@,
                case_dir@,
                source@,
                *options,
                faces,
                by_face,
                by_cell,
                found,
            ),
{
    proof {
        topology::topology_is_sound(mesh.cells@, mesh.cells@.len() as int);
    }
    let built = topology::build_topology(mesh);
    let faces = &built.faces;
    let ordered = ordering::order_faces(&mesh.physical_names, faces, options);
    let by_face = zones::face_zones(&mesh.boundary_faces, faces, &ordered.labels);
    let by_cell = zones::cell_zones(&mesh.cells);
    proof {
        let names = ordering::patch_order(faces@, mesh.physical_names@);
        lemma_inner_first(faces@, names, names.len() as int);
    }
    let mut files: Vec<CaseFile> = Vec::new();
    assert(file_views(files@) =~= Seq::empty());
    add_file(
        &mut files,
        "constant/polyMesh/points",
        list_text("vectorField", "points", mesh.points.len(), points_list(points)),
    );
    add_file(
        &mut files,
        "constant/polyMesh/faces",
        list_text(
            "faceList",
            "faces",
            ordered.face_indices.len(),
            faces_list(faces, &ordered.face_indices),
        ),
    );
    add_file(
        &mut files,
        "constant/polyMesh/owner",
        list_text(
            "labelList",
            "owner",
            ordered.face_indices.len(),
            owner_list(faces, &ordered.face_indices),
        ),
    );
    add_file(
        &mut files,
        "constant/polyMesh/neighbour",
        list_text(
            "labelList",
            "neighbour",
            ordered.internal_face_indices.len(),
            neighbour_list(faces, &ordered.internal_face_indices),
        ),
    );
    add_file(
        &mut files,
        "constant/polyMesh/boundary",
        list_text(
            "polyBoundaryMesh",
            "boundary",
            ordered.patches.len(),
            boundary_list(&ordered.patches),
        ),
    );
    add_file(
        &mut files,
        "constant/polyMesh/faceZones",
        list_text(
            "faceZoneMesh",
            "faceZones",
            by_face.len(),
            face_zones_list(&mesh.physical_names, &by_face),
        ),
    );
    add_file(
        &mut files,
        "constant/polyMesh/cellZones",
        list_text(
            "cellZoneMesh",
            "cellZones",
            by_cell.len(),
            cell_zones_list(&mesh.physical_names, &by_cell),
        ),
    );
    add_file(
        &mut files,
        "system/controlDict",
        control_dict(),
    );
    add_file(
        &mut files,
        "system/fvSchemes",
        fv_schemes(),
    );
    add_file(
        &mut files,
        "system/fvSolution",
        fv_solution(),
    );
    let summary = FoamWriteSummary {
        case_dir: case_dir.to_string(),
        points: mesh.points.len(),
        cells: mesh.cells.len(),
        faces: built.faces.len(),
        internal_faces: ordered.internal_face_indices.len(),
        boundary_faces: ordered.face_indices.len() - ordered.internal_face_indices.len(),
        patches: ordered.patches,
        face_zones: sum_face_zones(&mesh.physical_names, &by_face),
        cell_zones: sum_cell_zones(&mesh.physical_names, &by_cell),
        unmatched_boundary_faces: built.unmatched_boundary_faces,
        duplicate_boundary_faces: built.duplicate_boundary_faces,
        non_manifold_faces: built.non_manifold_faces,
    };
    let content = summary_text(&summary, &mesh.unsupported_elements, source);
    add_file(&mut files, "constant/ferrumMeshSummary.txt", content);
    let found = FoamCase { files, summary };
    proof {
        assert(labels_of(ordered.labels@, ordered.face_indices@));
        assert(is_case(
            *mesh,
            points@,
            case_dir@,
            source@,
            *options,
            built.faces@,
            by_face@,
            by_cell@,
            found,
        ));
    }
    found
}

/// The faces between cells come first.
pub(crate) proof fn lemma_inner_first(faces: Seq<FaceRecord>, names: Seq<Seq<char>>, n: int)
    requires
        0 <= n <= names.len(),
    ensures
        ordering::face_order(faces, names, n).len() >= ordering::internal(
            faces,
            faces.len() as int,
        ).len(),
    decreases n,
{
    if n > 0 {
        lemma_inner_first(faces, names, n - 1);
    }
}

} // verus!
