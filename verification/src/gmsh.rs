//! Meshes in the ASCII format of Gmsh, version 2.2.

use crate::dictionary;
use crate::error::{Failure, MeshError};
use crate::mesh::{BoundaryFace, Cell, Mesh, PhysicalName, UnsupportedElementCount};
use crate::text;
use crate::zones;
use std::collections::HashMap;
use vstd::prelude::*;

verus! {

broadcast use vstd::std_specs::hash::group_hash_axioms;

/// A point by the notations of its coordinates.
#[derive(Debug)]
pub struct Coordinates {
    pub x: String,
    pub y: String,
    pub z: String,
}

/// The view of a point.
pub type PointView = (Seq<char>, Seq<char>, Seq<char>);

/// The views of points.
pub open spec fn point_views(points: Seq<Coordinates>) -> Seq<PointView> {
    Seq::new(points.len(), |i: int| (points[i].x@, points[i].y@, points[i].z@))
}

/// The mathematical view of a physical name.
pub struct NameView {
    pub dim: u8,
    pub tag: i32,
    pub name: Seq<char>,
}

/// The views of physical names.
pub open spec fn name_views(names: Seq<PhysicalName>) -> Seq<NameView> {
    Seq::new(
        names.len(),
        |i: int| NameView { dim: names[i].dim, tag: names[i].tag, name: names[i].name@ },
    )
}

/// An element with its nodes.
pub struct ElementView {
    pub source_id: nat,
    pub physical_tag: int,
    pub nodes: Seq<usize>,
}

/// The views of cells.
pub open spec fn cell_views(cells: Seq<Cell>) -> Seq<ElementView> {
    Seq::new(
        cells.len(),
        |i: int|
            ElementView {
                source_id: cells[i].source_id as nat,
                physical_tag: cells[i].physical_tag as int,
                nodes: cells[i].nodes@,
            },
    )
}

/// The views of boundary faces.
pub open spec fn face_views(faces: Seq<BoundaryFace>) -> Seq<ElementView> {
    Seq::new(
        faces.len(),
        |i: int|
            ElementView {
                source_id: faces[i].source_id as nat,
                physical_tag: faces[i].physical_tag as int,
                nodes: faces[i].nodes@,
            },
    )
}

/// The elements of a file.
pub struct ElementsView {
    pub cells: Seq<ElementView>,
    pub faces: Seq<ElementView>,
    /// The types of the elements that were passed over.
    pub unsupported: Seq<i32>,
}

/// What has been read of a file.
pub struct MeshView {
    pub names: Seq<NameView>,
    pub ids: Seq<usize>,
    pub points: Seq<PointView>,
    pub elements: ElementsView,
}

/// The failure of a line.
pub open spec fn failed(line: int, message: Seq<char>) -> Failure {
    Failure::Parse { line: line as nat, message }
}

/// The line behind the first `at`.
pub open spec fn required(lines: Seq<Seq<char>>, at: int, message: Seq<char>) -> Result<
    Seq<char>,
    Failure,
> {
    if at < lines.len() {
        Ok(lines[at])
    } else {
        Err(failed(at, message))
    }
}

/// The count in the line behind the first `at`.
pub open spec fn count_at(lines: Seq<Seq<char>>, at: int, message: Seq<char>) -> Result<
    nat,
    Failure,
> {
    match required(lines, at, message) {
        Err(failure) => Err(failure),
        Ok(line) => match text::natural(text::trim(line), usize::MAX as nat) {
            Some(count) => Ok(count),
            None => Err(failed(at + 1, "invalid count: "@ + line)),
        },
    }
}

/// A marker in the line behind the first `at`.
pub open spec fn marker_at(lines: Seq<Seq<char>>, at: int, marker: Seq<char>) -> Result<
    (),
    Failure,
> {
    match required(lines, at, "expected "@ + marker) {
        Err(failure) => Err(failure),
        Ok(line) => if text::trim(line) == marker {
            Ok(())
        } else {
            Err(failed(at + 1, "expected "@ + marker + ", found "@ + text::trim(line)))
        },
    }
}

/// The format of the file: version 2.2, as text.
pub open spec fn format_at(lines: Seq<Seq<char>>, at: int) -> Result<int, Failure> {
    match required(lines, at, "expected mesh format line"@) {
        Err(failure) => Err(failure),
        Ok(line) => {
            let parts = text::words(line);
            if parts.len() < 3 {
                Err(failed(at + 1, "invalid $MeshFormat entry"@))
            } else if !"2.2"@.is_prefix_of(parts[0]) {
                Err(
                    failed(
                        at + 1,
                        "unsupported Gmsh version "@ + parts[0] + "; expected 2.2 ASCII"@,
                    ),
                )
            } else if parts[1] != "0"@ {
                Err(failed(at + 1, "binary .msh files are not supported yet"@))
            } else {
                match marker_at(lines, at + 1, "$EndMeshFormat"@) {
                    Err(failure) => Err(failure),
                    Ok(_) => Ok(at + 2),
                }
            }
        },
    }
}

/// A number among the words of a line.
pub open spec fn word_at(words: Seq<Seq<char>>, at: int) -> Option<Seq<char>> {
    if at < words.len() {
        Some(words[at])
    } else {
        None
    }
}

/// What is said of a number that is missing or is none.
pub open spec fn number_failure(word: Option<Seq<char>>, line: int, label: Seq<char>) -> Failure {
    match word {
        None => failed(line, "missing "@ + label),
        Some(_) => failed(line, "invalid "@ + label),
    }
}

/// An integer among the words of a line.
pub open spec fn integer_at(
    words: Seq<Seq<char>>,
    at: int,
    min: int,
    max: int,
    line: int,
    label: Seq<char>,
) -> Result<int, Failure> {
    match word_at(words, at) {
        None => Err(number_failure(None, line, label)),
        Some(word) => match text::integer(word, min, max) {
            Some(number) => Ok(number),
            None => Err(number_failure(Some(word), line, label)),
        },
    }
}

/// A natural number among the words of a line.
pub open spec fn natural_at(
    words: Seq<Seq<char>>,
    at: int,
    max: nat,
    line: int,
    label: Seq<char>,
) -> Result<nat, Failure> {
    match word_at(words, at) {
        None => Err(number_failure(None, line, label)),
        Some(word) => match text::natural(word, max) {
            Some(number) => Ok(number),
            None => Err(number_failure(Some(word), line, label)),
        },
    }
}

/// The notation of a number among the words of a line.
pub open spec fn float_at(words: Seq<Seq<char>>, at: int, line: int, label: Seq<char>) -> Result<
    Seq<char>,
    Failure,
> {
    match word_at(words, at) {
        None => Err(number_failure(None, line, label)),
        Some(word) => if text::is_float(word) {
            Ok(word)
        } else {
            Err(number_failure(Some(word), line, label))
        },
    }
}

/// A physical name: its dimension and tag before quotes, its name inside them.
pub open spec fn name_of(line: Seq<char>, number: int) -> Result<NameView, Failure> {
    match text::split_once(line, '"') {
        None => Err(failed(number, "physical name is missing opening quote"@)),
        Some((head, rest)) => match text::find_last(rest, '"') {
            None => Err(failed(number, "invalid quoted physical name"@)),
            Some(end) => {
                let words = text::words(head);
                match natural_at(words, 0, u8::MAX as nat, number, "physical dimension"@) {
                    Err(failure) => Err(failure),
                    Ok(dim) => match integer_at(
                        words,
                        1,
                        i32::MIN as int,
                        i32::MAX as int,
                        number,
                        "physical tag"@,
                    ) {
                        Err(failure) => Err(failure),
                        Ok(tag) => Ok(
                            NameView { dim: dim as u8, tag: tag as i32, name: rest.take(end) },
                        ),
                    },
                }
            },
        },
    }
}

/// The first `n` physical names behind the line `at`.
pub open spec fn names_at(lines: Seq<Seq<char>>, at: int, n: nat) -> Result<
    Seq<NameView>,
    Failure,
>
    decreases n,
{
    if n == 0 {
        Ok(Seq::empty())
    } else {
        match names_at(lines, at, (n - 1) as nat) {
            Err(failure) => Err(failure),
            Ok(earlier) => match required(
                lines,
                at + n - 1,
                "expected physical-name entry"@,
            ) {
                Err(failure) => Err(failure),
                Ok(line) => match name_of(line, at + n) {
                    Err(failure) => Err(failure),
                    Ok(name) => Ok(earlier.push(name)),
                },
            },
        }
    }
}

/// A node: its number and its coordinates.
pub open spec fn node_of(line: Seq<char>, number: int) -> Result<(usize, PointView), Failure> {
    let words = text::words(line);
    match natural_at(words, 0, usize::MAX as nat, number, "node id"@) {
        Err(failure) => Err(failure),
        Ok(id) => match float_at(words, 1, number, "node x"@) {
            Err(failure) => Err(failure),
            Ok(x) => match float_at(words, 2, number, "node y"@) {
                Err(failure) => Err(failure),
                Ok(y) => match float_at(words, 3, number, "node z"@) {
                    Err(failure) => Err(failure),
                    Ok(z) => Ok((id as usize, (x, y, z))),
                },
            },
        },
    }
}

/// The first `n` nodes behind the line `at`.
pub open spec fn nodes_at(lines: Seq<Seq<char>>, at: int, n: nat) -> Result<
    (Seq<usize>, Seq<PointView>),
    Failure,
>
    decreases n,
{
    if n == 0 {
        Ok((Seq::empty(), Seq::empty()))
    } else {
        match nodes_at(lines, at, (n - 1) as nat) {
            Err(failure) => Err(failure),
            Ok((ids, points)) => match required(lines, at + n - 1, "expected node entry"@) {
                Err(failure) => Err(failure),
                Ok(line) => match node_of(line, at + n) {
                    Err(failure) => Err(failure),
                    Ok((id, point)) => Ok((ids.push(id), points.push(point))),
                },
            },
        }
    }
}

/// The place of the last of the first `n` nodes with a number.
pub open spec fn place_before(ids: Seq<usize>, id: int, n: int) -> Option<int>
    decreases n,
{
    if n <= 0 {
        None
    } else if ids[n - 1] == id {
        Some(n - 1)
    } else {
        place_before(ids, id, n - 1)
    }
}

/// The place of a node; of two nodes with one number the later counts.
pub open spec fn node_place(ids: Seq<usize>, id: int) -> Option<int> {
    place_before(ids, id, ids.len() as int)
}

/// The place of a node of an element.
pub open spec fn place_of(ids: Seq<usize>, id: int, line: int) -> Result<usize, Failure> {
    if id < 0 {
        Err(failed(line, "negative node id "@ + text::signed_decimal(id)))
    } else {
        match node_place(ids, id) {
            Some(place) => Ok(place as usize),
            None => Err(failed(line, "unknown node id "@ + text::signed_decimal(id))),
        }
    }
}

/// The places of the first `n` nodes of an element, whose numbers are the
/// fields from `start` on.
pub open spec fn places_of(
    ids: Seq<usize>,
    fields: Seq<i64>,
    start: int,
    n: nat,
    line: int,
) -> Result<Seq<usize>, Failure>
    decreases n,
{
    if n == 0 {
        Ok(Seq::empty())
    } else {
        match places_of(ids, fields, start, (n - 1) as nat, line) {
            Err(failure) => Err(failure),
            Ok(earlier) => match place_of(ids, fields[start + n - 1] as int, line) {
                Err(failure) => Err(failure),
                Ok(place) => Ok(earlier.push(place)),
            },
        }
    }
}

/// The first `n` words as integers, if all are.
pub open spec fn fields_before(words: Seq<Seq<char>>, n: int) -> Option<Seq<i64>>
    decreases n,
{
    if n <= 0 {
        Some(Seq::empty())
    } else {
        match fields_before(words, n - 1) {
            None => None,
            Some(earlier) => match text::integer(
                words[n - 1],
                i64::MIN as int,
                i64::MAX as int,
            ) {
                Some(number) => Some(earlier.push(number as i64)),
                None => None,
            },
        }
    }
}

/// The value of the low 32 bits of a number, as a signed number.
pub open spec fn low_word(value: int) -> int {
    let low = value % 0x1_0000_0000;
    if low >= 0x8000_0000 {
        low - 0x1_0000_0000
    } else {
        low
    }
}

/// The value of the low bits of a number, as many as fit.
pub open spec fn low_bits(value: int) -> int {
    value % (usize::MAX + 1)
}

impl ElementsView {
    /// The elements with one more, by the fields of its line: a quadrilateral
    /// (type 3), a hexahedron (type 5), or one that is passed over.
    pub open spec fn with(self, ids: Seq<usize>, fields: Seq<i64>, line: int) -> Result<
        ElementsView,
        Failure,
    > {
        if fields.len() < 3 {
            Err(failed(line, "element entry is too short"@))
        } else if fields[2] < 0 || fields.len() < 3 + fields[2] {
            Err(failed(line, "element entry has fewer tags than declared"@))
        } else {
            let start = 3 + fields[2];
            let tag = if fields[2] > 0 {
                low_word(fields[3] as int)
            } else {
                0
            };
            let kind = low_word(fields[1] as int);
            let source_id = low_bits(fields[0] as int) as nat;
            if kind == 3 {
                if fields.len() != start + 4 {
                    Err(failed(line, "quad4 element does not have 4 nodes"@))
                } else {
                    match places_of(ids, fields, start, 4, line) {
                        Err(failure) => Err(failure),
                        Ok(nodes) => Ok(
                            ElementsView {
                                faces: self.faces.push(
                                    ElementView { source_id, physical_tag: tag, nodes },
                                ),
                                ..self
                            },
                        ),
                    }
                }
            } else if kind == 5 {
                if fields.len() != start + 8 {
                    Err(failed(line, "hex8 element does not have 8 nodes"@))
                } else {
                    match places_of(ids, fields, start, 8, line) {
                        Err(failure) => Err(failure),
                        Ok(nodes) => Ok(
                            ElementsView {
                                cells: self.cells.push(
                                    ElementView { source_id, physical_tag: tag, nodes },
                                ),
                                ..self
                            },
                        ),
                    }
                }
            } else {
                Ok(ElementsView { unsupported: self.unsupported.push(kind as i32), ..self })
            }
        }
    }
}

/// No elements.
pub open spec fn no_elements() -> ElementsView {
    ElementsView { cells: Seq::empty(), faces: Seq::empty(), unsupported: Seq::empty() }
}

/// The first `n` elements behind the line `at`.
pub open spec fn elements_at(lines: Seq<Seq<char>>, ids: Seq<usize>, at: int, n: nat) -> Result<
    ElementsView,
    Failure,
>
    decreases n,
{
    if n == 0 {
        Ok(no_elements())
    } else {
        match elements_at(lines, ids, at, (n - 1) as nat) {
            Err(failure) => Err(failure),
            Ok(earlier) => match required(lines, at + n - 1, "expected element entry"@) {
                Err(failure) => Err(failure),
                Ok(line) => {
                    let words = text::words(line);
                    match fields_before(words, words.len() as int) {
                        None => Err(failed(at + n, "invalid integer in element entry"@)),
                        Some(fields) => earlier.with(ids, fields, at + n),
                    }
                },
            },
        }
    }
}

/// Where a section ends that is a count in the line behind the first `at`, so
/// many lines and a marker.
pub open spec fn section_end(lines: Seq<Seq<char>>, at: int, count: nat, marker: Seq<char>) -> Result<
    int,
    Failure,
> {
    match marker_at(lines, at + 1 + count, marker) {
        Err(failure) => Err(failure),
        Ok(_) => Ok(at + 2 + count),
    }
}

/// The physical names behind the line `at`, and where they end.
pub open spec fn names_section(lines: Seq<Seq<char>>, at: int) -> Result<
    (Seq<NameView>, int),
    Failure,
> {
    match count_at(lines, at, "expected physical-name count"@) {
        Err(failure) => Err(failure),
        Ok(count) => match names_at(lines, at + 1, count) {
            Err(failure) => Err(failure),
            Ok(names) => match section_end(lines, at, count, "$EndPhysicalNames"@) {
                Err(failure) => Err(failure),
                Ok(end) => Ok((names, end)),
            },
        },
    }
}

/// The nodes behind the line `at`, and where they end.
pub open spec fn nodes_section(lines: Seq<Seq<char>>, at: int) -> Result<
    ((Seq<usize>, Seq<PointView>), int),
    Failure,
> {
    match count_at(lines, at, "expected node count"@) {
        Err(failure) => Err(failure),
        Ok(count) => match nodes_at(lines, at + 1, count) {
            Err(failure) => Err(failure),
            Ok(nodes) => match section_end(lines, at, count, "$EndNodes"@) {
                Err(failure) => Err(failure),
                Ok(end) => Ok((nodes, end)),
            },
        },
    }
}

/// The elements behind the line `at`, and where they end.
pub open spec fn elements_section(lines: Seq<Seq<char>>, ids: Seq<usize>, at: int) -> Result<
    (ElementsView, int),
    Failure,
> {
    match count_at(lines, at, "expected element count"@) {
        Err(failure) => Err(failure),
        Ok(count) => match elements_at(lines, ids, at + 1, count) {
            Err(failure) => Err(failure),
            Ok(elements) => match section_end(lines, at, count, "$EndElements"@) {
                Err(failure) => Err(failure),
                Ok(end) => Ok((elements, end)),
            },
        },
    }
}

impl MeshView {
    /// What has been read after the section that the line before `at` opens,
    /// and where the section ends.
    pub open spec fn after(self, lines: Seq<Seq<char>>, at: int) -> Result<
        (MeshView, int),
        Failure,
    > {
        let title = text::trim(lines[at - 1]);
        if title == "$MeshFormat"@ {
            match format_at(lines, at) {
                Err(failure) => Err(failure),
                Ok(end) => Ok((self, end)),
            }
        } else if title == "$PhysicalNames"@ {
            match names_section(lines, at) {
                Err(failure) => Err(failure),
                Ok((names, end)) => Ok((MeshView { names, ..self }, end)),
            }
        } else if title == "$Nodes"@ {
            match nodes_section(lines, at) {
                Err(failure) => Err(failure),
                Ok(((ids, points), end)) => Ok((MeshView { ids, points, ..self }, end)),
            }
        } else if title == "$Elements"@ {
            match elements_section(lines, self.ids, at) {
                Err(failure) => Err(failure),
                Ok((elements, end)) => Ok((MeshView { elements, ..self }, end)),
            }
        } else {
            Ok((self, at))
        }
    }
}

/// What the lines from `at` on add to what has been read.
pub open spec fn read_from(lines: Seq<Seq<char>>, at: int, mesh: MeshView) -> Result<
    MeshView,
    Failure,
>
    decreases lines.len() - at,
{
    if at >= lines.len() {
        Ok(mesh)
    } else {
        match mesh.after(lines, at + 1) {
            Err(failure) => Err(failure),
            Ok((next, end)) => if end <= at {
                Ok(next)
            } else {
                read_from(lines, end, next)
            },
        }
    }
}

/// The mesh that a file holds.
pub open spec fn mesh_of(content: Seq<char>) -> Result<MeshView, Failure> {
    read_from(
        text::lines(content),
        0,
        MeshView {
            names: Seq::empty(),
            ids: Seq::empty(),
            points: Seq::empty(),
            elements: no_elements(),
        },
    )
}

/// The types that were passed over, each once and in increasing order.
pub open spec fn counted_types(types: Seq<i32>) -> Seq<i32> {
    zones::sorted_tags(type_members(types), types.len() as int)
}

/// The types as members of zones.
pub open spec fn type_members(types: Seq<i32>) -> Seq<(i32, usize)> {
    Seq::new(types.len(), |i: int| (types[i], i as usize))
}

/// Whether `mesh` is what was read: its points, names and elements, and how
/// many elements of which types were passed over.
pub open spec fn is_mesh(mesh: Mesh<Coordinates>, read: MeshView) -> bool {
    let types = read.elements.unsupported;
    &&& point_views(mesh.points@) == read.points
    &&& name_views(mesh.physical_names@) == read.names
    &&& cell_views(mesh.cells@) == read.elements.cells
    &&& face_views(mesh.boundary_faces@) == read.elements.faces
    &&& mesh.unsupported_elements@.len() == counted_types(types).len()
    &&& forall|i: int|
        0 <= i < mesh.unsupported_elements@.len() ==> (
        #[trigger] mesh.unsupported_elements@[i]).element_type == counted_types(types)[i]
            && mesh.unsupported_elements@[i].count == zones::tagged(
            type_members(types),
            counted_types(types)[i],
            types.len() as int,
        ).len()
}

proof fn lemma_place_bound(ids: Seq<usize>, id: int, n: int)
    requires
        0 <= n <= ids.len(),
    ensures
        match place_before(ids, id, n) {
            Some(at) => 0 <= at < n && ids[at] == id,
            None => true,
        },
    decreases n,
{
    if n > 0 && ids[n - 1] != id {
        lemma_place_bound(ids, id, n - 1);
    }
}

proof fn lemma_places_bound(ids: Seq<usize>, fields: Seq<i64>, start: int, n: nat, line: int)
    requires
        ids.len() <= usize::MAX,
    ensures
        match places_of(ids, fields, start, n, line) {
            Ok(places) => places.len() == n && forall|i: int|
                0 <= i < n ==> #[trigger] places[i] < ids.len(),
            Err(_) => true,
        },
    decreases n,
{
    if n > 0 {
        lemma_places_bound(ids, fields, start, (n - 1) as nat, line);
        lemma_place_bound(ids, fields[start + n - 1] as int, ids.len() as int);
    }
}

/// Whether every element stands on nodes.
pub open spec fn on_nodes(elements: Seq<ElementView>, nodes: nat, count: nat) -> bool {
    forall|i: int|
        #![trigger elements[i]]
        0 <= i < elements.len() ==> elements[i].nodes.len() == count && forall|k: int|
            0 <= k < count ==> #[trigger] elements[i].nodes[k] < nodes
}

/// What is read of elements stands on the nodes that were read: no cell and no
/// boundary face has a corner that is not a point.
pub proof fn elements_stand_on_nodes(lines: Seq<Seq<char>>, ids: Seq<usize>, at: int, n: nat)
    requires
        ids.len() <= usize::MAX,
        elements_at(lines, ids, at, n) is Ok,
    ensures
        on_nodes(elements_at(lines, ids, at, n)->Ok_0.cells, ids.len(), 8),
        on_nodes(elements_at(lines, ids, at, n)->Ok_0.faces, ids.len(), 4),
    decreases n,
{
    if n > 0 {
        elements_stand_on_nodes(lines, ids, at, (n - 1) as nat);
        let words = text::words(lines[at + n - 1]);
        let fields = fields_before(words, words.len() as int)->0;
        let start = 3 + fields[2];
        lemma_places_bound(ids, fields, start, 4, at + n);
        lemma_places_bound(ids, fields, start, 8, at + n);
    }
}

proof fn lemma_names_fail(lines: Seq<Seq<char>>, at: int, n: nat, m: nat)
    requires
        n <= m,
        names_at(lines, at, n) is Err,
    ensures
        names_at(lines, at, m) == names_at(lines, at, n),
    decreases m,
{
    if n < m {
        lemma_names_fail(lines, at, n, (m - 1) as nat);
    }
}

proof fn lemma_nodes_fail(lines: Seq<Seq<char>>, at: int, n: nat, m: nat)
    requires
        n <= m,
        nodes_at(lines, at, n) is Err,
    ensures
        nodes_at(lines, at, m) == nodes_at(lines, at, n),
    decreases m,
{
    if n < m {
        lemma_nodes_fail(lines, at, n, (m - 1) as nat);
    }
}

proof fn lemma_elements_fail(lines: Seq<Seq<char>>, ids: Seq<usize>, at: int, n: nat, m: nat)
    requires
        n <= m,
        elements_at(lines, ids, at, n) is Err,
    ensures
        elements_at(lines, ids, at, m) == elements_at(lines, ids, at, n),
    decreases m,
{
    if n < m {
        lemma_elements_fail(lines, ids, at, n, (m - 1) as nat);
    }
}

proof fn lemma_places_fail(
    ids: Seq<usize>,
    fields: Seq<i64>,
    start: int,
    n: nat,
    m: nat,
    line: int,
)
    requires
        n <= m,
        places_of(ids, fields, start, n, line) is Err,
    ensures
        places_of(ids, fields, start, m, line) == places_of(ids, fields, start, n, line),
    decreases m,
{
    if n < m {
        lemma_places_fail(ids, fields, start, n, (m - 1) as nat, line);
    }
}

proof fn lemma_fields_fail(words: Seq<Seq<char>>, n: int, m: int)
    requires
        0 <= n <= m,
        fields_before(words, n) is None,
    ensures
        fields_before(words, m) is None,
    decreases m,
{
    if n < m {
        lemma_fields_fail(words, n, m - 1);
    }
}

fn parse_error(line: usize, message: String) -> (error: MeshError)
    ensures
        error@ == failed(line as int, message@),
{
    MeshError::Parse { line, message }
}

fn next_line<'a>(lines: &'a Vec<String>, at: usize, message: &str) -> (out: Result<
    &'a String,
    MeshError,
>)
    ensures
        match out {
            Ok(line) => at < lines.len() && *line == lines@[at as int] && dictionary::gives(
                required(text::texts(lines@), at as int, message@),
                line@,
            ),
            Err(error) => at >= lines@.len() && dictionary::fails(
                required(text::texts(lines@), at as int, message@),
                error,
            ),
        },
{
    if at < lines.len() {
        Ok(&lines[at])
    } else {
        Err(parse_error(at, message.to_string()))
    }
}

fn read_count(lines: &Vec<String>, at: usize, message: &str) -> (out: Result<usize, MeshError>)
    ensures
        match out {
            Ok(count) => at < lines@.len() && dictionary::gives(
                count_at(text::texts(lines@), at as int, message@),
                count as nat,
            ),
            Err(error) => dictionary::fails(
                count_at(text::texts(lines@), at as int, message@),
                error,
            ),
        },
{
    let line = next_line(lines, at, message)?;
    match text::read_usize(text::trimmed(line.as_str()).as_str()) {
        Some(count) => Ok(count),
        None => {
            let mut message = "invalid count: ".to_string();
            message.append(line.as_str());
            Err(parse_error(at + 1, message))
        },
    }
}

fn expect_marker(lines: &Vec<String>, at: usize, marker: &str) -> (out: Result<(), MeshError>)
    ensures
        match out {
            Ok(done) => at < lines@.len() && dictionary::gives(
                marker_at(text::texts(lines@), at as int, marker@),
                done,
            ),
            Err(error) => dictionary::fails(
                marker_at(text::texts(lines@), at as int, marker@),
                error,
            ),
        },
{
    let mut expected = "expected ".to_string();
    expected.append(marker);
    let line = next_line(lines, at, expected.as_str())?;
    let found = text::trimmed(line.as_str());
    if text::text_eq(found.as_str(), marker) {
        Ok(())
    } else {
        expected.append(", found ");
        expected.append(found.as_str());
        Err(parse_error(at + 1, expected))
    }
}

fn read_mesh_format(lines: &Vec<String>, at: usize) -> (out: Result<usize, MeshError>)
    ensures
        match out {
            Ok(end) => at < end <= lines@.len() && dictionary::gives(
                format_at(text::texts(lines@), at as int),
                end as int,
            ),
            Err(error) => dictionary::fails(format_at(text::texts(lines@), at as int), error),
        },
{
    let line = next_line(lines, at, "expected mesh format line")?;
    let parts = text::words_of(line.as_str());
    let ghost words = text::texts(parts@);
    if parts.len() < 3 {
        return Err(parse_error(at + 1, "invalid $MeshFormat entry".to_string()));
    }
    if !text::starts_with(parts[0].as_str(), "2.2") {
        let mut message = "unsupported Gmsh version ".to_string();
        message.append(parts[0].as_str());
        message.append("; expected 2.2 ASCII");
        return Err(parse_error(at + 1, message));
    }
    if !text::text_eq(parts[1].as_str(), "0") {
        return Err(parse_error(at + 1, "binary .msh files are not supported yet".to_string()));
    }
    expect_marker(lines, at + 1, "$EndMeshFormat")?;
    Ok(at + 2)
}

fn number_error(missing: bool, line: usize, label: &str) -> (error: MeshError)
    ensures
        error@ == failed(
            line as int,
            (if missing {
                "missing "@
            } else {
                "invalid "@
            }) + label@,
        ),
{
    let mut message = if missing {
        "missing ".to_string()
    } else {
        "invalid ".to_string()
    };
    message.append(label);
    parse_error(line, message)
}

fn read_natural(
    words: &Vec<String>,
    at: usize,
    line: usize,
    label: &str,
) -> (out: Result<usize, MeshError>)
    ensures
        match out {
            Ok(number) => dictionary::gives(
                natural_at(
                    text::texts(words@),
                    at as int,
                    usize::MAX as nat,
                    line as int,
                    label@,
                ),
                number as nat,
            ),
            Err(error) => dictionary::fails(
                natural_at(
                    text::texts(words@),
                    at as int,
                    usize::MAX as nat,
                    line as int,
                    label@,
                ),
                error,
            ),
        },
{
    if at >= words.len() {
        return Err(number_error(true, line, label));
    }
    match text::read_usize(words[at].as_str()) {
        Some(number) => Ok(number),
        None => Err(number_error(false, line, label)),
    }
}

fn read_dimension(words: &Vec<String>, line: usize) -> (out: Result<u8, MeshError>)
    ensures
        ({
            let named = natural_at(
                text::texts(words@),
                0,
                u8::MAX as nat,
                line as int,
                "physical dimension"@,
            );
            match out {
                Ok(number) => dictionary::gives(named, number as nat),
                Err(error) => dictionary::fails(named, error),
            }
        }),
{
    if words.len() == 0 {
        return Err(number_error(true, line, "physical dimension"));
    }
    match text::read_usize(words[0].as_str()) {
        Some(number) => if number <= 255 {
            Ok(number as u8)
        } else {
            Err(number_error(false, line, "physical dimension"))
        },
        None => Err(number_error(false, line, "physical dimension")),
    }
}

fn read_tag(words: &Vec<String>, line: usize) -> (out: Result<i32, MeshError>)
    ensures
        ({
            let named = integer_at(
                text::texts(words@),
                1,
                i32::MIN as int,
                i32::MAX as int,
                line as int,
                "physical tag"@,
            );
            match out {
                Ok(number) => dictionary::gives(named, number as int),
                Err(error) => dictionary::fails(named, error),
            }
        }),
{
    if words.len() <= 1 {
        return Err(number_error(true, line, "physical tag"));
    }
    match text::read_integer(words[1].as_str(), -0x8000_0000, 0x7fff_ffff) {
        Some(number) => Ok(number as i32),
        None => Err(number_error(false, line, "physical tag")),
    }
}

fn read_float(words: &Vec<String>, at: usize, line: usize, label: &str) -> (out: Result<
    String,
    MeshError,
>)
    ensures
        match out {
            Ok(word) => dictionary::gives(
                float_at(text::texts(words@), at as int, line as int, label@),
                word@,
            ),
            Err(error) => dictionary::fails(
                float_at(text::texts(words@), at as int, line as int, label@),
                error,
            ),
        },
{
    if at >= words.len() {
        return Err(number_error(true, line, label));
    }
    if text::reads_float(words[at].as_str()) {
        Ok(words[at].clone())
    } else {
        Err(number_error(false, line, label))
    }
}

/// The view of a physical name.
pub open spec fn name_view(name: PhysicalName) -> NameView {
    NameView { dim: name.dim, tag: name.tag, name: name.name@ }
}

/// Reads a physical name.
pub fn parse_physical_name(line: &str, number: usize) -> (out: Result<PhysicalName, MeshError>)
    ensures
        match out {
            Ok(name) => dictionary::gives(name_of(line@, number as int), name_view(name)),
            Err(error) => dictionary::fails(name_of(line@, number as int), error),
        },
{
    match text::split_at_first(line, '"') {
        None => Err(
            parse_error(number, "physical name is missing opening quote".to_string()),
        ),
        Some((head, rest)) => match text::before_last(rest.as_str(), '"') {
            None => Err(parse_error(number, "invalid quoted physical name".to_string())),
            Some(name) => {
                let words = text::words_of(head.as_str());
                let dim = read_dimension(&words, number)?;
                let tag = read_tag(&words, number)?;
                Ok(PhysicalName { dim, tag, name })
            },
        },
    }
}

fn read_physical_names(lines: &Vec<String>, at: usize) -> (out: Result<
    (Vec<PhysicalName>, usize),
    MeshError,
>)
    ensures
        match out {
            Ok((names, end)) => at < end <= lines@.len() && dictionary::gives(
                names_section(text::texts(lines@), at as int),
                (name_views(names@), end as int),
            ),
            Err(error) => dictionary::fails(names_section(text::texts(lines@), at as int), error),
        },
{
    let ghost all = text::texts(lines@);
    let count: usize = read_count(lines, at, "expected physical-name count")?;
    let mut names: Vec<PhysicalName> = Vec::new();
    let mut k: usize = 0;
    assert(name_views(names@) =~= Seq::empty());
    while k < count
        invariant
            k <= count,
            at + 1 + k <= lines.len(),
            all == text::texts(lines@),
            count_at(all, at as int, "expected physical-name count"@) == Ok::<nat, Failure>(
                count as nat,
            ),
            names_at(all, at + 1, k as nat) == Ok::<Seq<NameView>, Failure>(name_views(names@)),
        decreases count - k,
    {
        let ghost earlier = name_views(names@);
        match next_line(lines, at + 1 + k, "expected physical-name entry") {
            Err(error) => {
                proof {
                    lemma_names_fail(all, at + 1, (k + 1) as nat, count as nat);
                }
                return Err(error);
            },
            Ok(line) => match parse_physical_name(line.as_str(), at + 2 + k) {
                Err(error) => {
                    proof {
                        lemma_names_fail(all, at + 1, (k + 1) as nat, count as nat);
                    }
                    return Err(error);
                },
                Ok(name) => {
                    let ghost added = name_view(name);
                    names.push(name);
                    assert(name_views(names@) =~= earlier.push(added));
                },
            },
        }
        k += 1;
    }
    expect_marker(lines, at + 1 + count, "$EndPhysicalNames")?;
    Ok((names, at + 2 + count))
}

/// The nodes of a file: their numbers and their points.
struct LoadedNodes {
    ids: Vec<usize>,
    points: Vec<Coordinates>,
}

fn read_node(line: &str, number: usize) -> (out: Result<(usize, Coordinates), MeshError>)
    ensures
        match out {
            Ok((id, point)) => dictionary::gives(
                node_of(line@, number as int),
                (id, (point.x@, point.y@, point.z@)),
            ),
            Err(error) => dictionary::fails(node_of(line@, number as int), error),
        },
{
    let words = text::words_of(line);
    let id: usize = read_natural(&words, 0, number, "node id")?;
    let x = read_float(&words, 1, number, "node x")?;
    let y = read_float(&words, 2, number, "node y")?;
    let z = read_float(&words, 3, number, "node z")?;
    Ok((id, Coordinates { x, y, z }))
}

fn read_nodes(lines: &Vec<String>, at: usize) -> (out: Result<(LoadedNodes, usize), MeshError>)
    ensures
        match out {
            Ok((nodes, end)) => at < end <= lines@.len() && dictionary::gives(
                nodes_section(text::texts(lines@), at as int),
                ((nodes.ids@, point_views(nodes.points@)), end as int),
            ),
            Err(error) => dictionary::fails(nodes_section(text::texts(lines@), at as int), error),
        },
{
    let ghost all = text::texts(lines@);
    let count: usize = read_count(lines, at, "expected node count")?;
    let mut ids: Vec<usize> = Vec::new();
    let mut points: Vec<Coordinates> = Vec::new();
    let mut k: usize = 0;
    assert(ids@ =~= Seq::empty());
    assert(point_views(points@) =~= Seq::empty());
    while k < count
        invariant
            k <= count,
            at + 1 + k <= lines.len(),
            all == text::texts(lines@),
            count_at(all, at as int, "expected node count"@) == Ok::<nat, Failure>(count as nat),
            nodes_at(all, at + 1, k as nat) == Ok::<(Seq<usize>, Seq<PointView>), Failure>(
                (ids@, point_views(points@)),
            ),
        decreases count - k,
    {
        let ghost earlier = point_views(points@);
        match next_line(lines, at + 1 + k, "expected node entry") {
            Err(error) => {
                proof {
                    lemma_nodes_fail(all, at + 1, (k + 1) as nat, count as nat);
                }
                return Err(error);
            },
            Ok(line) => match read_node(line.as_str(), at + 2 + k) {
                Err(error) => {
                    proof {
                        lemma_nodes_fail(all, at + 1, (k + 1) as nat, count as nat);
                    }
                    return Err(error);
                },
                Ok((id, point)) => {
                    let ghost added = (point.x@, point.y@, point.z@);
                    ids.push(id);
                    points.push(point);
                    assert(point_views(points@) =~= earlier.push(added));
                },
            },
        }
        k += 1;
    }
    expect_marker(lines, at + 1 + count, "$EndNodes")?;
    Ok((LoadedNodes { ids, points }, at + 2 + count))
}

/// The places of nodes by their numbers.
struct NodeIndex {
    places: HashMap<usize, usize>,
}

impl NodeIndex {
    spec fn of(&self, ids: Seq<usize>) -> bool {
        forall|id: usize|
            #![trigger self.places@.contains_key(id)]
            #![trigger node_place(ids, id as int)]
            node_place(ids, id as int) == (if self.places@.contains_key(id) {
                Some(self.places@[id] as int)
            } else {
                None
            })
    }
}

fn index_nodes(ids: &Vec<usize>) -> (index: NodeIndex)
    ensures
        index.of(ids@),
{
    let mut places: HashMap<usize, usize> = HashMap::new();
    let mut at: usize = 0;
    while at < ids.len()
        invariant
            at <= ids@.len(),
            forall|id: usize|
                #![trigger places@.contains_key(id)]
                #![trigger place_before(ids@, id as int, at as int)]
                place_before(ids@, id as int, at as int) == (if places@.contains_key(id) {
                    Some(places@[id] as int)
                } else {
                    None
                }),
        decreases ids@.len() - at,
    {
        let ghost before = places@;
        places.insert(ids[at], at);
        assert forall|id: usize|
            #![trigger places@.contains_key(id)]
            #![trigger place_before(ids@, id as int, at + 1)]
            place_before(ids@, id as int, at + 1) == (if places@.contains_key(id) {
                Some(places@[id] as int)
            } else {
                None
            }) by {
            assert(place_before(ids@, id as int, at as int) == (if before.contains_key(id) {
                Some(before[id] as int)
            } else {
                None
            }));
        }
        at += 1;
    }
    NodeIndex { places }
}

fn node_error(what: &str, id: i64, line: usize) -> (error: MeshError)
    ensures
        error@ == failed(line as int, what@ + text::signed_decimal(id as int)),
{
    let mut message = what.to_string();
    message.append(text::integer_text(id).as_str());
    parse_error(line, message)
}

proof fn lemma_no_large_node(ids: Seq<usize>, id: int, n: int)
    requires
        id > usize::MAX,
        n <= ids.len(),
    ensures
        place_before(ids, id, n) is None,
    decreases n,
{
    if n > 0 {
        lemma_no_large_node(ids, id, n - 1);
    }
}

fn node_index(index: &NodeIndex, ids: Ghost<Seq<usize>>, id: i64, line: usize) -> (out: Result<
    usize,
    MeshError,
>)
    requires
        index.of(ids@),
    ensures
        match out {
            Ok(place) => dictionary::gives(place_of(ids@, id as int, line as int), place),
            Err(error) => dictionary::fails(place_of(ids@, id as int, line as int), error),
        },
{
    if id < 0 {
        return Err(node_error("negative node id ", id, line));
    }
    let wide: u64 = id as u64;
    if wide > usize::MAX as u64 {
        proof {
            lemma_no_large_node(ids@, id as int, ids@.len() as int);
        }
        return Err(node_error("unknown node id ", id, line));
    }
    let narrow: usize = wide as usize;
    assert(node_place(ids@, narrow as int) == (if index.places@.contains_key(narrow) {
        Some(index.places@[narrow] as int)
    } else {
        None
    }));
    match index.places.get(&narrow) {
        Some(place) => Ok(*place),
        None => Err(node_error("unknown node id ", id, line)),
    }
}

fn node_indices(
    index: &NodeIndex,
    ids: Ghost<Seq<usize>>,
    fields: &Vec<i64>,
    start: usize,
    count: usize,
    line: usize,
) -> (out: Result<Vec<usize>, MeshError>)
    requires
        index.of(ids@),
        start + count <= fields@.len(),
    ensures
        match out {
            Ok(places) => places@.len() == count && dictionary::gives(
                places_of(ids@, fields@, start as int, count as nat, line as int),
                places@,
            ),
            Err(error) => dictionary::fails(
                places_of(ids@, fields@, start as int, count as nat, line as int),
                error,
            ),
        },
{
    let mut places: Vec<usize> = Vec::new();
    let mut k: usize = 0;
    assert(places@ =~= Seq::empty());
    while k < count
        invariant
            k <= count,
            index.of(ids@),
            start + count <= fields.len(),
            places@.len() == k,
            places_of(ids@, fields@, start as int, k as nat, line as int) == Ok::<
                Seq<usize>,
                Failure,
            >(places@),
        decreases count - k,
    {
        match node_index(index, ids, fields[start + k], line) {
            Ok(place) => {
                places.push(place);
            },
            Err(error) => {
                proof {
                    lemma_places_fail(
                        ids@,
                        fields@,
                        start as int,
                        (k + 1) as nat,
                        count as nat,
                        line as int,
                    );
                }
                return Err(error);
            },
        }
        k += 1;
    }
    Ok(places)
}

fn read_fields(line: &str) -> (out: Option<Vec<i64>>)
    ensures
        match out {
            Some(fields) => fields_before(
                text::words(line@),
                text::words(line@).len() as int,
            ) == Some(fields@),
            None => fields_before(text::words(line@), text::words(line@).len() as int) is None,
        },
{
    let words = text::words_of(line);
    let ghost all = text::texts(words@);
    let mut fields: Vec<i64> = Vec::new();
    let mut at: usize = 0;
    assert(fields@ =~= Seq::empty());
    while at < words.len()
        invariant
            at <= words@.len(),
            all == text::texts(words@),
            all == text::words(line@),
            fields_before(all, at as int) == Some(fields@),
        decreases words@.len() - at,
    {
        match text::read_integer(words[at].as_str(), i64::MIN, i64::MAX) {
            Some(number) => {
                fields.push(number);
            },
            None => {
                proof {
                    lemma_fields_fail(all, at + 1, all.len() as int);
                }
                return None;
            },
        }
        at += 1;
    }
    Some(fields)
}

/// The remainder of a number by a power of two.
fn residue(value: i64, modulus: i128) -> (rest: i128)
    requires
        0 < modulus <= 0x1_0000_0000_0000_0000,
    ensures
        rest == value as int % modulus as int,
        0 <= rest < modulus,
{
    if value >= 0 {
        (value as i128) % modulus
    } else {
        let mirrored: i128 = -(value as i128 + 1);
        let rest: i128 = modulus - 1 - mirrored % modulus;
        proof {
            let whole = mirrored as int / modulus as int;
            vstd::arithmetic::div_mod::lemma_fundamental_div_mod(mirrored as int, modulus as int);
            assert((-whole - 1) * modulus == -(modulus * whole) - modulus) by (nonlinear_arith);
            vstd::arithmetic::div_mod::lemma_fundamental_div_mod_converse_mod(
                value as int,
                modulus as int,
                -whole - 1,
                rest as int,
            );
        }
        rest
    }
}

fn signed_word(value: i64) -> (word: i32)
    ensures
        word as int == low_word(value as int),
{
    let low: i128 = residue(value, 0x1_0000_0000);
    if low >= 0x8000_0000 {
        (low - 0x1_0000_0000) as i32
    } else {
        low as i32
    }
}

fn unsigned_bits(value: i64) -> (bits: usize)
    ensures
        bits as int == low_bits(value as int),
{
    let modulus: i128 = usize::MAX as i128 + 1;
    residue(value, modulus) as usize
}

/// The elements of a file.
struct LoadedElements {
    cells: Vec<Cell>,
    faces: Vec<BoundaryFace>,
    unsupported: Vec<i32>,
}

impl LoadedElements {
    spec fn read(&self) -> ElementsView {
        ElementsView {
            cells: cell_views(self.cells@),
            faces: face_views(self.faces@),
            unsupported: self.unsupported@,
        }
    }

    fn new() -> (elements: LoadedElements)
        ensures
            elements.read() == no_elements(),
    {
        let elements = LoadedElements {
            cells: Vec::new(),
            faces: Vec::new(),
            unsupported: Vec::new(),
        };
        assert(cell_views(elements.cells@) =~= Seq::empty());
        assert(face_views(elements.faces@) =~= Seq::empty());
        assert(elements.unsupported@ =~= Seq::empty());
        elements
    }

    fn take(
        &mut self,
        index: &NodeIndex,
        ids: Ghost<Seq<usize>>,
        fields: &Vec<i64>,
        line: usize,
    ) -> (out: Result<(), MeshError>)
        requires
            index.of(ids@),
        ensures
            match out {
                Ok(_) => dictionary::gives(
                    old(self).read().with(ids@, fields@, line as int),
                    final(self).read(),
                ),
                Err(error) => dictionary::fails(
                    old(self).read().with(ids@, fields@, line as int),
                    error,
                ),
            },
    {
        let count: usize = fields.len();
        if count < 3 {
            return Err(parse_error(line, "element entry is too short".to_string()));
        }
        if fields[2] < 0 || fields[2] as u64 > (count - 3) as u64 {
            return Err(
                parse_error(line, "element entry has fewer tags than declared".to_string()),
            );
        }
        let start: usize = 3 + fields[2] as usize;
        let physical_tag: i32 = if fields[2] > 0 {
            signed_word(fields[3])
        } else {
            0
        };
        let source_id: usize = unsigned_bits(fields[0]);
        let kind: i32 = signed_word(fields[1]);
        if kind == 3 {
            if count - start != 4 {
                return Err(
                    parse_error(line, "quad4 element does not have 4 nodes".to_string()),
                );
            }
            let nodes = node_indices(index, ids, fields, start, 4, line)?;
            let ghost before = face_views(self.faces@);
            let face = BoundaryFace {
                source_id,
                physical_tag,
                nodes: [nodes[0], nodes[1], nodes[2], nodes[3]],
            };
            assert(face.nodes@ =~= nodes@);
            self.faces.push(face);
            assert(face_views(self.faces@) =~= before.push(
                ElementView {
                    source_id: source_id as nat,
                    physical_tag: physical_tag as int,
                    nodes: nodes@,
                },
            ));
        } else if kind == 5 {
            if count - start != 8 {
                return Err(parse_error(line, "hex8 element does not have 8 nodes".to_string()));
            }
            let nodes = node_indices(index, ids, fields, start, 8, line)?;
            let ghost before = cell_views(self.cells@);
            let cell = Cell {
                source_id,
                physical_tag,
                nodes: [
                    nodes[0],
                    nodes[1],
                    nodes[2],
                    nodes[3],
                    nodes[4],
                    nodes[5],
                    nodes[6],
                    nodes[7],
                ],
            };
            assert(cell.nodes@ =~= nodes@);
            self.cells.push(cell);
            assert(cell_views(self.cells@) =~= before.push(
                ElementView {
                    source_id: source_id as nat,
                    physical_tag: physical_tag as int,
                    nodes: nodes@,
                },
            ));
        } else {
            self.unsupported.push(kind);
        }
        Ok(())
    }
}

fn read_elements(lines: &Vec<String>, ids: &Vec<usize>, at: usize) -> (out: Result<
    (LoadedElements, usize),
    MeshError,
>)
    ensures
        match out {
            Ok((elements, end)) => at < end <= lines@.len() && dictionary::gives(
                elements_section(text::texts(lines@), ids@, at as int),
                (elements.read(), end as int),
            ),
            Err(error) => dictionary::fails(
                elements_section(text::texts(lines@), ids@, at as int),
                error,
            ),
        },
{
    let ghost all = text::texts(lines@);
    let index = index_nodes(ids);
    let count: usize = read_count(lines, at, "expected element count")?;
    let mut elements = LoadedElements::new();
    let mut k: usize = 0;
    while k < count
        invariant
            k <= count,
            at + 1 + k <= lines.len(),
            all == text::texts(lines@),
            index.of(ids@),
            count_at(all, at as int, "expected element count"@) == Ok::<nat, Failure>(
                count as nat,
            ),
            elements_at(all, ids@, at + 1, k as nat) == Ok::<ElementsView, Failure>(
                elements.read(),
            ),
        decreases count - k,
    {
        let line = match next_line(lines, at + 1 + k, "expected element entry") {
            Err(error) => {
                proof {
                    lemma_elements_fail(all, ids@, at + 1, (k + 1) as nat, count as nat);
                }
                return Err(error);
            },
            Ok(found) => found,
        };
        let fields = match read_fields(line.as_str()) {
            None => {
                proof {
                    lemma_elements_fail(all, ids@, at + 1, (k + 1) as nat, count as nat);
                }
                return Err(
                    parse_error(at + 2 + k, "invalid integer in element entry".to_string()),
                );
            },
            Some(found) => found,
        };
        let ghost before = elements.read();
        match elements.take(&index, Ghost(ids@), &fields, at + 2 + k) {
            Err(error) => {
                proof {
                    lemma_elements_fail(all, ids@, at + 1, (k + 1) as nat, count as nat);
                }
                return Err(error);
            },
            Ok(_) => {},
        }
        k += 1;
    }
    expect_marker(lines, at + 1 + count, "$EndElements")?;
    Ok((elements, at + 2 + count))
}

fn count_types(types: &Vec<i32>) -> (counts: Vec<UnsupportedElementCount>)
    ensures
        counts@.len() == counted_types(types@).len(),
        forall|i: int|
            0 <= i < counts@.len() ==> (#[trigger] counts@[i]).element_type == counted_types(
                types@,
            )[i] && counts@[i].count == zones::tagged(
                type_members(types@),
                counted_types(types@)[i],
                types@.len() as int,
            ).len(),
{
    let ghost wanted = type_members(types@);
    let mut members: Vec<(i32, usize)> = Vec::new();
    let mut at: usize = 0;
    while at < types.len()
        invariant
            at <= types@.len(),
            wanted == type_members(types@),
            members@ == wanted.take(at as int),
        decreases types@.len() - at,
    {
        members.push((types[at], at));
        assert(members@ =~= wanted.take(at + 1));
        at += 1;
    }
    assert(members@ =~= wanted);
    let found = zones::group_by_tag(&members);
    let ghost views = zones::zone_views(found@);
    let mut counts: Vec<UnsupportedElementCount> = Vec::new();
    let mut at: usize = 0;
    while at < found.len()
        invariant
            at <= found@.len(),
            views == zones::zone_views(found@),
            wanted == type_members(types@),
            views == zones::zones_of(wanted),
            counts@.len() == at,
            forall|i: int|
                0 <= i < at ==> (#[trigger] counts@[i]).element_type == counted_types(types@)[i]
                    && counts@[i].count == zones::tagged(
                    wanted,
                    counted_types(types@)[i],
                    types@.len() as int,
                ).len(),
        decreases found@.len() - at,
    {
        proof {
            let tags = zones::sorted_tags(wanted, wanted.len() as int);
            assert(wanted.len() == types@.len());
            assert(tags == counted_types(types@));
            assert(views.len() == found@.len());
            assert(zones::zones_of(wanted).len() == tags.len());
            assert(views[at as int] == (found@[at as int].tag, found@[at as int].members@));
            assert(views[at as int] == (
                tags[at as int],
                zones::tagged(wanted, tags[at as int], wanted.len() as int),
            ));
        }
        counts.push(
            UnsupportedElementCount {
                element_type: found[at].tag,
                count: found[at].members.len(),
            },
        );
        at += 1;
    }
    assert(views.len() == found@.len());
    counts
}

/// Reads a mesh in the ASCII format of Gmsh, version 2.2.
pub fn parse_msh22_ascii_str(content: &str) -> (out: Result<Mesh<Coordinates>, MeshError>)
    ensures
        match out {
            Ok(mesh) => mesh_of(content@) is Ok && is_mesh(mesh, mesh_of(content@)->Ok_0),
            Err(error) => dictionary::fails(mesh_of(content@), error),
        },
{
    let lines = text::lines_of(content);
    let ghost all = text::texts(lines@);
    let ghost wanted = mesh_of(content@);
    let mut names: Vec<PhysicalName> = Vec::new();
    let mut nodes = LoadedNodes { ids: Vec::new(), points: Vec::new() };
    let mut elements = LoadedElements::new();
    let mut at: usize = 0;
    proof {
        assert(name_views(names@) =~= Seq::empty());
        assert(nodes.ids@ =~= Seq::empty());
        assert(point_views(nodes.points@) =~= Seq::empty());
    }
    while at < lines.len()
        invariant
            at <= lines@.len(),
            all == text::texts(lines@),
            wanted == mesh_of(content@),
            wanted == read_from(
                all,
                at as int,
                MeshView {
                    names: name_views(names@),
                    ids: nodes.ids@,
                    points: point_views(nodes.points@),
                    elements: elements.read(),
                },
            ),
        decreases lines@.len() - at,
    {
        assert(all[at as int] == lines@[at as int]@);
        let title = text::trimmed(lines[at].as_str());
        if text::text_eq(title.as_str(), "$MeshFormat") {
            at = read_mesh_format(&lines, at + 1)?;
        } else if text::text_eq(title.as_str(), "$PhysicalNames") {
            let (found, end) = read_physical_names(&lines, at + 1)?;
            names = found;
            at = end;
        } else if text::text_eq(title.as_str(), "$Nodes") {
            let (found, end) = read_nodes(&lines, at + 1)?;
            nodes = found;
            at = end;
        } else if text::text_eq(title.as_str(), "$Elements") {
            let (found, end) = read_elements(&lines, &nodes.ids, at + 1)?;
            elements = found;
            at = end;
        } else {
            at += 1;
        }
    }
    let unsupported_elements = count_types(&elements.unsupported);
    Ok(
        Mesh {
            points: nodes.points,
            cells: elements.cells,
            boundary_faces: elements.faces,
            physical_names: names,
            unsupported_elements,
        },
    )
}

} // verus!
