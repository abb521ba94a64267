//! Import of a mesh: reading it, writing a case, and reading the case again.

use ferrum::case_summary::parse_case_summary_str;
use ferrum::face_keys::{key_from_nodes, KeyIndex};
use ferrum::foam_case::{openfoam_case, FoamCase};
use ferrum::gmsh::{parse_msh22_ascii_str, parse_physical_name, Coordinates};
use ferrum::mesh::{sanitize_name, Mesh, PhysicalName};
use ferrum::mesh_text::{case_summary_lines, import_lines, topology_warnings};
use ferrum::ordering::{insert_name, order_faces, FoamWriteOptions};
use ferrum::patches::{validate_case_patches, validate_poly_mesh_patches};
use ferrum::poly_mesh::{
    check_polygons, parse_face, read_faces, read_label_list, read_list_entries, read_points,
    BoundaryPatch, PolyMesh, PolyMeshFiles,
};
use ferrum::error::MeshError;
use ferrum::topology::{build_topology, cell_faces};
use ferrum::zones::{cell_zones, face_zones, group_by_tag};

/// Two cubes side by side, with names for the ends and the fluid; the other
/// outer faces have no name. A point element is not taken.
const TWO_CUBES: &str = "$MeshFormat
2.2 0 8
$EndMeshFormat
$PhysicalNames
3
2 1 \"outlet side\"
2 2 \"inlet\"
3 7 \"fluid\"
$EndPhysicalNames
$Nodes
12
1 0 0 0
2 1 0 0
3 2 0 0
4 0 1 0
5 1 1 0
6 2 1 0
7 0 0 1
8 1 0 1
9 2 0 1
10 0 1 1
11 1 1 1
12 2 1 1
$EndNodes
$Elements
5
1 3 2 2 1 1 4 10 7
2 3 2 1 1 3 6 12 9
3 5 2 7 1 1 2 5 4 7 8 11 10
4 5 2 7 1 2 3 6 5 8 9 12 11
5 15 2 0 1 1
$EndElements
";

fn two_cubes() -> Mesh<Coordinates> {
    parse_msh22_ascii_str(TWO_CUBES).expect("mesh")
}

fn notations(mesh: &Mesh<Coordinates>) -> Vec<(String, String, String)> {
    let mut found = Vec::new();
    for point in &mesh.points {
        let decimals = |text: &String| format!("{:.16}", text.parse::<f64>().expect("number"));
        found.push((decimals(&point.x), decimals(&point.y), decimals(&point.z)));
    }
    found
}

fn written(options: &FoamWriteOptions) -> FoamCase {
    let mesh = two_cubes();
    let points = notations(&mesh);
    openfoam_case(&mesh, &points, "cases/cubes", "meshes/cubes.msh", options)
}

fn content<'a>(case: &'a FoamCase, path: &str) -> &'a str {
    for file in &case.files {
        if file.path == path {
            return file.content.as_str();
        }
    }
    panic!("no file {path}")
}

fn parse_error(content: &str) -> (usize, String) {
    match parse_msh22_ascii_str(content).expect_err("mesh should be refused") {
        MeshError::Parse { line, message } => (line, message),
        other => panic!("unexpected error: {other:?}"),
    }
}

#[test]
fn reads_nodes_elements_and_names() {
    let mesh = two_cubes();
    assert_eq!(mesh.points.len(), 12);
    assert_eq!(mesh.points[2].x, "2");
    assert_eq!(mesh.cells.len(), 2);
    assert_eq!(mesh.cells[1].source_id, 4);
    assert_eq!(mesh.cells[1].physical_tag, 7);
    assert_eq!(mesh.cells[1].nodes, [1, 2, 5, 4, 7, 8, 11, 10]);
    assert_eq!(mesh.boundary_faces.len(), 2);
    assert_eq!(mesh.boundary_faces[0].physical_tag, 2);
    assert_eq!(mesh.boundary_faces[0].nodes, [0, 3, 9, 6]);
    assert_eq!(mesh.unsupported_elements.len(), 1);
    assert_eq!(mesh.unsupported_elements[0].element_type, 15);
    assert_eq!(mesh.unsupported_elements[0].count, 1);
    assert_eq!(mesh.physical_name(1), "outlet side");
    assert_eq!(mesh.physical_name(5), "physical_5");
    assert_eq!(mesh.physical_name_map().get(&7).map(String::as_str), Some("fluid"));
}

#[test]
fn refuses_meshes_that_it_cannot_read() {
    assert_eq!(
        parse_error("$MeshFormat\n4.1 0 8\n$EndMeshFormat\n"),
        (2, "unsupported Gmsh version 4.1; expected 2.2 ASCII".to_string())
    );
    assert_eq!(
        parse_error("$MeshFormat\n2.2 1 8\n$EndMeshFormat\n"),
        (2, "binary .msh files are not supported yet".to_string())
    );
    assert_eq!(
        parse_error("$MeshFormat\n2.2\n"),
        (2, "invalid $MeshFormat entry".to_string())
    );
    assert_eq!(
        parse_error("$Nodes\n1\n1 0 0 x\n$EndNodes\n"),
        (3, "invalid node z".to_string())
    );
    assert_eq!(
        parse_error("$Nodes\n1\n1 0 0\n$EndNodes\n"),
        (3, "missing node z".to_string())
    );
    assert_eq!(
        parse_error("$Elements\n1\n1 3 0 1 2 3 4\n$EndElements\n"),
        (3, "unknown node id 1".to_string())
    );
    assert_eq!(
        parse_error("$Elements\n1\n1 3 0 -1 2 3 4\n$EndElements\n"),
        (3, "negative node id -1".to_string())
    );
    assert_eq!(
        parse_error("$Elements\n1\n1 3 0 1 2 3\n$EndElements\n"),
        (3, "quad4 element does not have 4 nodes".to_string())
    );
    assert_eq!(
        parse_error("$Elements\n1\n1 5 0 1 2 3\n$EndElements\n"),
        (3, "hex8 element does not have 8 nodes".to_string())
    );
    assert_eq!(
        parse_error("$Elements\n1\n1 3\n$EndElements\n"),
        (3, "element entry is too short".to_string())
    );
    assert_eq!(
        parse_error("$Elements\n1\n1 3 9 1\n$EndElements\n"),
        (3, "element entry has fewer tags than declared".to_string())
    );
    assert_eq!(
        parse_error("$Elements\n1\n1 x 0\n$EndElements\n"),
        (3, "invalid integer in element entry".to_string())
    );
}

#[test]
fn reads_physical_names() {
    let name = parse_physical_name("2 3 \"a \"quoted\" name\"", 9).expect("name");
    assert_eq!((name.dim, name.tag), (2, 3));
    assert_eq!(name.name, "a \"quoted\" name");
    assert_eq!(
        parse_physical_name("2 3 name", 9).expect_err("no quote").to_string(),
        "line 9: physical name is missing opening quote"
    );
    assert_eq!(
        parse_physical_name("2 3 \"name", 9).expect_err("one quote").to_string(),
        "line 9: invalid quoted physical name"
    );
    assert_eq!(
        parse_physical_name("300 3 \"name\"", 9).expect_err("dimension").to_string(),
        "line 9: invalid physical dimension"
    );
    assert_eq!(
        parse_physical_name("2 \"name\"", 9).expect_err("tag").to_string(),
        "line 9: missing physical tag"
    );
}

#[test]
fn makes_words_of_names() {
    assert_eq!(sanitize_name("outlet side"), "outlet_side");
    assert_eq!(sanitize_name("wall-1_a"), "wall-1_a");
    assert_eq!(sanitize_name(""), "unnamed");
    assert_eq!(sanitize_name("\u{e4}/b"), "__b");
}

#[test]
fn keys_of_faces_ignore_the_order_of_nodes() {
    assert_eq!(key_from_nodes(&[4, 1, 3, 2]), vec![1, 2, 3, 4]);
    assert_eq!(key_from_nodes(&[2, 3, 1, 4]), key_from_nodes(&[1, 4, 2, 3]));
    assert_ne!(key_from_nodes(&[2, 3, 1, 4]), key_from_nodes(&[2, 3, 1, 5]));
    let mut index = KeyIndex::new();
    index.push(vec![1, 2, 3]);
    index.push(vec![2, 3, 4]);
    assert_eq!(index.len(), 2);
    assert_eq!(index.find(&vec![2, 3, 4]), Some(1));
    assert_eq!(index.find(&vec![2, 4, 3]), None);
    assert_eq!(index.key(0), &vec![1, 2, 3]);
}

#[test]
fn builds_faces_between_cells() {
    let mesh = two_cubes();
    let topology = build_topology(&mesh);
    assert_eq!(topology.faces.len(), 11);
    assert_eq!(topology.unmatched_boundary_faces, 0);
    assert_eq!(topology.duplicate_boundary_faces, 0);
    assert_eq!(topology.non_manifold_faces, 0);
    let inner: Vec<usize> =
        (0..11).filter(|face| topology.faces[*face].neighbour.is_some()).collect();
    assert_eq!(inner.len(), 1);
    assert_eq!(key_from_nodes(&topology.faces[inner[0]].nodes), vec![1, 4, 7, 10]);
    assert_eq!(topology.faces[inner[0]].owner, 0);
    assert_eq!(topology.faces[inner[0]].neighbour, Some(1));
    assert!(topology.faces[inner[0]].patch.is_none());
    assert_eq!(cell_faces(&[0, 1, 2, 3, 4, 5, 6, 7]).len(), 6);
}

#[test]
fn counts_faces_that_do_not_fit() {
    let mut mesh = two_cubes();
    let twice = mesh.boundary_faces[0].clone();
    mesh.boundary_faces.push(twice);
    let mut away = mesh.boundary_faces[1].clone();
    away.nodes = [0, 1, 2, 3];
    mesh.boundary_faces.push(away);
    let third = mesh.cells[0].clone();
    mesh.cells.push(third);
    let topology = build_topology(&mesh);
    assert_eq!(topology.duplicate_boundary_faces, 1);
    assert_eq!(topology.unmatched_boundary_faces, 1);
    assert_eq!(topology.non_manifold_faces, 1);
}

#[test]
fn orders_named_patches_before_the_others() {
    let mesh = two_cubes();
    let topology = build_topology(&mesh);
    let mut options = FoamWriteOptions::default();
    options.set_patch_type("inlet", "wall");
    options.set_patch_type("inlet", "wedge");
    assert_eq!(options.patch_type_for("inlet"), "wedge");
    assert_eq!(options.patch_type_for("other"), "patch");
    let ordered = order_faces(&mesh.physical_names, &topology.faces, &options);
    let names: Vec<&str> = ordered.patches.iter().map(|patch| patch.name.as_str()).collect();
    assert_eq!(names, vec!["outlet_side", "inlet", "defaultFaces"]);
    assert_eq!(ordered.patches[1].patch_type, "wedge");
    assert_eq!(ordered.patches[1].physical_tag, Some(2));
    assert_eq!(ordered.patches[2].physical_tag, None);
    assert_eq!(ordered.internal_face_indices.len(), 1);
    let mut start = 1;
    for patch in &ordered.patches {
        assert_eq!(patch.start_face, start);
        start += patch.faces;
    }
    assert_eq!(start, ordered.face_indices.len());
    let mut seen = ordered.face_indices.clone();
    seen.sort();
    assert_eq!(seen, (0..11).collect::<Vec<usize>>());
    for (face, label) in ordered.labels.iter().enumerate() {
        assert_eq!(ordered.face_indices[label.expect("label")], face);
    }
}

#[test]
fn sorts_names_without_repeating_them() {
    let mut names = Vec::new();
    for name in ["wall", "inlet", "wall", "outlet", "a", "inlet", "wallB"] {
        insert_name(&mut names, name);
    }
    assert_eq!(names, vec!["a", "inlet", "outlet", "wall", "wallB"]);
}

#[test]
fn groups_members_by_tag() {
    let zones = group_by_tag(&vec![(4, 0), (-1, 1), (4, 2), (0, 3)]);
    let found: Vec<(i32, Vec<usize>)> =
        zones.into_iter().map(|zone| (zone.tag, zone.members)).collect();
    assert_eq!(found, vec![(-1, vec![1]), (0, vec![3]), (4, vec![0, 2])]);
    let mesh = two_cubes();
    assert_eq!(cell_zones(&mesh.cells)[0].members, vec![0, 1]);
    let topology = build_topology(&mesh);
    let ordered = order_faces(&mesh.physical_names, &topology.faces, &FoamWriteOptions::default());
    let zones = face_zones(&mesh.boundary_faces, &topology.faces, &ordered.labels);
    assert_eq!(zones.len(), 2);
    assert_eq!((zones[0].tag, zones[0].members.clone()), (1, vec![1]));
    assert_eq!((zones[1].tag, zones[1].members.clone()), (2, vec![2]));
}

#[test]
fn writes_the_files_of_a_case() {
    let case = written(&FoamWriteOptions::default());
    let paths: Vec<&str> = case.files.iter().map(|file| file.path.as_str()).collect();
    assert_eq!(
        paths,
        vec![
            "constant/polyMesh/points",
            "constant/polyMesh/faces",
            "constant/polyMesh/owner",
            "constant/polyMesh/neighbour",
            "constant/polyMesh/boundary",
            "constant/polyMesh/faceZones",
            "constant/polyMesh/cellZones",
            "system/controlDict",
            "system/fvSchemes",
            "system/fvSolution",
            "constant/ferrumMeshSummary.txt",
        ]
    );
    assert_eq!(
        content(&case, "constant/polyMesh/neighbour"),
        "FoamFile\n{\n    version 2.0;\n    format ascii;\n    class labelList;\n    location \"constant/polyMesh\";\n    object neighbour;\n}\n\n1\n(\n1\n)\n"
    );
    assert!(content(&case, "constant/polyMesh/points")
        .contains("\n(2.0000000000000000 1.0000000000000000 0.0000000000000000)\n"));
    assert!(content(&case, "constant/polyMesh/boundary").contains(
        "    inlet\n    {\n        type patch;\n        nFaces 1;\n        startFace 2;\n    }\n"
    ));
    assert_eq!(case.summary.points, 12);
    assert_eq!(case.summary.faces, 11);
    assert_eq!(case.summary.internal_faces, 1);
    assert_eq!(case.summary.boundary_faces, 10);
    assert_eq!(case.summary.cell_zones[0].name, "fluid");
    assert_eq!(case.summary.cell_zones[0].cells, 2);
    assert_eq!(case.summary.face_zones[0].name, "outlet_side");
    assert_eq!(
        import_lines(&case.summary).into_parts(),
        vec!["Wrote constant/polyMesh", "faces: 11 total, 1 internal, 10 boundary"]
    );
    let mut options = FoamWriteOptions::default();
    options.set_patch_type("inlet", "wall");
    let mut typed = written(&options);
    typed.summary.non_manifold_faces = 2;
    assert_eq!(
        import_lines(&typed.summary).into_parts(),
        vec![
            "Wrote constant/polyMesh",
            "faces: 11 total, 1 internal, 10 boundary",
            "warnings: unmatchedBoundaryFaces=0, duplicateBoundaryFaces=0, nonManifoldFaces=2",
            "patch type: inlet -> wall",
        ]
    );
}

#[test]
fn reads_the_mesh_that_it_wrote() {
    let mesh = two_cubes();
    let case = written(&FoamWriteOptions::default());
    let files = PolyMeshFiles {
        points: content(&case, "constant/polyMesh/points").to_string(),
        faces: content(&case, "constant/polyMesh/faces").to_string(),
        owner: content(&case, "constant/polyMesh/owner").to_string(),
        neighbour: content(&case, "constant/polyMesh/neighbour").to_string(),
    };
    let topology = build_topology(&mesh);
    let ordered = order_faces(&mesh.physical_names, &topology.faces, &FoamWriteOptions::default());
    let mut patches = Vec::new();
    for patch in &ordered.patches {
        patches.push(BoundaryPatch {
            name: patch.name.clone(),
            patch_type: patch.patch_type.clone(),
            faces: patch.faces,
            start_face: patch.start_face,
        });
    }
    let read = PolyMesh::read("constant/polyMesh", &files, patches).expect("mesh");
    assert_eq!(read.points.len(), 12);
    for (point, given) in read.points.iter().zip(notations(&mesh)) {
        assert_eq!((point.x.clone(), point.y.clone(), point.z.clone()), given);
    }
    for (place, face) in ordered.face_indices.iter().enumerate() {
        assert_eq!(read.faces[place], topology.faces[*face].nodes);
        assert_eq!(read.owner[place], topology.faces[*face].owner);
    }
    assert_eq!(read.neighbour, vec![1]);
    assert_eq!(read.cell_count(), 2);
    assert!(check_polygons(&read).is_ok());
    let checked = validate_poly_mesh_patches("cases/cubes", &read);
    assert_eq!(checked.patches, 3);
    assert!(checked.warnings.is_empty());
}

#[test]
fn reads_the_summary_that_it_wrote() {
    let case = written(&FoamWriteOptions::default());
    let read = parse_case_summary_str(
        "cases/cubes",
        content(&case, "constant/ferrumMeshSummary.txt"),
    );
    assert_eq!(read.path, "cases/cubes");
    assert_eq!(read.points, Some(12));
    assert_eq!(read.cells, Some(2));
    assert_eq!(read.faces, Some(11));
    assert_eq!(read.internal_faces, Some(1));
    assert_eq!(read.boundary_faces, Some(10));
    assert_eq!(read.unmatched_boundary_faces, Some(0));
    assert_eq!(read.duplicate_boundary_faces, Some(0));
    assert_eq!(read.non_manifold_faces, Some(0));
    assert_eq!(
        read.patches,
        vec![
            "outlet_side type=patch tag=1 faces=1 startFace=1",
            "inlet type=patch tag=2 faces=1 startFace=2",
            "defaultFaces type=patch tag=- faces=8 startFace=3",
        ]
    );
    assert_eq!(read.face_zones, vec!["outlet_side tag=1 faces=1", "inlet tag=2 faces=1"]);
    assert_eq!(read.cell_zones, vec!["fluid tag=7 cells=2"]);
    let shown = case_summary_lines(&read).into_parts();
    assert_eq!(shown[0], "Ferrum mesh check");
    assert_eq!(shown[1], "case: cases/cubes");
    assert_eq!(shown[2], "points: 12");
    assert_eq!(topology_warnings(&read), "topology warnings: none");
}

#[test]
fn reads_sizes_outside_the_lists_only() {
    let read = parse_case_summary_str(
        "c",
        "points=3\r\ncells=x\nfaces\n[cell_zones]\npoints=9\n[unsupported_elements]\ncells=4\n",
    );
    assert_eq!(read.points, Some(3));
    assert_eq!(read.cells, Some(4));
    assert_eq!(read.faces, None);
    assert_eq!(read.cell_zones, vec!["points=9"]);
    let mut warned = read;
    warned.non_manifold_faces = Some(2);
    assert_eq!(
        topology_warnings(&warned),
        "topology warnings: unmatchedBoundaryFaces=0, duplicateBoundaryFaces=0, nonManifoldFaces=2"
    );
}

#[test]
fn refuses_lists_that_do_not_fit() {
    let message = |content: &str| {
        read_list_entries(content, "polyMesh/owner").expect_err("list").to_string()
    };
    assert_eq!(message("x\n(\n)\n"), "missing list count in polyMesh/owner");
    assert_eq!(message("2\n"), "missing list opening '(' in polyMesh/owner");
    assert_eq!(message("2\n(\n1\n)\n"), "expected 2 entries but found 1 in polyMesh/owner");
    assert_eq!(
        read_list_entries("// 9\n2 // two\n(\n 1 \n\n2\n);\n", "p").expect("list"),
        vec!["1", "2"]
    );
    assert_eq!(
        read_label_list("1\n(\nx\n)\n", "p").expect_err("label").to_string(),
        "invalid label 'x' in p"
    );
    assert_eq!(read_label_list("2\n(\n4\n5\n)\n", "p").expect("labels"), vec![4, 5]);
}

#[test]
fn refuses_faces_and_points_that_do_not_fit() {
    assert_eq!(parse_face("4(0 3 2 1)", "p").expect("face"), vec![0, 3, 2, 1]);
    assert_eq!(
        parse_face("3(0 3 2 1)", "p").expect_err("count").to_string(),
        "face declares 3 nodes but has 4 in p"
    );
    assert_eq!(
        parse_face("4 0 1", "p").expect_err("brackets").to_string(),
        "invalid face '4 0 1' in p"
    );
    for (line, label) in [(")4(", ")4"), ("4)(", "4)"), (")(", ")"), (" 2 )x(0 1", " 2 )x")] {
        assert_eq!(
            parse_face(line, "p").expect_err("label").to_string(),
            format!("invalid label '{label}' in p")
        );
    }
    assert_eq!(read_faces("1\n(\n3(0 1 2)\n)\n", "p").expect("faces"), vec![vec![0, 1, 2]]);
    let points = read_points("1\n(\n(0 -1e-3 .5)\n)\n", "p").expect("points");
    assert_eq!(points[0].y, "-1e-3");
    assert_eq!(
        read_points("1\n(\n(0 1)\n)\n", "p").expect_err("point").to_string(),
        "point does not have 3 coordinates in p"
    );
    assert!(read_points("1\n(\n(0 1 x)\n)\n", "p").is_err());
}

#[test]
fn refuses_meshes_with_lists_of_different_lengths() {
    let mut files = PolyMeshFiles {
        points: "0\n(\n)\n".to_string(),
        faces: "1\n(\n3(0 1 2)\n)\n".to_string(),
        owner: "0\n(\n)\n".to_string(),
        neighbour: "0\n(\n)\n".to_string(),
    };
    assert_eq!(
        PolyMesh::read("m", &files, Vec::new()).expect_err("owner").to_string(),
        "faces/owner size mismatch in m"
    );
    files.owner = "1\n(\n0\n)\n".to_string();
    files.neighbour = "2\n(\n1\n1\n)\n".to_string();
    assert_eq!(
        PolyMesh::read("m", &files, Vec::new()).expect_err("neighbour").to_string(),
        "neighbour list is longer than face list in m"
    );
    files.neighbour = "0\n(\n)\n".to_string();
    let mesh = PolyMesh::read("m", &files, Vec::new()).expect("mesh");
    assert_eq!(
        check_polygons(&mesh).expect_err("points").to_string(),
        "face references missing point 0 in m"
    );
}

#[test]
fn passes_errors_of_the_mesh_on() {
    let error: Result<PolyMesh<Coordinates>, MeshError> =
        Err(MeshError::InvalidInput("no mesh".to_string()));
    assert_eq!(validate_case_patches("c", error).expect_err("error").to_string(), "no mesh");
}

#[test]
fn warns_for_patches_beyond_the_faces() {
    let mesh: PolyMesh<Coordinates> = PolyMesh {
        path: "m".to_string(),
        points: Vec::new(),
        faces: vec![vec![0, 1, 2]],
        owner: vec![0],
        neighbour: Vec::new(),
        patches: vec![BoundaryPatch {
            name: "wall".to_string(),
            patch_type: "symmetryPlane".to_string(),
            faces: 3,
            start_face: 0,
        }],
    };
    let summary = validate_poly_mesh_patches("c", &mesh);
    assert_eq!(summary.patches, 1);
    assert_eq!(summary.symmetry_patches, 1);
    assert_eq!(summary.warnings.len(), 1);
}

#[test]
fn takes_the_name_of_the_first_group() {
    let mesh: Mesh<Coordinates> = Mesh {
        points: Vec::new(),
        cells: Vec::new(),
        boundary_faces: Vec::new(),
        physical_names: vec![
            PhysicalName { dim: 2, tag: 1, name: "first".to_string() },
            PhysicalName { dim: 3, tag: 1, name: "second".to_string() },
        ],
        unsupported_elements: Vec::new(),
    };
    assert_eq!(mesh.physical_name(1), "first");
    assert_eq!(mesh.physical_name_map().get(&1).map(String::as_str), Some("second"));
}
