//! What is known of the regions of a case and of the faces between them.

use vstd::prelude::*;

verus! {

/// The faces that lie between two regions.
#[derive(Debug)]
pub struct InterfaceSummary {
    pub name: String,
    pub region_a: String,
    pub region_b: String,
    pub faces: usize,
    pub mesh_a_to_b_faces: usize,
    pub mesh_b_to_a_faces: usize,
    pub zone_a_to_b_faces: usize,
    pub zone_b_to_a_faces: usize,
    pub flipped_faces: usize,
}

/// A face zone on the boundary of one region.
#[derive(Debug)]
pub struct BoundaryFaceZoneSummary {
    pub name: String,
    pub region: String,
}

/// The face zones of a case that has regions.
#[derive(Debug)]
pub struct InterfaceRegistrySummary {
    pub interfaces: Vec<InterfaceSummary>,
    pub boundary_face_zones: Vec<BoundaryFaceZoneSummary>,
    pub same_region_face_zone_faces: usize,
    pub unknown_region_face_zone_faces: usize,
}

/// A patch of a region mesh.
#[derive(Debug)]
pub struct RegionPatchSummary {
    pub name: String,
    pub patch_type: String,
    pub faces: usize,
    pub start_face: usize,
    pub source_flipped_faces: usize,
}

/// The mesh of a region.
#[derive(Debug)]
pub struct RegionMeshSummary {
    pub name: String,
    pub path: String,
    pub points: usize,
    pub cells: usize,
    pub faces: usize,
    pub internal_faces: usize,
    pub boundary_faces: usize,
    pub patches: Vec<RegionPatchSummary>,
}

/// What an interface check reads of an [`InterfaceSummary`].
pub struct InterfaceView {
    pub name: Seq<char>,
    pub region_a: Seq<char>,
    pub region_b: Seq<char>,
    pub faces: usize,
}

impl View for InterfaceSummary {
    type V = InterfaceView;

    open spec fn view(&self) -> InterfaceView {
        InterfaceView {
            name: self.name@,
            region_a: self.region_a@,
            region_b: self.region_b@,
            faces: self.faces,
        }
    }
}

/// The views of the interfaces of a vector.
pub open spec fn interface_views(interfaces: Seq<InterfaceSummary>) -> Seq<InterfaceView> {
    Seq::new(interfaces.len(), |i: int| interfaces[i]@)
}

/// The names and regions of the boundary face zones of a vector.
pub open spec fn zone_views(zones: Seq<BoundaryFaceZoneSummary>) -> Seq<(Seq<char>, Seq<char>)> {
    Seq::new(zones.len(), |i: int| (zones[i].name@, zones[i].region@))
}

} // verus!
