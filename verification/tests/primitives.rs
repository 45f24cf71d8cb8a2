//! Checking and joining primitives on plain values.

use anthroforge::gltf_document::{
    component_size, is_readable, number_size, width_of, AccessorDecl, Attribute, Draft, NodeDecl,
    Storage, ViewDecl,
};
use anthroforge::gltf_error::{mode_of, GltfLoadError, Mode};
use anthroforge::gltf_loader::{are_positions_in_range, check_buffer, has_truncated_header};
use anthroforge::mesh_assembly::{assemble_mesh, find_skin, name_joints, MeshOutcome};
use anthroforge::primitive::{append_primitive, check_primitive, require_len, PrimitiveData};

fn data(count: usize, indices: Vec<u32>) -> PrimitiveData {
    PrimitiveData {
        mode: Mode::Triangles,
        positions: Some(vec![[1, 2, 3]; count]),
        normals: Some(vec![[4, 5, 6]; count]),
        tex_coords: Some(vec![[7, 8]; count]),
        joints: Some(vec![[9, 10, 11, 12]; count]),
        weights: Some(vec![[13, 14, 15, 16]; count]),
        indices: Some(indices),
    }
}

#[test]
fn require_len_compares_lengths() {
    assert!(require_len("p", 0, 1, "NORMAL", 3, 3).is_ok());
    let e = require_len("p", 0, 1, "NORMAL", 3, 4).unwrap_err();
    assert_eq!(
        e.message(),
        "'p' mesh[0] primitive[1] attribute 'NORMAL' has 4 elements, expected 3"
    );
}

#[test]
fn the_first_thing_wrong_is_reported() {
    assert!(check_primitive("p", 0, 0, &data(2, vec![0, 1, 1])).is_ok());
    assert!(check_primitive("p", 0, 0, &data(0, vec![])).is_ok());

    // Everything is wrong here, and one thing after the other is put right.
    let mut d = PrimitiveData {
        mode: Mode::Lines,
        positions: None,
        normals: None,
        tex_coords: Some(vec![]),
        joints: None,
        weights: Some(vec![[0; 4]; 5]),
        indices: None,
    };
    let fault = |d: &PrimitiveData| check_primitive("p", 2, 3, d).unwrap_err();
    assert!(matches!(
        fault(&d),
        GltfLoadError::UnsupportedTopology { mesh_index: 2, primitive_index: 3, mode: Mode::Lines, .. }
    ));
    d.mode = Mode::Triangles;
    assert!(matches!(fault(&d), GltfLoadError::MissingAccessor { accessor: "POSITION", .. }));
    d.positions = Some(vec![[0; 3]; 2]);
    assert!(matches!(fault(&d), GltfLoadError::MissingAccessor { accessor: "NORMAL", .. }));
    d.normals = Some(vec![[0; 3]; 2]);
    assert!(matches!(
        fault(&d),
        GltfLoadError::AttributeLengthMismatch { attribute: "TEXCOORD_0", expected: 2, found: 0, .. }
    ));
    d.tex_coords = Some(vec![[0; 2]; 2]);
    assert!(matches!(fault(&d), GltfLoadError::MissingAccessor { accessor: "JOINTS_0", .. }));
    d.joints = Some(vec![[0; 4]; 2]);
    assert!(matches!(
        fault(&d),
        GltfLoadError::AttributeLengthMismatch { attribute: "WEIGHTS_0", expected: 2, found: 5, .. }
    ));
    d.weights = Some(vec![[0; 4]; 2]);
    assert!(matches!(fault(&d), GltfLoadError::MissingIndices { .. }));
    d.indices = Some(vec![0, 7, 9]);
    assert!(matches!(
        fault(&d),
        GltfLoadError::IndexOutOfRange { index: 7, vertex_count: 2, .. }
    ));
    d.indices = Some(vec![0, 1]);
    assert!(check_primitive("p", 2, 3, &d).is_ok());
}

#[test]
fn appending_shifts_indices_by_the_vertices_before() {
    let mut vertices = Vec::new();
    let mut indices = Vec::new();
    append_primitive(&mut vertices, &mut indices, &data(2, vec![1, 0, 1]));
    append_primitive(&mut vertices, &mut indices, &data(1, vec![0]));
    assert_eq!(vertices.len(), 3);
    assert_eq!(indices, vec![1, 0, 1, 2]);
    assert_eq!(vertices[2].position, [1, 2, 3]);
    assert_eq!(vertices[2].normal, [4, 5, 6]);
    assert_eq!(vertices[2].uv, [7, 8]);
    assert_eq!(vertices[2].bone_indices, [9, 10, 11, 12]);
    assert_eq!(vertices[2].bone_weights, [13, 14, 15, 16]);
}

#[test]
fn buffers_may_be_longer_than_declared() {
    assert!(check_buffer("p", 0, 2, &vec![1, 2, 3]).is_ok());
    assert!(check_buffer("p", 0, 3, &vec![1, 2, 3]).is_ok());
    let e = check_buffer("p", 4, 9, &vec![1, 2, 3]).unwrap_err();
    assert_eq!(e.message(), "'p' buffer[4] declares 9 bytes but only 3 were available");
}

#[test]
fn topologies_by_code() {
    assert_eq!(mode_of(0), Mode::Points);
    assert_eq!(mode_of(4), Mode::Triangles);
    assert_eq!(mode_of(6), Mode::TriangleFan);
    assert_eq!(mode_of(4).name(), "Triangles");
}

#[test]
fn readable_declarations() {
    let view = ViewDecl { buffer: 0, offset: 0, length: 36, stride: None };
    let accessor = AccessorDecl { component: 5126, width: 3, count: 3, offset: 0, view: Some(0) };
    let ask = |a: AccessorDecl, v: ViewDecl, buffers: usize| {
        let view = a.view.map(|_| v);
        is_readable(Attribute::Position, Storage { accessor: a, view, sparse: None }, buffers)
    };
    assert!(ask(accessor, view, 1));
    assert!(!ask(accessor, view, 0));
    assert!(!ask(AccessorDecl { count: 0, ..accessor }, view, 1));
    assert!(!ask(AccessorDecl { width: 2, ..accessor }, view, 1));
    assert!(!ask(AccessorDecl { component: 5123, ..accessor }, view, 1));
    assert!(ask(AccessorDecl { component: 5125, ..accessor }, view, 1));
    assert!(!ask(AccessorDecl { width: usize::MAX, ..accessor }, view, 1));
    assert!(!ask(AccessorDecl { view: None, ..accessor }, view, 1));
    assert!(!ask(AccessorDecl { offset: usize::MAX, ..accessor }, view, 1));
    assert!(!ask(AccessorDecl { count: usize::MAX, ..accessor }, view, 1));
    assert!(ask(accessor, ViewDecl { stride: Some(12), ..view }, 1));
    assert!(!ask(accessor, ViewDecl { stride: Some(11), ..view }, 1));
    assert!(!ask(accessor, ViewDecl { offset: usize::MAX, ..view }, 1));
    assert_eq!(width_of(Attribute::Weights), 4);
    assert_eq!(component_size(Attribute::Joints, 5123), Some(2));
    assert_eq!(component_size(Attribute::Joints, 5126), None);
    assert_eq!(component_size(Attribute::Indices, 5125), Some(4));
    assert_eq!(component_size(Attribute::TexCoord, 5125), None);
    assert_eq!(component_size(Attribute::Position, 5120), Some(4));
    assert_eq!([5120, 5121, 5122, 5123, 5125, 5126].map(number_size), [1, 1, 2, 2, 4, 4]);
}

fn node(mesh: Option<usize>, skin: Option<usize>) -> NodeDecl {
    NodeDecl { mesh, skin }
}

fn joints(names: &[Option<&str>]) -> Vec<Option<String>> {
    names.iter().map(|n| n.map(|n| n.to_string())).collect()
}

#[test]
fn meshes_are_assembled_from_what_was_read() {
    let nodes = vec![node(Some(1), Some(0)), node(Some(0), None), node(Some(0), Some(1))];
    let skins = vec![joints(&[None]), joints(&[Some("hip"), Some("knee")])];
    let primitives = Some(vec![data(2, vec![0, 1, 0]), data(0, vec![]), data(3, vec![2, 2, 0])]);
    match assemble_mesh("p", &nodes, &skins, &primitives) {
        MeshOutcome::Loaded(mesh) => {
            assert_eq!(mesh.vertices.len(), 5);
            assert_eq!(mesh.indices, vec![0, 1, 0, 4, 4, 2]);
            assert_eq!(mesh.local_bone_names, vec!["hip".to_string(), "knee".to_string()]);
        }
        other => panic!("expected a mesh, got {other:?}"),
    }
}

#[test]
fn faults_of_a_mesh_come_in_order() {
    let failure = |outcome: MeshOutcome| match outcome {
        MeshOutcome::Failed(e) => e,
        other => panic!("expected a failure, got {other:?}"),
    };
    let unskinned = vec![node(Some(0), None), node(None, Some(0))];
    let skinned = vec![node(Some(0), Some(0))];
    let unnamed = vec![joints(&[Some("hip"), None, None])];
    let named = vec![joints(&[Some("hip")])];
    let mut bad = data(1, vec![1]);
    bad.normals = None;
    let broken = Some(vec![data(1, vec![0]), bad, data(1, vec![9])]);

    let e = failure(assemble_mesh("p", &unskinned, &unnamed, &None));
    assert!(matches!(e, GltfLoadError::NoMeshes { .. }));
    let e = failure(assemble_mesh("p", &unskinned, &unnamed, &broken));
    assert!(matches!(e, GltfLoadError::NoSkin { mesh_index: 0, .. }));
    let e = failure(assemble_mesh("p", &skinned, &unnamed, &broken));
    assert!(matches!(e, GltfLoadError::UnnamedJoint { joint_index: 1, .. }));
    let e = failure(assemble_mesh("p", &skinned, &named, &broken));
    assert!(matches!(e, GltfLoadError::MissingAccessor { primitive_index: 1, accessor: "NORMAL", .. }));
}

#[test]
fn a_mesh_without_primitives_is_empty() {
    let named = vec![joints(&[])];
    match assemble_mesh("p", &vec![node(Some(0), Some(0))], &named, &Some(vec![])) {
        MeshOutcome::Loaded(mesh) => {
            assert!(mesh.vertices.is_empty() && mesh.indices.is_empty());
            assert!(mesh.local_bone_names.is_empty());
        }
        other => panic!("expected a mesh, got {other:?}"),
    }
}

#[test]
fn skins_and_joints_are_found_from_the_front() {
    assert_eq!(find_skin(&vec![]), None);
    assert_eq!(find_skin(&vec![node(Some(0), None), node(Some(1), Some(4))]), None);
    assert_eq!(find_skin(&vec![node(Some(0), Some(3)), node(Some(0), Some(4))]), Some(3));
    assert_eq!(name_joints(&joints(&[Some("a"), Some("")])), Ok(vec!["a".to_string(), String::new()]));
    assert_eq!(name_joints(&joints(&[Some("a"), None])), Err(1));
}

#[test]
fn position_references_are_looked_up() {
    let draft = |positions: Vec<Vec<Option<usize>>>| Draft { accessor_count: 2, positions };
    assert!(are_positions_in_range(&draft(vec![])));
    assert!(are_positions_in_range(&draft(vec![vec![], vec![Some(0), None, Some(1)]])));
    assert!(!are_positions_in_range(&draft(vec![vec![Some(0)], vec![None, Some(2)]])));
}

#[test]
fn headers_are_looked_at() {
    let header = |version: u8, length: u8| {
        let mut h = b"glTF".to_vec();
        h.extend_from_slice(&[version, 0, 0, 0, length, 0, 0, 0]);
        h
    };
    assert!(has_truncated_header(&header(2, 0)));
    assert!(has_truncated_header(&header(2, 11)));
    assert!(!has_truncated_header(&header(2, 12)));
    assert!(!has_truncated_header(&header(1, 0)));
    assert!(!has_truncated_header(&header(2, 0)[..11]));
    let mut long = header(2, 0);
    long[11] = 1;
    assert!(!has_truncated_header(&long));
    long[0] = b'G';
    assert!(!has_truncated_header(&long));
}
