//! Loading of glTF files, against the real `gltf` and `base64` crates.

use anthroforge::gltf_error::{GltfLoadError, Mode};
use anthroforge::gltf_document::{
    AccessorDecl, Attribute, SparseDecl, SparseStorage, Storage, ViewDecl,
};
use anthroforge::gltf_loader::{
    judge_access, load_gltf_file, Access, LoadStep, ReadFailure,
};
use anthroforge::mesh_assembly::LoadedMesh;

const POSITIONS: [[f32; 3]; 3] = [[0.0, 0.0, 0.0], [1.0, 0.0, 0.0], [0.0, 1.0, 0.0]];
const NORMALS: [[f32; 3]; 3] = [[0.0, 0.0, 1.0]; 3];
const TEXCOORDS: [[f32; 2]; 3] = [[0.0, 0.0], [1.0, 0.0], [0.0, 1.0]];
const WEIGHTS: [[f32; 4]; 3] = [[1.0, 0.0, 0.0, 0.0]; 3];

/// The bytes of a skinned triangle, with the offsets of its attributes.
struct Triangle {
    bin: Vec<u8>,
    normals: usize,
    texcoords: usize,
    joints: usize,
    weights: usize,
    indices: usize,
    index_count: usize,
}

fn push_floats(bin: &mut Vec<u8>, floats: &[f32]) {
    for f in floats {
        bin.extend_from_slice(&f.to_le_bytes());
    }
}

fn triangle(indices: &[u16]) -> Triangle {
    let mut bin: Vec<u8> = Vec::new();
    for p in &POSITIONS {
        push_floats(&mut bin, p);
    }
    let normals = bin.len();
    for n in &NORMALS {
        push_floats(&mut bin, n);
    }
    let texcoords = bin.len();
    for t in &TEXCOORDS {
        push_floats(&mut bin, t);
    }
    let joints = bin.len();
    for _ in 0..3 {
        bin.extend_from_slice(&[0u8, 0, 0, 0]);
    }
    let weights = bin.len();
    for w in &WEIGHTS {
        push_floats(&mut bin, w);
    }
    let at = bin.len();
    for i in indices {
        bin.extend_from_slice(&i.to_le_bytes());
    }
    Triangle { bin, normals, texcoords, joints, weights, indices: at, index_count: indices.len() }
}

const ATTRIBUTES: &str =
    r#""POSITION": 0, "NORMAL": 1, "TEXCOORD_0": 2, "JOINTS_0": 3, "WEIGHTS_0": 4"#;

/// The pieces of a document that tests vary.
struct Document {
    nodes: String,
    meshes: String,
    skins: String,
    accessors: [String; 6],
    views: Vec<String>,
    buffers: String,
}

fn primitive(attributes: &str, rest: &str) -> String {
    format!(r#"{{ "attributes": {{ {attributes} }}{rest} }}"#)
}

fn document(t: &Triangle) -> Document {
    let view = |from: usize, to: usize| {
        format!(r#"{{ "buffer": 0, "byteOffset": {}, "byteLength": {} }}"#, from, to - from)
    };
    Document {
        nodes: r#"{ "mesh": 0, "skin": 0 }, { "name": "joint0" }"#.to_string(),
        meshes: format!(
            r#"{{ "primitives": [{}] }}"#,
            primitive(ATTRIBUTES, r#", "indices": 5, "mode": 4"#)
        ),
        skins: r#"{ "joints": [1] }"#.to_string(),
        accessors: [
            r#"{ "bufferView": 0, "componentType": 5126, "count": 3, "type": "VEC3", "min": [0.0, 0.0, 0.0], "max": [1.0, 1.0, 0.0] }"#.to_string(),
            r#"{ "bufferView": 1, "componentType": 5126, "count": 3, "type": "VEC3" }"#.to_string(),
            r#"{ "bufferView": 2, "componentType": 5126, "count": 3, "type": "VEC2" }"#.to_string(),
            r#"{ "bufferView": 3, "componentType": 5121, "count": 3, "type": "VEC4" }"#.to_string(),
            r#"{ "bufferView": 4, "componentType": 5126, "count": 3, "type": "VEC4" }"#.to_string(),
            format!(
                r#"{{ "bufferView": 5, "componentType": 5123, "count": {}, "type": "SCALAR" }}"#,
                t.index_count
            ),
        ],
        views: vec![
            view(0, t.normals),
            view(t.normals, t.texcoords),
            view(t.texcoords, t.joints),
            view(t.joints, t.weights),
            view(t.weights, t.indices),
            view(t.indices, t.indices + 2 * t.index_count),
        ],
        buffers: format!(r#"{{ "byteLength": {} }}"#, t.bin.len()),
    }
}

impl Document {
    fn json(&self) -> String {
        let list = |name: &str, items: &str| {
            if items.is_empty() {
                String::new()
            } else {
                format!(r#", "{name}": [{items}]"#)
            }
        };
        format!(
            r#"{{ "asset": {{ "version": "2.0" }}{}{}{}{}{}{} }}"#,
            list("nodes", &self.nodes),
            list("meshes", &self.meshes),
            list("skins", &self.skins),
            list("accessors", &self.accessors.join(", ")),
            list("bufferViews", &self.views.join(", ")),
            list("buffers", &self.buffers),
        )
    }

    fn glb(&self, bin: &[u8]) -> Vec<u8> {
        let mut bin = bin.to_vec();
        while bin.len() % 4 != 0 {
            bin.push(0);
        }
        let mut json = self.json().into_bytes();
        while json.len() % 4 != 0 {
            json.push(b' ');
        }
        let total = 12 + 8 + json.len() + 8 + bin.len();
        let mut glb = Vec::with_capacity(total);
        glb.extend_from_slice(b"glTF");
        glb.extend_from_slice(&2u32.to_le_bytes());
        glb.extend_from_slice(&(total as u32).to_le_bytes());
        glb.extend_from_slice(&(json.len() as u32).to_le_bytes());
        glb.extend_from_slice(b"JSON");
        glb.extend_from_slice(&json);
        glb.extend_from_slice(&(bin.len() as u32).to_le_bytes());
        glb.extend_from_slice(b"BIN\0");
        glb.extend_from_slice(&bin);
        glb
    }
}

fn build_test_glb(indices: &[u16]) -> Vec<u8> {
    let t = triangle(indices);
    document(&t).glb(&t.bin)
}

fn load(bytes: Vec<u8>) -> LoadStep {
    load_gltf_file("part.glb", Ok(bytes))
}

fn loaded(step: LoadStep) -> LoadedMesh {
    match step {
        LoadStep::Loaded(mesh) => mesh,
        LoadStep::Failed(e) => panic!("{}", e.message()),
        _ => panic!("expected a loaded mesh"),
    }
}

fn failed(step: LoadStep) -> GltfLoadError {
    match step {
        LoadStep::Failed(e) => e,
        _ => panic!("expected a failure"),
    }
}

/// Loads a document that was changed, with the bytes of the test triangle.
fn load_changed(change: fn(&mut Document)) -> LoadStep {
    let t = triangle(&[0, 1, 2]);
    let mut d = document(&t);
    change(&mut d);
    load(d.glb(&t.bin))
}

#[test]
fn well_formed_glb_with_valid_indices_loads_successfully() {
    let glb = build_test_glb(&[0, 1, 2]);
    let loaded = loaded(load(glb));
    assert_eq!(loaded.vertices.len(), 3);
    assert_eq!(loaded.indices, vec![0, 1, 2]);
}

#[test]
fn malformed_glb_with_out_of_range_index_is_rejected() {
    let glb = build_test_glb(&[0, 1, 99]);
    match failed(load(glb)) {
        GltfLoadError::IndexOutOfRange { index, vertex_count, .. } => {
            assert_eq!(index, 99);
            assert_eq!(vertex_count, 3);
        }
        other => panic!("expected IndexOutOfRange, got {other:?}"),
    }
}

#[test]
fn vertices_hold_the_stored_bits() {
    let mesh = loaded(load(build_test_glb(&[2, 0, 1])));
    for i in 0..3 {
        assert_eq!(mesh.vertices[i].position, POSITIONS[i].map(|x| x.to_bits()));
        assert_eq!(mesh.vertices[i].normal, NORMALS[i].map(|x| x.to_bits()));
        assert_eq!(mesh.vertices[i].uv, TEXCOORDS[i].map(|x| x.to_bits()));
        assert_eq!(mesh.vertices[i].bone_indices, [0, 0, 0, 0]);
        assert_eq!(mesh.vertices[i].bone_weights, WEIGHTS[i].map(|x| x.to_bits()));
    }
    assert_eq!(mesh.indices, vec![2, 0, 1]);
    assert_eq!(mesh.local_bone_names, vec!["joint0".to_string()]);
}

#[test]
fn primitives_are_joined_with_shifted_indices() {
    let step = load_changed(|d| {
        let p = primitive(ATTRIBUTES, r#", "indices": 5"#);
        d.meshes = format!(r#"{{ "primitives": [{p}, {p}] }}"#);
    });
    let mesh = loaded(step);
    assert_eq!(mesh.vertices.len(), 6);
    assert_eq!(mesh.indices, vec![0, 1, 2, 3, 4, 5]);
    assert_eq!(mesh.vertices[4], mesh.vertices[1]);
    for index in &mesh.indices {
        assert!((*index as usize) < mesh.vertices.len());
    }
}

#[test]
fn only_the_first_mesh_is_loaded() {
    let step = load_changed(|d| {
        let p = primitive(ATTRIBUTES, r#", "indices": 5"#);
        d.meshes = format!(r#"{{ "primitives": [{p}] }}, {{ "primitives": [{p}, {p}] }}"#);
    });
    assert_eq!(loaded(step).vertices.len(), 3);
}

#[test]
fn further_meshes_leave_the_outcome_as_it_is() {
    let t = triangle(&[0, 1, 2]);
    let further = |d: &Document| {
        let mut more = document(&t);
        let p = primitive(ATTRIBUTES, r#", "indices": 5, "mode": 1"#);
        more.meshes = format!(r#"{}, {{ "primitives": [{p}] }}"#, d.meshes);
        more.nodes = format!(r#"{}, {{ "mesh": 1, "skin": 1 }}"#, d.nodes);
        more.skins = format!(r#"{}, {{ "joints": [1, 1] }}"#, d.skins);
        more
    };
    let d = document(&t);
    let alone = loaded(load(d.glb(&t.bin)));
    let together = loaded(load(further(&d).glb(&t.bin)));
    assert_eq!(together.vertices, alone.vertices);
    assert_eq!(together.indices, alone.indices);
    assert_eq!(together.local_bone_names, alone.local_bone_names);

    // A second skin for the first mesh has no say either.
    let mut again = further(&d);
    again.nodes.push_str(r#", { "mesh": 0, "skin": 1 }"#);
    assert_eq!(loaded(load(again.glb(&t.bin))).local_bone_names, alone.local_bone_names);

    let mut bad = document(&t);
    bad.nodes = r#"{ "mesh": 0 }, { "name": "joint0" }"#.to_string();
    let alone = failed(load(bad.glb(&t.bin)));
    assert!(matches!(alone, GltfLoadError::NoSkin { mesh_index: 0, .. }));
    assert_eq!(failed(load(further(&bad).glb(&t.bin))).message(), alone.message());
}

#[test]
fn the_skin_comes_from_the_first_skinned_node_of_the_mesh() {
    let step = load_changed(|d| {
        d.nodes = r#"{ "mesh": 0 }, { "skin": 0 }, { "mesh": 0, "skin": 1 }, { "name": "a" }, { "name": "b" }"#.to_string();
        d.skins = r#"{ "joints": [3] }, { "joints": [4, 3] }"#.to_string();
    });
    assert_eq!(loaded(step).local_bone_names, vec!["b".to_string(), "a".to_string()]);
}

#[test]
fn a_document_without_meshes_is_rejected() {
    let step = load_changed(|d| {
        d.nodes = r#"{ "name": "joint0" }"#.to_string();
        d.skins = r#"{ "joints": [0] }"#.to_string();
        d.meshes = String::new();
    });
    let e = failed(step);
    assert!(matches!(e, GltfLoadError::NoMeshes { .. }));
    assert_eq!(e.message(), "'part.glb' contains no meshes");
    assert_eq!(e.source(), None);
}

#[test]
fn a_mesh_without_skin_is_rejected() {
    let e = failed(load_changed(|d| d.nodes = r#"{ "mesh": 0 }, { "name": "joint0" }"#.to_string()));
    assert!(matches!(e, GltfLoadError::NoSkin { mesh_index: 0, .. }));
    assert_eq!(
        e.message(),
        "'part.glb' mesh[0] has no skin attached to any referencing node; modular parts must be skinned"
    );
}

#[test]
fn a_joint_without_name_is_rejected() {
    let e = failed(load_changed(|d| {
        d.nodes = r#"{ "mesh": 0, "skin": 0 }, { "name": "joint0" }, {}"#.to_string();
        d.skins = r#"{ "joints": [1, 2] }"#.to_string();
    }));
    assert!(matches!(e, GltfLoadError::UnnamedJoint { joint_index: 1, .. }));
    assert_eq!(
        e.message(),
        "'part.glb' skin joint[1] has no node name and cannot be resolved against the master skeleton"
    );
}

#[test]
fn other_topologies_are_rejected() {
    let modes = [
        (0, Mode::Points, "Points"),
        (1, Mode::Lines, "Lines"),
        (2, Mode::LineLoop, "LineLoop"),
        (3, Mode::LineStrip, "LineStrip"),
        (5, Mode::TriangleStrip, "TriangleStrip"),
        (6, Mode::TriangleFan, "TriangleFan"),
    ];
    let t = triangle(&[0, 1, 2]);
    for (code, expected, name) in modes {
        let mut d = document(&t);
        let p = primitive(ATTRIBUTES, &format!(r#", "indices": 5, "mode": {code}"#));
        d.meshes = format!(r#"{{ "primitives": [{p}] }}"#);
        let e = failed(load(d.glb(&t.bin)));
        assert_eq!(
            e.message(),
            format!("'part.glb' mesh[0] primitive[0] uses unsupported topology {name} (only Triangles is supported)")
        );
        match e {
            GltfLoadError::UnsupportedTopology { mode, .. } => assert_eq!(mode, expected),
            other => panic!("expected UnsupportedTopology, got {other:?}"),
        }
    }
}

#[test]
fn missing_attributes_are_named_in_order() {
    let t = triangle(&[0, 1, 2]);
    let cases = [
        (r#""POSITION": 0"#, "NORMAL"),
        (r#""POSITION": 0, "NORMAL": 1"#, "TEXCOORD_0"),
        (r#""POSITION": 0, "NORMAL": 1, "TEXCOORD_0": 2"#, "JOINTS_0"),
        (r#""POSITION": 0, "NORMAL": 1, "TEXCOORD_0": 2, "JOINTS_0": 3"#, "WEIGHTS_0"),
    ];
    for (attributes, name) in cases {
        let mut d = document(&t);
        d.meshes = format!(r#"{{ "primitives": [{}] }}"#, primitive(attributes, r#", "indices": 5"#));
        let e = failed(load(d.glb(&t.bin)));
        assert_eq!(
            e.message(),
            format!("'part.glb' mesh[0] primitive[0] is missing required accessor '{name}'")
        );
        match e {
            GltfLoadError::MissingAccessor { accessor, .. } => assert_eq!(accessor, name),
            other => panic!("expected MissingAccessor, got {other:?}"),
        }
    }
}

#[test]
fn the_second_primitive_is_told_by_its_number() {
    let e = failed(load_changed(|d| {
        let good = primitive(ATTRIBUTES, r#", "indices": 5"#);
        let bad = primitive(ATTRIBUTES, "");
        d.meshes = format!(r#"{{ "primitives": [{good}, {bad}] }}"#);
    }));
    assert!(matches!(e, GltfLoadError::MissingIndices { mesh_index: 0, primitive_index: 1, .. }));
    assert_eq!(
        e.message(),
        "'part.glb' mesh[0] primitive[1] has no index accessor (non-indexed primitives are not supported)"
    );
}

#[test]
fn attributes_of_another_length_are_rejected() {
    let names = ["NORMAL", "TEXCOORD_0", "JOINTS_0", "WEIGHTS_0"];
    let t = triangle(&[0, 1, 2]);
    for i in 0..4 {
        let mut d = document(&t);
        d.accessors[i + 1] = d.accessors[i + 1].replace(r#""count": 3"#, r#""count": 2"#);
        let e = failed(load(d.glb(&t.bin)));
        assert_eq!(
            e.message(),
            format!("'part.glb' mesh[0] primitive[0] attribute '{}' has 2 elements, expected 3", names[i])
        );
        match e {
            GltfLoadError::AttributeLengthMismatch { attribute, expected, found, .. } => {
                assert_eq!(attribute, names[i]);
                assert_eq!((expected, found), (3, 2));
            }
            other => panic!("expected AttributeLengthMismatch, got {other:?}"),
        }
    }
}

#[test]
fn attributes_that_cannot_be_read_count_as_missing() {
    let t = triangle(&[0, 1, 2]);
    // Past the end of the view, with items of another size, and of a component
    // type that the attribute cannot have.
    let changes = [
        (0, r#""count": 3"#, r#""count": 4"#, "POSITION"),
        (1, "VEC3", "VEC4", "NORMAL"),
        (1, "5126", "5123", "NORMAL"),
        (2, "5126", "5120", "TEXCOORD_0"),
        (3, "5121", "5126", "JOINTS_0"),
        (4, "5126", "5122", "WEIGHTS_0"),
        (4, r#""count": 3"#, r#""count": 18446744073709551615"#, "WEIGHTS_0"),
    ];
    for (accessor, from, to, name) in changes {
        let mut d = document(&t);
        d.accessors[accessor] = d.accessors[accessor].replace(from, to);
        match failed(load(d.glb(&t.bin))) {
            GltfLoadError::MissingAccessor { accessor, .. } => assert_eq!(accessor, name),
            other => panic!("expected MissingAccessor, got {other:?}"),
        }
    }
    let mut d = document(&t);
    d.accessors[5] = d.accessors[5].replace("5123", "5126");
    assert!(matches!(failed(load(d.glb(&t.bin))), GltfLoadError::MissingIndices { .. }));
}

#[test]
fn positions_and_normals_of_whole_words_are_taken_by_their_bits() {
    let t = triangle(&[0, 1, 2]);
    let plain = loaded(load(document(&t).glb(&t.bin)));
    let mut d = document(&t);
    d.accessors[0] = d.accessors[0].replace("5126", "5125");
    d.accessors[1] = d.accessors[1].replace("5126", "5125");
    let mesh = loaded(load(d.glb(&t.bin)));
    assert_eq!(mesh.vertices, plain.vertices);
    assert_eq!(mesh.vertices[1].position, POSITIONS[1].map(|x| x.to_bits()));
}

#[test]
fn accessors_without_items_are_empty() {
    let t = triangle(&[0, 1, 2]);
    let mut d = document(&t);
    for accessor in d.accessors.iter_mut() {
        *accessor = accessor.replace(r#""count": 3"#, r#""count": 0"#);
    }
    let mesh = loaded(load(d.glb(&t.bin)));
    assert!(mesh.vertices.is_empty());
    assert!(mesh.indices.is_empty());
    assert_eq!(mesh.local_bone_names, vec!["joint0".to_string()]);

    // Up to the end of the view, but not past it, and not with gaps.
    let empty = d.accessors[1].clone();
    d.accessors[1] = empty.replace(r#""count""#, r#""byteOffset": 36, "count""#);
    assert!(loaded(load(d.glb(&t.bin))).vertices.is_empty());
    d.accessors[1] = empty.replace(r#""count""#, r#""byteOffset": 37, "count""#);
    let e = failed(load(d.glb(&t.bin)));
    assert!(matches!(e, GltfLoadError::MissingAccessor { accessor: "NORMAL", .. }));
    d.accessors[1] = empty;
    d.views[1] = r#"{ "buffer": 0, "byteLength": 36, "byteStride": 16 }"#.to_string();
    let e = failed(load(d.glb(&t.bin)));
    assert!(matches!(e, GltfLoadError::MissingAccessor { accessor: "NORMAL", .. }));

    let mut d = document(&t);
    d.accessors[0] = d.accessors[0].replace(r#""count": 3"#, r#""count": 0"#);
    match failed(load(d.glb(&t.bin))) {
        GltfLoadError::AttributeLengthMismatch { attribute, expected, found, .. } => {
            assert_eq!((attribute, expected, found), ("NORMAL", 0, 3));
        }
        other => panic!("expected AttributeLengthMismatch, got {other:?}"),
    }
}

/// Three items of three floats at the start of buffer 0.
fn stored_positions() -> Storage {
    Storage {
        accessor: AccessorDecl { component: 5126, width: 3, count: 3, offset: 0, view: Some(0) },
        view: Some(ViewDecl { buffer: 0, offset: 0, length: 36, stride: None }),
        sparse: None,
    }
}

#[test]
fn access_is_judged_by_where_items_are_stored() {
    let buffers = vec![vec![0u8; 40]];
    let judge = |attribute: Attribute, storage: Storage| {
        judge_access(attribute, Some(storage), &buffers)
    };
    assert_eq!(judge_access(Attribute::Normal, None, &buffers), Access::Missing);
    let good = stored_positions();
    assert_eq!(judge(Attribute::Position, good), Access::Read);
    assert_eq!(judge(Attribute::TexCoord, good), Access::Missing);
    assert_eq!(judge(Attribute::Indices, good), Access::Missing);
    let mut shorts = good;
    shorts.accessor.component = 5123;
    assert_eq!(judge(Attribute::Position, shorts), Access::Missing);
    let mut words = good;
    words.accessor.component = 5125;
    assert_eq!(judge(Attribute::Position, words), Access::Read);
    let mut huge = good;
    huge.accessor.count = usize::MAX;
    assert_eq!(judge(Attribute::Position, huge), Access::Missing);
    let mut elsewhere = good;
    elsewhere.view = Some(ViewDecl { buffer: 1, offset: 0, length: 36, stride: None });
    assert_eq!(judge(Attribute::Position, elsewhere), Access::Missing);
    let mut empty = good;
    empty.accessor.count = 0;
    assert_eq!(judge(Attribute::Position, empty), Access::Vacant);
    empty.view = Some(ViewDecl { buffer: 0, offset: 5, length: 36, stride: None });
    assert_eq!(judge(Attribute::Position, empty), Access::Missing);

    // With a sparse list, the shape that the accessor declares is not asked
    // for, but the lists have to hold something.
    let list = SparseDecl {
        count: 1,
        index_size: 1,
        index_offset: 0,
        index_view: 1,
        value_offset: 0,
        value_view: 2,
    };
    let view = ViewDecl { buffer: 0, offset: 0, length: 12, stride: None };
    let mut sparse = shorts;
    sparse.sparse = Some(SparseStorage { list, index_view: view, value_view: view });
    assert_eq!(judge(Attribute::Position, sparse), Access::Read);
    sparse.sparse = Some(SparseStorage {
        list: SparseDecl { count: 0, ..list },
        index_view: view,
        value_view: view,
    });
    assert_eq!(judge(Attribute::Position, sparse), Access::Missing);
    sparse.accessor.count = 0;
    assert_eq!(judge(Attribute::Position, sparse), Access::Vacant);
}

#[test]
fn a_stride_below_the_item_size_counts_as_missing() {
    let t = triangle(&[0, 1, 2]);
    let mut d = document(&t);
    d.views[0] = r#"{ "buffer": 0, "byteLength": 36, "byteStride": 4 }"#.to_string();
    match failed(load(d.glb(&t.bin))) {
        GltfLoadError::MissingAccessor { accessor, .. } => assert_eq!(accessor, "POSITION"),
        other => panic!("expected MissingAccessor, got {other:?}"),
    }
}

#[test]
fn interleaved_items_are_read_by_stride() {
    let t = triangle(&[0, 1, 2]);
    let mut d = document(&t);
    let mut bin = t.bin.clone();
    let at = bin.len();
    for i in 0..3 {
        push_floats(&mut bin, &POSITIONS[i]);
        push_floats(&mut bin, &[9.0]);
    }
    d.views[0] = format!(r#"{{ "buffer": 0, "byteOffset": {at}, "byteLength": 48, "byteStride": 16 }}"#);
    d.buffers = format!(r#"{{ "byteLength": {} }}"#, bin.len());
    let mesh = loaded(load(d.glb(&bin)));
    for i in 0..3 {
        assert_eq!(mesh.vertices[i].position, POSITIONS[i].map(|x| x.to_bits()));
    }
}

#[test]
fn sparse_items_replace_those_of_the_view() {
    let t = triangle(&[0, 1, 2]);
    let mut d = document(&t);
    let mut bin = t.bin.clone();
    while bin.len() % 4 != 0 {
        bin.push(0);
    }
    let at = bin.len();
    bin.extend_from_slice(&[1u8, 0, 0, 0]);
    push_floats(&mut bin, &[5.0, 6.0, 7.0]);
    d.views.push(format!(r#"{{ "buffer": 0, "byteOffset": {at}, "byteLength": 1 }}"#));
    d.views.push(format!(r#"{{ "buffer": 0, "byteOffset": {}, "byteLength": 12 }}"#, at + 4));
    d.accessors[0] = r#"{ "bufferView": 0, "componentType": 5126, "count": 3, "type": "VEC3", "min": [0.0, 0.0, 0.0], "max": [5.0, 6.0, 7.0], "sparse": { "count": 1, "indices": { "bufferView": 6, "componentType": 5121 }, "values": { "bufferView": 7 } } }"#.to_string();
    d.buffers = format!(r#"{{ "byteLength": {} }}"#, bin.len());
    let mesh = loaded(load(d.glb(&bin)));
    assert_eq!(mesh.vertices[0].position, POSITIONS[0].map(|x| x.to_bits()));
    assert_eq!(mesh.vertices[1].position, [5.0f32, 6.0, 7.0].map(|x| x.to_bits()));
    assert_eq!(mesh.vertices[2].position, POSITIONS[2].map(|x| x.to_bits()));

    // The declared shape does not matter where there is a sparse list.
    let shaped = d.accessors[0].clone();
    d.accessors[0] = shaped.replace("5126", "5121").replace("VEC3", "VEC4");
    assert_eq!(d.accessors[0].matches("5121").count(), 2);
    assert_eq!(loaded(load(d.glb(&bin))).vertices, mesh.vertices);
    d.accessors[0] = shaped;

    // A sparse list without entries cannot be asked for.
    d.accessors[0] = d.accessors[0].replace(r#""count": 1"#, r#""count": 0"#);
    assert!(matches!(failed(load(d.glb(&bin))), GltfLoadError::MissingAccessor { accessor: "POSITION", .. }));
}

#[test]
fn integer_attributes_are_widened_and_normalized() {
    let t = triangle(&[0, 1, 2]);
    let mut d = document(&t);
    let mut bin = t.bin.clone();
    while bin.len() % 4 != 0 {
        bin.push(0);
    }
    let uv = bin.len();
    bin.extend_from_slice(&[0, 255, 255, 0, 0, 0]);
    let joints = bin.len();
    for j in [0u16, 1, 2, 3, 4, 5, 6, 7, 300, 301, 302, 303] {
        bin.extend_from_slice(&j.to_le_bytes());
    }
    let weights = bin.len();
    for _ in 0..3 {
        bin.extend_from_slice(&[255, 0, 0, 0]);
    }
    let indices = bin.len();
    bin.extend_from_slice(&[2, 1, 0]);
    d.views[2] = format!(r#"{{ "buffer": 0, "byteOffset": {uv}, "byteLength": 6 }}"#);
    d.views[3] = format!(r#"{{ "buffer": 0, "byteOffset": {joints}, "byteLength": 24 }}"#);
    d.views[4] = format!(r#"{{ "buffer": 0, "byteOffset": {weights}, "byteLength": 12 }}"#);
    d.views[5] = format!(r#"{{ "buffer": 0, "byteOffset": {indices}, "byteLength": 3 }}"#);
    d.accessors[2] = d.accessors[2].replace("5126", "5121");
    d.accessors[3] = d.accessors[3].replace("5121", "5123");
    d.accessors[4] = d.accessors[4].replace("5126", "5121");
    d.accessors[5] = d.accessors[5].replace("5123", "5121");
    d.buffers = format!(r#"{{ "byteLength": {} }}"#, bin.len());
    let mesh = loaded(load(d.glb(&bin)));
    assert_eq!(mesh.vertices[0].uv, [0.0f32, 1.0].map(|x| x.to_bits()));
    assert_eq!(mesh.vertices[1].uv, [1.0f32, 0.0].map(|x| x.to_bits()));
    assert_eq!(mesh.vertices[1].bone_indices, [4, 5, 6, 7]);
    assert_eq!(mesh.vertices[2].bone_indices, [300, 301, 302, 303]);
    assert_eq!(mesh.vertices[0].bone_weights, [1.0f32, 0.0, 0.0, 0.0].map(|x| x.to_bits()));
    assert_eq!(mesh.indices, vec![2, 1, 0]);
}

#[test]
fn wide_indices_are_read_whole() {
    let t = triangle(&[0, 1, 2]);
    let mut d = document(&t);
    let mut bin = t.bin.clone();
    while bin.len() % 4 != 0 {
        bin.push(0);
    }
    let at = bin.len();
    for i in [0u32, 1, 70000] {
        bin.extend_from_slice(&i.to_le_bytes());
    }
    d.views[5] = format!(r#"{{ "buffer": 0, "byteOffset": {at}, "byteLength": 12 }}"#);
    d.accessors[5] = d.accessors[5].replace("5123", "5125");
    d.buffers = format!(r#"{{ "byteLength": {} }}"#, bin.len());
    let e = failed(load(d.glb(&bin)));
    assert_eq!(
        e.message(),
        "'part.glb' mesh[0] primitive[0] index accessor references vertex 70000, but this primitive only has 3 vertices"
    );
}

#[test]
fn files_that_are_no_gltf_fail_to_parse() {
    for bytes in [vec![], vec![1, 2, 3], b"not a glTF at all".to_vec(), b"glTF".to_vec()] {
        let e = failed(load(bytes));
        assert!(e.source().is_some());
        assert!(e.message().starts_with("failed to parse 'part.glb': "));
    }
    let e = failed(load_gltf_file("gone.glb", Err("No such file".to_string())));
    assert_eq!(e.message(), "failed to parse 'gone.glb': No such file");
    assert_eq!(e.source(), Some("No such file"));
}

#[test]
fn a_header_shorter_than_itself_fails_to_parse() {
    let mut glb = build_test_glb(&[0, 1, 2]);
    for length in 0u8..12 {
        glb[8] = length;
        glb[9] = 0;
        glb[10] = 0;
        glb[11] = 0;
        match failed(load(glb.clone())) {
            GltfLoadError::Parse { source, .. } => assert_eq!(source, "failed to fill whole buffer"),
            other => panic!("expected Parse, got {other:?}"),
        }
    }
    // Another version is told before the length is looked at.
    glb[4] = 1;
    match failed(load(glb)) {
        GltfLoadError::Parse { source, .. } => assert_eq!(source, "unsupported version"),
        other => panic!("expected Parse, got {other:?}"),
    }
}

#[test]
fn a_position_reference_to_nowhere_fails_to_parse() {
    let e = failed(load_changed(|d| {
        let p = primitive(&ATTRIBUTES.replace(r#""POSITION": 0"#, r#""POSITION": 6"#), "");
        d.meshes = format!(r#"{{ "primitives": [{p}] }}"#);
    }));
    assert_eq!(
        e.message(),
        "failed to parse 'part.glb': invalid glTF: POSITION accessor: Index out of bounds;"
    );
}

#[test]
fn a_document_that_fails_validation_fails_to_parse() {
    let e = failed(load_changed(|d| d.skins = r#"{ "joints": [7] }"#.to_string()));
    assert!(e.message().starts_with("failed to parse 'part.glb': invalid glTF:"));
    let e = failed(load_changed(|d| {
        d.meshes = format!(
            r#"{{ "primitives": [{}] }}"#,
            primitive(r#""NORMAL": 1"#, r#", "indices": 5"#)
        );
    }));
    assert!(e.message().starts_with("failed to parse 'part.glb': invalid glTF:"));
}

#[test]
fn a_buffer_shorter_than_declared_is_rejected() {
    let t = triangle(&[0, 1, 2]);
    let mut d = document(&t);
    d.buffers = r#"{ "byteLength": 100000 }"#.to_string();
    let e = failed(load(d.glb(&t.bin)));
    let actual = (t.bin.len() + 3) / 4 * 4;
    assert_eq!(
        e.message(),
        format!("'part.glb' buffer[0] declares 100000 bytes but only {actual} were available")
    );
    assert!(matches!(e, GltfLoadError::BufferTooShort { buffer_index: 0, declared_len: 100000, .. }));
}

/// Standard base64, written out.
fn base64(bytes: &[u8]) -> String {
    let table = b"ABCDEFGHIJKLMNOPQRSTUVWXYZabcdefghijklmnopqrstuvwxyz0123456789+/";
    let mut out = String::new();
    for chunk in bytes.chunks(3) {
        let mut n: u32 = 0;
        for i in 0..3 {
            n = n * 256 + if i < chunk.len() { chunk[i] as u32 } else { 0 };
        }
        for i in 0..4 {
            if i <= chunk.len() {
                out.push(table[(n >> (18 - 6 * i)) as usize % 64] as char);
            } else {
                out.push('=');
            }
        }
    }
    out
}

fn load_with_uri(uri: &str) -> LoadStep {
    let t = triangle(&[0, 1, 2]);
    let mut d = document(&t);
    d.buffers = format!(r#"{{ "byteLength": {}, "uri": "{uri}" }}"#, t.bin.len());
    load_gltf_file("part.gltf", Ok(d.json().into_bytes()))
}

#[test]
fn base64_data_uris_are_decoded() {
    let t = triangle(&[0, 1, 2]);
    for media in ["application/octet-stream", ""] {
        let mesh = loaded(load_with_uri(&format!("data:{media};base64,{}", base64(&t.bin))));
        assert_eq!(mesh.indices, vec![0, 1, 2]);
        assert_eq!(mesh.vertices[1].position, POSITIONS[1].map(|x| x.to_bits()));
    }
}

#[test]
fn unusable_uris_are_told_why() {
    let prefix = "'part.gltf' buffer[0] could not be loaded: ";
    let cases = [
        ("data:text/plain", "malformed data URI (no ';' separator): 'data:text/plain'"),
        (
            "data:text/plain;charset=utf-8,x",
            "data URI is not base64-encoded (only base64 data URIs are supported)",
        ),
        (
            "data:text/plain;charset=utf-8;base64,AAAA",
            "data URI is not base64-encoded (only base64 data URIs are supported)",
        ),
        ("data:;base64,*", "invalid base64 in data URI: Invalid symbol 42, offset 0."),
        (
            "https://example.com/a.bin",
            "unsupported remote URI scheme (only relative file paths and base64 data URIs are supported): 'https://example.com/a.bin'",
        ),
    ];
    for (uri, reason) in cases {
        let e = failed(load_with_uri(uri));
        assert_eq!(e.message(), format!("{prefix}{reason}"));
        assert!(matches!(e, GltfLoadError::BufferSource { buffer_index: 0, .. }));
    }
    let t = triangle(&[0, 1, 2]);
    let e = failed(load_gltf_file("part.gltf", Ok(document(&t).json().into_bytes())));
    assert_eq!(
        e.message(),
        format!("{prefix}buffer has no URI (expects the GLB BIN chunk), but this file has no embedded binary chunk")
    );
}

#[test]
fn external_buffers_are_asked_for() {
    let t = triangle(&[0, 1, 2]);
    let ask = || match load_with_uri("my%20buffers/part%2.bin") {
        LoadStep::NeedFile(load) => load,
        _ => panic!("expected a request for a file"),
    };
    assert_eq!(ask().relative_path(), "my buffers/part%2.bin");

    let mesh = loaded(ask().resume(Ok(t.bin.clone())));
    assert_eq!(mesh.vertices.len(), 3);

    let e = failed(ask().resume(Ok(vec![0; 7])));
    assert!(matches!(e, GltfLoadError::BufferTooShort { actual_len: 7, .. }));

    let e = failed(ask().resume(Err(ReadFailure {
        shown_path: "dir/my buffers/part%2.bin".to_string(),
        error: "gone".to_string(),
    })));
    assert_eq!(
        e.message(),
        "'part.gltf' buffer[0] could not be loaded: failed to read external buffer 'dir/my buffers/part%2.bin': gone"
    );
}

#[test]
fn buffers_are_resolved_before_meshes_are_looked_at() {
    let e = failed(load_changed(|d| {
        d.meshes = String::new();
        d.nodes = r#"{ "name": "joint0" }"#.to_string();
        d.skins = String::new();
        d.buffers = r#"{ "byteLength": 100000 }"#.to_string();
    }));
    assert!(matches!(e, GltfLoadError::BufferTooShort { .. }));
}

#[test]
fn several_buffers_are_collected_in_order() {
    let t = triangle(&[0, 1, 2]);
    let mut d = document(&t);
    d.buffers = format!(
        r#"{{ "byteLength": 1, "uri": "data:;base64,AA==" }}, {{ "byteLength": {}, "uri": "geometry.bin" }}, {{ "byteLength": 2, "uri": "more.bin" }}"#,
        t.bin.len()
    );
    for view in d.views.iter_mut() {
        *view = view.replace(r#""buffer": 0"#, r#""buffer": 1"#);
    }
    let step = load_gltf_file("part.gltf", Ok(d.json().into_bytes()));
    let load = match step {
        LoadStep::NeedFile(load) => load,
        _ => panic!("expected a request for a file"),
    };
    assert_eq!(load.relative_path(), "geometry.bin");
    let load = match load.resume(Ok(t.bin.clone())) {
        LoadStep::NeedFile(load) => load,
        _ => panic!("expected a request for a file"),
    };
    assert_eq!(load.relative_path(), "more.bin");
    assert_eq!(loaded(load.resume(Ok(vec![0, 0]))).indices, vec![0, 1, 2]);
}
