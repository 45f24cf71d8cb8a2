//! Filling the registry and generating characters.

use std::collections::HashMap;

use anthroforge::character::{
    generate_character, BodyMerge, CharacterDNA, DressStep, Dressing, MeshOutputBuffer,
};
use anthroforge::init::{
    init_part_registry, open_asset_dir, DirArgument, PartOutcome, RegistryBuilder,
};
use anthroforge::mesh_assembly::LoadedMesh;
use anthroforge::registry::{PartData, Registry, SkinTreeBuild};
use anthroforge::skeleton_resolver::SkeletonError;
use anthroforge::vertex::SkinnedVertex;

type TestRegistry = Registry<u32, u32>;

const HEAD_ID: u32 = 20001;
const TORSO_ID: u32 = 20002;
const CLOTHING_A_ID: u32 = 20003;
const CLOTHING_B_ID: u32 = 20004;

fn vertex(x: f32, joint: u16) -> SkinnedVertex {
    SkinnedVertex {
        position: [x, 1.0, 0.0].map(|c| c.to_bits()),
        normal: [0; 3],
        uv: [0; 2],
        bone_indices: [joint, 0, 0, 0],
        bone_weights: [1.0f32, 0.0, 0.0, 0.0].map(|c| c.to_bits()),
    }
}

fn triangle() -> PartData {
    PartData {
        vertices: vec![vertex(0.0, 0), vertex(1.0, 0), vertex(2.0, 0)],
        indices: vec![0, 1, 2],
    }
}

fn mesh(bones: &[&str]) -> LoadedMesh {
    LoadedMesh {
        vertices: triangle().vertices,
        indices: vec![0, 1, 2],
        local_bone_names: bones.iter().map(|n| n.to_string()).collect(),
    }
}

fn builder() -> RegistryBuilder {
    let dir = open_asset_dir(DirArgument::Named { path: "assets".to_string(), is_dir: true })
        .unwrap_or_else(|e| panic!("{e}"));
    dir.read_skeleton("assets/master_skeleton.json", Ok(r#"{"root": 0, "hip": 7}"#.to_string()))
        .unwrap_or_else(|e| panic!("{e}"))
}

fn registry_with_test_clothing_parts() -> TestRegistry {
    let mut b = builder();
    for id in [HEAD_ID, TORSO_ID, CLOTHING_A_ID, CLOTHING_B_ID] {
        assert!(matches!(b.add_part(id, mesh(&["root"])), PartOutcome::Added));
    }
    let mut place = None;
    assert_eq!(b.install(&mut place), Ok(4));
    place.expect("a registry was installed")
}

fn dna(head_id: u32, torso_id: u32, ids: Option<Vec<u32>>, count: u32) -> CharacterDNA {
    CharacterDNA {
        seed: 7,
        height_modifier: 2.0f32.to_bits(),
        weight_modifier: 1.5f32.to_bits(),
        head_id,
        torso_id,
        equipped_clothing_ids: ids,
        equipped_clothing_count: count,
    }
}

/// Puts parts one after the other.
fn merge(parts: &[&PartData]) -> PartData {
    let mut out = PartData { vertices: vec![], indices: vec![] };
    for part in parts {
        let base = out.vertices.len() as u32;
        out.vertices.extend_from_slice(&part.vertices);
        out.indices.extend(part.indices.iter().map(|i| i + base));
    }
    out
}

/// Scales the second coordinate.
fn scaled(vertices: &[SkinnedVertex], scale: f32) -> Vec<SkinnedVertex> {
    vertices
        .iter()
        .map(|v| {
            let mut v = *v;
            v.position[1] = (f32::from_bits(v.position[1]) * scale).to_bits();
            v
        })
        .collect()
}

fn begin<'a>(
    registry: &'a TestRegistry,
    dna: CharacterDNA,
    last_error: &mut Option<String>,
) -> BodyMerge<'a> {
    generate_character(last_error, Some(registry), Some(dna)).expect("the character can be begun")
}

fn undressed(registry: &TestRegistry, dna: CharacterDNA, last_error: &mut Option<String>) -> Dressing {
    let stage = begin(registry, dna, last_error);
    let body = merge(&[stage.head, stage.torso]);
    let stage = stage.merged(last_error, Ok(body)).expect("the body was merged");
    let scale = f32::from_bits(stage.dna.height_modifier);
    let skin = scaled(&stage.body.vertices, scale);
    stage.mutated(last_error, Ok(skin)).expect("the skin was shaped")
}

/// Dresses a character, with fitting failing for `unfit`. Gives the items that
/// were left out.
fn dress(stage: &mut Dressing, registry: &mut TestRegistry, unfit: &[u32]) -> Vec<u32> {
    let mut left_out = Vec::new();
    loop {
        match stage.advance(registry) {
            DressStep::Done => return left_out,
            DressStep::Unknown { clothing_id } => left_out.push(clothing_id),
            DressStep::NoAnchors { clothing_id, .. } => left_out.push(clothing_id),
            DressStep::BuildSkinTree { .. } => {
                assert!(stage.tree_built(registry, SkinTreeBuild::Built(1)).is_none());
            }
            DressStep::BuildAnchors { clothing_id, tree, .. } => {
                let anchors = clothing_id + *tree;
                assert!(stage.anchors_built(registry, Ok(anchors)).is_none());
            }
            DressStep::Fit { clothing_id, clothing, anchors } => {
                assert_eq!(*anchors, clothing_id + 1);
                if unfit.contains(&clothing_id) {
                    left_out.push(clothing_id);
                    stage.fitted(registry, Err("does not fit".to_string()));
                } else {
                    stage.fitted(registry, Ok(scaled(&clothing.vertices, 2.0)));
                }
            }
        }
    }
}

fn finish(stage: Dressing, last_error: &mut Option<String>) -> MeshOutputBuffer {
    let all = merge(&stage.parts_to_merge());
    stage.finish(last_error, Ok(all)).expect("the character was merged")
}

#[test]
fn generate_character_null_dna_sets_specific_last_error() {
    let mut last_error = None;
    let result = generate_character::<u32, u32>(&mut last_error, None, None);
    assert!(result.is_none());
    let message = last_error.expect("null-dna failure must set a last error");
    assert!(
        message.contains("dna pointer was null"),
        "expected a message about the null dna pointer, got: {message}"
    );
}

#[test]
fn generate_character_before_registry_init_sets_specific_last_error() {
    let make = || CharacterDNA {
        seed: 0,
        height_modifier: 0.0f32.to_bits(),
        weight_modifier: 0.0f32.to_bits(),
        head_id: u32::MAX,
        torso_id: 0,
        equipped_clothing_ids: None,
        equipped_clothing_count: 0,
    };
    let mut last_error = None;
    assert!(generate_character::<u32, u32>(&mut last_error, None, Some(make())).is_none());
    let message = last_error.clone().expect("failure must set a last error");
    assert!(
        message.contains("before init_part_registry"),
        "expected a message about the registry not being initialized, got: {message}"
    );

    let registry = registry_with_test_clothing_parts();
    assert!(generate_character(&mut last_error, Some(&registry), Some(make())).is_none());
    let message = last_error.expect("failure must set a last error");
    assert!(
        message.contains("no part loaded for head_id"),
        "expected a message about the missing head_id, got: {message}"
    );
    assert_eq!(message, "generate_character: no part loaded for head_id 4294967295");
}

#[test]
fn last_error_does_not_leak_stale_message_into_next_failure() {
    let mut last_error = None;
    assert!(generate_character::<u32, u32>(&mut last_error, None, None).is_none());
    let first_message = last_error.clone().expect("first failure must set a last error");
    assert!(first_message.contains("dna pointer was null"));

    let outcome = open_asset_dir(DirArgument::Named {
        path: "/this/path/does/not/exist/anthroforge-test".to_string(),
        is_dir: false,
    })
    .map(|_| 0);
    assert!(!init_part_registry(&mut last_error, outcome));
    let second_message = last_error.expect("second failure must set a last error");
    assert!(
        !second_message.contains("dna pointer was null"),
        "stale message from the first failure leaked into the second: {second_message}"
    );
    assert!(
        second_message.contains("does not exist or is not a directory"),
        "expected a message about the missing asset_dir, got: {second_message}"
    );
    assert_eq!(
        second_message,
        "init_part_registry failed: asset_dir '/this/path/does/not/exist/anthroforge-test' does not exist or is not a directory"
    );
}

#[test]
fn init_part_registry_null_asset_dir_sets_last_error() {
    let mut last_error = None;
    let outcome = open_asset_dir(DirArgument::Null).map(|_| 0);
    assert!(!init_part_registry(&mut last_error, outcome));
    let message = last_error.expect("null asset_dir failure must set a last error");
    assert!(message.contains("asset_dir pointer was null"));
}

#[test]
fn asset_dirs_that_are_not_utf8_are_rejected() {
    match open_asset_dir(DirArgument::NotUtf8("invalid utf-8 sequence".to_string())) {
        Err(e) => assert_eq!(e, "asset_dir was not valid UTF-8: invalid utf-8 sequence"),
        Ok(_) => panic!("expected an error"),
    }
}

#[test]
fn successful_call_after_failure_clears_last_error() {
    let mut last_error = None;
    assert!(generate_character::<u32, u32>(&mut last_error, None, None).is_none());
    assert!(
        last_error.is_some(),
        "precondition: a failure must set a last error before we can test it clearing"
    );

    let mut b = builder();
    assert!(matches!(b.add_part(9001, mesh(&["root"])), PartOutcome::Added));
    let mut place: Option<TestRegistry> = None;
    let outcome = b.install(&mut place);
    assert!(init_part_registry(&mut last_error, outcome));
    assert!(last_error.is_none());
    let mut registry = place.expect("a registry was installed");

    assert!(generate_character::<u32, u32>(&mut last_error, None, None).is_none());
    assert!(last_error.is_some());
    let made = CharacterDNA { seed: 42, ..dna(9001, 9001, None, 0) };
    let mut stage = undressed(&registry, made, &mut last_error);
    dress(&mut stage, &mut registry, &[]);
    let buffer = finish(stage, &mut last_error);
    assert_eq!(buffer.vertices_count, 6);
    assert!(
        last_error.is_none(),
        "a successful generate_character call must clear any previously-recorded error"
    );
}

#[test]
fn generate_character_composes_head_torso_and_fitted_clothing() {
    let mut registry = registry_with_test_clothing_parts();
    let expected_vertex_count = 9;
    let original = triangle().vertices;
    let mut last_error = None;
    let made = dna(HEAD_ID, TORSO_ID, Some(vec![CLOTHING_A_ID]), 1);
    let mut stage = undressed(&registry, made, &mut last_error);
    assert!(dress(&mut stage, &mut registry, &[]).is_empty());
    let buffer = finish(stage, &mut last_error);
    assert_eq!(
        buffer.vertices_count as usize, expected_vertex_count,
        "output vertex count should be the sum of head + torso + clothing vertex counts"
    );
    assert_eq!(buffer.vertices.len(), expected_vertex_count);
    assert_eq!(buffer.indices, vec![0, 1, 2, 3, 4, 5, 6, 7, 8]);
    assert_eq!(buffer.indices_count, 9);
    let clothing_start = buffer.vertices.len() - original.len();
    let any_moved = buffer.vertices[clothing_start..]
        .iter()
        .zip(original.iter())
        .any(|(fitted, original)| {
            let d = |i: usize| {
                f32::from_bits(fitted.position[i]) - f32::from_bits(original.position[i])
            };
            (d(0) * d(0) + d(1) * d(1) + d(2) * d(2)).sqrt() > 1e-4
        });
    assert!(
        any_moved,
        "at least one fitted clothing vertex should differ from its bind-pose position"
    );
    assert!(last_error.is_none());
}

#[test]
fn generate_character_unknown_torso_id_sets_specific_last_error() {
    let registry = registry_with_test_clothing_parts();
    const BOGUS_TORSO_ID: u32 = u32::MAX;
    let mut last_error = None;
    let made = dna(HEAD_ID, BOGUS_TORSO_ID, None, 0);
    assert!(generate_character(&mut last_error, Some(&registry), Some(made)).is_none());
    let message = last_error.expect("unknown torso_id failure must set a last error");
    assert!(
        message.contains("no part loaded for torso_id"),
        "expected a message specifically naming the missing torso_id, got: {message}"
    );
}

#[test]
fn failures_of_the_body_are_fatal() {
    let registry = registry_with_test_clothing_parts();
    let mut last_error = None;
    let stage = begin(&registry, dna(HEAD_ID, TORSO_ID, None, 0), &mut last_error);
    assert!(stage.merged(&mut last_error, Err("too big".to_string())).is_none());
    assert_eq!(
        last_error.as_deref(),
        Some("generate_character: failed to merge head/torso parts: too big")
    );

    let stage = begin(&registry, dna(HEAD_ID, TORSO_ID, None, 0), &mut last_error);
    assert!(last_error.is_none());
    let stage = stage.merged(&mut last_error, Ok(triangle())).expect("merged");
    assert!(stage.mutated(&mut last_error, Err("bad scale".to_string())).is_none());
    assert_eq!(last_error.as_deref(), Some("generate_character: DNA mutation failed: bad scale"));

    let stage = undressed(&registry, dna(HEAD_ID, TORSO_ID, None, 0), &mut last_error);
    assert!(last_error.is_none());
    assert!(stage.finish(&mut last_error, Err("too big".to_string())).is_none());
    assert_eq!(
        last_error.as_deref(),
        Some("generate_character: failed to merge fitted clothing onto body: too big")
    );
}

#[test]
fn failures_of_clothing_are_not_fatal() {
    let mut registry = registry_with_test_clothing_parts();
    let mut last_error = None;
    let ids = vec![CLOTHING_B_ID, 99, CLOTHING_A_ID, CLOTHING_B_ID];
    let mut stage = undressed(&registry, dna(HEAD_ID, TORSO_ID, Some(ids), 4), &mut last_error);
    let left_out = dress(&mut stage, &mut registry, &[CLOTHING_A_ID]);
    assert_eq!(left_out, vec![99, CLOTHING_A_ID]);
    assert_eq!(stage.parts_to_merge().len(), 3);
    let buffer = finish(stage, &mut last_error);
    assert_eq!(buffer.vertices_count, 12);
    assert!(last_error.is_none());
}

#[test]
fn builds_that_fail_leave_the_item_out() {
    let mut registry = registry_with_test_clothing_parts();
    let mut last_error = None;
    let ids = vec![CLOTHING_A_ID, CLOTHING_B_ID];
    let mut stage = undressed(&registry, dna(HEAD_ID, TORSO_ID, Some(ids), 2), &mut last_error);
    assert!(matches!(
        stage.advance(&registry),
        DressStep::BuildSkinTree { clothing_id: CLOTHING_A_ID, .. }
    ));
    let failure = stage.tree_built(&mut registry, SkinTreeBuild::TreeFailed("empty".to_string()));
    assert_eq!(failure.expect("a failure").message(), "clothing deformer failed: empty");
    assert!(matches!(
        stage.advance(&registry),
        DressStep::BuildSkinTree { clothing_id: CLOTHING_B_ID, .. }
    ));
    assert!(stage.tree_built(&mut registry, SkinTreeBuild::Built(5)).is_none());
    assert!(matches!(
        stage.advance(&registry),
        DressStep::BuildAnchors { clothing_id: CLOTHING_B_ID, tree: &5, .. }
    ));
    let failure = stage.anchors_built(&mut registry, Err("no match".to_string()));
    assert_eq!(failure.expect("a failure").message(), "clothing deformer failed: no match");
    assert!(matches!(stage.advance(&registry), DressStep::Done));
    assert_eq!(stage.parts_to_merge().len(), 1);
    assert_eq!(finish(stage, &mut last_error).vertices_count, 6);
}

#[test]
fn worn_items_keep_their_order_behind_the_body() {
    let mut registry = registry_with_test_clothing_parts();
    let mut last_error = None;
    let ids = vec![CLOTHING_B_ID, CLOTHING_A_ID];
    let mut stage = undressed(&registry, dna(HEAD_ID, TORSO_ID, Some(ids), 2), &mut last_error);
    let mut tag = 100;
    loop {
        match stage.advance(&registry) {
            DressStep::Done => break,
            DressStep::Fit { .. } => {
                tag += 1;
                stage.fitted(&registry, Ok(vec![vertex(tag as f32, 0)]));
            }
            DressStep::BuildSkinTree { .. } => {
                assert!(stage.tree_built(&mut registry, SkinTreeBuild::Built(1)).is_none());
            }
            DressStep::BuildAnchors { .. } => {
                assert!(stage.anchors_built(&mut registry, Ok(2)).is_none());
            }
            _ => panic!("both items can be worn"),
        }
    }
    let parts = stage.parts_to_merge();
    assert_eq!(parts[0].vertices.len(), 6);
    assert_eq!(parts[0].vertices, stage.body().vertices);
    assert_eq!(parts[1].vertices, vec![vertex(101.0, 0)]);
    assert_eq!(parts[1].indices, vec![0, 1, 2]);
    assert_eq!(parts[2].vertices, vec![vertex(102.0, 0)]);
}

#[test]
fn equipped_items_need_a_list_and_a_count() {
    let registry = registry_with_test_clothing_parts();
    let mut last_error = None;
    for (ids, count) in [(None, 0), (None, 3), (Some(vec![CLOTHING_A_ID]), 0), (Some(vec![]), 5)] {
        let mut stage = undressed(&registry, dna(HEAD_ID, TORSO_ID, ids, count), &mut last_error);
        assert!(matches!(stage.advance(&registry), DressStep::Done));
    }
    let ids = Some(vec![1, 2, 3]);
    let mut stage = undressed(&registry, dna(HEAD_ID, TORSO_ID, ids, 2), &mut last_error);
    assert_eq!(stage.dna().seed, 7);
    assert!(matches!(stage.advance(&registry), DressStep::Unknown { clothing_id: 1 }));
    assert!(matches!(stage.advance(&registry), DressStep::Unknown { clothing_id: 2 }));
    assert!(matches!(stage.advance(&registry), DressStep::Done));
}

#[test]
fn parts_are_aligned_when_added() {
    let mut b = builder();
    assert!(matches!(b.add_part(1, mesh(&["hip"])), PartOutcome::Added));
    let mut place: Option<TestRegistry> = None;
    assert_eq!(b.install(&mut place), Ok(1));
    let registry = place.expect("a registry was installed");
    let part = registry.part(1).expect("the part is there");
    assert_eq!(part.vertices[2].bone_indices, [7, 0, 0, 0]);
    assert_eq!(part.indices, vec![0, 1, 2]);
}

#[test]
fn parts_that_do_not_fit_are_left_out() {
    let mut b = builder();
    match b.add_part(1, mesh(&["tail"])) {
        PartOutcome::Skipped(SkeletonError::UnknownBone { bone_name, local_joint_index }) => {
            assert_eq!((bone_name.as_str(), local_joint_index), ("tail", 0));
        }
        other => panic!("expected the part to be skipped, got {other:?}"),
    }
    assert!(matches!(
        b.add_part(2, mesh(&[])),
        PartOutcome::Skipped(SkeletonError::LocalJointIndexOutOfRange { .. })
    ));
    let mut place: Option<TestRegistry> = None;
    match b.install(&mut place) {
        Err(e) => assert_eq!(e, "no valid .gltf/.glb/.obj parts were loaded from 'assets'"),
        Ok(_) => panic!("expected an error"),
    }
    assert!(place.is_none());
}

#[test]
fn the_later_part_with_an_id_holds() {
    let mut b = builder();
    assert!(matches!(b.add_part(1, mesh(&["root"])), PartOutcome::Added));
    assert!(matches!(b.add_part(2, mesh(&["root"])), PartOutcome::Added));
    assert!(matches!(b.add_part(1, mesh(&["hip"])), PartOutcome::Replaced));
    assert!(matches!(b.add_part(1, mesh(&["tail"])), PartOutcome::Skipped(_)));
    let mut place: Option<TestRegistry> = None;
    assert_eq!(b.install(&mut place), Ok(2));
    let registry = place.expect("a registry was installed");
    assert_eq!(registry.part(1).expect("part 1").vertices[0].bone_indices[0], 7);
    assert_eq!(registry.part(2).expect("part 2").vertices[0].bone_indices[0], 0);
}

#[test]
fn a_second_initialization_changes_nothing() {
    let mut place: Option<TestRegistry> = Some(Registry::new(HashMap::from([(5, triangle())])));
    let mut b = builder();
    assert!(matches!(b.add_part(1, mesh(&["root"])), PartOutcome::Added));
    let outcome = b.install(&mut place);
    let mut last_error = None;
    assert!(!init_part_registry(&mut last_error, outcome));
    assert_eq!(
        last_error.as_deref(),
        Some("init_part_registry failed: init_part_registry was already called; registry is immutable after the first successful init")
    );
    let registry = place.expect("the first registry");
    assert!(registry.part(5).is_some());
    assert!(registry.part(1).is_none());
}

#[test]
fn skeleton_problems_end_the_initialization() {
    let open = || {
        open_asset_dir(DirArgument::Named { path: "assets".to_string(), is_dir: true })
            .unwrap_or_else(|e| panic!("{e}"))
    };
    match open().read_skeleton("assets/master_skeleton.json", Err("gone".to_string())) {
        Err(e) => assert_eq!(e, "failed to read 'assets/master_skeleton.json': gone"),
        Ok(_) => panic!("expected an error"),
    }
    match open().read_skeleton("assets/master_skeleton.json", Ok("[]".to_string())) {
        Err(e) => assert!(e.starts_with("failed to parse 'assets/master_skeleton.json' as JSON: ")),
        Ok(_) => panic!("expected an error"),
    }
    assert_eq!(builder().listing_failed("denied"), "failed to read asset_dir 'assets': denied");
}

#[test]
fn unknown_clothing_leaves_the_character_as_it_is() {
    let make = |ids: Option<Vec<u32>>, count: u32| {
        let mut registry = registry_with_test_clothing_parts();
        let mut last_error = None;
        let made = dna(HEAD_ID, TORSO_ID, ids, count);
        let mut stage = undressed(&registry, made, &mut last_error);
        let left_out = dress(&mut stage, &mut registry, &[]);
        let buffer = finish(stage, &mut last_error);
        assert!(last_error.is_none());
        (buffer.vertices, buffer.indices, left_out)
    };
    let plain = make(Some(vec![CLOTHING_B_ID, CLOTHING_A_ID]), 2);
    assert_eq!(plain.0.len(), 12);
    assert!(plain.2.is_empty());
    let odd = make(Some(vec![1, CLOTHING_B_ID, 2, 1, CLOTHING_A_ID, 3]), 6);
    assert_eq!(odd.2, vec![1, 2, 1, 3]);
    assert_eq!((odd.0, odd.1), (plain.0, plain.1));

    let bare = make(Some(vec![CLOTHING_A_ID]), 0);
    assert_eq!(bare.0.len(), 6);
    assert_eq!(make(None, 5), bare);
}

#[test]
fn a_character_can_be_dressed_in_one_go() {
    let made = || dna(HEAD_ID, TORSO_ID, Some(vec![CLOTHING_A_ID, 5, CLOTHING_B_ID]), 3);
    let mut last_error = None;

    let mut registry = registry_with_test_clothing_parts();
    let mut stage = undressed(&registry, made(), &mut last_error);
    dress(&mut stage, &mut registry, &[CLOTHING_A_ID]);
    let step_by_step = finish(stage, &mut last_error);

    let mut registry = registry_with_test_clothing_parts();
    let mut stage = undressed(&registry, made(), &mut last_error);
    stage.dress(
        &mut registry,
        |_: &PartData, _: &PartData| SkinTreeBuild::Built(1),
        |clothing: &PartData, tree: &u32| Ok(clothing.indices[0] + *tree),
        |skin: &PartData, clothing: &PartData, anchors: &u32, height: u32, weight: u32| {
            assert_eq!(skin.vertices.len(), 6);
            assert_eq!(*anchors, 1);
            assert_eq!((height, weight), (2.0f32.to_bits(), 1.5f32.to_bits()));
            Ok(scaled(&clothing.vertices, 2.0))
        },
    );
    let at_once = finish(stage, &mut last_error);
    assert_eq!(step_by_step.vertices.len(), 9);
    assert_eq!(at_once.vertices.len(), 12);
    assert_eq!(at_once.vertices[6..9], step_by_step.vertices[6..9]);
    assert_eq!(at_once.indices, (0..12).collect::<Vec<u32>>());

    // Without a tree nothing is worn.
    let mut registry = registry_with_test_clothing_parts();
    let mut stage = undressed(&registry, made(), &mut last_error);
    stage.dress(
        &mut registry,
        |_: &PartData, _: &PartData| SkinTreeBuild::TreeFailed("none".to_string()),
        |_: &PartData, _: &u32| Ok(0),
        |_: &PartData, clothing: &PartData, _: &u32, _: u32, _: u32| Ok(clothing.vertices.clone()),
    );
    assert_eq!(finish(stage, &mut last_error).vertices.len(), 6);
    assert!(last_error.is_none());
}
