//! The two-tier cache for fitting clothing, and prewarming it.

use std::collections::HashMap;
use std::sync::Arc;

use anthroforge::prewarm::{
    anthroforge_prewarm_clothing, prewarm_clothing_anchors_impl, Prewarm, PrewarmRequest,
    PrewarmStep,
};
use anthroforge::registry::{
    AnchorStep, ClothingAnchorError, PartData, Registry, SkinTreeBuild, SkinTreeStep,
};
use anthroforge::vertex::SkinnedVertex;

type Tree = Arc<Vec<u32>>;
type Anchors = Arc<Vec<u32>>;
type TestRegistry = Registry<Tree, Anchors>;

const HEAD_ID: u32 = 20001;
const TORSO_ID: u32 = 20002;
const CLOTHING_A_ID: u32 = 20003;
const CLOTHING_B_ID: u32 = 20004;

fn part(tag: u32) -> PartData {
    let vertex = SkinnedVertex {
        position: [tag, 0, 0],
        normal: [0; 3],
        uv: [0; 2],
        bone_indices: [0; 4],
        bone_weights: [0; 4],
    };
    PartData { vertices: vec![vertex; 3], indices: vec![0, 1, 2] }
}

fn registry_with_test_clothing_parts() -> TestRegistry {
    let mut parts = HashMap::new();
    for id in [HEAD_ID, TORSO_ID, CLOTHING_A_ID, CLOTHING_B_ID] {
        parts.insert(id, part(id));
    }
    Registry::new(parts)
}

/// Drives the registry until there is a skin tree.
fn get_or_build_skin_tree(
    registry: &mut TestRegistry,
    head: u32,
    torso: u32,
) -> Result<Tree, ClothingAnchorError> {
    let built = match registry.get_or_build_skin_tree(head, torso) {
        SkinTreeStep::Ready(tree) => return Ok(Arc::clone(tree)),
        SkinTreeStep::Failed(e) => return Err(e),
        SkinTreeStep::Build { head, torso } => {
            Arc::new(vec![head.vertices[0].position[0], torso.vertices[0].position[0]])
        }
    };
    registry.record_skin_tree(head, torso, SkinTreeBuild::Built(Arc::clone(&built)))?;
    Ok(built)
}

/// Drives the registry until there are anchors. Counts the builds.
fn get_or_build_clothing_anchors(
    registry: &mut TestRegistry,
    head: u32,
    torso: u32,
    clothing: u32,
    builds: &mut usize,
) -> Result<Anchors, ClothingAnchorError> {
    loop {
        let anchors = match registry.get_or_build_clothing_anchors(head, torso, clothing) {
            AnchorStep::Ready(anchors) => return Ok(Arc::clone(anchors)),
            AnchorStep::Failed(e) => return Err(e),
            AnchorStep::BuildSkinTree { .. } => None,
            AnchorStep::BuildAnchors { clothing, tree } => {
                Some(Arc::new(vec![clothing.vertices[0].position[0], tree[0], tree[1]]))
            }
        };
        *builds += 1;
        match anchors {
            None => {
                get_or_build_skin_tree(registry, head, torso)?;
            }
            Some(anchors) => registry.record_clothing_anchors(head, torso, clothing, Ok(anchors))?,
        }
    }
}

#[test]
fn clothing_anchor_cache_shares_tree_across_clothing_items() {
    let mut registry = registry_with_test_clothing_parts();
    let mut builds = 0;
    let tree_before = get_or_build_skin_tree(&mut registry, HEAD_ID, TORSO_ID)
        .expect("skin tree should build for a valid head/torso pair");
    for clothing in [CLOTHING_A_ID, CLOTHING_B_ID] {
        get_or_build_clothing_anchors(&mut registry, HEAD_ID, TORSO_ID, clothing, &mut builds)
            .expect("anchors should build");
    }
    let tree_after = get_or_build_skin_tree(&mut registry, HEAD_ID, TORSO_ID)
        .expect("skin tree should still be cached");
    assert!(
        Arc::ptr_eq(&tree_before, &tree_after),
        "both clothing_anchors calls should have hit the same cached skin tree, not rebuilt one"
    );
    assert_eq!(builds, 2);
}

#[test]
fn clothing_anchor_cache_repeat_call_hits_cache() {
    let mut registry = registry_with_test_clothing_parts();
    let mut builds = 0;
    let first =
        get_or_build_clothing_anchors(&mut registry, HEAD_ID, TORSO_ID, CLOTHING_A_ID, &mut builds)
            .expect("first call should succeed");
    assert_eq!(builds, 2);
    assert_eq!(*first, vec![CLOTHING_A_ID, HEAD_ID, TORSO_ID]);
    let second =
        get_or_build_clothing_anchors(&mut registry, HEAD_ID, TORSO_ID, CLOTHING_A_ID, &mut builds)
            .expect("second call should succeed");
    assert!(
        Arc::ptr_eq(&first, &second),
        "repeat call for the same combination must hit the cache, not rebuild"
    );
    assert_eq!(builds, 2);
}

#[test]
fn clothing_anchor_cache_distinguishes_different_bodies() {
    let mut registry = registry_with_test_clothing_parts();
    let mut builds = 0;
    let anchors_body_1 =
        get_or_build_clothing_anchors(&mut registry, HEAD_ID, TORSO_ID, CLOTHING_A_ID, &mut builds)
            .expect("anchors should build for body 1");
    let anchors_body_2 =
        get_or_build_clothing_anchors(&mut registry, TORSO_ID, HEAD_ID, CLOTHING_A_ID, &mut builds)
            .expect("anchors should build for body 2 (swapped head/torso)");
    let tree_body_1 = get_or_build_skin_tree(&mut registry, HEAD_ID, TORSO_ID)
        .expect("body 1 tree should be cached");
    let tree_body_2 = get_or_build_skin_tree(&mut registry, TORSO_ID, HEAD_ID)
        .expect("body 2 tree should be cached");
    assert!(
        !Arc::ptr_eq(&tree_body_1, &tree_body_2),
        "two distinct (head, torso) keys must not share a cached tree entry"
    );
    assert!(
        !Arc::ptr_eq(&anchors_body_1, &anchors_body_2),
        "two distinct (head, torso) keys must not share a cached anchor entry"
    );
    assert_eq!(builds, 4);
}

#[test]
fn clothing_anchor_cache_unresolvable_ids_error() {
    let registry = registry_with_test_clothing_parts();
    const BOGUS_ID: u32 = u32::MAX;
    assert!(matches!(
        registry.get_or_build_clothing_anchors(BOGUS_ID, TORSO_ID, CLOTHING_A_ID),
        AnchorStep::Failed(ClothingAnchorError::UnknownHeadId(id)) if id == BOGUS_ID
    ));
    assert!(matches!(
        registry.get_or_build_clothing_anchors(HEAD_ID, BOGUS_ID, CLOTHING_A_ID),
        AnchorStep::Failed(ClothingAnchorError::UnknownTorsoId(id)) if id == BOGUS_ID
    ));
    assert!(matches!(
        registry.get_or_build_clothing_anchors(HEAD_ID, TORSO_ID, BOGUS_ID),
        AnchorStep::Failed(ClothingAnchorError::UnknownClothingId(id)) if id == BOGUS_ID
    ));
    // The clothing item comes first, the head before the torso.
    assert!(matches!(
        registry.get_or_build_clothing_anchors(BOGUS_ID, BOGUS_ID, BOGUS_ID),
        AnchorStep::Failed(ClothingAnchorError::UnknownClothingId(_))
    ));
    assert!(matches!(
        registry.get_or_build_skin_tree(BOGUS_ID, BOGUS_ID),
        SkinTreeStep::Failed(ClothingAnchorError::UnknownHeadId(_))
    ));
}

#[test]
fn steps_hand_out_the_right_parts() {
    let mut registry = registry_with_test_clothing_parts();
    match registry.get_or_build_clothing_anchors(HEAD_ID, TORSO_ID, CLOTHING_B_ID) {
        AnchorStep::BuildSkinTree { head, torso } => {
            assert_eq!(head.vertices[0].position[0], HEAD_ID);
            assert_eq!(torso.vertices[0].position[0], TORSO_ID);
        }
        _ => panic!("expected a tree to be built"),
    }
    let tree = Arc::new(vec![1]);
    assert!(registry.record_skin_tree(HEAD_ID, TORSO_ID, SkinTreeBuild::Built(Arc::clone(&tree))).is_ok());
    match registry.get_or_build_clothing_anchors(HEAD_ID, TORSO_ID, CLOTHING_B_ID) {
        AnchorStep::BuildAnchors { clothing, tree: found } => {
            assert_eq!(clothing.vertices[0].position[0], CLOTHING_B_ID);
            assert!(Arc::ptr_eq(&tree, found));
        }
        _ => panic!("expected anchors to be built"),
    }
    assert!(registry.part(HEAD_ID).is_some());
    assert!(registry.part(1).is_none());
}

#[test]
fn failures_are_never_cached() {
    let mut registry = registry_with_test_clothing_parts();
    let e = registry
        .record_skin_tree(HEAD_ID, TORSO_ID, SkinTreeBuild::MergeFailed("too big".to_string()))
        .unwrap_err();
    assert_eq!(e.message(), "failed to merge head/torso parts: too big");
    assert!(matches!(registry.get_or_build_skin_tree(HEAD_ID, TORSO_ID), SkinTreeStep::Build { .. }));
    let e = registry
        .record_skin_tree(HEAD_ID, TORSO_ID, SkinTreeBuild::TreeFailed("empty".to_string()))
        .unwrap_err();
    assert_eq!(e.message(), "clothing deformer failed: empty");
    assert!(matches!(registry.get_or_build_skin_tree(HEAD_ID, TORSO_ID), SkinTreeStep::Build { .. }));

    assert!(get_or_build_skin_tree(&mut registry, HEAD_ID, TORSO_ID).is_ok());
    let e = registry
        .record_clothing_anchors(HEAD_ID, TORSO_ID, CLOTHING_A_ID, Err("no match".to_string()))
        .unwrap_err();
    assert_eq!(e.message(), "clothing deformer failed: no match");
    assert!(matches!(
        registry.get_or_build_clothing_anchors(HEAD_ID, TORSO_ID, CLOTHING_A_ID),
        AnchorStep::BuildAnchors { .. }
    ));
}

#[test]
fn anchor_error_messages() {
    assert_eq!(ClothingAnchorError::UnknownHeadId(0).message(), "no part loaded for head_id 0");
    assert_eq!(ClothingAnchorError::UnknownTorsoId(10).message(), "no part loaded for torso_id 10");
    assert_eq!(
        ClothingAnchorError::UnknownClothingId(4294967295).message(),
        "no part loaded for clothing_id 4294967295"
    );
}

/// Keys that would be one key if ids ran into each other.
#[test]
fn ids_of_all_sizes_make_distinct_keys() {
    let ids = [0u32, 1, 2, 0x10000, 0x8000_0000, u32::MAX];
    let mut parts = HashMap::new();
    for id in ids {
        parts.insert(id, part(id));
    }
    let mut registry: TestRegistry = Registry::new(parts);
    for head in ids {
        for torso in ids {
            let tree = Arc::new(vec![head, torso]);
            assert!(registry.record_skin_tree(head, torso, SkinTreeBuild::Built(tree)).is_ok());
            for clothing in ids {
                let anchors = Arc::new(vec![head, torso, clothing]);
                assert!(registry.record_clothing_anchors(head, torso, clothing, Ok(anchors)).is_ok());
            }
        }
    }
    for head in ids {
        for torso in ids {
            match registry.get_or_build_skin_tree(head, torso) {
                SkinTreeStep::Ready(tree) => assert_eq!(**tree, vec![head, torso]),
                _ => panic!("expected a tree"),
            }
            for clothing in ids {
                match registry.get_or_build_clothing_anchors(head, torso, clothing) {
                    AnchorStep::Ready(anchors) => assert_eq!(**anchors, vec![head, torso, clothing]),
                    _ => panic!("expected anchors"),
                }
            }
        }
    }
}

/// Walks through a prewarming, building whatever is asked for, and fails to
/// find anchors for `broken`. Gives the items that were given up.
fn run(walk: &mut Prewarm, registry: &mut TestRegistry, head: u32, torso: u32, broken: u32) -> Vec<u32> {
    let mut given_up = Vec::new();
    loop {
        match walk.advance(registry) {
            PrewarmStep::Done => return given_up,
            PrewarmStep::Skipped { clothing_id, .. } => given_up.push(clothing_id),
            PrewarmStep::BuildSkinTree { .. } => {
                let tree = Arc::new(vec![head, torso]);
                assert!(walk.tree_built(registry, SkinTreeBuild::Built(tree)).is_none());
            }
            PrewarmStep::BuildAnchors { clothing_id, clothing, tree } => {
                assert_eq!(clothing.vertices[0].position[0], clothing_id);
                assert_eq!(**tree, vec![head, torso]);
                let build = if clothing_id == broken {
                    Err("no match".to_string())
                } else {
                    Ok(Arc::new(vec![clothing_id]))
                };
                if walk.anchors_built(registry, build).is_some() {
                    given_up.push(clothing_id);
                }
            }
        }
    }
}

fn tree_of(head: &PartData, torso: &PartData) -> SkinTreeBuild<Tree> {
    let ids = vec![head.vertices[0].position[0], torso.vertices[0].position[0]];
    SkinTreeBuild::Built(Arc::new(ids))
}

fn anchors_of(clothing: &PartData, tree: &Tree) -> Result<Anchors, String> {
    Ok(Arc::new(vec![clothing.vertices[0].position[0], tree[0], tree[1]]))
}

#[test]
fn prewarm_clothing_anchors_impl_populates_cache() {
    let mut registry = registry_with_test_clothing_parts();
    let ids = vec![CLOTHING_A_ID, CLOTHING_B_ID];
    prewarm_clothing_anchors_impl(&mut registry, HEAD_ID, TORSO_ID, ids, tree_of, anchors_of);

    let cached = match registry.get_or_build_clothing_anchors(HEAD_ID, TORSO_ID, CLOTHING_A_ID) {
        AnchorStep::Ready(anchors) => Arc::clone(anchors),
        _ => panic!("prewarm should have populated the cache for clothing_a"),
    };
    let mut builds = 0;
    let direct =
        get_or_build_clothing_anchors(&mut registry, HEAD_ID, TORSO_ID, CLOTHING_A_ID, &mut builds)
            .expect("direct call after prewarm should succeed");
    assert!(
        Arc::ptr_eq(&cached, &direct),
        "a direct call after prewarming should return the already-cached Arc, not rebuild"
    );
    assert_eq!(builds, 0);
}

#[test]
fn one_bad_item_does_not_keep_the_rest_from_being_prewarmed() {
    let mut registry = registry_with_test_clothing_parts();
    let ids = vec![99, CLOTHING_A_ID, CLOTHING_A_ID, 98, CLOTHING_B_ID];
    let mut walk = Prewarm::new(HEAD_ID, TORSO_ID, ids);
    let given_up = run(&mut walk, &mut registry, HEAD_ID, TORSO_ID, CLOTHING_A_ID);
    assert_eq!(given_up, vec![99, CLOTHING_A_ID, CLOTHING_A_ID, 98]);
    assert!(matches!(
        registry.get_or_build_clothing_anchors(HEAD_ID, TORSO_ID, CLOTHING_B_ID),
        AnchorStep::Ready(_)
    ));
    assert!(matches!(walk.advance(&registry), PrewarmStep::Done));
}

#[test]
fn a_tree_that_fails_is_tried_again_for_the_next_item() {
    let mut registry = registry_with_test_clothing_parts();
    let mut walk = Prewarm::new(HEAD_ID, TORSO_ID, vec![CLOTHING_A_ID, CLOTHING_B_ID]);
    assert!(matches!(
        walk.advance(&registry),
        PrewarmStep::BuildSkinTree { clothing_id: CLOTHING_A_ID, .. }
    ));
    let failure = walk.tree_built(&mut registry, SkinTreeBuild::MergeFailed("x".to_string()));
    assert!(matches!(failure, Some(ClothingAnchorError::MeshMerge(_))));
    assert!(matches!(
        walk.advance(&registry),
        PrewarmStep::BuildSkinTree { clothing_id: CLOTHING_B_ID, .. }
    ));
    let failure = walk.tree_built(&mut registry, SkinTreeBuild::TreeFailed("x".to_string()));
    assert!(matches!(failure, Some(ClothingAnchorError::Deformer(_))));
    assert!(matches!(walk.advance(&registry), PrewarmStep::Done));
}

#[test]
fn an_unknown_body_gives_up_every_item() {
    let mut registry = registry_with_test_clothing_parts();
    let mut walk = Prewarm::new(1, TORSO_ID, vec![CLOTHING_A_ID, CLOTHING_B_ID]);
    match walk.advance(&registry) {
        PrewarmStep::Skipped { clothing_id, error } => {
            assert_eq!(clothing_id, CLOTHING_A_ID);
            assert_eq!(error.message(), "no part loaded for head_id 1");
        }
        other => panic!("expected the item to be skipped, got {other:?}"),
    }
    assert_eq!(run(&mut walk, &mut registry, 1, TORSO_ID, 0), vec![CLOTHING_B_ID]);
}

#[test]
fn prewarm_requests_are_judged() {
    let ask = |ids: Option<Vec<u32>>, count: u32, ready: bool| {
        anthroforge_prewarm_clothing(HEAD_ID, TORSO_ID, ids, count, ready)
    };
    assert!(matches!(ask(None, 0, false), PrewarmRequest::Nothing));
    assert!(matches!(ask(Some(vec![]), 0, true), PrewarmRequest::Nothing));
    assert!(matches!(ask(None, 2, false), PrewarmRequest::NullIds));
    assert!(matches!(ask(Some(vec![1]), 1, false), PrewarmRequest::NotInitialized));
    match ask(Some(vec![CLOTHING_A_ID]), 1, true) {
        PrewarmRequest::Run(mut walk) => {
            let mut registry = registry_with_test_clothing_parts();
            assert!(run(&mut walk, &mut registry, HEAD_ID, TORSO_ID, 0).is_empty());
        }
        _ => panic!("expected a walk"),
    }
}

#[test]
fn a_prewarm_request_covers_the_announced_items() {
    let ids = vec![CLOTHING_A_ID, CLOTHING_B_ID];
    match anthroforge_prewarm_clothing(HEAD_ID, TORSO_ID, Some(ids), 1, true) {
        PrewarmRequest::Run(mut walk) => {
            let mut registry = registry_with_test_clothing_parts();
            assert!(run(&mut walk, &mut registry, HEAD_ID, TORSO_ID, 0).is_empty());
            let step = |id: u32| registry.get_or_build_clothing_anchors(HEAD_ID, TORSO_ID, id);
            assert!(matches!(step(CLOTHING_A_ID), AnchorStep::Ready(_)));
            assert!(matches!(step(CLOTHING_B_ID), AnchorStep::BuildAnchors { .. }));
        }
        _ => panic!("expected a walk"),
    }
}

#[test]
fn a_walk_keeps_what_was_cached_and_adds_only_what_can_be_had() {
    let mut registry = registry_with_test_clothing_parts();
    let mut builds = 0;
    let mut ask = |registry: &mut TestRegistry, head: u32, torso: u32, id: u32| {
        get_or_build_clothing_anchors(registry, head, torso, id, &mut builds).expect("anchors")
    };
    let swapped = ask(&mut registry, TORSO_ID, HEAD_ID, CLOTHING_B_ID);
    let before = ask(&mut registry, HEAD_ID, TORSO_ID, CLOTHING_A_ID);
    let ids = vec![98, CLOTHING_B_ID, CLOTHING_A_ID, HEAD_ID, CLOTHING_B_ID];
    let mut walk = Prewarm::new(HEAD_ID, TORSO_ID, ids);
    let given_up = run(&mut walk, &mut registry, HEAD_ID, TORSO_ID, CLOTHING_B_ID);
    assert_eq!(given_up, vec![98, CLOTHING_B_ID, CLOTHING_B_ID]);
    match registry.get_or_build_clothing_anchors(HEAD_ID, TORSO_ID, CLOTHING_A_ID) {
        AnchorStep::Ready(anchors) => assert!(Arc::ptr_eq(anchors, &before)),
        _ => panic!("expected the anchors from before"),
    }
    match registry.get_or_build_clothing_anchors(HEAD_ID, TORSO_ID, HEAD_ID) {
        AnchorStep::Ready(anchors) => assert_eq!(**anchors, vec![HEAD_ID]),
        _ => panic!("expected the anchors of the walk"),
    }
    assert!(matches!(
        registry.get_or_build_clothing_anchors(HEAD_ID, TORSO_ID, CLOTHING_B_ID),
        AnchorStep::BuildAnchors { .. }
    ));
    match registry.get_or_build_clothing_anchors(TORSO_ID, HEAD_ID, CLOTHING_B_ID) {
        AnchorStep::Ready(anchors) => assert!(Arc::ptr_eq(anchors, &swapped)),
        _ => panic!("expected the anchors of the other body"),
    }
    assert!(matches!(
        registry.get_or_build_clothing_anchors(TORSO_ID, HEAD_ID, CLOTHING_A_ID),
        AnchorStep::BuildAnchors { .. }
    ));
}

#[test]
fn prewarming_passes_over_what_cannot_be_had() {
    let mut registry = registry_with_test_clothing_parts();
    let broken = |clothing: &PartData, tree: &Tree| {
        if clothing.vertices[0].position[0] == CLOTHING_A_ID {
            Err("no match".to_string())
        } else {
            anchors_of(clothing, tree)
        }
    };
    let ids = vec![99, CLOTHING_A_ID, CLOTHING_B_ID];
    prewarm_clothing_anchors_impl(&mut registry, HEAD_ID, TORSO_ID, ids.clone(), tree_of, broken);
    assert!(matches!(
        registry.get_or_build_clothing_anchors(HEAD_ID, TORSO_ID, CLOTHING_A_ID),
        AnchorStep::BuildAnchors { .. }
    ));
    match registry.get_or_build_clothing_anchors(HEAD_ID, TORSO_ID, CLOTHING_B_ID) {
        AnchorStep::Ready(anchors) => assert_eq!(**anchors, vec![CLOTHING_B_ID, HEAD_ID, TORSO_ID]),
        _ => panic!("expected anchors"),
    }

    let mut registry = registry_with_test_clothing_parts();
    let no_tree = |_: &PartData, _: &PartData| SkinTreeBuild::TreeFailed("none".to_string());
    prewarm_clothing_anchors_impl(&mut registry, HEAD_ID, TORSO_ID, ids, no_tree, anchors_of);
    assert!(matches!(
        registry.get_or_build_clothing_anchors(HEAD_ID, TORSO_ID, CLOTHING_B_ID),
        AnchorStep::BuildSkinTree { .. }
    ));
}
