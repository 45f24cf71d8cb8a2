//! The parts of a registry, its two caches, and prewarming them.

use vstd::prelude::*;

use crate::prewarm::{
    announced, asks_for_tree, item_step, moved_to, prewarmed, worked_on, PrewarmSpec,
};
use crate::registry::{
    anchor_step, anchors_for, body_loaded, fresh_registry, parts_of, skin_tree_step, tree_for,
    tree_made, with_anchors, with_skin_tree, AnchorFault, AnchorSpec, Builders,
    ClothingAnchorError, PartData, PartSpec, RegistrySpec, SkinTreeBuild, SkinTreeSpec,
    SKIN_KDTREE_DECIMATION_STRIDE,
};

verus! {

/// A part is its vertices and its indices, all of them.
pub proof fn law_a_part_is_its_vertices_and_indices(part: PartData)
    ensures
        part@.vertices == part.vertices@,
        part@.indices == part.indices@,
{
}

/// A table of parts holds, under each id, the part with that id.
pub proof fn law_a_table_holds_each_part_under_its_id(parts: Map<u32, PartData>, id: u32)
    ensures
        parts_of(parts).contains_key(id) == parts.contains_key(id),
        parts.contains_key(id) ==> parts_of(parts)[id].vertices == parts[id].vertices@
            && parts_of(parts)[id].indices == parts[id].indices@,
{
}

/// A registry starts with its parts and with empty caches.
pub proof fn law_a_registry_starts_empty<T, A>(
    parts: Map<u32, PartSpec>,
    head_id: u32,
    torso_id: u32,
    clothing_id: u32,
)
    ensures
        fresh_registry::<T, A>(parts).parts == parts,
        !fresh_registry::<T, A>(parts).skin_trees.contains_key((head_id, torso_id)),
        !fresh_registry::<T, A>(parts).anchors.contains_key((head_id, torso_id, clothing_id)),
{
}

/// A tree that has to be built for a body is built of the part with the head's
/// id, as head, and of the part with the torso's id, as torso, whichever id is
/// larger. A cached tree is handed out as it is. A body with a part that is not
/// loaded is refused by the id of that part, the head's first.
pub proof fn law_a_tree_is_built_of_head_and_torso<T, A>(
    r: RegistrySpec<T, A>,
    head_id: u32,
    torso_id: u32,
)
    ensures
        skin_tree_step(r, head_id, torso_id) matches SkinTreeSpec::Build { head, torso } ==> {
            &&& r.parts.contains_key(head_id)
            &&& r.parts.contains_key(torso_id)
            &&& head == r.parts[head_id]
            &&& torso == r.parts[torso_id]
            &&& !r.skin_trees.contains_key((head_id, torso_id))
        },
        skin_tree_step(r, head_id, torso_id) is Ready <==> r.skin_trees.contains_key(
            (head_id, torso_id),
        ),
        skin_tree_step(r, head_id, torso_id) matches SkinTreeSpec::Ready(tree) ==> tree
            == r.skin_trees[(head_id, torso_id)],
        !r.skin_trees.contains_key((head_id, torso_id)) && r.parts.contains_key(head_id)
            && r.parts.contains_key(torso_id) ==> skin_tree_step(r, head_id, torso_id) is Build,
        skin_tree_step(r, head_id, torso_id) matches SkinTreeSpec::Failed(fault) ==> if r.parts.contains_key(
            head_id,
        ) {
            fault == AnchorFault::UnknownTorsoId(torso_id) && !r.parts.contains_key(torso_id)
        } else {
            fault == AnchorFault::UnknownHeadId(head_id)
        },
{
}

/// Swapping head and torso swaps the parts that a tree is built of.
pub proof fn law_swapping_the_ids_swaps_the_parts<T, A>(
    r: RegistrySpec<T, A>,
    head_id: u32,
    torso_id: u32,
)
    requires
        skin_tree_step(r, head_id, torso_id) is Build,
        skin_tree_step(r, torso_id, head_id) is Build,
    ensures
        skin_tree_step(r, head_id, torso_id)->head == skin_tree_step(r, torso_id, head_id)->torso,
        skin_tree_step(r, head_id, torso_id)->torso == skin_tree_step(r, torso_id, head_id)->head,
        skin_tree_step(r, head_id, torso_id)->head == r.parts[head_id],
{
}

/// Anchors are those cached for exactly this head, torso and item. Where there
/// are none, they are to be found for the part with the item's id, with the
/// tree cached for exactly this body; and where there is no tree either, it is
/// to be built of the part with the head's id and the part with the torso's.
/// An item that is not loaded is refused by its id, before the body is looked
/// at.
pub proof fn law_anchors_are_found_for_the_item_on_the_body<T, A>(
    r: RegistrySpec<T, A>,
    head_id: u32,
    torso_id: u32,
    clothing_id: u32,
)
    ensures
        anchor_step(r, head_id, torso_id, clothing_id) is Ready <==> r.anchors.contains_key(
            (head_id, torso_id, clothing_id),
        ),
        anchor_step(r, head_id, torso_id, clothing_id) matches AnchorSpec::Ready(anchors)
            ==> anchors == r.anchors[(head_id, torso_id, clothing_id)],
        anchor_step(r, head_id, torso_id, clothing_id) matches AnchorSpec::BuildAnchors {
            clothing,
            tree,
        } ==> {
            &&& r.parts.contains_key(clothing_id)
            &&& clothing == r.parts[clothing_id]
            &&& r.skin_trees.contains_key((head_id, torso_id))
            &&& tree == r.skin_trees[(head_id, torso_id)]
        },
        anchor_step(r, head_id, torso_id, clothing_id) matches AnchorSpec::BuildSkinTree {
            head,
            torso,
        } ==> {
            &&& r.parts.contains_key(clothing_id)
            &&& r.parts.contains_key(head_id)
            &&& r.parts.contains_key(torso_id)
            &&& head == r.parts[head_id]
            &&& torso == r.parts[torso_id]
            &&& !r.skin_trees.contains_key((head_id, torso_id))
        },
        !r.anchors.contains_key((head_id, torso_id, clothing_id)) && r.parts.contains_key(
            clothing_id,
        ) && r.skin_trees.contains_key((head_id, torso_id)) ==> anchor_step(
            r,
            head_id,
            torso_id,
            clothing_id,
        ) is BuildAnchors,
        !r.anchors.contains_key((head_id, torso_id, clothing_id)) && r.parts.contains_key(
            clothing_id,
        ) && r.parts.contains_key(head_id) && r.parts.contains_key(torso_id)
            && !r.skin_trees.contains_key((head_id, torso_id)) ==> anchor_step(
            r,
            head_id,
            torso_id,
            clothing_id,
        ) is BuildSkinTree,
        anchor_step(r, head_id, torso_id, clothing_id) matches AnchorSpec::Failed(fault) ==> {
            if !r.parts.contains_key(clothing_id) {
                fault == AnchorFault::UnknownClothingId(clothing_id)
            } else if !r.parts.contains_key(head_id) {
                fault == AnchorFault::UnknownHeadId(head_id)
            } else {
                !r.parts.contains_key(torso_id) && fault == AnchorFault::UnknownTorsoId(torso_id)
            }
        },
{
}

/// Recording a tree adds this tree for this body and changes nothing else.
pub proof fn law_recording_a_tree_adds_just_that<T, A>(
    r: RegistrySpec<T, A>,
    head_id: u32,
    torso_id: u32,
    tree: T,
    body: (u32, u32),
)
    ensures
        ({
            let after = with_skin_tree(r, head_id, torso_id, tree);
            &&& after.parts == r.parts
            &&& after.anchors == r.anchors
            &&& after.skin_trees.contains_key((head_id, torso_id))
            &&& after.skin_trees[(head_id, torso_id)] == tree
            &&& body != (head_id, torso_id) ==> after.skin_trees.contains_key(body)
                == r.skin_trees.contains_key(body) && after.skin_trees[body] == r.skin_trees[body]
        }),
{
}

/// Recording anchors adds these for this item on this body and changes nothing
/// else.
pub proof fn law_recording_anchors_adds_just_that<T, A>(
    r: RegistrySpec<T, A>,
    head_id: u32,
    torso_id: u32,
    clothing_id: u32,
    anchors: A,
    item: (u32, u32, u32),
)
    ensures
        ({
            let after = with_anchors(r, head_id, torso_id, clothing_id, anchors);
            &&& after.parts == r.parts
            &&& after.skin_trees == r.skin_trees
            &&& after.anchors.contains_key((head_id, torso_id, clothing_id))
            &&& after.anchors[(head_id, torso_id, clothing_id)] == anchors
            &&& item != (head_id, torso_id, clothing_id) ==> after.anchors.contains_key(item)
                == r.anchors.contains_key(item) && after.anchors[item] == r.anchors[item]
        }),
{
}

/// A body is loaded if both its parts are.
pub proof fn law_a_body_is_its_two_parts<T, A>(r: RegistrySpec<T, A>, head_id: u32, torso_id: u32)
    ensures
        body_loaded(r, head_id, torso_id) <==> r.parts.contains_key(head_id)
            && r.parts.contains_key(torso_id),
{
}

/// What an error says is what it was made with.
pub proof fn law_an_anchor_error_says_what_it_holds(error: ClothingAnchorError)
    ensures
        error matches ClothingAnchorError::UnknownHeadId(id) ==> error@
            == AnchorFault::UnknownHeadId(id),
        error matches ClothingAnchorError::UnknownTorsoId(id) ==> error@
            == AnchorFault::UnknownTorsoId(id),
        error matches ClothingAnchorError::UnknownClothingId(id) ==> error@
            == AnchorFault::UnknownClothingId(id),
        error matches ClothingAnchorError::MeshMerge(e) ==> error@ == AnchorFault::MeshMerge(e@),
        error matches ClothingAnchorError::Deformer(e) ==> error@ == AnchorFault::Deformer(e@),
{
}

/// Every fourth vertex of a skin goes into its tree.
pub proof fn law_a_tree_takes_every_fourth_vertex(n: int)
    requires
        n >= 0,
    ensures
        n / (SKIN_KDTREE_DECIMATION_STRIDE as int) == n / 4,
{
}

/// The tree that can be had for a body is the cached one, or else what the
/// builder makes of the part with the head's id and the part with the torso's.
/// The anchors that can be had for an item are the cached ones, or else what
/// the builder finds for the part with the item's id with that tree.
pub proof fn law_what_can_be_had_comes_from_the_parts_named<T, A>(
    r: RegistrySpec<T, A>,
    head_id: u32,
    torso_id: u32,
    clothing_id: u32,
    builders: Builders<T, A>,
)
    ensures
        r.skin_trees.contains_key((head_id, torso_id)) ==> tree_for(r, head_id, torso_id, builders)
            == Some(r.skin_trees[(head_id, torso_id)]),
        !r.skin_trees.contains_key((head_id, torso_id)) && r.parts.contains_key(head_id)
            && r.parts.contains_key(torso_id) ==> tree_for(r, head_id, torso_id, builders) == (
        builders.tree)(r.parts[head_id], r.parts[torso_id]),
        !r.skin_trees.contains_key((head_id, torso_id)) && !(r.parts.contains_key(head_id)
            && r.parts.contains_key(torso_id)) ==> tree_for(r, head_id, torso_id, builders) is None,
        r.anchors.contains_key((head_id, torso_id, clothing_id)) ==> anchors_for(
            r,
            head_id,
            torso_id,
            clothing_id,
            builders,
        ) == Some(r.anchors[(head_id, torso_id, clothing_id)]),
        !r.anchors.contains_key((head_id, torso_id, clothing_id)) && r.parts.contains_key(
            clothing_id,
        ) && tree_for(r, head_id, torso_id, builders) is Some ==> anchors_for(
            r,
            head_id,
            torso_id,
            clothing_id,
            builders,
        ) == (builders.anchors)(
            r.parts[clothing_id],
            tree_for(r, head_id, torso_id, builders)->0,
        ),
        !r.anchors.contains_key((head_id, torso_id, clothing_id)) && (!r.parts.contains_key(
            clothing_id,
        ) || tree_for(r, head_id, torso_id, builders) is None) ==> anchors_for(
            r,
            head_id,
            torso_id,
            clothing_id,
            builders,
        ) is None,
{
}

/// An item of a walk is the one with its id, on the body of the walk: it is
/// ready if anchors are cached for that head, torso and id, and what has to be
/// built for it is built of the parts with these ids.
pub proof fn law_a_walk_asks_for_its_items_on_its_body<T, A>(
    r: RegistrySpec<T, A>,
    walk: PrewarmSpec,
    i: int,
)
    ensures
        ({
            let id = walk.clothing_ids[i];
            let step = item_step(r, walk, i);
            &&& step is Ready <==> r.anchors.contains_key((walk.head_id, walk.torso_id, id))
            &&& step matches AnchorSpec::Ready(anchors) ==> anchors == r.anchors[(
                walk.head_id,
                walk.torso_id,
                id,
            )]
            &&& step matches AnchorSpec::BuildAnchors { clothing, tree } ==> clothing == r.parts[id]
                && tree == r.skin_trees[(walk.head_id, walk.torso_id)]
            &&& step matches AnchorSpec::BuildSkinTree { head, torso } ==> head
                == r.parts[walk.head_id] && torso == r.parts[walk.torso_id]
            &&& step is Failed ==> !r.parts.contains_key(id) || !r.parts.contains_key(walk.head_id)
                || !r.parts.contains_key(walk.torso_id)
            &&& !r.parts.contains_key(id) && !(step is Ready) ==> step is Failed
        }),
{
}

/// A walk that goes on keeps its body and its items, whatever position it has
/// come to.
pub proof fn law_a_walk_keeps_its_items(walk: PrewarmSpec, next: int)
    ensures
        moved_to(walk, next).next == next,
        moved_to(walk, next).head_id == walk.head_id,
        moved_to(walk, next).torso_id == walk.torso_id,
        moved_to(walk, next).clothing_ids == walk.clothing_ids,
{
}

/// A whole walk leaves exactly these anchors: those cached before, with their
/// values, and for every id of the walk those that can be had for the part with
/// that id on the body of the walk.
pub proof fn law_a_walk_leaves_the_anchors_of_its_items<T, A>(
    r: RegistrySpec<T, A>,
    walk: PrewarmSpec,
    builders: Builders<T, A>,
    i: int,
    item: (u32, u32, u32),
)
    requires
        walk.next == 0,
        0 <= i < walk.clothing_ids.len(),
    ensures
        ({
            let after = prewarmed(r, walk, builders);
            let key = (walk.head_id, walk.torso_id, walk.clothing_ids[i]);
            let had = anchors_for(
                r,
                walk.head_id,
                walk.torso_id,
                walk.clothing_ids[i],
                builders,
            );
            &&& after.parts == r.parts
            &&& after.anchors.contains_key(key) <==> had is Some
            &&& had matches Some(anchors) ==> after.anchors[key] == anchors
            &&& r.anchors.contains_key(item) ==> after.anchors.contains_key(item)
                && after.anchors[item] == r.anchors[item]
            &&& after.anchors.contains_key(item) && !r.anchors.contains_key(item) ==> item.0
                == walk.head_id && item.1 == walk.torso_id && walk.clothing_ids.contains(item.2)
        }),
{
    crate::prewarm::law_a_walk_caches_what_can_be_had(r, walk, builders);
    let after = prewarmed(r, walk, builders);
    assert(crate::prewarm::ended_up(r, after, walk, i, builders));
    if after.anchors.contains_key(item) && !r.anchors.contains_key(item) {
        assert(crate::prewarm::is_ahead(walk, item.2));
    }
}

/// Working on one item never goes back, and never passes more than that item.
pub proof fn law_work_goes_on_item_by_item<T, A>(
    r: RegistrySpec<T, A>,
    walk: PrewarmSpec,
    builders: Builders<T, A>,
)
    ensures
        ({
            let (grown, moved) = worked_on(r, walk, builders);
            &&& moved.clothing_ids == walk.clothing_ids
            &&& moved.head_id == walk.head_id
            &&& moved.torso_id == walk.torso_id
            &&& grown.parts == r.parts
            &&& moved.next == walk.next + 1 || (moved.next == walk.next && asks_for_tree(r, walk)
                == 1 && asks_for_tree(grown, moved) == 0)
        }),
{
}

/// The ids that count are the first ones of the list, as many as were
/// announced, or all if there are fewer.
pub proof fn law_the_first_ids_count(ids: Seq<u32>, count: u32, i: int)
    ensures
        announced(ids, count).len() == (if count <= ids.len() {
            count as nat
        } else {
            ids.len()
        }),
        0 <= i < ids.len() && i < count ==> announced(ids, count)[i] == ids[i],
{
}

/// A tree comes of building one if it was built, and that tree; nothing comes of
/// a merge or a build that failed.
pub proof fn law_a_tree_comes_of_a_build_that_succeeds<T>(build: SkinTreeBuild<T>, tree: T)
    ensures
        tree_made(build) == Some(tree) <==> build == SkinTreeBuild::Built(tree),
        tree_made(build) is None <==> build is MergeFailed || build is TreeFailed,
{
}

} // verus!
