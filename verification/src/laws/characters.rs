//! Generating a character.

use vstd::prelude::*;

use crate::character::{
    after_item, character, dress_step, dressed, dressed_on, equipped_items, known_items,
    merge_list, part_list, start_fault, vertices_made, work_left, worn_only, CharacterDNA, DnaSpec,
    DressSpec, DressingSpec, Workshop,
};
use crate::registry::{
    anchors_for, skin_tree_step, AnchorFault, PartData, PartSpec, RegistrySpec, SkinTreeSpec,
};
use crate::text::decimal;
use crate::vertex::SkinnedVertex;

verus! {

/// What is handed out for the next equipped item belongs to that item: to be
/// fitted, the part with its id and the anchors of that id on the character's
/// own body; to find anchors with, that part and the tree of that body; to build
/// the tree of, the parts with the ids of the character's head and torso.
pub proof fn law_work_is_on_the_item_that_is_equipped<T, A>(r: RegistrySpec<T, A>, s: DressingSpec)
    requires
        0 <= s.next < s.dna.equipped.len(),
    ensures
        ({
            let id = s.dna.equipped[s.next];
            let body = (s.dna.head_id, s.dna.torso_id);
            let item = (s.dna.head_id, s.dna.torso_id, id);
            &&& r.parts.contains_key(id) && r.anchors.contains_key(item) ==> dress_step(r, s) == (
            DressSpec::<T, A>::Fit { clothing_id: id, clothing: r.parts[id], anchors: r.anchors[item] })
            &&& r.parts.contains_key(id) && !r.anchors.contains_key(item)
                && r.skin_trees.contains_key(body) ==> dress_step(r, s) == (DressSpec::<
                T,
                A,
            >::BuildAnchors { clothing_id: id, clothing: r.parts[id], tree: r.skin_trees[body] })
            &&& r.parts.contains_key(id) && !r.anchors.contains_key(item)
                && !r.skin_trees.contains_key(body) && r.parts.contains_key(s.dna.head_id)
                && r.parts.contains_key(s.dna.torso_id) ==> dress_step(r, s) == (DressSpec::<
                T,
                A,
            >::BuildSkinTree {
                clothing_id: id,
                head: r.parts[s.dna.head_id],
                torso: r.parts[s.dna.torso_id],
            })
            &&& !r.parts.contains_key(id) ==> dress_step(r, s) == (DressSpec::<T, A>::Unknown {
                clothing_id: id,
            })
            &&& dress_step(r, s) matches DressSpec::NoAnchors { clothing_id, fault } ==> {
                &&& clothing_id == id
                &&& if r.parts.contains_key(s.dna.head_id) {
                    !r.parts.contains_key(s.dna.torso_id) && fault == AnchorFault::UnknownTorsoId(
                        s.dna.torso_id,
                    )
                } else {
                    fault == AnchorFault::UnknownHeadId(s.dna.head_id)
                }
            }
            &&& !(dress_step(r, s) is Done)
        }),
{
}

/// Nothing is asked for once all items are dealt with.
pub proof fn law_a_dressed_character_asks_for_nothing<T, A>(r: RegistrySpec<T, A>, s: DressingSpec)
    requires
        s.next >= s.dna.equipped.len(),
    ensures
        dress_step(r, s) is Done,
{
}

/// A tree over the skin of a character is built of the very parts, in the very
/// order, that its body is merged of: so what is anchored to the one fits the
/// other.
pub proof fn law_the_tree_is_over_the_body_of_the_character<T, A>(
    r: RegistrySpec<T, A>,
    dna: DnaSpec,
    body: PartSpec,
    next: int,
    fitted: Seq<PartSpec>,
)
    requires
        start_fault(Some(r), Some(dna)) is None,
    ensures
        r.parts.contains_key(dna.head_id),
        r.parts.contains_key(dna.torso_id),
        skin_tree_step(r, dna.head_id, dna.torso_id) matches SkinTreeSpec::Build { head, torso }
            ==> head == r.parts[dna.head_id] && torso == r.parts[dna.torso_id],
        dress_step(r, DressingSpec { dna, body, next, fitted }) matches DressSpec::BuildSkinTree {
            head,
            torso,
            ..
        } ==> head == r.parts[dna.head_id] && torso == r.parts[dna.torso_id],
{
}

/// Dealing with an item passes exactly that item, puts what is worn of it after
/// all that is worn already, and changes nothing else.
pub proof fn law_what_is_worn_comes_last(s: DressingSpec, item: PartSpec, i: int)
    ensures
        after_item(s, Some(item)).next == s.next + 1,
        after_item(s, None).next == s.next + 1,
        after_item(s, Some(item)).dna == s.dna,
        after_item(s, None).dna == s.dna,
        after_item(s, Some(item)).body == s.body,
        after_item(s, None).body == s.body,
        after_item(s, None).fitted == s.fitted,
        after_item(s, Some(item)).fitted.len() == s.fitted.len() + 1,
        after_item(s, Some(item)).fitted[s.fitted.len() as int] == item,
        0 <= i < s.fitted.len() ==> after_item(s, Some(item)).fitted[i] == s.fitted[i],
{
}

/// What is merged in the end is the body first, and then each worn item.
pub proof fn law_the_body_is_merged_first(s: DressingSpec, i: int)
    ensures
        merge_list(s).len() == s.fitted.len() + 1,
        merge_list(s)[0] == s.body,
        0 <= i < s.fitted.len() ==> merge_list(s)[i + 1] == s.fitted[i],
{
}

/// Of outcomes one after the other, those are worn that came to something, in
/// order.
pub proof fn law_worn_items_keep_their_order(
    worn: Seq<Option<PartSpec>>,
    item: PartSpec,
)
    ensures
        worn_only(Seq::<Option<PartSpec>>::empty()).len() == 0,
        worn_only(worn.push(None)) == worn_only(worn),
        worn_only(worn.push(Some(item))) == worn_only(worn).push(item),
{
    assert(worn.push(None).drop_last() == worn);
    assert(worn.push(Some(item)).drop_last() == worn);
}

/// A character wears the first items of its list, as many as announced, in
/// order. Without a list it wears none.
pub proof fn law_the_first_items_of_the_list_are_worn(ids: Vec<u32>, count: u32, i: int)
    ensures
        equipped_items(None, count).len() == 0,
        equipped_items(Some(ids), count).len() == (if count <= ids@.len() {
            count as nat
        } else {
            ids@.len()
        }),
        0 <= i < ids@.len() && i < count ==> equipped_items(Some(ids), count)[i] == ids@[i],
{
}

/// A DNA is what it holds.
pub proof fn law_a_dna_is_what_it_holds(dna: CharacterDNA)
    ensures
        dna@.seed == dna.seed,
        dna@.height_modifier == dna.height_modifier,
        dna@.weight_modifier == dna.weight_modifier,
        dna@.head_id == dna.head_id,
        dna@.torso_id == dna.torso_id,
        dna@.equipped == equipped_items(dna.equipped_clothing_ids, dna.equipped_clothing_count),
{
}

/// A list of parts is taken part by part.
pub proof fn law_parts_are_taken_one_by_one(parts: Seq<PartData>, i: int)
    ensures
        part_list(parts).len() == parts.len(),
        0 <= i < parts.len() ==> part_list(parts)[i].vertices == parts[i].vertices@
            && part_list(parts)[i].indices == parts[i].indices@,
{
}

/// A character can be begun if there is a DNA and a registry, and the registry
/// has the parts with the ids of its head and its torso. If not, the message
/// tells the first of these that is missing, with the id that the DNA gives.
pub proof fn law_a_character_needs_its_head_and_torso<T, A>(
    registry: Option<RegistrySpec<T, A>>,
    dna: Option<DnaSpec>,
)
    ensures
        start_fault(registry, dna) is None <==> dna is Some && registry is Some
            && registry->0.parts.contains_key(dna->0.head_id) && registry->0.parts.contains_key(
            dna->0.torso_id,
        ),
        dna is None ==> start_fault(registry, dna) == Some(
            "generate_character: dna pointer was null"@,
        ),
        dna is Some && registry is None ==> start_fault(registry, dna) == Some(
            "generate_character: called before init_part_registry succeeded; the part registry is not initialized"@,
        ),
        dna is Some && registry is Some && !registry->0.parts.contains_key(dna->0.head_id)
            ==> start_fault(registry, dna) == Some(
            "generate_character: no part loaded for head_id "@ + decimal(dna->0.head_id as nat),
        ),
        dna is Some && registry is Some && registry->0.parts.contains_key(dna->0.head_id)
            && !registry->0.parts.contains_key(dna->0.torso_id) ==> start_fault(registry, dna)
            == Some(
            "generate_character: no part loaded for torso_id "@ + decimal(dna->0.torso_id as nat),
        ),
{
}

/// What comes of an equipped id: the part with that id, fitted to the shaped
/// skin with the anchors that can be had for that id on the character's body,
/// and with the indices of that part. Nothing, if there is no such part, no
/// anchors, or no fit.
pub open spec fn worn_of_id<T, A>(
    r: RegistrySpec<T, A>,
    dna: DnaSpec,
    body: PartSpec,
    id: u32,
    shop: Workshop<T, A>,
) -> Option<PartSpec> {
    if !r.parts.contains_key(id) {
        None
    } else {
        match anchors_for(r, dna.head_id, dna.torso_id, id, shop.builders) {
            None => None,
            Some(anchors) => match (shop.fit)(
                body.vertices,
                r.parts[id],
                anchors,
                dna.height_modifier,
                dna.weight_modifier,
            ) {
                None => None,
                Some(vertices) => Some(PartSpec { vertices, indices: r.parts[id].indices }),
            },
        }
    }
}

/// What comes of the equipped ids from position `from` on, in their order.
pub open spec fn worn_of_list<T, A>(
    r: RegistrySpec<T, A>,
    dna: DnaSpec,
    body: PartSpec,
    from: int,
    shop: Workshop<T, A>,
) -> Seq<PartSpec>
    decreases dna.equipped.len() - from,
{
    if 0 <= from < dna.equipped.len() {
        let rest = worn_of_list(r, dna, body, from + 1, shop);
        match worn_of_id(r, dna, body, dna.equipped[from], shop) {
            Some(item) => seq![item] + rest,
            None => rest,
        }
    } else {
        seq![]
    }
}

/// Registries from which the same anchors can be had dress a character alike.
proof fn lemma_same_anchors_same_clothes<T, A>(
    r: RegistrySpec<T, A>,
    grown: RegistrySpec<T, A>,
    dna: DnaSpec,
    body: PartSpec,
    from: int,
    shop: Workshop<T, A>,
)
    requires
        grown.parts == r.parts,
        forall|id: u32|
            #[trigger] anchors_for(grown, dna.head_id, dna.torso_id, id, shop.builders)
                == anchors_for(r, dna.head_id, dna.torso_id, id, shop.builders),
    ensures
        worn_of_list(grown, dna, body, from, shop) == worn_of_list(r, dna, body, from, shop),
    decreases dna.equipped.len() - from,
{
    if 0 <= from < dna.equipped.len() {
        lemma_same_anchors_same_clothes(r, grown, dna, body, from + 1, shop);
        assert(anchors_for(
            grown,
            dna.head_id,
            dna.torso_id,
            dna.equipped[from],
            shop.builders,
        ) == anchors_for(r, dna.head_id, dna.torso_id, dna.equipped[from], shop.builders));
    }
}

/// A finished dressing wears, after what was worn before, exactly what comes of
/// each equipped id, in the order of the list: the part with that id, fitted
/// with the anchors of that id on this body, with its own indices.
pub proof fn law_each_worn_item_is_the_part_that_is_equipped<T, A>(
    r: RegistrySpec<T, A>,
    s: DressingSpec,
    shop: Workshop<T, A>,
)
    requires
        0 <= s.next <= s.dna.equipped.len(),
    ensures
        dressed(r, s, shop).1.fitted == s.fitted + worn_of_list(r, s.dna, s.body, s.next, shop),
    decreases work_left(r, s),
{
    if s.next < s.dna.equipped.len() {
        let (grown, further) = dressed_on(r, s, shop);
        assert forall|id: u32| #[trigger]
            anchors_for(grown, s.dna.head_id, s.dna.torso_id, id, shop.builders) == anchors_for(
            r,
            s.dna.head_id,
            s.dna.torso_id,
            id,
            shop.builders,
        ) by {}
        lemma_same_anchors_same_clothes(r, grown, s.dna, s.body, further.next, shop);
        law_each_worn_item_is_the_part_that_is_equipped(grown, further, shop);
        let rest = worn_of_list(r, s.dna, s.body, s.next + 1, shop);
        if further.next == s.next + 1 {
            if let Some(item) = worn_of_id(r, s.dna, s.body, s.dna.equipped[s.next], shop) {
                assert(further.fitted == s.fitted.push(item));
                assert(s.fitted.push(item) + rest == s.fitted + (seq![item] + rest));
            }
        }
    } else {
        assert(s.fitted + Seq::<PartSpec>::empty() == s.fitted);
    }
}

/// The character of a DNA is the merge of its body and its clothes: the body is
/// the merge of the part with the head's id and the part with the torso's, in
/// this order, with its vertices shaped and its indices kept; the clothes are
/// what comes of each equipped id. There is none if the head or the torso is
/// not loaded, or if merging or shaping fails.
pub proof fn law_a_character_is_its_body_and_its_clothes<T, A>(
    r: RegistrySpec<T, A>,
    dna: DnaSpec,
    shop: Workshop<T, A>,
)
    ensures
        !r.parts.contains_key(dna.head_id) || !r.parts.contains_key(dna.torso_id) ==> character(
            r,
            dna,
            shop,
        ) is None,
        r.parts.contains_key(dna.head_id) && r.parts.contains_key(dna.torso_id) ==> {
            let merged = (shop.merge)(seq![r.parts[dna.head_id], r.parts[dna.torso_id]]);
            &&& merged is None ==> character(r, dna, shop) is None
            &&& merged matches Some(skin) ==> {
                let shaped = (shop.shape)(skin.vertices, dna.height_modifier, dna.weight_modifier);
                &&& shaped is None ==> character(r, dna, shop) is None
                &&& shaped matches Some(vertices) ==> {
                    let body = PartSpec { vertices, indices: skin.indices };
                    character(r, dna, shop) == (shop.merge)(
                        seq![body] + worn_of_list(r, dna, body, 0, shop),
                    )
                }
            }
        },
{
    if r.parts.contains_key(dna.head_id) && r.parts.contains_key(dna.torso_id) {
        if let Some(skin) = (shop.merge)(seq![r.parts[dna.head_id], r.parts[dna.torso_id]]) {
            if let Some(vertices) = (shop.shape)(
                skin.vertices,
                dna.height_modifier,
                dna.weight_modifier,
            ) {
                let body = PartSpec { vertices, indices: skin.indices };
                let s = DressingSpec { dna, body, next: 0, fitted: seq![] };
                law_each_worn_item_is_the_part_that_is_equipped(r, s, shop);
                crate::character::law_dressing_deals_with_every_item(r, s, shop);
                let worn = worn_of_list(r, dna, body, 0, shop);
                assert(s.fitted + worn == worn);
                assert(merge_list(dressed(r, s, shop).1) == seq![body] + worn);
            }
        }
    }
}

/// The ids that name loaded parts are those of the list that do, in order, and
/// no others.
pub proof fn law_known_items_are_the_loaded_ones(
    parts: Map<u32, PartSpec>,
    ids: Seq<u32>,
    from: int,
    id: u32,
)
    requires
        0 <= from <= ids.len(),
    ensures
        known_items(parts, ids, from).contains(id) <==> parts.contains_key(id) && exists|i: int|
            from <= i < ids.len() && #[trigger] ids[i] == id,
        known_items(parts, ids, from).len() <= ids.len() - from,
        from < ids.len() && parts.contains_key(ids[from]) ==> known_items(parts, ids, from)
            == seq![ids[from]] + known_items(parts, ids, from + 1),
    decreases ids.len() - from,
{
    if from < ids.len() {
        law_known_items_are_the_loaded_ones(parts, ids, from + 1, id);
        let rest = known_items(parts, ids, from + 1);
        if parts.contains_key(ids[from]) {
            let all = seq![ids[from]] + rest;
            if rest.contains(id) {
                let k = choose|k: int| 0 <= k < rest.len() && rest[k] == id;
                assert(all[k + 1] == id);
            }
            if ids[from] == id {
                assert(all[0] == id);
            }
            if all.contains(id) && ids[from] != id {
                let k = choose|k: int| 0 <= k < all.len() && all[k] == id;
                assert(rest[k - 1] == id);
            }
        }
    }
}

/// What comes of shaping or fitting is all the vertices that were made, in their
/// order, and nothing if that failed.
pub proof fn law_all_vertices_that_were_made_count(
    outcome: Result<Vec<SkinnedVertex>, String>,
    i: int,
)
    ensures
        vertices_made(outcome) is Some <==> outcome is Ok,
        outcome matches Ok(vertices) ==> vertices_made(outcome)->0.len() == vertices@.len() && (0
            <= i < vertices@.len() ==> vertices_made(outcome)->0[i] == vertices@[i]),
{
}

} // verus!
