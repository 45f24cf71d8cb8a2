//! The registry of loaded parts, and what is cached for fitting clothing.
//!
//! Clothing is fitted to a body through anchors. Anchors are found with a
//! search tree over the skin of the body, and both are costly. So the registry
//! keeps two tiers: one tree per body, that is per head and torso, which all
//! clothing items for that body share, and one set of anchors per body and
//! clothing item. Merging meshes, building trees and finding anchors is done
//! outside; the registry says what has to be done next and keeps what came of
//! it. What trees and anchors are does not matter here: they are `T` and `A`.

use std::collections::HashMap;

use vstd::prelude::*;

use crate::text::{decimal, push_decimal};
use crate::vertex::SkinnedVertex;

verus! {

broadcast use vstd::std_specs::hash::group_hash_axioms;

/// A skin tree is built from every so many-th vertex of the body. With 1 it
/// would be exact; more makes it faster to build and anchors coarser.
pub const SKIN_KDTREE_DECIMATION_STRIDE: usize = 4;

/// A part, aligned with the master skeleton.
#[derive(Debug)]
pub struct PartData {
    pub vertices: Vec<SkinnedVertex>,
    pub indices: Vec<u32>,
}

/// A [`PartData`] over mathematical sequences.
pub struct PartSpec {
    pub vertices: Seq<SkinnedVertex>,
    pub indices: Seq<u32>,
}

impl View for PartData {
    type V = PartSpec;

    open spec fn view(&self) -> PartSpec {
        PartSpec { vertices: self.vertices@, indices: self.indices@ }
    }
}

/// Why there are no anchors for a clothing item on a body.
#[derive(Debug)]
pub enum ClothingAnchorError {
    /// The head is not a loaded part.
    UnknownHeadId(u32),
    /// The torso is not a loaded part.
    UnknownTorsoId(u32),
    /// The clothing item is not a loaded part.
    UnknownClothingId(u32),
    /// Head and torso could not be merged.
    MeshMerge(String),
    /// The skin tree could not be built, or the anchors not be found.
    Deformer(String),
}

/// What a [`ClothingAnchorError`] says, over mathematical text.
pub enum AnchorFault {
    UnknownHeadId(u32),
    UnknownTorsoId(u32),
    UnknownClothingId(u32),
    MeshMerge(Seq<char>),
    Deformer(Seq<char>),
}

impl View for ClothingAnchorError {
    type V = AnchorFault;

    open spec fn view(&self) -> AnchorFault {
        match *self {
            ClothingAnchorError::UnknownHeadId(id) => AnchorFault::UnknownHeadId(id),
            ClothingAnchorError::UnknownTorsoId(id) => AnchorFault::UnknownTorsoId(id),
            ClothingAnchorError::UnknownClothingId(id) => AnchorFault::UnknownClothingId(id),
            ClothingAnchorError::MeshMerge(e) => AnchorFault::MeshMerge(e@),
            ClothingAnchorError::Deformer(e) => AnchorFault::Deformer(e@),
        }
    }
}

/// The message of an error.
pub open spec fn anchor_message(fault: AnchorFault) -> Seq<char> {
    match fault {
        AnchorFault::UnknownHeadId(id) => "no part loaded for head_id "@ + decimal(id as nat),
        AnchorFault::UnknownTorsoId(id) => "no part loaded for torso_id "@ + decimal(id as nat),
        AnchorFault::UnknownClothingId(id) => "no part loaded for clothing_id "@ + decimal(
            id as nat,
        ),
        AnchorFault::MeshMerge(e) => "failed to merge head/torso parts: "@ + e,
        AnchorFault::Deformer(e) => "clothing deformer failed: "@ + e,
    }
}

impl ClothingAnchorError {
    /// The message to show to a person.
    pub fn message(&self) -> (text: String)
        ensures
            text@ == anchor_message(self@),
    {
        let mut out = String::new();
        match self {
            ClothingAnchorError::UnknownHeadId(id) => {
                out.append("no part loaded for head_id ");
                push_decimal(&mut out, *id as u64);
            },
            ClothingAnchorError::UnknownTorsoId(id) => {
                out.append("no part loaded for torso_id ");
                push_decimal(&mut out, *id as u64);
            },
            ClothingAnchorError::UnknownClothingId(id) => {
                out.append("no part loaded for clothing_id ");
                push_decimal(&mut out, *id as u64);
            },
            ClothingAnchorError::MeshMerge(e) => {
                out.append("failed to merge head/torso parts: ");
                out.append(e.as_str());
            },
            ClothingAnchorError::Deformer(e) => {
                out.append("clothing deformer failed: ");
                out.append(e.as_str());
            },
        }
        out
    }
}

/// The number under which a body is filed.
spec fn body_key_spec(head_id: u32, torso_id: u32) -> u64 {
    (head_id * 0x1_0000_0000 + torso_id) as u64
}

/// The number under which a clothing item on a body is filed.
spec fn anchor_key_spec(head_id: u32, torso_id: u32, clothing_id: u32) -> u128 {
    (head_id * 0x1_0000_0000_0000_0000 + torso_id * 0x1_0000_0000 + clothing_id) as u128
}

/// The number under which a body is filed.
fn body_key(head_id: u32, torso_id: u32) -> (key: u64)
    ensures
        key == body_key_spec(head_id, torso_id),
{
    head_id as u64 * 0x1_0000_0000 + torso_id as u64
}

/// The number under which a clothing item on a body is filed.
fn anchor_key(head_id: u32, torso_id: u32, clothing_id: u32) -> (key: u128)
    ensures
        key == anchor_key_spec(head_id, torso_id, clothing_id),
{
    head_id as u128 * 0x1_0000_0000_0000_0000 + torso_id as u128 * 0x1_0000_0000
        + clothing_id as u128
}

/// The parts by id, and the two caches.
pub struct Registry<T, A> {
    parts: HashMap<u32, PartData>,
    skin_tree_cache: HashMap<u64, T>,
    clothing_anchor_cache: HashMap<u128, A>,
}

/// What a registry holds: parts by id, skin trees by head and torso, anchors
/// by head, torso and clothing item.
#[verifier::reject_recursive_types(T)]
#[verifier::reject_recursive_types(A)]
pub struct RegistrySpec<T, A> {
    pub parts: Map<u32, PartSpec>,
    pub skin_trees: Map<(u32, u32), T>,
    pub anchors: Map<(u32, u32, u32), A>,
}

impl<T, A> View for Registry<T, A> {
    type V = RegistrySpec<T, A>;

    closed spec fn view(&self) -> RegistrySpec<T, A> {
        RegistrySpec {
            parts: parts_of(self.parts@),
            skin_trees: Map::new(
                |k: (u32, u32)| self.skin_tree_cache@.contains_key(body_key_spec(k.0, k.1)),
                |k: (u32, u32)| self.skin_tree_cache@[body_key_spec(k.0, k.1)],
            ),
            anchors: Map::new(
                |k: (u32, u32, u32)|
                    self.clothing_anchor_cache@.contains_key(anchor_key_spec(k.0, k.1, k.2)),
                |k: (u32, u32, u32)| self.clothing_anchor_cache@[anchor_key_spec(k.0, k.1, k.2)],
            ),
        }
    }
}

/// What has to be done to get the skin tree of a body.
pub enum SkinTreeStep<'a, T> {
    /// Nothing: here it is.
    Ready(&'a T),
    /// Merge head and torso, and build a tree over the result.
    Build { head: &'a PartData, torso: &'a PartData },
    /// It cannot be had.
    Failed(ClothingAnchorError),
}

/// A [`SkinTreeStep`] over mathematical values.
pub enum SkinTreeSpec<T> {
    Ready(T),
    Build { head: PartSpec, torso: PartSpec },
    Failed(AnchorFault),
}

impl<'a, T> View for SkinTreeStep<'a, T> {
    type V = SkinTreeSpec<T>;

    open spec fn view(&self) -> SkinTreeSpec<T> {
        match *self {
            SkinTreeStep::Ready(tree) => SkinTreeSpec::Ready(*tree),
            SkinTreeStep::Build { head, torso } => SkinTreeSpec::Build {
                head: head@,
                torso: torso@,
            },
            SkinTreeStep::Failed(e) => SkinTreeSpec::Failed(e@),
        }
    }
}

/// What has to be done to get the anchors of a clothing item on a body.
pub enum AnchorStep<'a, T, A> {
    /// Nothing: here they are.
    Ready(&'a A),
    /// Find them for the clothing item with the skin tree of the body.
    BuildAnchors { clothing: &'a PartData, tree: &'a T },
    /// First merge head and torso, and build a tree over the result.
    BuildSkinTree { head: &'a PartData, torso: &'a PartData },
    /// They cannot be had.
    Failed(ClothingAnchorError),
}

/// An [`AnchorStep`] over mathematical values.
pub enum AnchorSpec<T, A> {
    Ready(A),
    BuildAnchors { clothing: PartSpec, tree: T },
    BuildSkinTree { head: PartSpec, torso: PartSpec },
    Failed(AnchorFault),
}

impl<'a, T, A> View for AnchorStep<'a, T, A> {
    type V = AnchorSpec<T, A>;

    open spec fn view(&self) -> AnchorSpec<T, A> {
        match *self {
            AnchorStep::Ready(anchors) => AnchorSpec::Ready(*anchors),
            AnchorStep::BuildAnchors { clothing, tree } => AnchorSpec::BuildAnchors {
                clothing: clothing@,
                tree: *tree,
            },
            AnchorStep::BuildSkinTree { head, torso } => AnchorSpec::BuildSkinTree {
                head: head@,
                torso: torso@,
            },
            AnchorStep::Failed(e) => AnchorSpec::Failed(e@),
        }
    }
}

/// What has to be done to get the skin tree of a body: a cached tree is used
/// as it is, else head and torso have to be loaded.
pub open spec fn skin_tree_step<T, A>(
    r: RegistrySpec<T, A>,
    head_id: u32,
    torso_id: u32,
) -> SkinTreeSpec<T> {
    if r.skin_trees.contains_key((head_id, torso_id)) {
        SkinTreeSpec::Ready(r.skin_trees[(head_id, torso_id)])
    } else if !r.parts.contains_key(head_id) {
        SkinTreeSpec::Failed(AnchorFault::UnknownHeadId(head_id))
    } else if !r.parts.contains_key(torso_id) {
        SkinTreeSpec::Failed(AnchorFault::UnknownTorsoId(torso_id))
    } else {
        SkinTreeSpec::Build { head: r.parts[head_id], torso: r.parts[torso_id] }
    }
}

/// What has to be done to get the anchors of a clothing item on a body: cached
/// anchors are used as they are, else the item has to be loaded, and the skin
/// tree of the body to be there.
pub open spec fn anchor_step<T, A>(
    r: RegistrySpec<T, A>,
    head_id: u32,
    torso_id: u32,
    clothing_id: u32,
) -> AnchorSpec<T, A> {
    if r.anchors.contains_key((head_id, torso_id, clothing_id)) {
        AnchorSpec::Ready(r.anchors[(head_id, torso_id, clothing_id)])
    } else if !r.parts.contains_key(clothing_id) {
        AnchorSpec::Failed(AnchorFault::UnknownClothingId(clothing_id))
    } else {
        match skin_tree_step(r, head_id, torso_id) {
            SkinTreeSpec::Ready(tree) => AnchorSpec::BuildAnchors {
                clothing: r.parts[clothing_id],
                tree,
            },
            SkinTreeSpec::Build { head, torso } => AnchorSpec::BuildSkinTree { head, torso },
            SkinTreeSpec::Failed(fault) => AnchorSpec::Failed(fault),
        }
    }
}

/// A registry with one more skin tree.
pub open spec fn with_skin_tree<T, A>(
    r: RegistrySpec<T, A>,
    head_id: u32,
    torso_id: u32,
    tree: T,
) -> RegistrySpec<T, A> {
    RegistrySpec { skin_trees: r.skin_trees.insert((head_id, torso_id), tree), ..r }
}

/// A registry with one more set of anchors.
pub open spec fn with_anchors<T, A>(
    r: RegistrySpec<T, A>,
    head_id: u32,
    torso_id: u32,
    clothing_id: u32,
    anchors: A,
) -> RegistrySpec<T, A> {
    RegistrySpec { anchors: r.anchors.insert((head_id, torso_id, clothing_id), anchors), ..r }
}

/// Whether the head and the torso of a body are loaded.
pub open spec fn body_loaded<T, A>(r: RegistrySpec<T, A>, head_id: u32, torso_id: u32) -> bool {
    r.parts.contains_key(head_id) && r.parts.contains_key(torso_id)
}

/// Whether everything that is cached is for parts that are loaded.
pub open spec fn caches_sound<T, A>(r: RegistrySpec<T, A>) -> bool {
    &&& forall|head_id: u32, torso_id: u32| #[trigger]
        r.skin_trees.contains_key((head_id, torso_id)) ==> body_loaded(r, head_id, torso_id)
    &&& forall|head_id: u32, torso_id: u32, clothing_id: u32| #[trigger]
        r.anchors.contains_key((head_id, torso_id, clothing_id)) ==> body_loaded(
            r,
            head_id,
            torso_id,
        ) && r.parts.contains_key(clothing_id)
}

/// The outside work behind the caches, as functions of what it is given: the
/// skin tree of a body from its head and torso, and the anchors of a clothing
/// item found with a skin tree. Nothing comes of work that fails.
#[verifier::reject_recursive_types(T)]
#[verifier::reject_recursive_types(A)]
pub struct Builders<T, A> {
    pub tree: spec_fn(PartSpec, PartSpec) -> Option<T>,
    pub anchors: spec_fn(PartSpec, T) -> Option<A>,
}

/// What came of building a skin tree, if anything did.
pub open spec fn tree_made<T>(build: SkinTreeBuild<T>) -> Option<T> {
    match build {
        SkinTreeBuild::Built(tree) => Some(tree),
        SkinTreeBuild::MergeFailed(_) => None,
        SkinTreeBuild::TreeFailed(_) => None,
    }
}

/// Whether two executable functions can be called on anything, and do the work
/// that builders stand for.
pub open spec fn built_by<T, A, F, G>(
    build_tree: F,
    build_anchors: G,
    builders: Builders<T, A>,
) -> bool where
    F: Fn(&PartData, &PartData) -> SkinTreeBuild<T>,
    G: Fn(&PartData, &T) -> Result<A, String>,
 {
    &&& forall|head: &PartData, torso: &PartData, build: SkinTreeBuild<T>| #[trigger]
        call_ensures(build_tree, (head, torso), build) ==> tree_made(build) == (builders.tree)(
            head@,
            torso@,
        )
    &&& forall|clothing: &PartData, tree: &T, build: Result<A, String>| #[trigger]
        call_ensures(build_anchors, (clothing, tree), build) ==> build.ok() == (builders.anchors)(
            clothing@,
            *tree,
        )
}

/// The skin tree of a body, if it can be had: the cached one, or else what is
/// built from head and torso.
pub open spec fn tree_for<T, A>(
    r: RegistrySpec<T, A>,
    head_id: u32,
    torso_id: u32,
    builders: Builders<T, A>,
) -> Option<T> {
    match skin_tree_step(r, head_id, torso_id) {
        SkinTreeSpec::Ready(tree) => Some(tree),
        SkinTreeSpec::Build { head, torso } => (builders.tree)(head, torso),
        SkinTreeSpec::Failed(_) => None,
    }
}

/// The anchors of a clothing item on a body, if they can be had: the cached
/// ones, or else what is found for a loaded item with the skin tree.
pub open spec fn anchors_for<T, A>(
    r: RegistrySpec<T, A>,
    head_id: u32,
    torso_id: u32,
    clothing_id: u32,
    builders: Builders<T, A>,
) -> Option<A> {
    if r.anchors.contains_key((head_id, torso_id, clothing_id)) {
        Some(r.anchors[(head_id, torso_id, clothing_id)])
    } else if !r.parts.contains_key(clothing_id) {
        None
    } else {
        match tree_for(r, head_id, torso_id, builders) {
            Some(tree) => (builders.anchors)(r.parts[clothing_id], tree),
            None => None,
        }
    }
}

/// Whether a registry has the parts of another, and all that is cached in it,
/// unchanged.
pub open spec fn keeps<T, A>(after: RegistrySpec<T, A>, before: RegistrySpec<T, A>) -> bool {
    &&& after.parts == before.parts
    &&& forall|body: (u32, u32)| #[trigger]
        before.skin_trees.contains_key(body) ==> after.skin_trees.contains_key(body)
            && after.skin_trees[body] == before.skin_trees[body]
    &&& forall|item: (u32, u32, u32)| #[trigger]
        before.anchors.contains_key(item) ==> after.anchors.contains_key(item)
            && after.anchors[item] == before.anchors[item]
}

/// What came of merging head and torso and building a skin tree.
pub enum SkinTreeBuild<T> {
    Built(T),
    MergeFailed(String),
    TreeFailed(String),
}

/// A registry with these parts and nothing cached.
pub open spec fn fresh_registry<T, A>(parts: Map<u32, PartSpec>) -> RegistrySpec<T, A> {
    RegistrySpec { parts, skin_trees: Map::empty(), anchors: Map::empty() }
}

/// The parts of a table, over mathematical sequences.
pub open spec fn parts_of(parts: Map<u32, PartData>) -> Map<u32, PartSpec> {
    Map::new(|id: u32| parts.contains_key(id), |id: u32| parts[id]@)
}

impl<T, A> Registry<T, A> {
    /// Everything that is cached is for parts that are loaded.
    #[verifier::type_invariant]
    spec fn sound(&self) -> bool {
        &&& forall|head_id: u32, torso_id: u32|
            self.skin_tree_cache@.contains_key(#[trigger] body_key_spec(head_id, torso_id))
                ==> self.parts@.contains_key(head_id) && self.parts@.contains_key(torso_id)
        &&& forall|head_id: u32, torso_id: u32, clothing_id: u32|
            self.clothing_anchor_cache@.contains_key(
                #[trigger] anchor_key_spec(head_id, torso_id, clothing_id),
            ) ==> self.parts@.contains_key(head_id) && self.parts@.contains_key(torso_id)
                && self.parts@.contains_key(clothing_id)
    }

    /// A registry with these parts and nothing cached.
    pub fn new(parts: HashMap<u32, PartData>) -> (registry: Self)
        ensures
            registry@ == fresh_registry::<T, A>(parts_of(parts@)),
            forall|id: u32| #[trigger]
                registry@.parts.contains_key(id) == parts@.contains_key(id),
            forall|id: u32|
                parts@.contains_key(id) ==> (#[trigger] registry@.parts[id]).vertices
                    == parts@[id].vertices@ && registry@.parts[id].indices == parts@[id].indices@,
            registry@.skin_trees == Map::<(u32, u32), T>::empty(),
            registry@.anchors == Map::<(u32, u32, u32), A>::empty(),
    {
        let skin_tree_cache: HashMap<u64, T> = HashMap::new();
        let clothing_anchor_cache: HashMap<u128, A> = HashMap::new();
        let registry = Registry { parts, skin_tree_cache, clothing_anchor_cache };
        assert(registry@.skin_trees =~= Map::empty());
        assert(registry@.anchors =~= Map::empty());
        registry
    }

    /// The part with this id.
    pub fn part(&self, id: u32) -> (part: Option<&PartData>)
        ensures
            match part {
                Some(data) => self@.parts.contains_key(id) && self@.parts[id] == data@
                    && self@.parts[id].vertices == data.vertices@ && self@.parts[id].indices
                    == data.indices@,
                None => !self@.parts.contains_key(id),
            },
    {
        self.parts.get(&id)
    }

    /// What has to be done to get the skin tree of a body. All clothing items
    /// for the body share it.
    pub fn get_or_build_skin_tree(&self, head_id: u32, torso_id: u32) -> (step: SkinTreeStep<'_, T>)
        ensures
            step@ == skin_tree_step(self@, head_id, torso_id),
            caches_sound(self@),
            step matches SkinTreeStep::Build { head, torso } ==> head@ == self@.parts[head_id]
                && torso@ == self@.parts[torso_id],
            step matches SkinTreeStep::Ready(tree) ==> *tree == self@.skin_trees[(
                head_id,
                torso_id,
            )],
    {
        proof {
            use_type_invariant(self);
        }
        if let Some(tree) = self.skin_tree_cache.get(&body_key(head_id, torso_id)) {
            return SkinTreeStep::Ready(tree);
        }
        let head = match self.part(head_id) {
            Some(head) => head,
            None => {
                return SkinTreeStep::Failed(ClothingAnchorError::UnknownHeadId(head_id));
            },
        };
        let torso = match self.part(torso_id) {
            Some(torso) => torso,
            None => {
                return SkinTreeStep::Failed(ClothingAnchorError::UnknownTorsoId(torso_id));
            },
        };
        SkinTreeStep::Build { head, torso }
    }

    /// What has to be done to get the anchors of a clothing item on a body. An
    /// item that is not loaded is found out before anything is built.
    pub fn get_or_build_clothing_anchors(
        &self,
        head_id: u32,
        torso_id: u32,
        clothing_id: u32,
    ) -> (step: AnchorStep<'_, T, A>)
        ensures
            step@ == anchor_step(self@, head_id, torso_id, clothing_id),
            caches_sound(self@),
            step matches AnchorStep::BuildSkinTree { head, torso } ==> head@ == self@.parts[head_id]
                && torso@ == self@.parts[torso_id],
            step matches AnchorStep::BuildAnchors { clothing, tree } ==> clothing@
                == self@.parts[clothing_id] && *tree == self@.skin_trees[(head_id, torso_id)],
            step matches AnchorStep::Ready(anchors) ==> *anchors == self@.anchors[(
                head_id,
                torso_id,
                clothing_id,
            )],
    {
        proof {
            use_type_invariant(self);
        }
        if let Some(anchors) = self.clothing_anchor_cache.get(
            &anchor_key(head_id, torso_id, clothing_id),
        ) {
            return AnchorStep::Ready(anchors);
        }
        let clothing = match self.part(clothing_id) {
            Some(clothing) => clothing,
            None => {
                return AnchorStep::Failed(ClothingAnchorError::UnknownClothingId(clothing_id));
            },
        };
        match self.get_or_build_skin_tree(head_id, torso_id) {
            SkinTreeStep::Ready(tree) => AnchorStep::BuildAnchors { clothing, tree },
            SkinTreeStep::Build { head, torso } => AnchorStep::BuildSkinTree { head, torso },
            SkinTreeStep::Failed(e) => AnchorStep::Failed(e),
        }
    }

    /// Keeps a skin tree that was built for a body whose parts are loaded. A
    /// failure is handed on and leaves no trace.
    pub fn record_skin_tree(
        &mut self,
        head_id: u32,
        torso_id: u32,
        build: SkinTreeBuild<T>,
    ) -> (r: Result<(), ClothingAnchorError>)
        requires
            body_loaded(old(self)@, head_id, torso_id),
        ensures
            match build {
                SkinTreeBuild::Built(tree) => r is Ok && final(self)@ == with_skin_tree(
                    old(self)@,
                    head_id,
                    torso_id,
                    tree,
                ),
                SkinTreeBuild::MergeFailed(e) => {
                    &&& final(self)@ == old(self)@
                    &&& r is Err
                    &&& r->Err_0@ == AnchorFault::MeshMerge(e@)
                },
                SkinTreeBuild::TreeFailed(e) => {
                    &&& final(self)@ == old(self)@
                    &&& r is Err
                    &&& r->Err_0@ == AnchorFault::Deformer(e@)
                },
            },
    {
        proof {
            use_type_invariant(&*self);
        }
        match build {
            SkinTreeBuild::Built(tree) => {
                let mut cache: HashMap<u64, T> = HashMap::new();
                std::mem::swap(&mut cache, &mut self.skin_tree_cache);
                cache.insert(body_key(head_id, torso_id), tree);
                self.skin_tree_cache = cache;
                proof {
                    let want = with_skin_tree(old(self)@, head_id, torso_id, tree);
                    assert(self@.parts =~= want.parts);
                    assert(self@.skin_trees =~= want.skin_trees);
                    assert(self@.anchors =~= want.anchors);
                }
                Ok(())
            },
            SkinTreeBuild::MergeFailed(e) => Err(ClothingAnchorError::MeshMerge(e)),
            SkinTreeBuild::TreeFailed(e) => Err(ClothingAnchorError::Deformer(e)),
        }
    }

    /// Keeps anchors that were found for a clothing item and a body whose parts
    /// are loaded. A failure is handed on and leaves no trace.
    pub fn record_clothing_anchors(
        &mut self,
        head_id: u32,
        torso_id: u32,
        clothing_id: u32,
        build: Result<A, String>,
    ) -> (r: Result<(), ClothingAnchorError>)
        requires
            body_loaded(old(self)@, head_id, torso_id),
            old(self)@.parts.contains_key(clothing_id),
        ensures
            match build {
                Ok(anchors) => r is Ok && final(self)@ == with_anchors(
                    old(self)@,
                    head_id,
                    torso_id,
                    clothing_id,
                    anchors,
                ),
                Err(e) => {
                    &&& final(self)@ == old(self)@
                    &&& r is Err
                    &&& r->Err_0@ == AnchorFault::Deformer(e@)
                },
            },
    {
        proof {
            use_type_invariant(&*self);
        }
        match build {
            Ok(anchors) => {
                let mut cache: HashMap<u128, A> = HashMap::new();
                std::mem::swap(&mut cache, &mut self.clothing_anchor_cache);
                cache.insert(anchor_key(head_id, torso_id, clothing_id), anchors);
                self.clothing_anchor_cache = cache;
                proof {
                    let want = with_anchors(old(self)@, head_id, torso_id, clothing_id, anchors);
                    assert(self@.parts =~= want.parts);
                    assert(self@.skin_trees =~= want.skin_trees);
                    assert(self@.anchors =~= want.anchors);
                }
                Ok(())
            },
            Err(e) => Err(ClothingAnchorError::Deformer(e)),
        }
    }
}

/// Anchors that were recorded are found again, without building anything.
pub proof fn law_recorded_anchors_are_ready<T, A>(
    r: RegistrySpec<T, A>,
    head_id: u32,
    torso_id: u32,
    clothing_id: u32,
    anchors: A,
)
    ensures
        anchor_step(
            with_anchors(r, head_id, torso_id, clothing_id, anchors),
            head_id,
            torso_id,
            clothing_id,
        ) == AnchorSpec::<T, A>::Ready(anchors),
{
}

/// A skin tree that was recorded is found again, and every loaded clothing
/// item that has no anchors on the body yet is to be fitted with this tree.
pub proof fn law_clothing_shares_the_tree<T, A>(
    r: RegistrySpec<T, A>,
    head_id: u32,
    torso_id: u32,
    tree: T,
    clothing_id: u32,
)
    requires
        r.parts.contains_key(clothing_id),
        !r.anchors.contains_key((head_id, torso_id, clothing_id)),
    ensures
        skin_tree_step(with_skin_tree(r, head_id, torso_id, tree), head_id, torso_id)
            == SkinTreeSpec::Ready(tree),
        anchor_step(with_skin_tree(r, head_id, torso_id, tree), head_id, torso_id, clothing_id) == (
        AnchorSpec::<T, A>::BuildAnchors { clothing: r.parts[clothing_id], tree }),
{
}

/// Anchors that are recorded take no part in finding skin trees, so a body
/// keeps its tree whatever is fitted to it.
pub proof fn law_anchors_keep_the_tree<T, A>(
    r: RegistrySpec<T, A>,
    head_id: u32,
    torso_id: u32,
    clothing_id: u32,
    anchors: A,
    other_head: u32,
    other_torso: u32,
)
    ensures
        skin_tree_step(
            with_anchors(r, head_id, torso_id, clothing_id, anchors),
            other_head,
            other_torso,
        ) == skin_tree_step(r, other_head, other_torso),
{
}

/// Bodies do not share what is cached: what is recorded for one body changes
/// nothing for another, not even for that with head and torso swapped.
pub proof fn law_bodies_are_kept_apart<T, A>(
    r: RegistrySpec<T, A>,
    head_id: u32,
    torso_id: u32,
    clothing_id: u32,
    tree: T,
    anchors: A,
    other_head: u32,
    other_torso: u32,
    other_clothing: u32,
)
    requires
        (head_id, torso_id) != (other_head, other_torso),
    ensures
        skin_tree_step(with_skin_tree(r, head_id, torso_id, tree), other_head, other_torso)
            == skin_tree_step(r, other_head, other_torso),
        anchor_step(
            with_skin_tree(r, head_id, torso_id, tree),
            other_head,
            other_torso,
            other_clothing,
        ) == anchor_step(r, other_head, other_torso, other_clothing),
        anchor_step(
            with_anchors(r, head_id, torso_id, clothing_id, anchors),
            other_head,
            other_torso,
            other_clothing,
        ) == anchor_step(r, other_head, other_torso, other_clothing),
{
}

/// Two builds are all it takes: after the skin tree come the anchors, and with
/// the anchors the item is ready.
pub proof fn law_two_builds_suffice<T, A>(
    r: RegistrySpec<T, A>,
    head_id: u32,
    torso_id: u32,
    clothing_id: u32,
    tree: T,
    anchors: A,
)
    requires
        anchor_step(r, head_id, torso_id, clothing_id) is BuildSkinTree,
    ensures
        ({
            let grown = with_skin_tree(r, head_id, torso_id, tree);
            &&& anchor_step(grown, head_id, torso_id, clothing_id) == (AnchorSpec::<
                T,
                A,
            >::BuildAnchors { clothing: r.parts[clothing_id], tree })
            &&& anchor_step(
                with_anchors(grown, head_id, torso_id, clothing_id, anchors),
                head_id,
                torso_id,
                clothing_id,
            ) == AnchorSpec::<T, A>::Ready(anchors)
        }),
{
}

/// Recording what was asked for replaces nothing: whatever came of the work,
/// what was cached before keeps its value.
pub proof fn law_what_was_asked_for_replaces_nothing<T, A>(
    r: RegistrySpec<T, A>,
    head_id: u32,
    torso_id: u32,
    clothing_id: u32,
    tree: T,
    anchors: A,
)
    ensures
        skin_tree_step(r, head_id, torso_id) is Build ==> keeps(
            with_skin_tree(r, head_id, torso_id, tree),
            r,
        ),
        anchor_step(r, head_id, torso_id, clothing_id) is BuildSkinTree ==> keeps(
            with_skin_tree(r, head_id, torso_id, tree),
            r,
        ),
        anchor_step(r, head_id, torso_id, clothing_id) is BuildAnchors ==> keeps(
            with_anchors(r, head_id, torso_id, clothing_id, anchors),
            r,
        ),
{
}

/// The parts of a registry stay what they were, whatever is recorded.
pub proof fn law_recording_keeps_the_parts<T, A>(
    r: RegistrySpec<T, A>,
    head_id: u32,
    torso_id: u32,
    clothing_id: u32,
    tree: T,
    anchors: A,
)
    ensures
        with_skin_tree(r, head_id, torso_id, tree).parts == r.parts,
        with_anchors(r, head_id, torso_id, clothing_id, anchors).parts == r.parts,
{
}

/// What is recorded for loaded parts keeps the caches free of anything else.
/// So what could not be resolved is never cached.
pub proof fn law_recording_keeps_caches_sound<T, A>(
    r: RegistrySpec<T, A>,
    head_id: u32,
    torso_id: u32,
    clothing_id: u32,
    tree: T,
    anchors: A,
)
    requires
        caches_sound(r),
        r.parts.contains_key(head_id),
        r.parts.contains_key(torso_id),
        r.parts.contains_key(clothing_id),
    ensures
        caches_sound(with_skin_tree(r, head_id, torso_id, tree)),
        caches_sound(with_anchors(r, head_id, torso_id, clothing_id, anchors)),
{
}

/// A clothing item that is not loaded is refused before anything is built,
/// whatever the body.
pub proof fn law_unknown_clothing_builds_nothing<T, A>(
    r: RegistrySpec<T, A>,
    head_id: u32,
    torso_id: u32,
    clothing_id: u32,
)
    requires
        caches_sound(r),
        !r.parts.contains_key(clothing_id),
    ensures
        anchor_step(r, head_id, torso_id, clothing_id) == AnchorSpec::<T, A>::Failed(
            AnchorFault::UnknownClothingId(clothing_id),
        ),
{
}

} // verus!
