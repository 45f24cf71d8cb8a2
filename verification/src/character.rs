//! Generating a character from its DNA.
//!
//! Head and torso are merged into one skin, the skin is shaped by the DNA, each
//! equipped clothing item is fitted to the shaped skin, and all is merged into
//! one mesh. Merging, shaping and fitting is done outside. What is decided here
//! is what to do next, with what, and what a failure means: without a body
//! there is no character, but a clothing item that cannot be worn is just left
//! out. The stages are [`BodyMerge`], [`SkinMutation`] and [`Dressing`].

use vstd::prelude::*;

use crate::prewarm::announced;
use crate::registry::{
    anchor_step, body_loaded, built_by, keeps, with_anchors, with_skin_tree, AnchorFault,
    AnchorSpec, AnchorStep, Builders, ClothingAnchorError, PartData, PartSpec, Registry,
    RegistrySpec, SkinTreeBuild,
};
use crate::text::{decimal, push_decimal};
use crate::vertex::SkinnedVertex;

verus! {

/// What makes up a character. The modifiers are bit patterns of floats.
#[derive(Debug)]
pub struct CharacterDNA {
    pub seed: u64,
    pub height_modifier: u32,
    pub weight_modifier: u32,
    pub head_id: u32,
    pub torso_id: u32,
    /// The equipped clothing items, if a list was given at all.
    pub equipped_clothing_ids: Option<Vec<u32>>,
    /// How many items were announced.
    pub equipped_clothing_count: u32,
}

/// A [`CharacterDNA`] over mathematical sequences.
pub struct DnaSpec {
    pub seed: u64,
    pub height_modifier: u32,
    pub weight_modifier: u32,
    pub head_id: u32,
    pub torso_id: u32,
    pub equipped: Seq<u32>,
}

/// The items that a character wears: the announced number of them, from the
/// list given. Without a list it wears nothing.
pub open spec fn equipped_items(ids: Option<Vec<u32>>, count: u32) -> Seq<u32> {
    match ids {
        None => seq![],
        Some(list) => announced(list@, count),
    }
}

impl View for CharacterDNA {
    type V = DnaSpec;

    open spec fn view(&self) -> DnaSpec {
        DnaSpec {
            seed: self.seed,
            height_modifier: self.height_modifier,
            weight_modifier: self.weight_modifier,
            head_id: self.head_id,
            torso_id: self.torso_id,
            equipped: equipped_items(self.equipped_clothing_ids, self.equipped_clothing_count),
        }
    }
}

/// A generated mesh.
#[derive(Debug)]
pub struct MeshOutputBuffer {
    pub vertices: Vec<SkinnedVertex>,
    pub indices: Vec<u32>,
    pub vertices_count: u32,
    pub indices_count: u32,
}

/// Why no character can be begun, if so: the pointer to the DNA, the registry,
/// the head and the torso are looked at in this order.
pub open spec fn start_fault<T, A>(
    registry: Option<RegistrySpec<T, A>>,
    dna: Option<DnaSpec>,
) -> Option<Seq<char>> {
    if dna is None {
        Some("generate_character: dna pointer was null"@)
    } else if registry is None {
        Some(
            "generate_character: called before init_part_registry succeeded; the part registry is not initialized"@,
        )
    } else if !registry->0.parts.contains_key(dna->0.head_id) {
        Some(
            "generate_character: no part loaded for head_id "@ + decimal(dna->0.head_id as nat),
        )
    } else if !registry->0.parts.contains_key(dna->0.torso_id) {
        Some(
            "generate_character: no part loaded for torso_id "@ + decimal(
                dna->0.torso_id as nat,
            ),
        )
    } else {
        None
    }
}

/// The stage at which head and torso are to be merged.
pub struct BodyMerge<'a> {
    pub head: &'a PartData,
    pub torso: &'a PartData,
    pub dna: CharacterDNA,
}

/// The stage at which the skin is to be shaped by the DNA.
pub struct SkinMutation {
    pub dna: CharacterDNA,
    pub body: PartData,
}

/// The stage at which clothing is to be fitted.
pub struct Dressing {
    dna: CharacterDNA,
    body: PartData,
    equipped: Vec<u32>,
    next: usize,
    fitted: Vec<PartData>,
}

/// A [`Dressing`] over mathematical sequences: `body` is the shaped skin with
/// the indices of the merged body, the items before `next` are dealt with, and
/// what of them could be worn is in `fitted`.
pub struct DressingSpec {
    pub dna: DnaSpec,
    pub body: PartSpec,
    pub next: int,
    pub fitted: Seq<PartSpec>,
}

/// The contents of a list of parts.
pub open spec fn part_list(parts: Seq<PartData>) -> Seq<PartSpec> {
    Seq::new(parts.len(), |i: int| parts[i]@)
}

impl View for Dressing {
    type V = DressingSpec;

    closed spec fn view(&self) -> DressingSpec {
        DressingSpec {
            dna: self.dna@,
            body: self.body@,
            next: self.next as int,
            fitted: part_list(self.fitted@),
        }
    }
}

/// A text followed by a number.
fn numbered(text: &str, number: u32) -> (out: String)
    ensures
        out@ == text@ + decimal(number as nat),
{
    let mut out = text.to_string();
    push_decimal(&mut out, number as u64);
    out
}

/// Two texts, one after the other.
fn joined(text: &str, rest: &str) -> (out: String)
    ensures
        out@ == text@ + rest@,
{
    let mut out = text.to_string();
    out.append(rest);
    out
}

/// Begins a character. The message of an earlier call is gone in any case; if
/// the character cannot be begun, one that says why takes its place.
pub fn generate_character<'a, T, A>(
    last_error: &mut Option<String>,
    registry: Option<&'a Registry<T, A>>,
    dna: Option<CharacterDNA>,
) -> (stage: Option<BodyMerge<'a>>)
    ensures
        ({
            let registry_spec = match registry {
                Some(r) => Some(r@),
                None => None,
            };
            let dna_spec = match dna {
                Some(d) => Some(d@),
                None => None,
            };
            match start_fault(registry_spec, dna_spec) {
                Some(message) => {
                    &&& stage is None
                    &&& *final(last_error) is Some
                    &&& final(last_error)->0@ == message
                },
                None => {
                    &&& *final(last_error) is None
                    &&& stage is Some
                    &&& stage->0.dna == dna->0
                    &&& stage->0.head@ == registry->0@.parts[dna->0.head_id]
                    &&& stage->0.torso@ == registry->0@.parts[dna->0.torso_id]
                },
            }
        }),
{
    *last_error = None;
    let dna = match dna {
        Some(dna) => dna,
        None => {
            *last_error = Some("generate_character: dna pointer was null".to_string());
            return None;
        },
    };
    let registry = match registry {
        Some(registry) => registry,
        None => {
            *last_error =
            Some(
                "generate_character: called before init_part_registry succeeded; the part registry is not initialized".to_string(),
            );
            return None;
        },
    };
    let head = match registry.part(dna.head_id) {
        Some(head) => head,
        None => {
            *last_error =
            Some(numbered("generate_character: no part loaded for head_id ", dna.head_id));
            return None;
        },
    };
    let torso = match registry.part(dna.torso_id) {
        Some(torso) => torso,
        None => {
            *last_error =
            Some(numbered("generate_character: no part loaded for torso_id ", dna.torso_id));
            return None;
        },
    };
    Some(BodyMerge { head, torso, dna })
}

impl<'a> BodyMerge<'a> {
    /// Takes the outcome of merging head and torso.
    pub fn merged(self, last_error: &mut Option<String>, outcome: Result<PartData, String>) -> (
    stage: Option<SkinMutation>)
        ensures
            match outcome {
                Ok(body) => {
                    &&& stage == Some(SkinMutation { dna: self.dna, body })
                    &&& *final(last_error) == *old(last_error)
                },
                Err(e) => {
                    &&& stage is None
                    &&& *final(last_error) is Some
                    &&& final(last_error)->0@
                        == "generate_character: failed to merge head/torso parts: "@ + e@
                },
            },
    {
        match outcome {
            Ok(body) => Some(SkinMutation { dna: self.dna, body }),
            Err(e) => {
                *last_error =
                Some(
                    joined(
                        "generate_character: failed to merge head/torso parts: ",
                        e.as_str(),
                    ),
                );
                None
            },
        }
    }
}

impl SkinMutation {
    /// Takes the outcome of shaping the skin. The body keeps its indices.
    pub fn mutated(
        self,
        last_error: &mut Option<String>,
        outcome: Result<Vec<SkinnedVertex>, String>,
    ) -> (stage: Option<Dressing>)
        ensures
            match outcome {
                Ok(vertices) => {
                    &&& stage is Some
                    &&& stage->0@ == (DressingSpec {
                        dna: self.dna@,
                        body: PartSpec { vertices: vertices@, indices: self.body@.indices },
                        next: 0,
                        fitted: seq![],
                    })
                    &&& *final(last_error) == *old(last_error)
                },
                Err(e) => {
                    &&& stage is None
                    &&& *final(last_error) is Some
                    &&& final(last_error)->0@ == "generate_character: DNA mutation failed: "@ + e@
                },
            },
    {
        let vertices = match outcome {
            Ok(vertices) => vertices,
            Err(e) => {
                *last_error =
                Some(joined("generate_character: DNA mutation failed: ", e.as_str()));
                return None;
            },
        };
        let equipped = worn_items(&self.dna);
        let fitted: Vec<PartData> = Vec::new();
        let stage = Dressing {
            dna: self.dna,
            body: PartData { vertices, indices: self.body.indices },
            equipped,
            next: 0,
            fitted,
        };
        assert(stage@.fitted =~= seq![]);
        Some(stage)
    }
}

/// The items that a character wears.
fn worn_items(dna: &CharacterDNA) -> (items: Vec<u32>)
    ensures
        items@ == dna@.equipped,
{
    let mut items: Vec<u32> = Vec::new();
    if let Some(list) = &dna.equipped_clothing_ids {
        let mut i: usize = 0;
        while i < list.len() && i < dna.equipped_clothing_count as usize
            invariant
                i <= list@.len(),
                i <= dna.equipped_clothing_count,
                items@ == list@.take(i as int),
            decreases list@.len() - i,
        {
            items.push(list[i]);
            i += 1;
        }
        assert(list@.take(list@.len() as int) == list@);
    }
    items
}

/// What the next equipped item needs.
pub enum DressStep<'a, T, A> {
    /// There is no next item.
    Done,
    /// Nothing: it is not a loaded part, and was passed over.
    Unknown { clothing_id: u32 },
    /// Nothing: there are no anchors for it, and it was passed over.
    NoAnchors { clothing_id: u32, error: ClothingAnchorError },
    /// The skin tree of the body, from the parts that it was merged of.
    BuildSkinTree { clothing_id: u32, head: &'a PartData, torso: &'a PartData },
    /// Its anchors, found with the skin tree.
    BuildAnchors { clothing_id: u32, clothing: &'a PartData, tree: &'a T },
    /// To be fitted to the shaped skin.
    Fit { clothing_id: u32, clothing: &'a PartData, anchors: &'a A },
}

/// A [`DressStep`] over mathematical values.
pub enum DressSpec<T, A> {
    Done,
    Unknown { clothing_id: u32 },
    NoAnchors { clothing_id: u32, fault: AnchorFault },
    BuildSkinTree { clothing_id: u32, head: PartSpec, torso: PartSpec },
    BuildAnchors { clothing_id: u32, clothing: PartSpec, tree: T },
    Fit { clothing_id: u32, clothing: PartSpec, anchors: A },
}

impl<'a, T, A> View for DressStep<'a, T, A> {
    type V = DressSpec<T, A>;

    open spec fn view(&self) -> DressSpec<T, A> {
        match *self {
            DressStep::Done => DressSpec::Done,
            DressStep::Unknown { clothing_id } => DressSpec::Unknown { clothing_id },
            DressStep::NoAnchors { clothing_id, error } => DressSpec::NoAnchors {
                clothing_id,
                fault: error@,
            },
            DressStep::BuildSkinTree { clothing_id, head, torso } => DressSpec::BuildSkinTree {
                clothing_id,
                head: head@,
                torso: torso@,
            },
            DressStep::BuildAnchors { clothing_id, clothing, tree } => DressSpec::BuildAnchors {
                clothing_id,
                clothing: clothing@,
                tree: *tree,
            },
            DressStep::Fit { clothing_id, clothing, anchors } => DressSpec::Fit {
                clothing_id,
                clothing: clothing@,
                anchors: *anchors,
            },
        }
    }
}

/// What the next equipped item needs: it has to be a loaded part, and to have
/// anchors on this very body.
pub open spec fn dress_step<T, A>(r: RegistrySpec<T, A>, s: DressingSpec) -> DressSpec<T, A> {
    if s.next >= s.dna.equipped.len() {
        DressSpec::Done
    } else {
        let clothing_id = s.dna.equipped[s.next];
        if !r.parts.contains_key(clothing_id) {
            DressSpec::Unknown { clothing_id }
        } else {
            match anchor_step(r, s.dna.head_id, s.dna.torso_id, clothing_id) {
                AnchorSpec::Ready(anchors) => DressSpec::Fit {
                    clothing_id,
                    clothing: r.parts[clothing_id],
                    anchors,
                },
                AnchorSpec::BuildAnchors { clothing, tree } => DressSpec::BuildAnchors {
                    clothing_id,
                    clothing,
                    tree,
                },
                AnchorSpec::BuildSkinTree { head, torso } => DressSpec::BuildSkinTree {
                    clothing_id,
                    head,
                    torso,
                },
                AnchorSpec::Failed(fault) => DressSpec::NoAnchors { clothing_id, fault },
            }
        }
    }
}

/// The dressing after one more item was dealt with: worn as given, or left out.
pub open spec fn after_item(s: DressingSpec, worn: Option<PartSpec>) -> DressingSpec {
    DressingSpec {
        next: s.next + 1,
        fitted: match worn {
            Some(item) => s.fitted.push(item),
            None => s.fitted,
        },
        ..s
    }
}

/// What is merged in the end: the body, and then what is worn, in order.
pub open spec fn merge_list(s: DressingSpec) -> Seq<PartSpec> {
    seq![s.body] + s.fitted
}

impl Dressing {
    #[verifier::type_invariant]
    spec fn within(&self) -> bool {
        &&& self.equipped@ == self.dna@.equipped
        &&& self.next <= self.equipped@.len()
    }

    /// The DNA of the character.
    pub fn dna(&self) -> (dna: &CharacterDNA)
        ensures
            dna@ == self@.dna,
    {
        &self.dna
    }

    /// The shaped skin, with the indices of the merged body.
    pub fn body(&self) -> (body: &PartData)
        ensures
            body@ == self@.body,
    {
        &self.body
    }

    /// Finds out what the next item needs. One that cannot be worn is passed
    /// over.
    pub fn advance<'a, T, A>(&mut self, registry: &'a Registry<T, A>) -> (step: DressStep<
        'a,
        T,
        A,
    >)
        ensures
            step@ == dress_step(registry@, old(self)@),
            final(self)@ == (if step is Unknown || step is NoAnchors {
                after_item(old(self)@, None)
            } else {
                old(self)@
            }),
            step is BuildSkinTree || step is BuildAnchors || step is Fit ==> body_loaded(
                registry@,
                old(self)@.dna.head_id,
                old(self)@.dna.torso_id,
            ),
            step matches DressStep::Fit { clothing_id, clothing, anchors } ==> {
                &&& clothing_id == old(self)@.dna.equipped[old(self)@.next]
                &&& clothing@ == registry@.parts[clothing_id]
                &&& *anchors == registry@.anchors[(
                    old(self)@.dna.head_id,
                    old(self)@.dna.torso_id,
                    clothing_id,
                )]
            },
            step matches DressStep::BuildAnchors { clothing_id, clothing, tree } ==> {
                &&& clothing_id == old(self)@.dna.equipped[old(self)@.next]
                &&& clothing@ == registry@.parts[clothing_id]
                &&& *tree == registry@.skin_trees[(
                    old(self)@.dna.head_id,
                    old(self)@.dna.torso_id,
                )]
            },
            step matches DressStep::BuildSkinTree { clothing_id, head, torso } ==> {
                &&& clothing_id == old(self)@.dna.equipped[old(self)@.next]
                &&& head@ == registry@.parts[old(self)@.dna.head_id]
                &&& torso@ == registry@.parts[old(self)@.dna.torso_id]
            },
    {
        proof {
            use_type_invariant(&*self);
        }
        let len: usize = self.equipped.len();
        if self.next >= len {
            return DressStep::Done;
        }
        let clothing_id: u32 = self.equipped[self.next];
        let clothing = match registry.part(clothing_id) {
            Some(clothing) => clothing,
            None => {
                self.next = self.next + 1;
                return DressStep::Unknown { clothing_id };
            },
        };
        match registry.get_or_build_clothing_anchors(
            self.dna.head_id,
            self.dna.torso_id,
            clothing_id,
        ) {
            AnchorStep::Ready(anchors) => DressStep::Fit { clothing_id, clothing, anchors },
            AnchorStep::BuildAnchors { clothing, tree } => DressStep::BuildAnchors {
                clothing_id,
                clothing,
                tree,
            },
            AnchorStep::BuildSkinTree { head, torso } => DressStep::BuildSkinTree {
                clothing_id,
                head,
                torso,
            },
            AnchorStep::Failed(error) => {
                self.next = self.next + 1;
                DressStep::NoAnchors { clothing_id, error }
            },
        }
    }

    /// Takes the outcome of building the skin tree. If it failed, the item is
    /// passed over, and the failure reported.
    pub fn tree_built<T, A>(
        &mut self,
        registry: &mut Registry<T, A>,
        build: SkinTreeBuild<T>,
    ) -> (failure: Option<ClothingAnchorError>)
        requires
            old(self)@.next < old(self)@.dna.equipped.len(),
            body_loaded(old(registry)@, old(self)@.dna.head_id, old(self)@.dna.torso_id),
        ensures
            match build {
                SkinTreeBuild::Built(tree) => {
                    &&& failure is None
                    &&& final(self)@ == old(self)@
                    &&& final(registry)@ == with_skin_tree(
                        old(registry)@,
                        old(self)@.dna.head_id,
                        old(self)@.dna.torso_id,
                        tree,
                    )
                },
                SkinTreeBuild::MergeFailed(e) => {
                    &&& failure is Some
                    &&& failure->0@ == AnchorFault::MeshMerge(e@)
                    &&& final(self)@ == after_item(old(self)@, None)
                    &&& final(registry)@ == old(registry)@
                },
                SkinTreeBuild::TreeFailed(e) => {
                    &&& failure is Some
                    &&& failure->0@ == AnchorFault::Deformer(e@)
                    &&& final(self)@ == after_item(old(self)@, None)
                    &&& final(registry)@ == old(registry)@
                },
            },
    {
        proof {
            use_type_invariant(&*self);
        }
        match registry.record_skin_tree(self.dna.head_id, self.dna.torso_id, build) {
            Ok(()) => None,
            Err(error) => {
                self.skip();
                Some(error)
            },
        }
    }

    /// Takes the outcome of finding anchors. If it failed, the item is passed
    /// over, and the failure reported.
    pub fn anchors_built<T, A>(
        &mut self,
        registry: &mut Registry<T, A>,
        build: Result<A, String>,
    ) -> (failure: Option<ClothingAnchorError>)
        requires
            old(self)@.next < old(self)@.dna.equipped.len(),
            body_loaded(old(registry)@, old(self)@.dna.head_id, old(self)@.dna.torso_id),
            old(registry)@.parts.contains_key(old(self)@.dna.equipped[old(self)@.next]),
        ensures
            match build {
                Ok(anchors) => {
                    &&& failure is None
                    &&& final(self)@ == old(self)@
                    &&& final(registry)@ == with_anchors(
                        old(registry)@,
                        old(self)@.dna.head_id,
                        old(self)@.dna.torso_id,
                        old(self)@.dna.equipped[old(self)@.next],
                        anchors,
                    )
                },
                Err(e) => {
                    &&& failure is Some
                    &&& failure->0@ == AnchorFault::Deformer(e@)
                    &&& final(self)@ == after_item(old(self)@, None)
                    &&& final(registry)@ == old(registry)@
                },
            },
    {
        proof {
            use_type_invariant(&*self);
        }
        let clothing_id: u32 = self.equipped[self.next];
        match registry.record_clothing_anchors(
            self.dna.head_id,
            self.dna.torso_id,
            clothing_id,
            build,
        ) {
            Ok(()) => None,
            Err(error) => {
                self.skip();
                Some(error)
            },
        }
    }

    /// Passes over the next item.
    fn skip(&mut self)
        requires
            old(self)@.next < old(self)@.dna.equipped.len(),
        ensures
            final(self)@ == after_item(old(self)@, None),
    {
        proof {
            use_type_invariant(&*self);
        }
        self.next = self.next + 1;
    }

    /// Takes the outcome of fitting the next item to the shaped skin. If it
    /// was fitted it is worn, with the indices of its part; if not, it is
    /// passed over.
    pub fn fitted<T, A>(
        &mut self,
        registry: &Registry<T, A>,
        outcome: Result<Vec<SkinnedVertex>, String>,
    )
        requires
            old(self)@.next < old(self)@.dna.equipped.len(),
            registry@.parts.contains_key(old(self)@.dna.equipped[old(self)@.next]),
        ensures
            final(self)@ == after_item(
                old(self)@,
                match outcome {
                    Ok(vertices) => Some(
                        PartSpec {
                            vertices: vertices@,
                            indices: registry@.parts[old(
                                self,
                            )@.dna.equipped[old(self)@.next]].indices,
                        },
                    ),
                    Err(_) => None,
                },
            ),
    {
        proof {
            use_type_invariant(&*self);
        }
        if let (Ok(vertices), Some(clothing)) = (outcome, registry.part(self.equipped[self.next])) {
            let mut fitted: Vec<PartData> = Vec::new();
            std::mem::swap(&mut fitted, &mut self.fitted);
            let ghost before = fitted@;
            let item = PartData { vertices, indices: clothing.indices.clone() };
            fitted.push(item);
            assert(part_list(fitted@) =~= part_list(before).push(item@));
            self.fitted = fitted;
        }
        self.skip();
    }

    /// What is to be merged in the end: the body, and then what is worn.
    pub fn parts_to_merge(&self) -> (parts: Vec<&PartData>)
        ensures
            parts@.len() == merge_list(self@).len(),
            forall|i: int|
                0 <= i < parts@.len() ==> (#[trigger] parts@[i])@ == merge_list(self@)[i],
    {
        let mut parts: Vec<&PartData> = Vec::with_capacity(self.fitted.len());
        parts.push(&self.body);
        let mut i: usize = 0;
        while i < self.fitted.len()
            invariant
                i <= self.fitted@.len(),
                parts@.len() == i + 1,
                forall|j: int| 0 <= j <= i ==> (#[trigger] parts@[j])@ == merge_list(self@)[j],
            decreases self.fitted@.len() - i,
        {
            parts.push(&self.fitted[i]);
            i += 1;
        }
        parts
    }

    /// Takes the outcome of the last merge, and hands out the character.
    pub fn finish(self, last_error: &mut Option<String>, outcome: Result<PartData, String>) -> (
    buffer: Option<MeshOutputBuffer>)
        requires
            self@.next == self@.dna.equipped.len(),
        ensures
            match outcome {
                Ok(mesh) => {
                    &&& buffer is Some
                    &&& buffer->0.vertices == mesh.vertices
                    &&& buffer->0.indices == mesh.indices
                    &&& buffer->0.vertices_count == mesh.vertices@.len() as u32
                    &&& buffer->0.indices_count == mesh.indices@.len() as u32
                    &&& *final(last_error) == *old(last_error)
                },
                Err(e) => {
                    &&& buffer is None
                    &&& *final(last_error) is Some
                    &&& final(last_error)->0@
                        == "generate_character: failed to merge fitted clothing onto body: "@ + e@
                },
            },
    {
        match outcome {
            Ok(mesh) => {
                let vertices_count: u32 = #[verifier::truncate]
                (mesh.vertices.len() as u32);
                let indices_count: u32 = #[verifier::truncate]
                (mesh.indices.len() as u32);
                Some(
                    MeshOutputBuffer {
                        vertices: mesh.vertices,
                        indices: mesh.indices,
                        vertices_count,
                        indices_count,
                    },
                )
            },
            Err(e) => {
                *last_error =
                Some(
                    joined(
                        "generate_character: failed to merge fitted clothing onto body: ",
                        e.as_str(),
                    ),
                );
                None
            },
        }
    }
}

/// A dressing after several items were dealt with, one after the other.
pub open spec fn after_items(s: DressingSpec, worn: Seq<Option<PartSpec>>) -> DressingSpec
    decreases worn.len(),
{
    if worn.len() == 0 {
        s
    } else {
        after_item(after_items(s, worn.drop_last()), worn.last())
    }
}

/// The items that could be worn, in order.
pub open spec fn worn_only(worn: Seq<Option<PartSpec>>) -> Seq<PartSpec>
    decreases worn.len(),
{
    if worn.len() == 0 {
        seq![]
    } else {
        match worn.last() {
            Some(item) => worn_only(worn.drop_last()).push(item),
            None => worn_only(worn.drop_last()),
        }
    }
}

/// A clothing item that cannot be worn is left out, and that is all: whatever
/// becomes of each item, the character gets its body, unchanged, and the items
/// that could be worn, in the order in which they are equipped.
pub proof fn law_clothing_failures_are_not_fatal(s: DressingSpec, worn: Seq<Option<PartSpec>>)
    ensures
        after_items(s, worn).next == s.next + worn.len(),
        after_items(s, worn).dna == s.dna,
        merge_list(after_items(s, worn)) == merge_list(s) + worn_only(worn),
    decreases worn.len(),
{
    if worn.len() > 0 {
        let front = worn.drop_last();
        law_clothing_failures_are_not_fatal(s, front);
        match worn.last() {
            Some(item) => {
                assert(merge_list(after_items(s, worn)) =~= merge_list(after_items(s, front)).push(
                    item,
                ));
                assert((merge_list(s) + worn_only(front)).push(item) =~= merge_list(s) + worn_only(
                    front,
                ).push(item));
            },
            None => {},
        }
    } else {
        assert(merge_list(s) + worn_only(worn) =~= merge_list(s));
    }
}

/// How many steps and builds are left, at most, until all items are dealt with.
pub open spec fn work_left<T, A>(r: RegistrySpec<T, A>, s: DressingSpec) -> int {
    if s.next >= s.dna.equipped.len() {
        0
    } else {
        3 * (s.dna.equipped.len() - s.next - 1) + match dress_step(r, s) {
            DressSpec::BuildSkinTree { .. } => 3int,
            DressSpec::BuildAnchors { .. } => 2int,
            _ => 1int,
        }
    }
}

/// Dressing comes to an end: whatever is done for the next item, be it left
/// out, worn, or a build recorded that was asked for, leaves less to do. And
/// what others record, for whatever loaded parts, never makes it more.
pub proof fn law_dressing_comes_to_an_end<T, A>(
    r: RegistrySpec<T, A>,
    s: DressingSpec,
    worn: Option<PartSpec>,
    tree: T,
    anchors: A,
    head_id: u32,
    torso_id: u32,
    clothing_id: u32,
)
    requires
        0 <= s.next < s.dna.equipped.len(),
        r.parts.contains_key(head_id),
        r.parts.contains_key(torso_id),
        r.parts.contains_key(clothing_id),
    ensures
        work_left(r, after_item(s, worn)) < work_left(r, s),
        dress_step(r, s) is BuildSkinTree ==> work_left(
            with_skin_tree(r, s.dna.head_id, s.dna.torso_id, tree),
            s,
        ) < work_left(r, s),
        dress_step(r, s) is BuildAnchors ==> work_left(
            with_anchors(r, s.dna.head_id, s.dna.torso_id, s.dna.equipped[s.next], anchors),
            s,
        ) < work_left(r, s),
        work_left(with_skin_tree(r, head_id, torso_id, tree), s) <= work_left(r, s),
        work_left(with_anchors(r, head_id, torso_id, clothing_id, anchors), s) <= work_left(r, s),
{
}

/// Items that are left out do not count: two dressings of one body that differ
/// only in what is left out, wherever it stands, merge the same parts in the
/// same order.
pub proof fn law_left_out_items_do_not_count(
    s: DressingSpec,
    other: DressingSpec,
    worn: Seq<Option<PartSpec>>,
    other_worn: Seq<Option<PartSpec>>,
)
    requires
        merge_list(s) == merge_list(other),
        worn_only(worn) == worn_only(other_worn),
    ensures
        merge_list(after_items(s, worn)) == merge_list(after_items(other, other_worn)),
{
    law_clothing_failures_are_not_fatal(s, worn);
    law_clothing_failures_are_not_fatal(other, other_worn);
}

/// The outside work behind a character, as functions of what it is given:
/// merging parts, shaping a skin by the height and weight modifiers, fitting a
/// clothing item to a shaped skin with its anchors, and what is behind the
/// caches. Nothing comes of work that fails.
#[verifier::reject_recursive_types(T)]
#[verifier::reject_recursive_types(A)]
pub struct Workshop<T, A> {
    pub merge: spec_fn(Seq<PartSpec>) -> Option<PartSpec>,
    pub shape: spec_fn(Seq<SkinnedVertex>, u32, u32) -> Option<Seq<SkinnedVertex>>,
    pub fit: spec_fn(Seq<SkinnedVertex>, PartSpec, A, u32, u32) -> Option<Seq<SkinnedVertex>>,
    pub builders: Builders<T, A>,
}

/// What comes of fitting a clothing item: worn with the indices of its part, or
/// left out.
pub open spec fn fitted_item<T, A>(
    s: DressingSpec,
    clothing: PartSpec,
    anchors: A,
    shop: Workshop<T, A>,
) -> Option<PartSpec> {
    match (shop.fit)(
        s.body.vertices,
        clothing,
        anchors,
        s.dna.height_modifier,
        s.dna.weight_modifier,
    ) {
        Some(vertices) => Some(PartSpec { vertices, indices: clothing.indices }),
        None => None,
    }
}

/// A registry and a dressing after what [`Dressing::advance`] asks for was done
/// and taken.
pub open spec fn dressed_on<T, A>(
    r: RegistrySpec<T, A>,
    s: DressingSpec,
    shop: Workshop<T, A>,
) -> (RegistrySpec<T, A>, DressingSpec) {
    let left_out = after_item(s, None);
    match dress_step(r, s) {
        DressSpec::Done => (r, s),
        DressSpec::Unknown { .. } => (r, left_out),
        DressSpec::NoAnchors { .. } => (r, left_out),
        DressSpec::BuildSkinTree { head, torso, .. } => match (shop.builders.tree)(head, torso) {
            Some(tree) => (with_skin_tree(r, s.dna.head_id, s.dna.torso_id, tree), s),
            None => (r, left_out),
        },
        DressSpec::BuildAnchors { clothing_id, clothing, tree } => match (shop.builders.anchors)(
            clothing,
            tree,
        ) {
            Some(anchors) => (
                with_anchors(r, s.dna.head_id, s.dna.torso_id, clothing_id, anchors),
                s,
            ),
            None => (r, left_out),
        },
        DressSpec::Fit { clothing, anchors, .. } => (
            r,
            after_item(s, fitted_item(s, clothing, anchors, shop)),
        ),
    }
}

/// A registry and a dressing after all items were dealt with.
pub open spec fn dressed<T, A>(
    r: RegistrySpec<T, A>,
    s: DressingSpec,
    shop: Workshop<T, A>,
) -> (RegistrySpec<T, A>, DressingSpec)
    decreases work_left(r, s),
{
    if 0 <= s.next < s.dna.equipped.len() {
        let (grown, further) = dressed_on(r, s, shop);
        dressed(grown, further, shop)
    } else {
        (r, s)
    }
}

/// What came of fitting a clothing item, if anything did.
pub open spec fn vertices_made(outcome: Result<Vec<SkinnedVertex>, String>) -> Option<
    Seq<SkinnedVertex>,
> {
    match outcome {
        Ok(vertices) => Some(vertices@),
        Err(_) => None,
    }
}

/// Whether executable functions do the work on clothing that a workshop stands
/// for.
pub open spec fn fitted_by<T, A, F, G, H>(
    build_tree: F,
    build_anchors: G,
    fit: H,
    shop: Workshop<T, A>,
) -> bool where
    F: Fn(&PartData, &PartData) -> SkinTreeBuild<T>,
    G: Fn(&PartData, &T) -> Result<A, String>,
    H: Fn(&PartData, &PartData, &A, u32, u32) -> Result<Vec<SkinnedVertex>, String>,
 {
    &&& built_by(build_tree, build_anchors, shop.builders)
    &&& forall|
        skin: &PartData,
        clothing: &PartData,
        anchors: &A,
        height: u32,
        weight: u32,
        outcome: Result<Vec<SkinnedVertex>, String>,
    | #[trigger]
        call_ensures(fit, (skin, clothing, anchors, height, weight), outcome) ==> vertices_made(
            outcome,
        ) == (shop.fit)(skin@.vertices, clothing@, *anchors, height, weight)
}

impl Dressing {
    /// Deals with all items that are left, with nobody else using the registry:
    /// does what each asks for and takes what came of it. An item that cannot
    /// be worn is left out.
    pub fn dress<T, A, F, G, H>(
        &mut self,
        registry: &mut Registry<T, A>,
        build_tree: F,
        build_anchors: G,
        fit: H,
    ) where
        F: Fn(&PartData, &PartData) -> SkinTreeBuild<T>,
        G: Fn(&PartData, &T) -> Result<A, String>,
        H: Fn(&PartData, &PartData, &A, u32, u32) -> Result<Vec<SkinnedVertex>, String>,

        requires
            forall|head: &PartData, torso: &PartData| call_requires(build_tree, (head, torso)),
            forall|clothing: &PartData, tree: &T| call_requires(build_anchors, (clothing, tree)),
            forall|skin: &PartData, clothing: &PartData, anchors: &A, height: u32, weight: u32|
                call_requires(fit, (skin, clothing, anchors, height, weight)),
        ensures
            final(self)@.dna == old(self)@.dna,
            final(self)@.body == old(self)@.body,
            final(self)@.next == old(self)@.dna.equipped.len(),
            keeps(final(registry)@, old(registry)@),
            forall|shop: Workshop<T, A>| #[trigger]
                fitted_by(build_tree, build_anchors, fit, shop) ==> (
                final(registry)@,
                final(self)@,
                ) == dressed(old(registry)@, old(self)@, shop),
    {
        proof {
            use_type_invariant(&*self);
        }
        let ghost start = self@;
        let ghost before = registry@;
        loop
            invariant
                self@.dna == start.dna,
                self@.body == start.body,
                0 <= self@.next <= start.dna.equipped.len(),
                keeps(registry@, before),
                forall|head: &PartData, torso: &PartData| call_requires(build_tree, (head, torso)),
                forall|clothing: &PartData, tree: &T|
                    call_requires(build_anchors, (clothing, tree)),
                forall|skin: &PartData, clothing: &PartData, anchors: &A, height: u32, weight: u32|
                    call_requires(fit, (skin, clothing, anchors, height, weight)),
                forall|shop: Workshop<T, A>| #[trigger]
                    fitted_by(build_tree, build_anchors, fit, shop) ==> dressed(
                        registry@,
                        self@,
                        shop,
                    ) == dressed(before, start, shop),
            ensures
                self@.dna == start.dna,
                self@.body == start.body,
                self@.next == start.dna.equipped.len(),
                keeps(registry@, before),
                forall|shop: Workshop<T, A>| #[trigger]
                    fitted_by(build_tree, build_anchors, fit, shop) ==> (registry@, self@)
                        == dressed(before, start, shop),
            decreases work_left(registry@, self@),
        {
            let ghost r = registry@;
            let ghost s = self@;
            match self.advance(&*registry) {
                DressStep::Done => {
                    break;
                },
                DressStep::Unknown { .. } => {},
                DressStep::NoAnchors { .. } => {},
                DressStep::BuildSkinTree { head, torso, .. } => {
                    let build = build_tree(head, torso);
                    let _ = self.tree_built(registry, build);
                },
                DressStep::BuildAnchors { clothing, tree, .. } => {
                    let build = build_anchors(clothing, tree);
                    let _ = self.anchors_built(registry, build);
                },
                DressStep::Fit { clothing, anchors, .. } => {
                    let outcome = fit(
                        self.body(),
                        clothing,
                        anchors,
                        self.dna().height_modifier,
                        self.dna().weight_modifier,
                    );
                    self.fitted(&*registry, outcome);
                },
            }
            proof {
                assert forall|shop: Workshop<T, A>| #[trigger]
                    fitted_by(build_tree, build_anchors, fit, shop) implies dressed(
                    registry@,
                    self@,
                    shop,
                ) == dressed(before, start, shop) by {
                    assert((registry@, self@) == dressed_on(r, s, shop));
                }
            }
        }
    }
}

/// The character that comes of a DNA, if one does, stage by stage: head and
/// torso are merged, the skin is shaped, each item is dealt with, and all is
/// merged.
pub open spec fn character<T, A>(
    r: RegistrySpec<T, A>,
    dna: DnaSpec,
    shop: Workshop<T, A>,
) -> Option<PartSpec> {
    if start_fault(Some(r), Some(dna)) is Some {
        None
    } else {
        match (shop.merge)(seq![r.parts[dna.head_id], r.parts[dna.torso_id]]) {
            None => None,
            Some(body) => match (shop.shape)(
                body.vertices,
                dna.height_modifier,
                dna.weight_modifier,
            ) {
                None => None,
                Some(vertices) => (shop.merge)(
                    merge_list(
                        dressed(
                            r,
                            DressingSpec {
                                dna,
                                body: PartSpec { vertices, indices: body.indices },
                                next: 0,
                                fitted: seq![],
                            },
                            shop,
                        ).1,
                    ),
                ),
            },
        }
    }
}

/// The ids, from position `from` on, that name loaded parts.
pub open spec fn known_items(parts: Map<u32, PartSpec>, ids: Seq<u32>, from: int) -> Seq<u32>
    decreases ids.len() - from,
{
    if 0 <= from < ids.len() {
        if parts.contains_key(ids[from]) {
            seq![ids[from]] + known_items(parts, ids, from + 1)
        } else {
            known_items(parts, ids, from + 1)
        }
    } else {
        seq![]
    }
}

/// An id that names no loaded part adds nothing to the ids that do, wherever it
/// is put.
pub proof fn law_an_unknown_id_adds_nothing(
    parts: Map<u32, PartSpec>,
    ids: Seq<u32>,
    at: int,
    id: u32,
    from: int,
)
    requires
        0 <= from <= at <= ids.len(),
        !parts.contains_key(id),
    ensures
        known_items(parts, ids.insert(at, id), from) == known_items(parts, ids, from),
    decreases at - from,
{
    let more = ids.insert(at, id);
    if from < at {
        assert(more[from] == ids[from]);
        law_an_unknown_id_adds_nothing(parts, ids, at, id, from + 1);
    } else {
        lemma_shifted_items(parts, ids, more, at);
    }
}

/// Ids that are the same but for one more at the front name the same parts.
proof fn lemma_shifted_items(
    parts: Map<u32, PartSpec>,
    ids: Seq<u32>,
    more: Seq<u32>,
    from: int,
)
    requires
        0 <= from <= ids.len(),
        more.len() == ids.len() + 1,
        forall|i: int| from <= i < ids.len() ==> more[i + 1] == #[trigger] ids[i],
    ensures
        known_items(parts, more, from + 1) == known_items(parts, ids, from),
    decreases ids.len() - from,
{
    if from < ids.len() {
        assert(more[from + 1] == ids[from]);
        lemma_shifted_items(parts, ids, more, from + 1);
    }
}

/// Whether two dressings of one body have come equally far, and have the same
/// loaded items before them.
pub open spec fn dresses_alike(
    parts: Map<u32, PartSpec>,
    s: DressingSpec,
    other: DressingSpec,
) -> bool {
    &&& 0 <= s.next <= s.dna.equipped.len()
    &&& 0 <= other.next <= other.dna.equipped.len()
    &&& s.dna.head_id == other.dna.head_id
    &&& s.dna.torso_id == other.dna.torso_id
    &&& s.dna.height_modifier == other.dna.height_modifier
    &&& s.dna.weight_modifier == other.dna.weight_modifier
    &&& s.body == other.body
    &&& s.fitted == other.fitted
    &&& known_items(parts, s.dna.equipped, s.next) == known_items(
        parts,
        other.dna.equipped,
        other.next,
    )
}

/// Dressing deals with every item, and leaves the body and the parts as they
/// are.
pub proof fn law_dressing_deals_with_every_item<T, A>(
    r: RegistrySpec<T, A>,
    s: DressingSpec,
    shop: Workshop<T, A>,
)
    requires
        0 <= s.next <= s.dna.equipped.len(),
    ensures
        dressed(r, s, shop).0.parts == r.parts,
        dressed(r, s, shop).1.dna == s.dna,
        dressed(r, s, shop).1.body == s.body,
        dressed(r, s, shop).1.next == s.dna.equipped.len(),
    decreases work_left(r, s),
{
    if s.next < s.dna.equipped.len() {
        let (grown, further) = dressed_on(r, s, shop);
        law_dressing_deals_with_every_item(grown, further, shop);
    }
}

/// An equipped item that names no loaded part is always left out, without any
/// work: dressing goes on as if it had not been there.
pub proof fn law_an_unknown_item_is_left_out<T, A>(
    r: RegistrySpec<T, A>,
    s: DressingSpec,
    shop: Workshop<T, A>,
)
    requires
        0 <= s.next < s.dna.equipped.len(),
        !r.parts.contains_key(s.dna.equipped[s.next]),
    ensures
        dress_step(r, s) == (DressSpec::<T, A>::Unknown { clothing_id: s.dna.equipped[s.next] }),
        dressed(r, s, shop) == dressed(r, after_item(s, None), shop),
{
}

/// Dressings of one body with the same loaded items before them end up with the
/// same caches and the same parts to merge, whatever else is in their lists.
pub proof fn law_unknown_items_leave_the_dressing<T, A>(
    r: RegistrySpec<T, A>,
    s: DressingSpec,
    other: DressingSpec,
    shop: Workshop<T, A>,
)
    requires
        dresses_alike(r.parts, s, other),
    ensures
        dressed(r, s, shop).0 == dressed(r, other, shop).0,
        merge_list(dressed(r, s, shop).1) == merge_list(dressed(r, other, shop).1),
    decreases work_left(r, s) + work_left(r, other),
{
    let ids = s.dna.equipped;
    let other_ids = other.dna.equipped;
    if s.next < ids.len() && !r.parts.contains_key(ids[s.next]) {
        law_unknown_items_leave_the_dressing(r, after_item(s, None), other, shop);
    } else if other.next < other_ids.len() && !r.parts.contains_key(other_ids[other.next]) {
        law_unknown_items_leave_the_dressing(r, s, after_item(other, None), shop);
    } else {
        let known = known_items(r.parts, ids, s.next);
        if s.next < ids.len() {
            let rest = known_items(r.parts, ids, s.next + 1);
            let other_rest = known_items(r.parts, other_ids, other.next + 1);
            assert(known == seq![ids[s.next]] + rest);
            assert(known.len() > 0);
            assert(other.next < other_ids.len());
            assert(known == seq![other_ids[other.next]] + other_rest);
            assert(ids[s.next] == known[0] == other_ids[other.next]);
            assert(rest == known.skip(1));
            assert(other_rest == known.skip(1));
            let (grown, further) = dressed_on(r, s, shop);
            let (other_grown, other_further) = dressed_on(r, other, shop);
            law_unknown_items_leave_the_dressing(grown, further, other_further, shop);
        } else if other.next < other_ids.len() {
            assert(known == seq![other_ids[other.next]] + known_items(
                r.parts,
                other_ids,
                other.next + 1,
            ));
            assert(known.len() > 0);
        }
    }
}

/// Equipped items that name no loaded part change nothing: two DNAs that differ
/// only by such items come to the same character, or both to none. A list that
/// is missing or empty is one without items.
pub proof fn law_unknown_clothing_leaves_the_character<T, A>(
    r: RegistrySpec<T, A>,
    dna: DnaSpec,
    equipped: Seq<u32>,
    shop: Workshop<T, A>,
)
    requires
        known_items(r.parts, equipped, 0) == known_items(r.parts, dna.equipped, 0),
    ensures
        character(r, DnaSpec { equipped, ..dna }, shop) == character(r, dna, shop),
{
    let other = DnaSpec { equipped, ..dna };
    if start_fault(Some(r), Some(dna)) is None {
        if let Some(body) = (shop.merge)(seq![r.parts[dna.head_id], r.parts[dna.torso_id]]) {
            if let Some(vertices) = (shop.shape)(
                body.vertices,
                dna.height_modifier,
                dna.weight_modifier,
            ) {
                let shaped = PartSpec { vertices, indices: body.indices };
                law_unknown_items_leave_the_dressing(
                    r,
                    DressingSpec { dna: other, body: shaped, next: 0, fitted: seq![] },
                    DressingSpec { dna, body: shaped, next: 0, fitted: seq![] },
                    shop,
                );
            }
        }
    }
}

/// A character with a list that is missing wears what one with a count of 0
/// wears: nothing.
pub proof fn law_a_missing_list_is_empty(ids: Option<Vec<u32>>, count: u32)
    ensures
        equipped_items(None, count) == Seq::<u32>::empty(),
        equipped_items(ids, 0) == Seq::<u32>::empty(),
{
}

} // verus!
