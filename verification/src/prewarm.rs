//! Filling the caches ahead of time.
//!
//! Prewarming is never needed: anchors are built on first use. It only moves
//! the work to a time when nobody waits, such as a loading screen.

use vstd::prelude::*;

use crate::registry::{
    anchor_step, anchors_for, body_loaded, built_by, keeps, with_anchors, with_skin_tree, AnchorFault,
    AnchorSpec, AnchorStep, Builders, ClothingAnchorError, PartData, Registry, RegistrySpec,
    SkinTreeBuild,
};

verus! {

/// A walk over clothing items that are to be ready for one body.
pub struct Prewarm {
    head_id: u32,
    torso_id: u32,
    clothing_ids: Vec<u32>,
    next: usize,
}

/// A [`Prewarm`] over mathematical sequences. The items before `next` are
/// dealt with.
pub struct PrewarmSpec {
    pub head_id: u32,
    pub torso_id: u32,
    pub clothing_ids: Seq<u32>,
    pub next: int,
}

impl View for Prewarm {
    type V = PrewarmSpec;

    closed spec fn view(&self) -> PrewarmSpec {
        PrewarmSpec {
            head_id: self.head_id,
            torso_id: self.torso_id,
            clothing_ids: self.clothing_ids@,
            next: self.next as int,
        }
    }
}

/// What a walk needs next.
#[derive(Debug)]
pub enum PrewarmStep<'a, T> {
    /// Nothing more.
    Done,
    /// Nothing: this item cannot be made ready and was passed over.
    Skipped { clothing_id: u32, error: ClothingAnchorError },
    /// The skin tree of the body, from the parts that it is merged of.
    BuildSkinTree { clothing_id: u32, head: &'a PartData, torso: &'a PartData },
    /// The anchors of this item, found with the skin tree.
    BuildAnchors { clothing_id: u32, clothing: &'a PartData, tree: &'a T },
}

/// What has to be done for item `i` of a walk.
pub open spec fn item_step<T, A>(r: RegistrySpec<T, A>, walk: PrewarmSpec, i: int) -> AnchorSpec<
    T,
    A,
> {
    anchor_step(r, walk.head_id, walk.torso_id, walk.clothing_ids[i])
}

/// Whether the items from `from` up to `upto` are all ready.
pub open spec fn all_ready<T, A>(
    r: RegistrySpec<T, A>,
    walk: PrewarmSpec,
    from: int,
    upto: int,
) -> bool {
    forall|i: int| from <= i < upto ==> #[trigger] item_step(r, walk, i) is Ready
}

/// Whether every item that is dealt with is ready or among those given up.
pub open spec fn covered<T, A>(
    r: RegistrySpec<T, A>,
    walk: PrewarmSpec,
    given_up: Set<u32>,
) -> bool {
    forall|i: int|
        0 <= i < walk.next ==> #[trigger] item_step(r, walk, i) is Ready || given_up.contains(
            walk.clothing_ids[i],
        )
}

/// A walk that has got to item `next`.
pub open spec fn moved_to(walk: PrewarmSpec, next: int) -> PrewarmSpec {
    PrewarmSpec { next, ..walk }
}

impl Prewarm {
    #[verifier::type_invariant]
    spec fn within(&self) -> bool {
        self.next <= self.clothing_ids@.len()
    }

    /// A walk over `clothing_ids`, from the first.
    pub fn new(head_id: u32, torso_id: u32, clothing_ids: Vec<u32>) -> (walk: Prewarm)
        ensures
            walk@ == (PrewarmSpec { head_id, torso_id, clothing_ids: clothing_ids@, next: 0 }),
    {
        Prewarm { head_id, torso_id, clothing_ids, next: 0 }
    }

    /// Passes over the items that are ready, up to the first that is not. If
    /// that one cannot be made ready it is passed over too, and reported.
    pub fn advance<'a, T, A>(&mut self, registry: &'a Registry<T, A>) -> (step: PrewarmStep<'a, T>)
        ensures
            final(self)@ == moved_to(old(self)@, final(self)@.next),
            old(self)@.next <= final(self)@.next <= old(self)@.clothing_ids.len(),
            step is BuildSkinTree || step is BuildAnchors ==> body_loaded(
                registry@,
                old(self)@.head_id,
                old(self)@.torso_id,
            ),
            match step {
                PrewarmStep::Done => {
                    &&& final(self)@.next == old(self)@.clothing_ids.len()
                    &&& all_ready(registry@, old(self)@, old(self)@.next, final(self)@.next)
                },
                PrewarmStep::Skipped { clothing_id, error } => {
                    let at = final(self)@.next - 1;
                    &&& old(self)@.next <= at
                    &&& clothing_id == old(self)@.clothing_ids[at]
                    &&& item_step(registry@, old(self)@, at) == AnchorSpec::<T, A>::Failed(error@)
                    &&& all_ready(registry@, old(self)@, old(self)@.next, at)
                },
                PrewarmStep::BuildSkinTree { clothing_id, head, torso } => {
                    let at = final(self)@.next;
                    &&& at < old(self)@.clothing_ids.len()
                    &&& clothing_id == old(self)@.clothing_ids[at]
                    &&& item_step(registry@, old(self)@, at) == (AnchorSpec::<
                        T,
                        A,
                    >::BuildSkinTree { head: head@, torso: torso@ })
                    &&& all_ready(registry@, old(self)@, old(self)@.next, at)
                },
                PrewarmStep::BuildAnchors { clothing_id, clothing, tree } => {
                    let at = final(self)@.next;
                    &&& at < old(self)@.clothing_ids.len()
                    &&& clothing_id == old(self)@.clothing_ids[at]
                    &&& item_step(registry@, old(self)@, at) == (AnchorSpec::<
                        T,
                        A,
                    >::BuildAnchors { clothing: clothing@, tree: *tree })
                    &&& all_ready(registry@, old(self)@, old(self)@.next, at)
                },
            },
    {
        proof {
            use_type_invariant(&*self);
        }
        let head_id: u32 = self.head_id;
        let torso_id: u32 = self.torso_id;
        let len: usize = self.clothing_ids.len();
        let mut at: usize = self.next;
        let ghost walk = self@;
        while at < len
            invariant
                len == self.clothing_ids@.len(),
                at <= len,
                walk == self@,
                walk == old(self)@,
                walk.next <= at,
                head_id == self.head_id,
                torso_id == self.torso_id,
                all_ready(registry@, walk, walk.next, at as int),
            decreases len - at,
        {
            let clothing_id: u32 = self.clothing_ids[at];
            let ghost wanted = item_step(registry@, walk, at as int);
            match registry.get_or_build_clothing_anchors(head_id, torso_id, clothing_id) {
                AnchorStep::Ready(_) => {
                    assert(wanted is Ready);
                },
                AnchorStep::Failed(error) => {
                    assert(wanted == AnchorSpec::<T, A>::Failed(error@));
                    self.next = at + 1;
                    return PrewarmStep::Skipped { clothing_id, error };
                },
                AnchorStep::BuildSkinTree { head, torso } => {
                    self.next = at;
                    return PrewarmStep::BuildSkinTree { clothing_id, head, torso };
                },
                AnchorStep::BuildAnchors { clothing, tree } => {
                    self.next = at;
                    return PrewarmStep::BuildAnchors { clothing_id, clothing, tree };
                },
            }
            at += 1;
        }
        self.next = at;
        PrewarmStep::Done
    }

    /// Takes the outcome of building the skin tree. If it failed, the item
    /// that it was built for is passed over, and the failure reported.
    pub fn tree_built<T, A>(
        &mut self,
        registry: &mut Registry<T, A>,
        build: SkinTreeBuild<T>,
    ) -> (failure: Option<ClothingAnchorError>)
        requires
            old(self)@.next < old(self)@.clothing_ids.len(),
            body_loaded(old(registry)@, old(self)@.head_id, old(self)@.torso_id),
        ensures
            match build {
                SkinTreeBuild::Built(tree) => {
                    &&& failure is None
                    &&& final(self)@ == old(self)@
                    &&& final(registry)@ == with_skin_tree(
                        old(registry)@,
                        old(self)@.head_id,
                        old(self)@.torso_id,
                        tree,
                    )
                },
                SkinTreeBuild::MergeFailed(e) => {
                    &&& failure is Some
                    &&& failure->0@ == AnchorFault::MeshMerge(e@)
                    &&& final(self)@ == moved_to(old(self)@, old(self)@.next + 1)
                    &&& final(registry)@ == old(registry)@
                },
                SkinTreeBuild::TreeFailed(e) => {
                    &&& failure is Some
                    &&& failure->0@ == AnchorFault::Deformer(e@)
                    &&& final(self)@ == moved_to(old(self)@, old(self)@.next + 1)
                    &&& final(registry)@ == old(registry)@
                },
            },
    {
        assert(self.next < self.clothing_ids.len());
        match registry.record_skin_tree(self.head_id, self.torso_id, build) {
            Ok(()) => None,
            Err(error) => {
                self.next = self.next + 1;
                Some(error)
            },
        }
    }

    /// Takes the outcome of finding anchors, and goes on to the next item. A
    /// failure is reported.
    pub fn anchors_built<T, A>(
        &mut self,
        registry: &mut Registry<T, A>,
        build: Result<A, String>,
    ) -> (failure: Option<ClothingAnchorError>)
        requires
            old(self)@.next < old(self)@.clothing_ids.len(),
            body_loaded(old(registry)@, old(self)@.head_id, old(self)@.torso_id),
            old(registry)@.parts.contains_key(old(self)@.clothing_ids[old(self)@.next]),
        ensures
            final(self)@ == moved_to(old(self)@, old(self)@.next + 1),
            match build {
                Ok(anchors) => {
                    &&& failure is None
                    &&& final(registry)@ == with_anchors(
                        old(registry)@,
                        old(self)@.head_id,
                        old(self)@.torso_id,
                        old(self)@.clothing_ids[old(self)@.next],
                        anchors,
                    )
                },
                Err(e) => {
                    &&& failure is Some
                    &&& failure->0@ == AnchorFault::Deformer(e@)
                    &&& final(registry)@ == old(registry)@
                },
            },
    {
        let clothing_id: u32 = self.clothing_ids[self.next];
        assert(self.next < self.clothing_ids.len());
        self.next = self.next + 1;
        match registry.record_clothing_anchors(self.head_id, self.torso_id, clothing_id, build) {
            Ok(()) => None,
            Err(error) => Some(error),
        }
    }
}

/// Passing over ready items keeps a walk covered.
pub proof fn law_passing_ready_items_keeps_covered<T, A>(
    r: RegistrySpec<T, A>,
    walk: PrewarmSpec,
    next: int,
    given_up: Set<u32>,
)
    requires
        covered(r, walk, given_up),
        all_ready(r, walk, walk.next, next),
    ensures
        covered(r, moved_to(walk, next), given_up),
{
    assert forall|i: int| 0 <= i < next implies #[trigger] item_step(r, moved_to(walk, next), i)
        is Ready || given_up.contains(walk.clothing_ids[i]) by {
        assert(item_step(r, walk, i) == item_step(r, moved_to(walk, next), i));
    }
}

/// Giving up one item concerns that item alone: the walk goes on, and stays
/// covered.
pub proof fn law_giving_up_an_item_keeps_covered<T, A>(
    r: RegistrySpec<T, A>,
    walk: PrewarmSpec,
    given_up: Set<u32>,
)
    requires
        covered(r, walk, given_up),
    ensures
        covered(
            r,
            moved_to(walk, walk.next + 1),
            given_up.insert(walk.clothing_ids[walk.next]),
        ),
{
    let moved = moved_to(walk, walk.next + 1);
    assert forall|i: int| 0 <= i < walk.next + 1 implies #[trigger] item_step(r, moved, i) is Ready
        || given_up.insert(walk.clothing_ids[walk.next]).contains(moved.clothing_ids[i]) by {
        assert(item_step(r, walk, i) == item_step(r, moved, i));
    }
}

/// What is recorded in the registry, by this walk or by anyone else, never
/// makes an item unready again.
pub proof fn law_recording_keeps_covered<T, A>(
    r: RegistrySpec<T, A>,
    walk: PrewarmSpec,
    given_up: Set<u32>,
    head_id: u32,
    torso_id: u32,
    clothing_id: u32,
    tree: T,
    anchors: A,
)
    requires
        covered(r, walk, given_up),
    ensures
        covered(with_skin_tree(r, head_id, torso_id, tree), walk, given_up),
        covered(with_anchors(r, head_id, torso_id, clothing_id, anchors), walk, given_up),
{
    let grown = with_skin_tree(r, head_id, torso_id, tree);
    let more = with_anchors(r, head_id, torso_id, clothing_id, anchors);
    assert forall|i: int| 0 <= i < walk.next implies #[trigger] item_step(grown, walk, i) is Ready
        || given_up.contains(walk.clothing_ids[i]) by {
        assert(item_step(r, walk, i) is Ready || given_up.contains(walk.clothing_ids[i]));
    }
    assert forall|i: int| 0 <= i < walk.next implies #[trigger] item_step(more, walk, i) is Ready
        || given_up.contains(walk.clothing_ids[i]) by {
        assert(item_step(r, walk, i) is Ready || given_up.contains(walk.clothing_ids[i]));
    }
}

/// A fresh walk is covered, with nothing given up, and a covered walk that has
/// reached its end leaves every item ready or given up. So one item that
/// cannot be made ready does not keep the rest from being made ready.
pub proof fn law_a_finished_walk_leaves_all_ready<T, A>(
    r: RegistrySpec<T, A>,
    walk: PrewarmSpec,
    given_up: Set<u32>,
)
    requires
        covered(r, walk, given_up),
        walk.next == walk.clothing_ids.len(),
    ensures
        covered(r, moved_to(walk, 0), Set::empty()),
        forall|i: int|
            0 <= i < walk.clothing_ids.len() && !given_up.contains(walk.clothing_ids[i])
                ==> #[trigger] item_step(r, walk, i) is Ready,
{
}

/// A registry and a walk after the next item was worked on: what
/// [`Prewarm::advance`] asks for is built, and what came of it taken.
pub open spec fn worked_on<T, A>(
    r: RegistrySpec<T, A>,
    walk: PrewarmSpec,
    builders: Builders<T, A>,
) -> (RegistrySpec<T, A>, PrewarmSpec) {
    let passed = moved_to(walk, walk.next + 1);
    match item_step(r, walk, walk.next) {
        AnchorSpec::Ready(_) => (r, passed),
        AnchorSpec::Failed(_) => (r, passed),
        AnchorSpec::BuildSkinTree { head, torso } => match (builders.tree)(head, torso) {
            Some(tree) => (with_skin_tree(r, walk.head_id, walk.torso_id, tree), walk),
            None => (r, passed),
        },
        AnchorSpec::BuildAnchors { clothing, tree } => match (builders.anchors)(clothing, tree) {
            Some(anchors) => (
                with_anchors(
                    r,
                    walk.head_id,
                    walk.torso_id,
                    walk.clothing_ids[walk.next],
                    anchors,
                ),
                passed,
            ),
            None => (r, passed),
        },
    }
}

/// Whether the next item of a walk asks for the skin tree of the body.
pub open spec fn asks_for_tree<T, A>(r: RegistrySpec<T, A>, walk: PrewarmSpec) -> int {
    if item_step(r, walk, walk.next) is BuildSkinTree {
        1
    } else {
        0
    }
}

/// The registry after a whole walk that nothing else interferes with.
pub open spec fn prewarmed<T, A>(
    r: RegistrySpec<T, A>,
    walk: PrewarmSpec,
    builders: Builders<T, A>,
) -> RegistrySpec<T, A>
    decreases walk.clothing_ids.len() - walk.next, asks_for_tree(r, walk),
{
    if 0 <= walk.next < walk.clothing_ids.len() {
        let (grown, moved) = worked_on(r, walk, builders);
        prewarmed(grown, moved, builders)
    } else {
        r
    }
}

/// The key under which the anchors of item `i` of a walk are cached.
pub open spec fn item_key(walk: PrewarmSpec, i: int) -> (u32, u32, u32) {
    (walk.head_id, walk.torso_id, walk.clothing_ids[i])
}

/// Whether an id is among the items that a walk has before it.
pub open spec fn is_ahead(walk: PrewarmSpec, clothing_id: u32) -> bool {
    exists|i: int|
        walk.next <= i < walk.clothing_ids.len() && #[trigger] walk.clothing_ids[i] == clothing_id
}

/// Whether item `i` of a walk ended up with the anchors that can be had for it,
/// and with none if there are none to be had.
pub open spec fn ended_up<T, A>(
    before: RegistrySpec<T, A>,
    after: RegistrySpec<T, A>,
    walk: PrewarmSpec,
    i: int,
    builders: Builders<T, A>,
) -> bool {
    match anchors_for(before, walk.head_id, walk.torso_id, walk.clothing_ids[i], builders) {
        Some(anchors) => item_step(after, walk, i) == AnchorSpec::<T, A>::Ready(anchors),
        None => !after.anchors.contains_key(item_key(walk, i)),
    }
}

/// Working on an item changes nothing of what is cached, nor of what can be
/// had.
proof fn lemma_worked_on<T, A>(
    r: RegistrySpec<T, A>,
    walk: PrewarmSpec,
    clothing_id: u32,
    builders: Builders<T, A>,
)
    requires
        0 <= walk.next < walk.clothing_ids.len(),
    ensures
        keeps(worked_on(r, walk, builders).0, r),
        anchors_for(
            worked_on(r, walk, builders).0,
            walk.head_id,
            walk.torso_id,
            clothing_id,
            builders,
        ) == anchors_for(r, walk.head_id, walk.torso_id, clothing_id, builders),
{
}

/// A whole walk makes every item ready that can be made ready, wherever others
/// stand in the list: its anchors are cached, and are found again. An item that
/// cannot be made ready gets no entry. What was cached before keeps its value,
/// and nothing is cached but for this body and these items.
pub proof fn law_a_walk_caches_what_can_be_had<T, A>(
    r: RegistrySpec<T, A>,
    walk: PrewarmSpec,
    builders: Builders<T, A>,
)
    requires
        0 <= walk.next,
    ensures
        keeps(prewarmed(r, walk, builders), r),
        forall|i: int|
            walk.next <= i < walk.clothing_ids.len() ==> #[trigger] ended_up(
                r,
                prewarmed(r, walk, builders),
                walk,
                i,
                builders,
            ),
        forall|item: (u32, u32, u32)| #[trigger]
            prewarmed(r, walk, builders).anchors.contains_key(item) ==> r.anchors.contains_key(item)
                || (item.0 == walk.head_id && item.1 == walk.torso_id && is_ahead(walk, item.2)),
        forall|body: (u32, u32)| #[trigger]
            prewarmed(r, walk, builders).skin_trees.contains_key(body) ==> r.skin_trees.contains_key(
                body,
            ) || body == (walk.head_id, walk.torso_id),
    decreases walk.clothing_ids.len() - walk.next, asks_for_tree(r, walk),
{
    if walk.next < walk.clothing_ids.len() {
        let (grown, moved) = worked_on(r, walk, builders);
        let after = prewarmed(r, walk, builders);
        law_a_walk_caches_what_can_be_had(grown, moved, builders);
        lemma_worked_on(r, walk, walk.clothing_ids[walk.next], builders);
        assert forall|i: int| walk.next <= i < walk.clothing_ids.len() implies #[trigger] ended_up(
            r,
            after,
            walk,
            i,
            builders,
        ) by {
            lemma_worked_on(r, walk, walk.clothing_ids[i], builders);
            if i >= moved.next {
                assert(ended_up(grown, after, moved, i, builders));
            } else {
                let key = item_key(walk, i);
                if after.anchors.contains_key(key) && !grown.anchors.contains_key(key) {
                    let j = choose|j: int|
                        moved.next <= j < moved.clothing_ids.len()
                            && #[trigger] moved.clothing_ids[j] == key.2;
                    assert(ended_up(grown, after, moved, j, builders));
                }
            }
        }
    }
}

/// Items that are ready take no part in a walk: passing over them leaves its
/// outcome as it is.
pub proof fn law_passing_ready_items_keeps_the_outcome<T, A>(
    r: RegistrySpec<T, A>,
    walk: PrewarmSpec,
    next: int,
    builders: Builders<T, A>,
)
    requires
        0 <= walk.next <= next <= walk.clothing_ids.len(),
        all_ready(r, walk, walk.next, next),
    ensures
        prewarmed(r, moved_to(walk, next), builders) == prewarmed(r, walk, builders),
    decreases next - walk.next,
{
    if walk.next < next {
        let passed = moved_to(walk, walk.next + 1);
        assert(item_step(r, walk, walk.next) is Ready);
        assert forall|i: int| passed.next <= i < next implies #[trigger] item_step(r, passed, i)
            is Ready by {
            assert(item_step(r, walk, i) is Ready);
        }
        law_passing_ready_items_keeps_the_outcome(r, passed, next, builders);
        assert(moved_to(passed, next) == moved_to(walk, next));
    } else {
        assert(moved_to(walk, next) == walk);
    }
}

/// Walks through clothing items, one after the other, with nobody else using
/// the registry: builds what each asks for and records it. An item that cannot
/// be made ready is passed over.
pub fn prewarm_clothing_anchors_impl<T, A, F, G>(
    registry: &mut Registry<T, A>,
    head_id: u32,
    torso_id: u32,
    clothing_ids: Vec<u32>,
    build_tree: F,
    build_anchors: G,
) where
    F: Fn(&PartData, &PartData) -> SkinTreeBuild<T>,
    G: Fn(&PartData, &T) -> Result<A, String>,

    requires
        forall|head: &PartData, torso: &PartData| call_requires(build_tree, (head, torso)),
        forall|clothing: &PartData, tree: &T| call_requires(build_anchors, (clothing, tree)),
    ensures
        keeps(final(registry)@, old(registry)@),
        forall|builders: Builders<T, A>| #[trigger]
            built_by(build_tree, build_anchors, builders) ==> final(registry)@ == prewarmed(
                old(registry)@,
                PrewarmSpec { head_id, torso_id, clothing_ids: clothing_ids@, next: 0 },
                builders,
            ),
{
    let mut walk = Prewarm::new(head_id, torso_id, clothing_ids);
    let ghost start = walk@;
    let ghost before = registry@;
    loop
        invariant
            start.next == 0,
            walk@ == moved_to(start, walk@.next),
            keeps(registry@, before),
            0 <= walk@.next <= start.clothing_ids.len(),
            forall|head: &PartData, torso: &PartData| call_requires(build_tree, (head, torso)),
            forall|clothing: &PartData, tree: &T| call_requires(build_anchors, (clothing, tree)),
            forall|builders: Builders<T, A>| #[trigger]
                built_by(build_tree, build_anchors, builders) ==> prewarmed(
                    registry@,
                    walk@,
                    builders,
                ) == prewarmed(before, start, builders),
        ensures
            keeps(registry@, before),
            forall|builders: Builders<T, A>| #[trigger]
                built_by(build_tree, build_anchors, builders) ==> registry@ == prewarmed(
                    before,
                    start,
                    builders,
                ),
        decreases start.clothing_ids.len() - walk@.next, asks_for_tree(registry@, walk@),
    {
        let ghost r = registry@;
        let ghost w = walk@;
        let step = walk.advance(&*registry);
        let ghost at = moved_to(
            w,
            if step is Skipped {
                walk@.next - 1
            } else {
                walk@.next
            },
        );
        proof {
            assert(item_step(r, at, at.next) == item_step(r, w, at.next));
            assert forall|builders: Builders<T, A>| #[trigger]
                built_by(build_tree, build_anchors, builders) implies prewarmed(r, at, builders)
                == prewarmed(before, start, builders) by {
                law_passing_ready_items_keeps_the_outcome(r, w, at.next, builders);
            }
        }
        match step {
            PrewarmStep::Done => {
                break;
            },
            PrewarmStep::Skipped { .. } => {},
            PrewarmStep::BuildSkinTree { head, torso, .. } => {
                let build = build_tree(head, torso);
                let _ = walk.tree_built(registry, build);
            },
            PrewarmStep::BuildAnchors { clothing, tree, .. } => {
                let build = build_anchors(clothing, tree);
                let _ = walk.anchors_built(registry, build);
            },
        }
        proof {
            assert forall|builders: Builders<T, A>| #[trigger]
                built_by(build_tree, build_anchors, builders) implies prewarmed(
                registry@,
                walk@,
                builders,
            ) == prewarmed(before, start, builders) by {
                assert((registry@, walk@) == worked_on(r, at, builders));
            }
        }
    }
}

/// The ids that were announced: as many as the count says, from the list given.
pub open spec fn announced(ids: Seq<u32>, count: u32) -> Seq<u32> {
    if count < ids.len() {
        ids.take(count as int)
    } else {
        ids
    }
}

/// A prewarming request, judged.
pub enum PrewarmRequest {
    /// No items: nothing to do.
    Nothing,
    /// Items were announced but none given.
    NullIds,
    /// There are no parts yet.
    NotInitialized,
    /// To be walked through.
    Run(Prewarm),
}

/// Judges a request to prewarm `clothing_count` items: the first that many of
/// the list. Without a list the announced count decides whether that is a
/// mistake.
pub fn anthroforge_prewarm_clothing(
    head_id: u32,
    torso_id: u32,
    clothing_ids: Option<Vec<u32>>,
    clothing_count: u32,
    registry_ready: bool,
) -> (request: PrewarmRequest)
    ensures
        if clothing_count == 0 {
            request is Nothing
        } else if clothing_ids is None {
            request is NullIds
        } else if !registry_ready {
            request is NotInitialized
        } else {
            request matches PrewarmRequest::Run(walk) && walk@ == (PrewarmSpec {
                head_id,
                torso_id,
                clothing_ids: announced(clothing_ids->0@, clothing_count),
                next: 0,
            })
        },
{
    if clothing_count == 0 {
        return PrewarmRequest::Nothing;
    }
    match clothing_ids {
        None => PrewarmRequest::NullIds,
        Some(ids) => if !registry_ready {
            PrewarmRequest::NotInitialized
        } else {
            let mut kept = ids;
            kept.truncate(clothing_count as usize);
            assert(kept@ == announced(ids@, clothing_count));
            PrewarmRequest::Run(Prewarm::new(head_id, torso_id, kept))
        },
    }
}

} // verus!
