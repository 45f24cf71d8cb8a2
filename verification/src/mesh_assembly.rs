//! Putting a mesh together from what was read of a document.

use vstd::prelude::*;

use crate::gltf_document::{option_text, NodeDecl};
use crate::gltf_error::{GltfFault, GltfLoadError};
use crate::primitive::{
    append_primitive, check_primitive, joined_indices, joined_vertices,
    law_check_accepts_the_well_formed, lemma_joined_indices_in_range, max_vertices, primitive_fault,
    well_formed, PrimitiveData, PrimitiveSpec,
};
use crate::skeleton_resolver::names_of;
use crate::vertex::SkinnedVertex;

verus! {

/// A loaded part, not yet aligned with the master skeleton: the joint numbers
/// in `vertices` are positions in `local_bone_names`.
#[derive(Debug)]
pub struct LoadedMesh {
    /// The vertices of all primitives, one after the other.
    pub vertices: Vec<SkinnedVertex>,
    /// Triangles, as positions in `vertices`.
    pub indices: Vec<u32>,
    /// The names of the skin's joints.
    pub local_bone_names: Vec<String>,
}

/// A [`LoadedMesh`] over mathematical sequences.
pub struct MeshSpec {
    pub vertices: Seq<SkinnedVertex>,
    pub indices: Seq<u32>,
    pub local_bone_names: Seq<Seq<char>>,
}

impl View for LoadedMesh {
    type V = MeshSpec;

    open spec fn view(&self) -> MeshSpec {
        MeshSpec {
            vertices: self.vertices@,
            indices: self.indices@,
            local_bone_names: names_of(self.local_bone_names@),
        }
    }
}

/// How putting primitives together goes.
pub enum Assembly {
    /// Every primitive is well-formed.
    Complete,
    /// The first primitive that is not has this fault.
    Fault(GltfFault),
    /// There are more vertices than indices can tell apart.
    Oversized,
}

/// How putting together the primitives from position `from` on goes.
pub open spec fn assembly(path: Seq<char>, list: Seq<PrimitiveSpec>, from: int) -> Assembly
    decreases list.len() - from,
{
    if 0 <= from < list.len() {
        match primitive_fault(path, 0, from as usize, list[from]) {
            Some(fault) => Assembly::Fault(fault),
            None => if joined_vertices(list.take(from + 1)).len() > max_vertices() {
                Assembly::Oversized
            } else {
                assembly(path, list, from + 1)
            },
        }
    } else {
        Assembly::Complete
    }
}

/// Whether a node shows the first mesh with a skin.
pub open spec fn shows_first_mesh(node: NodeDecl) -> bool {
    node.mesh == Some(0usize) && node.skin is Some
}

/// The skin of the first node, from position `from` on, that shows the first
/// mesh with a skin.
pub open spec fn skin_of_first_mesh(nodes: Seq<NodeDecl>, from: int) -> Option<usize>
    decreases nodes.len() - from,
{
    if 0 <= from < nodes.len() {
        if shows_first_mesh(nodes[from]) {
            nodes[from].skin
        } else {
            skin_of_first_mesh(nodes, from + 1)
        }
    } else {
        None
    }
}

/// The first joint, from position `from` on, that has no name.
pub open spec fn first_unnamed(joints: Seq<Option<Seq<char>>>, from: int) -> Option<usize>
    decreases joints.len() - from,
{
    if 0 <= from < joints.len() {
        if joints[from] is None {
            Some(from as usize)
        } else {
            first_unnamed(joints, from + 1)
        }
    } else {
        None
    }
}

/// The names of joints that all have one.
pub open spec fn joint_names(joints: Seq<Option<Seq<char>>>) -> Seq<Seq<char>> {
    Seq::new(joints.len(), |i: int| joints[i]->0)
}

/// The names of joints, as far as they have names.
pub open spec fn joint_specs(joints: Seq<Option<String>>) -> Seq<Option<Seq<char>>> {
    Seq::new(joints.len(), |i: int| option_text(joints[i]))
}

/// The joints of several skins.
pub open spec fn skin_specs(skins: Seq<Vec<Option<String>>>) -> Seq<Seq<Option<Seq<char>>>> {
    Seq::new(skins.len(), |i: int| joint_specs(skins[i]@))
}

/// What was read of several primitives.
pub open spec fn primitive_specs(list: Seq<PrimitiveData>) -> Seq<PrimitiveSpec> {
    Seq::new(list.len(), |i: int| list[i]@)
}

/// What was read of the primitives of a mesh, if there is a mesh.
pub open spec fn mesh_primitives(list: Option<Vec<PrimitiveData>>) -> Option<Seq<PrimitiveSpec>> {
    match list {
        Some(primitives) => Some(primitive_specs(primitives@)),
        None => None,
    }
}

/// Whether every node that has a skin has one that exists.
pub open spec fn skins_in_range(nodes: Seq<NodeDecl>, skin_count: nat) -> bool {
    forall|n: int|
        0 <= n < nodes.len() ==> (#[trigger] nodes[n].skin matches Some(skin) ==> skin < skin_count)
}

/// What becomes of a mesh.
pub enum MeshResult {
    /// It is put together.
    Loaded(MeshSpec),
    /// It cannot be used.
    Failed(GltfFault),
    /// It has more vertices than indices can tell apart.
    Oversized,
}

/// What becomes of the first mesh of a document, given the nodes, the joints of
/// each skin and what was read of each primitive: there has to be a mesh, a
/// node has to show it with a skin, the joints of that skin need names, and the
/// primitives have to be well-formed.
pub open spec fn assembled(
    path: Seq<char>,
    nodes: Seq<NodeDecl>,
    skins: Seq<Seq<Option<Seq<char>>>>,
    primitives: Option<Seq<PrimitiveSpec>>,
) -> MeshResult {
    match primitives {
        None => MeshResult::Failed(GltfFault::NoMeshes { path }),
        Some(list) => match skin_of_first_mesh(nodes, 0) {
            None => MeshResult::Failed(GltfFault::NoSkin { path, mesh_index: 0 }),
            Some(skin) => match first_unnamed(skins[skin as int], 0) {
                Some(joint_index) => MeshResult::Failed(
                    GltfFault::UnnamedJoint { path, joint_index },
                ),
                None => match assembly(path, list, 0) {
                    Assembly::Fault(fault) => MeshResult::Failed(fault),
                    Assembly::Oversized => MeshResult::Oversized,
                    Assembly::Complete => MeshResult::Loaded(
                        MeshSpec {
                            vertices: joined_vertices(list),
                            indices: joined_indices(list),
                            local_bone_names: joint_names(skins[skin as int]),
                        },
                    ),
                },
            },
        },
    }
}

/// What becomes of a mesh.
#[derive(Debug)]
pub enum MeshOutcome {
    Loaded(LoadedMesh),
    Failed(GltfLoadError),
    Oversized,
}

impl View for MeshOutcome {
    type V = MeshResult;

    open spec fn view(&self) -> MeshResult {
        match *self {
            MeshOutcome::Loaded(mesh) => MeshResult::Loaded(mesh@),
            MeshOutcome::Failed(error) => MeshResult::Failed(error@),
            MeshOutcome::Oversized => MeshResult::Oversized,
        }
    }
}

/// Primitives that were put together are well-formed and not too many.
pub(crate) proof fn lemma_complete_assembly(path: Seq<char>, list: Seq<PrimitiveSpec>, from: int)
    requires
        0 <= from <= list.len(),
        assembly(path, list, from) is Complete,
    ensures
        forall|p: int| from <= p < list.len() ==> well_formed(#[trigger] list[p]),
        from < list.len() ==> joined_vertices(list).len() <= max_vertices(),
    decreases list.len() - from,
{
    if from < list.len() {
        law_check_accepts_the_well_formed(path, 0, from as usize, list[from]);
        lemma_complete_assembly(path, list, from + 1);
        if from + 1 == list.len() {
            assert(list.take(from + 1) == list);
        }
    }
}

/// Whether every index of a mesh names one of its vertices.
pub open spec fn indices_in_range(mesh: MeshSpec) -> bool {
    forall|i: int|
        0 <= i < mesh.indices.len() ==> #[trigger] mesh.indices[i] < mesh.vertices.len()
}

/// Every index of a mesh that was put together names one of its vertices.
pub proof fn law_assembled_indices_in_range(
    path: Seq<char>,
    nodes: Seq<NodeDecl>,
    skins: Seq<Seq<Option<Seq<char>>>>,
    primitives: Option<Seq<PrimitiveSpec>>,
)
    ensures
        assembled(path, nodes, skins, primitives) matches MeshResult::Loaded(mesh)
            ==> indices_in_range(mesh),
{
    if assembled(path, nodes, skins, primitives) is Loaded {
        lemma_complete_assembly(path, primitives->0, 0);
        lemma_joined_indices_in_range(primitives->0);
    }
}

/// Whether nodes after `nodes` can have no say in which skin is found: one is
/// found already, or none of them shows the first mesh with a skin.
pub open spec fn later_nodes_idle(nodes: Seq<NodeDecl>, more: Seq<NodeDecl>) -> bool {
    ||| skin_of_first_mesh(nodes, 0) is Some
    ||| forall|n: int| 0 <= n < more.len() ==> !shows_first_mesh(#[trigger] more[n])
}

/// Nodes that do not show the first mesh with a skin have no skin to offer.
proof fn lemma_no_skin(nodes: Seq<NodeDecl>, from: int)
    requires
        0 <= from <= nodes.len(),
        forall|n: int| from <= n < nodes.len() ==> !shows_first_mesh(#[trigger] nodes[n]),
    ensures
        skin_of_first_mesh(nodes, from) is None,
    decreases nodes.len() - from,
{
    if from < nodes.len() {
        lemma_no_skin(nodes, from + 1);
    }
}

/// Later nodes come into play only where the earlier ones have no skin.
proof fn lemma_earlier_skin(nodes: Seq<NodeDecl>, more: Seq<NodeDecl>, from: int)
    requires
        0 <= from <= nodes.len(),
    ensures
        skin_of_first_mesh(nodes + more, from) == match skin_of_first_mesh(nodes, from) {
            Some(skin) => Some(skin),
            None => skin_of_first_mesh(nodes + more, nodes.len() as int),
        },
    decreases nodes.len() - from,
{
    if from < nodes.len() {
        assert((nodes + more)[from] == nodes[from]);
        lemma_earlier_skin(nodes, more, from + 1);
    }
}

/// Nodes that come after the one that shows the first mesh with a skin, and
/// nodes that do not show it so, leave the skin that is found as it is.
pub proof fn law_later_nodes_leave_the_skin(nodes: Seq<NodeDecl>, more: Seq<NodeDecl>)
    requires
        later_nodes_idle(nodes, more),
    ensures
        skin_of_first_mesh(nodes + more, 0) == skin_of_first_mesh(nodes, 0),
{
    lemma_earlier_skin(nodes, more, 0);
    if skin_of_first_mesh(nodes, 0) is None {
        assert forall|n: int| nodes.len() <= n < (nodes + more).len() implies !shows_first_mesh(
            #[trigger] (nodes + more)[n],
        ) by {
            assert((nodes + more)[n] == more[n - nodes.len()]);
        }
        lemma_no_skin(nodes + more, nodes.len() as int);
    }
}

/// Only the first mesh is put together: nodes that show other meshes leave what
/// becomes of it as it is.
pub proof fn law_later_nodes_leave_the_mesh(
    path: Seq<char>,
    nodes: Seq<NodeDecl>,
    more: Seq<NodeDecl>,
    skins: Seq<Seq<Option<Seq<char>>>>,
    primitives: Option<Seq<PrimitiveSpec>>,
)
    requires
        later_nodes_idle(nodes, more),
    ensures
        assembled(path, nodes + more, skins, primitives) == assembled(
            path,
            nodes,
            skins,
            primitives,
        ),
{
    law_later_nodes_leave_the_skin(nodes, more);
}

/// The skin of the first node that shows the first mesh with a skin.
pub fn find_skin(nodes: &Vec<NodeDecl>) -> (skin: Option<usize>)
    ensures
        skin == skin_of_first_mesh(nodes@, 0),
{
    let mut i: usize = 0;
    while i < nodes.len()
        invariant
            i <= nodes@.len(),
            skin_of_first_mesh(nodes@, 0) == skin_of_first_mesh(nodes@, i as int),
        decreases nodes@.len() - i,
    {
        let node = nodes[i];
        if let (Some(0), Some(skin)) = (node.mesh, node.skin) {
            return Some(skin);
        }
        i += 1;
    }
    None
}

/// The names of joints, or the position of the first that has none.
pub fn name_joints(joints: &Vec<Option<String>>) -> (r: Result<Vec<String>, usize>)
    ensures
        ({
            let specs = joint_specs(joints@);
            match r {
                Ok(names) => first_unnamed(specs, 0) is None && names_of(names@) == joint_names(
                    specs,
                ),
                Err(i) => first_unnamed(specs, 0) == Some(i),
            }
        }),
{
    let ghost specs = joint_specs(joints@);
    let mut names: Vec<String> = Vec::new();
    let mut i: usize = 0;
    while i < joints.len()
        invariant
            i <= joints@.len(),
            specs == joint_specs(joints@),
            first_unnamed(specs, 0) == first_unnamed(specs, i as int),
            names@.len() == i,
            forall|j: int| 0 <= j < i ==> names@[j]@ == (#[trigger] specs[j])->0,
        decreases joints@.len() - i,
    {
        assert(specs[i as int] == option_text(joints@[i as int]));
        match &joints[i] {
            Some(name) => {
                names.push(name.clone());
            },
            None => {
                return Err(i);
            },
        }
        i += 1;
    }
    assert(names_of(names@) == joint_names(specs));
    Ok(names)
}

/// The skin found through the nodes exists.
pub(crate) proof fn lemma_skin_in_range(nodes: Seq<NodeDecl>, skin_count: nat, from: int)
    requires
        skins_in_range(nodes, skin_count),
        0 <= from,
    ensures
        skin_of_first_mesh(nodes, from) matches Some(skin) ==> skin < skin_count,
    decreases nodes.len() - from,
{
    if from < nodes.len() {
        lemma_skin_in_range(nodes, skin_count, from + 1);
        assert(nodes[from].skin matches Some(skin) ==> skin < skin_count);
    }
}

/// Why primitives could not be put together. Without an error there are more
/// vertices than indices can tell apart.
struct AssemblyFailure(Option<GltfLoadError>);

/// Puts primitives together, one after the other, up to the first that is not
/// well-formed.
fn join_primitives(path: &str, primitives: &Vec<PrimitiveData>) -> (r: Result<
    (Vec<SkinnedVertex>, Vec<u32>),
    AssemblyFailure,
>)
    ensures
        ({
            let list = primitive_specs(primitives@);
            match r {
                Ok((vertices, indices)) => {
                    &&& assembly(path@, list, 0) is Complete
                    &&& vertices@ == joined_vertices(list)
                    &&& indices@ == joined_indices(list)
                },
                Err(AssemblyFailure(Some(e))) => assembly(path@, list, 0) == Assembly::Fault(e@),
                Err(AssemblyFailure(None)) => assembly(path@, list, 0) is Oversized,
            }
        }),
{
    let ghost list = primitive_specs(primitives@);
    let mut vertices: Vec<SkinnedVertex> = Vec::new();
    let mut indices: Vec<u32> = Vec::new();
    let mut p: usize = 0;
    assert(list.take(0) == Seq::<PrimitiveSpec>::empty());
    while p < primitives.len()
        invariant
            p <= primitives@.len(),
            list == primitive_specs(primitives@),
            assembly(path@, list, 0) == assembly(path@, list, p as int),
            vertices@ == joined_vertices(list.take(p as int)),
            indices@ == joined_indices(list.take(p as int)),
            vertices@.len() <= max_vertices(),
        decreases primitives@.len() - p,
    {
        let data = &primitives[p];
        assert(data@ == list[p as int]);
        if let Err(e) = check_primitive(path, 0, p, data) {
            return Err(AssemblyFailure(Some(e)));
        }
        proof {
            law_check_accepts_the_well_formed(path@, 0, p, data@);
            assert(list.take(p + 1).drop_last() == list.take(p as int));
            assert(list.take(p + 1).last() == data@);
        }
        let count: usize = match &data.positions {
            Some(positions) => positions.len(),
            None => 0,
        };
        if count as u64 > 0x1_0000_0000 || vertices.len() as u64 > 0x1_0000_0000 - count as u64 {
            return Err(AssemblyFailure(None));
        }
        append_primitive(&mut vertices, &mut indices, data);
        p += 1;
    }
    assert(list.take(p as int) == list);
    Ok((vertices, indices))
}

/// Puts the first mesh of a document together.
pub fn assemble_mesh(
    path: &str,
    nodes: &Vec<NodeDecl>,
    skins: &Vec<Vec<Option<String>>>,
    primitives: &Option<Vec<PrimitiveData>>,
) -> (outcome: MeshOutcome)
    requires
        skins_in_range(nodes@, skins@.len()),
    ensures
        outcome@ == assembled(path@, nodes@, skin_specs(skins@), mesh_primitives(*primitives)),
        outcome matches MeshOutcome::Loaded(mesh) ==> indices_in_range(mesh@),
{
    proof {
        lemma_skin_in_range(nodes@, skins@.len(), 0);
        law_assembled_indices_in_range(
            path@,
            nodes@,
            skin_specs(skins@),
            mesh_primitives(*primitives),
        );
    }
    let primitives = match primitives {
        Some(primitives) => primitives,
        None => {
            return MeshOutcome::Failed(GltfLoadError::NoMeshes { path: path.to_string() });
        },
    };
    let skin: usize = match find_skin(nodes) {
        Some(skin) => skin,
        None => {
            return MeshOutcome::Failed(
                GltfLoadError::NoSkin { path: path.to_string(), mesh_index: 0 },
            );
        },
    };
    let local_bone_names = match name_joints(&skins[skin]) {
        Ok(names) => names,
        Err(joint_index) => {
            return MeshOutcome::Failed(
                GltfLoadError::UnnamedJoint { path: path.to_string(), joint_index },
            );
        },
    };
    match join_primitives(path, primitives) {
        Ok((vertices, indices)) => MeshOutcome::Loaded(
            LoadedMesh { vertices, indices, local_bone_names },
        ),
        Err(AssemblyFailure(Some(e))) => MeshOutcome::Failed(e),
        Err(AssemblyFailure(None)) => MeshOutcome::Oversized,
    }
}

} // verus!
