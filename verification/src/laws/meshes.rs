//! Checking primitives and putting them together to a mesh.

use vstd::prelude::*;

use crate::gltf_document::NodeDecl;
use crate::gltf_error::{GltfFault, Mode};
use crate::mesh_assembly::{
    assembled, assembly, first_unnamed, joint_names, joint_specs, mesh_primitives, primitive_specs,
    skin_of_first_mesh, skin_specs, Assembly, MeshOutcome, MeshResult,
};
use crate::primitive::{
    first_out_of_range, joined_indices, joined_vertices, primitive_fault, primitive_vertices,
    PrimitiveData, PrimitiveSpec,
};

verus! {

/// How many vertices the primitives before primitive `p` have.
pub open spec fn vertices_before(list: Seq<PrimitiveSpec>, p: int) -> nat
    decreases p,
{
    if p <= 0 {
        0
    } else {
        vertices_before(list, p - 1) + list[p - 1].positions->0.len()
    }
}

/// How many indices the primitives before primitive `p` have.
pub open spec fn indices_before(list: Seq<PrimitiveSpec>, p: int) -> nat
    decreases p,
{
    if p <= 0 {
        0
    } else {
        indices_before(list, p - 1) + list[p - 1].indices->0.len()
    }
}

/// Counts of earlier primitives do not depend on later ones.
proof fn lemma_counts_of_front(list: Seq<PrimitiveSpec>, p: int)
    requires
        0 <= p < list.len(),
    ensures
        vertices_before(list.drop_last(), p) == vertices_before(list, p),
        indices_before(list.drop_last(), p) == indices_before(list, p),
    decreases p,
{
    if p > 0 {
        lemma_counts_of_front(list, p - 1);
        assert(list.drop_last()[p - 1] == list[p - 1]);
    }
}

/// Item `i` of primitive `p` becomes the vertex that comes after all vertices of
/// the primitives before it and after `i` of its own, and holds the position,
/// normal, texture coordinates, joints and weights that were read for it, bit
/// for bit. There are no other vertices.
pub proof fn law_vertices_hold_what_was_read(list: Seq<PrimitiveSpec>, p: int, i: int)
    requires
        0 <= p < list.len(),
        0 <= i < list[p].positions->0.len(),
    ensures
        joined_vertices(list).len() == vertices_before(list, list.len() as int),
        vertices_before(list, p) + i < joined_vertices(list).len(),
        ({
            let vertex = joined_vertices(list)[vertices_before(list, p) + i];
            &&& vertex.position == list[p].positions->0[i]
            &&& vertex.normal == list[p].normals->0[i]
            &&& vertex.uv == list[p].tex_coords->0[i]
            &&& vertex.bone_indices == list[p].joints->0[i]
            &&& vertex.bone_weights == list[p].weights->0[i]
        }),
    decreases list.len(),
{
    law_no_vertex_is_lost(list);
    let front = list.drop_last();
    law_no_vertex_is_lost(front);
    let last = list.len() - 1;
    lemma_counts_of_front(list, p);
    lemma_counts_of_front(list, last);
    if p < last {
        assert(front[p] == list[p]);
        law_vertices_hold_what_was_read(front, p, i);
    } else {
        assert(list.last() == list[p]);
        assert(joined_vertices(front).len() == vertices_before(list, p));
        assert(joined_vertices(list)[vertices_before(list, p) + i] == primitive_vertices(
            list[p],
        )[i]);
    }
}

/// A mesh has as many vertices as its primitives have positions, and as many
/// indices as they have indices.
pub proof fn law_no_vertex_is_lost(list: Seq<PrimitiveSpec>)
    ensures
        joined_vertices(list).len() == vertices_before(list, list.len() as int),
        joined_indices(list).len() == indices_before(list, list.len() as int),
    decreases list.len(),
{
    if list.len() > 0 {
        law_no_vertex_is_lost(list.drop_last());
        lemma_counts_of_front(list, list.len() - 1);
    }
}

/// Index `k` of primitive `p` comes after all indices of the primitives before
/// it and after `k` of its own, moved by the number of vertices before its
/// primitive: so it names the same vertex in the mesh as in the primitive.
pub proof fn law_indices_name_the_same_vertices(list: Seq<PrimitiveSpec>, p: int, k: int)
    requires
        0 <= p < list.len(),
        0 <= k < list[p].indices->0.len(),
    ensures
        indices_before(list, p) + k < joined_indices(list).len(),
        vertices_before(list, p) + list[p].indices->0[k] < 0x1_0000_0000 ==> joined_indices(
            list,
        )[indices_before(list, p) + k] as int == vertices_before(list, p) + list[p].indices->0[k],
    decreases list.len(),
{
    law_no_vertex_is_lost(list);
    let front = list.drop_last();
    law_no_vertex_is_lost(front);
    let last = list.len() - 1;
    lemma_counts_of_front(list, p);
    lemma_counts_of_front(list, last);
    if p < last {
        assert(front[p] == list[p]);
        law_indices_name_the_same_vertices(front, p, k);
    } else {
        assert(list.last() == list[p]);
        assert(joined_indices(front).len() == indices_before(list, p));
        assert(joined_vertices(front).len() == vertices_before(list, p));
    }
}

/// Nothing stands in the way of a primitive that is a list of triangles, has all
/// attributes, as many items of each as positions, and indices below that
/// number.
pub proof fn law_a_whole_primitive_is_accepted(
    path: Seq<char>,
    mesh_index: usize,
    primitive_index: usize,
    data: PrimitiveSpec,
)
    ensures
        primitive_fault(path, mesh_index, primitive_index, data) is None <==> {
            &&& data.mode == Mode::Triangles
            &&& data.positions is Some
            &&& data.normals is Some
            &&& data.tex_coords is Some
            &&& data.joints is Some
            &&& data.weights is Some
            &&& data.indices is Some
            &&& data.normals->0.len() == data.positions->0.len()
            &&& data.tex_coords->0.len() == data.positions->0.len()
            &&& data.joints->0.len() == data.positions->0.len()
            &&& data.weights->0.len() == data.positions->0.len()
            &&& forall|i: int|
                0 <= i < data.indices->0.len() ==> #[trigger] data.indices->0[i]
                    < data.positions->0.len()
        },
{
    crate::primitive::law_check_accepts_the_well_formed(path, mesh_index, primitive_index, data);
}

/// The first index that is out of range is reported, and only if there is one.
pub proof fn law_the_first_bad_index_is_found(indices: Seq<u32>, from: int, count: nat)
    requires
        0 <= from <= indices.len(),
    ensures
        first_out_of_range(indices, from, count) matches Some(index) ==> exists|i: int|
            from <= i < indices.len() && (#[trigger] indices[i]) == index && index >= count
                && forall|j: int| from <= j < i ==> (#[trigger] indices[j]) < count,
        first_out_of_range(indices, from, count) is None <==> forall|i: int|
            from <= i < indices.len() ==> (#[trigger] indices[i]) < count,
    decreases indices.len() - from,
{
    if from < indices.len() {
        law_the_first_bad_index_is_found(indices, from + 1, count);
        if indices[from] < count {
            if let Some(index) = first_out_of_range(indices, from + 1, count) {
                let i = choose|i: int|
                    from + 1 <= i < indices.len() && (#[trigger] indices[i]) == index && index
                        >= count && forall|j: int| from + 1 <= j < i ==> (#[trigger] indices[j])
                        < count;
                assert(indices[i] == index);
                assert(forall|j: int| from <= j < i ==> (#[trigger] indices[j]) < count);
            }
        } else {
            assert(indices[from] >= count);
        }
    }
}

/// What is said of a primitive that is refused is so, and is said of that
/// primitive: the first thing wrong, in the order topology, positions, normals,
/// texture coordinates, joints, weights, indices.
pub proof fn law_a_refused_primitive_is_told_why(
    path: Seq<char>,
    mesh_index: usize,
    primitive_index: usize,
    data: PrimitiveSpec,
)
    requires
        data.positions is Some ==> data.positions->0.len() <= usize::MAX,
        data.normals is Some ==> data.normals->0.len() <= usize::MAX,
        data.tex_coords is Some ==> data.tex_coords->0.len() <= usize::MAX,
        data.joints is Some ==> data.joints->0.len() <= usize::MAX,
        data.weights is Some ==> data.weights->0.len() <= usize::MAX,
    ensures
        ({
            let fault = primitive_fault(path, mesh_index, primitive_index, data);
            let count = data.positions->0.len();
            &&& fault matches Some(GltfFault::UnsupportedTopology {
                path: p,
                mesh_index: m,
                primitive_index: i,
                mode,
            }) ==> p == path && m == mesh_index && i == primitive_index && mode == data.mode
            &&& fault is Some && fault->0 is UnsupportedTopology <==> data.mode != Mode::Triangles
            &&& fault matches Some(GltfFault::MissingAccessor {
                path: p,
                mesh_index: m,
                primitive_index: i,
                accessor,
            }) ==> {
                &&& p == path && m == mesh_index && i == primitive_index
                &&& accessor == "POSITION"@ && data.positions is None || accessor == "NORMAL"@
                    && data.normals is None || accessor == "TEXCOORD_0"@ && data.tex_coords is None
                    || accessor == "JOINTS_0"@ && data.joints is None || accessor == "WEIGHTS_0"@
                    && data.weights is None
            }
            &&& fault matches Some(GltfFault::AttributeLengthMismatch {
                path: p,
                mesh_index: m,
                primitive_index: i,
                attribute,
                expected,
                found,
            }) ==> {
                &&& p == path && m == mesh_index && i == primitive_index
                &&& expected == count && found != count
                &&& attribute == "NORMAL"@ && data.normals->0.len() == found || attribute
                    == "TEXCOORD_0"@ && data.tex_coords->0.len() == found || attribute
                    == "JOINTS_0"@ && data.joints->0.len() == found || attribute == "WEIGHTS_0"@
                    && data.weights->0.len() == found
            }
            &&& fault matches Some(GltfFault::MissingIndices {
                path: p,
                mesh_index: m,
                primitive_index: i,
            }) ==> p == path && m == mesh_index && i == primitive_index && data.indices is None
            &&& fault matches Some(GltfFault::IndexOutOfRange {
                path: p,
                mesh_index: m,
                primitive_index: i,
                index,
                vertex_count,
            }) ==> {
                &&& p == path && m == mesh_index && i == primitive_index
                &&& vertex_count == count && index >= count
                &&& data.indices->0.contains(index)
            }
        }),
{
    if data.positions is Some && data.indices is Some {
        let count = data.positions->0.len();
        law_the_first_bad_index_is_found(data.indices->0, 0, count);
    }
}

/// Attributes are looked at in order: one is only reported if those before it
/// are all right.
pub proof fn law_attributes_are_looked_at_in_order(
    path: Seq<char>,
    mesh: usize,
    primitive: usize,
    data: PrimitiveSpec,
)
    requires
        data.mode == Mode::Triangles,
    ensures
        ({
            let fault = primitive_fault(path, mesh, primitive, data);
            let count = data.positions->0.len();
            let normals = data.normals is Some && data.normals->0.len() == count;
            let tex_coords = data.tex_coords is Some && data.tex_coords->0.len() == count;
            let joints = data.joints is Some && data.joints->0.len() == count;
            let weights = data.weights is Some && data.weights->0.len() == count;
            &&& data.positions is None ==> fault == Some(
                GltfFault::MissingAccessor {
                    path,
                    mesh_index: mesh,
                    primitive_index: primitive,
                    accessor: "POSITION"@,
                },
            )
            &&& data.positions is Some && data.normals is None ==> fault == Some(
                GltfFault::MissingAccessor {
                    path,
                    mesh_index: mesh,
                    primitive_index: primitive,
                    accessor: "NORMAL"@,
                },
            )
            &&& data.positions is Some && normals && data.tex_coords is None ==> fault == Some(
                GltfFault::MissingAccessor {
                    path,
                    mesh_index: mesh,
                    primitive_index: primitive,
                    accessor: "TEXCOORD_0"@,
                },
            )
            &&& data.positions is Some && normals && tex_coords && data.joints is None ==> fault
                == Some(
                GltfFault::MissingAccessor {
                    path,
                    mesh_index: mesh,
                    primitive_index: primitive,
                    accessor: "JOINTS_0"@,
                },
            )
            &&& data.positions is Some && normals && tex_coords && joints && data.weights is None
                ==> fault == Some(
                GltfFault::MissingAccessor {
                    path,
                    mesh_index: mesh,
                    primitive_index: primitive,
                    accessor: "WEIGHTS_0"@,
                },
            )
            &&& data.positions is Some && normals && tex_coords && joints && weights
                && data.indices is None ==> fault == Some(
                GltfFault::MissingIndices { path, mesh_index: mesh, primitive_index: primitive },
            )
            &&& data.positions is Some && data.normals is Some && !normals ==> fault is Some
                && fault->0 is AttributeLengthMismatch
            &&& data.positions is Some && normals && data.tex_coords is Some && !tex_coords
                ==> fault is Some && fault->0 is AttributeLengthMismatch
            &&& data.positions is Some && normals && tex_coords && data.joints is Some && !joints
                ==> fault is Some && fault->0 is AttributeLengthMismatch
            &&& data.positions is Some && normals && tex_coords && joints && data.weights is Some
                && !weights ==> fault is Some && fault->0 is AttributeLengthMismatch
        }),
{
}

/// What was read is what the lists hold.
pub proof fn law_a_primitive_is_what_was_read(data: PrimitiveData)
    ensures
        data@.mode == data.mode,
        data.positions matches Some(list) ==> data@.positions == Some(list@),
        data.normals matches Some(list) ==> data@.normals == Some(list@),
        data.tex_coords matches Some(list) ==> data@.tex_coords == Some(list@),
        data.joints matches Some(list) ==> data@.joints == Some(list@),
        data.weights matches Some(list) ==> data@.weights == Some(list@),
        data.indices matches Some(list) ==> data@.indices == Some(list@),
        data.positions is None ==> data@.positions is None,
        data.normals is None ==> data@.normals is None,
        data.tex_coords is None ==> data@.tex_coords is None,
        data.joints is None ==> data@.joints is None,
        data.weights is None ==> data@.weights is None,
        data.indices is None ==> data@.indices is None,
{
}

/// The skin of a mesh is that of the first node, in order, that shows mesh 0 and
/// has a skin; there is none only if there is no such node.
pub proof fn law_the_skin_is_that_of_the_first_node(nodes: Seq<NodeDecl>, from: int)
    requires
        0 <= from <= nodes.len(),
    ensures
        skin_of_first_mesh(nodes, from) matches Some(skin) ==> exists|n: int|
            from <= n < nodes.len() && (#[trigger] nodes[n]).mesh == Some(0usize) && nodes[n].skin
                == Some(skin) && forall|m: int|
                from <= m < n ==> (#[trigger] nodes[m]).mesh != Some(0usize) || nodes[m].skin
                    is None,
        skin_of_first_mesh(nodes, from) is None <==> forall|n: int|
            from <= n < nodes.len() ==> (#[trigger] nodes[n]).mesh != Some(0usize) || nodes[n].skin
                is None,
    decreases nodes.len() - from,
{
    if from < nodes.len() {
        law_the_skin_is_that_of_the_first_node(nodes, from + 1);
        if nodes[from].mesh == Some(0usize) && nodes[from].skin is Some {
            assert(nodes[from].skin == skin_of_first_mesh(nodes, from));
        } else if let Some(skin) = skin_of_first_mesh(nodes, from + 1) {
            let n = choose|n: int|
                from + 1 <= n < nodes.len() && (#[trigger] nodes[n]).mesh == Some(0usize)
                    && nodes[n].skin == Some(skin) && forall|m: int|
                    from + 1 <= m < n ==> (#[trigger] nodes[m]).mesh != Some(0usize)
                        || nodes[m].skin is None;
            assert(nodes[n].skin == Some(skin));
            assert(forall|m: int|
                from <= m < n ==> (#[trigger] nodes[m]).mesh != Some(0usize) || nodes[m].skin
                    is None);
        }
    }
}

/// The joint that is reported is the first without a name.
pub proof fn law_the_first_joint_without_a_name_is_found(
    joints: Seq<Option<Seq<char>>>,
    from: int,
)
    requires
        0 <= from <= joints.len(),
        joints.len() <= usize::MAX,
    ensures
        first_unnamed(joints, from) matches Some(i) ==> from <= i < joints.len()
            && joints[i as int] is None && forall|j: int|
            from <= j < i ==> (#[trigger] joints[j]) is Some,
        first_unnamed(joints, from) is None <==> forall|j: int|
            from <= j < joints.len() ==> (#[trigger] joints[j]) is Some,
    decreases joints.len() - from,
{
    if from < joints.len() {
        law_the_first_joint_without_a_name_is_found(joints, from + 1);
        assert(joints[from] is None || joints[from] is Some);
    }
}

/// Primitives go together if every one of them is accepted, each under its own
/// number, and there are no more vertices than 32-bit indices can tell apart.
pub proof fn law_primitives_go_together_if_each_is_accepted(
    path: Seq<char>,
    list: Seq<PrimitiveSpec>,
    from: int,
)
    requires
        0 <= from <= list.len(),
        list.len() <= usize::MAX,
    ensures
        (forall|p: int|
            from <= p < list.len() ==> primitive_fault(path, 0, p as usize, #[trigger] list[p])
                is None) && vertices_before(list, list.len() as int) <= 0x1_0000_0000 ==> assembly(
            path,
            list,
            from,
        ) is Complete,
        assembly(path, list, from) is Complete ==> forall|p: int|
            from <= p < list.len() ==> primitive_fault(path, 0, p as usize, #[trigger] list[p])
                is None,
        assembly(path, list, from) matches Assembly::Fault(fault) ==> exists|p: int|
            from <= p < list.len() && primitive_fault(path, 0, p as usize, #[trigger] list[p])
                == Some(fault) && forall|q: int|
                from <= q < p ==> primitive_fault(path, 0, q as usize, #[trigger] list[q]) is None,
        assembly(path, list, from) is Oversized ==> vertices_before(list, list.len() as int)
            > 0x1_0000_0000,
    decreases list.len() - from,
{
    if from < list.len() {
        law_primitives_go_together_if_each_is_accepted(path, list, from + 1);
        law_no_vertex_is_lost(list.take(from + 1));
        lemma_counts_of_prefix(list, from + 1, from + 1);
        lemma_counts_grow(list, from + 1, list.len() as int);
        if primitive_fault(path, 0, from as usize, list[from]) is None {
            if let Assembly::Fault(fault) = assembly(path, list, from) {
                assert(assembly(path, list, from + 1) == Assembly::Fault(fault));
                let p = choose|p: int|
                    from + 1 <= p < list.len() && primitive_fault(
                        path,
                        0,
                        p as usize,
                        #[trigger] list[p],
                    ) == Some(fault) && forall|q: int|
                        from + 1 <= q < p ==> primitive_fault(
                            path,
                            0,
                            q as usize,
                            #[trigger] list[q],
                        ) is None;
                assert(primitive_fault(path, 0, p as usize, list[p]) == Some(fault));
                assert(forall|q: int|
                    from <= q < p ==> primitive_fault(path, 0, q as usize, #[trigger] list[q])
                        is None);
            }
        } else {
            assert(primitive_fault(path, 0, from as usize, list[from]) is Some);
        }
    }
}

/// Counts depend on the primitives counted only.
proof fn lemma_counts_of_prefix(list: Seq<PrimitiveSpec>, upto: int, p: int)
    requires
        0 <= p <= upto <= list.len(),
    ensures
        vertices_before(list.take(upto), p) == vertices_before(list, p),
    decreases p,
{
    if p > 0 {
        lemma_counts_of_prefix(list, upto, p - 1);
        assert(list.take(upto)[p - 1] == list[p - 1]);
    }
}

/// More primitives have no fewer vertices.
proof fn lemma_counts_grow(list: Seq<PrimitiveSpec>, p: int, q: int)
    requires
        0 <= p <= q <= list.len(),
    ensures
        vertices_before(list, p) <= vertices_before(list, q),
    decreases q,
{
    if p < q {
        lemma_counts_grow(list, p, q - 1);
    }
}

/// A mesh is put together if there is one, a node shows it with a skin, all
/// joints of that skin have names, and all primitives are accepted and not too
/// many. It then has the names of those joints, each and in order.
pub proof fn law_a_whole_mesh_is_put_together(
    path: Seq<char>,
    nodes: Seq<NodeDecl>,
    skins: Seq<Seq<Option<Seq<char>>>>,
    list: Seq<PrimitiveSpec>,
    n: int,
)
    requires
        list.len() <= usize::MAX,
        0 <= n < nodes.len(),
        nodes[n].mesh == Some(0usize),
        nodes[n].skin is Some,
        forall|m: int|
            0 <= m < n ==> (#[trigger] nodes[m]).mesh != Some(0usize) || nodes[m].skin is None,
        skins[nodes[n].skin->0 as int].len() <= usize::MAX,
        forall|j: int|
            0 <= j < skins[nodes[n].skin->0 as int].len() ==> (
            #[trigger] skins[nodes[n].skin->0 as int][j]) is Some,
        forall|p: int|
            0 <= p < list.len() ==> primitive_fault(path, 0, p as usize, #[trigger] list[p])
                is None,
        vertices_before(list, list.len() as int) <= 0x1_0000_0000,
    ensures
        assembled(path, nodes, skins, Some(list)) is Loaded,
        ({
            let mesh = assembled(path, nodes, skins, Some(list))->Loaded_0;
            let joints = skins[nodes[n].skin->0 as int];
            &&& mesh.vertices == joined_vertices(list)
            &&& mesh.indices == joined_indices(list)
            &&& mesh.local_bone_names.len() == joints.len()
            &&& forall|j: int|
                0 <= j < joints.len() ==> joints[j] == Some(#[trigger] mesh.local_bone_names[j])
        }),
{
    lemma_skin_of_node(nodes, n);
    law_the_first_joint_without_a_name_is_found(skins[nodes[n].skin->0 as int], 0);
    law_primitives_go_together_if_each_is_accepted(path, list, 0);
}

/// A mesh that cannot be put together fails over the first thing wrong: a joint
/// of its skin without a name, and only if there is none, what is wrong with its
/// primitives.
pub proof fn law_a_mesh_fails_over_the_first_thing_wrong(
    path: Seq<char>,
    nodes: Seq<NodeDecl>,
    skins: Seq<Seq<Option<Seq<char>>>>,
    list: Seq<PrimitiveSpec>,
    n: int,
    j: int,
)
    requires
        0 <= n < nodes.len(),
        nodes[n].mesh == Some(0usize),
        nodes[n].skin is Some,
        forall|m: int|
            0 <= m < n ==> (#[trigger] nodes[m]).mesh != Some(0usize) || nodes[m].skin is None,
        skins[nodes[n].skin->0 as int].len() <= usize::MAX,
    ensures
        ({
            let joints = skins[nodes[n].skin->0 as int];
            let result = assembled(path, nodes, skins, Some(list));
            let named = forall|k: int| 0 <= k < joints.len() ==> (#[trigger] joints[k]) is Some;
            &&& 0 <= j < joints.len() && joints[j] is None && (forall|k: int|
                0 <= k < j ==> (#[trigger] joints[k]) is Some) ==> result == MeshResult::Failed(
                GltfFault::UnnamedJoint { path, joint_index: j as usize },
            )
            &&& named ==> match assembly(path, list, 0) {
                Assembly::Fault(fault) => result == MeshResult::Failed(fault),
                Assembly::Oversized => result is Oversized,
                Assembly::Complete => result is Loaded,
            }
        }),
{
    let joints = skins[nodes[n].skin->0 as int];
    lemma_skin_of_node(nodes, n);
    law_the_first_joint_without_a_name_is_found(joints, 0);
    if 0 <= j < joints.len() && joints[j] is None && (forall|k: int|
        0 <= k < j ==> (#[trigger] joints[k]) is Some) {
        let i = first_unnamed(joints, 0);
        assert(i is Some);
        assert(!(i->0 < j));
        assert(!(j < i->0));
    }
}

/// The first node that shows mesh 0 with a skin gives the skin.
proof fn lemma_skin_of_node(nodes: Seq<NodeDecl>, n: int)
    requires
        0 <= n < nodes.len(),
        nodes[n].mesh == Some(0usize),
        nodes[n].skin is Some,
        forall|m: int|
            0 <= m < n ==> (#[trigger] nodes[m]).mesh != Some(0usize) || nodes[m].skin is None,
    ensures
        skin_of_first_mesh(nodes, 0) == nodes[n].skin,
{
    law_the_skin_is_that_of_the_first_node(nodes, 0);
    let skin = skin_of_first_mesh(nodes, 0);
    assert(skin is Some);
    let m = choose|m: int|
        0 <= m < nodes.len() && (#[trigger] nodes[m]).mesh == Some(0usize) && nodes[m].skin == skin
            && forall|k: int|
            0 <= k < m ==> (#[trigger] nodes[k]).mesh != Some(0usize) || nodes[k].skin is None;
    assert(nodes[m].skin is Some);
    assert(!(m < n));
    assert(!(n < m));
}

/// What is said of a mesh that is refused is so.
pub proof fn law_a_refused_mesh_is_told_why(
    path: Seq<char>,
    nodes: Seq<NodeDecl>,
    skins: Seq<Seq<Option<Seq<char>>>>,
    primitives: Option<Seq<PrimitiveSpec>>,
)
    requires
        forall|s: int| 0 <= s < skins.len() ==> (#[trigger] skins[s]).len() <= usize::MAX,
        forall|n: int|
            0 <= n < nodes.len() ==> ((#[trigger] nodes[n]).skin matches Some(skin) ==> skin
                < skins.len()),
    ensures
        primitives is None ==> assembled(path, nodes, skins, primitives) == MeshResult::Failed(
            GltfFault::NoMeshes { path },
        ),
        primitives is Some && (forall|n: int|
            0 <= n < nodes.len() ==> (#[trigger] nodes[n]).mesh != Some(0usize) || nodes[n].skin
                is None) ==> assembled(path, nodes, skins, primitives) == MeshResult::Failed(
            GltfFault::NoSkin { path, mesh_index: 0 },
        ),
        assembled(path, nodes, skins, primitives) matches MeshResult::Failed(
            GltfFault::NoMeshes { path: p },
        ) ==> p == path && primitives is None,
        assembled(path, nodes, skins, primitives) matches MeshResult::Failed(
            GltfFault::UnnamedJoint { path: p, joint_index },
        ) ==> p == path && exists|s: int|
            0 <= s < skins.len() && joint_index < (#[trigger] skins[s]).len()
                && skins[s][joint_index as int] is None,
{
    law_the_skin_is_that_of_the_first_node(nodes, 0);
    if let Some(skin) = skin_of_first_mesh(nodes, 0) {
        let n = choose|n: int|
            0 <= n < nodes.len() && (#[trigger] nodes[n]).mesh == Some(0usize) && nodes[n].skin
                == Some(skin);
        assert(nodes[n].skin == Some(skin));
        assert(skins[skin as int].len() <= usize::MAX);
        law_the_first_joint_without_a_name_is_found(skins[skin as int], 0);
        if primitives is Some && first_unnamed(skins[skin as int], 0) is None {
            lemma_assembly_faults(path, primitives->0, 0);
        }
    }
}

/// Putting primitives together fails over primitives only.
proof fn lemma_assembly_faults(path: Seq<char>, list: Seq<PrimitiveSpec>, from: int)
    ensures
        assembly(path, list, from) matches Assembly::Fault(fault) ==> !(fault is NoMeshes)
            && !(fault is UnnamedJoint) && !(fault is NoSkin),
    decreases list.len() - from,
{
    if 0 <= from < list.len() {
        lemma_assembly_faults(path, list, from + 1);
    }
}

/// What becomes of a mesh is what the outcome holds.
pub proof fn law_an_outcome_is_what_it_holds(outcome: MeshOutcome)
    ensures
        outcome matches MeshOutcome::Loaded(mesh) ==> outcome@ == MeshResult::Loaded(mesh@),
        outcome matches MeshOutcome::Failed(error) ==> outcome@ == MeshResult::Failed(error@),
        outcome is Oversized <==> outcome@ is Oversized,
{
}

/// Joints and primitives are taken one by one.
pub proof fn law_lists_are_taken_item_by_item(
    joints: Seq<Option<String>>,
    skins: Seq<Vec<Option<String>>>,
    named: Seq<Option<Seq<char>>>,
    list: Seq<PrimitiveData>,
    i: int,
)
    ensures
        joint_specs(joints).len() == joints.len(),
        0 <= i < joints.len() ==> match joints[i] {
            Some(name) => joint_specs(joints)[i] == Some(name@),
            None => joint_specs(joints)[i] is None,
        },
        skin_specs(skins).len() == skins.len(),
        0 <= i < skins.len() ==> skin_specs(skins)[i] == joint_specs(skins[i]@),
        joint_names(named).len() == named.len(),
        0 <= i < named.len() && named[i] is Some ==> named[i] == Some(joint_names(named)[i]),
        primitive_specs(list).len() == list.len(),
        0 <= i < list.len() ==> primitive_specs(list)[i] == list[i]@,
        mesh_primitives(None) is None,
{
}

} // verus!
