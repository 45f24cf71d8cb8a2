//! Mesh primitives: what makes one usable, and how several become one mesh.

use vstd::prelude::*;

use crate::gltf_document::option_items;
use crate::gltf_error::{GltfFault, GltfLoadError, Mode};
use crate::vertex::SkinnedVertex;

verus! {

/// What was read of a primitive. An attribute that is absent or that cannot be
/// read is `None`.
#[derive(Debug)]
pub struct PrimitiveData {
    pub mode: Mode,
    pub positions: Option<Vec<[u32; 3]>>,
    pub normals: Option<Vec<[u32; 3]>>,
    pub tex_coords: Option<Vec<[u32; 2]>>,
    pub joints: Option<Vec<[u16; 4]>>,
    pub weights: Option<Vec<[u32; 4]>>,
    pub indices: Option<Vec<u32>>,
}

/// A [`PrimitiveData`] over mathematical sequences.
pub struct PrimitiveSpec {
    pub mode: Mode,
    pub positions: Option<Seq<[u32; 3]>>,
    pub normals: Option<Seq<[u32; 3]>>,
    pub tex_coords: Option<Seq<[u32; 2]>>,
    pub joints: Option<Seq<[u16; 4]>>,
    pub weights: Option<Seq<[u32; 4]>>,
    pub indices: Option<Seq<u32>>,
}

impl View for PrimitiveData {
    type V = PrimitiveSpec;

    open spec fn view(&self) -> PrimitiveSpec {
        PrimitiveSpec {
            mode: self.mode,
            positions: option_items(self.positions),
            normals: option_items(self.normals),
            tex_coords: option_items(self.tex_coords),
            joints: option_items(self.joints),
            weights: option_items(self.weights),
            indices: option_items(self.indices),
        }
    }
}

/// What is wrong with a vertex attribute, if anything: it is missing, or its
/// length is not that of the positions.
pub open spec fn attribute_fault<T>(
    path: Seq<char>,
    mesh_index: usize,
    primitive_index: usize,
    name: Seq<char>,
    expected: nat,
    items: Option<Seq<T>>,
) -> Option<GltfFault> {
    match items {
        None => Some(
            GltfFault::MissingAccessor { path, mesh_index, primitive_index, accessor: name },
        ),
        Some(list) => if list.len() == expected {
            None
        } else {
            Some(
                GltfFault::AttributeLengthMismatch {
                    path,
                    mesh_index,
                    primitive_index,
                    attribute: name,
                    expected: expected as usize,
                    found: list.len() as usize,
                },
            )
        },
    }
}

/// The first index, from position `from` on, that names none of `count`
/// vertices.
pub open spec fn first_out_of_range(indices: Seq<u32>, from: int, count: nat) -> Option<u32>
    decreases indices.len() - from,
{
    if 0 <= from < indices.len() {
        if indices[from] >= count {
            Some(indices[from])
        } else {
            first_out_of_range(indices, from + 1, count)
        }
    } else {
        None
    }
}

/// What is wrong with the index list of a primitive, if anything.
pub open spec fn indices_fault(
    path: Seq<char>,
    mesh_index: usize,
    primitive_index: usize,
    count: nat,
    indices: Option<Seq<u32>>,
) -> Option<GltfFault> {
    match indices {
        None => Some(GltfFault::MissingIndices { path, mesh_index, primitive_index }),
        Some(list) => match first_out_of_range(list, 0, count) {
            Some(index) => Some(
                GltfFault::IndexOutOfRange {
                    path,
                    mesh_index,
                    primitive_index,
                    index,
                    vertex_count: count as usize,
                },
            ),
            None => None,
        },
    }
}

/// The first thing wrong with a primitive, if anything, in the order in which
/// topology, attributes and indices are looked at.
pub open spec fn primitive_fault(
    path: Seq<char>,
    mesh: usize,
    primitive: usize,
    data: PrimitiveSpec,
) -> Option<GltfFault> {
    if data.mode != Mode::Triangles {
        Some(
            GltfFault::UnsupportedTopology {
                path,
                mesh_index: mesh,
                primitive_index: primitive,
                mode: data.mode,
            },
        )
    } else if data.positions is None {
        Some(
            GltfFault::MissingAccessor {
                path,
                mesh_index: mesh,
                primitive_index: primitive,
                accessor: "POSITION"@,
            },
        )
    } else {
        let count = data.positions->0.len();
        let normal = attribute_fault(path, mesh, primitive, "NORMAL"@, count, data.normals);
        let tex_coord = attribute_fault(
            path,
            mesh,
            primitive,
            "TEXCOORD_0"@,
            count,
            data.tex_coords,
        );
        let joints = attribute_fault(path, mesh, primitive, "JOINTS_0"@, count, data.joints);
        let weights = attribute_fault(path, mesh, primitive, "WEIGHTS_0"@, count, data.weights);
        if normal is Some {
            normal
        } else if tex_coord is Some {
            tex_coord
        } else if joints is Some {
            joints
        } else if weights is Some {
            weights
        } else {
            indices_fault(path, mesh, primitive, count, data.indices)
        }
    }
}

/// Requires that an attribute has as many elements as there are vertices.
pub fn require_len(
    path: &str,
    mesh_index: usize,
    primitive_index: usize,
    attribute: &'static str,
    expected: usize,
    found: usize,
) -> (r: Result<(), GltfLoadError>)
    ensures
        match r {
            Ok(()) => expected == found,
            Err(e) => expected != found && e@ == (GltfFault::AttributeLengthMismatch {
                path: path@,
                mesh_index,
                primitive_index,
                attribute: attribute@,
                expected,
                found,
            }),
        },
{
    if expected != found {
        return Err(
            GltfLoadError::AttributeLengthMismatch {
                path: path.to_string(),
                mesh_index,
                primitive_index,
                attribute,
                expected,
                found,
            },
        );
    }
    Ok(())
}

/// Requires that an attribute is there and has as many elements as there are
/// vertices.
fn check_attribute<T>(
    path: &str,
    mesh_index: usize,
    primitive_index: usize,
    attribute: &'static str,
    expected: usize,
    items: &Option<Vec<T>>,
) -> (r: Result<(), GltfLoadError>)
    ensures
        match r {
            Ok(()) => attribute_fault(
                path@,
                mesh_index,
                primitive_index,
                attribute@,
                expected as nat,
                option_items(*items),
            ) is None,
            Err(e) => attribute_fault(
                path@,
                mesh_index,
                primitive_index,
                attribute@,
                expected as nat,
                option_items(*items),
            ) == Some(e@),
        },
{
    match items {
        None => Err(
            GltfLoadError::MissingAccessor {
                path: path.to_string(),
                mesh_index,
                primitive_index,
                accessor: attribute,
            },
        ),
        Some(list) => require_len(
            path,
            mesh_index,
            primitive_index,
            attribute,
            expected,
            list.len(),
        ),
    }
}

/// Requires that every index names one of the primitive's own vertices.
fn check_indices(
    path: &str,
    mesh_index: usize,
    primitive_index: usize,
    vertex_count: usize,
    indices: &Option<Vec<u32>>,
) -> (r: Result<(), GltfLoadError>)
    ensures
        match r {
            Ok(()) => indices_fault(
                path@,
                mesh_index,
                primitive_index,
                vertex_count as nat,
                option_items(*indices),
            ) is None,
            Err(e) => indices_fault(
                path@,
                mesh_index,
                primitive_index,
                vertex_count as nat,
                option_items(*indices),
            ) == Some(e@),
        },
{
    let list = match indices {
        Some(list) => list,
        None => {
            return Err(
                GltfLoadError::MissingIndices {
                    path: path.to_string(),
                    mesh_index,
                    primitive_index,
                },
            );
        },
    };
    let mut i: usize = 0;
    while i < list.len()
        invariant
            i <= list@.len(),
            option_items(*indices) == Some(list@),
            first_out_of_range(list@, 0, vertex_count as nat) == first_out_of_range(
                list@,
                i as int,
                vertex_count as nat,
            ),
        decreases list@.len() - i,
    {
        let index: u32 = list[i];
        if index as usize >= vertex_count {
            return Err(
                GltfLoadError::IndexOutOfRange {
                    path: path.to_string(),
                    mesh_index,
                    primitive_index,
                    index,
                    vertex_count,
                },
            );
        }
        i += 1;
    }
    Ok(())
}

/// Requires that a primitive is a list of triangles with every attribute there
/// and of one length, and with indices that name its own vertices.
pub fn check_primitive(
    path: &str,
    mesh_index: usize,
    primitive_index: usize,
    data: &PrimitiveData,
) -> (r: Result<(), GltfLoadError>)
    ensures
        match r {
            Ok(()) => primitive_fault(path@, mesh_index, primitive_index, data@) is None,
            Err(e) => primitive_fault(path@, mesh_index, primitive_index, data@) == Some(e@),
        },
{
    match data.mode {
        Mode::Triangles => {},
        _ => {
            return Err(
                GltfLoadError::UnsupportedTopology {
                    path: path.to_string(),
                    mesh_index,
                    primitive_index,
                    mode: data.mode,
                },
            );
        },
    }
    let count: usize = match &data.positions {
        Some(list) => list.len(),
        None => {
            return Err(
                GltfLoadError::MissingAccessor {
                    path: path.to_string(),
                    mesh_index,
                    primitive_index,
                    accessor: "POSITION",
                },
            );
        },
    };
    check_attribute(path, mesh_index, primitive_index, "NORMAL", count, &data.normals)?;
    check_attribute(path, mesh_index, primitive_index, "TEXCOORD_0", count, &data.tex_coords)?;
    check_attribute(path, mesh_index, primitive_index, "JOINTS_0", count, &data.joints)?;
    check_attribute(path, mesh_index, primitive_index, "WEIGHTS_0", count, &data.weights)?;
    check_indices(path, mesh_index, primitive_index, count, &data.indices)
}

/// The vertices that the attributes of a primitive make up.
pub open spec fn primitive_vertices(data: PrimitiveSpec) -> Seq<SkinnedVertex> {
    Seq::new(
        data.positions->0.len(),
        |i: int|
            SkinnedVertex {
                position: data.positions->0[i],
                normal: data.normals->0[i],
                uv: data.tex_coords->0[i],
                bone_indices: data.joints->0[i],
                bone_weights: data.weights->0[i],
            },
    )
}

/// The vertices of several primitives, one after the other.
pub open spec fn joined_vertices(list: Seq<PrimitiveSpec>) -> Seq<SkinnedVertex>
    decreases list.len(),
{
    if list.len() == 0 {
        seq![]
    } else {
        joined_vertices(list.drop_last()) + primitive_vertices(list.last())
    }
}

/// The indices of several primitives, each moved to where the vertices of its
/// primitive start.
pub open spec fn joined_indices(list: Seq<PrimitiveSpec>) -> Seq<u32>
    decreases list.len(),
{
    if list.len() == 0 {
        seq![]
    } else {
        joined_indices(list.drop_last()) + shifted(
            list.last().indices->0,
            joined_vertices(list.drop_last()).len(),
        )
    }
}

/// Indices moved by `base`.
pub open spec fn shifted(indices: Seq<u32>, base: nat) -> Seq<u32> {
    Seq::new(indices.len(), |i: int| (indices[i] + base) as u32)
}

/// How many vertices 32-bit indices can tell apart.
pub open spec fn max_vertices() -> nat {
    0x1_0000_0000
}

/// Whether a primitive is a list of triangles with every attribute there and
/// of one length, and with indices that name its own vertices.
pub open spec fn well_formed(data: PrimitiveSpec) -> bool {
    &&& data.mode == Mode::Triangles
    &&& data.positions is Some
    &&& data.normals matches Some(list) && list.len() == data.positions->0.len()
    &&& data.tex_coords matches Some(list) && list.len() == data.positions->0.len()
    &&& data.joints matches Some(list) && list.len() == data.positions->0.len()
    &&& data.weights matches Some(list) && list.len() == data.positions->0.len()
    &&& data.indices matches Some(list) && forall|i: int|
        0 <= i < list.len() ==> #[trigger] list[i] < data.positions->0.len()
}

/// No index is out of range if and only if each is in range.
proof fn lemma_first_out_of_range(indices: Seq<u32>, from: int, count: nat)
    requires
        0 <= from,
    ensures
        first_out_of_range(indices, from, count) is None <==> forall|i: int|
            from <= i < indices.len() ==> #[trigger] indices[i] < count,
    decreases indices.len() - from,
{
    if from < indices.len() {
        lemma_first_out_of_range(indices, from + 1, count);
    }
}

/// A primitive passes its check if and only if it is well-formed.
pub proof fn law_check_accepts_the_well_formed(
    path: Seq<char>,
    mesh_index: usize,
    primitive_index: usize,
    data: PrimitiveSpec,
)
    ensures
        primitive_fault(path, mesh_index, primitive_index, data) is None <==> well_formed(data),
{
    if data.positions is Some && data.indices is Some {
        lemma_first_out_of_range(data.indices->0, 0, data.positions->0.len());
    }
}

/// Appends the vertices and the indices of a well-formed primitive.
pub fn append_primitive(
    vertices: &mut Vec<SkinnedVertex>,
    indices: &mut Vec<u32>,
    data: &PrimitiveData,
)
    requires
        well_formed(data@),
        old(vertices)@.len() + data@.positions->0.len() <= max_vertices(),
    ensures
        final(vertices)@ == old(vertices)@ + primitive_vertices(data@),
        final(indices)@ == old(indices)@ + shifted(data@.indices->0, old(vertices)@.len()),
        final(vertices)@.len() == old(vertices)@.len() + data.positions->0@.len(),
        forall|i: int|
            0 <= i < old(vertices)@.len() ==> #[trigger] final(vertices)@[i] == old(vertices)@[i],
        forall|i: int|
            0 <= i < data.positions->0@.len() ==> (#[trigger] final(vertices)@[old(vertices)@.len()
                + i]).position == data.positions->0@[i] && final(vertices)@[old(vertices)@.len()
                + i].normal == data.normals->0@[i] && final(vertices)@[old(vertices)@.len() + i].uv
                == data.tex_coords->0@[i] && final(vertices)@[old(vertices)@.len()
                + i].bone_indices == data.joints->0@[i] && final(vertices)@[old(vertices)@.len()
                + i].bone_weights == data.weights->0@[i],
        final(indices)@.len() == old(indices)@.len() + data.indices->0@.len(),
        forall|k: int|
            0 <= k < old(indices)@.len() ==> #[trigger] final(indices)@[k] == old(indices)@[k],
        forall|k: int|
            0 <= k < data.indices->0@.len() ==> (#[trigger] final(indices)@[old(indices)@.len()
                + k]) as int == data.indices->0@[k] + old(vertices)@.len(),
{
    let base: u64 = vertices.len() as u64;
    if let (Some(positions), Some(normals), Some(uvs), Some(joints), Some(weights), Some(list)) = (
        &data.positions,
        &data.normals,
        &data.tex_coords,
        &data.joints,
        &data.weights,
        &data.indices,
    ) {
        let ghost before = vertices@;
        let ghost start = indices@;
        assert(data@.indices->0 == list@);
        assert(forall|j: int|
            0 <= j < data@.indices->0.len() ==> data@.indices->0[j] < data@.positions->0.len());
        let count: usize = positions.len();
        let mut i: usize = 0;
        while i < count
            invariant
                i <= count,
                count == positions@.len(),
                normals@.len() == count,
                uvs@.len() == count,
                joints@.len() == count,
                weights@.len() == count,
                data@.positions == Some(positions@),
                data@.normals == Some(normals@),
                data@.tex_coords == Some(uvs@),
                data@.joints == Some(joints@),
                data@.weights == Some(weights@),
                vertices@ == before + primitive_vertices(data@).take(i as int),
            decreases count - i,
        {
            vertices.push(
                SkinnedVertex {
                    position: positions[i],
                    normal: normals[i],
                    uv: uvs[i],
                    bone_indices: joints[i],
                    bone_weights: weights[i],
                },
            );
            i += 1;
        }
        assert(primitive_vertices(data@).take(count as int) == primitive_vertices(data@));
        let mut k: usize = 0;
        while k < list.len()
            invariant
                k <= list@.len(),
                data@.indices == Some(list@),
                base == before.len(),
                base + count <= 0x1_0000_0000,
                forall|j: int| 0 <= j < list@.len() ==> list@[j] < count,
                indices@ == start + shifted(list@, base as nat).take(k as int),
            decreases list@.len() - k,
        {
            let index: u32 = list[k];
            indices.push((index as u64 + base) as u32);
            k += 1;
        }
        assert(shifted(list@, base as nat).take(list@.len() as int) == shifted(
            list@,
            base as nat,
        ));
    }
}

/// The joined indices of well-formed primitives name joined vertices.
pub proof fn lemma_joined_indices_in_range(list: Seq<PrimitiveSpec>)
    requires
        forall|p: int| 0 <= p < list.len() ==> well_formed(#[trigger] list[p]),
        joined_vertices(list).len() <= max_vertices(),
    ensures
        forall|i: int|
            0 <= i < joined_indices(list).len() ==> #[trigger] joined_indices(list)[i]
                < joined_vertices(list).len(),
    decreases list.len(),
{
    if list.len() > 0 {
        let front = list.drop_last();
        assert forall|p: int| 0 <= p < front.len() implies well_formed(#[trigger] front[p]) by {
            assert(front[p] == list[p]);
        }
        assert(well_formed(list[list.len() - 1]));
        lemma_joined_indices_in_range(front);
        assert forall|i: int| 0 <= i < joined_indices(list).len() implies #[trigger] joined_indices(
            list,
        )[i] < joined_vertices(list).len() by {
            if i < joined_indices(front).len() {
                assert(joined_indices(list)[i] == joined_indices(front)[i]);
            } else {
                let k = i - joined_indices(front).len();
                assert(list.last().indices->0[k] < list.last().positions->0.len());
            }
        }
    }
}


} // verus!
